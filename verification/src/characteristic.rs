//! Identifiers of GATT characteristics.

use core::cmp::Ordering;
use vstd::prelude::*;
use vstd::string::*;
use crate::adapter::ROOT_PREFIX;
use crate::bleuuid::Uuid;
use crate::error::BluetoothError;
use crate::flags::{CharacteristicFlags, decoded_flags};
use crate::path::{
    child_of, child_text, depth, is_object_path, is_segment, lemma_child, lemma_parent, parent_of,
    parent_text, path_depth, segment_text, strip_root, stripped,
};
use crate::property::texts;
use crate::service::ServiceId;
use crate::text::{compare_text, starts_with, text_order};

verus! {

/// The prefix that the daemon gives to the node name of every characteristic.
pub const CHARACTERISTIC_PREFIX: &'static str = "char";

/// Opaque identifier for a characteristic on a Bluetooth device.
#[derive(Debug, Eq, Hash, Ord)]
pub struct CharacteristicId {
    object_path: String,
}

impl View for CharacteristicId {
    type V = Seq<char>;

    /// The object path that the identifier stands for.
    closed spec fn view(&self) -> Seq<char> {
        self.object_path@
    }
}

impl Clone for CharacteristicId {
    fn clone(&self) -> (copy: Self)
        ensures
            copy == *self,
    {
        proof {
            use_type_invariant(self);
        }
        CharacteristicId { object_path: self.object_path.clone() }
    }
}

impl PartialEq for CharacteristicId {
    fn eq(&self, other: &Self) -> (same: bool) {
        self.object_path == other.object_path
    }
}

impl vstd::std_specs::cmp::PartialEqSpecImpl for CharacteristicId {
    open spec fn obeys_eq_spec() -> bool {
        true
    }

    open spec fn eq_spec(&self, other: &Self) -> bool {
        self@ == other@
    }
}

impl PartialOrd for CharacteristicId {
    fn partial_cmp(&self, other: &Self) -> (order: Option<Ordering>) {
        Some(compare_text(self.object_path.as_str(), other.object_path.as_str()))
    }
}

impl vstd::std_specs::cmp::PartialOrdSpecImpl for CharacteristicId {
    open spec fn obeys_partial_cmp_spec() -> bool {
        true
    }

    /// Identifiers are ordered as their paths are.
    open spec fn partial_cmp_spec(&self, other: &Self) -> Option<Ordering> {
        Some(text_order(self@, other@))
    }
}

impl CharacteristicId {
    /// A characteristic identifier holds an object path of four segments or more, so that
    /// every container above it has a path of its own.
    pub open spec fn wf(&self) -> bool {
        is_object_path(self@) && depth(self@) >= 4
    }

    #[verifier::type_invariant]
    spec fn inv(&self) -> bool {
        self.wf()
    }

    /// A node name that the daemon gives to a characteristic: a path segment that begins
    /// with the characteristic prefix.
    pub open spec fn is_node_name(name: Seq<char>) -> bool {
        is_segment(name) && CHARACTERISTIC_PREFIX@.is_prefix_of(name)
    }

    /// Makes the identifier of the characteristic at `object_path`, or `None` where that is no
    /// object path of four segments or more.
    pub fn new(object_path: &str) -> (id: Option<CharacteristicId>)
        ensures
            id is Some <==> is_object_path(object_path@) && depth(object_path@) >= 4,
            id matches Some(d) ==> d@ == object_path@ && d.wf(),
    {
        match path_depth(object_path) {
            Some(d) => {
                if d >= 4 {
                    Some(CharacteristicId { object_path: String::from_str(object_path) })
                } else {
                    None
                }
            },
            None => None,
        }
    }

    /// Makes the identifier of the characteristic that `service` holds under the node name `name`,
    /// or `None` where `name` is no node name of a characteristic.
    pub fn in_service(service: &ServiceId, name: &str) -> (id: Option<CharacteristicId>)
        ensures
            id is Some <==> Self::is_node_name(name@),
            id matches Some(c) ==> c@ == child_of(service@, name@) && c.wf(),
    {
        if segment_text(name) && starts_with(name, CHARACTERISTIC_PREFIX) {
            let parent = service.as_str();
            proof {
                lemma_child(parent@, name@);
            }
            Some(CharacteristicId { object_path: child_text(parent, name) })
        } else {
            None
        }
    }

    /// The identifier of the service that holds this characteristic.
    pub fn service(&self) -> (service: ServiceId)
        ensures
            service@ == parent_of(self@),
            service.wf(),
    {
        proof {
            use_type_invariant(self);
            lemma_parent(self@);
        }
        ServiceId::from_valid(parent_text(self.object_path.as_str()))
    }

    /// Wraps an object path that is already known to suit this kind of identifier.
    pub(crate) fn from_valid(object_path: String) -> (id: CharacteristicId)
        requires
            is_object_path(object_path@) && depth(object_path@) >= 4,
        ensures
            id@ == object_path@,
            id.wf(),
    {
        CharacteristicId { object_path }
    }

    /// The object path of the characteristic.
    pub fn as_str(&self) -> (path: &str)
        ensures
            path@ == self@,
            self.wf(),
    {
        proof {
            use_type_invariant(self);
        }
        self.object_path.as_str()
    }

    /// The short name of the characteristic, such as `hci0/dev_11_22_33_44_55_66/service0022/char0033`: its path without the
    /// daemon's root. `None` where the path lies under another root.
    pub fn display(&self) -> (name: Option<String>)
        ensures
            name is Some <==> stripped(self@, ROOT_PREFIX@) is Some,
            name matches Some(n) ==> Some(n@) == stripped(self@, ROOT_PREFIX@),
    {
        strip_root(self.object_path.as_str(), ROOT_PREFIX)
    }
}

/// Taking the service of a characteristic made inside a service gives that service back.
pub proof fn lemma_service_of_characteristic(service: ServiceId, name: Seq<char>)
    requires
        service.wf(),
        CharacteristicId::is_node_name(name),
    ensures
        parent_of(child_of(service@, name)) == service@,
{
    lemma_child(service@, name);
}

/// Information about a GATT characteristic on a Bluetooth device.
#[derive(Debug, PartialEq, Eq)]
pub struct CharacteristicInfo {
    /// An opaque identifier for the characteristic on the device, including a reference
    /// to which adapter it was discovered on.
    pub id: CharacteristicId,
    /// The 128-bit UUID of the characteristic.
    pub uuid: Uuid,
    /// The set of flags (a.k.a. properties) of the characteristic, defining how the
    /// characteristic can be used.
    pub flags: CharacteristicFlags,
}

impl Clone for CharacteristicInfo {
    fn clone(&self) -> (copy: Self)
        ensures
            copy == *self,
    {
        CharacteristicInfo { id: self.id.clone(), uuid: self.uuid, flags: self.flags }
    }
}

impl CharacteristicInfo {
    /// Makes the record of the characteristic `id` from what the daemon reports of it.
    /// The text of the UUID must parse, and every flag must be known.
    pub fn from_properties(id: CharacteristicId, uuid: &str, flags: &Vec<String>) -> (info:
        Result<CharacteristicInfo, BluetoothError>)
        ensures
            match Uuid::parsed(uuid@) {
                Some(parsed) => match decoded_flags(texts(flags@)) {
                    Ok(set) => info matches Ok(record) && record.id == id && record.uuid
                        == parsed && record.flags == set,
                    Err(bad) => info matches Err(BluetoothError::FlagParseError(token))
                        && token@ == bad,
                },
                None => info matches Err(e) && e is UUIDParseError,
            },
    {
        let uuid = match Uuid::parse_str(uuid) {
            Ok(uuid) => uuid,
            Err(e) => {
                return Err(e);
            },
        };
        match CharacteristicFlags::from_tokens(flags) {
            Ok(flags) => Ok(CharacteristicInfo { id, uuid, flags }),
            Err(e) => Err(e),
        }
    }

    /// Finds the first of `characteristics` with the given UUID.
    pub fn find_by_uuid(characteristics: &Vec<CharacteristicInfo>, uuid: Uuid) -> (found: Result<
        CharacteristicInfo,
        BluetoothError,
    >)
        ensures
            match found {
                Ok(info) => exists|i: int|
                    {
                        &&& 0 <= i < characteristics@.len()
                        &&& info == #[trigger] characteristics@[i]
                        &&& info.uuid == uuid
                        &&& forall|j: int| 0 <= j < i ==> (#[trigger] characteristics@[j]).uuid != uuid
                    },
                Err(e) => {
                    &&& e matches BluetoothError::UUIDNotFound { uuid: missing }
                    &&& missing == uuid
                    &&& forall|j: int|
                        0 <= j < characteristics@.len() ==> (#[trigger] characteristics@[j]).uuid != uuid
                },
            },
    {
        let mut i: usize = 0;
        while i < characteristics.len()
            invariant
                i <= characteristics.len(),
                forall|j: int| 0 <= j < i ==> (#[trigger] characteristics@[j]).uuid != uuid,
            decreases characteristics.len() - i,
        {
            if characteristics[i].uuid == uuid {
                return Ok(characteristics[i].clone());
            }
            i += 1;
        }
        Err(BluetoothError::UUIDNotFound { uuid })
    }
}

} // verus!
