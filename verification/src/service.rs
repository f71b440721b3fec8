//! Identifiers of GATT services.

use core::cmp::Ordering;
use vstd::prelude::*;
use vstd::string::*;
use crate::adapter::ROOT_PREFIX;
use crate::bleuuid::Uuid;
use crate::device::DeviceId;
use crate::error::BluetoothError;
use crate::path::{
    child_of, child_text, depth, is_object_path, is_segment, lemma_child, lemma_parent, parent_of,
    parent_text, path_depth, segment_text, strip_root, stripped,
};
use crate::text::{compare_text, starts_with, text_order};

verus! {

/// The prefix that the daemon gives to the node name of every service.
pub const SERVICE_PREFIX: &'static str = "service";

/// Opaque identifier for a service on a Bluetooth device.
#[derive(Debug, Eq, Hash, Ord)]
pub struct ServiceId {
    object_path: String,
}

impl View for ServiceId {
    type V = Seq<char>;

    /// The object path that the identifier stands for.
    closed spec fn view(&self) -> Seq<char> {
        self.object_path@
    }
}

impl Clone for ServiceId {
    fn clone(&self) -> (copy: Self)
        ensures
            copy == *self,
    {
        proof {
            use_type_invariant(self);
        }
        ServiceId { object_path: self.object_path.clone() }
    }
}

impl PartialEq for ServiceId {
    fn eq(&self, other: &Self) -> (same: bool) {
        self.object_path == other.object_path
    }
}

impl vstd::std_specs::cmp::PartialEqSpecImpl for ServiceId {
    open spec fn obeys_eq_spec() -> bool {
        true
    }

    open spec fn eq_spec(&self, other: &Self) -> bool {
        self@ == other@
    }
}

impl PartialOrd for ServiceId {
    fn partial_cmp(&self, other: &Self) -> (order: Option<Ordering>) {
        Some(compare_text(self.object_path.as_str(), other.object_path.as_str()))
    }
}

impl vstd::std_specs::cmp::PartialOrdSpecImpl for ServiceId {
    open spec fn obeys_partial_cmp_spec() -> bool {
        true
    }

    /// Identifiers are ordered as their paths are.
    open spec fn partial_cmp_spec(&self, other: &Self) -> Option<Ordering> {
        Some(text_order(self@, other@))
    }
}

impl ServiceId {
    /// A service identifier holds an object path of three segments or more, so that
    /// every container above it has a path of its own.
    pub open spec fn wf(&self) -> bool {
        is_object_path(self@) && depth(self@) >= 3
    }

    #[verifier::type_invariant]
    spec fn inv(&self) -> bool {
        self.wf()
    }

    /// A node name that the daemon gives to a service: a path segment that begins
    /// with the service prefix.
    pub open spec fn is_node_name(name: Seq<char>) -> bool {
        is_segment(name) && SERVICE_PREFIX@.is_prefix_of(name)
    }

    /// Makes the identifier of the service at `object_path`, or `None` where that is no
    /// object path of three segments or more.
    pub fn new(object_path: &str) -> (id: Option<ServiceId>)
        ensures
            id is Some <==> is_object_path(object_path@) && depth(object_path@) >= 3,
            id matches Some(d) ==> d@ == object_path@ && d.wf(),
    {
        match path_depth(object_path) {
            Some(d) => {
                if d >= 3 {
                    Some(ServiceId { object_path: String::from_str(object_path) })
                } else {
                    None
                }
            },
            None => None,
        }
    }

    /// Makes the identifier of the service that `device` holds under the node name `name`,
    /// or `None` where `name` is no node name of a service.
    pub fn in_device(device: &DeviceId, name: &str) -> (id: Option<ServiceId>)
        ensures
            id is Some <==> Self::is_node_name(name@),
            id matches Some(c) ==> c@ == child_of(device@, name@) && c.wf(),
    {
        if segment_text(name) && starts_with(name, SERVICE_PREFIX) {
            let parent = device.as_str();
            proof {
                lemma_child(parent@, name@);
            }
            Some(ServiceId { object_path: child_text(parent, name) })
        } else {
            None
        }
    }

    /// The identifier of the device that holds this service.
    pub fn device(&self) -> (device: DeviceId)
        ensures
            device@ == parent_of(self@),
            device.wf(),
    {
        proof {
            use_type_invariant(self);
            lemma_parent(self@);
        }
        DeviceId::from_valid(parent_text(self.object_path.as_str()))
    }

    /// Wraps an object path that is already known to suit this kind of identifier.
    pub(crate) fn from_valid(object_path: String) -> (id: ServiceId)
        requires
            is_object_path(object_path@) && depth(object_path@) >= 3,
        ensures
            id@ == object_path@,
            id.wf(),
    {
        ServiceId { object_path }
    }

    /// The object path of the service.
    pub fn as_str(&self) -> (path: &str)
        ensures
            path@ == self@,
            self.wf(),
    {
        proof {
            use_type_invariant(self);
        }
        self.object_path.as_str()
    }

    /// The short name of the service, such as `hci0/dev_11_22_33_44_55_66/service0022`: its path without the
    /// daemon's root. `None` where the path lies under another root.
    pub fn display(&self) -> (name: Option<String>)
        ensures
            name is Some <==> stripped(self@, ROOT_PREFIX@) is Some,
            name matches Some(n) ==> Some(n@) == stripped(self@, ROOT_PREFIX@),
    {
        strip_root(self.object_path.as_str(), ROOT_PREFIX)
    }
}

/// Taking the device of a service made inside a device gives that device back.
pub proof fn lemma_device_of_service(device: DeviceId, name: Seq<char>)
    requires
        device.wf(),
        ServiceId::is_node_name(name),
    ensures
        parent_of(child_of(device@, name)) == device@,
{
    lemma_child(device@, name);
}

/// Information about a GATT service on a Bluetooth device.
#[derive(Debug, PartialEq, Eq)]
pub struct ServiceInfo {
    /// An opaque identifier for the service on the device, including a reference to
    /// which adapter it was discovered on.
    pub id: ServiceId,
    /// The 128-bit UUID of the service.
    pub uuid: Uuid,
    /// Whether this GATT service is a primary service.
    pub primary: bool,
}

impl Clone for ServiceInfo {
    fn clone(&self) -> (copy: Self)
        ensures
            copy == *self,
    {
        ServiceInfo { id: self.id.clone(), uuid: self.uuid, primary: self.primary }
    }
}

impl ServiceInfo {
    /// Makes the record of the service `id` from what the daemon reports of it. The
    /// text of the UUID must parse.
    pub fn from_properties(id: ServiceId, uuid: &str, primary: bool) -> (info: Result<
        ServiceInfo,
        BluetoothError,
    >)
        ensures
            match Uuid::parsed(uuid@) {
                Some(parsed) => info matches Ok(record) && record.id == id && record.uuid
                    == parsed && record.primary == primary,
                None => info matches Err(e) && e is UUIDParseError,
            },
    {
        match Uuid::parse_str(uuid) {
            Ok(uuid) => Ok(ServiceInfo { id, uuid, primary }),
            Err(e) => Err(e),
        }
    }

    /// Finds the first of `services` with the given UUID.
    pub fn find_by_uuid(services: &Vec<ServiceInfo>, uuid: Uuid) -> (found: Result<
        ServiceInfo,
        BluetoothError,
    >)
        ensures
            match found {
                Ok(info) => exists|i: int|
                    {
                        &&& 0 <= i < services@.len()
                        &&& info == #[trigger] services@[i]
                        &&& info.uuid == uuid
                        &&& forall|j: int| 0 <= j < i ==> (#[trigger] services@[j]).uuid != uuid
                    },
                Err(e) => {
                    &&& e matches BluetoothError::UUIDNotFound { uuid: missing }
                    &&& missing == uuid
                    &&& forall|j: int|
                        0 <= j < services@.len() ==> (#[trigger] services@[j]).uuid != uuid
                },
            },
    {
        let mut i: usize = 0;
        while i < services.len()
            invariant
                i <= services.len(),
                forall|j: int| 0 <= j < i ==> (#[trigger] services@[j]).uuid != uuid,
            decreases services.len() - i,
        {
            if services[i].uuid == uuid {
                return Ok(services[i].clone());
            }
            i += 1;
        }
        Err(BluetoothError::UUIDNotFound { uuid })
    }
}

} // verus!
