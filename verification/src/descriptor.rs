//! Identifiers of GATT descriptors.

use core::cmp::Ordering;
use vstd::prelude::*;
use vstd::string::*;
use crate::adapter::ROOT_PREFIX;
use crate::bleuuid::Uuid;
use crate::characteristic::CharacteristicId;
use crate::error::BluetoothError;
use crate::path::{
    child_of, child_text, depth, is_object_path, is_segment, lemma_child, lemma_parent, parent_of,
    parent_text, path_depth, segment_text, strip_root, stripped,
};
use crate::text::{compare_text, starts_with, text_order};

verus! {

/// The prefix that the daemon gives to the node name of every descriptor.
pub const DESCRIPTOR_PREFIX: &'static str = "desc";

/// Opaque identifier for a descriptor on a Bluetooth device.
#[derive(Debug, Eq, Hash, Ord)]
pub struct DescriptorId {
    object_path: String,
}

impl View for DescriptorId {
    type V = Seq<char>;

    /// The object path that the identifier stands for.
    closed spec fn view(&self) -> Seq<char> {
        self.object_path@
    }
}

impl Clone for DescriptorId {
    fn clone(&self) -> (copy: Self)
        ensures
            copy == *self,
    {
        proof {
            use_type_invariant(self);
        }
        DescriptorId { object_path: self.object_path.clone() }
    }
}

impl PartialEq for DescriptorId {
    fn eq(&self, other: &Self) -> (same: bool) {
        self.object_path == other.object_path
    }
}

impl vstd::std_specs::cmp::PartialEqSpecImpl for DescriptorId {
    open spec fn obeys_eq_spec() -> bool {
        true
    }

    open spec fn eq_spec(&self, other: &Self) -> bool {
        self@ == other@
    }
}

impl PartialOrd for DescriptorId {
    fn partial_cmp(&self, other: &Self) -> (order: Option<Ordering>) {
        Some(compare_text(self.object_path.as_str(), other.object_path.as_str()))
    }
}

impl vstd::std_specs::cmp::PartialOrdSpecImpl for DescriptorId {
    open spec fn obeys_partial_cmp_spec() -> bool {
        true
    }

    /// Identifiers are ordered as their paths are.
    open spec fn partial_cmp_spec(&self, other: &Self) -> Option<Ordering> {
        Some(text_order(self@, other@))
    }
}

impl DescriptorId {
    /// A descriptor identifier holds an object path of five segments or more, so that
    /// every container above it has a path of its own.
    pub open spec fn wf(&self) -> bool {
        is_object_path(self@) && depth(self@) >= 5
    }

    #[verifier::type_invariant]
    spec fn inv(&self) -> bool {
        self.wf()
    }

    /// A node name that the daemon gives to a descriptor: a path segment that begins
    /// with the descriptor prefix.
    pub open spec fn is_node_name(name: Seq<char>) -> bool {
        is_segment(name) && DESCRIPTOR_PREFIX@.is_prefix_of(name)
    }

    /// Makes the identifier of the descriptor at `object_path`, or `None` where that is no
    /// object path of five segments or more.
    pub fn new(object_path: &str) -> (id: Option<DescriptorId>)
        ensures
            id is Some <==> is_object_path(object_path@) && depth(object_path@) >= 5,
            id matches Some(d) ==> d@ == object_path@ && d.wf(),
    {
        match path_depth(object_path) {
            Some(d) => {
                if d >= 5 {
                    Some(DescriptorId { object_path: String::from_str(object_path) })
                } else {
                    None
                }
            },
            None => None,
        }
    }

    /// Makes the identifier of the descriptor that `characteristic` holds under the node name `name`,
    /// or `None` where `name` is no node name of a descriptor.
    pub fn in_characteristic(characteristic: &CharacteristicId, name: &str) -> (id: Option<DescriptorId>)
        ensures
            id is Some <==> Self::is_node_name(name@),
            id matches Some(c) ==> c@ == child_of(characteristic@, name@) && c.wf(),
    {
        if segment_text(name) && starts_with(name, DESCRIPTOR_PREFIX) {
            let parent = characteristic.as_str();
            proof {
                lemma_child(parent@, name@);
            }
            Some(DescriptorId { object_path: child_text(parent, name) })
        } else {
            None
        }
    }

    /// The identifier of the characteristic that holds this descriptor.
    pub fn characteristic(&self) -> (characteristic: CharacteristicId)
        ensures
            characteristic@ == parent_of(self@),
            characteristic.wf(),
    {
        proof {
            use_type_invariant(self);
            lemma_parent(self@);
        }
        CharacteristicId::from_valid(parent_text(self.object_path.as_str()))
    }

    /// The object path of the descriptor.
    pub fn as_str(&self) -> (path: &str)
        ensures
            path@ == self@,
            self.wf(),
    {
        proof {
            use_type_invariant(self);
        }
        self.object_path.as_str()
    }

    /// The short name of the descriptor, such as `hci0/dev_11_22_33_44_55_66/service0022/char0033/desc0034`: its path without the
    /// daemon's root. `None` where the path lies under another root.
    pub fn display(&self) -> (name: Option<String>)
        ensures
            name is Some <==> stripped(self@, ROOT_PREFIX@) is Some,
            name matches Some(n) ==> Some(n@) == stripped(self@, ROOT_PREFIX@),
    {
        strip_root(self.object_path.as_str(), ROOT_PREFIX)
    }
}

/// Taking the characteristic of a descriptor made inside a characteristic gives that characteristic back.
pub proof fn lemma_characteristic_of_descriptor(characteristic: CharacteristicId, name: Seq<char>)
    requires
        characteristic.wf(),
        DescriptorId::is_node_name(name),
    ensures
        parent_of(child_of(characteristic@, name)) == characteristic@,
{
    lemma_child(characteristic@, name);
}

/// Information about a GATT descriptor on a Bluetooth device.
#[derive(Clone, Debug, PartialEq, Eq)]
pub struct DescriptorInfo {
    /// An opaque identifier for the descriptor on the device, including a reference to
    /// which adapter it was discovered on.
    pub id: DescriptorId,
    /// The 128-bit UUID of the descriptor.
    pub uuid: Uuid,
}

impl DescriptorInfo {
    /// Makes the record of the descriptor `id` from what the daemon reports of it. The
    /// text of the UUID must parse.
    pub fn from_properties(id: DescriptorId, uuid: &str) -> (info: Result<
        DescriptorInfo,
        BluetoothError,
    >)
        ensures
            match Uuid::parsed(uuid@) {
                Some(parsed) => info matches Ok(record) && record.id == id && record.uuid
                    == parsed,
                None => info matches Err(e) && e is UUIDParseError,
            },
    {
        match Uuid::parse_str(uuid) {
            Ok(uuid) => Ok(DescriptorInfo { id, uuid }),
            Err(e) => Err(e),
        }
    }
}

} // verus!
