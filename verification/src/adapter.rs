//! Identifiers of Bluetooth adapters.

use core::cmp::Ordering;
use vstd::prelude::*;
use vstd::string::*;
use crate::path::{
    child_of, child_text, is_object_path, is_segment, lemma_child, path_depth, segment_text,
    strip_root, stripped,
};
use crate::text::{compare_text, starts_with, text_order};

verus! {

/// The root under which the daemon keeps its objects; identifiers print without it.
pub const ROOT_PREFIX: &'static str = "/org/bluez/";

/// The object under which the daemon keeps its adapters.
pub const ROOT_PATH: &'static str = "/org/bluez";

/// The prefix that the daemon gives to the node name of every adapter.
pub const ADAPTER_PREFIX: &'static str = "hci";

/// The daemon's root is an object path.
pub proof fn lemma_root_path()
    ensures
        is_object_path(ROOT_PATH@),
{
    reveal_strlit("/org/bluez");
    let s = ROOT_PATH@;
    assert(s.len() == 10);
    assert(s[0] == '/' && s[1] == 'o' && s[2] == 'r' && s[3] == 'g' && s[4] == '/' && s[5] == 'b'
        && s[6] == 'l' && s[7] == 'u' && s[8] == 'e' && s[9] == 'z');
}

/// Opaque identifier for a Bluetooth adapter on the system.
#[derive(Debug, Eq, Hash, Ord)]
pub struct AdapterId {
    object_path: String,
}

impl View for AdapterId {
    type V = Seq<char>;

    /// The object path that the identifier stands for.
    closed spec fn view(&self) -> Seq<char> {
        self.object_path@
    }
}

impl Clone for AdapterId {
    fn clone(&self) -> (copy: Self)
        ensures
            copy == *self,
    {
        proof {
            use_type_invariant(self);
        }
        AdapterId { object_path: self.object_path.clone() }
    }
}

impl PartialEq for AdapterId {
    fn eq(&self, other: &Self) -> (same: bool) {
        self.object_path == other.object_path
    }
}

impl vstd::std_specs::cmp::PartialEqSpecImpl for AdapterId {
    open spec fn obeys_eq_spec() -> bool {
        true
    }

    open spec fn eq_spec(&self, other: &Self) -> bool {
        self@ == other@
    }
}

impl PartialOrd for AdapterId {
    fn partial_cmp(&self, other: &Self) -> (order: Option<Ordering>) {
        Some(compare_text(self.object_path.as_str(), other.object_path.as_str()))
    }
}

impl vstd::std_specs::cmp::PartialOrdSpecImpl for AdapterId {
    open spec fn obeys_partial_cmp_spec() -> bool {
        true
    }

    /// Identifiers are ordered as their paths are.
    open spec fn partial_cmp_spec(&self, other: &Self) -> Option<Ordering> {
        Some(text_order(self@, other@))
    }
}

impl AdapterId {
    /// An adapter identifier holds an object path.
    pub open spec fn wf(&self) -> bool {
        is_object_path(self@)
    }

    #[verifier::type_invariant]
    spec fn inv(&self) -> bool {
        self.wf()
    }

    /// A node name that the daemon gives to an adapter: a path segment that begins with
    /// the adapter prefix.
    pub open spec fn is_node_name(name: Seq<char>) -> bool {
        is_segment(name) && ADAPTER_PREFIX@.is_prefix_of(name)
    }

    /// Makes the identifier of the adapter that the daemon's root holds under the node
    /// name `name`, or `None` where `name` is no node name of an adapter.
    pub fn in_root(name: &str) -> (id: Option<AdapterId>)
        ensures
            id is Some <==> Self::is_node_name(name@),
            id matches Some(a) ==> a@ == child_of(ROOT_PATH@, name@) && a.wf(),
    {
        if segment_text(name) && starts_with(name, ADAPTER_PREFIX) {
            proof {
                lemma_root_path();
                lemma_child(ROOT_PATH@, name@);
            }
            Some(AdapterId { object_path: child_text(ROOT_PATH, name) })
        } else {
            None
        }
    }

    /// Makes the identifier of the adapter at `object_path`, or `None` where that is
    /// no object path.
    pub fn new(object_path: &str) -> (id: Option<AdapterId>)
        ensures
            id is Some <==> is_object_path(object_path@),
            id matches Some(a) ==> a@ == object_path@ && a.wf(),
    {
        match path_depth(object_path) {
            Some(_) => Some(AdapterId { object_path: String::from_str(object_path) }),
            None => None,
        }
    }

    /// Wraps an object path that is already known to suit this kind of identifier.
    pub(crate) fn from_valid(object_path: String) -> (id: AdapterId)
        requires
            is_object_path(object_path@),
        ensures
            id@ == object_path@,
            id.wf(),
    {
        AdapterId { object_path }
    }

    /// The object path of the adapter.
    pub fn as_str(&self) -> (path: &str)
        ensures
            path@ == self@,
            self.wf(),
    {
        proof {
            use_type_invariant(self);
        }
        self.object_path.as_str()
    }

    /// The short name of the adapter, such as `hci0`: its path without the daemon's
    /// root. `None` where the path lies under another root.
    pub fn display(&self) -> (name: Option<String>)
        ensures
            name is Some <==> stripped(self@, ROOT_PREFIX@) is Some,
            name matches Some(n) ==> Some(n@) == stripped(self@, ROOT_PREFIX@),
    {
        strip_root(self.object_path.as_str(), ROOT_PREFIX)
    }
}

} // verus!
