//! The filter that narrows what a discovery session reports.

use vstd::prelude::*;
use vstd::string::*;
use crate::bleuuid::{Uuid, uuid_text};
use crate::property::{bag_view, BagView, Property, PropertyValue, texts, ValueView};
use crate::transport::Transport;

verus! {

/// A set of filter parameters for discovery. Parameters may be set to `None` to use the
/// daemon's defaults.
///
/// If no parameters are set then there is a default filter on the RSSI values, where
/// only values which have changed more than a certain amount will be reported.
#[derive(Clone, Debug, PartialEq, Eq)]
pub struct DiscoveryFilter {
    /// If non-empty, only report devices which advertise at least one of these service
    /// UUIDs.
    pub service_uuids: Vec<Uuid>,
    /// Only report devices with RSSI values greater than the given threshold.
    pub rssi_threshold: Option<i16>,
    pub pathloss_threshold: Option<u16>,
    /// The type of scan.
    pub transport: Option<Transport>,
    /// Whether to include duplicate advertisements. If this is set to true then there
    /// will be an event whenever an advertisement containing manufacturer-specific data
    /// for a device is received.
    pub duplicate_data: Option<bool>,
    /// Whether to make the adapter discoverable while discovering.
    pub discoverable: Option<bool>,
    /// Only report devices whose address or name starts with the given pattern.
    pub pattern: Option<String>,
}

/// The hyphenated texts of a list of identifiers.
pub open spec fn uuid_texts(uuids: Seq<Uuid>) -> Seq<Seq<char>> {
    uuids.map_values(|u: Uuid| uuid_text(u.bits()))
}

/// A bag of one property, or of none where there is no value.
pub open spec fn entry(name: Seq<char>, value: Option<ValueView>) -> BagView {
    match value {
        Some(v) => seq![(name, v)],
        None => seq![],
    }
}

impl Default for DiscoveryFilter {
    /// The filter that sets nothing.
    fn default() -> (filter: DiscoveryFilter)
        ensures
            filter.service_uuids@.len() == 0,
            filter.rssi_threshold is None,
            filter.pathloss_threshold is None,
            filter.transport is None,
            filter.duplicate_data is None,
            filter.discoverable is None,
            filter.pattern is None,
    {
        DiscoveryFilter {
            service_uuids: Vec::new(),
            rssi_threshold: None,
            pathloss_threshold: None,
            transport: None,
            duplicate_data: None,
            discoverable: None,
            pattern: None,
        }
    }
}

impl DiscoveryFilter {
    /// The property bag that stands for the filter: one property for each parameter
    /// that is set, and none for the others.
    pub open spec fn bag(&self) -> BagView {
        entry(
            "UUIDs"@,
            if self.service_uuids@.len() > 0 {
                Some(ValueView::TextList(uuid_texts(self.service_uuids@)))
            } else {
                None
            },
        ) + entry(
            "RSSI"@,
            match self.rssi_threshold {
                Some(rssi) => Some(ValueView::I16(rssi)),
                None => None,
            },
        ) + entry(
            "Pathloss"@,
            match self.pathloss_threshold {
                Some(pathloss) => Some(ValueView::U16(pathloss)),
                None => None,
            },
        ) + entry(
            "Transport"@,
            match self.transport {
                Some(transport) => Some(ValueView::Text(transport.word())),
                None => None,
            },
        ) + entry(
            "DuplicateData"@,
            match self.duplicate_data {
                Some(duplicate_data) => Some(ValueView::Bool(duplicate_data)),
                None => None,
            },
        ) + entry(
            "Discoverable"@,
            match self.discoverable {
                Some(discoverable) => Some(ValueView::Bool(discoverable)),
                None => None,
            },
        ) + entry(
            "Pattern"@,
            match self.pattern {
                Some(pattern) => Some(ValueView::Text(pattern@)),
                None => None,
            },
        )
    }

    /// Writes the filter as the property bag that the daemon takes: only the
    /// parameters that are set appear in it.
    pub fn to_properties(&self) -> (bag: Vec<Property>)
        ensures
            bag_view(bag@) == self.bag(),
    {
        let mut bag: Vec<Property> = Vec::new();
        assert(bag_view(bag@) =~= Seq::empty());
        let uuids = if self.service_uuids.len() > 0 {
            Some(PropertyValue::TextList(texts_of_uuids(&self.service_uuids)))
        } else {
            None
        };
        push_entry(&mut bag, "UUIDs", uuids);
        assert(bag_view(bag@) =~= entry(
            "UUIDs"@,
            if self.service_uuids@.len() > 0 {
                Some(ValueView::TextList(uuid_texts(self.service_uuids@)))
            } else {
                None
            },
        ));
        let rssi = match self.rssi_threshold {
            Some(rssi) => Some(PropertyValue::I16(rssi)),
            None => None,
        };
        push_entry(&mut bag, "RSSI", rssi);
        let pathloss = match self.pathloss_threshold {
            Some(pathloss) => Some(PropertyValue::U16(pathloss)),
            None => None,
        };
        push_entry(&mut bag, "Pathloss", pathloss);
        let transport = match self.transport {
            Some(transport) => Some(PropertyValue::Text(transport.as_str().to_owned())),
            None => None,
        };
        push_entry(&mut bag, "Transport", transport);
        let duplicate_data = match self.duplicate_data {
            Some(duplicate_data) => Some(PropertyValue::Bool(duplicate_data)),
            None => None,
        };
        push_entry(&mut bag, "DuplicateData", duplicate_data);
        let discoverable = match self.discoverable {
            Some(discoverable) => Some(PropertyValue::Bool(discoverable)),
            None => None,
        };
        push_entry(&mut bag, "Discoverable", discoverable);
        let pattern = match &self.pattern {
            Some(pattern) => Some(PropertyValue::Text(pattern.clone())),
            None => None,
        };
        push_entry(&mut bag, "Pattern", pattern);
        bag
    }
}

/// A filter that sets the signal-strength threshold and nothing else is written as one
/// property, the threshold under its name.
pub proof fn lemma_only_rssi(filter: DiscoveryFilter, rssi: i16)
    requires
        filter.service_uuids@.len() == 0,
        filter.rssi_threshold == Some(rssi),
        filter.pathloss_threshold is None,
        filter.transport is None,
        filter.duplicate_data is None,
        filter.discoverable is None,
        filter.pattern is None,
    ensures
        filter.bag() == seq![("RSSI"@, ValueView::I16(rssi))],
{
    assert(filter.bag() =~= seq![("RSSI"@, ValueView::I16(rssi))]);
}

/// What an optional value holds.
pub open spec fn held(value: Option<PropertyValue>) -> Option<ValueView> {
    match value {
        Some(v) => Some(v@),
        None => None,
    }
}

/// Appends the property `name` to `bag` where there is a value for it.
pub fn push_entry(bag: &mut Vec<Property>, name: &str, value: Option<PropertyValue>)
    ensures
        bag_view(final(bag)@) == bag_view(old(bag)@) + entry(name@, held(value)),
{
    match value {
        Some(v) => {
            bag.push(Property { name: name.to_owned(), value: v });
            assert(bag_view(bag@) =~= bag_view(old(bag)@) + entry(name@, held(value)));
        },
        None => {
            assert(bag_view(bag@) =~= bag_view(old(bag)@) + entry(name@, held(value)));
        },
    }
}

/// Formats each identifier as its hyphenated text.
pub fn texts_of_uuids(uuids: &Vec<Uuid>) -> (list: Vec<String>)
    ensures
        texts(list@) == uuid_texts(uuids@),
{
    let mut list: Vec<String> = Vec::new();
    let mut i: usize = 0;
    while i < uuids.len()
        invariant
            i <= uuids.len(),
            list.len() == i,
            forall|j: int| 0 <= j < i ==> (#[trigger] list@[j])@ == uuid_text(uuids@[j].bits()),
        decreases uuids.len() - i,
    {
        list.push(uuids[i].to_string());
        i += 1;
    }
    assert(texts(list@) =~= uuid_texts(uuids@));
    list
}

} // verus!
