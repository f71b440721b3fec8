//! Property bags: the loosely typed name-value lists in which the daemon reports what
//! it knows of an object.

use vstd::prelude::*;
use vstd::string::*;
use crate::text::same_text;

verus! {

/// The value of one entry of an advertisement dictionary.
#[derive(Clone, Debug, PartialEq, Eq)]
pub enum Payload {
    /// A byte sequence, which is what a well-formed entry holds.
    Bytes(Vec<u8>),
    /// A value of any other shape.
    Other,
}

/// A dynamically typed property value, in the shapes that the daemon uses.
#[derive(Clone, Debug, PartialEq, Eq)]
pub enum PropertyValue {
    Bool(bool),
    I16(i16),
    U16(u16),
    Text(String),
    TextList(Vec<String>),
    Bytes(Vec<u8>),
    /// Manufacturer-specific advertisement data by company number.
    ManufacturerData(Vec<(u16, Payload)>),
    /// Service advertisement data by the text of the service's UUID.
    ServiceData(Vec<(String, Payload)>),
    /// A value of a shape that no decoder here reads.
    Other,
}

/// One named property.
#[derive(Clone, Debug, PartialEq, Eq)]
pub struct Property {
    pub name: String,
    pub value: PropertyValue,
}

/// What a property value holds.
pub enum ValueView {
    Bool(bool),
    I16(i16),
    U16(u16),
    Text(Seq<char>),
    TextList(Seq<Seq<char>>),
    Bytes(Seq<u8>),
    ManufacturerData(Seq<(u16, Option<Seq<u8>>)>),
    ServiceData(Seq<(Seq<char>, Option<Seq<u8>>)>),
    Other,
}

/// A property bag as a list of names with what their values hold.
pub type BagView = Seq<(Seq<char>, ValueView)>;

/// The texts of a list of strings.
pub open spec fn texts(list: Seq<String>) -> Seq<Seq<char>> {
    list.map_values(|s: String| s@)
}

impl View for Payload {
    type V = Option<Seq<u8>>;

    /// The bytes of a well-formed payload, `None` for any other.
    open spec fn view(&self) -> Option<Seq<u8>> {
        match self {
            Payload::Bytes(bytes) => Some(bytes@),
            Payload::Other => None,
        }
    }
}

impl View for PropertyValue {
    type V = ValueView;

    open spec fn view(&self) -> ValueView {
        match self {
            PropertyValue::Bool(b) => ValueView::Bool(*b),
            PropertyValue::I16(n) => ValueView::I16(*n),
            PropertyValue::U16(n) => ValueView::U16(*n),
            PropertyValue::Text(s) => ValueView::Text(s@),
            PropertyValue::TextList(list) => ValueView::TextList(texts(list@)),
            PropertyValue::Bytes(bytes) => ValueView::Bytes(bytes@),
            PropertyValue::ManufacturerData(entries) => ValueView::ManufacturerData(
                manufacturer_view(entries@),
            ),
            PropertyValue::ServiceData(entries) => ValueView::ServiceData(service_view(entries@)),
            PropertyValue::Other => ValueView::Other,
        }
    }
}

impl View for Property {
    type V = (Seq<char>, ValueView);

    open spec fn view(&self) -> (Seq<char>, ValueView) {
        (self.name@, self.value@)
    }
}

/// What a list of properties holds.
pub open spec fn bag_view(bag: Seq<Property>) -> BagView {
    bag.map_values(|p: Property| p@)
}

/// The value of the first property called `name`, if there is one.
pub open spec fn find(bag: BagView, name: Seq<char>) -> Option<ValueView>
    decreases bag.len(),
{
    if bag.len() == 0 {
        None
    } else if bag[0].0 == name {
        Some(bag[0].1)
    } else {
        find(bag.drop_first(), name)
    }
}

/// The boolean called `name`; `None` where it is missing or of another shape.
pub open spec fn bool_at(bag: BagView, name: Seq<char>) -> Option<bool> {
    match find(bag, name) {
        Some(ValueView::Bool(b)) => Some(b),
        _ => None,
    }
}

/// The signed number called `name`; `None` where it is missing or of another shape.
pub open spec fn i16_at(bag: BagView, name: Seq<char>) -> Option<i16> {
    match find(bag, name) {
        Some(ValueView::I16(n)) => Some(n),
        _ => None,
    }
}

/// The unsigned number called `name`; `None` where it is missing or of another shape.
pub open spec fn u16_at(bag: BagView, name: Seq<char>) -> Option<u16> {
    match find(bag, name) {
        Some(ValueView::U16(n)) => Some(n),
        _ => None,
    }
}

/// The text called `name`; `None` where it is missing or of another shape.
pub open spec fn text_at(bag: BagView, name: Seq<char>) -> Option<Seq<char>> {
    match find(bag, name) {
        Some(ValueView::Text(s)) => Some(s),
        _ => None,
    }
}

/// The list of texts called `name`; `None` where it is missing or of another shape.
pub open spec fn text_list_at(bag: BagView, name: Seq<char>) -> Option<Seq<Seq<char>>> {
    match find(bag, name) {
        Some(ValueView::TextList(list)) => Some(list),
        _ => None,
    }
}

/// The byte sequence called `name`; `None` where it is missing or of another shape.
pub open spec fn bytes_at(bag: BagView, name: Seq<char>) -> Option<Seq<u8>> {
    match find(bag, name) {
        Some(ValueView::Bytes(bytes)) => Some(bytes),
        _ => None,
    }
}

/// The manufacturer data called `name`; `None` where it is missing or of another shape.
pub open spec fn manufacturer_data_at(bag: BagView, name: Seq<char>) -> Option<
    Seq<(u16, Option<Seq<u8>>)>,
> {
    match find(bag, name) {
        Some(ValueView::ManufacturerData(entries)) => Some(entries),
        _ => None,
    }
}

/// The service data called `name`; `None` where it is missing or of another shape.
pub open spec fn service_data_at(bag: BagView, name: Seq<char>) -> Option<
    Seq<(Seq<char>, Option<Seq<u8>>)>,
> {
    match find(bag, name) {
        Some(ValueView::ServiceData(entries)) => Some(entries),
        _ => None,
    }
}

/// What a list of manufacturer data entries holds.
pub open spec fn manufacturer_view(entries: Seq<(u16, Payload)>) -> Seq<(u16, Option<Seq<u8>>)> {
    entries.map_values(|e: (u16, Payload)| (e.0, e.1@))
}

/// What a list of service data entries holds.
pub open spec fn service_view(entries: Seq<(String, Payload)>) -> Seq<
    (Seq<char>, Option<Seq<u8>>),
> {
    entries.map_values(|e: (String, Payload)| (e.0@, e.1@))
}

/// Looks up the first property called `name`.
pub fn get<'a>(bag: &'a Vec<Property>, name: &str) -> (value: Option<&'a PropertyValue>)
    ensures
        match value {
            Some(v) => find(bag_view(bag@), name@) == Some(v@),
            None => find(bag_view(bag@), name@) is None,
        },
{
    let mut i: usize = 0;
    proof {
        assert(bag_view(bag@).subrange(0, bag.len() as int) =~= bag_view(bag@));
    }
    while i < bag.len()
        invariant
            i <= bag.len(),
            find(bag_view(bag@), name@) == find(
                bag_view(bag@).subrange(i as int, bag.len() as int),
                name@,
            ),
        decreases bag.len() - i,
    {
        let ghost rest = bag_view(bag@).subrange(i as int, bag.len() as int);
        proof {
            assert(rest[0] == bag@[i as int]@);
            assert(rest.drop_first() =~= bag_view(bag@).subrange(i + 1, bag.len() as int));
        }
        if same_text(bag[i].name.as_str(), name) {
            return Some(&bag[i].value);
        }
        i += 1;
    }
    proof {
        assert(bag_view(bag@).subrange(i as int, bag.len() as int) =~= Seq::empty());
    }
    None
}

/// Reads the boolean called `name`.
pub fn get_bool(bag: &Vec<Property>, name: &str) -> (value: Option<bool>)
    ensures
        value == bool_at(bag_view(bag@), name@),
{
    match get(bag, name) {
        Some(PropertyValue::Bool(b)) => Some(*b),
        _ => None,
    }
}

/// Reads the signed number called `name`.
pub fn get_i16(bag: &Vec<Property>, name: &str) -> (value: Option<i16>)
    ensures
        value == i16_at(bag_view(bag@), name@),
{
    match get(bag, name) {
        Some(PropertyValue::I16(n)) => Some(*n),
        _ => None,
    }
}

/// Reads the unsigned number called `name`.
pub fn get_u16(bag: &Vec<Property>, name: &str) -> (value: Option<u16>)
    ensures
        value == u16_at(bag_view(bag@), name@),
{
    match get(bag, name) {
        Some(PropertyValue::U16(n)) => Some(*n),
        _ => None,
    }
}

/// Reads the text called `name`.
pub fn get_text<'a>(bag: &'a Vec<Property>, name: &str) -> (value: Option<&'a String>)
    ensures
        match value {
            Some(s) => text_at(bag_view(bag@), name@) == Some(s@),
            None => text_at(bag_view(bag@), name@) is None,
        },
{
    match get(bag, name) {
        Some(PropertyValue::Text(s)) => Some(s),
        _ => None,
    }
}

/// Reads the list of texts called `name`.
pub fn get_text_list<'a>(bag: &'a Vec<Property>, name: &str) -> (value: Option<&'a Vec<String>>)
    ensures
        match value {
            Some(list) => text_list_at(bag_view(bag@), name@) == Some(texts(list@)),
            None => text_list_at(bag_view(bag@), name@) is None,
        },
{
    match get(bag, name) {
        Some(PropertyValue::TextList(list)) => Some(list),
        _ => None,
    }
}

/// Reads the byte sequence called `name`.
pub fn get_bytes<'a>(bag: &'a Vec<Property>, name: &str) -> (value: Option<&'a Vec<u8>>)
    ensures
        match value {
            Some(bytes) => bytes_at(bag_view(bag@), name@) == Some(bytes@),
            None => bytes_at(bag_view(bag@), name@) is None,
        },
{
    match get(bag, name) {
        Some(PropertyValue::Bytes(bytes)) => Some(bytes),
        _ => None,
    }
}

/// Reads the manufacturer data called `name`.
pub fn get_manufacturer_data<'a>(bag: &'a Vec<Property>, name: &str) -> (value: Option<
    &'a Vec<(u16, Payload)>,
>)
    ensures
        match value {
            Some(entries) => manufacturer_data_at(bag_view(bag@), name@) == Some(
                manufacturer_view(entries@),
            ),
            None => manufacturer_data_at(bag_view(bag@), name@) is None,
        },
{
    match get(bag, name) {
        Some(PropertyValue::ManufacturerData(entries)) => Some(entries),
        _ => None,
    }
}

/// Reads the service data called `name`.
pub fn get_service_data<'a>(bag: &'a Vec<Property>, name: &str) -> (value: Option<
    &'a Vec<(String, Payload)>,
>)
    ensures
        match value {
            Some(entries) => service_data_at(bag_view(bag@), name@) == Some(
                service_view(entries@),
            ),
            None => service_data_at(bag_view(bag@), name@) is None,
        },
{
    match get(bag, name) {
        Some(PropertyValue::ServiceData(entries)) => Some(entries),
        _ => None,
    }
}

/// Tells whether `list` holds a string that reads `text`.
pub fn has_text(list: &Vec<String>, text: &str) -> (found: bool)
    ensures
        found == texts(list@).contains(text@),
{
    let mut i: usize = 0;
    while i < list.len()
        invariant
            i <= list.len(),
            forall|j: int| 0 <= j < i ==> texts(list@)[j] != text@,
        decreases list.len() - i,
    {
        if same_text(list[i].as_str(), text) {
            assert(texts(list@)[i as int] == text@);
            return true;
        }
        i += 1;
    }
    false
}

} // verus!
