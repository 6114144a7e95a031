//! The index extraction registry: which resource types have index keys, the
//! type of each key, and the values a document yields for them.

use vstd::prelude::*;

use crate::date::Date;
use crate::json::{JsonValue, JsonV};
use crate::models::decode_patient;
use crate::patient::birth_date_unreadable;
use crate::patient::{
    date_index_values_for, date_values_view, find_search_index_for_key, patient_date_values,
    patient_key_type, patient_text_values, text_index_values_for, text_values_view,
};
use crate::text::{chars_equal, chars_of};

verus! {

/// The type of the values that an index key holds.
#[derive(Debug, Clone, Copy, PartialEq, Eq, Structural)]
pub enum IndexedKeyType {
    Text,
    Date,
}

pub open spec fn patient_type_name() -> Seq<char> {
    seq!['P', 'a', 't', 'i', 'e', 'n', 't']
}

/// The type of the values under `key` for resource type `entity`; `None` where
/// the resource type has no extractor or the key is not one of its keys.
pub open spec fn key_type(entity: Seq<char>, key: Seq<char>) -> Option<IndexedKeyType> {
    if entity == patient_type_name() {
        patient_key_type(key)
    } else {
        None
    }
}

/// Whether the resource type has a registered extractor.
pub open spec fn has_extractor(entity: Seq<char>) -> bool {
    entity == patient_type_name()
}

fn is_patient(entity: &str) -> (r: bool)
    ensures
        r == has_extractor(entity@),
{
    chars_equal(&chars_of(entity), &vec!['P', 'a', 't', 'i', 'e', 'n', 't'])
}

/// The type of the values under `key` for resource type `entity`.
pub fn key_type_for(entity: &str, key: &str) -> (r: Option<IndexedKeyType>)
    ensures
        r == key_type(entity@, key@),
{
    if is_patient(entity) {
        find_search_index_for_key(key)
    } else {
        None
    }
}

/// The values a document yields for the index, by key: text values and date
/// values, each `None` where the resource type has no extractor.
pub struct IndexableValues {
    pub text: Option<Vec<(String, Vec<String>)>>,
    pub date: Option<Vec<(String, Vec<Date>)>>,
    /// Values that were skipped because they could not be read.
    pub warnings: Vec<String>,
}

/// What the registry extracts from a document of a resource type, as plain
/// values: `None` where the type has an extractor and the document does not
/// read as that type; empty (unset) lists where the type has no extractor.
pub open spec fn extracted(entity: Seq<char>, doc: JsonV) -> Option<
    (Seq<(Seq<char>, Seq<Seq<char>>)>, Seq<(Seq<char>, Seq<Date>)>),
> {
    if has_extractor(entity) {
        match decode_patient(doc) {
            Some(p) => Some((patient_text_values(p), patient_date_values(p))),
            None => None,
        }
    } else {
        Some((Seq::empty(), Seq::empty()))
    }
}

/// How many warnings extracting a document raises: one for a patient birth
/// date that does not read as a date.
pub open spec fn extraction_warnings(entity: Seq<char>, doc: JsonV) -> nat {
    if has_extractor(entity) && decode_patient(doc) is Some && birth_date_unreadable(
        decode_patient(doc)->0,
    ) {
        1
    } else {
        0
    }
}

impl IndexableValues {
    /// The text values as plain values; none when unset.
    pub open spec fn text_view(&self) -> Seq<(Seq<char>, Seq<Seq<char>>)> {
        match self.text {
            Some(t) => text_values_view(t@),
            None => Seq::empty(),
        }
    }

    /// The date values as plain values; none when unset.
    pub open spec fn date_view(&self) -> Seq<(Seq<char>, Seq<Date>)> {
        match self.date {
            Some(d) => date_values_view(d@),
            None => Seq::empty(),
        }
    }
}

/// Collects the index values of a document of resource type `entity`;
/// `None` where the type has an extractor and the document does not read as it.
pub fn collect_index_values_for(entity: &str, data: &JsonValue) -> (r: Option<IndexableValues>)
    ensures
        r is Some <==> extracted(entity@, data@) is Some,
        r matches Some(v) ==> (v.text_view(), v.date_view()) == extracted(entity@, data@)->0,
        r matches Some(v) ==> v.warnings@.len() == extraction_warnings(entity@, data@),
        !has_extractor(entity@) ==> (r matches Some(v) && v.text is None && v.date is None),
        has_extractor(entity@) ==> (r matches Some(v) ==> v.text is Some && v.date is Some),
{
    if !is_patient(entity) {
        return Some(IndexableValues { text: None, date: None, warnings: Vec::new() });
    }
    let text = match text_index_values_for(data) {
        Some(t) => t,
        None => {
            return None;
        },
    };
    match date_index_values_for(data) {
        Some((date, warnings)) => Some(IndexableValues { text: Some(text), date: Some(date), warnings }),
        None => None,
    }
}

} // verus!
