//! The entity store: entities with their documents, the text and date index
//! tables, and the append-only history table, changed together by each operation.

use vstd::prelude::*;

use crate::date::Date;
use crate::history::{
    fhir_log_entity_history, leaves_object, leaves_to_object, logged_change, Change,
    ChangeV,
};
use crate::ids::{fhir_generate_id, id_to_string, now_utc, uuid_text};
use crate::index::{
    collect_index_values_for, extracted, extraction_warnings, key_type, key_type_for, IndexedKeyType,
};
use crate::patient::{date_values_view, text_values_view};
use crate::models::strings_view;
use crate::json::{
    lemma_member_map, lemma_without_member, members_map, has_member, member, members_of, to_json_text, json_text, without_member, JsonV, JsonValue,
};
use crate::schema::{compiles, conforms, conforms_to, schema_compiles};
use crate::search::{
    date_matches, date_value_matches, operator_of, text_matches, text_value_matches, SearchError, SearchOperator, SearchValue,
};
use crate::text::{string_from, tok2};

verus! {

/// A row of the entity table.
#[derive(Debug)]
pub struct EntityRow {
    pub id: u128,
    pub resource_type: String,
    pub data: JsonValue,
}

pub struct EntityV {
    pub id: u128,
    pub resource_type: Seq<char>,
    pub data: JsonV,
}

impl View for EntityRow {
    type V = EntityV;

    open spec fn view(&self) -> EntityV {
        EntityV { id: self.id, resource_type: self.resource_type@, data: self.data@ }
    }
}

/// A row of the history table.
#[derive(Debug)]
pub struct HistoryEntry {
    /// The position of the entry in the table, in order of recording.
    pub id: usize,
    pub entity_id: u128,
    /// Nanoseconds since the Unix epoch: the clock reading at the mutation,
    /// or the previous entry's timestamp where the clock reads earlier than
    /// that, so that entries never go back in time.
    pub timestamp: i128,
    pub change: Change,
}

pub struct HistoryV {
    pub id: nat,
    pub entity_id: u128,
    pub timestamp: i128,
    pub change: ChangeV,
}

impl View for HistoryEntry {
    type V = HistoryV;

    open spec fn view(&self) -> HistoryV {
        HistoryV {
            id: self.id as nat,
            entity_id: self.entity_id,
            timestamp: self.timestamp,
            change: self.change@,
        }
    }
}

/// A row of the text index table.
#[derive(Debug)]
pub struct TextIndexRow {
    pub entity_id: u128,
    pub entity: String,
    pub key: String,
    pub value: String,
}

pub struct TextRowV {
    pub entity_id: u128,
    pub entity: Seq<char>,
    pub key: Seq<char>,
    pub value: Seq<char>,
}

impl View for TextIndexRow {
    type V = TextRowV;

    open spec fn view(&self) -> TextRowV {
        TextRowV { entity_id: self.entity_id, entity: self.entity@, key: self.key@, value: self.value@ }
    }
}

/// A row of the date index table.
#[derive(Debug)]
pub struct DateIndexRow {
    pub entity_id: u128,
    pub entity: String,
    pub key: String,
    pub value: Date,
}

pub struct DateRowV {
    pub entity_id: u128,
    pub entity: Seq<char>,
    pub key: Seq<char>,
    pub value: Date,
}

impl View for DateIndexRow {
    type V = DateRowV;

    open spec fn view(&self) -> DateRowV {
        DateRowV { entity_id: self.entity_id, entity: self.entity@, key: self.key@, value: self.value }
    }
}

/// The store's tables and the text of its schema.
pub struct Store {
    schema: String,
    entities: Vec<EntityRow>,
    history: Vec<HistoryEntry>,
    text_index: Vec<TextIndexRow>,
    date_index: Vec<DateIndexRow>,
}

pub struct StoreV {
    pub schema: Seq<char>,
    pub entities: Seq<EntityV>,
    pub history: Seq<HistoryV>,
    pub text_index: Seq<TextRowV>,
    pub date_index: Seq<DateRowV>,
}

pub open spec fn entities_view(v: Seq<EntityRow>) -> Seq<EntityV> {
    Seq::new(v.len(), |i: int| v[i]@)
}

pub open spec fn history_view(v: Seq<HistoryEntry>) -> Seq<HistoryV> {
    Seq::new(v.len(), |i: int| v[i]@)
}

pub open spec fn text_rows_view(v: Seq<TextIndexRow>) -> Seq<TextRowV> {
    Seq::new(v.len(), |i: int| v[i]@)
}

pub open spec fn date_rows_view(v: Seq<DateIndexRow>) -> Seq<DateRowV> {
    Seq::new(v.len(), |i: int| v[i]@)
}

impl View for Store {
    type V = StoreV;

    closed spec fn view(&self) -> StoreV {
        StoreV {
            schema: self.schema@,
            entities: entities_view(self.entities@),
            history: history_view(self.history@),
            text_index: text_rows_view(self.text_index@),
            date_index: date_rows_view(self.date_index@),
        }
    }
}

pub open spec fn id_key() -> Seq<char> {
    seq!['i', 'd']
}

pub open spec fn rt_key() -> Seq<char> {
    seq!['r', 'e', 's', 'o', 'u', 'r', 'c', 'e', 'T', 'y', 'p', 'e']
}

/// Whether a stored document is an object without `id` or `resourceType`.
pub open spec fn storable(d: JsonV) -> bool {
    d is Object && !has_member(members_of(d), id_key()) && !has_member(members_of(d), rt_key())
}

impl StoreV {
    /// The invariant of the tables: entity ids are unique; stored documents
    /// are objects that hold neither `id` nor `resourceType`; each history
    /// entry's id is its position and timestamps never decrease.
    pub open spec fn wf(self) -> bool {
        &&& forall|i: int, j: int|
            0 <= i < j < self.entities.len() ==> #[trigger] self.entities[i].id
                != #[trigger] self.entities[j].id
        &&& forall|i: int| 0 <= i < self.entities.len() ==> storable(#[trigger] self.entities[i].data)
        &&& forall|i: int| 0 <= i < self.history.len() ==> #[trigger] self.history[i].id == i
        &&& forall|i: int, j: int|
            0 <= i <= j < self.history.len() ==> #[trigger] self.history[i].timestamp
                <= #[trigger] self.history[j].timestamp
    }
}

/// The position of the entity row with id `id`, the first one if any.
pub open spec fn row_of(es: Seq<EntityV>, id: u128) -> Option<int>
    decreases es.len(),
{
    if es.len() == 0 {
        None
    } else if row_of(es.drop_last(), id) is Some {
        row_of(es.drop_last(), id)
    } else if es.last().id == id {
        Some(es.len() - 1)
    } else {
        None
    }
}

/// A stored document in its external shape: with `id` and `resourceType` added.
pub open spec fn reinstated(data: JsonV, id: u128, rt: Seq<char>) -> JsonV {
    JsonV::Object(
        members_of(data).push((id_key(), JsonV::Str(uuid_text(id)))).push((rt_key(), JsonV::Str(rt))),
    )
}

/// What reading entity `id` as resource type `rt` gives.
pub open spec fn get_spec(s: StoreV, rt: Seq<char>, id: u128) -> Option<JsonV> {
    match row_of(s.entities, id) {
        Some(i) => if s.entities[i].resource_type == rt {
            Some(reinstated(s.entities[i].data, id, rt))
        } else {
            None
        },
        None => None,
    }
}

pub enum SearchValueV {
    Text(Seq<char>),
    Date(Date),
}

pub open spec fn search_value_view(v: SearchValue) -> SearchValueV {
    match v {
        SearchValue::Text(t) => SearchValueV::Text(t@),
        SearchValue::Date(d) => SearchValueV::Date(d),
    }
}

/// The entity ids of the text index rows of `rows` that match, in row order.
pub open spec fn text_hits(rows: Seq<TextRowV>, rt: Seq<char>, key: Seq<char>, op: SearchOperator, q: Seq<char>) -> Seq<u128>
    decreases rows.len(),
{
    if rows.len() == 0 {
        Seq::empty()
    } else {
        let r = rows.last();
        let rest = text_hits(rows.drop_last(), rt, key, op, q);
        if r.entity == rt && r.key == key && text_matches(op, r.value, q) {
            rest.push(r.entity_id)
        } else {
            rest
        }
    }
}

/// The entity ids of the date index rows of `rows` that match, in row order.
pub open spec fn date_hits(rows: Seq<DateRowV>, rt: Seq<char>, key: Seq<char>, op: SearchOperator, q: Date) -> Seq<u128>
    decreases rows.len(),
{
    if rows.len() == 0 {
        Seq::empty()
    } else {
        let r = rows.last();
        let rest = date_hits(rows.drop_last(), rt, key, op, q);
        if r.entity == rt && r.key == key && date_matches(op, r.value, q) {
            rest.push(r.entity_id)
        } else {
            rest
        }
    }
}

/// What a search gives: the ids that the index table of the key's type holds
/// for matching rows, or why the search is refused.
pub open spec fn search_spec(s: StoreV, rt: Seq<char>, key: Seq<char>, op: Seq<char>, q: SearchValueV) -> Result<Seq<u128>, SearchFailure> {
    match operator_of(op) {
        None => Err(SearchFailure::UnknownOperator),
        Some(o) => match key_type(rt, key) {
            None => Err(SearchFailure::UnknownSearchKey),
            Some(IndexedKeyType::Text) => match q {
                SearchValueV::Text(t) => Ok(text_hits(s.text_index, rt, key, o, t)),
                _ => Err(SearchFailure::InvalidValueType),
            },
            Some(IndexedKeyType::Date) => match q {
                SearchValueV::Date(d) => Ok(date_hits(s.date_index, rt, key, o, d)),
                _ => Err(SearchFailure::InvalidValueType),
            },
        },
    }
}

/// The kind of a [`SearchError`].
pub enum SearchFailure {
    UnknownOperator,
    UnknownSearchKey,
    InvalidValueType,
}

pub open spec fn failure_of(e: SearchError) -> SearchFailure {
    match e {
        SearchError::UnknownOperator(_) => SearchFailure::UnknownOperator,
        SearchError::UnknownSearchKey(_) => SearchFailure::UnknownSearchKey,
        SearchError::InvalidValueType => SearchFailure::InvalidValueType,
    }
}

proof fn lemma_row_of_step(es: Seq<EntityV>, i: int, id: u128)
    requires
        0 <= i < es.len(),
    ensures
        row_of(es.take(i + 1), id) == (if row_of(es.take(i), id) is Some {
            row_of(es.take(i), id)
        } else if es[i].id == id {
            Some(i)
        } else {
            None
        }),
{
    assert(es.take(i + 1).drop_last() =~= es.take(i));
}

proof fn lemma_row_of_prefix(es: Seq<EntityV>, n: int, id: u128)
    requires
        0 <= n <= es.len(),
        row_of(es.take(n), id) is Some,
    ensures
        row_of(es, id) == row_of(es.take(n), id),
    decreases es.len() - n,
{
    if n < es.len() {
        lemma_row_of_step(es, n, id);
        lemma_row_of_prefix(es, n + 1, id);
    } else {
        assert(es.take(n) =~= es);
    }
}

proof fn lemma_row_of_facts(es: Seq<EntityV>, id: u128)
    ensures
        row_of(es, id) matches Some(i) ==> 0 <= i < es.len() && es[i].id == id,
        row_of(es, id) is None ==> forall|j: int| 0 <= j < es.len() ==> es[j].id != id,
    decreases es.len(),
{
    if es.len() > 0 {
        lemma_row_of_facts(es.drop_last(), id);
        if row_of(es.drop_last(), id) is None {
            assert forall|j: int| 0 <= j < es.len() - 1 implies es[j].id != id by {
                assert(es.drop_last()[j] == es[j]);
            }
        }
    }
}

impl Store {
    /// An empty store whose documents must conform to the JSON schema `schema`.
    pub fn new(schema: String) -> (r: Store)
        ensures
            r@.wf(),
            r@.schema == schema@,
            r@.entities.len() == 0,
            r@.history.len() == 0,
            r@.text_index.len() == 0,
            r@.date_index.len() == 0,
    {
        let r = Store {
            schema,
            entities: Vec::new(),
            history: Vec::new(),
            text_index: Vec::new(),
            date_index: Vec::new(),
        };
        assert(r@.entities =~= Seq::<EntityV>::empty());
        assert(r@.history =~= Seq::<HistoryV>::empty());
        r
    }

    /// The position of entity `id` in the entity table.
    fn find_row(&self, id: u128) -> (r: Option<usize>)
        ensures
            r is Some <==> row_of(self@.entities, id) is Some,
            r is Some ==> r->0 as int == row_of(self@.entities, id)->0,
            r is Some ==> r->0 < self.entities@.len(),
    {
        let ghost es = self@.entities;
        let mut i: usize = 0;
        while i < self.entities.len()
            invariant
                i <= self.entities@.len() == es.len(),
                es == self@.entities,
                row_of(es.take(i as int), id) is None,
            decreases self.entities@.len() - i,
        {
            proof {
                lemma_row_of_step(es, i as int, id);
            }
            if self.entities[i].id == id {
                proof {
                    lemma_row_of_prefix(es, i as int + 1, id);
                }
                return Some(i);
            }
            i = i + 1;
        }
        assert(es.take(i as int) =~= es);
        None
    }

    /// Entity `id` read as resource type `entity`, with `id` and
    /// `resourceType` put back; `None` where there is no such entity of that type.
    pub fn fhir_get(&self, entity: &str, id: u128) -> (r: Option<JsonValue>)
        ensures
            r is Some <==> get_spec(self@, entity@, id) is Some,
            r is Some ==> r->0@ == get_spec(self@, entity@, id)->0,
    {
        let i = match self.find_row(id) {
            Some(i) => i,
            None => {
                return None;
            },
        };
        let row = &self.entities[i];
        let ghost rv = self@.entities[i as int];
        assert(rv == row@);
        if !crate::text::text_is(entity, &crate::text::chars_of(row.resource_type.as_str())) {
            return None;
        }
        let mut members: Vec<(String, JsonValue)> = match &row.data {
            JsonValue::Object(ms) => {
                let c = row.data.deep_clone();
                match c {
                    JsonValue::Object(ms2) => ms2,
                    _ => Vec::new(),
                }
            },
            _ => Vec::new(),
        };
        let ghost base = members_of(row.data@);
        assert(object_members_view(members@) =~= base);
        members.push((string_from(tok2('i', 'd')), JsonValue::Str(id_to_string(id))));
        members.push((rt_string(), JsonValue::Str(row.resource_type.clone())));
        let r = JsonValue::Object(members);
        assert(r@->Object_0 =~= reinstated(row.data@, id, entity@)->Object_0) by {
            assert(object_members_view(members@) =~= base.push((id_key(), JsonV::Str(uuid_text(id)))).push(
                (rt_key(), JsonV::Str(entity@)),
            ));
        }
        Some(r)
    }
}

impl Store {
    /// The ids of the entities of resource type `entity` whose index value
    /// under `key` satisfies `op` against `value`, in index order; refused for
    /// an unknown operator, a key that the type does not index, or a value of
    /// the wrong type. Nothing is read before those checks pass. On a date
    /// key the pattern operators `like` and `%` have no pattern to apply, and
    /// compare dates for equality.
    pub fn fhir_search(&self, entity: &str, key: &str, op: &str, value: &SearchValue) -> (r: Result<
        Vec<u128>,
        SearchError,
    >)
        ensures
            r is Ok <==> search_spec(self@, entity@, key@, op@, search_value_view(*value)) is Ok,
            r matches Ok(ids) ==> search_spec(self@, entity@, key@, op@, search_value_view(*value))
                == Ok::<Seq<u128>, SearchFailure>(ids@),
            r matches Err(e) ==> search_spec(self@, entity@, key@, op@, search_value_view(*value))
                == Err::<Seq<u128>, SearchFailure>(failure_of(e)),
            r matches Err(e) ==> (e matches SearchError::UnknownSearchKey(k) ==> k@ == key@),
            r matches Err(e) ==> (e matches SearchError::UnknownOperator(t) ==> t@ == op@),
    {
        let o = match SearchOperator::from_str(op) {
            Ok(o) => o,
            Err(e) => {
                return Err(e);
            },
        };
        let kt = match key_type_for(entity, key) {
            Some(t) => t,
            None => {
                return Err(SearchError::UnknownSearchKey(string_from(crate::text::chars_of(key))));
            },
        };
        match (kt, value) {
            (IndexedKeyType::Text, SearchValue::Text(q)) => Ok(self.text_search(entity, key, o, q)),
            (IndexedKeyType::Date, SearchValue::Date(q)) => Ok(self.date_search(entity, key, o, q)),
            _ => Err(SearchError::InvalidValueType),
        }
    }

    fn text_search(&self, entity: &str, key: &str, op: SearchOperator, q: &String) -> (r: Vec<u128>)
        ensures
            r@ == text_hits(self@.text_index, entity@, key@, op, q@),
    {
        let ghost rows = self@.text_index;
        let ent = crate::text::chars_of(entity);
        let k = crate::text::chars_of(key);
        let mut out: Vec<u128> = Vec::new();
        let mut i: usize = 0;
        while i < self.text_index.len()
            invariant
                i <= self.text_index@.len() == rows.len(),
                rows == self@.text_index,
                ent@ == entity@,
                k@ == key@,
                out@ == text_hits(rows.take(i as int), entity@, key@, op, q@),
            decreases self.text_index@.len() - i,
        {
            let row = &self.text_index[i];
            assert(rows[i as int] == row@);
            assert(rows.take(i as int + 1).drop_last() =~= rows.take(i as int));
            if crate::text::text_is(row.entity.as_str(), &ent) && crate::text::text_is(row.key.as_str(), &k)
                && text_value_matches(op, &row.value, q) {
                out.push(row.entity_id);
            }
            i = i + 1;
        }
        assert(rows.take(i as int) =~= rows);
        out
    }

    fn date_search(&self, entity: &str, key: &str, op: SearchOperator, q: &Date) -> (r: Vec<u128>)
        ensures
            r@ == date_hits(self@.date_index, entity@, key@, op, *q),
    {
        let ghost rows = self@.date_index;
        let ent = crate::text::chars_of(entity);
        let k = crate::text::chars_of(key);
        let mut out: Vec<u128> = Vec::new();
        let mut i: usize = 0;
        while i < self.date_index.len()
            invariant
                i <= self.date_index@.len() == rows.len(),
                rows == self@.date_index,
                ent@ == entity@,
                k@ == key@,
                out@ == date_hits(rows.take(i as int), entity@, key@, op, *q),
            decreases self.date_index@.len() - i,
        {
            let row = &self.date_index[i];
            assert(rows[i as int] == row@);
            assert(rows.take(i as int + 1).drop_last() =~= rows.take(i as int));
            if crate::text::text_is(row.entity.as_str(), &ent) && crate::text::text_is(row.key.as_str(), &k)
                && date_value_matches(op, &row.value, q) {
                out.push(row.entity_id);
            }
            i = i + 1;
        }
        assert(rows.take(i as int) =~= rows);
        out
    }
}

/// Why a write was refused; a refused write changes nothing.
#[derive(Debug, Clone, Copy, PartialEq, Eq, Structural)]
pub enum PutError {
    /// The document is not a JSON object.
    NotAnObject,
    /// The document has no string `resourceType`.
    MissingResourceType,
    /// The document does not conform to the schema.
    SchemaViolation,
    /// An entity with the generated id exists already.
    DuplicateId,
    /// The document does not read as its resource type where the index needs it to.
    UnreadableResource,
}

/// A created entity: its id, and the warnings its index values raised.
#[derive(Debug)]
pub struct Inserted {
    pub id: u128,
    pub warnings: Vec<String>,
}

/// The `resourceType` of a document, where it is a string.
pub open spec fn resource_type_of(d: JsonV) -> Option<Seq<char>> {
    match member(members_of(d), rt_key()) {
        Some(JsonV::Str(r)) => Some(r),
        _ => None,
    }
}

/// A document as it is stored: without `id` and `resourceType`.
pub open spec fn stored_form(d: JsonV) -> JsonV {
    JsonV::Object(without_member(without_member(members_of(d), id_key()), rt_key()))
}

/// The document that is validated for resource type `rt`: refused (`None`)
/// when it is no object or names another string `resourceType`; else the
/// document with its `resourceType` set to `rt`.
pub open spec fn validation_doc(rt: Seq<char>, d: JsonV) -> Option<JsonV> {
    match d {
        JsonV::Object(es) => match member(es, rt_key()) {
            Some(JsonV::Str(r)) => if r == rt {
                Some(d)
            } else {
                None
            },
            _ => Some(JsonV::Object(without_member(es, rt_key()).push((rt_key(), JsonV::Str(rt))))),
        },
        _ => None,
    }
}

/// Whether a document is valid for resource type `rt` under the schema.
pub open spec fn valid_for(schema: Seq<char>, rt: Seq<char>, d: JsonV) -> bool {
    match validation_doc(rt, d) {
        Some(v) => conforms(schema, json_text(v)),
        None => false,
    }
}

/// The text index rows for one key's values.
pub open spec fn key_text_rows(id: u128, rt: Seq<char>, key: Seq<char>, vals: Seq<Seq<char>>) -> Seq<TextRowV> {
    Seq::new(vals.len(), |i: int| TextRowV { entity_id: id, entity: rt, key: key, value: vals[i] })
}

/// The text index rows for an entity's extracted values, key by key.
pub open spec fn text_rows(id: u128, rt: Seq<char>, vals: Seq<(Seq<char>, Seq<Seq<char>>)>) -> Seq<TextRowV>
    decreases vals.len(),
{
    if vals.len() == 0 {
        Seq::empty()
    } else {
        text_rows(id, rt, vals.drop_last()) + key_text_rows(id, rt, vals.last().0, vals.last().1)
    }
}

/// The date index rows for one key's values.
pub open spec fn key_date_rows(id: u128, rt: Seq<char>, key: Seq<char>, vals: Seq<Date>) -> Seq<DateRowV> {
    Seq::new(vals.len(), |i: int| DateRowV { entity_id: id, entity: rt, key: key, value: vals[i] })
}

/// The date index rows for an entity's extracted values, key by key.
pub open spec fn date_rows(id: u128, rt: Seq<char>, vals: Seq<(Seq<char>, Seq<Date>)>) -> Seq<DateRowV>
    decreases vals.len(),
{
    if vals.len() == 0 {
        Seq::empty()
    } else {
        date_rows(id, rt, vals.drop_last()) + key_date_rows(id, rt, vals.last().0, vals.last().1)
    }
}

/// The timestamp recorded for a mutation at clock reading `now`: `now`
/// itself, unless the clock has stepped back behind the last recorded entry,
/// whose timestamp is then used again.
pub open spec fn stamp(s: StoreV, now: i128) -> i128 {
    if s.history.len() > 0 && s.history.last().timestamp > now {
        s.history.last().timestamp
    } else {
        now
    }
}

/// The history table with one more entry for entity `id`.
pub open spec fn recorded(s: StoreV, id: u128, now: i128, c: ChangeV) -> Seq<HistoryV> {
    s.history.push(HistoryV { id: s.history.len(), entity_id: id, timestamp: stamp(s, now), change: c })
}

/// The tables after entity `id` of type `rt` is created with stored document
/// `data`: its row, its `insert` history entry, and its index rows.
pub open spec fn inserted(s: StoreV, id: u128, rt: Seq<char>, data: JsonV, now: i128) -> StoreV {
    let vals = extracted(rt, data)->0;
    StoreV {
        schema: s.schema,
        entities: s.entities.push(EntityV { id: id, resource_type: rt, data: data }),
        history: recorded(s, id, now, ChangeV::Insert(data)),
        text_index: s.text_index + text_rows(id, rt, vals.0),
        date_index: s.date_index + date_rows(id, rt, vals.1),
    }
}

/// Why creating entity `id` from document `d` is refused, given the schema's
/// verdict; `None` where it succeeds.
pub open spec fn put_refusal(s: StoreV, d: JsonV, id: u128, schema_ok: bool) -> Option<PutError> {
    if !(d is Object) {
        Some(PutError::NotAnObject)
    } else if resource_type_of(d) is None {
        Some(PutError::MissingResourceType)
    } else if !schema_ok {
        Some(PutError::SchemaViolation)
    } else if extracted(resource_type_of(d)->0, stored_form(d)) is None {
        Some(PutError::UnreadableResource)
    } else if row_of(s.entities, id) is Some {
        Some(PutError::DuplicateId)
    } else {
        None
    }
}

pub(crate) proof fn lemma_stored_form(d: JsonV)
    ensures
        storable(stored_form(d)),
        members_map(members_of(stored_form(d))) == members_map(members_of(d)).remove(id_key()).remove(
            rt_key(),
        ),
{
    let es = members_of(d);
    let a = without_member(es, id_key());
    lemma_without_member(es, id_key());
    lemma_without_member(a, rt_key());
    let b = without_member(a, rt_key());
    lemma_member_map(b, id_key());
    lemma_member_map(a, id_key());
    assert(member(b, id_key()) == member(a, id_key()));
}

fn id_string() -> (r: String)
    ensures
        r@ == id_key(),
{
    string_from(tok2('i', 'd'))
}

/// The `resourceType` of a document, where it is a string.
fn resource_type_in(d: &JsonValue) -> (r: Option<String>)
    ensures
        r is Some <==> resource_type_of(d@) is Some,
        r is Some ==> r->0@ == resource_type_of(d@)->0,
{
    match d.get_member(&rt_string()) {
        Some(JsonValue::Str(s)) => Some(s.clone()),
        _ => None,
    }
}

/// The document as stored: without `id` and `resourceType`.
fn stored_document(d: &JsonValue) -> (r: JsonValue)
    requires
        d@ is Object,
    ensures
        r@ == stored_form(d@),
{
    let a = d.without(&id_string());
    a.without(&rt_string())
}

/// The document to validate for resource type `entity`, if it can be valid.
fn validation_document(entity: &str, data: &JsonValue) -> (r: Option<JsonValue>)
    ensures
        r is Some <==> validation_doc(entity@, data@) is Some,
        r is Some ==> r->0@ == validation_doc(entity@, data@)->0,
{
    match data {
        JsonValue::Object(_) => {
            let key = rt_string();
            match data.get_member(&key) {
                Some(JsonValue::Str(r)) => {
                    if crate::text::text_is(entity, &crate::text::chars_of(r.as_str())) {
                        Some(data.deep_clone())
                    } else {
                        None
                    }
                },
                _ => {
                    let stripped = data.without(&key);
                    match stripped {
                        JsonValue::Object(mut ms) => {
                            let ghost ms0 = ms@;
                            let ghost before = object_members_view(ms@);
                            assert(before =~= without_member(members_of(data@), rt_key()));
                            let name = string_from(crate::text::chars_of(entity));
                            assert(key@ == rt_key());
                            let ghost name_view = name@;
                            assert(name_view == entity@);
                            ms.push((key, JsonValue::Str(name)));
                            let r = JsonValue::Object(ms);
                            assert forall|j: int| 0 <= j < before.len() + 1 implies #[trigger] r@->Object_0[j]
                                == before.push((rt_key(), JsonV::Str(entity@)))[j] by {
                                if j < before.len() {
                                    assert(ms@[j] == ms0[j]);
                                } else {
                                    assert(ms@[j].0@ == rt_key());
                                    assert(ms@[j].1@ == JsonV::Str(entity@));
                                }
                            }
                            assert(r@->Object_0 =~= before.push((rt_key(), JsonV::Str(entity@))));
                            Some(r)
                        },
                        _ => None,
                    }
                },
            }
        },
        _ => None,
    }
}

fn push_text_rows(rows: &mut Vec<TextIndexRow>, id: u128, entity: &String, vals: &Vec<(String, Vec<String>)>)
    ensures
        text_rows_view(final(rows)@) == text_rows_view(old(rows)@) + text_rows(id, entity@, text_values_view(vals@)),
{
    let ghost vv = text_values_view(vals@);
    let ghost start = text_rows_view(rows@);
    let mut i: usize = 0;
    assert(text_rows_view(rows@) =~= start + text_rows(id, entity@, vv.take(0)));
    while i < vals.len()
        invariant
            i <= vals@.len() == vv.len(),
            vv == text_values_view(vals@),
            text_rows_view(rows@) == start + text_rows(id, entity@, vv.take(i as int)),
        decreases vals@.len() - i,
    {
        let key = &vals[i].0;
        let values = &vals[i].1;
        let ghost mid = text_rows_view(rows@);
        let mut j: usize = 0;
        assert(text_rows_view(rows@) =~= mid + key_text_rows(id, entity@, key@, strings_view(values@).take(0)));
        while j < values.len()
            invariant
                j <= values@.len(),
                text_rows_view(rows@) == mid + key_text_rows(id, entity@, key@, strings_view(values@).take(j as int)),
            decreases values@.len() - j,
        {
            let ghost before = text_rows_view(rows@);
            rows.push(TextIndexRow { entity_id: id, entity: entity.clone(), key: key.clone(), value: values[j].clone() });
            assert(text_rows_view(rows@) =~= before.push(TextRowV { entity_id: id, entity: entity@, key: key@, value: values@[j as int]@ }));
            j = j + 1;
            assert(key_text_rows(id, entity@, key@, strings_view(values@).take(j as int)) =~= key_text_rows(id, entity@, key@, strings_view(values@).take(j as int - 1)).push(TextRowV { entity_id: id, entity: entity@, key: key@, value: values@[j as int - 1]@ }));
        }
        assert(strings_view(values@).take(j as int) =~= strings_view(values@));
        assert(vv.take(i as int + 1).drop_last() =~= vv.take(i as int));
        assert(vv[i as int] == (key@, strings_view(values@)));
        i = i + 1;
    }
    assert(vv.take(i as int) =~= vv);
}

fn push_date_rows(rows: &mut Vec<DateIndexRow>, id: u128, entity: &String, vals: &Vec<(String, Vec<Date>)>)
    ensures
        date_rows_view(final(rows)@) == date_rows_view(old(rows)@) + date_rows(id, entity@, date_values_view(vals@)),
{
    let ghost vv = date_values_view(vals@);
    let ghost start = date_rows_view(rows@);
    let mut i: usize = 0;
    assert(date_rows_view(rows@) =~= start + date_rows(id, entity@, vv.take(0)));
    while i < vals.len()
        invariant
            i <= vals@.len() == vv.len(),
            vv == date_values_view(vals@),
            date_rows_view(rows@) == start + date_rows(id, entity@, vv.take(i as int)),
        decreases vals@.len() - i,
    {
        let key = &vals[i].0;
        let values = &vals[i].1;
        let ghost mid = date_rows_view(rows@);
        let mut j: usize = 0;
        assert(date_rows_view(rows@) =~= mid + key_date_rows(id, entity@, key@, values@.take(0)));
        while j < values.len()
            invariant
                j <= values@.len(),
                date_rows_view(rows@) == mid + key_date_rows(id, entity@, key@, values@.take(j as int)),
            decreases values@.len() - j,
        {
            let ghost before = date_rows_view(rows@);
            rows.push(DateIndexRow { entity_id: id, entity: entity.clone(), key: key.clone(), value: values[j] });
            assert(date_rows_view(rows@) =~= before.push(DateRowV { entity_id: id, entity: entity@, key: key@, value: values@[j as int] }));
            j = j + 1;
            assert(key_date_rows(id, entity@, key@, values@.take(j as int)) =~= key_date_rows(id, entity@, key@, values@.take(j as int - 1)).push(DateRowV { entity_id: id, entity: entity@, key: key@, value: values@[j as int - 1] }));
        }
        assert(values@.take(j as int) =~= values@);
        assert(vv.take(i as int + 1).drop_last() =~= vv.take(i as int));
        i = i + 1;
    }
    assert(vv.take(i as int) =~= vv);
}

impl Store {
    /// The timestamp to record for clock reading `now`.
    fn next_stamp(&self, now: i128) -> (r: i128)
        ensures
            r == stamp(self@, now),
    {
        let n = self.history.len();
        if n > 0 && self.history[n - 1].timestamp > now {
            self.history[n - 1].timestamp
        } else {
            now
        }
    }

    /// Whether `data` is a valid document of resource type `entity`: an
    /// object whose `resourceType`, if it is a string, is `entity`, and that
    /// conforms to the schema once its `resourceType` is set to `entity`.
    pub fn fhir_is_valid(&self, entity: &str, data: &JsonValue) -> (r: bool)
        ensures
            r == valid_for(self@.schema, entity@, data@),
    {
        match validation_document(entity, data) {
            Some(v) => conforms_to(self.schema.as_str(), to_json_text(&v).as_str()),
            None => false,
        }
    }

    /// Creates entity `id` from `entity`, given whether its stored form
    /// conforms to the schema: the stored document, its `insert` history
    /// entry and its index rows are written together, or nothing is.
    pub fn put_checked(&mut self, entity: &JsonValue, id: u128, now: i128, schema_ok: bool) -> (r: Result<Inserted, PutError>)
        requires
            old(self)@.wf(),
        ensures
            final(self)@.wf(),
            r matches Err(e) ==> put_refusal(old(self)@, entity@, id, schema_ok) == Some(e)
                && final(self)@ == old(self)@,
            r is Ok ==> put_refusal(old(self)@, entity@, id, schema_ok) is None,
            r matches Ok(ins) ==> ins.id == id && final(self)@ == inserted(
                old(self)@,
                id,
                resource_type_of(entity@)->0,
                stored_form(entity@),
                now,
            ),
            r matches Ok(ins) ==> ins.warnings@.len() == extraction_warnings(
                resource_type_of(entity@)->0,
                stored_form(entity@),
            ),
            r is Ok ==> final(self)@.entities.last().data == stored_form(entity@)
                && storable(final(self)@.entities.last().data),
            r is Ok ==> final(self)@.history == old(self)@.history.push(
                final(self)@.history.last(),
            ) && final(self)@.history.last().entity_id == id
                && final(self)@.history.last().change == ChangeV::Insert(stored_form(entity@)),
    {
        if !matches!(entity, JsonValue::Object(_)) {
            return Err(PutError::NotAnObject);
        }
        let rt = match resource_type_in(entity) {
            Some(rt) => rt,
            None => {
                return Err(PutError::MissingResourceType);
            },
        };
        if !schema_ok {
            return Err(PutError::SchemaViolation);
        }
        let data = stored_document(entity);
        let vals = match collect_index_values_for(rt.as_str(), &data) {
            Some(v) => v,
            None => {
                return Err(PutError::UnreadableResource);
            },
        };
        if self.find_row(id).is_some() {
            return Err(PutError::DuplicateId);
        }
        let ghost old_view = self@;
        let ts = self.next_stamp(now);
        proof {
            lemma_stored_form(entity@);
            lemma_row_of_facts(old_view.entities, id);
        }
        let snapshot = data.deep_clone();
        let hid = self.history.len();
        self.entities.push(EntityRow { id, resource_type: rt.clone(), data });
        self.history.push(HistoryEntry { id: hid, entity_id: id, timestamp: ts, change: Change::Insert(snapshot) });
        match &vals.text {
            Some(t) => push_text_rows(&mut self.text_index, id, &rt, t),
            None => {},
        }
        match &vals.date {
            Some(d) => push_date_rows(&mut self.date_index, id, &rt, d),
            None => {},
        }
        proof {
            let exp = inserted(old_view, id, rt@, stored_form(entity@), now);
            assert(self@.entities =~= exp.entities);
            assert(self@.history =~= exp.history);
            assert(self@.text_index =~= exp.text_index) by {
                if vals.text is None {
                    assert(text_rows(id, rt@, Seq::empty()) =~= Seq::<TextRowV>::empty());
                }
            }
            assert(self@.date_index =~= exp.date_index) by {
                if vals.date is None {
                    assert(date_rows(id, rt@, Seq::empty()) =~= Seq::<DateRowV>::empty());
                }
            }
        }
        Ok(Inserted { id, warnings: vals.warnings })
    }
}

/// The tables after entity row `i` takes the stored document `data`: the
/// row changes, an `update` entry records the diff unless the document is
/// the same, and the index rows stay as they were.
pub open spec fn updated(s: StoreV, i: int, data: JsonV, now: i128) -> StoreV {
    let row = s.entities[i];
    StoreV {
        schema: s.schema,
        entities: s.entities.update(i, EntityV { id: row.id, resource_type: row.resource_type, data: data }),
        history: match logged_change(Some(row.data), Some(data)) {
            Some(c) => recorded(s, row.id, now, c),
            None => s.history,
        },
        text_index: s.text_index,
        date_index: s.date_index,
    }
}

/// The text index rows that do not belong to entity `id`.
pub open spec fn text_rows_not_of(rows: Seq<TextRowV>, id: u128) -> Seq<TextRowV>
    decreases rows.len(),
{
    if rows.len() == 0 {
        rows
    } else if rows.last().entity_id == id {
        text_rows_not_of(rows.drop_last(), id)
    } else {
        text_rows_not_of(rows.drop_last(), id).push(rows.last())
    }
}

/// The date index rows that do not belong to entity `id`.
pub open spec fn date_rows_not_of(rows: Seq<DateRowV>, id: u128) -> Seq<DateRowV>
    decreases rows.len(),
{
    if rows.len() == 0 {
        rows
    } else if rows.last().entity_id == id {
        date_rows_not_of(rows.drop_last(), id)
    } else {
        date_rows_not_of(rows.drop_last(), id).push(rows.last())
    }
}

/// The tables after entity row `i` is deleted: the row and its index rows
/// go, and a `delete` entry records the document it held.
pub open spec fn deleted(s: StoreV, i: int, now: i128) -> StoreV {
    let row = s.entities[i];
    StoreV {
        schema: s.schema,
        entities: s.entities.remove(i),
        history: recorded(s, row.id, now, ChangeV::Delete(row.data)),
        text_index: text_rows_not_of(s.text_index, row.id),
        date_index: date_rows_not_of(s.date_index, row.id),
    }
}

impl Store {
    /// Replaces the document of entity `id`, given whether the new stored
    /// form conforms to the schema. `id` and `resourceType` in the document
    /// are dropped; the index rows are not derived again. `Ok(false)` where
    /// there is no entity `id`, which changes nothing.
    pub fn put_update_checked(&mut self, id: u128, entity: &JsonValue, now: i128, schema_ok: bool) -> (r: Result<bool, PutError>)
        requires
            old(self)@.wf(),
        ensures
            final(self)@.wf(),
            !(entity@ is Object) ==> r == Err::<bool, PutError>(PutError::NotAnObject),
            entity@ is Object && row_of(old(self)@.entities, id) is None ==> r == Ok::<bool, PutError>(false),
            entity@ is Object && row_of(old(self)@.entities, id) is Some ==> r == (if schema_ok {
                Ok::<bool, PutError>(true)
            } else {
                Err(PutError::SchemaViolation)
            }),
            r != Ok::<bool, PutError>(true) ==> final(self)@ == old(self)@,
            r == Ok::<bool, PutError>(true) ==> final(self)@ == updated(
                old(self)@,
                row_of(old(self)@.entities, id)->0,
                stored_form(entity@),
                now,
            ),
    {
        if !matches!(entity, JsonValue::Object(_)) {
            return Err(PutError::NotAnObject);
        }
        let i = match self.find_row(id) {
            Some(i) => i,
            None => {
                return Ok(false);
            },
        };
        if !schema_ok {
            return Err(PutError::SchemaViolation);
        }
        let ghost old_view = self@;
        proof {
            lemma_stored_form(entity@);
            lemma_row_of_facts(old_view.entities, id);
        }
        let data = stored_document(entity);
        let ts = self.next_stamp(now);
        let change = fhir_log_entity_history(Some(&self.entities[i].data), Some(&data));
        let hid = self.history.len();
        let rt = self.entities[i].resource_type.clone();
        self.entities.set(i, EntityRow { id, resource_type: rt, data });
        match change {
            Some(c) => {
                self.history.push(HistoryEntry { id: hid, entity_id: id, timestamp: ts, change: c });
            },
            None => {},
        }
        proof {
            let exp = updated(old_view, i as int, stored_form(entity@), now);
            assert(self@.entities =~= exp.entities);
            assert(self@.history =~= exp.history);
        }
        Ok(true)
    }

    /// Deletes entity `id` with its index rows and records its last document
    /// in the history; `false` where there is no entity `id`, which changes nothing.
    pub fn delete_checked(&mut self, id: u128, now: i128) -> (r: bool)
        requires
            old(self)@.wf(),
        ensures
            final(self)@.wf(),
            r == row_of(old(self)@.entities, id) is Some,
            !r ==> final(self)@ == old(self)@,
            r ==> final(self)@ == deleted(old(self)@, row_of(old(self)@.entities, id)->0, now),
            r ==> final(self)@.history.drop_last() == old(self)@.history,
            r ==> forall|other: u128|
                #[trigger] entries_of(final(self)@.history, other) == if other == id {
                    entries_of(old(self)@.history, other).push(
                        (final(self)@.history.last().timestamp, OperationV::Delete),
                    )
                } else {
                    entries_of(old(self)@.history, other)
                },
    {
        let i = match self.find_row(id) {
            Some(i) => i,
            None => {
                return false;
            },
        };
        let ghost old_view = self@;
        proof {
            lemma_row_of_facts(old_view.entities, id);
        }
        let ts = self.next_stamp(now);
        let hid = self.history.len();
        let row = self.entities.remove(i);
        self.history.push(HistoryEntry { id: hid, entity_id: id, timestamp: ts, change: Change::Delete(row.data) });
        let mut kept_text: Vec<TextIndexRow> = Vec::new();
        let ghost trows = old_view.text_index;
        let mut j: usize = 0;
        assert(text_rows_view(kept_text@) =~= text_rows_not_of(trows.take(0), id));
        while j < self.text_index.len()
            invariant
                j <= self.text_index@.len() == trows.len(),
                trows == text_rows_view(self.text_index@),
                text_rows_view(kept_text@) == text_rows_not_of(trows.take(j as int), id),
            decreases self.text_index@.len() - j,
        {
            let t = &self.text_index[j];
            assert(trows.take(j as int + 1).drop_last() =~= trows.take(j as int));
            if t.entity_id != id {
                let ghost before = text_rows_view(kept_text@);
                kept_text.push(TextIndexRow { entity_id: t.entity_id, entity: t.entity.clone(), key: t.key.clone(), value: t.value.clone() });
                assert(text_rows_view(kept_text@) =~= before.push(trows[j as int]));
            }
            j = j + 1;
        }
        assert(trows.take(j as int) =~= trows);
        self.text_index = kept_text;
        let mut kept_date: Vec<DateIndexRow> = Vec::new();
        let ghost drows = old_view.date_index;
        let mut k: usize = 0;
        assert(date_rows_view(kept_date@) =~= date_rows_not_of(drows.take(0), id));
        while k < self.date_index.len()
            invariant
                k <= self.date_index@.len() == drows.len(),
                drows == date_rows_view(self.date_index@),
                date_rows_view(kept_date@) == date_rows_not_of(drows.take(k as int), id),
            decreases self.date_index@.len() - k,
        {
            let t = &self.date_index[k];
            assert(drows.take(k as int + 1).drop_last() =~= drows.take(k as int));
            if t.entity_id != id {
                let ghost before = date_rows_view(kept_date@);
                kept_date.push(DateIndexRow { entity_id: t.entity_id, entity: t.entity.clone(), key: t.key.clone(), value: t.value });
                assert(date_rows_view(kept_date@) =~= before.push(drows[k as int]));
            }
            k = k + 1;
        }
        assert(drows.take(k as int) =~= drows);
        self.date_index = kept_date;
        proof {
            let exp = deleted(old_view, i as int, now);
            assert(self@.entities =~= exp.entities);
            assert(self@.history =~= exp.history);
            assert forall|a: int, b: int| 0 <= a < b < self@.entities.len() implies #[trigger] self@.entities[a].id
                != #[trigger] self@.entities[b].id by {
                let a0 = if a < i { a } else { a + 1 };
                let b0 = if b < i { b } else { b + 1 };
                assert(self@.entities[a] == old_view.entities[a0]);
                assert(self@.entities[b] == old_view.entities[b0]);
            }
            assert forall|a: int| 0 <= a < self@.entities.len() implies storable(#[trigger] self@.entities[a].data) by {
                let a0 = if a < i { a } else { a + 1 };
                assert(self@.entities[a] == old_view.entities[a0]);
            }
            assert forall|other: u128| #[trigger] entries_of(self@.history, other) == if other == id {
                entries_of(old_view.history, other).push(
                    (self@.history.last().timestamp, OperationV::Delete),
                )
            } else {
                entries_of(old_view.history, other)
            } by {
                crate::laws::lemma_delete_keeps_history(old_view, i as int, now, other);
            }
            crate::laws::lemma_delete_keeps_history(old_view, i as int, now, id);
        }
        true
    }
}

/// One operation in an entity's history, as it is reported.
#[derive(Debug)]
pub enum EntityHistoryOperation {
    /// The entity was created with this document.
    Insert { data: JsonValue },
    /// The document changed: values by dotted path.
    Update { added: JsonValue, changed: JsonValue, removed: JsonValue },
    /// The entity was deleted.
    Delete,
}

pub enum OperationV {
    Insert(JsonV),
    Update(JsonV, JsonV, JsonV),
    Delete,
}

impl View for EntityHistoryOperation {
    type V = OperationV;

    open spec fn view(&self) -> OperationV {
        match self {
            EntityHistoryOperation::Insert { data } => OperationV::Insert(data@),
            EntityHistoryOperation::Update { added, changed, removed } => OperationV::Update(
                added@,
                changed@,
                removed@,
            ),
            EntityHistoryOperation::Delete => OperationV::Delete,
        }
    }
}

/// One entry of an entity's history, as it is reported.
#[derive(Debug)]
pub struct EntityHistoryEntry {
    /// Nanoseconds since the Unix epoch.
    pub timestamp: i128,
    pub operation: EntityHistoryOperation,
}

/// An entity as it is now, with its history from the first entry on.
#[derive(Debug)]
pub struct EntityHistoryResponse {
    pub current: JsonValue,
    pub history: Vec<EntityHistoryEntry>,
}

/// How a recorded change is reported: an update's leaves as objects keyed by
/// dotted path; a delete without its document.
pub open spec fn reported(c: ChangeV) -> OperationV {
    match c {
        ChangeV::Insert(d) => OperationV::Insert(d),
        ChangeV::Update(d) => OperationV::Update(
            leaves_object(d.added),
            leaves_object(d.changed),
            leaves_object(d.removed),
        ),
        ChangeV::Delete(_) => OperationV::Delete,
    }
}

/// The reported entries of entity `id`, in the order of the table.
pub open spec fn entries_of(h: Seq<HistoryV>, id: u128) -> Seq<(i128, OperationV)>
    decreases h.len(),
{
    if h.len() == 0 {
        Seq::empty()
    } else if h.last().entity_id == id {
        entries_of(h.drop_last(), id).push((h.last().timestamp, reported(h.last().change)))
    } else {
        entries_of(h.drop_last(), id)
    }
}

pub open spec fn entries_view(v: Seq<EntityHistoryEntry>) -> Seq<(i128, OperationV)> {
    Seq::new(v.len(), |i: int| (v[i].timestamp, v[i].operation@))
}

fn report(c: &Change) -> (r: EntityHistoryOperation)
    ensures
        r@ == reported(c@),
{
    match c {
        Change::Insert(d) => EntityHistoryOperation::Insert { data: d.deep_clone() },
        Change::Update(d) => EntityHistoryOperation::Update {
            added: leaves_to_object(&d.added),
            changed: leaves_to_object(&d.changed),
            removed: leaves_to_object(&d.removed),
        },
        Change::Delete(_) => EntityHistoryOperation::Delete,
    }
}

impl Store {
    /// Entity `id` of type `entity` as it is now, and every history entry
    /// recorded for it, oldest first; `None` where the entity is absent.
    pub fn fhir_get_history(&self, entity: &str, id: u128) -> (r: Option<EntityHistoryResponse>)
        ensures
            r is Some <==> get_spec(self@, entity@, id) is Some,
            r matches Some(h) ==> h.current@ == get_spec(self@, entity@, id)->0 && entries_view(
                h.history@,
            ) == entries_of(self@.history, id),
    {
        let current = self.fhir_get(entity, id)?;
        Some(EntityHistoryResponse { current, history: self.history_of(id) })
    }

    /// Creates an entity from `entity`, with a fresh time-ordered id; see
    /// [`Store::put_checked`] for what is written. The schema check is made on
    /// the stored form with its `resourceType` put back.
    pub fn fhir_put(&mut self, entity: &JsonValue) -> (r: Result<Inserted, PutError>)
        requires
            old(self)@.wf(),
        ensures
            final(self)@.wf(),
            !(entity@ is Object) ==> r matches Err(PutError::NotAnObject),
            entity@ is Object && resource_type_of(entity@) is None ==> r matches Err(
                PutError::MissingResourceType,
            ),
            resource_type_of(entity@) matches Some(rt) ==> (r matches Err(PutError::SchemaViolation)
                <==> entity@ is Object && !valid_for(old(self)@.schema, rt, stored_form(entity@))),
            entity@ is Object && resource_type_of(entity@) is Some && valid_for(
                old(self)@.schema,
                resource_type_of(entity@)->0,
                stored_form(entity@),
            ) ==> (r matches Err(PutError::UnreadableResource) <==> extracted(
                resource_type_of(entity@)->0,
                stored_form(entity@),
            ) is None),
            r matches Err(PutError::DuplicateId) ==> old(self)@.entities.len() > 0,
            old(self)@.entities.len() == 0 && entity@ is Object && resource_type_of(entity@) is Some
                && valid_for(old(self)@.schema, resource_type_of(entity@)->0, stored_form(entity@))
                && extracted(resource_type_of(entity@)->0, stored_form(entity@)) is Some ==> r is Ok,
            entity@ is Object && resource_type_of(entity@) is Some && valid_for(
                old(self)@.schema,
                resource_type_of(entity@)->0,
                stored_form(entity@),
            ) && extracted(resource_type_of(entity@)->0, stored_form(entity@)) is Some ==> (r is Ok
                || r matches Err(PutError::DuplicateId)),
            r is Err ==> final(self)@ == old(self)@,
            r matches Ok(ins) ==> exists|now: i128|
                final(self)@ == inserted(
                    old(self)@,
                    ins.id,
                    resource_type_of(entity@)->0,
                    stored_form(entity@),
                    now,
                ),
            r matches Ok(ins) ==> ins.warnings@.len() == extraction_warnings(
                resource_type_of(entity@)->0,
                stored_form(entity@),
            ),
    {
        let schema_ok = match (entity, resource_type_in(entity)) {
            (JsonValue::Object(_), Some(rt)) => self.fhir_is_valid(rt.as_str(), &stored_document(entity)),
            _ => false,
        };
        let id = fhir_generate_id();
        let now = now_utc();
        self.put_checked(entity, id, now, schema_ok)
    }

    /// Replaces the document of entity `id`; see [`Store::put_update_checked`].
    /// The schema check is made for the entity's stored resource type.
    pub fn fhir_put_update(&mut self, id: u128, entity: &JsonValue) -> (r: Result<bool, PutError>)
        requires
            old(self)@.wf(),
        ensures
            final(self)@.wf(),
            !(entity@ is Object) ==> r == Err::<bool, PutError>(PutError::NotAnObject),
            entity@ is Object && row_of(old(self)@.entities, id) is None ==> r == Ok::<bool, PutError>(false),
            entity@ is Object && row_of(old(self)@.entities, id) is Some ==> r == (if valid_for(
                old(self)@.schema,
                old(self)@.entities[row_of(old(self)@.entities, id)->0].resource_type,
                stored_form(entity@),
            ) {
                Ok::<bool, PutError>(true)
            } else {
                Err(PutError::SchemaViolation)
            }),
            r != Ok::<bool, PutError>(true) ==> final(self)@ == old(self)@,
            r == Ok::<bool, PutError>(true) ==> exists|now: i128|
                final(self)@ == updated(
                    old(self)@,
                    row_of(old(self)@.entities, id)->0,
                    stored_form(entity@),
                    now,
                ),
    {
        let schema_ok = match (entity, self.find_row(id)) {
            (JsonValue::Object(_), Some(i)) => {
                let data = stored_document(entity);
                self.fhir_is_valid(self.entities[i].resource_type.as_str(), &data)
            },
            _ => false,
        };
        let now = now_utc();
        self.put_update_checked(id, entity, now, schema_ok)
    }

    /// Deletes entity `id`; see [`Store::delete_checked`].
    pub fn fhir_delete(&mut self, id: u128) -> (r: bool)
        requires
            old(self)@.wf(),
        ensures
            final(self)@.wf(),
            r == row_of(old(self)@.entities, id) is Some,
            !r ==> final(self)@ == old(self)@,
            r ==> exists|now: i128|
                final(self)@ == deleted(old(self)@, row_of(old(self)@.entities, id)->0, now),
            r ==> final(self)@.history.drop_last() == old(self)@.history,
            r ==> forall|other: u128|
                #[trigger] entries_of(final(self)@.history, other) == if other == id {
                    entries_of(old(self)@.history, other).push(
                        (final(self)@.history.last().timestamp, OperationV::Delete),
                    )
                } else {
                    entries_of(old(self)@.history, other)
                },
    {
        let now = now_utc();
        self.delete_checked(id, now)
    }

    /// Every entity id of the store, in table order.
    pub fn entity_ids(&self) -> (r: Vec<u128>)
        ensures
            r@ == Seq::new(self@.entities.len(), |i: int| self@.entities[i].id),
    {
        let mut out: Vec<u128> = Vec::new();
        let mut i: usize = 0;
        while i < self.entities.len()
            invariant
                i <= self.entities@.len(),
                out@ == Seq::new(i as nat, |j: int| self@.entities[j].id),
            decreases self.entities@.len() - i,
        {
            out.push(self.entities[i].id);
            i = i + 1;
            assert(out@ =~= Seq::new(i as nat, |j: int| self@.entities[j].id));
        }
        out
    }
}

impl Store {
    /// Every history entry recorded for entity `id`, oldest first, whether or
    /// not the entity still exists.
    pub fn history_of(&self, id: u128) -> (r: Vec<EntityHistoryEntry>)
        ensures
            entries_view(r@) == entries_of(self@.history, id),
    {
        let ghost hv = self@.history;
        let mut out: Vec<EntityHistoryEntry> = Vec::new();
        let mut i: usize = 0;
        assert(entries_view(out@) =~= entries_of(hv.take(0), id));
        while i < self.history.len()
            invariant
                i <= self.history@.len() == hv.len(),
                hv == self@.history,
                entries_view(out@) == entries_of(hv.take(i as int), id),
            decreases self.history@.len() - i,
        {
            let e = &self.history[i];
            assert(hv[i as int] == e@);
            assert(hv.take(i as int + 1).drop_last() =~= hv.take(i as int));
            if e.entity_id == id {
                let ghost before = entries_view(out@);
                out.push(EntityHistoryEntry { timestamp: e.timestamp, operation: report(&e.change) });
                assert(entries_view(out@) =~= before.push((e.timestamp, reported(e.change@))));
            }
            i = i + 1;
        }
        assert(hv.take(i as int) =~= hv);
        out
    }
}

impl Store {
    /// Whether the store's schema compiles; a store whose schema does not
    /// compile refuses every write as a schema violation.
    pub fn compile_schema(&self) -> (r: bool)
        ensures
            r == compiles(self@.schema),
    {
        schema_compiles(self.schema.as_str())
    }

    /// Whether the document conforms to the store's schema as it is.
    pub fn is_valid(&self, obj: &JsonValue) -> (r: bool)
        ensures
            r == conforms(self@.schema, json_text(obj@)),
    {
        conforms_to(self.schema.as_str(), to_json_text(obj).as_str())
    }

    /// [`Store::fhir_search`] with a text value.
    pub fn fhir_search_text(&self, entity: &str, key: &str, op: &str, value: String) -> (r: Result<
        Vec<u128>,
        SearchError,
    >)
        ensures
            r is Ok <==> search_spec(self@, entity@, key@, op@, SearchValueV::Text(value@)) is Ok,
            r matches Ok(ids) ==> search_spec(self@, entity@, key@, op@, SearchValueV::Text(value@))
                == Ok::<Seq<u128>, SearchFailure>(ids@),
            r matches Err(e) ==> search_spec(self@, entity@, key@, op@, SearchValueV::Text(value@))
                == Err::<Seq<u128>, SearchFailure>(failure_of(e)),
    {
        self.fhir_search(entity, key, op, &SearchValue::Text(value))
    }

    /// [`Store::fhir_search`] with a date value.
    pub fn fhir_search_date(&self, entity: &str, key: &str, op: &str, value: Date) -> (r: Result<
        Vec<u128>,
        SearchError,
    >)
        ensures
            r is Ok <==> search_spec(self@, entity@, key@, op@, SearchValueV::Date(value)) is Ok,
            r matches Ok(ids) ==> search_spec(self@, entity@, key@, op@, SearchValueV::Date(value))
                == Ok::<Seq<u128>, SearchFailure>(ids@),
            r matches Err(e) ==> search_spec(self@, entity@, key@, op@, SearchValueV::Date(value))
                == Err::<Seq<u128>, SearchFailure>(failure_of(e)),
    {
        self.fhir_search(entity, key, op, &SearchValue::Date(value))
    }
}

/// The members of an object as plain values.
pub open spec fn object_members_view(ms: Seq<(String, JsonValue)>) -> Seq<(Seq<char>, JsonV)> {
    Seq::new(ms.len(), |i: int| (ms[i].0@, ms[i].1@))
}

/// The text `resourceType`.
fn rt_string() -> (r: String)
    ensures
        r@ == rt_key(),
{
    let r = string_from(vec!['r', 'e', 's', 'o', 'u', 'r', 'c', 'e', 'T', 'y', 'p', 'e']);
    assert(r@ =~= rt_key());
    r
}

} // verus!
