//! The request-level rules of the HTTP interface: configuration, error
//! responses, and list/search requests with their paging.

use vstd::prelude::*;
use vstd::seq_lib::{to_multiset_build, to_multiset_insert};

use crate::date::{parse_date, parse_date_spec};
use crate::index::{extracted, key_type_for, IndexedKeyType};
use crate::json::{members_of, without_member, JsonV, JsonValue};
use crate::search::{SearchError, SearchValue};
use crate::store::{
    get_spec, inserted, resource_type_of, rt_key, search_spec, stored_form, valid_for, Inserted,
    PutError, SearchValueV, Store, StoreV,
};
use crate::text::{chars_of, string_from, string_of};

verus! {

/// Which kind of deployment the service runs in.
#[derive(Debug, Clone, Copy, PartialEq, Eq, Structural)]
pub enum Environment {
    Development,
    Production,
}

impl Default for Environment {
    fn default() -> (r: Environment)
        ensures
            r == Environment::Production,
    {
        Environment::Production
    }
}

/// The service configuration.
#[derive(Debug)]
pub struct Configuration {
    pub env: Environment,
    pub database_url: String,
}

impl Configuration {
    /// Whether the service runs in production.
    pub fn is_production(&self) -> (r: bool)
        ensures
            r == (self.env == Environment::Production),
    {
        self.env == Environment::Production
    }
}

/// The body of an error response.
#[derive(Debug)]
pub struct ErrorResponse {
    pub error: String,
}

/// Why a request failed.
#[derive(Debug)]
pub enum AppError {
    NotFound,
    BadRequest(Option<String>),
    Internal(String),
}

impl AppError {
    /// The HTTP status of the error and the body sent with it: internal
    /// failures are not described to the caller.
    pub fn into_response(self) -> (r: (u16, ErrorResponse))
        ensures
            self is NotFound ==> r.0 == 404 && r.1.error@ == seq!['n', 'o', 't', ' ', 'f', 'o', 'u', 'n', 'd'],
            self matches AppError::BadRequest(m) ==> r.0 == 400 && (m matches Some(t) ==> r.1.error@ == t@),
            self matches AppError::BadRequest(None) ==> r.1.error@ == seq!['b', 'a', 'd', ' ', 'r', 'e', 'q', 'u', 'e', 's', 't'],
            self is Internal ==> r.0 == 500 && r.1.error@ == seq![
                'i', 'n', 't', 'e', 'r', 'n', 'a', 'l', ' ', 's', 'e', 'r', 'v', 'e', 'r', ' ', 'e', 'r', 'r', 'o', 'r',
            ],
    {
        proof {
            reveal_strlit("not found");
            reveal_strlit("bad request");
            reveal_strlit("internal server error");
        }
        match self {
            AppError::NotFound => (404, ErrorResponse { error: text_of("not found") }),
            AppError::BadRequest(Some(m)) => (400, ErrorResponse { error: m }),
            AppError::BadRequest(None) => (400, ErrorResponse { error: text_of("bad request") }),
            AppError::Internal(_) => (500, ErrorResponse { error: text_of("internal server error") }),
        }
    }
}

fn text_of(s: &str) -> (r: String)
    ensures
        r@ == s@,
{
    string_from(chars_of(s))
}

/// The page size when a request names none.
pub fn default_count() -> (r: i64)
    ensures
        r == 20,
{
    20
}

/// The query of a list request: paging and the search parameters.
#[derive(Debug)]
pub struct ListQueryParams {
    /// How many entities a page holds, from 1 to 100.
    pub count: i64,
    /// How many matching entities come before the page.
    pub offset: i64,
    /// The search parameters, by name; exactly one is expected.
    pub search_params: Vec<(String, String)>,
}

/// The operator token and comparison value that a search parameter value
/// stands for: a prefix `eq`, `ne`, `gt`, `ge`, `lt` or `le` (two
/// characters), or `like` or `trgm` (four), names the operator and the rest
/// is the value; without one of them, the whole text is compared for equality.
pub open spec fn split_param(v: Seq<char>) -> (Seq<char>, Seq<char>) {
    let p2 = v.take(2);
    let p4 = v.take(4);
    let r2 = v.skip(2);
    let r4 = v.skip(4);
    if v.len() >= 4 && p4 == seq!['l', 'i', 'k', 'e'] {
        (seq!['~'], r4)
    } else if v.len() >= 4 && p4 == seq!['t', 'r', 'g', 'm'] {
        (seq!['%'], r4)
    } else if v.len() >= 2 && p2 == seq!['e', 'q'] {
        (seq!['='], r2)
    } else if v.len() >= 2 && p2 == seq!['n', 'e'] {
        (seq!['!', '='], r2)
    } else if v.len() >= 2 && p2 == seq!['g', 't'] {
        (seq!['>'], r2)
    } else if v.len() >= 2 && p2 == seq!['g', 'e'] {
        (seq!['>', '='], r2)
    } else if v.len() >= 2 && p2 == seq!['l', 't'] {
        (seq!['<'], r2)
    } else if v.len() >= 2 && p2 == seq!['l', 'e'] {
        (seq!['<', '='], r2)
    } else {
        (seq!['='], v)
    }
}

fn starts_with(cs: &Vec<char>, a: char, b: char) -> (r: bool)
    ensures
        r == (cs@.len() >= 2 && cs@.take(2) == seq![a, b]),
{
    let r = cs.len() >= 2 && cs[0] == a && cs[1] == b;
    if cs.len() >= 2 {
        assert(r == (cs@.take(2) =~= seq![a, b]));
    }
    r
}

fn starts_with4(cs: &Vec<char>, a: char, b: char, c: char, d: char) -> (r: bool)
    ensures
        r == (cs@.len() >= 4 && cs@.take(4) == seq![a, b, c, d]),
{
    let r = cs.len() >= 4 && cs[0] == a && cs[1] == b && cs[2] == c && cs[3] == d;
    if cs.len() >= 4 {
        assert(r == (cs@.take(4) =~= seq![a, b, c, d]));
    }
    r
}

fn rest_from(cs: &Vec<char>, from: usize) -> (r: String)
    requires
        from <= cs@.len(),
    ensures
        r@ == cs@.skip(from as int),
{
    let mut out: Vec<char> = Vec::new();
    let mut i: usize = from;
    while i < cs.len()
        invariant
            from <= i <= cs@.len(),
            out@ == cs@.subrange(from as int, i as int),
        decreases cs@.len() - i,
    {
        out.push(cs[i]);
        i = i + 1;
        assert(out@ =~= cs@.subrange(from as int, i as int));
    }
    assert(out@ =~= cs@.skip(from as int));
    string_of(&out)
}

/// The operator token and comparison value of a search parameter value.
pub fn split_search_param(value: &String) -> (r: (String, String))
    ensures
        (r.0@, r.1@) == split_param(value@),
{
    let cs = chars_of(value.as_str());
    proof {
        reveal_strlit("~");
        reveal_strlit("%");
        reveal_strlit("=");
        reveal_strlit("!=");
        reveal_strlit(">");
        reveal_strlit(">=");
        reveal_strlit("<");
        reveal_strlit("<=");
    }
    if starts_with4(&cs, 'l', 'i', 'k', 'e') {
        (text_of("~"), rest_from(&cs, 4))
    } else if starts_with4(&cs, 't', 'r', 'g', 'm') {
        (text_of("%"), rest_from(&cs, 4))
    } else if starts_with(&cs, 'e', 'q') {
        (text_of("="), rest_from(&cs, 2))
    } else if starts_with(&cs, 'n', 'e') {
        (text_of("!="), rest_from(&cs, 2))
    } else if starts_with(&cs, 'g', 't') {
        (text_of(">"), rest_from(&cs, 2))
    } else if starts_with(&cs, 'g', 'e') {
        (text_of(">="), rest_from(&cs, 2))
    } else if starts_with(&cs, 'l', 't') {
        (text_of("<"), rest_from(&cs, 2))
    } else if starts_with(&cs, 'l', 'e') {
        (text_of("<="), rest_from(&cs, 2))
    } else {
        (text_of("="), value.clone())
    }
}

/// Whether a sequence of ids ascends.
pub open spec fn ascending(s: Seq<u128>) -> bool {
    forall|i: int, j: int| 0 <= i < j < s.len() ==> s[i] <= s[j]
}

/// The ids in ascending order.
pub fn sort_ids(v: &Vec<u128>) -> (r: Vec<u128>)
    ensures
        ascending(r@),
        r@.to_multiset() == v@.to_multiset(),
{
    let mut out: Vec<u128> = Vec::new();
    let mut i: usize = 0;
    assert(v@.take(0) =~= Seq::<u128>::empty());
    assert(out@ =~= Seq::<u128>::empty());
    while i < v.len()
        invariant
            i <= v@.len(),
            ascending(out@),
            out@.to_multiset() == v@.take(i as int).to_multiset(),
        decreases v@.len() - i,
    {
        let x = v[i];
        let mut p: usize = 0;
        while p < out.len() && out[p] <= x
            invariant
                p <= out@.len(),
                forall|k: int| 0 <= k < p ==> out@[k] <= x,
            decreases out@.len() - p,
        {
            p = p + 1;
        }
        let ghost before = out@;
        out.insert(p, x);
        proof {
            to_multiset_insert(before, p as int, x);
            assert(v@.take(i as int + 1) =~= v@.take(i as int).push(x));
            to_multiset_build(v@.take(i as int), x);
            assert forall|a: int, b: int| 0 <= a < b < out@.len() implies out@[a] <= out@[b] by {
                if b < p {
                } else if b == p {
                    assert(out@[a] == before[a]);
                } else if a < p {
                    assert(out@[b] == before[b - 1]);
                    assert(before[p as int] > x);
                    assert(before[a] <= before[b - 1]);
                } else if a == p {
                    assert(before[p as int] > x);
                    assert(before[p as int] <= before[b - 1]);
                } else {
                    assert(out@[a] == before[a - 1]);
                }
            }
        }
        i = i + 1;
    }
    assert(v@.take(i as int) =~= v@);
    out
}

/// The search value that the text `v` stands for under `key`: a date for a
/// date key, where it reads as one; the text itself otherwise.
pub open spec fn value_for(rt: Seq<char>, key: Seq<char>, v: Seq<char>) -> Option<SearchValueV> {
    match crate::index::key_type(rt, key) {
        Some(IndexedKeyType::Date) => match parse_date_spec(v) {
            Some(d) => Some(SearchValueV::Date(d)),
            None => None,
        },
        _ => Some(SearchValueV::Text(v)),
    }
}

/// The documents of the entities in `ids` that exist as type `rt`, in order.
pub open spec fn documents_for(s: StoreV, rt: Seq<char>, ids: Seq<u128>) -> Seq<crate::json::JsonV>
    decreases ids.len(),
{
    if ids.len() == 0 {
        Seq::empty()
    } else {
        match get_spec(s, rt, ids.last()) {
            Some(d) => documents_for(s, rt, ids.drop_last()).push(d),
            None => documents_for(s, rt, ids.drop_last()),
        }
    }
}

/// The page of `sorted` that starts `offset` entries in and holds at most `count`.
pub open spec fn page(sorted: Seq<u128>, offset: int, count: int) -> Seq<u128> {
    let from = if offset < sorted.len() { offset } else { sorted.len() as int };
    let to = if offset + count < sorted.len() { offset + count } else { sorted.len() as int };
    sorted.subrange(from, to)
}

/// Whether a list request's paging is in bounds.
pub open spec fn paging_ok(p: ListQueryParams) -> bool {
    1 <= p.count <= 100 && 0 <= p.offset
}

pub open spec fn docs_view(v: Seq<JsonValue>) -> Seq<crate::json::JsonV> {
    Seq::new(v.len(), |i: int| v[i]@)
}

/// Lists the entities of type `resource` that match the request's single
/// search parameter: in ascending id order, one page of them, as their
/// documents. A request without exactly one search parameter, with paging
/// out of bounds, with a value that is no date for a date key, or whose
/// search is refused, is a bad request.
pub fn fhir_list(store: &Store, resource: &str, params: &ListQueryParams) -> (r: Result<Vec<JsonValue>, AppError>)
    ensures
        params.search_params@.len() != 1 ==> r is Err,
        !paging_ok(*params) ==> r is Err,
        r is Err ==> r matches Err(AppError::BadRequest(_)),
        params.search_params@.len() == 1 && paging_ok(*params) ==> ({
            let key = params.search_params@[0].0@;
            let (op, v) = split_param(params.search_params@[0].1@);
            match value_for(resource@, key, v) {
                None => r is Err,
                Some(q) => match search_spec(store@, resource@, key, op, q) {
                    Err(_) => r is Err,
                    Ok(hits) => r matches Ok(docs) && exists|sorted: Seq<u128>|
                        ascending(sorted) && sorted.to_multiset() == hits.to_multiset() && docs_view(
                            docs@,
                        ) == documents_for(
                            store@,
                            resource@,
                            page(sorted, params.offset as int, params.count as int),
                        ),
                },
            }
        }),
{
    if params.search_params.len() != 1 {
        return Err(AppError::BadRequest(Some(text_of("exactly one search parameter must be provided"))));
    }
    if params.count < 1 || params.count > 100 {
        return Err(AppError::BadRequest(Some(text_of("_count must be between 1 and 100"))));
    }
    if params.offset < 0 {
        return Err(AppError::BadRequest(Some(text_of("_offset must not be negative"))));
    }
    let key = &params.search_params[0].0;
    let (op, value) = split_search_param(&params.search_params[0].1);
    let q = match key_type_for(resource, key.as_str()) {
        Some(IndexedKeyType::Date) => match parse_date(value.as_str()) {
            Some(d) => SearchValue::Date(d),
            None => {
                return Err(AppError::BadRequest(Some(SearchError::InvalidValueType.message())));
            },
        },
        _ => SearchValue::Text(value),
    };
    let ids = match store.fhir_search(resource, key.as_str(), op.as_str(), &q) {
        Ok(ids) => ids,
        Err(e) => {
            return Err(AppError::BadRequest(Some(e.message())));
        },
    };
    let sorted = sort_ids(&ids);
    let len = sorted.len();
    let offset = params.offset as u64;
    let count = params.count as u64;
    let from: usize = if offset < len as u64 { offset as usize } else { len };
    let to: usize = if offset + count < len as u64 { (offset + count) as usize } else { len };
    let ghost pg = page(sorted@, params.offset as int, params.count as int);
    assert(pg =~= sorted@.subrange(from as int, to as int));
    let mut docs: Vec<JsonValue> = Vec::new();
    let mut i: usize = from;
    assert(docs_view(docs@) =~= documents_for(store@, resource@, pg.take(0)));
    while i < to
        invariant
            from <= i <= to <= sorted@.len(),
            pg == sorted@.subrange(from as int, to as int),
            docs_view(docs@) == documents_for(store@, resource@, pg.take(i - from)),
        decreases to - i,
    {
        assert(pg.take(i - from + 1).drop_last() =~= pg.take(i - from));
        assert(pg[i - from] == sorted@[i as int]);
        let ghost before = docs_view(docs@);
        match store.fhir_get(resource, sorted[i]) {
            Some(d) => {
                docs.push(d);
                assert(docs_view(docs@) =~= before.push(docs@.last()@));
            },
            None => {},
        }
        i = i + 1;
    }
    assert(pg.take(i - from) =~= pg);
    Ok(docs)
}

/// The body of a create request with its `resourceType` set to the
/// resource type of the request path, whatever it held before.
pub open spec fn with_resource_type(body: JsonV, resource: Seq<char>) -> JsonV {
    JsonV::Object(without_member(members_of(body), rt_key()).push((rt_key(), JsonV::Str(resource))))
}

/// Creates an entity of type `resource` from a request body: the body's
/// `resourceType` is set to `resource`, then the document is stored as
/// [`Store::fhir_put`] stores it.
pub fn fhir_create(store: &mut Store, resource: &str, body: &JsonValue) -> (r: Result<Inserted, PutError>)
    requires
        old(store)@.wf(),
    ensures
        final(store)@.wf(),
        !(body@ is Object) ==> r matches Err(PutError::NotAnObject),
        body@ is Object ==> (r matches Err(PutError::SchemaViolation) <==> !valid_for(
            old(store)@.schema,
            resource@,
            stored_form(with_resource_type(body@, resource@)),
        )),
        body@ is Object && valid_for(
            old(store)@.schema,
            resource@,
            stored_form(with_resource_type(body@, resource@)),
        ) ==> (r matches Err(PutError::UnreadableResource) <==> extracted(
            resource@,
            stored_form(with_resource_type(body@, resource@)),
        ) is None),
        body@ is Object && valid_for(
            old(store)@.schema,
            resource@,
            stored_form(with_resource_type(body@, resource@)),
        ) && extracted(resource@, stored_form(with_resource_type(body@, resource@))) is Some ==> (r is Ok
            || r matches Err(PutError::DuplicateId)),
        old(store)@.entities.len() == 0 && body@ is Object && valid_for(
            old(store)@.schema,
            resource@,
            stored_form(with_resource_type(body@, resource@)),
        ) && extracted(resource@, stored_form(with_resource_type(body@, resource@))) is Some ==> r is Ok,
        r is Err ==> final(store)@ == old(store)@,
        r matches Ok(ins) ==> exists|now: i128|
            final(store)@ == inserted(
                old(store)@,
                ins.id,
                resource@,
                stored_form(with_resource_type(body@, resource@)),
                now,
            ),
{
    let key = text_of("resourceType");
    proof {
        reveal_strlit("resourceType");
        assert(key@ =~= rt_key());
    }
    let stripped = body.without(&key);
    let ghost sv = stripped@;
    let doc = match stripped {
        JsonValue::Object(mut ms) => {
            let ghost before = crate::store::object_members_view(ms@);
            assert(before =~= sv->Object_0);
            let ghost ms0 = ms@;
            let name = text_of(resource);
            ms.push((key, JsonValue::Str(name)));
            let d = JsonValue::Object(ms);
            assert forall|j: int| 0 <= j < before.len() + 1 implies #[trigger] d@->Object_0[j]
                == before.push((rt_key(), JsonV::Str(resource@)))[j] by {
                if j < before.len() {
                    assert(ms@[j] == ms0[j]);
                } else {
                    assert(ms@[j].1@ == JsonV::Str(resource@));
                }
            }
            assert(d@->Object_0 =~= before.push((rt_key(), JsonV::Str(resource@))));
            assert(d@ == with_resource_type(body@, resource@));
            d
        },
        _ => {
            return Err(PutError::NotAnObject);
        },
    };
    proof {
        crate::json::lemma_member_map(members_of(doc@), rt_key());
        assert(members_of(doc@).last() == (rt_key(), JsonV::Str(resource@)));
        assert(resource_type_of(doc@) == Some(resource@));
    }
    store.fhir_put(&doc)
}

} // verus!
