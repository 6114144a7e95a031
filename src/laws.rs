//! What holds across the store's operations.

use vstd::prelude::*;

use crate::history::{ChangeV, diff};
use crate::index::{extracted, has_extractor, key_type, patient_type_name, IndexedKeyType};
use crate::json::{has_member, lemma_member_map, members_map, member, members_of, JsonV};
use crate::models::{decode_patient, gender_code, key_gender};
use crate::patient::{
    gender_values, index_key_birth_date, index_key_gender, index_key_name, name_values,
    patient_text_values,
};
use crate::search::{operator_of, text_cmp, SearchOperator};
use crate::store::{
    date_rows_not_of, text_rows_not_of, DateRowV, deleted, entries_of, get_spec, id_key, inserted, key_text_rows, lemma_stored_form, put_refusal,
    reinstated, reported, resource_type_of, row_of, rt_key, search_spec, stored_form,
    text_hits, text_rows, updated, HistoryV, SearchFailure, SearchValueV, StoreV, TextRowV,
};

verus! {

/// Reading a created entity back gives the document it was created from,
/// apart from `id`: every other member, `resourceType` included, has the
/// value it had. Exactly, the read gives the stored form with the generated
/// id and the resource type put back.
pub proof fn lemma_round_trip(s: StoreV, d: JsonV, id: u128, now: i128)
    requires
        s.wf(),
        put_refusal(s, d, id, true) is None,
    ensures
        get_spec(inserted(s, id, resource_type_of(d)->0, stored_form(d), now), resource_type_of(d)->0, id)
            == Some(reinstated(stored_form(d), id, resource_type_of(d)->0)),
        members_map(members_of(reinstated(stored_form(d), id, resource_type_of(d)->0))).remove(id_key())
            == members_map(members_of(d)).remove(id_key()),
{
    let rt = resource_type_of(d)->0;
    let s2 = inserted(s, id, rt, stored_form(d), now);
    assert(s2.entities.drop_last() =~= s.entities);
    assert(row_of(s2.entities, id) == Some(s.entities.len() as int));
    lemma_stored_form(d);
    lemma_member_map(members_of(d), rt_key());
    let m = members_map(members_of(d));
    let g = members_of(reinstated(stored_form(d), id, rt));
    let g1 = g.drop_last();
    assert(g1.drop_last() =~= members_of(stored_form(d)));
    assert(g1.last() == (id_key(), JsonV::Str(crate::ids::uuid_text(id))));
    assert(g.last() == (rt_key(), JsonV::Str(rt)));
    assert(members_map(g1) == members_map(members_of(stored_form(d))).insert(
        id_key(),
        JsonV::Str(crate::ids::uuid_text(id)),
    ));
    assert(members_map(g) == members_map(g1).insert(rt_key(), JsonV::Str(rt)));
    assert(m.contains_key(rt_key()) && m[rt_key()] == JsonV::Str(rt));
    assert(members_map(g).remove(id_key()) =~= m.remove(id_key()));
}

/// A created entity leaves exactly one history entry: an `insert` that
/// holds the stored document whole.
pub proof fn lemma_insert_audited(s: StoreV, id: u128, rt: Seq<char>, data: JsonV, now: i128)
    ensures
        inserted(s, id, rt, data, now).history.drop_last() == s.history,
        inserted(s, id, rt, data, now).history.last().entity_id == id,
        inserted(s, id, rt, data, now).history.last().change == ChangeV::Insert(data),
{
    assert(inserted(s, id, rt, data, now).history.drop_last() =~= s.history);
}

/// An update leaves exactly one `update` entry holding the diff between the
/// old and the new document, or none where the document is the same.
pub proof fn lemma_update_audited(s: StoreV, i: int, data: JsonV, now: i128)
    requires
        0 <= i < s.entities.len(),
    ensures
        s.entities[i].data == data ==> updated(s, i, data, now).history == s.history,
        s.entities[i].data != data ==> {
            &&& updated(s, i, data, now).history.drop_last() == s.history
            &&& updated(s, i, data, now).history.last().entity_id == s.entities[i].id
            &&& updated(s, i, data, now).history.last().change == ChangeV::Update(
                diff(s.entities[i].data, data),
            )
        },
{
    if s.entities[i].data != data {
        assert(updated(s, i, data, now).history.drop_last() =~= s.history);
    }
}

/// A deletion leaves exactly one `delete` entry holding the deleted
/// document whole, and every earlier history entry stays as it was: the
/// entries of each entity are those it had, the deleted one's followed by
/// its `delete` entry.
pub proof fn lemma_delete_keeps_history(s: StoreV, i: int, now: i128, other: u128)
    requires
        0 <= i < s.entities.len(),
    ensures
        deleted(s, i, now).history.drop_last() == s.history,
        deleted(s, i, now).history.last().change == ChangeV::Delete(s.entities[i].data),
        entries_of(deleted(s, i, now).history, other) == if other == s.entities[i].id {
            entries_of(s.history, other).push(
                (deleted(s, i, now).history.last().timestamp, reported(ChangeV::Delete(s.entities[i].data))),
            )
        } else {
            entries_of(s.history, other)
        },
{
    assert(deleted(s, i, now).history.drop_last() =~= s.history);
}

proof fn lemma_text_cmp_zero(a: Seq<char>, b: Seq<char>)
    ensures
        text_cmp(a, b) == 0 <==> a == b,
    decreases a.len(),
{
    if a.len() > 0 && b.len() > 0 && a[0] == b[0] {
        lemma_text_cmp_zero(a.drop_first(), b.drop_first());
        if a.drop_first() == b.drop_first() {
            assert(a =~= seq![a[0]] + a.drop_first());
            assert(b =~= seq![b[0]] + b.drop_first());
        }
    } else if a.len() > 0 && b.len() > 0 {
        assert(a[0] != b[0]);
    } else if a.len() == 0 && b.len() == 0 {
        assert(a =~= b);
    }
}

proof fn lemma_text_hits_concat(a: Seq<TextRowV>, b: Seq<TextRowV>, rt: Seq<char>, key: Seq<char>, op: SearchOperator, q: Seq<char>)
    ensures
        text_hits(a + b, rt, key, op, q) == text_hits(a, rt, key, op, q) + text_hits(b, rt, key, op, q),
    decreases b.len(),
{
    if b.len() == 0 {
        assert(a + b =~= a);
        assert(text_hits(a, rt, key, op, q) + text_hits(b, rt, key, op, q) =~= text_hits(a, rt, key, op, q));
    } else {
        lemma_text_hits_concat(a, b.drop_last(), rt, key, op, q);
        assert((a + b).drop_last() =~= a + b.drop_last());
        assert(text_hits(a + b, rt, key, op, q) =~= text_hits(a, rt, key, op, q) + text_hits(b, rt, key, op, q));
    }
}

pub open spec fn female() -> Seq<char> {
    seq!['f', 'e', 'm', 'a', 'l', 'e']
}

/// Searching `Patient` by `gender` `eq` `female` after a patient is
/// created finds what it found before, and the new entity exactly when its
/// `gender` member is the string `female`.
pub proof fn lemma_gender_search_after_insert(s: StoreV, d: JsonV, id: u128, now: i128)
    requires
        put_refusal(s, d, id, true) is None,
        resource_type_of(d) == Some(patient_type_name()),
    ensures
        search_spec(
            inserted(s, id, patient_type_name(), stored_form(d), now),
            patient_type_name(),
            index_key_gender(),
            seq!['e', 'q'],
            SearchValueV::Text(female()),
        ) == Ok::<Seq<u128>, SearchFailure>(
            text_hits(s.text_index, patient_type_name(), index_key_gender(), SearchOperator::Eq, female())
                + if member(members_of(d), key_gender()) == Some(JsonV::Str(female())) {
                seq![id]
            } else {
                Seq::empty()
            },
        ),
{
    let pt = patient_type_name();
    let g = index_key_gender();
    let sd = stored_form(d);
    let p = decode_patient(sd)->0;
    let vals = patient_text_values(p);
    assert(operator_of(seq!['e', 'q']) == Some(SearchOperator::Eq));
    assert(key_type(pt, g) == Some(IndexedKeyType::Text));
    assert((extracted(pt, sd)->0).0 == vals);
    lemma_text_hits_concat(s.text_index, text_rows(id, pt, vals), pt, g, SearchOperator::Eq, female());
    // the member that decides the gender is the same in the stored form
    crate::json::lemma_without_member(members_of(d), id_key());
    crate::json::lemma_without_member(crate::json::without_member(members_of(d), id_key()), rt_key());
    assert(member(members_of(sd), key_gender()) == member(members_of(d), key_gender()));
    let gv = gender_values(p);
    let nv = name_values(p);
    assert(vals == gv + nv);
    // the rows of the new entity, key by key
    let new_rows = text_rows(id, pt, vals);
    let expect = if member(members_of(d), key_gender()) == Some(JsonV::Str(female())) {
        seq![id]
    } else {
        Seq::<u128>::empty()
    };
    if nv.len() == 0 {
        assert(vals =~= gv);
    } else {
        assert(vals.drop_last() =~= gv);
    }
    if gv.len() == 0 {
        assert(text_rows(id, pt, gv) =~= Seq::<TextRowV>::empty());
    } else {
        assert(gv.drop_last() =~= Seq::<(Seq<char>, Seq<Seq<char>>)>::empty());
        let code = gender_code(p.gender->0);
        assert(text_rows(id, pt, gv) =~= seq![TextRowV { entity_id: id, entity: pt, key: g, value: code }]) by {
            assert(text_rows(id, pt, gv.drop_last()) =~= Seq::<TextRowV>::empty());
            assert(key_text_rows(id, pt, g, seq![code]) =~= seq![TextRowV { entity_id: id, entity: pt, key: g, value: code }]);
        }
        lemma_text_cmp_zero(code, female());
        let one = seq![TextRowV { entity_id: id, entity: pt, key: g, value: code }];
        assert(one.drop_last() =~= Seq::<TextRowV>::empty());
        assert(text_hits(one.drop_last(), pt, g, SearchOperator::Eq, female()) =~= Seq::<u128>::empty());
    }
    let gender_rows = text_rows(id, pt, gv);
    assert(text_hits(gender_rows, pt, g, SearchOperator::Eq, female()) == expect);
    if nv.len() > 0 {
        let name_row = TextRowV { entity_id: id, entity: pt, key: index_key_name(), value: nv[0].1[0] };
        assert(key_text_rows(id, pt, index_key_name(), nv[0].1) =~= seq![name_row]);
        assert(new_rows == gender_rows + seq![name_row]);
        assert(seq![name_row].drop_last() =~= Seq::<TextRowV>::empty());
        assert(text_hits(seq![name_row], pt, g, SearchOperator::Eq, female()) =~= Seq::<u128>::empty());
        lemma_text_hits_concat(gender_rows, seq![name_row], pt, g, SearchOperator::Eq, female());
        assert(text_hits(new_rows, pt, g, SearchOperator::Eq, female()) =~= expect);
    }
}

/// A key that the resource type does not index is refused as an unknown
/// search key, whatever the value, once the operator is known; no index
/// table is consulted.
pub proof fn lemma_unknown_key(s: StoreV, rt: Seq<char>, key: Seq<char>, op: Seq<char>, q: SearchValueV)
    requires
        operator_of(op) is Some,
        rt != patient_type_name() || (key != index_key_gender() && key != index_key_name() && key
            != index_key_birth_date()),
    ensures
        search_spec(s, rt, key, op, q) == Err::<Seq<u128>, SearchFailure>(SearchFailure::UnknownSearchKey),
{
}

/// No stored document holds an `id` or a `resourceType` member: both are
/// put back only when an entity is read. Every operation keeps this.
pub proof fn lemma_no_identity_in_storage(s: StoreV, i: int)
    requires
        s.wf(),
        0 <= i < s.entities.len(),
    ensures
        !has_member(members_of(s.entities[i].data), id_key()),
        !has_member(members_of(s.entities[i].data), rt_key()),
{
}

proof fn lemma_entries_ordered(h: Seq<HistoryV>, id: u128)
    requires
        forall|i: int, j: int| 0 <= i <= j < h.len() ==> #[trigger] h[i].timestamp <= #[trigger] h[j].timestamp,
    ensures
        forall|a: int, b: int|
            0 <= a < b < entries_of(h, id).len() ==> #[trigger] entries_of(h, id)[a].0
                <= #[trigger] entries_of(h, id)[b].0,
        h.len() > 0 ==> forall|a: int|
            0 <= a < entries_of(h, id).len() ==> #[trigger] entries_of(h, id)[a].0 <= h.last().timestamp,
    decreases h.len(),
{
    if h.len() > 0 {
        let t = h.drop_last();
        assert forall|i: int, j: int| 0 <= i <= j < t.len() implies #[trigger] t[i].timestamp
            <= #[trigger] t[j].timestamp by {
            assert(t[i] == h[i] && t[j] == h[j]);
        }
        lemma_entries_ordered(t, id);
        let rest = entries_of(t, id);
        if t.len() > 0 {
            assert(t.last().timestamp <= h.last().timestamp) by {
                assert(t.last() == h[h.len() - 2]);
            }
        } else {
            assert(rest.len() == 0);
        }
        assert forall|a: int| 0 <= a < rest.len() implies #[trigger] rest[a].0 <= h.last().timestamp by {}
    }
}

/// An entity's history entries come in the order of their timestamps, and
/// in the order they were recorded where timestamps are equal.
pub proof fn lemma_history_in_time_order(s: StoreV, id: u128)
    requires
        s.wf(),
    ensures
        forall|a: int, b: int|
            0 <= a < b < entries_of(s.history, id).len() ==> #[trigger] entries_of(s.history, id)[a].0
                <= #[trigger] entries_of(s.history, id)[b].0,
{
    lemma_entries_ordered(s.history, id);
}

proof fn lemma_text_rows_not_of(rows: Seq<TextRowV>, id: u128)
    ensures
        forall|k: int| 0 <= k < text_rows_not_of(rows, id).len() ==> #[trigger] text_rows_not_of(rows, id)[k].entity_id != id,
        forall|k: int| 0 <= k < rows.len() && rows[k].entity_id != id ==> text_rows_not_of(rows, id).contains(#[trigger] rows[k]),
    decreases rows.len(),
{
    if rows.len() > 0 {
        lemma_text_rows_not_of(rows.drop_last(), id);
        let rest = text_rows_not_of(rows.drop_last(), id);
        assert forall|k: int| 0 <= k < rows.len() && rows[k].entity_id != id implies text_rows_not_of(rows, id).contains(#[trigger] rows[k]) by {
            if k < rows.len() - 1 {
                assert(rows.drop_last()[k] == rows[k]);
                let w = choose|w: int| 0 <= w < rest.len() && rest[w] == rows[k];
                if rows.last().entity_id != id {
                    assert(text_rows_not_of(rows, id)[w] == rows[k]);
                }
            } else {
                assert(text_rows_not_of(rows, id)[rest.len() as int] == rows[k]);
            }
        }
    }
}

proof fn lemma_date_rows_not_of(rows: Seq<DateRowV>, id: u128)
    ensures
        forall|k: int| 0 <= k < date_rows_not_of(rows, id).len() ==> #[trigger] date_rows_not_of(rows, id)[k].entity_id != id,
        forall|k: int| 0 <= k < rows.len() && rows[k].entity_id != id ==> date_rows_not_of(rows, id).contains(#[trigger] rows[k]),
    decreases rows.len(),
{
    if rows.len() > 0 {
        lemma_date_rows_not_of(rows.drop_last(), id);
        let rest = date_rows_not_of(rows.drop_last(), id);
        assert forall|k: int| 0 <= k < rows.len() && rows[k].entity_id != id implies date_rows_not_of(rows, id).contains(#[trigger] rows[k]) by {
            if k < rows.len() - 1 {
                assert(rows.drop_last()[k] == rows[k]);
                let w = choose|w: int| 0 <= w < rest.len() && rest[w] == rows[k];
                if rows.last().entity_id != id {
                    assert(date_rows_not_of(rows, id)[w] == rows[k]);
                }
            } else {
                assert(date_rows_not_of(rows, id)[rest.len() as int] == rows[k]);
            }
        }
    }
}

/// Deleting an entity removes every index row it owned and keeps every
/// index row of the other entities.
pub proof fn lemma_delete_drops_index_rows(s: StoreV, i: int, now: i128)
    requires
        0 <= i < s.entities.len(),
    ensures
        forall|k: int| 0 <= k < deleted(s, i, now).text_index.len() ==> #[trigger] deleted(s, i, now).text_index[k].entity_id != s.entities[i].id,
        forall|k: int| 0 <= k < deleted(s, i, now).date_index.len() ==> #[trigger] deleted(s, i, now).date_index[k].entity_id != s.entities[i].id,
        forall|k: int| 0 <= k < s.text_index.len() && s.text_index[k].entity_id != s.entities[i].id ==> deleted(s, i, now).text_index.contains(#[trigger] s.text_index[k]),
        forall|k: int| 0 <= k < s.date_index.len() && s.date_index[k].entity_id != s.entities[i].id ==> deleted(s, i, now).date_index.contains(#[trigger] s.date_index[k]),
{
    lemma_text_rows_not_of(s.text_index, s.entities[i].id);
    lemma_date_rows_not_of(s.date_index, s.entities[i].id);
}

/// An update does not derive the index again: every search gives what it
/// gave before the update.
pub proof fn lemma_update_keeps_search(s: StoreV, i: int, data: JsonV, now: i128, rt: Seq<char>, key: Seq<char>, op: Seq<char>, q: SearchValueV)
    requires
        0 <= i < s.entities.len(),
    ensures
        search_spec(updated(s, i, data, now), rt, key, op, q) == search_spec(s, rt, key, op, q),
{
}

/// The store after creating, in order, each document `ds[k].0` under id
/// `ds[k].1` at clock reading `ds[k].2`.
pub open spec fn insert_all(s0: StoreV, ds: Seq<(JsonV, u128, i128)>) -> StoreV
    decreases ds.len(),
{
    if ds.len() == 0 {
        s0
    } else {
        let d = ds.last();
        inserted(insert_all(s0, ds.drop_last()), d.1, resource_type_of(d.0)->0, stored_form(d.0), d.2)
    }
}

/// Whether each creation of `ds`, made in order from `s0`, succeeds.
pub open spec fn all_accepted(s0: StoreV, ds: Seq<(JsonV, u128, i128)>) -> bool
    decreases ds.len(),
{
    ds.len() == 0 || (all_accepted(s0, ds.drop_last()) && put_refusal(
        insert_all(s0, ds.drop_last()),
        ds.last().0,
        ds.last().1,
        true,
    ) is None)
}

/// The ids of the documents of `ds` that are patients whose `gender` member
/// is the string `female`, in order of creation.
pub open spec fn female_patient_ids(ds: Seq<(JsonV, u128, i128)>) -> Seq<u128>
    decreases ds.len(),
{
    if ds.len() == 0 {
        Seq::empty()
    } else {
        let d = ds.last();
        if resource_type_of(d.0) == Some(patient_type_name()) && member(members_of(d.0), key_gender())
            == Some(JsonV::Str(female())) {
            female_patient_ids(ds.drop_last()).push(d.1)
        } else {
            female_patient_ids(ds.drop_last())
        }
    }
}

proof fn lemma_female_hits(s0: StoreV, ds: Seq<(JsonV, u128, i128)>)
    requires
        s0.text_index.len() == 0,
        all_accepted(s0, ds),
    ensures
        text_hits(insert_all(s0, ds).text_index, patient_type_name(), index_key_gender(), SearchOperator::Eq, female())
            == female_patient_ids(ds),
    decreases ds.len(),
{
    let pt = patient_type_name();
    let g = index_key_gender();
    if ds.len() == 0 {
        assert(s0.text_index =~= Seq::<TextRowV>::empty());
    } else {
        let prev = ds.drop_last();
        lemma_female_hits(s0, prev);
        let s = insert_all(s0, prev);
        let d = ds.last();
        let rt = resource_type_of(d.0)->0;
        if rt == pt {
            lemma_gender_search_after_insert(s, d.0, d.1, d.2);
            assert(operator_of(seq!['e', 'q']) == Some(SearchOperator::Eq));
            assert(key_type(pt, g) == Some(IndexedKeyType::Text));
        } else {
            assert(!has_extractor(rt));
            assert(text_rows(d.1, rt, Seq::empty()) =~= Seq::<TextRowV>::empty());
            assert(insert_all(s0, ds).text_index =~= s.text_index);
        }
    }
}

/// Searching `Patient` by `gender` `eq` `female` in a store built from an
/// empty index by creations alone finds exactly the patients created with
/// `gender` `female`, in order of creation: none with another or no gender.
pub proof fn lemma_gender_search_finds_female_patients(s0: StoreV, ds: Seq<(JsonV, u128, i128)>)
    requires
        s0.text_index.len() == 0,
        all_accepted(s0, ds),
    ensures
        search_spec(
            insert_all(s0, ds),
            patient_type_name(),
            index_key_gender(),
            seq!['e', 'q'],
            SearchValueV::Text(female()),
        ) == Ok::<Seq<u128>, SearchFailure>(female_patient_ids(ds)),
{
    lemma_female_hits(s0, ds);
    assert(operator_of(seq!['e', 'q']) == Some(SearchOperator::Eq));
    assert(key_type(patient_type_name(), index_key_gender()) == Some(IndexedKeyType::Text));
}

} // verus!
