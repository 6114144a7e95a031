//! The index keys of the `Patient` resource type and the values they take.

use vstd::prelude::*;

use crate::date::{parse_date, parse_date_spec, Date};
use crate::index::IndexedKeyType;
use crate::json::{JsonValue};
use crate::models::{
    decode_patient, gender_code, opt_strings_view, strings_view, AdministrativeGender, HumanNameV,
    Patient, PatientV,
};
use crate::text::{
    chars_equal, chars_of, lower_of, push_str, string_from, string_of, to_lower, trim, trimmed,
};

verus! {

pub open spec fn index_key_gender() -> Seq<char> {
    seq!['g', 'e', 'n', 'd', 'e', 'r']
}

pub open spec fn index_key_name() -> Seq<char> {
    seq!['n', 'a', 'm', 'e']
}

pub open spec fn index_key_birth_date() -> Seq<char> {
    seq!['b', 'i', 'r', 't', 'h', '_', 'd', 'a', 't', 'e']
}

/// The type of the values that a `Patient` index key holds, if it is one.
pub open spec fn patient_key_type(key: Seq<char>) -> Option<IndexedKeyType> {
    if key == index_key_birth_date() {
        Some(IndexedKeyType::Date)
    } else if key == index_key_gender() || key == index_key_name() {
        Some(IndexedKeyType::Text)
    } else {
        None
    }
}

/// The type of the values that the `Patient` index key `key` holds; `None`
/// for a key that is not indexed.
pub fn find_search_index_for_key(key: &str) -> (r: Option<IndexedKeyType>)
    ensures
        r == patient_key_type(key@),
{
    let cs = chars_of(key);
    if chars_equal(&cs, &vec!['b', 'i', 'r', 't', 'h', '_', 'd', 'a', 't', 'e']) {
        Some(IndexedKeyType::Date)
    } else if chars_equal(&cs, &vec!['g', 'e', 'n', 'd', 'e', 'r']) || chars_equal(
        &cs,
        &vec!['n', 'a', 'm', 'e'],
    ) {
        Some(IndexedKeyType::Text)
    } else {
        None
    }
}

pub open spec fn opt_list(v: Option<Seq<Seq<char>>>) -> Seq<Seq<char>> {
    match v {
        Some(l) => l,
        None => Seq::empty(),
    }
}

/// The parts of a name in reading order: prefixes, given names, family name, suffixes.
pub open spec fn name_parts(h: HumanNameV) -> Seq<Seq<char>> {
    opt_list(h.prefix) + opt_list(h.given) + family_part(h) + opt_list(h.suffix)
}

pub open spec fn family_part(h: HumanNameV) -> Seq<Seq<char>> {
    match h.family {
        Some(f) => seq![f],
        None => Seq::empty(),
    }
}

/// Each part followed by one space.
pub open spec fn spaced(parts: Seq<Seq<char>>) -> Seq<char>
    decreases parts.len(),
{
    if parts.len() == 0 {
        Seq::empty()
    } else {
        spaced(parts.drop_last()) + parts.last() + seq![' ']
    }
}

/// The parts of all names, each followed by one space.
pub open spec fn names_text(names: Seq<HumanNameV>) -> Seq<char>
    decreases names.len(),
{
    if names.len() == 0 {
        Seq::empty()
    } else {
        names_text(names.drop_last()) + spaced(name_parts(names.last()))
    }
}

/// The patient's names run together, before trimming.
pub open spec fn full_name(p: PatientV) -> Seq<char> {
    match p.name {
        Some(n) => names_text(n),
        None => Seq::empty(),
    }
}

/// The text index values of a patient: the gender code under `gender`, and
/// the lowercased, trimmed full name under `name` where it is not empty.
pub open spec fn patient_text_values(p: PatientV) -> Seq<(Seq<char>, Seq<Seq<char>>)> {
    gender_values(p) + name_values(p)
}

pub open spec fn gender_values(p: PatientV) -> Seq<(Seq<char>, Seq<Seq<char>>)> {
    match p.gender {
        Some(g) => seq![(index_key_gender(), seq![gender_code(g)])],
        None => Seq::empty(),
    }
}

pub open spec fn name_values(p: PatientV) -> Seq<(Seq<char>, Seq<Seq<char>>)> {
    if trimmed(full_name(p)).len() > 0 {
        seq![(index_key_name(), seq![lower_of(trimmed(full_name(p)))])]
    } else {
        Seq::empty()
    }
}

/// The date index values of a patient: the birth date under `birth_date`
/// where it reads as a date.
pub open spec fn patient_date_values(p: PatientV) -> Seq<(Seq<char>, Seq<Date>)> {
    match p.birth_date {
        Some(b) => match parse_date_spec(b) {
            Some(d) => seq![(index_key_birth_date(), seq![d])],
            None => Seq::empty(),
        },
        None => Seq::empty(),
    }
}

/// Text values keyed by index key, as plain values.
pub open spec fn text_values_view(v: Seq<(String, Vec<String>)>) -> Seq<(Seq<char>, Seq<Seq<char>>)> {
    Seq::new(v.len(), |i: int| (v[i].0@, strings_view(v[i].1@)))
}

/// Date values keyed by index key, as plain values.
pub open spec fn date_values_view(v: Seq<(String, Vec<Date>)>) -> Seq<(Seq<char>, Seq<Date>)> {
    Seq::new(v.len(), |i: int| (v[i].0@, v[i].1@))
}

proof fn lemma_spaced_concat(a: Seq<Seq<char>>, b: Seq<Seq<char>>)
    ensures
        spaced(a + b) == spaced(a) + spaced(b),
    decreases b.len(),
{
    if b.len() == 0 {
        assert(a + b =~= a);
        assert(spaced(a) + spaced(b) =~= spaced(a));
    } else {
        lemma_spaced_concat(a, b.drop_last());
        assert((a + b).drop_last() =~= a + b.drop_last());
        assert(spaced(a + b) =~= spaced(a) + spaced(b));
    }
}

/// Appends each string of `parts` followed by a space.
fn push_spaced(out: &mut Vec<char>, parts: &Vec<String>)
    ensures
        final(out)@ == old(out)@ + spaced(strings_view(parts@)),
{
    let ghost pv = strings_view(parts@);
    let mut i: usize = 0;
    while i < parts.len()
        invariant
            i <= parts@.len() == pv.len(),
            pv == strings_view(parts@),
            out@ == old(out)@ + spaced(pv.take(i as int)),
        decreases parts@.len() - i,
    {
        push_str(out, parts[i].as_str());
        out.push(' ');
        proof {
            assert(pv.take(i as int + 1).drop_last() =~= pv.take(i as int));
        }
        i = i + 1;
        assert(out@ =~= old(out)@ + spaced(pv.take(i as int)));
    }
    assert(pv.take(i as int) =~= pv);
}

fn push_opt_spaced(out: &mut Vec<char>, parts: &Option<Vec<String>>)
    ensures
        final(out)@ == old(out)@ + spaced(opt_list(opt_strings_view(*parts))),
{
    match parts {
        Some(p) => push_spaced(out, p),
        None => {
            assert(out@ =~= old(out)@ + spaced(Seq::<Seq<char>>::empty()));
        },
    }
}

/// The text of a gender as FHIR codes it.
pub fn gender_text(g: AdministrativeGender) -> (r: String)
    ensures
        r@ == gender_code(g),
{
    match g {
        AdministrativeGender::Male => string_from(vec!['m', 'a', 'l', 'e']),
        AdministrativeGender::Female => string_from(vec!['f', 'e', 'm', 'a', 'l', 'e']),
        AdministrativeGender::Other => string_from(vec!['o', 't', 'h', 'e', 'r']),
        AdministrativeGender::Unknown => string_from(vec!['u', 'n', 'k', 'n', 'o', 'w', 'n']),
    }
}

/// The names of a patient run together, each part followed by a space.
fn full_name_of(p: &Patient) -> (r: Vec<char>)
    ensures
        r@ == full_name(p@),
{
    let mut out: Vec<char> = Vec::new();
    match &p.name {
        Some(names) => {
            let ghost nv = p@.name->0;
            let mut i: usize = 0;
            while i < names.len()
                invariant
                    i <= names@.len() == nv.len(),
                    nv == p@.name->0,
                    p.name == Some(*names),
                    out@ == names_text(nv.take(i as int)),
                decreases names@.len() - i,
            {
                let ghost before = out@;
                let h = &names[i];
                push_opt_spaced(&mut out, &h.prefix);
                push_opt_spaced(&mut out, &h.given);
                match &h.family {
                    Some(f) => {
                        push_str(&mut out, f.as_str());
                        out.push(' ');
                    },
                    None => {},
                }
                push_opt_spaced(&mut out, &h.suffix);
                proof {
                    let hv = nv[i as int];
                    assert(hv == h@);
                    let fam = family_part(hv);
                    lemma_spaced_concat(opt_list(hv.prefix), opt_list(hv.given));
                    lemma_spaced_concat(opt_list(hv.prefix) + opt_list(hv.given), fam);
                    lemma_spaced_concat(opt_list(hv.prefix) + opt_list(hv.given) + fam, opt_list(hv.suffix));
                    if hv.family is Some {
                        assert(spaced(fam) =~= hv.family->0 + seq![' ']) by {
                            assert(fam.drop_last() =~= Seq::<Seq<char>>::empty());
                            assert(spaced(fam.drop_last()) =~= Seq::<char>::empty());
                            assert(fam.last() == hv.family->0);
                        }
                    } else {
                        assert(spaced(fam) =~= Seq::<char>::empty());
                    }
                    assert(nv.take(i as int + 1).drop_last() =~= nv.take(i as int));
                    assert(out@ =~= names_text(nv.take(i as int + 1)));
                }
                i = i + 1;
            }
            assert(nv.take(i as int) =~= nv);
        },
        None => {},
    }
    out
}

/// The text index values of a patient document; `None` where the document
/// does not read as a patient.
pub fn text_index_values_for(data: &JsonValue) -> (r: Option<Vec<(String, Vec<String>)>>)
    ensures
        r is Some <==> decode_patient(data@) is Some,
        r is Some ==> text_values_view(r->0@) == patient_text_values(decode_patient(data@)->0),
{
    let patient = match Patient::from_json(data) {
        Some(p) => p,
        None => {
            return None;
        },
    };
    let mut keys: Vec<(String, Vec<String>)> = Vec::new();
    let ghost pv = patient@;
    let ghost g_part = match pv.gender {
        Some(g) => seq![(index_key_gender(), seq![gender_code(g)])],
        None => Seq::<(Seq<char>, Seq<Seq<char>>)>::empty(),
    };
    match patient.gender {
        Some(g) => {
            keys.push((string_from(vec!['g', 'e', 'n', 'd', 'e', 'r']), vec![gender_text(g)]));
        },
        None => {},
    }
    assert(text_values_view(keys@) =~= g_part) by {
        if pv.gender is Some {
            assert(strings_view(keys@[0].1@) =~= seq![gender_code(pv.gender->0)]);
        }
    }
    let full = string_of(&full_name_of(&patient));
    let t = trim(full.as_str());
    if !t.is_empty() {
        let ghost before = keys@;
        keys.push((string_from(vec!['n', 'a', 'm', 'e']), vec![to_lower(t)]));
        proof {
            assert(strings_view(keys@.last().1@) =~= seq![lower_of(trimmed(full_name(pv)))]);
            assert(text_values_view(keys@) =~= g_part + seq![
                (index_key_name(), seq![lower_of(trimmed(full_name(pv)))]),
            ]) by {
                assert(keys@.drop_last() == before);
            }
        }
    } else {
        proof {
            assert(g_part + Seq::<(Seq<char>, Seq<Seq<char>>)>::empty() =~= g_part);
        }
    }
    Some(keys)
}

/// The date index values of a patient document, and a warning for a birth
/// date that does not read as a date; `None` where the document does not read
/// as a patient.
pub fn date_index_values_for(data: &JsonValue) -> (r: Option<(Vec<(String, Vec<Date>)>, Vec<String>)>)
    ensures
        r is Some <==> decode_patient(data@) is Some,
        r matches Some((vals, warnings)) ==> {
            &&& date_values_view(vals@) == patient_date_values(decode_patient(data@)->0)
            &&& warnings@.len() == (if birth_date_unreadable(decode_patient(data@)->0) {
                1int
            } else {
                0int
            })
        },
{
    let patient = match Patient::from_json(data) {
        Some(p) => p,
        None => {
            return None;
        },
    };
    let mut keys: Vec<(String, Vec<Date>)> = Vec::new();
    let mut warnings: Vec<String> = Vec::new();
    match &patient.birth_date {
        Some(v) => {
            match parse_date(v.as_str()) {
                Some(date) => {
                    keys.push(
                        (string_from(vec!['b', 'i', 'r', 't', 'h', '_', 'd', 'a', 't', 'e']), vec![date]),
                    );
                    assert(keys@[0].1@ =~= seq![date]);
                    assert(date_values_view(keys@) =~= patient_date_values(patient@));
                },
                None => {
                    let mut msg: Vec<char> = Vec::new();
                    push_str(&mut msg, "invalid date value for birth_date: ");
                    push_str(&mut msg, v.as_str());
                    warnings.push(string_of(&msg));
                    assert(date_values_view(keys@) =~= patient_date_values(patient@));
                },
            }
        },
        None => {
            assert(date_values_view(keys@) =~= patient_date_values(patient@));
        },
    }
    Some((keys, warnings))
}

/// Whether the patient has a birth date that does not read as a date.
pub open spec fn birth_date_unreadable(p: PatientV) -> bool {
    p.birth_date is Some && parse_date_spec(p.birth_date->0) is None
}

} // verus!
