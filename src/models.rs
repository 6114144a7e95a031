//! The parts of FHIR resources that the index reads, decoded from documents.

use vstd::prelude::*;

use crate::json::{member, members_of, JsonValue, JsonV};
use crate::text::{string_from, text_is};

verus! {

/// How a human name is used.
#[derive(Debug, Clone, Copy, PartialEq, Eq, Structural)]
pub enum NameUse {
    Usual,
    Official,
    Temp,
    Nickname,
    Anonymous,
    Old,
    Maiden,
}

/// The administrative gender of a person.
#[derive(Debug, Clone, Copy, PartialEq, Eq, Structural)]
pub enum AdministrativeGender {
    Male,
    Female,
    Other,
    Unknown,
}

/// A human name, in parts.
#[derive(Debug)]
pub struct HumanName {
    pub use_: Option<NameUse>,
    pub text: Option<String>,
    pub family: Option<String>,
    pub given: Option<Vec<String>>,
    pub prefix: Option<Vec<String>>,
    pub suffix: Option<Vec<String>>,
}

/// A patient, as far as the index reads one.
#[derive(Debug)]
pub struct Patient {
    pub gender: Option<AdministrativeGender>,
    pub name: Option<Vec<HumanName>>,
    pub birth_date: Option<String>,
}

pub struct HumanNameV {
    pub use_: Option<NameUse>,
    pub text: Option<Seq<char>>,
    pub family: Option<Seq<char>>,
    pub given: Option<Seq<Seq<char>>>,
    pub prefix: Option<Seq<Seq<char>>>,
    pub suffix: Option<Seq<Seq<char>>>,
}

pub struct PatientV {
    pub gender: Option<AdministrativeGender>,
    pub name: Option<Seq<HumanNameV>>,
    pub birth_date: Option<Seq<char>>,
}

pub open spec fn strings_view(v: Seq<String>) -> Seq<Seq<char>> {
    Seq::new(v.len(), |i: int| v[i]@)
}

pub open spec fn opt_strings_view(v: Option<Vec<String>>) -> Option<Seq<Seq<char>>> {
    match v {
        Some(l) => Some(strings_view(l@)),
        None => None,
    }
}

pub open spec fn opt_string_view(v: Option<String>) -> Option<Seq<char>> {
    match v {
        Some(s) => Some(s@),
        None => None,
    }
}

impl View for HumanName {
    type V = HumanNameV;

    open spec fn view(&self) -> HumanNameV {
        HumanNameV {
            use_: self.use_,
            text: opt_string_view(self.text),
            family: opt_string_view(self.family),
            given: opt_strings_view(self.given),
            prefix: opt_strings_view(self.prefix),
            suffix: opt_strings_view(self.suffix),
        }
    }
}

impl View for Patient {
    type V = PatientV;

    open spec fn view(&self) -> PatientV {
        PatientV {
            gender: self.gender,
            name: match self.name {
                Some(l) => Some(Seq::new(l@.len(), |i: int| l@[i]@)),
                None => None,
            },
            birth_date: opt_string_view(self.birth_date),
        }
    }
}

/// The code of a gender, as FHIR writes it.
pub open spec fn gender_code(g: AdministrativeGender) -> Seq<char> {
    match g {
        AdministrativeGender::Male => seq!['m', 'a', 'l', 'e'],
        AdministrativeGender::Female => seq!['f', 'e', 'm', 'a', 'l', 'e'],
        AdministrativeGender::Other => seq!['o', 't', 'h', 'e', 'r'],
        AdministrativeGender::Unknown => seq!['u', 'n', 'k', 'n', 'o', 'w', 'n'],
    }
}

/// The code of a name use, as FHIR writes it.
pub open spec fn name_use_code(u: NameUse) -> Seq<char> {
    match u {
        NameUse::Usual => seq!['u', 's', 'u', 'a', 'l'],
        NameUse::Official => seq!['o', 'f', 'f', 'i', 'c', 'i', 'a', 'l'],
        NameUse::Temp => seq!['t', 'e', 'm', 'p'],
        NameUse::Nickname => seq!['n', 'i', 'c', 'k', 'n', 'a', 'm', 'e'],
        NameUse::Anonymous => seq!['a', 'n', 'o', 'n', 'y', 'm', 'o', 'u', 's'],
        NameUse::Old => seq!['o', 'l', 'd'],
        NameUse::Maiden => seq!['m', 'a', 'i', 'd', 'e', 'n'],
    }
}

/// Reads an optional string member: absent or null is `Some(None)`, a
/// string is `Some(Some(..))`, anything else does not decode (`None`).
pub open spec fn decode_string(v: Option<JsonV>) -> Option<Option<Seq<char>>> {
    match v {
        None => Some(None),
        Some(JsonV::Null) => Some(None),
        Some(JsonV::Str(s)) => Some(Some(s)),
        _ => None,
    }
}

/// Reads an optional list of strings.
pub open spec fn decode_strings(v: Option<JsonV>) -> Option<Option<Seq<Seq<char>>>> {
    match v {
        None => Some(None),
        Some(JsonV::Null) => Some(None),
        Some(JsonV::Array(items)) => if forall|i: int| 0 <= i < items.len() ==> #[trigger] items[i] is Str {
            Some(Some(Seq::new(items.len(), |i: int| items[i]->Str_0)))
        } else {
            None
        },
        _ => None,
    }
}

/// Reads an optional gender code.
pub open spec fn decode_gender(v: Option<JsonV>) -> Option<Option<AdministrativeGender>> {
    match v {
        None => Some(None),
        Some(JsonV::Null) => Some(None),
        Some(JsonV::Str(s)) => if s == gender_code(AdministrativeGender::Male) {
            Some(Some(AdministrativeGender::Male))
        } else if s == gender_code(AdministrativeGender::Female) {
            Some(Some(AdministrativeGender::Female))
        } else if s == gender_code(AdministrativeGender::Other) {
            Some(Some(AdministrativeGender::Other))
        } else if s == gender_code(AdministrativeGender::Unknown) {
            Some(Some(AdministrativeGender::Unknown))
        } else {
            None
        },
        _ => None,
    }
}

/// Reads an optional name use code.
pub open spec fn decode_name_use(v: Option<JsonV>) -> Option<Option<NameUse>> {
    match v {
        None => Some(None),
        Some(JsonV::Null) => Some(None),
        Some(JsonV::Str(s)) => if s == name_use_code(NameUse::Usual) {
            Some(Some(NameUse::Usual))
        } else if s == name_use_code(NameUse::Official) {
            Some(Some(NameUse::Official))
        } else if s == name_use_code(NameUse::Temp) {
            Some(Some(NameUse::Temp))
        } else if s == name_use_code(NameUse::Nickname) {
            Some(Some(NameUse::Nickname))
        } else if s == name_use_code(NameUse::Anonymous) {
            Some(Some(NameUse::Anonymous))
        } else if s == name_use_code(NameUse::Old) {
            Some(Some(NameUse::Old))
        } else if s == name_use_code(NameUse::Maiden) {
            Some(Some(NameUse::Maiden))
        } else {
            None
        },
        _ => None,
    }
}

pub open spec fn key_use() -> Seq<char> { seq!['u', 's', 'e'] }
pub open spec fn key_text() -> Seq<char> { seq!['t', 'e', 'x', 't'] }
pub open spec fn key_family() -> Seq<char> { seq!['f', 'a', 'm', 'i', 'l', 'y'] }
pub open spec fn key_given() -> Seq<char> { seq!['g', 'i', 'v', 'e', 'n'] }
pub open spec fn key_prefix() -> Seq<char> { seq!['p', 'r', 'e', 'f', 'i', 'x'] }
pub open spec fn key_suffix() -> Seq<char> { seq!['s', 'u', 'f', 'f', 'i', 'x'] }
pub open spec fn key_gender() -> Seq<char> { seq!['g', 'e', 'n', 'd', 'e', 'r'] }
pub open spec fn key_name() -> Seq<char> { seq!['n', 'a', 'm', 'e'] }
pub open spec fn key_birth_date() -> Seq<char> { seq!['b', 'i', 'r', 't', 'h', 'D', 'a', 't', 'e'] }

/// Reads a human name from an object; anything else does not decode.
pub open spec fn decode_human_name(v: JsonV) -> Option<HumanNameV> {
    match v {
        JsonV::Object(es) => {
            let u = decode_name_use(member(es, key_use()));
            let t = decode_string(member(es, key_text()));
            let f = decode_string(member(es, key_family()));
            let g = decode_strings(member(es, key_given()));
            let p = decode_strings(member(es, key_prefix()));
            let s = decode_strings(member(es, key_suffix()));
            if u is Some && t is Some && f is Some && g is Some && p is Some && s is Some {
                Some(HumanNameV {
                    use_: u->0,
                    text: t->0,
                    family: f->0,
                    given: g->0,
                    prefix: p->0,
                    suffix: s->0,
                })
            } else {
                None
            }
        },
        _ => None,
    }
}

/// Reads an optional list of human names.
pub open spec fn decode_names(v: Option<JsonV>) -> Option<Option<Seq<HumanNameV>>> {
    match v {
        None => Some(None),
        Some(JsonV::Null) => Some(None),
        Some(JsonV::Array(items)) => if forall|i: int|
            0 <= i < items.len() ==> #[trigger] decode_human_name(items[i]) is Some {
            Some(Some(Seq::new(items.len(), |i: int| decode_human_name(items[i])->0)))
        } else {
            None
        },
        _ => None,
    }
}

/// Reads a patient from a document; `None` where the document is no object or
/// a member that the model reads has the wrong shape.
pub open spec fn decode_patient(v: JsonV) -> Option<PatientV> {
    match v {
        JsonV::Object(es) => {
            let g = decode_gender(member(es, key_gender()));
            let n = decode_names(member(es, key_name()));
            let b = decode_string(member(es, key_birth_date()));
            if g is Some && n is Some && b is Some {
                Some(PatientV { gender: g->0, name: n->0, birth_date: b->0 })
            } else {
                None
            }
        },
        _ => None,
    }
}

fn read_string(v: Option<&JsonValue>) -> (r: Option<Option<String>>)
    ensures
        r is Some <==> decode_string(opt_json(v)) is Some,
        r is Some ==> opt_string_view(r->0) == decode_string(opt_json(v))->0,
{
    match v {
        None => Some(None),
        Some(JsonValue::Null) => Some(None),
        Some(JsonValue::Str(s)) => Some(Some(s.clone())),
        _ => None,
    }
}

fn read_strings(v: Option<&JsonValue>) -> (r: Option<Option<Vec<String>>>)
    ensures
        r is Some <==> decode_strings(opt_json(v)) is Some,
        r is Some ==> opt_strings_view(r->0) == decode_strings(opt_json(v))->0,
{
    match v {
        None => Some(None),
        Some(JsonValue::Null) => Some(None),
        Some(JsonValue::Array(items)) => {
            let ghost iv = opt_json(v)->0->Array_0;
            let mut out: Vec<String> = Vec::new();
            let mut i: usize = 0;
            while i < items.len()
                invariant
                    i <= items@.len() == iv.len(),
                    iv == opt_json(v)->0->Array_0,
                    v == Some(&JsonValue::Array(*items)),
                    out@.len() == i,
                    forall|j: int| 0 <= j < i ==> #[trigger] iv[j] is Str,
                    forall|j: int| 0 <= j < i ==> #[trigger] out@[j]@ == iv[j]->Str_0,
                decreases items@.len() - i,
            {
                assert(iv[i as int] == items[i as int]@);
                match &items[i] {
                    JsonValue::Str(s) => out.push(s.clone()),
                    _ => {
                        return None;
                    },
                }
                i = i + 1;
            }
            assert(strings_view(out@) =~= Seq::new(iv.len(), |j: int| iv[j]->Str_0));
            Some(Some(out))
        },
        _ => None,
    }
}

/// The view of a member that may be absent.
pub open spec fn opt_json(v: Option<&JsonValue>) -> Option<JsonV> {
    match v {
        Some(j) => Some(j@),
        None => None,
    }
}

fn read_gender(v: Option<&JsonValue>) -> (r: Option<Option<AdministrativeGender>>)
    ensures
        r == decode_gender(opt_json(v)),
{
    match v {
        None => Some(None),
        Some(JsonValue::Null) => Some(None),
        Some(JsonValue::Str(s)) => {
            if text_is(s.as_str(), &vec!['m', 'a', 'l', 'e']) {
                Some(Some(AdministrativeGender::Male))
            } else if text_is(s.as_str(), &vec!['f', 'e', 'm', 'a', 'l', 'e']) {
                Some(Some(AdministrativeGender::Female))
            } else if text_is(s.as_str(), &vec!['o', 't', 'h', 'e', 'r']) {
                Some(Some(AdministrativeGender::Other))
            } else if text_is(s.as_str(), &vec!['u', 'n', 'k', 'n', 'o', 'w', 'n']) {
                Some(Some(AdministrativeGender::Unknown))
            } else {
                None
            }
        },
        _ => None,
    }
}

fn read_name_use(v: Option<&JsonValue>) -> (r: Option<Option<NameUse>>)
    ensures
        r == decode_name_use(opt_json(v)),
{
    match v {
        None => Some(None),
        Some(JsonValue::Null) => Some(None),
        Some(JsonValue::Str(s)) => {
            let t = s.as_str();
            if text_is(t, &vec!['u', 's', 'u', 'a', 'l']) {
                Some(Some(NameUse::Usual))
            } else if text_is(t, &vec!['o', 'f', 'f', 'i', 'c', 'i', 'a', 'l']) {
                Some(Some(NameUse::Official))
            } else if text_is(t, &vec!['t', 'e', 'm', 'p']) {
                Some(Some(NameUse::Temp))
            } else if text_is(t, &vec!['n', 'i', 'c', 'k', 'n', 'a', 'm', 'e']) {
                Some(Some(NameUse::Nickname))
            } else if text_is(t, &vec!['a', 'n', 'o', 'n', 'y', 'm', 'o', 'u', 's']) {
                Some(Some(NameUse::Anonymous))
            } else if text_is(t, &vec!['o', 'l', 'd']) {
                Some(Some(NameUse::Old))
            } else if text_is(t, &vec!['m', 'a', 'i', 'd', 'e', 'n']) {
                Some(Some(NameUse::Maiden))
            } else {
                None
            }
        },
        _ => None,
    }
}

impl HumanName {
    /// Reads a human name from a document value.
    pub fn from_json(v: &JsonValue) -> (r: Option<HumanName>)
        ensures
            r is Some <==> decode_human_name(v@) is Some,
            r is Some ==> r->0@ == decode_human_name(v@)->0,
    {
        match v {
            JsonValue::Object(_) => {
                let ghost es = members_of(v@);
                let u = read_name_use(v.get_member(&string_from(vec!['u', 's', 'e'])));
                let t = read_string(v.get_member(&string_from(vec!['t', 'e', 'x', 't'])));
                let f = read_string(v.get_member(&string_from(vec!['f', 'a', 'm', 'i', 'l', 'y'])));
                let g = read_strings(v.get_member(&string_from(vec!['g', 'i', 'v', 'e', 'n'])));
                let p = read_strings(v.get_member(&string_from(vec!['p', 'r', 'e', 'f', 'i', 'x'])));
                let s = read_strings(v.get_member(&string_from(vec!['s', 'u', 'f', 'f', 'i', 'x'])));
                match (u, t, f, g, p, s) {
                    (Some(u), Some(t), Some(f), Some(g), Some(p), Some(s)) => Some(
                        HumanName { use_: u, text: t, family: f, given: g, prefix: p, suffix: s },
                    ),
                    _ => None,
                }
            },
            _ => None,
        }
    }
}

impl Patient {
    /// Reads a patient from a document.
    pub fn from_json(v: &JsonValue) -> (r: Option<Patient>)
        ensures
            r is Some <==> decode_patient(v@) is Some,
            r is Some ==> r->0@ == decode_patient(v@)->0,
    {
        match v {
            JsonValue::Object(_) => {
                let g = read_gender(v.get_member(&string_from(vec!['g', 'e', 'n', 'd', 'e', 'r'])));
                let b = read_string(
                    v.get_member(&string_from(vec!['b', 'i', 'r', 't', 'h', 'D', 'a', 't', 'e'])),
                );
                let nv = v.get_member(&string_from(vec!['n', 'a', 'm', 'e']));
                let n: Option<Option<Vec<HumanName>>> = match nv {
                    None => Some(None),
                    Some(JsonValue::Null) => Some(None),
                    Some(JsonValue::Array(items)) => {
                        let ghost iv = opt_json(nv)->0->Array_0;
                        let mut out: Vec<HumanName> = Vec::new();
                        let mut i: usize = 0;
                        let mut ok = true;
                        while i < items.len()
                            invariant
                                i <= items@.len() == iv.len(),
                                iv == opt_json(nv)->0->Array_0,
                                nv == Some(&JsonValue::Array(*items)),
                                ok ==> out@.len() == i,
                                ok ==> forall|j: int|
                                    0 <= j < i ==> #[trigger] decode_human_name(iv[j]) is Some,
                                ok ==> forall|j: int|
                                    0 <= j < i ==> #[trigger] out@[j]@ == decode_human_name(iv[j])->0,
                                !ok ==> decode_names(opt_json(nv)) is None,
                            decreases items@.len() - i,
                        {
                            assert(iv[i as int] == items[i as int]@);
                            match HumanName::from_json(&items[i]) {
                                Some(h) => {
                                    if ok {
                                        out.push(h);
                                    }
                                },
                                None => {
                                    ok = false;
                                },
                            }
                            i = i + 1;
                        }
                        if ok {
                            let ghost names = Seq::new(out@.len(), |j: int| out@[j]@);
                            assert(names =~= Seq::new(iv.len(), |j: int| decode_human_name(iv[j])->0));
                            Some(Some(out))
                        } else {
                            None
                        }
                    },
                    _ => None,
                };
                match (g, n, b) {
                    (Some(g), Some(n), Some(b)) => Some(Patient { gender: g, name: n, birth_date: b }),
                    _ => None,
                }
            },
            _ => None,
        }
    }
}

} // verus!
