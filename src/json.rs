//! The JSON document model that the store persists, with its mathematical view.

use vstd::prelude::*;

use crate::text::{chars_of, push_str, string_of};

verus! {

/// A JSON value. Numbers are kept as their literal text; object members keep
/// the order in which they were written.
#[derive(Debug)]
pub enum JsonValue {
    Null,
    Bool(bool),
    Number(String),
    Str(String),
    Array(Vec<JsonValue>),
    Object(Vec<(String, JsonValue)>),
}

/// The mathematical value of a [`JsonValue`].
pub enum JsonV {
    Null,
    Bool(bool),
    Number(Seq<char>),
    Str(Seq<char>),
    Array(Seq<JsonV>),
    Object(Seq<(Seq<char>, JsonV)>),
}

impl View for JsonValue {
    type V = JsonV;

    open spec fn view(&self) -> JsonV
        decreases self,
    {
        match self {
            JsonValue::Null => JsonV::Null,
            JsonValue::Bool(b) => JsonV::Bool(*b),
            JsonValue::Number(n) => JsonV::Number(n@),
            JsonValue::Str(s) => JsonV::Str(s@),
            JsonValue::Array(items) => JsonV::Array(
                Seq::new(
                    items@.len(),
                    |i: int| if 0 <= i < items@.len() { items[i].view() } else { JsonV::Null },
                ),
            ),
            JsonValue::Object(members) => JsonV::Object(
                Seq::new(
                    members@.len(),
                    |i: int|
                        (
                            members[i].0@,
                            if 0 <= i < members@.len() {
                                members[i].1.view()
                            } else {
                                JsonV::Null
                            },
                        ),
                ),
            ),
        }
    }
}


/// The value of the last member named `k`, as a parser that lets later
/// duplicates win would read it.
pub open spec fn member(es: Seq<(Seq<char>, JsonV)>, k: Seq<char>) -> Option<JsonV>
    decreases es.len(),
{
    if es.len() == 0 {
        None
    } else if es.last().0 == k {
        Some(es.last().1)
    } else {
        member(es.drop_last(), k)
    }
}

/// The members of an object as a map from name to value.
pub open spec fn members_map(es: Seq<(Seq<char>, JsonV)>) -> Map<Seq<char>, JsonV>
    decreases es.len(),
{
    if es.len() == 0 {
        Map::empty()
    } else {
        members_map(es.drop_last()).insert(es.last().0, es.last().1)
    }
}

/// The members left after taking out every member named `k`.
pub open spec fn without_member(es: Seq<(Seq<char>, JsonV)>, k: Seq<char>) -> Seq<(Seq<char>, JsonV)>
    decreases es.len(),
{
    if es.len() == 0 {
        es
    } else if es.last().0 == k {
        without_member(es.drop_last(), k)
    } else {
        without_member(es.drop_last(), k).push(es.last())
    }
}

/// Whether some member is named `k`.
pub open spec fn has_member(es: Seq<(Seq<char>, JsonV)>, k: Seq<char>) -> bool {
    exists|i: int| 0 <= i < es.len() && #[trigger] es[i].0 == k
}

pub proof fn lemma_member_map(es: Seq<(Seq<char>, JsonV)>, k: Seq<char>)
    ensures
        member(es, k) == (if members_map(es).contains_key(k) {
            Some(members_map(es)[k])
        } else {
            None::<JsonV>
        }),
        member(es, k) is Some <==> has_member(es, k),
    decreases es.len(),
{
    if es.len() > 0 {
        lemma_member_map(es.drop_last(), k);
        if es.last().0 != k {
            assert forall|i: int| 0 <= i < es.len() && #[trigger] es[i].0 == k implies 0 <= i
                < es.drop_last().len() && es.drop_last()[i].0 == k by {}
        } else {
            assert(es[es.len() - 1].0 == k);
        }
        if has_member(es.drop_last(), k) {
            let i = choose|i: int| 0 <= i < es.drop_last().len() && #[trigger] es.drop_last()[i].0 == k;
            assert(es[i].0 == k);
        }
    }
}

pub proof fn lemma_without_member(es: Seq<(Seq<char>, JsonV)>, k: Seq<char>)
    ensures
        members_map(without_member(es, k)) == members_map(es).remove(k),
        !has_member(without_member(es, k), k),
        forall|j: Seq<char>| j != k ==> member(without_member(es, k), j) == member(es, j),
    decreases es.len(),
{
    if es.len() > 0 {
        let rest = without_member(es.drop_last(), k);
        lemma_without_member(es.drop_last(), k);
        if es.last().0 != k {
            assert(without_member(es, k).drop_last() =~= rest);
            assert forall|i: int| 0 <= i < rest.len() + 1 implies #[trigger] without_member(
                es,
                k,
            )[i].0 != k by {
                if i < rest.len() {
                    assert(without_member(es, k)[i] == rest[i]);
                    if rest[i].0 == k {
                        assert(has_member(rest, k));
                    }
                }
            }
        }
        assert(members_map(without_member(es, k)) =~= members_map(es).remove(k));
        assert forall|j: Seq<char>| j != k implies member(without_member(es, k), j) == member(
            es,
            j,
        ) by {
            if es.last().0 != k {
                assert(without_member(es, k) == rest.push(es.last()));
                assert(rest.push(es.last()).drop_last() =~= rest);
                assert(rest.push(es.last()).last() == es.last());
            } else {
                assert(without_member(es, k) == rest);
            }
            assert(member(rest, j) == member(es.drop_last(), j));
        }
    }
}

/// The members of an object value; no members for any other value.
pub open spec fn members_of(v: JsonV) -> Seq<(Seq<char>, JsonV)> {
    match v {
        JsonV::Object(es) => es,
        _ => Seq::empty(),
    }
}

proof fn lemma_member_step(es: Seq<(Seq<char>, JsonV)>, i: int, k: Seq<char>)
    requires
        0 <= i < es.len(),
    ensures
        member(es.take(i + 1), k) == (if es[i].0 == k {
            Some(es[i].1)
        } else {
            member(es.take(i), k)
        }),
        without_member(es.take(i + 1), k) == (if es[i].0 == k {
            without_member(es.take(i), k)
        } else {
            without_member(es.take(i), k).push(es[i])
        }),
{
    assert(es.take(i + 1).drop_last() =~= es.take(i));
}

/// Whether two values are the same document, member order included.
pub fn json_equal(a: &JsonValue, b: &JsonValue) -> (r: bool)
    ensures
        r == (a@ == b@),
    decreases a,
{
    match (a, b) {
        (JsonValue::Null, JsonValue::Null) => true,
        (JsonValue::Bool(x), JsonValue::Bool(y)) => *x == *y,
        (JsonValue::Number(x), JsonValue::Number(y)) => *x == *y,
        (JsonValue::Str(x), JsonValue::Str(y)) => *x == *y,
        (JsonValue::Array(xs), JsonValue::Array(ys)) => {
            if xs.len() != ys.len() {
                assert(a@->Array_0.len() != b@->Array_0.len());
                return false;
            }
            let mut i: usize = 0;
            while i < xs.len()
                invariant
                    i <= xs@.len() == ys@.len(),
                    *a == JsonValue::Array(*xs),
                    *b == JsonValue::Array(*ys),
                    forall|j: int| 0 <= j < i ==> #[trigger] xs[j]@ == ys[j]@,
                decreases xs@.len() - i,
            {
                proof {
                    assert(decreases_to!(*a => xs[i as int]));
                }
                if !json_equal(&xs[i], &ys[i]) {
                    assert(a@->Array_0[i as int] != b@->Array_0[i as int]);
                    return false;
                }
                i = i + 1;
            }
            assert forall|j: int| 0 <= j < xs@.len() implies a@->Array_0[j] == b@->Array_0[j] by {
                assert(xs[j]@ == ys[j]@);
            }
            assert(a@->Array_0 =~= b@->Array_0);
            assert(a@ == b@);
            true
        },
        (JsonValue::Object(xs), JsonValue::Object(ys)) => {
            if xs.len() != ys.len() {
                assert(a@->Object_0.len() != b@->Object_0.len());
                return false;
            }
            let mut i: usize = 0;
            while i < xs.len()
                invariant
                    i <= xs@.len() == ys@.len(),
                    *a == JsonValue::Object(*xs),
                    *b == JsonValue::Object(*ys),
                    forall|j: int| 0 <= j < i ==> #[trigger] xs[j].0@ == ys[j].0@,
                    forall|j: int| 0 <= j < i ==> #[trigger] xs[j].1@ == ys[j].1@,
                decreases xs@.len() - i,
            {
                if !(xs[i].0 == ys[i].0) {
                    assert(a@->Object_0[i as int] != b@->Object_0[i as int]);
                    return false;
                }
                proof {
                    assert(decreases_to!(*a => xs[i as int].1));
                }
                if !json_equal(&xs[i].1, &ys[i].1) {
                    assert(a@->Object_0[i as int] != b@->Object_0[i as int]);
                    return false;
                }
                assert(xs[i as int].0@ == ys[i as int].0@);
                assert(xs[i as int].1@ == ys[i as int].1@);
                i = i + 1;
            }
            assert forall|j: int| 0 <= j < xs@.len() implies a@->Object_0[j] == b@->Object_0[j] by {
                assert(xs[j].0@ == ys[j].0@);
                assert(xs[j].1@ == ys[j].1@);
            }
            assert(a@->Object_0 =~= b@->Object_0);
            assert(a@ == b@);
            true
        },
        _ => {
            assert(a@ != b@);
            false
        },
    }
}

impl JsonValue {
    /// The value of the member named `key`, the last one where the name repeats;
    /// `None` for a value that is not an object.
    pub fn get_member(&self, key: &String) -> (r: Option<&JsonValue>)
        ensures
            r is Some <==> member(members_of(self@), key@) is Some,
            r is Some ==> r->0@ == member(members_of(self@), key@)->0,
    {
        match self {
            JsonValue::Object(members) => {
                let ghost es = members_of(self@);
                let mut i: usize = members.len();
                assert(es.take(i as int) =~= es);
                while i > 0
                    invariant
                        i <= members@.len() == es.len(),
                        es == members_of(self@),
                        *self == JsonValue::Object(*members),
                        member(es, key@) == member(es.take(i as int), key@),
                    decreases i,
                {
                    i = i - 1;
                    proof {
                        lemma_member_step(es, i as int, key@);
                    }
                    if members[i].0 == *key {
                        return Some(&members[i].1);
                    }
                }
                assert(es.take(0) =~= Seq::<(Seq<char>, JsonV)>::empty());
                None
            },
            _ => None,
        }
    }

    /// This object without any member named `key`; other values are copied as they are.
    pub fn without(&self, key: &String) -> (r: JsonValue)
        ensures
            self@ is Object ==> r@ == JsonV::Object(without_member(members_of(self@), key@)),
            !(self@ is Object) ==> r@ == self@,
    {
        match self {
            JsonValue::Object(members) => {
                let ghost es = members_of(self@);
                let mut out: Vec<(String, JsonValue)> = Vec::new();
                let mut i: usize = 0;
                while i < members.len()
                    invariant
                        i <= members@.len() == es.len(),
                        es == members_of(self@),
                        *self == JsonValue::Object(*members),
                        out@.len() == without_member(es.take(i as int), key@).len(),
                        forall|j: int|
                            0 <= j < out@.len() ==> (#[trigger] out[j].0@, out[j].1@)
                                == without_member(es.take(i as int), key@)[j],
                    decreases members@.len() - i,
                {
                    proof {
                        lemma_member_step(es, i as int, key@);
                    }
                    if !(members[i].0 == *key) {
                        let k = members[i].0.clone();
                        let v = members[i].1.deep_clone();
                        out.push((k, v));
                    }
                    i = i + 1;
                }
                assert(es.take(i as int) =~= es);
                let r = JsonValue::Object(out);
                assert(r@->Object_0 =~= without_member(es, key@)) by {
                    assert forall|j: int| 0 <= j < out@.len() implies r@->Object_0[j]
                        == without_member(es, key@)[j] by {
                        assert((out[j].0@, out[j].1@) == without_member(es.take(i as int), key@)[j]);
                    }
                }
                r
            },
            _ => self.deep_clone(),
        }
    }
}

impl JsonValue {
    /// A copy of this value that shares nothing with it.
    #[verifier::loop_isolation(false)]
    pub fn deep_clone(&self) -> (r: JsonValue)
        ensures
            r@ == self@,
        decreases self,
    {
        match self {
            JsonValue::Null => JsonValue::Null,
            JsonValue::Bool(b) => JsonValue::Bool(*b),
            JsonValue::Number(n) => JsonValue::Number(n.clone()),
            JsonValue::Str(s) => JsonValue::Str(s.clone()),
            JsonValue::Array(items) => {
                let mut out: Vec<JsonValue> = Vec::new();
                let mut i: usize = 0;
                while i < items.len()
                    invariant
                        i <= items@.len(),
                        out@.len() == i,
                        forall|j: int| 0 <= j < i ==> #[trigger] out[j]@ == items[j]@,
                    decreases items@.len() - i,
                {
                    let c = items[i].deep_clone();
                    out.push(c);
                    i = i + 1;
                }
                let r = JsonValue::Array(out);
                assert(r@ == self@) by {
                    if let JsonV::Array(a) = r@ {
                        if let JsonV::Array(b) = self@ {
                            assert forall|j: int| 0 <= j < a.len() implies a[j] == b[j] by {
                                assert(out[j]@ == items[j]@);
                            }
                            assert(a =~= b);
                        }
                    }
                }
                r
            },
            JsonValue::Object(members) => {
                let mut out: Vec<(String, JsonValue)> = Vec::new();
                let mut i: usize = 0;
                while i < members.len()
                    invariant
                        i <= members@.len(),
                        out@.len() == i,
                        forall|j: int|
                            0 <= j < i ==> #[trigger] out[j].0@ == members[j].0@ && out[j].1@
                                == members[j].1@,
                    decreases members@.len() - i,
                {
                    let k = members[i].0.clone();
                    let v = members[i].1.deep_clone();
                    out.push((k, v));
                    i = i + 1;
                }
                let r = JsonValue::Object(out);
                assert(r@ == self@) by {
                    if let JsonV::Object(a) = r@ {
                        if let JsonV::Object(b) = self@ {
                            assert forall|j: int| 0 <= j < a.len() implies a[j] == b[j] by {
                                assert(out[j].0@ == members[j].0@);
                            }
                            assert(a =~= b);
                        }
                    }
                }
                r
            },
        }
    }
}

/// A hexadecimal digit, lowercase.
pub open spec fn hex_digit(d: nat) -> char {
    if d == 0 { '0' } else
    if d == 1 { '1' } else
    if d == 2 { '2' } else
    if d == 3 { '3' } else
    if d == 4 { '4' } else
    if d == 5 { '5' } else
    if d == 6 { '6' } else
    if d == 7 { '7' } else
    if d == 8 { '8' } else
    if d == 9 { '9' } else
    if d == 10 { 'a' } else
    if d == 11 { 'b' } else
    if d == 12 { 'c' } else
    if d == 13 { 'd' } else
    if d == 14 { 'e' } else { 'f' }
}

/// How one character of a string is written inside JSON quotes.
pub open spec fn escape_char(c: char) -> Seq<char> {
    if c == '"' {
        seq!['\\', '"']
    } else if c == '\\' {
        seq!['\\', '\\']
    } else if (c as u32) < 0x20 {
        seq!['\\', 'u', '0', '0', hex_digit((c as u32 / 16) as nat), hex_digit((c as u32 % 16) as nat)]
    } else {
        seq![c]
    }
}

/// A string with each character escaped for JSON.
pub open spec fn escaped(s: Seq<char>) -> Seq<char>
    decreases s.len(),
{
    if s.len() == 0 {
        Seq::empty()
    } else {
        escaped(s.drop_last()) + escape_char(s.last())
    }
}

/// A string as a JSON string literal.
pub open spec fn quoted(s: Seq<char>) -> Seq<char> {
    seq!['"'] + escaped(s) + seq!['"']
}

/// The compact JSON text of a value, members in their order.
pub open spec fn json_text(v: JsonV) -> Seq<char>
    decreases v, 1int, 0int,
{
    match v {
        JsonV::Null => seq!['n', 'u', 'l', 'l'],
        JsonV::Bool(b) => if b {
            seq!['t', 'r', 'u', 'e']
        } else {
            seq!['f', 'a', 'l', 's', 'e']
        },
        JsonV::Number(n) => n,
        JsonV::Str(s) => quoted(s),
        JsonV::Array(items) => seq!['['] + elements_text(v, items.len() as int) + seq![']'],
        JsonV::Object(es) => seq!['{'] + elements_text(v, es.len() as int) + seq!['}'],
    }
}

/// The JSON text of the first `n` elements or members of a container, comma-separated.
pub open spec fn elements_text(v: JsonV, n: int) -> Seq<char>
    decreases v, 0int, n,
{
    if n <= 0 {
        Seq::empty()
    } else {
        let sep = if n > 1 {
            seq![',']
        } else {
            Seq::empty()
        };
        match v {
            JsonV::Array(items) => if n <= items.len() {
                elements_text(v, n - 1) + sep + json_text(items[n - 1])
            } else {
                Seq::empty()
            },
            JsonV::Object(es) => if n <= es.len() {
                elements_text(v, n - 1) + sep + quoted(es[n - 1].0) + seq![':'] + json_text(
                    es[n - 1].1,
                )
            } else {
                Seq::empty()
            },
            _ => Seq::empty(),
        }
    }
}

pub(crate) fn hex(d: u32) -> (c: char)
    requires
        d < 16,
    ensures
        c == hex_digit(d as nat),
{
    if d == 0 { '0' } else
    if d == 1 { '1' } else
    if d == 2 { '2' } else
    if d == 3 { '3' } else
    if d == 4 { '4' } else
    if d == 5 { '5' } else
    if d == 6 { '6' } else
    if d == 7 { '7' } else
    if d == 8 { '8' } else
    if d == 9 { '9' } else
    if d == 10 { 'a' } else
    if d == 11 { 'b' } else
    if d == 12 { 'c' } else
    if d == 13 { 'd' } else
    if d == 14 { 'e' } else { 'f' }
}

fn push_quoted(out: &mut Vec<char>, s: &String)
    ensures
        final(out)@ == old(out)@ + quoted(s@),
{
    let cs = chars_of(s.as_str());
    out.push('"');
    let mut i: usize = 0;
    while i < cs.len()
        invariant
            i <= cs@.len(),
            cs@ == s@,
            out@ == old(out)@ + seq!['"'] + escaped(cs@.take(i as int)),
        decreases cs@.len() - i,
    {
        let c = cs[i];
        let ghost before = out@;
        if c == '"' {
            out.push('\\');
            out.push('"');
        } else if c == '\\' {
            out.push('\\');
            out.push('\\');
        } else if (c as u32) < 0x20 {
            out.push('\\');
            out.push('u');
            out.push('0');
            out.push('0');
            out.push(hex(c as u32 / 16));
            out.push(hex(c as u32 % 16));
        } else {
            out.push(c);
        }
        assert(out@ =~= before + escape_char(c));
        assert(cs@.take(i as int + 1).drop_last() =~= cs@.take(i as int));
        i = i + 1;
    }
    out.push('"');
    assert(cs@.take(i as int) =~= cs@);
}

/// Appends the JSON text of `v` to `out`.
fn write_json(v: &JsonValue, out: &mut Vec<char>)
    ensures
        final(out)@ == old(out)@ + json_text(v@),
    decreases v,
{
    let ghost start = out@;
    match v {
        JsonValue::Null => push_str(out, "null"),
        JsonValue::Bool(b) => if *b {
            push_str(out, "true")
        } else {
            push_str(out, "false")
        },
        JsonValue::Number(n) => push_str(out, n.as_str()),
        JsonValue::Str(s) => push_quoted(out, s),
        JsonValue::Array(items) => {
            out.push('[');
            let mut i: usize = 0;
            while i < items.len()
                invariant
                    i <= items@.len(),
                    *v == JsonValue::Array(*items),
                    out@ == start + seq!['['] + elements_text(v@, i as int),
                decreases items@.len() - i,
            {
                let ghost before = out@;
                if i > 0 {
                    out.push(',');
                }
                proof {
                    assert(decreases_to!(*v => items[i as int]));
                }
                write_json(&items[i], out);
                assert(v@->Array_0[i as int] == items[i as int]@);
                assert(out@ =~= start + seq!['['] + elements_text(v@, i as int + 1));
                i = i + 1;
            }
            out.push(']');
        },
        JsonValue::Object(members) => {
            out.push('{');
            let mut i: usize = 0;
            while i < members.len()
                invariant
                    i <= members@.len(),
                    *v == JsonValue::Object(*members),
                    out@ == start + seq!['{'] + elements_text(v@, i as int),
                decreases members@.len() - i,
            {
                if i > 0 {
                    out.push(',');
                }
                push_quoted(out, &members[i].0);
                out.push(':');
                proof {
                    assert(decreases_to!(*v => members[i as int].1));
                }
                write_json(&members[i].1, out);
                assert(v@->Object_0[i as int] == (members[i as int].0@, members[i as int].1@));
                assert(out@ =~= start + seq!['{'] + elements_text(v@, i as int + 1));
                i = i + 1;
            }
            out.push('}');
        },
    }
    proof {
        reveal_strlit("null");
        reveal_strlit("true");
        reveal_strlit("false");
    }
    assert(out@ =~= start + json_text(v@));
}

/// The compact JSON text of a value.
pub fn to_json_text(v: &JsonValue) -> (r: String)
    ensures
        r@ == json_text(v@),
{
    let mut out: Vec<char> = Vec::new();
    write_json(v, &mut out);
    assert(out@ =~= json_text(v@));
    string_of(&out)
}

} // verus!
