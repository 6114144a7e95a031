//! Searching the index: operator tokens, typed search values, and the
//! comparison that each operator makes against an index value.

use vstd::prelude::*;

use crate::date::{compare_dates, Date};
use crate::index::IndexedKeyType;
use crate::text::{chars_equal, chars_of, lower_of, string_from, to_lower, tok1, tok2, tok3, tok4};
use crate::trigram::{similar, trigram_similar};

verus! {

/// Why a search was refused.
#[derive(Debug)]
pub enum SearchError {
    /// The operator token is not one of the search operators.
    UnknownOperator(String),
    /// The resource type has no index under this key.
    UnknownSearchKey(String),
    /// The value's type is not the type of the key's index.
    InvalidValueType,
}

/// A comparison between an index value and a search value.
#[derive(Debug, Clone, Copy, PartialEq, Eq, Structural)]
pub enum SearchOperator {
    Eq,
    Ne,
    Lt,
    Lte,
    Gt,
    Gte,
    Like,
    Trgm,
}

/// The operator that a token names: `eq`/`=`, `ne`/`!=`/`<>`, `lt`/`<`,
/// `lte`/`<=`, `gt`/`>`, `gte`/`>=`, `like`/`~`, and `%`/`trgm`.
pub open spec fn operator_of(s: Seq<char>) -> Option<SearchOperator> {
    if s == seq!['e', 'q'] || s == seq!['='] {
        Some(SearchOperator::Eq)
    } else if s == seq!['n', 'e'] || s == seq!['!', '='] || s == seq!['<', '>'] {
        Some(SearchOperator::Ne)
    } else if s == seq!['l', 't'] || s == seq!['<'] {
        Some(SearchOperator::Lt)
    } else if s == seq!['l', 't', 'e'] || s == seq!['<', '='] {
        Some(SearchOperator::Lte)
    } else if s == seq!['g', 't'] || s == seq!['>'] {
        Some(SearchOperator::Gt)
    } else if s == seq!['g', 't', 'e'] || s == seq!['>', '='] {
        Some(SearchOperator::Gte)
    } else if s == seq!['l', 'i', 'k', 'e'] || s == seq!['~'] {
        Some(SearchOperator::Like)
    } else if s == seq!['%'] || s == seq!['t', 'r', 'g', 'm'] {
        Some(SearchOperator::Trgm)
    } else {
        None
    }
}

/// The SQL operator that a search operator stands for.
pub open spec fn sql_operator(op: SearchOperator) -> Seq<char> {
    match op {
        SearchOperator::Eq => seq!['='],
        SearchOperator::Ne => seq!['!', '='],
        SearchOperator::Lt => seq!['<'],
        SearchOperator::Lte => seq!['<', '='],
        SearchOperator::Gt => seq!['>'],
        SearchOperator::Gte => seq!['>', '='],
        SearchOperator::Like => seq!['i', 'l', 'i', 'k', 'e'],
        SearchOperator::Trgm => seq!['%'],
    }
}

fn is_one_of(cs: &Vec<char>, a: Vec<char>, b: Vec<char>) -> (r: bool)
    ensures
        r == (cs@ == a@ || cs@ == b@),
{
    chars_equal(cs, &a) || chars_equal(cs, &b)
}

impl SearchOperator {
    /// The operator that the token `s` names.
    pub fn from_str(s: &str) -> (r: Result<SearchOperator, SearchError>)
        ensures
            r matches Ok(op) ==> operator_of(s@) == Some(op),
            r is Err <==> operator_of(s@) is None,
            r matches Err(e) ==> (e matches SearchError::UnknownOperator(t) && t@ == s@),
    {
        let cs = chars_of(s);
        if is_one_of(&cs, tok2('e', 'q'), tok1('=')) {
            Ok(SearchOperator::Eq)
        } else if is_one_of(&cs, tok2('n', 'e'), tok2('!', '=')) || chars_equal(&cs, &tok2('<', '>')) {
            Ok(SearchOperator::Ne)
        } else if is_one_of(&cs, tok2('l', 't'), tok1('<')) {
            Ok(SearchOperator::Lt)
        } else if is_one_of(&cs, tok3('l', 't', 'e'), tok2('<', '=')) {
            Ok(SearchOperator::Lte)
        } else if is_one_of(&cs, tok2('g', 't'), tok1('>')) {
            Ok(SearchOperator::Gt)
        } else if is_one_of(&cs, tok3('g', 't', 'e'), tok2('>', '=')) {
            Ok(SearchOperator::Gte)
        } else if is_one_of(&cs, tok4('l', 'i', 'k', 'e'), tok1('~')) {
            Ok(SearchOperator::Like)
        } else if is_one_of(&cs, tok1('%'), tok4('t', 'r', 'g', 'm')) {
            Ok(SearchOperator::Trgm)
        } else {
            Err(SearchError::UnknownOperator(string_from(cs)))
        }
    }

    /// The SQL operator this search operator stands for.
    pub fn to_postgres_operator(self) -> (r: String)
        ensures
            r@ == sql_operator(self),
    {
        match self {
            SearchOperator::Eq => string_from(vec!['=']),
            SearchOperator::Ne => string_from(vec!['!', '=']),
            SearchOperator::Lt => string_from(vec!['<']),
            SearchOperator::Lte => string_from(vec!['<', '=']),
            SearchOperator::Gt => string_from(vec!['>']),
            SearchOperator::Gte => string_from(vec!['>', '=']),
            SearchOperator::Like => string_from(vec!['i', 'l', 'i', 'k', 'e']),
            SearchOperator::Trgm => string_from(vec!['%']),
        }
    }
}

/// A value to compare index values with.
#[derive(Debug, Clone)]
pub enum SearchValue {
    Text(String),
    Date(Date),
}

/// The order of texts: character by character, by code point, a proper
/// prefix first. Negative, zero or positive as `a` comes before, equals or
/// comes after `b`.
pub open spec fn text_cmp(a: Seq<char>, b: Seq<char>) -> int
    decreases a.len(),
{
    if a.len() == 0 {
        if b.len() == 0 { 0 } else { -1 }
    } else if b.len() == 0 {
        1
    } else if a[0] != b[0] {
        if a[0] < b[0] { -1 } else { 1 }
    } else {
        text_cmp(a.drop_first(), b.drop_first())
    }
}

/// Whether `t` matches the pattern `p`, where `%` stands for any run of
/// characters and `_` for any one character.
pub open spec fn like_match(p: Seq<char>, t: Seq<char>) -> bool
    decreases p.len() + t.len(),
{
    if p.len() == 0 {
        t.len() == 0
    } else if p[0] == '%' {
        like_match(p.drop_first(), t) || (t.len() > 0 && like_match(p, t.drop_first()))
    } else {
        t.len() > 0 && (p[0] == '_' || p[0] == t[0]) && like_match(p.drop_first(), t.drop_first())
    }
}

/// Whether an ordering result satisfies an ordering operator.
pub open spec fn order_holds(op: SearchOperator, c: int) -> bool {
    match op {
        SearchOperator::Eq => c == 0,
        SearchOperator::Ne => c != 0,
        SearchOperator::Lt => c < 0,
        SearchOperator::Lte => c <= 0,
        SearchOperator::Gt => c > 0,
        SearchOperator::Gte => c >= 0,
        _ => false,
    }
}

/// Whether the text index value `v` satisfies `v <op> q`.
pub open spec fn text_matches(op: SearchOperator, v: Seq<char>, q: Seq<char>) -> bool {
    match op {
        SearchOperator::Like => like_match(lower_of(q), lower_of(v)),
        SearchOperator::Trgm => trigram_similar(v, q),
        _ => order_holds(op, text_cmp(v, q)),
    }
}

/// Whether the date index value `v` satisfies `v <op> q`; the pattern
/// operators compare dates for equality.
pub open spec fn date_matches(op: SearchOperator, v: Date, q: Date) -> bool {
    match op {
        SearchOperator::Like | SearchOperator::Trgm => v.ordinal() == q.ordinal(),
        _ => order_holds(op, v.ordinal() - q.ordinal()),
    }
}

fn compare_text(a: &Vec<char>, b: &Vec<char>) -> (r: i8)
    ensures
        r < 0 <==> text_cmp(a@, b@) < 0,
        r == 0 <==> text_cmp(a@, b@) == 0,
        r > 0 <==> text_cmp(a@, b@) > 0,
{
    let mut i: usize = 0;
    assert(a@.skip(0) =~= a@);
    assert(b@.skip(0) =~= b@);
    while i < a.len() && i < b.len()
        invariant
            i <= a@.len(),
            i <= b@.len(),
            text_cmp(a@, b@) == text_cmp(a@.skip(i as int), b@.skip(i as int)),
        decreases a@.len() - i,
    {
        if a[i] != b[i] {
            return if a[i] < b[i] { -1 } else { 1 };
        }
        assert(a@.skip(i as int).drop_first() =~= a@.skip(i as int + 1));
        assert(b@.skip(i as int).drop_first() =~= b@.skip(i as int + 1));
        i = i + 1;
    }
    if a.len() == b.len() {
        0
    } else if i == a.len() {
        -1
    } else {
        1
    }
}

/// Whether the text at `ti..` matches the pattern at `pi..`.
fn like_from(p: &Vec<char>, pi: usize, t: &Vec<char>, ti: usize) -> (r: bool)
    requires
        pi <= p@.len(),
        ti <= t@.len(),
    ensures
        r == like_match(p@.skip(pi as int), t@.skip(ti as int)),
    decreases p@.len() - pi + t@.len() - ti,
{
    let ghost ps = p@.skip(pi as int);
    let ghost ts = t@.skip(ti as int);
    if pi == p.len() {
        return ti == t.len();
    }
    if ti < t.len() {
        assert(ts.drop_first() =~= t@.skip(ti as int + 1));
    }
    assert(ps.drop_first() =~= p@.skip(pi as int + 1));
    if p[pi] == '%' {
        if like_from(p, pi + 1, t, ti) {
            return true;
        }
        ti < t.len() && like_from(p, pi, t, ti + 1)
    } else {
        ti < t.len() && (p[pi] == '_' || p[pi] == t[ti]) && like_from(p, pi + 1, t, ti + 1)
    }
}

/// Whether the text index value `v` satisfies `v <op> q`.
pub fn text_value_matches(op: SearchOperator, v: &String, q: &String) -> (r: bool)
    ensures
        r == text_matches(op, v@, q@),
{
    match op {
        SearchOperator::Like => {
            let p = chars_of(to_lower(q.as_str()).as_str());
            let t = chars_of(to_lower(v.as_str()).as_str());
            assert(p@.skip(0) =~= p@);
            assert(t@.skip(0) =~= t@);
            like_from(&p, 0, &t, 0)
        },
        SearchOperator::Trgm => similar(v.as_str(), q.as_str()),
        _ => {
            let c = compare_text(&chars_of(v.as_str()), &chars_of(q.as_str()));
            match op {
                SearchOperator::Eq => c == 0,
                SearchOperator::Ne => c != 0,
                SearchOperator::Lt => c < 0,
                SearchOperator::Lte => c <= 0,
                SearchOperator::Gt => c > 0,
                _ => c >= 0,
            }
        },
    }
}

/// Whether the date index value `v` satisfies `v <op> q`.
pub fn date_value_matches(op: SearchOperator, v: &Date, q: &Date) -> (r: bool)
    ensures
        r == date_matches(op, *v, *q),
{
    let c = compare_dates(v, q);
    match op {
        SearchOperator::Eq | SearchOperator::Like | SearchOperator::Trgm => c == 0,
        SearchOperator::Ne => c != 0,
        SearchOperator::Lt => c < 0,
        SearchOperator::Lte => c <= 0,
        SearchOperator::Gt => c > 0,
        SearchOperator::Gte => c >= 0,
    }
}

/// The description of a value of the wrong type.
pub open spec fn invalid_value_message() -> Seq<char> {
    seq!['t', 'h', 'e', ' ', 's', 'e', 'a', 'r', 'c', 'h', ' ', 'v', 'a', 'l', 'u', 'e', ' ', 'i', 's', ' ', 'n', 'o', 't', ' ', 'v', 'a', 'l', 'i', 'd', ' ', 'f', 'o', 'r', ' ', 't', 'h', 'i', 's', ' ', 's', 'e', 'a', 'r', 'c', 'h', ' ', 'k', 'e', 'y']
}

impl SearchError {
    /// A description of the error for the caller.
    pub fn message(&self) -> (r: String)
        ensures
            self matches SearchError::UnknownOperator(t) ==> r@ == seq![
                'u', 'n', 'k', 'n', 'o', 'w', 'n', ' ', 's', 'e', 'a', 'r', 'c', 'h', ' ', 'o', 'p', 'e', 'r', 'a', 't', 'o', 'r', ':', ' ', '\'',
            ] + t@ + seq!['\''],
            self matches SearchError::UnknownSearchKey(k) ==> r@ == seq![
                'u', 'n', 'k', 'n', 'o', 'w', 'n', ' ', 's', 'e', 'a', 'r', 'c', 'h', ' ', 'k', 'e', 'y', ':', ' ', '\'',
            ] + k@ + seq!['\''],
            self is InvalidValueType ==> r@ == invalid_value_message(),
    {
        let mut out: Vec<char> = Vec::new();
        proof {
            reveal_strlit("unknown search operator: '");
            reveal_strlit("unknown search key: '");
            reveal_strlit("'");
        }
        match self {
            SearchError::UnknownOperator(t) => {
                crate::text::push_str(&mut out, "unknown search operator: '");
                crate::text::push_str(&mut out, t.as_str());
                crate::text::push_str(&mut out, "'");
            },
            SearchError::UnknownSearchKey(k) => {
                crate::text::push_str(&mut out, "unknown search key: '");
                crate::text::push_str(&mut out, k.as_str());
                crate::text::push_str(&mut out, "'");
            },
            SearchError::InvalidValueType => {
                crate::text::push_str(&mut out, "the search value is not valid for this search key");
                proof {
                    reveal_strlit("the search value is not valid for this search key");
                    assert(out@ =~= invalid_value_message());
                }
            },
        }
        crate::text::string_of(&out)
    }
}

} // verus!
