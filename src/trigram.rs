//! Trigram similarity, the fuzzy match of the search operator `%`: texts are
//! lowercased and cut into words of alphanumeric characters; each word, with
//! two spaces before it and one after, yields its runs of three characters;
//! two texts are similar when they share at least three tenths of the
//! distinct trigrams that either of them has.

use vstd::prelude::*;

use crate::text::{chars_equal, chars_of, lower_of, to_lower};

verus! {

/// Whether a character is alphabetic or numeric, as Unicode defines them.
pub uninterp spec fn alphanumeric(c: char) -> bool;

/// Relies on `char::is_alphanumeric`: the result depends on the character alone.
#[verifier::external_body]
fn is_alphanumeric(c: char) -> (r: bool)
    ensures
        r == alphanumeric(c),
{
    c.is_alphanumeric()
}

/// The trigrams of one word: every run of three characters of the word with
/// two spaces put before it and one after it.
pub open spec fn word_trigrams(w: Seq<char>) -> Seq<Seq<char>> {
    Seq::new(w.len() + 1, |i: int| padded_word(w).subrange(i, i + 3))
}

/// A word with two spaces before it and one after it.
pub open spec fn padded_word(w: Seq<char>) -> Seq<char> {
    seq![' ', ' '] + w + seq![' ']
}

/// The trigrams of a finished word; none for an empty one.
pub open spec fn flush(w: Seq<char>) -> Seq<Seq<char>> {
    if w.len() == 0 {
        Seq::empty()
    } else {
        word_trigrams(w)
    }
}

/// Reads `s` from position `i` on, with the word `cur` begun and the trigrams
/// `acc` already found, and gives all trigrams in order.
pub open spec fn scan(s: Seq<char>, i: int, cur: Seq<char>, acc: Seq<Seq<char>>) -> Seq<Seq<char>>
    decreases s.len() - i,
{
    if i >= s.len() || i < 0 {
        acc + flush(cur)
    } else if alphanumeric(s[i]) {
        scan(s, i + 1, cur.push(s[i]), acc)
    } else {
        scan(s, i + 1, Seq::empty(), acc + flush(cur))
    }
}

/// The trigrams of a text, in order of appearance, repeats included.
pub open spec fn trigrams(s: Seq<char>) -> Seq<Seq<char>> {
    scan(lower_of(s), 0, Seq::empty(), Seq::empty())
}

/// The elements of `l` without repeats, each where it first occurs.
pub open spec fn distinct(l: Seq<Seq<char>>) -> Seq<Seq<char>>
    decreases l.len(),
{
    if l.len() == 0 {
        l
    } else if distinct(l.drop_last()).contains(l.last()) {
        distinct(l.drop_last())
    } else {
        distinct(l.drop_last()).push(l.last())
    }
}

/// How many elements of `a` occur in `b`.
pub open spec fn shared(a: Seq<Seq<char>>, b: Seq<Seq<char>>) -> nat
    decreases a.len(),
{
    if a.len() == 0 {
        0
    } else {
        shared(a.drop_last(), b) + if b.contains(a.last()) { 1nat } else { 0nat }
    }
}

/// Whether two texts share at least three tenths of their distinct trigrams.
pub open spec fn trigram_similar(a: Seq<char>, b: Seq<char>) -> bool {
    let ta = distinct(trigrams(a));
    let tb = distinct(trigrams(b));
    let c = shared(ta, tb);
    ta.len() > 0 && tb.len() > 0 && 10 * c >= 3 * (ta.len() + tb.len() - c)
}

fn push_word_trigrams(out: &mut Vec<Vec<char>>, w: &Vec<char>)
    ensures
        trigram_list_view(final(out)@) == trigram_list_view(old(out)@) + flush(w@),
{
    if w.len() == 0 {
        assert(trigram_list_view(out@) =~= trigram_list_view(old(out)@) + flush(w@));
        return;
    }
    let mut padded: Vec<char> = vec![' ', ' '];
    let mut i: usize = 0;
    while i < w.len()
        invariant
            i <= w@.len(),
            padded@ == seq![' ', ' '] + w@.take(i as int),
        decreases w@.len() - i,
    {
        padded.push(w[i]);
        i = i + 1;
        assert(padded@ =~= seq![' ', ' '] + w@.take(i as int));
    }
    padded.push(' ');
    assert(w@.take(i as int) =~= w@);
    let ghost full = padded_word(w@);
    assert(padded@ =~= full);
    assert(full.len() == w@.len() + 3);
    let ghost start = trigram_list_view(out@);
    let mut j: usize = 0;
    while j < padded.len() - 2
        invariant
            padded@ == full,
            full == padded_word(w@),
            w@.len() > 0,
            full.len() == w@.len() + 3,
            j <= full.len() - 2,
            trigram_list_view(out@) == start + word_trigrams(w@).take(j as int),
        decreases padded@.len() - j,
    {
        let t = vec![padded[j], padded[j + 1], padded[j + 2]];
        assert(t@ =~= full.subrange(j as int, j as int + 3));
        let ghost wt = word_trigrams(w@);
        assert(wt[j as int] == full.subrange(j as int, j as int + 3));
        assert(wt.take(j as int + 1) =~= wt.take(j as int).push(wt[j as int]));
        let ghost before = out@;
        out.push(t);
        assert(trigram_list_view(out@) =~= trigram_list_view(before).push(wt[j as int]));
        j = j + 1;
        assert(trigram_list_view(out@) =~= start + word_trigrams(w@).take(j as int));
    }
    assert(word_trigrams(w@).take(j as int) =~= word_trigrams(w@));
}

pub open spec fn trigram_list_view(l: Seq<Vec<char>>) -> Seq<Seq<char>> {
    Seq::new(l.len(), |i: int| l[i]@)
}

fn trigrams_of(s: &str) -> (r: Vec<Vec<char>>)
    ensures
        trigram_list_view(r@) == trigrams(s@),
{
    let cs = chars_of(to_lower(s).as_str());
    let mut out: Vec<Vec<char>> = Vec::new();
    let mut cur: Vec<char> = Vec::new();
    let mut i: usize = 0;
    assert(trigram_list_view(out@) =~= Seq::<Seq<char>>::empty());
    while i < cs.len()
        invariant
            i <= cs@.len(),
            cs@ == lower_of(s@),
            trigrams(s@) == scan(cs@, i as int, cur@, trigram_list_view(out@)),
        decreases cs@.len() - i,
    {
        if is_alphanumeric(cs[i]) {
            cur.push(cs[i]);
        } else {
            push_word_trigrams(&mut out, &cur);
            cur = Vec::new();
            assert(cur@ =~= Seq::<char>::empty());
        }
        i = i + 1;
    }
    push_word_trigrams(&mut out, &cur);
    out
}

fn contains_trigram(l: &Vec<Vec<char>>, t: &Vec<char>) -> (r: bool)
    ensures
        r == trigram_list_view(l@).contains(t@),
{
    let mut i: usize = 0;
    while i < l.len()
        invariant
            i <= l@.len(),
            forall|j: int| 0 <= j < i ==> l@[j]@ != t@,
        decreases l@.len() - i,
    {
        if chars_equal(&l[i], t) {
            assert(trigram_list_view(l@)[i as int] == t@);
            return true;
        }
        i = i + 1;
    }
    assert forall|j: int| 0 <= j < trigram_list_view(l@).len() implies trigram_list_view(l@)[j]
        != t@ by {
        assert(l@[j]@ != t@);
    }
    false
}

fn distinct_of(l: &Vec<Vec<char>>) -> (r: Vec<Vec<char>>)
    ensures
        trigram_list_view(r@) == distinct(trigram_list_view(l@)),
{
    let ghost lv = trigram_list_view(l@);
    let mut out: Vec<Vec<char>> = Vec::new();
    let mut i: usize = 0;
    assert(trigram_list_view(out@) =~= distinct(lv.take(0)));
    while i < l.len()
        invariant
            i <= l@.len() == lv.len(),
            lv == trigram_list_view(l@),
            trigram_list_view(out@) == distinct(lv.take(i as int)),
        decreases l@.len() - i,
    {
        assert(lv.take(i as int + 1).drop_last() =~= lv.take(i as int));
        let ghost before = out@;
        if !contains_trigram(&out, &l[i]) {
            out.push(l[i].clone());
            assert(trigram_list_view(out@) =~= trigram_list_view(before).push(lv[i as int]));
        }
        i = i + 1;
    }
    assert(lv.take(i as int) =~= lv);
    out
}

fn shared_count(a: &Vec<Vec<char>>, b: &Vec<Vec<char>>) -> (r: usize)
    ensures
        r == shared(trigram_list_view(a@), trigram_list_view(b@)),
{
    let ghost av = trigram_list_view(a@);
    let mut n: usize = 0;
    let mut i: usize = 0;
    while i < a.len()
        invariant
            i <= a@.len() == av.len(),
            av == trigram_list_view(a@),
            n == shared(av.take(i as int), trigram_list_view(b@)),
            n <= i,
        decreases a@.len() - i,
    {
        assert(av.take(i as int + 1).drop_last() =~= av.take(i as int));
        if contains_trigram(b, &a[i]) {
            n = n + 1;
        }
        i = i + 1;
    }
    assert(av.take(i as int) =~= av);
    n
}

/// Whether two texts are trigram-similar.
pub fn similar(a: &str, b: &str) -> (r: bool)
    ensures
        r == trigram_similar(a@, b@),
{
    let ta = distinct_of(&trigrams_of(a));
    let tb = distinct_of(&trigrams_of(b));
    if ta.len() == 0 || tb.len() == 0 {
        return false;
    }
    let c = shared_count(&ta, &tb);
    proof {
        lemma_shared_bound(trigram_list_view(ta@), trigram_list_view(tb@));
    }
    let c = c as u128;
    10 * c >= 3 * (ta.len() as u128 + tb.len() as u128 - c)
}

proof fn lemma_shared_bound(a: Seq<Seq<char>>, b: Seq<Seq<char>>)
    ensures
        shared(a, b) <= a.len(),
    decreases a.len(),
{
    if a.len() > 0 {
        lemma_shared_bound(a.drop_last(), b);
    }
}

} // verus!
