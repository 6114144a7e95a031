//! The audit trail: structural diffs between two versions of a document, and
//! the history entry that each mutation of an entity produces.
//!
//! The diff is written here rather than taken from a JSON diff crate because
//! the audit record has a shape of its own: every leaf path is reported, a
//! member present on one side only is reported leaf by leaf with its value,
//! and array elements are compared by position. `json_diff_ng`, for one,
//! reports a one-sided member as a single key with no value and aligns
//! sorted arrays by a longest-common-subsequence match, so its paths and
//! values are not the ones recorded here. Written out, the diff also lets
//! the disjointness of the added, changed and removed paths be proved
//! (`lemma_diff_partition`).

use vstd::prelude::*;

use crate::json::{json_equal, JsonValue, JsonV};
use crate::text::{decimal, push_decimal, push_str, string_of};

verus! {

/// One step of a path into a document: a member name or an array position.
#[derive(Debug)]
pub enum PathSegment {
    Key(String),
    Index(usize),
}

/// The mathematical value of a [`PathSegment`].
pub enum SegV {
    Key(Seq<char>),
    Index(nat),
}

impl View for PathSegment {
    type V = SegV;

    open spec fn view(&self) -> SegV {
        match self {
            PathSegment::Key(k) => SegV::Key(k@),
            PathSegment::Index(i) => SegV::Index(*i as nat),
        }
    }
}

/// A path as a sequence of mathematical segments.
pub open spec fn path_view(p: Seq<PathSegment>) -> Seq<SegV> {
    Seq::new(p.len(), |i: int| p[i]@)
}

/// A leaf of a document: the path that reaches it and the value found there.
#[derive(Debug)]
pub struct Leaf {
    pub path: Vec<PathSegment>,
    pub value: JsonValue,
}

/// A leaf as a pair of a mathematical path and value.
pub type LeafV = (Seq<SegV>, JsonV);

impl View for Leaf {
    type V = LeafV;

    open spec fn view(&self) -> LeafV {
        (path_view(self.path@), self.value@)
    }
}

/// A list of leaves as mathematical values.
pub open spec fn leaves_view(ls: Seq<Leaf>) -> Seq<LeafV> {
    Seq::new(ls.len(), |i: int| ls[i]@)
}

/// Every leaf of `ls`, with `p` put in front of its path.
pub open spec fn under(p: Seq<SegV>, ls: Seq<LeafV>) -> Seq<LeafV> {
    Seq::new(ls.len(), |i: int| (p + ls[i].0, ls[i].1))
}

/// The leaves of a document, in document order. Scalars, empty arrays and
/// empty objects are leaves; the document itself is one when it is such a value.
pub open spec fn leaves(v: JsonV) -> Seq<LeafV>
    decreases v, 1int, 0int,
{
    match v {
        JsonV::Array(items) => if items.len() > 0 {
            child_leaves(v, items.len() as int)
        } else {
            seq![(Seq::empty(), v)]
        },
        JsonV::Object(es) => if es.len() > 0 {
            child_leaves(v, es.len() as int)
        } else {
            seq![(Seq::empty(), v)]
        },
        _ => seq![(Seq::empty(), v)],
    }
}

/// The leaves under the first `n` children of an array or object.
pub open spec fn child_leaves(v: JsonV, n: int) -> Seq<LeafV>
    decreases v, 0int, n,
{
    if n <= 0 {
        Seq::empty()
    } else {
        match v {
            JsonV::Array(items) => if n <= items.len() {
                child_leaves(v, n - 1) + under(seq![SegV::Index((n - 1) as nat)], leaves(items[n - 1]))
            } else {
                Seq::empty()
            },
            JsonV::Object(es) => if n <= es.len() {
                child_leaves(v, n - 1) + under(seq![SegV::Key(es[n - 1].0)], leaves(es[n - 1].1))
            } else {
                Seq::empty()
            },
            _ => Seq::empty(),
        }
    }
}

/// The value of the first leaf of `ls` at path `p`.
pub open spec fn leaf_at(ls: Seq<LeafV>, p: Seq<SegV>) -> Option<JsonV>
    decreases ls.len(),
{
    if ls.len() == 0 {
        None
    } else if leaf_at(ls.drop_last(), p) is Some {
        leaf_at(ls.drop_last(), p)
    } else if ls.last().0 == p {
        Some(ls.last().1)
    } else {
        None
    }
}

/// The leaves of `ls` whose path is no leaf path of `other`.
pub open spec fn one_sided(ls: Seq<LeafV>, other: Seq<LeafV>) -> Seq<LeafV>
    decreases ls.len(),
{
    if ls.len() == 0 {
        Seq::empty()
    } else if leaf_at(other, ls.last().0) is None {
        one_sided(ls.drop_last(), other).push(ls.last())
    } else {
        one_sided(ls.drop_last(), other)
    }
}

/// The leaf paths of `olds` that `news` also has with another value, each with
/// the value in `news`.
pub open spec fn changed_leaves(olds: Seq<LeafV>, news: Seq<LeafV>) -> Seq<LeafV>
    decreases olds.len(),
{
    if olds.len() == 0 {
        Seq::empty()
    } else {
        let rest = changed_leaves(olds.drop_last(), news);
        let p = olds.last().0;
        match leaf_at(news, p) {
            Some(w) => if w != olds.last().1 {
                rest.push((p, w))
            } else {
                rest
            },
            None => rest,
        }
    }
}

/// The difference between two versions of a document.
pub struct DiffV {
    pub added: Seq<LeafV>,
    pub changed: Seq<LeafV>,
    pub removed: Seq<LeafV>,
}

/// Leaves only in the new version are added, leaves only in the old one are
/// removed, and leaves in both with different values are changed (with the new value).
pub open spec fn diff(old: JsonV, new: JsonV) -> DiffV {
    DiffV {
        added: one_sided(leaves(new), leaves(old)),
        changed: changed_leaves(leaves(old), leaves(new)),
        removed: one_sided(leaves(old), leaves(new)),
    }
}

proof fn lemma_under_concat(p: Seq<SegV>, a: Seq<LeafV>, b: Seq<LeafV>)
    ensures
        under(p, a + b) == under(p, a) + under(p, b),
{
    assert(under(p, a + b) =~= under(p, a) + under(p, b));
}

proof fn lemma_under_nest(p: Seq<SegV>, s: SegV, ls: Seq<LeafV>)
    ensures
        under(p, under(seq![s], ls)) == under(p.push(s), ls),
{
    assert forall|i: int| 0 <= i < ls.len() implies #[trigger] under(p, under(seq![s], ls))[i]
        == under(p.push(s), ls)[i] by {
        assert(p + (seq![s] + ls[i].0) =~= p.push(s) + ls[i].0);
    }
    assert(under(p, under(seq![s], ls)) =~= under(p.push(s), ls));
}

proof fn lemma_leaf_at_step(ls: Seq<LeafV>, i: int, p: Seq<SegV>)
    requires
        0 <= i < ls.len(),
    ensures
        leaf_at(ls.take(i + 1), p) == (if leaf_at(ls.take(i), p) is Some {
            leaf_at(ls.take(i), p)
        } else if ls[i].0 == p {
            Some(ls[i].1)
        } else {
            None
        }),
        forall|other: Seq<LeafV>|
            #[trigger] one_sided(ls.take(i + 1), other) == (if leaf_at(other, ls[i].0) is None {
                one_sided(ls.take(i), other).push(ls[i])
            } else {
                one_sided(ls.take(i), other)
            }),
        forall|news: Seq<LeafV>|
            #[trigger] changed_leaves(ls.take(i + 1), news) == (match leaf_at(news, ls[i].0) {
                Some(w) => if w != ls[i].1 {
                    changed_leaves(ls.take(i), news).push((ls[i].0, w))
                } else {
                    changed_leaves(ls.take(i), news)
                },
                None => changed_leaves(ls.take(i), news),
            }),
{
    assert(ls.take(i + 1).drop_last() =~= ls.take(i));
}

fn clone_segment(s: &PathSegment) -> (r: PathSegment)
    ensures
        r@ == s@,
{
    match s {
        PathSegment::Key(k) => PathSegment::Key(k.clone()),
        PathSegment::Index(i) => PathSegment::Index(*i),
    }
}

fn clone_path(p: &Vec<PathSegment>) -> (r: Vec<PathSegment>)
    ensures
        path_view(r@) == path_view(p@),
{
    let mut out: Vec<PathSegment> = Vec::new();
    let mut i: usize = 0;
    while i < p.len()
        invariant
            i <= p@.len(),
            out@.len() == i,
            forall|j: int| 0 <= j < i ==> #[trigger] out@[j]@ == p@[j]@,
        decreases p@.len() - i,
    {
        out.push(clone_segment(&p[i]));
        i = i + 1;
    }
    assert(path_view(out@) =~= path_view(p@));
    out
}

fn segment_equal(a: &PathSegment, b: &PathSegment) -> (r: bool)
    ensures
        r == (a@ == b@),
{
    match (a, b) {
        (PathSegment::Key(x), PathSegment::Key(y)) => *x == *y,
        (PathSegment::Index(x), PathSegment::Index(y)) => *x == *y,
        _ => false,
    }
}

fn path_equal(a: &Vec<PathSegment>, b: &Vec<PathSegment>) -> (r: bool)
    ensures
        r == (path_view(a@) == path_view(b@)),
{
    if a.len() != b.len() {
        assert(path_view(a@).len() != path_view(b@).len());
        return false;
    }
    let mut i: usize = 0;
    while i < a.len()
        invariant
            i <= a@.len() == b@.len(),
            forall|j: int| 0 <= j < i ==> #[trigger] a@[j]@ == b@[j]@,
        decreases a@.len() - i,
    {
        if !segment_equal(&a[i], &b[i]) {
            assert(path_view(a@)[i as int] != path_view(b@)[i as int]);
            return false;
        }
        i = i + 1;
    }
    assert(path_view(a@) =~= path_view(b@));
    true
}

fn clone_leaf(l: &Leaf) -> (r: Leaf)
    ensures
        r@ == l@,
{
    Leaf { path: clone_path(&l.path), value: l.value.deep_clone() }
}

/// The first leaf of `ls` at the path `p`.
fn find_leaf<'a>(ls: &'a Vec<Leaf>, p: &Vec<PathSegment>) -> (r: Option<&'a Leaf>)
    ensures
        r is Some <==> leaf_at(leaves_view(ls@), path_view(p@)) is Some,
        r is Some ==> r->0@.1 == leaf_at(leaves_view(ls@), path_view(p@))->0,
        r is Some ==> r->0@.0 == path_view(p@),
{
    let ghost lv = leaves_view(ls@);
    let mut i: usize = 0;
    while i < ls.len()
        invariant
            i <= ls@.len() == lv.len(),
            lv == leaves_view(ls@),
            leaf_at(lv.take(i as int), path_view(p@)) is None,
        decreases ls@.len() - i,
    {
        proof {
            lemma_leaf_at_step(lv, i as int, path_view(p@));
        }
        if path_equal(&ls[i].path, p) {
            assert(lv.take(ls@.len() as int) =~= lv);
            proof {
                lemma_leaf_at_prefix(lv, i as int + 1, path_view(p@));
            }
            return Some(&ls[i]);
        }
        i = i + 1;
    }
    assert(lv.take(i as int) =~= lv);
    None
}

/// A first leaf found within a prefix of a list stays the first one.
proof fn lemma_leaf_at_prefix(ls: Seq<LeafV>, n: int, p: Seq<SegV>)
    requires
        0 <= n <= ls.len(),
        leaf_at(ls.take(n), p) is Some,
    ensures
        leaf_at(ls, p) == leaf_at(ls.take(n), p),
    decreases ls.len() - n,
{
    if n < ls.len() {
        lemma_leaf_at_step(ls, n, p);
        lemma_leaf_at_prefix(ls, n + 1, p);
    } else {
        assert(ls.take(n) =~= ls);
    }
}

/// Appends the leaves of `v` to `out`, each under the path `prefix`.
fn collect_leaves(v: &JsonValue, prefix: &Vec<PathSegment>, out: &mut Vec<Leaf>)
    ensures
        leaves_view(final(out)@) == leaves_view(old(out)@) + under(
            path_view(prefix@),
            leaves(v@),
        ),
    decreases v,
{
    let ghost p = path_view(prefix@);
    let ghost out0 = leaves_view(out@);
    match v {
        JsonValue::Array(items) if items.len() > 0 => {
            let mut i: usize = 0;
            assert(child_leaves(v@, 0) =~= Seq::<LeafV>::empty());
            assert(under(p, Seq::<LeafV>::empty()) =~= Seq::<LeafV>::empty());
            assert(leaves_view(out@) =~= out0 + under(p, child_leaves(v@, 0)));
            while i < items.len()
                invariant
                    i <= items@.len(),
                    *v == JsonValue::Array(*items),
                    p == path_view(prefix@),
                    leaves_view(out@) == out0 + under(p, child_leaves(v@, i as int)),
                decreases items@.len() - i,
            {
                let ghost before = leaves_view(out@);
                let mut child_path = clone_path(prefix);
                child_path.push(PathSegment::Index(i));
                assert(path_view(child_path@) =~= p.push(SegV::Index(i as nat)));
                proof {
                    assert(decreases_to!(*v => items[i as int]));
                }
                collect_leaves(&items[i], &child_path, out);
                proof {
                    let seg = SegV::Index(i as nat);
                    let child = leaves(items[i as int]@);
                    assert(v@->Array_0[i as int] == items[i as int]@);
                    lemma_under_nest(p, seg, child);
                    lemma_under_concat(p, child_leaves(v@, i as int), under(seq![seg], child));
                    assert(leaves_view(out@) =~= before + under(p.push(seg), child));
                }
                i = i + 1;
            }
        },
        JsonValue::Object(members) if members.len() > 0 => {
            let mut i: usize = 0;
            assert(child_leaves(v@, 0) =~= Seq::<LeafV>::empty());
            assert(under(p, Seq::<LeafV>::empty()) =~= Seq::<LeafV>::empty());
            assert(leaves_view(out@) =~= out0 + under(p, child_leaves(v@, 0)));
            while i < members.len()
                invariant
                    i <= members@.len(),
                    *v == JsonValue::Object(*members),
                    p == path_view(prefix@),
                    leaves_view(out@) == out0 + under(p, child_leaves(v@, i as int)),
                decreases members@.len() - i,
            {
                let ghost before = leaves_view(out@);
                let mut child_path = clone_path(prefix);
                child_path.push(PathSegment::Key(members[i].0.clone()));
                assert(path_view(child_path@) =~= p.push(SegV::Key(members[i as int].0@)));
                proof {
                    assert(decreases_to!(*v => members[i as int].1));
                }
                collect_leaves(&members[i].1, &child_path, out);
                proof {
                    let seg = SegV::Key(members[i as int].0@);
                    let child = leaves(members[i as int].1@);
                    assert(v@->Object_0[i as int] == (members[i as int].0@, members[i as int].1@));
                    lemma_under_nest(p, seg, child);
                    lemma_under_concat(p, child_leaves(v@, i as int), under(seq![seg], child));
                    assert(leaves_view(out@) =~= before + under(p.push(seg), child));
                }
                i = i + 1;
            }
        },
        _ => {
            let leaf = Leaf { path: clone_path(prefix), value: v.deep_clone() };
            out.push(leaf);
            assert(p + Seq::<SegV>::empty() =~= p);
            assert(leaves_view(out@) =~= out0 + under(p, leaves(v@)));
        },
    }
}

/// The leaves of a document, each with its full path.
pub fn leaves_of(v: &JsonValue) -> (r: Vec<Leaf>)
    ensures
        leaves_view(r@) == leaves(v@),
{
    let prefix: Vec<PathSegment> = Vec::new();
    let mut out: Vec<Leaf> = Vec::new();
    collect_leaves(v, &prefix, &mut out);
    assert(path_view(Seq::<PathSegment>::empty()) =~= Seq::<SegV>::empty());
    assert forall|i: int| 0 <= i < leaves(v@).len() implies #[trigger] under(
        Seq::<SegV>::empty(),
        leaves(v@),
    )[i] == leaves(v@)[i] by {
        assert(Seq::<SegV>::empty() + leaves(v@)[i].0 =~= leaves(v@)[i].0);
    }
    assert(leaves_view(Seq::<Leaf>::empty()) =~= Seq::<LeafV>::empty());
    assert(under(Seq::<SegV>::empty(), leaves(v@)) =~= leaves(v@));
    assert(leaves_view(out@) =~= leaves(v@));
    out
}

/// The difference between two versions of a document.
#[derive(Debug)]
pub struct Diff {
    pub added: Vec<Leaf>,
    pub changed: Vec<Leaf>,
    pub removed: Vec<Leaf>,
}

impl View for Diff {
    type V = DiffV;

    open spec fn view(&self) -> DiffV {
        DiffV {
            added: leaves_view(self.added@),
            changed: leaves_view(self.changed@),
            removed: leaves_view(self.removed@),
        }
    }
}

/// The leaves of `ls` whose path `other` lacks.
fn leaves_missing_from(ls: &Vec<Leaf>, other: &Vec<Leaf>) -> (r: Vec<Leaf>)
    ensures
        leaves_view(r@) == one_sided(leaves_view(ls@), leaves_view(other@)),
{
    let ghost lv = leaves_view(ls@);
    let ghost ov = leaves_view(other@);
    let mut out: Vec<Leaf> = Vec::new();
    let mut i: usize = 0;
    assert(leaves_view(out@) =~= one_sided(lv.take(0), ov));
    while i < ls.len()
        invariant
            i <= ls@.len() == lv.len(),
            lv == leaves_view(ls@),
            ov == leaves_view(other@),
            leaves_view(out@) == one_sided(lv.take(i as int), ov),
        decreases ls@.len() - i,
    {
        proof {
            lemma_leaf_at_step(lv, i as int, lv[i as int].0);
        }
        let ghost before = leaves_view(out@);
        if find_leaf(other, &ls[i].path).is_none() {
            out.push(clone_leaf(&ls[i]));
            assert(leaves_view(out@) =~= before.push(lv[i as int]));
        }
        i = i + 1;
    }
    assert(lv.take(i as int) =~= lv);
    out
}

/// The leaves of `olds` that `news` holds with another value, with that value.
fn leaves_changed(olds: &Vec<Leaf>, news: &Vec<Leaf>) -> (r: Vec<Leaf>)
    ensures
        leaves_view(r@) == changed_leaves(leaves_view(olds@), leaves_view(news@)),
{
    let ghost lv = leaves_view(olds@);
    let ghost nv = leaves_view(news@);
    let mut out: Vec<Leaf> = Vec::new();
    let mut i: usize = 0;
    assert(leaves_view(out@) =~= changed_leaves(lv.take(0), nv));
    while i < olds.len()
        invariant
            i <= olds@.len() == lv.len(),
            lv == leaves_view(olds@),
            nv == leaves_view(news@),
            leaves_view(out@) == changed_leaves(lv.take(i as int), nv),
        decreases olds@.len() - i,
    {
        proof {
            lemma_leaf_at_step(lv, i as int, lv[i as int].0);
        }
        let ghost before = leaves_view(out@);
        match find_leaf(news, &olds[i].path) {
            Some(w) => {
                if !json_equal(&w.value, &olds[i].value) {
                    out.push(clone_leaf(w));
                    assert(leaves_view(out@) =~= before.push((lv[i as int].0, w@.1)));
                }
            },
            None => {},
        }
        i = i + 1;
    }
    assert(lv.take(i as int) =~= lv);
    out
}

/// The structural difference between `old` and `new`.
pub fn compute_diff(old: &JsonValue, new: &JsonValue) -> (r: Diff)
    ensures
        r@ == diff(old@, new@),
{
    let olds = leaves_of(old);
    let news = leaves_of(new);
    let added = leaves_missing_from(&news, &olds);
    let changed = leaves_changed(&olds, &news);
    let removed = leaves_missing_from(&olds, &news);
    Diff { added, changed, removed }
}

/// The text of one path segment: a member name as it is, a position as `[i]`.
pub open spec fn segment_text(s: SegV) -> Seq<char> {
    match s {
        SegV::Key(k) => k,
        SegV::Index(i) => seq!['['] + decimal(i) + seq![']'],
    }
}

/// The text of a path: its segments joined by dots.
pub open spec fn path_text(p: Seq<SegV>) -> Seq<char>
    decreases p.len(),
{
    if p.len() == 0 {
        Seq::empty()
    } else if p.len() == 1 {
        segment_text(p[0])
    } else {
        path_text(p.drop_last()) + seq!['.'] + segment_text(p.last())
    }
}

/// The dotted text of a path, such as `name.[0].given`.
pub fn path_to_string(elements: &Vec<PathSegment>) -> (r: String)
    ensures
        r@ == path_text(path_view(elements@)),
{
    let ghost pv = path_view(elements@);
    let mut out: Vec<char> = Vec::new();
    let mut i: usize = 0;
    while i < elements.len()
        invariant
            i <= elements@.len() == pv.len(),
            pv == path_view(elements@),
            out@ == path_text(pv.take(i as int)),
        decreases elements@.len() - i,
    {
        let ghost before = out@;
        if i > 0 {
            out.push('.');
        }
        match &elements[i] {
            PathSegment::Key(k) => push_str(&mut out, k.as_str()),
            PathSegment::Index(n) => {
                out.push('[');
                push_decimal(&mut out, *n);
                out.push(']');
            },
        }
        proof {
            let t = pv.take(i as int + 1);
            assert(t.drop_last() =~= pv.take(i as int));
            assert(t.last() == pv[i as int]);
            if i == 0 {
                assert(out@ =~= segment_text(pv[0]));
            } else {
                assert(out@ =~= before + seq!['.'] + segment_text(pv[i as int]));
            }
        }
        i = i + 1;
    }
    assert(pv.take(i as int) =~= pv);
    string_of(&out)
}

/// The leaves as one object that maps each path's text to the leaf's value.
pub open spec fn leaves_object(ls: Seq<LeafV>) -> JsonV {
    JsonV::Object(Seq::new(ls.len(), |i: int| (path_text(ls[i].0), ls[i].1)))
}

/// The leaves as one object from each path's text to the leaf's value.
pub fn leaves_to_object(ls: &Vec<Leaf>) -> (r: JsonValue)
    ensures
        r@ == leaves_object(leaves_view(ls@)),
{
    let mut out: Vec<(String, JsonValue)> = Vec::new();
    let mut i: usize = 0;
    while i < ls.len()
        invariant
            i <= ls@.len(),
            out@.len() == i,
            forall|j: int|
                0 <= j < i ==> #[trigger] out[j].0@ == path_text(ls[j]@.0) && out[j].1@ == ls[j]@.1,
        decreases ls@.len() - i,
    {
        out.push((path_to_string(&ls[i].path), ls[i].value.deep_clone()));
        i = i + 1;
    }
    let r = JsonValue::Object(out);
    assert forall|j: int| 0 <= j < ls@.len() implies r@->Object_0[j] == leaves_object(
        leaves_view(ls@),
    )->Object_0[j] by {
        assert(out[j].0@ == path_text(ls[j]@.0));
    }
    assert(r@->Object_0 =~= leaves_object(leaves_view(ls@))->Object_0);
    r
}

/// What one mutation of an entity leaves in its history.
#[derive(Debug)]
pub enum Change {
    /// The document as it was inserted.
    Insert(JsonValue),
    /// What an update added, changed and removed.
    Update(Diff),
    /// The document as it was when deleted.
    Delete(JsonValue),
}

/// The mathematical value of a [`Change`].
pub enum ChangeV {
    Insert(JsonV),
    Update(DiffV),
    Delete(JsonV),
}

impl View for Change {
    type V = ChangeV;

    open spec fn view(&self) -> ChangeV {
        match self {
            Change::Insert(d) => ChangeV::Insert(d@),
            Change::Update(d) => ChangeV::Update(d@),
            Change::Delete(d) => ChangeV::Delete(d@),
        }
    }
}

/// What a row mutation records: an insert (no old row) and a delete (no new
/// row) record the document whole; an update records its diff, and nothing
/// when the document did not change; with neither row nothing is recorded.
pub open spec fn logged_change(old: Option<JsonV>, new: Option<JsonV>) -> Option<ChangeV> {
    match (old, new) {
        (None, Some(n)) => Some(ChangeV::Insert(n)),
        (Some(o), Some(n)) => if o == n {
            None
        } else {
            Some(ChangeV::Update(diff(o, n)))
        },
        (Some(o), None) => Some(ChangeV::Delete(o)),
        (None, None) => None,
    }
}

/// The view of a document that may be absent.
pub open spec fn opt_view(d: Option<&JsonValue>) -> Option<JsonV> {
    match d {
        Some(j) => Some(j@),
        None => None,
    }
}

/// The history record for one mutation of an entity's document, from the
/// document before (`None` for an insert) and after (`None` for a delete).
pub fn fhir_log_entity_history(old: Option<&JsonValue>, new: Option<&JsonValue>) -> (r: Option<Change>)
    ensures
        r matches Some(c) ==> logged_change(opt_view(old), opt_view(new)) == Some(c@),
        r is None ==> logged_change(opt_view(old), opt_view(new)) is None,
{
    match (old, new) {
        (None, Some(n)) => Some(Change::Insert(n.deep_clone())),
        (Some(o), Some(n)) => {
            if json_equal(o, n) {
                None
            } else {
                Some(Change::Update(compute_diff(o, n)))
            }
        },
        (Some(o), None) => Some(Change::Delete(o.deep_clone())),
        (None, None) => None,
    }
}

proof fn lemma_leaf_at_member(ls: Seq<LeafV>, i: int)
    requires
        0 <= i < ls.len(),
    ensures
        leaf_at(ls, ls[i].0) is Some,
    decreases ls.len(),
{
    if i < ls.len() - 1 {
        lemma_leaf_at_member(ls.drop_last(), i);
    }
}

proof fn lemma_one_sided_members(ls: Seq<LeafV>, other: Seq<LeafV>, i: int)
    requires
        0 <= i < one_sided(ls, other).len(),
    ensures
        leaf_at(other, one_sided(ls, other)[i].0) is None,
        leaf_at(ls, one_sided(ls, other)[i].0) is Some,
    decreases ls.len(),
{
    let rest = one_sided(ls.drop_last(), other);
    if leaf_at(other, ls.last().0) is None && i == rest.len() {
        lemma_leaf_at_member(ls, ls.len() - 1);
    } else {
        lemma_one_sided_members(ls.drop_last(), other, i);
    }
}

proof fn lemma_changed_members(olds: Seq<LeafV>, news: Seq<LeafV>, i: int)
    requires
        0 <= i < changed_leaves(olds, news).len(),
    ensures
        leaf_at(olds, changed_leaves(olds, news)[i].0) is Some,
        leaf_at(news, changed_leaves(olds, news)[i].0) is Some,
    decreases olds.len(),
{
    let rest = changed_leaves(olds.drop_last(), news);
    if i == rest.len() {
        lemma_leaf_at_member(olds, olds.len() - 1);
    } else {
        lemma_changed_members(olds.drop_last(), news, i);
    }
}

/// The leaf paths of an update's diff fall into three disjoint sets: no path
/// is at once added and changed, added and removed, or changed and removed.
pub proof fn lemma_diff_partition(old: JsonV, new: JsonV)
    ensures
        forall|i: int, j: int|
            0 <= i < diff(old, new).added.len() && 0 <= j < diff(old, new).changed.len()
                ==> #[trigger] diff(old, new).added[i].0 != #[trigger] diff(old, new).changed[j].0,
        forall|i: int, j: int|
            0 <= i < diff(old, new).added.len() && 0 <= j < diff(old, new).removed.len()
                ==> #[trigger] diff(old, new).added[i].0 != #[trigger] diff(old, new).removed[j].0,
        forall|i: int, j: int|
            0 <= i < diff(old, new).changed.len() && 0 <= j < diff(old, new).removed.len()
                ==> #[trigger] diff(old, new).changed[i].0 != #[trigger] diff(old, new).removed[j].0,
{
    let d = diff(old, new);
    let lo = leaves(old);
    let ln = leaves(new);
    assert forall|i: int, j: int|
        0 <= i < d.added.len() && 0 <= j < d.changed.len() implies #[trigger] d.added[i].0
        != #[trigger] d.changed[j].0 by {
        lemma_one_sided_members(ln, lo, i);
        lemma_changed_members(lo, ln, j);
    }
    assert forall|i: int, j: int|
        0 <= i < d.added.len() && 0 <= j < d.removed.len() implies #[trigger] d.added[i].0
        != #[trigger] d.removed[j].0 by {
        lemma_one_sided_members(ln, lo, i);
        lemma_one_sided_members(lo, ln, j);
    }
    assert forall|i: int, j: int|
        0 <= i < d.changed.len() && 0 <= j < d.removed.len() implies #[trigger] d.changed[i].0
        != #[trigger] d.removed[j].0 by {
        lemma_changed_members(lo, ln, i);
        lemma_one_sided_members(lo, ln, j);
    }
}

} // verus!
