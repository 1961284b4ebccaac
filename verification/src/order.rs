//! Sorting: the order of texts and a verified insertion sort.

use vstd::prelude::*;
use vstd::multiset::Multiset;
use crate::text::chars_of;

verus! {

broadcast use vstd::seq_lib::group_to_multiset_ensures;

/// A total preorder on a type, decided by `precedes`.
pub trait Ordered: Sized {
    /// `self` comes no later than `other`.
    spec fn before(&self, other: &Self) -> bool;

    /// Any two values are ordered one way or the other.
    proof fn lemma_total(a: &Self, b: &Self)
        ensures
            a.before(b) || b.before(a),
    ;

    /// The order is transitive.
    proof fn lemma_transitive(a: &Self, b: &Self, c: &Self)
        requires
            a.before(b),
            b.before(c),
        ensures
            a.before(c),
    ;

    /// Decides `before`.
    fn precedes(&self, other: &Self) -> (r: bool)
        ensures
            r == self.before(other),
    ;
}

/// The elements of `s` are in order.
pub open spec fn sorted<T: Ordered>(s: Seq<T>) -> bool {
    forall|i: int, j: int| 0 <= i < j < s.len() ==> #[trigger] s[i].before(&s[j])
}

/// Lexicographic order of character sequences by code point, which for
/// strings is the order of their UTF-8 bytes (`Ord for str`).
pub open spec fn text_le(a: Seq<char>, b: Seq<char>) -> bool
    decreases a.len(),
{
    if a.len() == 0 {
        true
    } else if b.len() == 0 {
        false
    } else if a[0] != b[0] {
        a[0] < b[0]
    } else {
        text_le(a.drop_first(), b.drop_first())
    }
}

/// `text_le` is total.
pub proof fn lemma_text_le_total(a: Seq<char>, b: Seq<char>)
    ensures
        text_le(a, b) || text_le(b, a),
    decreases a.len(),
{
    if a.len() > 0 && b.len() > 0 && a[0] == b[0] {
        lemma_text_le_total(a.drop_first(), b.drop_first());
    } else if a.len() > 0 && b.len() > 0 {

    }
}

/// `text_le` is transitive.
pub proof fn lemma_text_le_transitive(a: Seq<char>, b: Seq<char>, c: Seq<char>)
    requires
        text_le(a, b),
        text_le(b, c),
    ensures
        text_le(a, c),
    decreases a.len(),
{
    if a.len() > 0 && b.len() > 0 && c.len() > 0 && a[0] == b[0] && b[0] == c[0] {
        lemma_text_le_transitive(a.drop_first(), b.drop_first(), c.drop_first());
    }
}

/// `text_le` is antisymmetric: texts each no later than the other are equal.
pub proof fn lemma_text_le_antisymmetric(a: Seq<char>, b: Seq<char>)
    requires
        text_le(a, b),
        text_le(b, a),
    ensures
        a == b,
    decreases a.len(),
{
    if a.len() > 0 && b.len() > 0 {
        if a[0] == b[0] {
            lemma_text_le_antisymmetric(a.drop_first(), b.drop_first());
            assert(a =~= seq![a[0]] + a.drop_first());
            assert(b =~= seq![b[0]] + b.drop_first());
        }
    } else {
        assert(a.len() == 0 && b.len() == 0);
        assert(a =~= b);
    }
}

/// Decides `text_le` on character vectors from position `k` on.
fn chars_le(a: &Vec<char>, b: &Vec<char>) -> (r: bool)
    ensures
        r == text_le(a@, b@),
{
    let mut k: usize = 0;
    assert(a@.skip(0) =~= a@);
    assert(b@.skip(0) =~= b@);
    while k < a.len() && k < b.len() && a[k] == b[k]
        invariant
            k <= a.len(),
            k <= b.len(),
            text_le(a@, b@) == text_le(a@.skip(k as int), b@.skip(k as int)),
        decreases a.len() - k,
    {
        assert(a@.skip(k as int).drop_first() =~= a@.skip(k + 1));
        assert(b@.skip(k as int).drop_first() =~= b@.skip(k + 1));
        k = k + 1;
    }
    if k == a.len() {
        true
    } else if k == b.len() {
        false
    } else {
        assert(a@.skip(k as int)[0] == a@[k as int]);
        assert(b@.skip(k as int)[0] == b@[k as int]);
        a[k] < b[k]
    }
}

/// Decides `text_le` on strings.
pub fn str_le(a: &str, b: &str) -> (r: bool)
    ensures
        r == text_le(a@, b@),
{
    let av = chars_of(a);
    let bv = chars_of(b);
    chars_le(&av, &bv)
}

impl Ordered for String {
    open spec fn before(&self, other: &Self) -> bool {
        text_le(self@, other@)
    }

    proof fn lemma_total(a: &Self, b: &Self) {
        lemma_text_le_total(a@, b@);
    }

    proof fn lemma_transitive(a: &Self, b: &Self, c: &Self) {
        lemma_text_le_transitive(a@, b@, c@);
    }

    fn precedes(&self, other: &Self) -> (r: bool) {
        str_le(self.as_str(), other.as_str())
    }
}

/// Where `x` goes in the sorted `out`: after every element that precedes it.
fn insertion_point<T: Ordered>(out: &Vec<T>, x: &T) -> (p: usize)
    requires
        sorted(out@),
    ensures
        p <= out@.len(),
        forall|k: int| 0 <= k < p ==> out@[k].before(x),
        forall|k: int| p <= k < out@.len() ==> x.before(&out@[k]),
{
    let mut p: usize = 0;
    while p < out.len() && out[p].precedes(x)
        invariant
            p <= out@.len(),
            forall|k: int| 0 <= k < p ==> out@[k].before(x),
        decreases out.len() - p,
    {
        p = p + 1;
    }
    proof {
        if p < out@.len() {
            T::lemma_total(&out@[p as int], x);
            assert forall|k: int| p <= k < out@.len() implies x.before(&out@[k]) by {
                if k > p {
                    assert(out@[p as int].before(&out@[k]));
                    T::lemma_transitive(x, &out@[p as int], &out@[k]);
                }
            }
        }
    }
    p
}

/// Sorts `v` into the order of `T` (insertion sort). The result holds the
/// same elements, in order.
pub fn sort_ordered<T: Ordered>(v: Vec<T>) -> (r: Vec<T>)
    ensures
        sorted(r@),
        r@.to_multiset() == v@.to_multiset(),
{
    let ghost all = v@.to_multiset();
    let mut rest = v;
    let mut out: Vec<T> = Vec::new();
    assert(out@ =~= Seq::<T>::empty());
    assert(out@.to_multiset() =~= Multiset::<T>::empty());
    assert(out@.to_multiset().add(rest@.to_multiset()) =~= all);
    while rest.len() > 0
        invariant
            sorted(out@),
            out@.to_multiset().add(rest@.to_multiset()) == all,
        decreases rest.len(),
    {
        let ghost before_rest = rest@;
        let x = rest.pop().unwrap();
        proof {
            assert(before_rest =~= rest@.push(x));
        }
        let p = insertion_point(&out, &x);
        let ghost before_out = out@;
        out.insert(p, x);
        proof {
            assert(out@ =~= before_out.insert(p as int, x));
            assert forall|i: int, j: int| 0 <= i < j < out@.len() implies #[trigger] out@[i].before(
                &out@[j],
            ) by {
                if j < p {
                } else if i < p && j == p {
                } else if i < p && j > p {
                    assert(before_out[i].before(&x));
                    assert(x.before(&before_out[j - 1]));
                    T::lemma_transitive(&before_out[i], &x, &before_out[j - 1]);
                } else if i == p {
                } else {
                    assert(before_out[i - 1].before(&before_out[j - 1]));
                }
            }
            assert(out@.to_multiset() =~= before_out.to_multiset().insert(x));
            assert(before_rest.to_multiset() =~= rest@.to_multiset().insert(x));
            assert(out@.to_multiset().add(rest@.to_multiset()) =~= before_out.to_multiset().add(
                before_rest.to_multiset(),
            ));
        }
    }
    assert(rest@ =~= Seq::<T>::empty());
    assert(rest@.to_multiset() =~= Multiset::<T>::empty());
    assert(out@.to_multiset().add(rest@.to_multiset()) =~= out@.to_multiset());
    out
}

// ---------------------------------------------------------------------------
// Paths
// ---------------------------------------------------------------------------

/// A component of a Unix path (`std::path::Component`, without prefixes).
pub enum PathPart {
    Root,
    Current,
    Parent,
    Normal(Seq<char>),
}

/// The kinds of components in the order `std::path::Component` sorts them.
pub open spec fn part_rank(p: PathPart) -> int {
    match p {
        PathPart::Root => 1,
        PathPart::Current => 2,
        PathPart::Parent => 3,
        PathPart::Normal(_) => 4,
    }
}

/// The order of components: by kind, then names by `text_le`.
pub open spec fn part_le(a: PathPart, b: PathPart) -> bool {
    part_rank(a) < part_rank(b) || (part_rank(a) == part_rank(b) && match (a, b) {
        (PathPart::Normal(x), PathPart::Normal(y)) => text_le(x, y),
        _ => true,
    })
}

/// The segments of `s` between slashes (empty ones included).
pub open spec fn segments(s: Seq<char>) -> Seq<Seq<char>>
    decreases s.len(),
{
    let k = crate::text::index_of(s, '/');
    if k < s.len() {
        seq![s.take(k as int)] + segments(s.skip(k as int + 1))
    } else {
        seq![s]
    }
}

/// The components that segments stand for: empty and `.` segments stand for
/// nothing, `..` for the parent, any other for itself.
pub open spec fn segment_parts(segs: Seq<Seq<char>>) -> Seq<PathPart>
    decreases segs.len(),
{
    if segs.len() == 0 {
        seq![]
    } else {
        let g = segs[0];
        let rest = segment_parts(segs.drop_first());
        if g.len() == 0 || g == seq!['.'] {
            rest
        } else if g == seq!['.', '.'] {
            seq![PathPart::Parent] + rest
        } else {
            seq![PathPart::Normal(g)] + rest
        }
    }
}

/// The components of a Unix path as `Path::components` yields them: the
/// root for a leading slash, the current directory for a leading `./` (or
/// `.` alone) of a relative path, then the named segments.
pub open spec fn components(s: Seq<char>) -> Seq<PathPart> {
    let rooted = s.len() > 0 && s[0] == '/';
    let current = !rooted && s.len() > 0 && s[0] == '.' && (s.len() == 1 || s[1] == '/');
    (if rooted {
        seq![PathPart::Root]
    } else {
        seq![]
    }) + (if current {
        seq![PathPart::Current]
    } else {
        seq![]
    }) + segment_parts(segments(s))
}

/// Lexicographic order of component sequences.
pub open spec fn parts_le(x: Seq<PathPart>, y: Seq<PathPart>) -> bool
    decreases x.len(),
{
    if x.len() == 0 {
        true
    } else if y.len() == 0 {
        false
    } else if x[0] == y[0] {
        parts_le(x.drop_first(), y.drop_first())
    } else {
        part_le(x[0], y[0])
    }
}

/// The order of paths (`Ord for Path`): component by component.
pub open spec fn path_le(a: Seq<char>, b: Seq<char>) -> bool {
    parts_le(components(a), components(b))
}

proof fn lemma_part_le_total(a: PathPart, b: PathPart)
    ensures
        part_le(a, b) || part_le(b, a),
{
    match (a, b) {
        (PathPart::Normal(x), PathPart::Normal(y)) => lemma_text_le_total(x, y),
        _ => {},
    }
}

proof fn lemma_part_le_transitive(a: PathPart, b: PathPart, c: PathPart)
    requires
        part_le(a, b),
        part_le(b, c),
    ensures
        part_le(a, c),
{
    match (a, b, c) {
        (PathPart::Normal(x), PathPart::Normal(y), PathPart::Normal(z)) => lemma_text_le_transitive(
            x,
            y,
            z,
        ),
        _ => {},
    }
}

proof fn lemma_part_le_antisymmetric(a: PathPart, b: PathPart)
    requires
        part_le(a, b),
        part_le(b, a),
    ensures
        a == b,
{
    match (a, b) {
        (PathPart::Normal(x), PathPart::Normal(y)) => lemma_text_le_antisymmetric(x, y),
        _ => {},
    }
}

/// `parts_le` is total.
pub proof fn lemma_parts_le_total(x: Seq<PathPart>, y: Seq<PathPart>)
    ensures
        parts_le(x, y) || parts_le(y, x),
    decreases x.len(),
{
    if x.len() > 0 && y.len() > 0 {
        if x[0] == y[0] {
            lemma_parts_le_total(x.drop_first(), y.drop_first());
        } else {
            lemma_part_le_total(x[0], y[0]);
        }
    }
}

/// `parts_le` is transitive.
pub proof fn lemma_parts_le_transitive(x: Seq<PathPart>, y: Seq<PathPart>, z: Seq<PathPart>)
    requires
        parts_le(x, y),
        parts_le(y, z),
    ensures
        parts_le(x, z),
    decreases x.len(),
{
    if x.len() > 0 && y.len() > 0 && z.len() > 0 {
        if x[0] == y[0] && y[0] == z[0] {
            lemma_parts_le_transitive(x.drop_first(), y.drop_first(), z.drop_first());
        } else if x[0] != y[0] && y[0] != z[0] {
            lemma_part_le_transitive(x[0], y[0], z[0]);
            if x[0] == z[0] {
                lemma_part_le_antisymmetric(x[0], y[0]);
            }
        }
    }
}

/// A path component as computed: its kind (`part_rank`) and, for a named
/// component, its name.
pub struct PartKey {
    pub rank: u8,
    pub name: Vec<char>,
}

/// The component a computed key stands for.
pub open spec fn key_part(k: PartKey) -> PathPart {
    if k.rank == 1 {
        PathPart::Root
    } else if k.rank == 2 {
        PathPart::Current
    } else if k.rank == 3 {
        PathPart::Parent
    } else {
        PathPart::Normal(k.name@)
    }
}

/// The components computed keys stand for.
pub open spec fn key_parts(ks: Seq<PartKey>) -> Seq<PathPart> {
    ks.map_values(|k: PartKey| key_part(k))
}

/// The computed key of one segment, if it stands for a component.
fn segment_key(g: Vec<char>) -> (r: Option<PartKey>)
    ensures
        segment_parts(seq![g@]) == match r {
            Some(k) => seq![key_part(k)],
            None => Seq::<PathPart>::empty(),
        },
        r matches Some(k) ==> 1 <= k.rank <= 4 && (k.rank == 4 <==> key_part(k) is Normal),
{
    let ghost gs = seq![g@];
    assert(gs.drop_first() =~= Seq::<Seq<char>>::empty());
    assert(segment_parts(Seq::<Seq<char>>::empty()) =~= Seq::<PathPart>::empty());
    assert(gs[0] == g@);
    if g.len() == 0 {
        return None;
    }
    if g.len() == 1 && g[0] == '.' {
        assert(g@ =~= seq!['.']);
        return None;
    }
    if g.len() == 2 && g[0] == '.' && g[1] == '.' {
        assert(g@ =~= seq!['.', '.']);
        return Some(PartKey { rank: 3, name: Vec::new() });
    }
    proof {
        if g@ == seq!['.'] {
            assert(g@.len() == 1 && g@[0] == '.');
        }
        if g@ == seq!['.', '.'] {
            assert(g@.len() == 2 && g@[0] == '.' && g@[1] == '.');
        }
    }
    Some(PartKey { rank: 4, name: g })
}

proof fn lemma_segments_step(s: Seq<char>, from: int, i: int)
    requires
        0 <= from <= i < s.len(),
        s[i] == '/',
        forall|k: int| from <= k < i ==> s[k] != '/',
    ensures
        segments(s.skip(from)) == seq![s.subrange(from, i)] + segments(s.skip(i + 1)),
{
    let t = s.skip(from);
    assert forall|k: int| 0 <= k < i - from implies t[k] != '/' by {
        assert(t[k] == s[k + from]);
    }
    assert(t[i - from] == s[i]);
    crate::text::lemma_index_of_unique(t, '/', i - from);
    assert(t.take(i - from) =~= s.subrange(from, i));
    assert(t.skip(i - from + 1) =~= s.skip(i + 1));
}

proof fn lemma_segments_last(s: Seq<char>, from: int)
    requires
        0 <= from <= s.len(),
        forall|k: int| from <= k < s.len() ==> s[k] != '/',
    ensures
        segments(s.skip(from)) == seq![s.skip(from)],
{
    let t = s.skip(from);
    assert forall|k: int| 0 <= k < t.len() implies t[k] != '/' by {
        assert(t[k] == s[k + from]);
    }
    crate::text::lemma_index_of_unique(t, '/', t.len() as int);
}

proof fn lemma_segment_parts_cons(g: Seq<char>, rest: Seq<Seq<char>>)
    ensures
        segment_parts(seq![g] + rest) == segment_parts(seq![g]) + segment_parts(rest),
{
    let gs = seq![g] + rest;
    assert(gs[0] == g);
    assert(gs.drop_first() =~= rest);
    let one = seq![g];
    assert(one[0] == g);
    assert(one.drop_first() =~= Seq::<Seq<char>>::empty());
    assert(segment_parts(Seq::<Seq<char>>::empty()) =~= Seq::<PathPart>::empty());
    if g.len() == 0 || g == seq!['.'] {
        assert(segment_parts(one) =~= Seq::<PathPart>::empty());
        assert(Seq::<PathPart>::empty() + segment_parts(rest) =~= segment_parts(rest));
    } else if g == seq!['.', '.'] {
        assert(segment_parts(one) =~= seq![PathPart::Parent]);
    } else {
        assert(segment_parts(one) =~= seq![PathPart::Normal(g)]);
    }
}

/// Computes the components of a path.
pub fn path_keys(s: &str) -> (r: Vec<PartKey>)
    ensures
        key_parts(r@) == components(s@),
        forall|k: int| 0 <= k < r@.len() ==> 1 <= #[trigger] r@[k].rank <= 4 && (r@[k].rank == 4
            <==> key_part(r@[k]) is Normal),
{
    let v = chars_of(s);
    let rooted = v.len() > 0 && v[0] == '/';
    let current = !rooted && v.len() > 0 && v[0] == '.' && (v.len() == 1 || v[1] == '/');
    let mut r: Vec<PartKey> = Vec::new();
    if rooted {
        r.push(PartKey { rank: 1, name: Vec::new() });
    }
    if current {
        r.push(PartKey { rank: 2, name: Vec::new() });
    }
    let ghost head = key_parts(r@);
    assert(head =~= (if rooted {
        seq![PathPart::Root]
    } else {
        seq![]
    }) + (if current {
        seq![PathPart::Current]
    } else {
        seq![]
    }));
    let mut start: usize = 0;
    let mut seg: Vec<char> = Vec::new();
    let mut i: usize = 0;
    assert(v@.skip(0) =~= v@);
    assert(v@.subrange(0, 0) =~= Seq::<char>::empty());
    while i < v.len()
        invariant
            start <= i <= v.len(),
            seg@ == v@.subrange(start as int, i as int),
            forall|k: int| start <= k < i ==> v@[k] != '/',
            head + segment_parts(segments(v@)) == key_parts(r@) + segment_parts(
                segments(v@.skip(start as int)),
            ),
            forall|k: int| 0 <= k < r@.len() ==> 1 <= #[trigger] r@[k].rank <= 4 && (r@[k].rank
                == 4 <==> key_part(r@[k]) is Normal),
        decreases v.len() - i,
    {
        if v[i] == '/' {
            proof {
                lemma_segments_step(v@, start as int, i as int);
                lemma_segment_parts_cons(
                    v@.subrange(start as int, i as int),
                    segments(v@.skip(i + 1)),
                );
            }
            let g = seg;
            let ghost gv = g@;
            let ghost before = r@;
            match segment_key(g) {
                Some(k) => {
                    r.push(k);
                    assert(key_parts(r@) =~= key_parts(before) + segment_parts(seq![gv]));
                },
                None => {
                    assert(key_parts(before) + segment_parts(seq![gv]) =~= key_parts(before));
                },
            }
            proof {
                assert(key_parts(before) + (segment_parts(seq![gv]) + segment_parts(
                    segments(v@.skip(i + 1)),
                )) =~= key_parts(before) + segment_parts(seq![gv]) + segment_parts(
                    segments(v@.skip(i + 1)),
                ));
            }
            start = i + 1;
            seg = Vec::new();
            assert(v@.subrange(start as int, start as int) =~= Seq::<char>::empty());
        } else {
            seg.push(v[i]);
            assert(v@.subrange(start as int, i + 1) =~= v@.subrange(start as int, i as int).push(
                v@[i as int],
            ));
        }
        i = i + 1;
    }
    proof {
        lemma_segments_last(v@, start as int);
        assert(v@.skip(start as int) =~= seg@);
    }
    let ghost gv = seg@;
    let ghost before = r@;
    match segment_key(seg) {
        Some(k) => {
            r.push(k);
            assert(key_parts(r@) =~= key_parts(before) + segment_parts(seq![gv]));
        },
        None => {
            assert(key_parts(before) + segment_parts(seq![gv]) =~= key_parts(before));
        },
    }
    proof {
        if rooted {
            assert(v@.len() > 0 && v@[0] == '/');
        }
    }
    r
}

/// Decides `part_le` on computed keys.
fn part_key_le(a: &PartKey, b: &PartKey) -> (r: bool)
    requires
        1 <= a.rank <= 4 && (a.rank == 4 <==> key_part(*a) is Normal),
        1 <= b.rank <= 4 && (b.rank == 4 <==> key_part(*b) is Normal),
    ensures
        r == part_le(key_part(*a), key_part(*b)),
{
    if a.rank != b.rank {
        a.rank < b.rank
    } else if a.rank == 4 {
        chars_le(&a.name, &b.name)
    } else {
        true
    }
}

/// Whether two computed keys stand for the same component.
fn part_key_eq(a: &PartKey, b: &PartKey) -> (r: bool)
    requires
        1 <= a.rank <= 4 && (a.rank == 4 <==> key_part(*a) is Normal),
        1 <= b.rank <= 4 && (b.rank == 4 <==> key_part(*b) is Normal),
    ensures
        r == (key_part(*a) == key_part(*b)),
{
    if a.rank != b.rank {
        return false;
    }
    if a.rank != 4 {
        return true;
    }
    let le = chars_le(&a.name, &b.name);
    let ge = chars_le(&b.name, &a.name);
    proof {
        if le && ge {
            lemma_text_le_antisymmetric(a.name@, b.name@);
        }
        if a.name@ == b.name@ {
            lemma_text_le_total(a.name@, b.name@);
        }
    }
    le && ge
}

/// Decides `path_le`.
pub fn path_precedes(a: &str, b: &str) -> (r: bool)
    ensures
        r == path_le(a@, b@),
{
    let ka = path_keys(a);
    let kb = path_keys(b);
    let ghost x = key_parts(ka@);
    let ghost y = key_parts(kb@);
    let mut k: usize = 0;
    assert(x.skip(0) =~= x);
    assert(y.skip(0) =~= y);
    while k < ka.len() && k < kb.len() && part_key_eq(&ka[k], &kb[k])
        invariant
            x == key_parts(ka@),
            y == key_parts(kb@),
            k <= ka.len(),
            k <= kb.len(),
            parts_le(x, y) == parts_le(x.skip(k as int), y.skip(k as int)),
            forall|j: int| 0 <= j < ka@.len() ==> 1 <= #[trigger] ka@[j].rank <= 4 && (ka@[j].rank
                == 4 <==> key_part(ka@[j]) is Normal),
            forall|j: int| 0 <= j < kb@.len() ==> 1 <= #[trigger] kb@[j].rank <= 4 && (kb@[j].rank
                == 4 <==> key_part(kb@[j]) is Normal),
        decreases ka.len() - k,
    {
        assert(x.skip(k as int)[0] == key_part(ka@[k as int]));
        assert(y.skip(k as int)[0] == key_part(kb@[k as int]));
        assert(x.skip(k as int).drop_first() =~= x.skip(k + 1));
        assert(y.skip(k as int).drop_first() =~= y.skip(k + 1));
        k = k + 1;
    }
    if k == ka.len() {
        true
    } else if k == kb.len() {
        false
    } else {
        assert(x.skip(k as int)[0] == key_part(ka@[k as int]));
        assert(y.skip(k as int)[0] == key_part(kb@[k as int]));
        part_key_le(&ka[k], &kb[k])
    }
}

} // verus!
