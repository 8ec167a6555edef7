//! The text formats of ship models. A `.tri` file lists triangles, one per
//! line; an AC3D `.ac` file nests objects, each with vertices and polygons.
//! The structure is read here; the numbers of a vertex stay text for the
//! caller to read as coordinates.

use vstd::prelude::*;
use crate::numbers::{parse_usize, unsigned_text};
use crate::parser::{split_words, split_ws, views};
use crate::text::{chars_of, eq_ignore_ascii_case, is_whitespace, is_ws, matches_kw, string_from};

verus! {

/// `s` without its leading whitespace.
pub open spec fn trim_start(s: Seq<char>) -> Seq<char>
    decreases s.len(),
{
    if s.len() > 0 && is_ws(s[0]) {
        trim_start(s.drop_first())
    } else {
        s
    }
}

/// `s` without its trailing whitespace.
pub open spec fn trim_end(s: Seq<char>) -> Seq<char>
    decreases s.len(),
{
    if s.len() > 0 && is_ws(s.last()) {
        trim_end(s.drop_last())
    } else {
        s
    }
}

/// `s` without leading and trailing whitespace (`str::trim`).
pub open spec fn trim(s: Seq<char>) -> Seq<char> {
    trim_end(trim_start(s))
}

/// `s` begins with `pre`.
pub open spec fn starts(s: Seq<char>, pre: Seq<char>) -> bool {
    s.len() >= pre.len() && s.take(pre.len() as int) == pre
}

/// The number of leading characters of `s` that are not whitespace.
pub open spec fn run_len(s: Seq<char>) -> nat
    decreases s.len(),
{
    if s.len() > 0 && !is_ws(s[0]) {
        1 + run_len(s.drop_first())
    } else {
        0
    }
}

/// The first word of `s` (empty when it has none).
pub open spec fn first_word(s: Seq<char>) -> Seq<char> {
    let u = trim_start(s);
    u.take(run_len(u) as int)
}

/// The characters of `cs` from `from` on, without leading and trailing
/// whitespace.
pub fn trim_from(cs: &Vec<char>, from: usize) -> (t: Vec<char>)
    requires
        from <= cs@.len(),
    ensures
        t@ == trim(cs@.skip(from as int)),
{
    let ghost s = cs@.skip(from as int);
    let mut a = from;
    while a < cs.len() && is_whitespace(cs[a])
        invariant
            from <= a <= cs@.len(),
            s == cs@.skip(from as int),
            trim_start(s) == trim_start(cs@.skip(a as int)),
        decreases cs@.len() - a,
    {
        assert(cs@.skip(a as int).drop_first() =~= cs@.skip(a + 1));
        a += 1;
    }
    let ghost u = cs@.skip(a as int);
    assert(trim_start(u) == u);
    let mut b = cs.len();
    assert(u.take((b - a) as int) =~= u);
    while b > a && is_whitespace(cs[b - 1])
        invariant
            a <= b <= cs@.len(),
            u == cs@.skip(a as int),
            trim_end(u) == trim_end(u.take((b - a) as int)),
        decreases b,
    {
        assert(u.take((b - a) as int).drop_last() =~= u.take((b - 1 - a) as int));
        assert(u.take((b - a) as int).last() == cs@[b - 1]);
        b -= 1;
    }
    let ghost w = u.take((b - a) as int);
    assert(trim_end(w) == w);
    let mut t: Vec<char> = Vec::new();
    let mut i = a;
    while i < b
        invariant
            a <= i <= b <= cs@.len(),
            t@ == cs@.subrange(a as int, i as int),
        decreases b - i,
    {
        t.push(cs[i]);
        i += 1;
        assert(t@ =~= cs@.subrange(a as int, i as int));
    }
    assert(t@ =~= w);
    t
}

/// Whether `t` begins with `pre`.
pub fn has_prefix(t: &Vec<char>, pre: &Vec<char>) -> (b: bool)
    ensures
        b == starts(t@, pre@),
{
    if t.len() < pre.len() {
        return false;
    }
    let mut i: usize = 0;
    while i < pre.len()
        invariant
            i <= pre@.len() <= t@.len(),
            forall|j: int| 0 <= j < i ==> t@[j] == pre@[j],
        decreases pre@.len() - i,
    {
        if t[i] != pre[i] {
            assert(t@.take(pre@.len() as int)[i as int] != pre@[i as int]);
            return false;
        }
        i += 1;
    }
    assert(t@.take(pre@.len() as int) =~= pre@);
    true
}

/// The number that the text of `cs` from `from` on names, ignoring the
/// whitespace around it; 0 when it is no number.
pub open spec fn count_of(t: Seq<char>) -> nat {
    match unsigned_text(trim(t), 10, usize::MAX as nat) {
        Some(v) => v,
        None => 0,
    }
}

fn count_after(cs: &Vec<char>, from: usize) -> (n: usize)
    requires
        from <= cs@.len(),
    ensures
        n as nat == count_of(cs@.skip(from as int)),
{
    let t = trim_from(cs, from);
    let s = string_from(t.as_slice());
    match parse_usize(s.as_str()) {
        Some(v) => v,
        None => 0,
    }
}

/// The number that the first word of `t` names; 0 when it is no number.
pub open spec fn first_index(t: Seq<char>) -> nat {
    match unsigned_text(first_word(t), 10, usize::MAX as nat) {
        Some(v) => v,
        None => 0,
    }
}

fn first_index_of(cs: &Vec<char>) -> (n: usize)
    ensures
        n as nat == first_index(cs@),
{
    let mut a: usize = 0;
    assert(cs@.skip(0) =~= cs@);
    while a < cs.len() && is_whitespace(cs[a])
        invariant
            a <= cs@.len(),
            trim_start(cs@) == trim_start(cs@.skip(a as int)),
        decreases cs@.len() - a,
    {
        assert(cs@.skip(a as int).drop_first() =~= cs@.skip(a + 1));
        a += 1;
    }
    let ghost u = cs@.skip(a as int);
    assert(trim_start(u) == u);
    let mut b = a;
    assert(u.skip(0) =~= u);
    while b < cs.len() && !is_whitespace(cs[b])
        invariant
            a <= b <= cs@.len(),
            u == cs@.skip(a as int),
            run_len(u) == (b - a) + run_len(cs@.skip(b as int)),
        decreases cs@.len() - b,
    {
        assert(cs@.skip(b as int).drop_first() =~= cs@.skip(b + 1));
        b += 1;
    }
    assert(run_len(cs@.skip(b as int)) == 0);
    let mut w: Vec<char> = Vec::new();
    let mut i = a;
    while i < b
        invariant
            a <= i <= b <= cs@.len(),
            w@ == cs@.subrange(a as int, i as int),
        decreases b - i,
    {
        w.push(cs[i]);
        i += 1;
        assert(w@ =~= cs@.subrange(a as int, i as int));
    }
    assert(w@ =~= first_word(cs@));
    let s = string_from(w.as_slice());
    match parse_usize(s.as_str()) {
        Some(v) => v,
        None => 0,
    }
}

// ─── .tri ────────────────────────────────────────────────────────────────

/// The nine coordinate words of a `.tri` line, when it has at least ten
/// words (three vertices and a colour).
pub open spec fn tri_words(line: Seq<char>) -> Option<Seq<Seq<char>>> {
    let w = split_ws(line);
    if w.len() >= 10 {
        Some(w.take(9))
    } else {
        None
    }
}

/// The coordinate words of a `.tri` line; `None` when it has fewer than ten
/// words.
pub fn tri_line_words(line: &str) -> (r: Option<Vec<String>>)
    ensures
        match (r, tri_words(line@)) {
            (Some(v), Some(w)) => views(v@) == w,
            (None, None) => true,
            _ => false,
        },
{
    let mut words = split_words(line);
    if words.len() < 10 {
        return None;
    }
    let ghost all = views(words@);
    let mut out: Vec<String> = Vec::new();
    let mut i: usize = 0;
    while i < 9
        invariant
            i <= 9,
            words@.len() + i == all.len(),
            all.len() >= 10,
            views(words@) == all.skip(i as int),
            views(out@) == all.take(i as int),
        decreases 9 - i,
    {
        let ghost before = words@;
        let w = words.pop_front().unwrap();
        assert(views(words@) =~= views(before).drop_first());
        assert(all.skip(i as int)[0] == w@);
        let ghost o = out@;
        out.push(w);
        assert(views(out@) =~= views(o).push(w@));
        assert(all.take(i + 1) =~= all.take(i as int).push(all[i as int]));
        assert(all.skip(i as int).drop_first() =~= all.skip(i + 1));
        i += 1;
    }
    Some(out)
}

// ─── AC3D ────────────────────────────────────────────────────────────────

/// One step of reading an AC3D model, in file order.
#[derive(Debug, PartialEq, Eq)]
pub enum AcOp {
    /// An object starts; it sits at its parent's place (the origin for the
    /// first object).
    Object,
    /// The object's `loc` words: its offset from its parent.
    Loc(String),
    /// The object's vertices, one line of words each; they replace the
    /// vertices it had.
    Verts(Vec<String>),
    /// Edges of a polygon, as pairs of indices into the object's vertices.
    Edges(Vec<(usize, usize)>),
    /// The object ends.
    End,
}

pub enum AcOpView {
    Object,
    Loc(Seq<char>),
    Verts(Seq<Seq<char>>),
    Edges(Seq<(nat, nat)>),
    End,
}

pub open spec fn pairs_view(es: Seq<(usize, usize)>) -> Seq<(nat, nat)> {
    es.map_values(|e: (usize, usize)| (e.0 as nat, e.1 as nat))
}

pub open spec fn ac_op_view(op: AcOp) -> AcOpView {
    match op {
        AcOp::Object => AcOpView::Object,
        AcOp::Loc(s) => AcOpView::Loc(s@),
        AcOp::Verts(v) => AcOpView::Verts(views(v@)),
        AcOp::Edges(e) => AcOpView::Edges(pairs_view(e@)),
        AcOp::End => AcOpView::End,
    }
}

pub open spec fn ac_views(ops: Seq<AcOp>) -> Seq<AcOpView> {
    ops.map_values(|op: AcOp| ac_op_view(op))
}

/// The vertex indices of the `refs` lines from `p` on: at most `n` lines,
/// each naming a vertex by its first word.
pub open spec fn refs_of(ts: Seq<Seq<char>>, p: nat, n: nat) -> Seq<nat>
    decreases n,
{
    if n == 0 || p >= ts.len() {
        Seq::empty()
    } else {
        seq![first_index(ts[p as int])] + refs_of(ts, p + 1, (n - 1) as nat)
    }
}

/// The edges of a polygon whose corners are `poly`, in order and closing
/// back to the first corner, from corner `i` on; edges to a vertex beyond
/// the `nv` vertices are left out.
pub open spec fn edges_from(poly: Seq<nat>, nv: nat, i: nat) -> Seq<(nat, nat)>
    decreases poly.len() - i,
{
    if i >= poly.len() {
        Seq::empty()
    } else {
        let a = poly[i as int];
        let b = poly[((i + 1) % poly.len()) as int];
        (if a < nv && b < nv {
            seq![(a, b)]
        } else {
            Seq::empty()
        }) + edges_from(poly, nv, i + 1)
    }
}

pub open spec fn min_nat(a: nat, b: nat) -> nat {
    if a <= b {
        a
    } else {
        b
    }
}

/// Reading the lines of a surface after its `SURF` line, from line `p`:
/// `mat` lines are passed over and the `refs` block gives the polygon; any
/// other line ends the surface unread. The edges, and where reading stops.
pub open spec fn surf_body(ts: Seq<Seq<char>>, p: nat, nv: nat) -> (Seq<(nat, nat)>, nat)
    decreases ts.len() - p,
{
    if p >= ts.len() {
        (Seq::empty(), p)
    } else if starts(ts[p as int], "mat "@) {
        surf_body(ts, p + 1, nv)
    } else if starts(ts[p as int], "refs "@) {
        let n = count_of(ts[p as int].skip(5));
        let k = min_nat(n, (ts.len() - (p + 1)) as nat);
        (edges_from(refs_of(ts, p + 1, n), nv, 0), p + 1 + k)
    } else {
        (Seq::empty(), p)
    }
}

/// Looking for a `SURF` line from line `p`: whether one comes before an
/// `OBJECT` or `kids` line or the end, and the line where the search stops.
pub open spec fn surf_at(ts: Seq<Seq<char>>, p: nat) -> (bool, nat)
    decreases ts.len() - p,
{
    if p >= ts.len() {
        (false, p)
    } else if starts(ts[p as int], "SURF "@) {
        (true, p)
    } else if starts(ts[p as int], "OBJECT "@) || starts(ts[p as int], "kids "@) {
        (false, p)
    } else {
        surf_at(ts, p + 1)
    }
}

/// Reading one surface from line `p`.
pub open spec fn one_surf(ts: Seq<Seq<char>>, p: nat, nv: nat) -> (Seq<(nat, nat)>, nat) {
    let (found, q) = surf_at(ts, p);
    if found {
        surf_body(ts, q + 1, nv)
    } else {
        (Seq::empty(), q)
    }
}

/// Reading `n` surfaces from line `p`.
pub open spec fn surfs(ts: Seq<Seq<char>>, p: nat, n: nat, nv: nat) -> (Seq<AcOpView>, nat)
    decreases n,
{
    if n == 0 {
        (Seq::empty(), p)
    } else {
        let (e, q) = one_surf(ts, p, nv);
        let (o, r) = surfs(ts, q, (n - 1) as nat, nv);
        let head = if e.len() > 0 {
            seq![AcOpView::Edges(e)]
        } else {
            Seq::<AcOpView>::empty()
        };
        (head + o, r)
    }
}

/// The first `OBJECT` line from line `p` on, or the end.
pub open spec fn seek_object(ts: Seq<Seq<char>>, p: nat) -> nat
    decreases ts.len() - p,
{
    if p >= ts.len() {
        p
    } else if starts(ts[p as int], "OBJECT "@) {
        p
    } else {
        seek_object(ts, p + 1)
    }
}

/// Reading the body of an object from line `p`, its current vertices
/// numbering `nv`: the steps, and where reading stops. A `kids` line ends
/// the object after its children; other unknown lines are passed over.
pub open spec fn obj_body(ts: Seq<Seq<char>>, p: nat, nv: nat) -> (Seq<AcOpView>, nat)
    decreases ts.len() - p, 0nat,
{
    if p >= ts.len() {
        (seq![AcOpView::End], p)
    } else {
        let t = ts[p as int];
        if starts(t, "loc "@) {
            let (o, q) = obj_body(ts, p + 1, nv);
            (seq![AcOpView::Loc(t.skip(4))] + o, q)
        } else if starts(t, "numvert "@) {
            let k = min_nat(count_of(t.skip(8)), (ts.len() - (p + 1)) as nat);
            let (o, q) = obj_body(ts, p + 1 + k, k);
            (seq![AcOpView::Verts(ts.subrange((p + 1) as int, (p + 1 + k) as int))] + o, q)
        } else if starts(t, "numsurf "@) {
            let (so, q) = surfs(ts, p + 1, count_of(t.skip(8)), nv);
            if p < q && q <= ts.len() {
                let (o, r) = obj_body(ts, q, nv);
                (so + o, r)
            } else {
                (so, q)
            }
        } else if starts(t, "kids "@) {
            let (ko, q) = kids(ts, p + 1, count_of(t.skip(5)));
            (ko + seq![AcOpView::End], q)
        } else {
            obj_body(ts, p + 1, nv)
        }
    }
}

/// Reading `n` child objects from line `p`: each starts after the next
/// `OBJECT` line.
pub open spec fn kids(ts: Seq<Seq<char>>, p: nat, n: nat) -> (Seq<AcOpView>, nat)
    decreases ts.len() - p, n + 1,
{
    if n == 0 {
        (Seq::empty(), p)
    } else {
        let q = seek_object(ts, p);
        if p <= q && q < ts.len() {
            let (co, r) = obj_body(ts, q + 1, 0);
            if q + 1 <= r && r <= ts.len() {
                let (ro, s) = kids(ts, r, (n - 1) as nat);
                (seq![AcOpView::Object] + co + ro, s)
            } else {
                (seq![AcOpView::Object] + co, r)
            }
        } else {
            (Seq::empty(), q)
        }
    }
}

/// The steps of reading an AC3D model whose lines, trimmed, are `ts`: the
/// first object and everything nested in it.
pub open spec fn ac3d_steps(ts: Seq<Seq<char>>) -> Seq<AcOpView> {
    let q = seek_object(ts, 0);
    if q < ts.len() {
        seq![AcOpView::Object] + obj_body(ts, q + 1, 0).0
    } else {
        Seq::empty()
    }
}

proof fn lemma_surf_body(ts: Seq<Seq<char>>, p: nat, nv: nat)
    requires
        p <= ts.len(),
    ensures
        p <= surf_body(ts, p, nv).1 <= ts.len(),
    decreases ts.len() - p,
{
    if p < ts.len() && starts(ts[p as int], "mat "@) {
        lemma_surf_body(ts, p + 1, nv);
    }
}

proof fn lemma_surf_at(ts: Seq<Seq<char>>, p: nat)
    requires
        p <= ts.len(),
    ensures
        p <= surf_at(ts, p).1 <= ts.len(),
        surf_at(ts, p).0 ==> surf_at(ts, p).1 < ts.len(),
    decreases ts.len() - p,
{
    if p < ts.len() && !starts(ts[p as int], "SURF "@) && !starts(ts[p as int], "OBJECT "@)
        && !starts(ts[p as int], "kids "@) {
        lemma_surf_at(ts, p + 1);
    }
}

proof fn lemma_one_surf(ts: Seq<Seq<char>>, p: nat, nv: nat)
    requires
        p <= ts.len(),
    ensures
        p <= one_surf(ts, p, nv).1 <= ts.len(),
{
    lemma_surf_at(ts, p);
    let (found, q) = surf_at(ts, p);
    if found {
        lemma_surf_body(ts, q + 1, nv);
    }
}

proof fn lemma_surfs(ts: Seq<Seq<char>>, p: nat, n: nat, nv: nat)
    requires
        p <= ts.len(),
    ensures
        p <= surfs(ts, p, n, nv).1 <= ts.len(),
    decreases n,
{
    if n > 0 {
        lemma_one_surf(ts, p, nv);
        lemma_surfs(ts, one_surf(ts, p, nv).1, (n - 1) as nat, nv);
    }
}

pub(crate) proof fn lemma_seek_object(ts: Seq<Seq<char>>, p: nat)
    requires
        p <= ts.len(),
    ensures
        p <= seek_object(ts, p) <= ts.len(),
        seek_object(ts, p) < ts.len() ==> starts(ts[seek_object(ts, p) as int], "OBJECT "@),
    decreases ts.len() - p,
{
    if p < ts.len() && !starts(ts[p as int], "OBJECT "@) {
        lemma_seek_object(ts, p + 1);
    }
}

proof fn lemma_obj_body(ts: Seq<Seq<char>>, p: nat, nv: nat)
    requires
        p <= ts.len(),
    ensures
        p <= obj_body(ts, p, nv).1 <= ts.len(),
    decreases ts.len() - p, 0nat,
{
    if p < ts.len() {
        let t = ts[p as int];
        if starts(t, "loc "@) {
            lemma_obj_body(ts, p + 1, nv);
        } else if starts(t, "numvert "@) {
            let k = min_nat(count_of(t.skip(8)), (ts.len() - (p + 1)) as nat);
            lemma_obj_body(ts, p + 1 + k, k);
        } else if starts(t, "numsurf "@) {
            lemma_surfs(ts, p + 1, count_of(t.skip(8)), nv);
            let q = surfs(ts, p + 1, count_of(t.skip(8)), nv).1;
            lemma_obj_body(ts, q, nv);
        } else if starts(t, "kids "@) {
            lemma_kids(ts, p + 1, count_of(t.skip(5)));
        } else {
            lemma_obj_body(ts, p + 1, nv);
        }
    }
}

proof fn lemma_kids(ts: Seq<Seq<char>>, p: nat, n: nat)
    requires
        p <= ts.len(),
    ensures
        p <= kids(ts, p, n).1 <= ts.len(),
    decreases ts.len() - p, n + 1,
{
    if n > 0 {
        lemma_seek_object(ts, p);
        let q = seek_object(ts, p);
        if q < ts.len() {
            lemma_obj_body(ts, q + 1, 0);
            let r = obj_body(ts, q + 1, 0).1;
            lemma_kids(ts, r, (n - 1) as nat);
        }
    }
}

/// How many objects the steps `ops`, entered `d` objects deep, open at the
/// outermost level: with `d` 0 and `ops` the steps that follow an object's
/// `kids` line, its direct children.
pub open spec fn top_objects(ops: Seq<AcOpView>, d: nat) -> nat
    decreases ops.len(),
{
    if ops.len() == 0 {
        0
    } else {
        let rest = ops.drop_first();
        match ops[0] {
            AcOpView::Object => (if d == 0 {
                1nat
            } else {
                0nat
            }) + top_objects(rest, d + 1),
            AcOpView::End => top_objects(
                rest,
                if d > 0 {
                    (d - 1) as nat
                } else {
                    0
                },
            ),
            _ => top_objects(rest, d),
        }
    }
}

proof fn lemma_top_cons(x: AcOpView, s: Seq<AcOpView>, d: nat)
    ensures
        top_objects(seq![x] + s, d) == match x {
            AcOpView::Object => (if d == 0 {
                1nat
            } else {
                0nat
            }) + top_objects(s, d + 1),
            AcOpView::End => top_objects(
                s,
                if d > 0 {
                    (d - 1) as nat
                } else {
                    0
                },
            ),
            _ => top_objects(s, d),
        },
{
    let c = seq![x] + s;
    assert(c[0] == x);
    assert(c.drop_first() =~= s);
}

proof fn lemma_top_surfs(ts: Seq<Seq<char>>, p: nat, n: nat, nv: nat, rest: Seq<AcOpView>, d: nat)
    ensures
        top_objects(surfs(ts, p, n, nv).0 + rest, d) == top_objects(rest, d),
    decreases n,
{
    if n > 0 {
        let (e, q) = one_surf(ts, p, nv);
        let (o, r) = surfs(ts, q, (n - 1) as nat, nv);
        lemma_top_surfs(ts, q, (n - 1) as nat, nv, rest, d);
        if e.len() > 0 {
            let x = AcOpView::Edges(e);
            assert((seq![x] + o) + rest =~= seq![x] + (o + rest));
            lemma_top_cons(x, o + rest, d);
        } else {
            assert((Seq::<AcOpView>::empty() + o) + rest =~= o + rest);
        }
    } else {
        assert(Seq::<AcOpView>::empty() + rest =~= rest);
    }
}

/// An object's body, entered one object deeper than `d`, closes that object
/// and opens nothing at the outer level.
pub(crate) proof fn lemma_top_obj(
    ts: Seq<Seq<char>>,
    p: nat,
    nv: nat,
    rest: Seq<AcOpView>,
    d: nat,
)
    requires
        p <= ts.len(),
    ensures
        top_objects(obj_body(ts, p, nv).0 + rest, d + 1) == top_objects(rest, d),
    decreases ts.len() - p, 0nat,
{
    if p >= ts.len() {
        lemma_top_cons(AcOpView::End, rest, d + 1);
    } else {
        let t = ts[p as int];
        if starts(t, "loc "@) {
            let (o, q) = obj_body(ts, p + 1, nv);
            lemma_top_obj(ts, p + 1, nv, rest, d);
            let x = AcOpView::Loc(t.skip(4));
            assert((seq![x] + o) + rest =~= seq![x] + (o + rest));
            lemma_top_cons(x, o + rest, d + 1);
        } else if starts(t, "numvert "@) {
            let k = min_nat(count_of(t.skip(8)), (ts.len() - (p + 1)) as nat);
            let (o, q) = obj_body(ts, p + 1 + k, k);
            lemma_top_obj(ts, p + 1 + k, k, rest, d);
            let x = AcOpView::Verts(ts.subrange((p + 1) as int, (p + 1 + k) as int));
            assert((seq![x] + o) + rest =~= seq![x] + (o + rest));
            lemma_top_cons(x, o + rest, d + 1);
        } else if starts(t, "numsurf "@) {
            let n = count_of(t.skip(8));
            lemma_surfs(ts, p + 1, n, nv);
            let (so, q) = surfs(ts, p + 1, n, nv);
            let (o, r) = obj_body(ts, q, nv);
            lemma_top_obj(ts, q, nv, rest, d);
            assert((so + o) + rest =~= so + (o + rest));
            lemma_top_surfs(ts, p + 1, n, nv, o + rest, d + 1);
        } else if starts(t, "kids "@) {
            let n = count_of(t.skip(5));
            let (ko, q) = kids(ts, p + 1, n);
            let tail = seq![AcOpView::End] + rest;
            assert((ko + seq![AcOpView::End]) + rest =~= ko + tail);
            lemma_top_kids(ts, p + 1, n, tail, d + 1);
            lemma_top_cons(AcOpView::End, rest, d + 1);
        } else {
            lemma_top_obj(ts, p + 1, nv, rest, d);
        }
    }
}

/// The children that `kids(ts, p, n)` reads: inside an object they open
/// nothing at the outer level; at the outer level they are at most `n`
/// objects, and fewer only when reading ran to the end of the lines.
pub(crate) proof fn lemma_top_kids(ts: Seq<Seq<char>>, p: nat, n: nat, rest: Seq<AcOpView>, d: nat)
    requires
        p <= ts.len(),
    ensures
        d > 0 ==> top_objects(kids(ts, p, n).0 + rest, d) == top_objects(rest, d),
        d == 0 ==> top_objects(kids(ts, p, n).0 + rest, 0) == top_objects(kids(ts, p, n).0, 0)
            + top_objects(rest, 0),
        top_objects(kids(ts, p, n).0, 0) <= n,
        top_objects(kids(ts, p, n).0, 0) == n || kids(ts, p, n).1 == ts.len(),
    decreases ts.len() - p, n + 1,
{
    let e = Seq::<AcOpView>::empty();
    if n == 0 {
        assert(e + rest =~= rest);
    } else {
        lemma_seek_object(ts, p);
        let q = seek_object(ts, p);
        if q < ts.len() {
            lemma_obj_body(ts, q + 1, 0);
            let (co, r) = obj_body(ts, q + 1, 0);
            let (ro, s2) = kids(ts, r, (n - 1) as nat);
            let o = AcOpView::Object;
            assert(kids(ts, p, n).0 == seq![o] + co + ro);
            // With `rest` after the children.
            lemma_top_kids(ts, r, (n - 1) as nat, rest, d);
            lemma_top_obj(ts, q + 1, 0, ro + rest, d);
            assert((seq![o] + co + ro) + rest =~= seq![o] + (co + (ro + rest)));
            lemma_top_cons(o, co + (ro + rest), d);
            // With nothing after the children.
            lemma_top_kids(ts, r, (n - 1) as nat, e, 0);
            lemma_top_obj(ts, q + 1, 0, ro, 0);
            assert(seq![o] + co + ro =~= seq![o] + (co + ro));
            lemma_top_cons(o, co + ro, 0);
            assert(ro + e =~= ro);
        } else {
            assert(e + rest =~= rest);
        }
    }
}

/// The lines as character sequences.
pub open spec fn lines_view(ts: Seq<Vec<char>>) -> Seq<Seq<char>> {
    ts.map_values(|v: Vec<char>| v@)
}

/// The key words of the AC3D format.
struct Keys {
    loc: Vec<char>,
    numvert: Vec<char>,
    numsurf: Vec<char>,
    kids: Vec<char>,
    surf: Vec<char>,
    object: Vec<char>,
    mat: Vec<char>,
    refs: Vec<char>,
}

spec fn keys_ok(k: Keys) -> bool {
    &&& k.loc@ == "loc "@
    &&& k.numvert@ == "numvert "@
    &&& k.numsurf@ == "numsurf "@
    &&& k.kids@ == "kids "@
    &&& k.surf@ == "SURF "@
    &&& k.object@ == "OBJECT "@
    &&& k.mat@ == "mat "@
    &&& k.refs@ == "refs "@
}

fn keys() -> (k: Keys)
    ensures
        keys_ok(k),
{
    Keys {
        loc: chars_of("loc "),
        numvert: chars_of("numvert "),
        numsurf: chars_of("numsurf "),
        kids: chars_of("kids "),
        surf: chars_of("SURF "),
        object: chars_of("OBJECT "),
        mat: chars_of("mat "),
        refs: chars_of("refs "),
    }
}

proof fn lemma_key_lengths()
    ensures
        "loc "@.len() == 4,
        "numvert "@.len() == 8,
        "numsurf "@.len() == 8,
        "kids "@.len() == 5,
        "refs "@.len() == 5,
{
    reveal_strlit("loc ");
    reveal_strlit("numvert ");
    reveal_strlit("numsurf ");
    reveal_strlit("kids ");
    reveal_strlit("refs ");
}

pub open spec fn nat_view(v: Seq<usize>) -> Seq<nat> {
    v.map_values(|x: usize| x as nat)
}

fn surf_body_exec(ts: &Vec<Vec<char>>, k: &Keys, p: usize, nv: usize) -> (r: (
    Vec<(usize, usize)>,
    usize,
))
    requires
        keys_ok(*k),
        p <= ts@.len(),
    ensures
        pairs_view(r.0@) == surf_body(lines_view(ts@), p as nat, nv as nat).0,
        r.1 as nat == surf_body(lines_view(ts@), p as nat, nv as nat).1,
{
    let ghost tv = lines_view(ts@);
    let ghost p0 = p;
    let mut pos = p;
    loop
        invariant
            keys_ok(*k),
            pos <= ts@.len(),
            tv == lines_view(ts@),
            p0 == p,
            surf_body(tv, p0 as nat, nv as nat) == surf_body(tv, pos as nat, nv as nat),
        decreases ts@.len() - pos,
    {
        if pos >= ts.len() {
            return (Vec::new(), pos);
        }
        assert(tv[pos as int] == ts@[pos as int]@);
        if has_prefix(&ts[pos], &k.mat) {
            pos += 1;
        } else if has_prefix(&ts[pos], &k.refs) {
            proof {
                lemma_key_lengths();
            }
            let n = count_after(&ts[pos], 5);
            let mut poly: Vec<usize> = Vec::new();
            let mut j = pos + 1;
            let mut c: usize = 0;
            assert(nat_view(poly@) + refs_of(tv, j as nat, (n - c) as nat) =~= refs_of(
                tv,
                (pos + 1) as nat,
                n as nat,
            ));
            while c < n && j < ts.len()
                invariant
                    pos < ts@.len(),
                    tv == lines_view(ts@),
                    c <= n,
                    j == pos + 1 + c,
                    j <= ts@.len(),
                    nat_view(poly@) + refs_of(tv, j as nat, (n - c) as nat) == refs_of(
                        tv,
                        (pos + 1) as nat,
                        n as nat,
                    ),
                decreases n - c,
            {
                assert(tv[j as int] == ts@[j as int]@);
                let v = first_index_of(&ts[j]);
                let ghost before = nat_view(poly@);
                poly.push(v);
                assert(nat_view(poly@) =~= before.push(v as nat));
                assert(refs_of(tv, j as nat, (n - c) as nat) == seq![v as nat] + refs_of(
                    tv,
                    (j + 1) as nat,
                    (n - c - 1) as nat,
                ));
                assert(before.push(v as nat) + refs_of(tv, (j + 1) as nat, (n - c - 1) as nat)
                    =~= before + (seq![v as nat] + refs_of(tv, (j + 1) as nat, (n - c - 1) as nat)));
                j += 1;
                c += 1;
            }
            assert(refs_of(tv, j as nat, (n - c) as nat) =~= Seq::<nat>::empty());
            assert(nat_view(poly@) + Seq::<nat>::empty() =~= nat_view(poly@));
            assert(j as nat == pos + 1 + min_nat(n as nat, (tv.len() - (pos + 1)) as nat));
            let ghost pv = nat_view(poly@);
            let mut es: Vec<(usize, usize)> = Vec::new();
            let len = poly.len();
            let mut i: usize = 0;
            assert(pairs_view(es@) + edges_from(pv, nv as nat, 0) =~= edges_from(pv, nv as nat, 0));
            while i < len
                invariant
                    len == poly@.len(),
                    pv == nat_view(poly@),
                    i <= len,
                    pairs_view(es@) + edges_from(pv, nv as nat, i as nat) == edges_from(
                        pv,
                        nv as nat,
                        0,
                    ),
                decreases len - i,
            {
                let a = poly[i];
                let nx = if i + 1 < len {
                    i + 1
                } else {
                    0
                };
                assert((((i as nat) + 1) % (len as nat)) as int == nx as int) by (nonlinear_arith)
                    requires
                        i < len,
                        nx == (if i + 1 < len { i + 1 } else { 0 }),
                ;
                let b = poly[nx];
                let ghost before = pairs_view(es@);
                let ghost rest = edges_from(pv, nv as nat, (i + 1) as nat);
                if a < nv && b < nv {
                    es.push((a, b));
                    assert(pairs_view(es@) =~= before.push((a as nat, b as nat)));
                    assert(before.push((a as nat, b as nat)) + rest =~= before + (seq![
                        (a as nat, b as nat),
                    ] + rest));
                } else {
                    assert(Seq::<(nat, nat)>::empty() + rest =~= rest);
                }
                i += 1;
            }
            assert(edges_from(pv, nv as nat, len as nat) =~= Seq::<(nat, nat)>::empty());
            assert(pairs_view(es@) + Seq::<(nat, nat)>::empty() =~= pairs_view(es@));
            return (es, j);
        } else {
            return (Vec::new(), pos);
        }
    }
}

fn surf_at_exec(ts: &Vec<Vec<char>>, k: &Keys, p: usize) -> (r: (bool, usize))
    requires
        keys_ok(*k),
        p <= ts@.len(),
    ensures
        (r.0, r.1 as nat) == surf_at(lines_view(ts@), p as nat),
{
    let ghost tv = lines_view(ts@);
    let ghost p0 = p;
    let mut pos = p;
    while pos < ts.len()
        invariant
            keys_ok(*k),
            pos <= ts@.len(),
            tv == lines_view(ts@),
            p0 == p,
            surf_at(tv, p0 as nat) == surf_at(tv, pos as nat),
        decreases ts@.len() - pos,
    {
        assert(tv[pos as int] == ts@[pos as int]@);
        if has_prefix(&ts[pos], &k.surf) {
            return (true, pos);
        }
        if has_prefix(&ts[pos], &k.object) || has_prefix(&ts[pos], &k.kids) {
            return (false, pos);
        }
        pos += 1;
    }
    (false, pos)
}

fn seek_object_exec(ts: &Vec<Vec<char>>, k: &Keys, p: usize) -> (q: usize)
    requires
        keys_ok(*k),
        p <= ts@.len(),
    ensures
        q as nat == seek_object(lines_view(ts@), p as nat),
{
    let ghost tv = lines_view(ts@);
    let ghost p0 = p;
    let mut pos = p;
    while pos < ts.len()
        invariant
            keys_ok(*k),
            pos <= ts@.len(),
            tv == lines_view(ts@),
            p0 == p,
            seek_object(tv, p0 as nat) == seek_object(tv, pos as nat),
        decreases ts@.len() - pos,
    {
        assert(tv[pos as int] == ts@[pos as int]@);
        if has_prefix(&ts[pos], &k.object) {
            return pos;
        }
        pos += 1;
    }
    pos
}

/// Reads `n` surfaces from line `p`, adding their edges to `out`.
fn surfs_exec(ts: &Vec<Vec<char>>, k: &Keys, p: usize, n: usize, nv: usize, out: &mut Vec<AcOp>) -> (q: usize)
    requires
        keys_ok(*k),
        p <= ts@.len(),
    ensures
        ac_views(final(out)@) == ac_views(old(out)@) + surfs(lines_view(ts@), p as nat, n as nat, nv as nat).0,
        q as nat == surfs(lines_view(ts@), p as nat, n as nat, nv as nat).1,
{
    let ghost tv = lines_view(ts@);
    let ghost start = ac_views(out@);
    let mut q = p;
    let mut c: usize = 0;
    assert(ac_views(out@) + surfs(tv, q as nat, (n - c) as nat, nv as nat).0 =~= start + surfs(
        tv,
        p as nat,
        n as nat,
        nv as nat,
    ).0);
    while c < n
        invariant
            keys_ok(*k),
            tv == lines_view(ts@),
            c <= n,
            q <= ts@.len(),
            ac_views(out@) + surfs(tv, q as nat, (n - c) as nat, nv as nat).0 == start + surfs(
                tv,
                p as nat,
                n as nat,
                nv as nat,
            ).0,
            surfs(tv, q as nat, (n - c) as nat, nv as nat).1 == surfs(tv, p as nat, n as nat, nv as nat).1,
        decreases n - c,
    {
        let (found, at) = surf_at_exec(ts, k, q);
        let total = ts.len();
        proof {
            lemma_surf_at(tv, q as nat);
            assert(tv.len() == total);
        }
        let (es, q2) = if found {
            surf_body_exec(ts, k, at + 1, nv)
        } else {
            (Vec::new(), at)
        };
        assert(pairs_view(es@) == one_surf(tv, q as nat, nv as nat).0);
        assert(q2 as nat == one_surf(tv, q as nat, nv as nat).1);
        proof {
            lemma_one_surf(tv, q as nat, nv as nat);
        }
        let ghost before = ac_views(out@);
        let ghost rest = surfs(tv, q2 as nat, (n - c - 1) as nat, nv as nat);
        if es.len() > 0 {
            let ghost ev = pairs_view(es@);
            out.push(AcOp::Edges(es));
            assert(ac_views(out@) =~= before.push(AcOpView::Edges(ev)));
            assert(before.push(AcOpView::Edges(ev)) + rest.0 =~= before + (seq![AcOpView::Edges(ev)]
                + rest.0));
        } else {
            assert(Seq::<AcOpView>::empty() + rest.0 =~= rest.0);
        }
        q = q2;
        c += 1;
    }
    assert(surfs(tv, q as nat, 0, nv as nat).0 =~= Seq::<AcOpView>::empty());
    assert(ac_views(out@) + Seq::<AcOpView>::empty() =~= ac_views(out@));
    q
}

/// The characters of `cs` from `from` on, as a string.
fn suffix(cs: &Vec<char>, from: usize) -> (s: String)
    requires
        from <= cs@.len(),
    ensures
        s@ == cs@.skip(from as int),
{
    let mut w: Vec<char> = Vec::new();
    let mut i = from;
    while i < cs.len()
        invariant
            from <= i <= cs@.len(),
            w@ == cs@.subrange(from as int, i as int),
        decreases cs@.len() - i,
    {
        w.push(cs[i]);
        i += 1;
        assert(w@ =~= cs@.subrange(from as int, i as int));
    }
    assert(w@ =~= cs@.skip(from as int));
    string_from(w.as_slice())
}

/// Reads the body of an object from line `p`, its current vertices
/// numbering `nv`, adding the steps to `out`; where reading stops.
fn obj_exec(ts: &Vec<Vec<char>>, k: &Keys, p: usize, nv: usize, out: &mut Vec<AcOp>) -> (q: usize)
    requires
        keys_ok(*k),
        p <= ts@.len(),
    ensures
        ac_views(final(out)@) == ac_views(old(out)@) + obj_body(lines_view(ts@), p as nat, nv as nat).0,
        q as nat == obj_body(lines_view(ts@), p as nat, nv as nat).1,
    decreases ts@.len() - p, 0nat,
{
    let ghost tv = lines_view(ts@);
    let ghost start = ac_views(out@);
    let total = ts.len();
    let mut pos = p;
    let mut cur = nv;
    assert(ac_views(out@) + obj_body(tv, pos as nat, cur as nat).0 == start + obj_body(
        tv,
        p as nat,
        nv as nat,
    ).0);
    loop
        invariant
            keys_ok(*k),
            tv == lines_view(ts@),
            total == ts@.len(),
            tv.len() == total,
            p <= pos <= total,
            start == ac_views(old(out)@),
            ac_views(out@) + obj_body(tv, pos as nat, cur as nat).0 == start + obj_body(
                tv,
                p as nat,
                nv as nat,
            ).0,
            obj_body(tv, pos as nat, cur as nat).1 == obj_body(tv, p as nat, nv as nat).1,
        decreases total - pos,
    {
        let ghost before = ac_views(out@);
        if pos >= total {
            out.push(AcOp::End);
            assert(ac_views(out@) =~= before.push(AcOpView::End));
            assert(before + seq![AcOpView::End] =~= before.push(AcOpView::End));
            return pos;
        }
        assert(tv[pos as int] == ts@[pos as int]@);
        let ghost t = tv[pos as int];
        proof {
            lemma_key_lengths();
        }
        if has_prefix(&ts[pos], &k.loc) {
            let rest = suffix(&ts[pos], 4);
            let ghost rv = rest@;
            out.push(AcOp::Loc(rest));
            assert(ac_views(out@) =~= before.push(AcOpView::Loc(rv)));
            let ghost o = obj_body(tv, (pos + 1) as nat, cur as nat).0;
            assert(before.push(AcOpView::Loc(rv)) + o =~= before + (seq![AcOpView::Loc(rv)] + o));
            pos += 1;
        } else if has_prefix(&ts[pos], &k.numvert) {
            let n = count_after(&ts[pos], 8);
            let avail = total - (pos + 1);
            let kk = if n <= avail {
                n
            } else {
                avail
            };
            let mut vs: Vec<String> = Vec::new();
            let mut j: usize = 0;
            while j < kk
                invariant
                    tv == lines_view(ts@),
                    tv.len() == total,
                    total == ts@.len(),
                    pos < total,
                    kk <= total - (pos + 1),
                    j <= kk,
                    views(vs@) == tv.subrange((pos + 1) as int, (pos + 1 + j) as int),
                decreases kk - j,
            {
                assert(tv[(pos + 1 + j) as int] == ts@[(pos + 1 + j) as int]@);
                let line = string_from(ts[pos + 1 + j].as_slice());
                let ghost vb = views(vs@);
                vs.push(line);
                assert(views(vs@) =~= vb.push(line@));
                j += 1;
                assert(views(vs@) =~= tv.subrange((pos + 1) as int, (pos + 1 + j) as int));
            }
            let ghost vv = views(vs@);
            out.push(AcOp::Verts(vs));
            assert(ac_views(out@) =~= before.push(AcOpView::Verts(vv)));
            let ghost o = obj_body(tv, (pos + 1 + kk) as nat, kk as nat).0;
            assert(before.push(AcOpView::Verts(vv)) + o =~= before + (seq![AcOpView::Verts(vv)] + o));
            pos = pos + 1 + kk;
            cur = kk;
        } else if has_prefix(&ts[pos], &k.numsurf) {
            let n = count_after(&ts[pos], 8);
            let q = surfs_exec(ts, k, pos + 1, n, cur, out);
            proof {
                lemma_surfs(tv, (pos + 1) as nat, n as nat, cur as nat);
                let so = surfs(tv, (pos + 1) as nat, n as nat, cur as nat).0;
                let o = obj_body(tv, q as nat, cur as nat).0;
                assert(before + so + o =~= before + (so + o));
            }
            pos = q;
        } else if has_prefix(&ts[pos], &k.kids) {
            let n = count_after(&ts[pos], 5);
            let q = kids_exec(ts, k, pos + 1, n, out);
            let ghost mid = ac_views(out@);
            out.push(AcOp::End);
            assert(ac_views(out@) =~= mid.push(AcOpView::End));
            proof {
                let ko = kids(tv, (pos + 1) as nat, n as nat).0;
                assert(before + (ko + seq![AcOpView::End]) =~= (before + ko).push(AcOpView::End));
            }
            return q;
        } else {
            pos += 1;
        }
    }
}

/// Reads `n` child objects from line `p`, adding their steps to `out`;
/// where reading stops.
fn kids_exec(ts: &Vec<Vec<char>>, k: &Keys, p: usize, n: usize, out: &mut Vec<AcOp>) -> (q: usize)
    requires
        keys_ok(*k),
        p <= ts@.len(),
    ensures
        ac_views(final(out)@) == ac_views(old(out)@) + kids(lines_view(ts@), p as nat, n as nat).0,
        q as nat == kids(lines_view(ts@), p as nat, n as nat).1,
    decreases ts@.len() - p, n + 1,
{
    let ghost tv = lines_view(ts@);
    let ghost start = ac_views(out@);
    let total = ts.len();
    let mut pos = p;
    let mut c: usize = 0;
    assert(ac_views(out@) + kids(tv, pos as nat, (n - c) as nat).0 =~= start + kids(
        tv,
        p as nat,
        n as nat,
    ).0);
    loop
        invariant
            keys_ok(*k),
            tv == lines_view(ts@),
            total == ts@.len(),
            tv.len() == total,
            p <= pos <= total,
            c <= n,
            start == ac_views(old(out)@),
            ac_views(out@) + kids(tv, pos as nat, (n - c) as nat).0 == start + kids(
                tv,
                p as nat,
                n as nat,
            ).0,
            kids(tv, pos as nat, (n - c) as nat).1 == kids(tv, p as nat, n as nat).1,
        decreases n - c,
    {
        if c >= n {
            assert(kids(tv, pos as nat, 0).0 =~= Seq::<AcOpView>::empty());
            assert(ac_views(out@) + Seq::<AcOpView>::empty() =~= ac_views(out@));
            return pos;
        }
        let q = seek_object_exec(ts, k, pos);
        proof {
            lemma_seek_object(tv, pos as nat);
        }
        if q >= total {
            assert(ac_views(out@) + Seq::<AcOpView>::empty() =~= ac_views(out@));
            return q;
        }
        let ghost before = ac_views(out@);
        out.push(AcOp::Object);
        assert(ac_views(out@) =~= before.push(AcOpView::Object));
        let r = obj_exec(ts, k, q + 1, 0, out);
        proof {
            lemma_obj_body(tv, (q + 1) as nat, 0);
            let co = obj_body(tv, (q + 1) as nat, 0).0;
            let ro = kids(tv, r as nat, (n - c - 1) as nat).0;
            assert(before.push(AcOpView::Object) + co + ro =~= before + (seq![AcOpView::Object] + co
                + ro));
        }
        pos = r;
        c += 1;
    }
}

/// `lines`, each without leading and trailing whitespace.
pub open spec fn trimmed(lines: Seq<Seq<char>>) -> Seq<Seq<char>> {
    lines.map_values(|l: Seq<char>| trim(l))
}

/// The steps of reading an AC3D model whose lines are `lines`.
pub fn ac3d_ops(lines: &Vec<String>) -> (ops: Vec<AcOp>)
    ensures
        ac_views(ops@) == ac3d_steps(trimmed(views(lines@))),
{
    let mut ts: Vec<Vec<char>> = Vec::new();
    let mut i: usize = 0;
    while i < lines.len()
        invariant
            i <= lines@.len(),
            lines_view(ts@) == trimmed(views(lines@)).take(i as int),
        decreases lines@.len() - i,
    {
        let cs = chars_of(lines[i].as_str());
        assert(cs@.skip(0) =~= cs@);
        let t = trim_from(&cs, 0);
        let ghost tb = lines_view(ts@);
        ts.push(t);
        assert(lines_view(ts@) =~= tb.push(t@));
        assert(trimmed(views(lines@)).take(i + 1) =~= trimmed(views(lines@)).take(i as int).push(
            trim(lines@[i as int]@),
        ));
        i += 1;
    }
    assert(trimmed(views(lines@)).take(lines@.len() as int) =~= trimmed(views(lines@)));
    let k = keys();
    let q = seek_object_exec(&ts, &k, 0);
    let mut out: Vec<AcOp> = Vec::new();
    let total = ts.len();
    proof {
        lemma_seek_object(lines_view(ts@), 0);
    }
    if q < total {
        out.push(AcOp::Object);
        assert(ac_views(out@) =~= seq![AcOpView::Object]);
        let _end = obj_exec(&ts, &k, q + 1, 0, &mut out);
    } else {
        assert(ac_views(out@) =~= Seq::<AcOpView>::empty());
    }
    out
}

// ─── Well-formed steps ───────────────────────────────────────────────────

/// One step followed with a stack of vertex counts, one per open object:
/// the stack after it, or `None` when the step does not fit (no object is
/// open, or an edge names a vertex the object does not have).
pub open spec fn follow_step(op: AcOpView, stack: Seq<nat>) -> Option<Seq<nat>> {
    match op {
        AcOpView::Object => Some(stack.push(0)),
        AcOpView::Loc(_) => if stack.len() > 0 {
            Some(stack)
        } else {
            None
        },
        AcOpView::Verts(v) => if stack.len() > 0 {
            Some(stack.drop_last().push(v.len()))
        } else {
            None
        },
        AcOpView::Edges(es) => if stack.len() > 0 && (forall|i: int|
            0 <= i < es.len() ==> (#[trigger] es[i]).0 < stack.last() && es[i].1 < stack.last()) {
            Some(stack)
        } else {
            None
        },
        AcOpView::End => if stack.len() > 0 {
            Some(stack.drop_last())
        } else {
            None
        },
    }
}

/// The steps `ops` followed from `stack`.
pub open spec fn follow(ops: Seq<AcOpView>, stack: Seq<nat>) -> Option<Seq<nat>>
    decreases ops.len(),
{
    if ops.len() == 0 {
        Some(stack)
    } else {
        match follow_step(ops[0], stack) {
            Some(s2) => follow(ops.drop_first(), s2),
            None => None,
        }
    }
}

pub(crate) proof fn lemma_follow_append(a: Seq<AcOpView>, b: Seq<AcOpView>, stack: Seq<nat>)
    ensures
        follow(a + b, stack) == match follow(a, stack) {
            Some(s2) => follow(b, s2),
            None => None,
        },
    decreases a.len(),
{
    if a.len() == 0 {
        assert(a + b =~= b);
    } else {
        assert((a + b)[0] == a[0]);
        assert((a + b).drop_first() =~= a.drop_first() + b);
        match follow_step(a[0], stack) {
            Some(s2) => lemma_follow_append(a.drop_first(), b, s2),
            None => {},
        }
    }
}

proof fn lemma_edges_in_range(poly: Seq<nat>, nv: nat, i: nat)
    ensures
        forall|j: int|
            0 <= j < edges_from(poly, nv, i).len() ==> (#[trigger] edges_from(poly, nv, i)[j]).0 < nv
                && edges_from(poly, nv, i)[j].1 < nv,
    decreases poly.len() - i,
{
    if i < poly.len() {
        lemma_edges_in_range(poly, nv, i + 1);
        let a = poly[i as int];
        let b = poly[((i + 1) % poly.len()) as int];
        let head = if a < nv && b < nv {
            seq![(a, b)]
        } else {
            Seq::<(nat, nat)>::empty()
        };
        let rest = edges_from(poly, nv, i + 1);
        assert(edges_from(poly, nv, i) == head + rest);
        assert forall|j: int| 0 <= j < (head + rest).len() implies (#[trigger] (head + rest)[j]).0
            < nv && (head + rest)[j].1 < nv by {
            if j >= head.len() {
                assert((head + rest)[j] == rest[j - head.len()]);
            }
        }
    }
}

/// Following one step is that step.
pub(crate) proof fn lemma_follow_one(op: AcOpView, stack: Seq<nat>)
    ensures
        follow(seq![op], stack) == follow_step(op, stack),
{
    reveal_with_fuel(follow, 2);
    assert(seq![op].drop_first() =~= Seq::<AcOpView>::empty());
}

proof fn lemma_one_surf_in_range(ts: Seq<Seq<char>>, p: nat, nv: nat)
    ensures
        forall|j: int|
            0 <= j < one_surf(ts, p, nv).0.len() ==> (#[trigger] one_surf(ts, p, nv).0[j]).0 < nv
                && one_surf(ts, p, nv).0[j].1 < nv,
{
    let (found, q) = surf_at(ts, p);
    if found {
        lemma_surf_body_in_range(ts, q + 1, nv);
    }
}

proof fn lemma_surf_body_in_range(ts: Seq<Seq<char>>, p: nat, nv: nat)
    ensures
        forall|j: int|
            0 <= j < surf_body(ts, p, nv).0.len() ==> (#[trigger] surf_body(ts, p, nv).0[j]).0 < nv
                && surf_body(ts, p, nv).0[j].1 < nv,
    decreases ts.len() - p,
{
    if p < ts.len() {
        if starts(ts[p as int], "mat "@) {
            lemma_surf_body_in_range(ts, p + 1, nv);
            assert(surf_body(ts, p, nv) == surf_body(ts, p + 1, nv));
        } else if starts(ts[p as int], "refs "@) {
            let n = count_of(ts[p as int].skip(5));
            lemma_edges_in_range(refs_of(ts, p + 1, n), nv, 0);
            assert(surf_body(ts, p, nv).0 == edges_from(refs_of(ts, p + 1, n), nv, 0));
        } else {
            assert(surf_body(ts, p, nv).0 =~= Seq::<(nat, nat)>::empty());
        }
    } else {
        assert(surf_body(ts, p, nv).0 =~= Seq::<(nat, nat)>::empty());
    }
}

proof fn lemma_surfs_follow(ts: Seq<Seq<char>>, p: nat, n: nat, nv: nat, stack: Seq<nat>)
    ensures
        follow(surfs(ts, p, n, nv).0, stack.push(nv)) == Some(stack.push(nv)),
    decreases n,
{
    if n > 0 {
        let (e, q) = one_surf(ts, p, nv);
        let (o, r) = surfs(ts, q, (n - 1) as nat, nv);
        lemma_surfs_follow(ts, q, (n - 1) as nat, nv, stack);
        if e.len() > 0 {
            lemma_one_surf_in_range(ts, p, nv);
            let head = seq![AcOpView::Edges(e)];
            lemma_follow_append(head, o, stack.push(nv));
            lemma_follow_one(AcOpView::Edges(e), stack.push(nv));
            assert(follow(head, stack.push(nv)) == Some(stack.push(nv)));
        } else {
            assert(Seq::<AcOpView>::empty() + o =~= o);
        }
    } else {
        assert(follow(Seq::<AcOpView>::empty(), stack.push(nv)) == Some(stack.push(nv)));
    }
}

pub(crate) proof fn lemma_obj_follow(ts: Seq<Seq<char>>, p: nat, nv: nat, stack: Seq<nat>)
    requires
        p <= ts.len(),
    ensures
        follow(obj_body(ts, p, nv).0, stack.push(nv)) == Some(stack),
    decreases ts.len() - p, 0nat,
{
    let s = stack.push(nv);
    assert(s.drop_last() =~= stack);
    if p >= ts.len() {
        lemma_follow_one(AcOpView::End, s);
    } else {
        let t = ts[p as int];
        if starts(t, "loc "@) {
            let (o, q) = obj_body(ts, p + 1, nv);
            lemma_obj_follow(ts, p + 1, nv, stack);
            let head = seq![AcOpView::Loc(t.skip(4))];
            lemma_follow_append(head, o, s);
            lemma_follow_one(AcOpView::Loc(t.skip(4)), s);
        } else if starts(t, "numvert "@) {
            let k = min_nat(count_of(t.skip(8)), (ts.len() - (p + 1)) as nat);
            let (o, q) = obj_body(ts, p + 1 + k, k);
            lemma_obj_follow(ts, p + 1 + k, k, stack);
            let vs = ts.subrange((p + 1) as int, (p + 1 + k) as int);
            let head = seq![AcOpView::Verts(vs)];
            lemma_follow_append(head, o, s);
            lemma_follow_one(AcOpView::Verts(vs), s);
            assert(s.drop_last().push(vs.len()) =~= stack.push(k));
        } else if starts(t, "numsurf "@) {
            let n = count_of(t.skip(8));
            lemma_surfs(ts, p + 1, n, nv);
            let (so, q) = surfs(ts, p + 1, n, nv);
            lemma_surfs_follow(ts, p + 1, n, nv, stack);
            let (o, r) = obj_body(ts, q, nv);
            lemma_obj_follow(ts, q, nv, stack);
            lemma_follow_append(so, o, s);
        } else if starts(t, "kids "@) {
            let n = count_of(t.skip(5));
            let (ko, q) = kids(ts, p + 1, n);
            lemma_kids_follow(ts, p + 1, n, s);
            let tail = seq![AcOpView::End];
            lemma_follow_append(ko, tail, s);
            lemma_follow_one(AcOpView::End, s);
        } else {
            lemma_obj_follow(ts, p + 1, nv, stack);
        }
    }
}

pub(crate) proof fn lemma_kids_follow(ts: Seq<Seq<char>>, p: nat, n: nat, stack: Seq<nat>)
    requires
        p <= ts.len(),
    ensures
        follow(kids(ts, p, n).0, stack) == Some(stack),
    decreases ts.len() - p, n + 1,
{
    if n > 0 {
        lemma_seek_object(ts, p);
        let q = seek_object(ts, p);
        if q < ts.len() {
            lemma_obj_body(ts, q + 1, 0);
            let (co, r) = obj_body(ts, q + 1, 0);
            lemma_obj_follow(ts, q + 1, 0, stack);
            let (ro, s2) = kids(ts, r, (n - 1) as nat);
            lemma_kids_follow(ts, r, (n - 1) as nat, stack);
            let head = seq![AcOpView::Object];
            lemma_follow_one(AcOpView::Object, stack);
            lemma_follow_append(head, co, stack);
            lemma_follow_append(head + co, ro, stack);
        }
    }
}


/// The first of the loaded models' `names` that equals `stem` when ASCII case
/// is ignored.
pub fn find_model(names: &Vec<String>, stem: &str) -> (r: Option<usize>)
    ensures
        match r {
            Some(i) => i < names@.len() && matches_kw(names@[i as int]@, stem@) && forall|j: int|
                0 <= j < i ==> !matches_kw(#[trigger] names@[j]@, stem@),
            None => forall|j: int| 0 <= j < names@.len() ==> !matches_kw(#[trigger] names@[j]@, stem@),
        },
{
    let mut i: usize = 0;
    while i < names.len()
        invariant
            i <= names@.len(),
            forall|j: int| 0 <= j < i ==> !matches_kw(#[trigger] names@[j]@, stem@),
        decreases names@.len() - i,
    {
        if eq_ignore_ascii_case(names[i].as_str(), stem) {
            return Some(i);
        }
        i += 1;
    }
    None
}

} // verus!
