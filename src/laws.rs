use vstd::prelude::*;
use crate::grammar::{
    alpha_end, block_at, conditional_at, interpolation_at, is_alpha, literal_end, node_at,
    sequence_at,
};
use crate::markers::{
    any_marker_at, close_marker, interp_marker, marker_at, open_marker, positive_marker,
};
use crate::parser::{parse_result, rest_from};
use crate::syntax::Syntax;

verus! {

/// The bytes that a node stands for: literal text as it is, an interpolation
/// between its markers, a conditional with its markers and its rendered body.
pub open spec fn render(n: Syntax) -> Seq<u8>
    decreases n,
{
    match n {
        Syntax::Literal(contents) => contents,
        Syntax::Interpolation(id) => interp_marker() + id + interp_marker(),
        Syntax::Conditional(id, children) => positive_marker() + id + open_marker() + render_all(
            children,
        ) + close_marker(),
    }
}

/// The bytes that a node sequence stands for, node after node.
pub open spec fn render_all(ns: Seq<Syntax>) -> Seq<u8>
    decreases ns,
{
    if ns.len() == 0 {
        Seq::empty()
    } else {
        render(ns[0]) + render_all(ns.subrange(1, ns.len() as int))
    }
}

proof fn lemma_literal_end_bounds(s: Seq<u8>, i: int)
    requires
        0 <= i <= s.len(),
    ensures
        i <= literal_end(s, i) <= s.len(),
    decreases s.len() - i,
{
    if i < s.len() && !any_marker_at(s, i) {
        lemma_literal_end_bounds(s, i + 1);
    }
}

proof fn lemma_block_renders(s: Seq<u8>, i: int)
    requires
        0 <= i <= s.len(),
    ensures
        block_at(s, i) matches Some((children, e)) ==> i < e <= s.len() && open_marker()
            + render_all(children) + close_marker() == s.subrange(i, e),
    decreases s.len() - i, 0int,
{
    if marker_at(s, i, open_marker()) {
        let c = i + open_marker().len();
        lemma_sequence_renders(s, c);
        let (children, e) = sequence_at(s, c);
        if marker_at(s, e, close_marker()) {
            assert(s.subrange(i, e + close_marker().len()) =~= s.subrange(i, c) + s.subrange(c, e)
                + s.subrange(e, e + close_marker().len()));
        }
    }
}

proof fn lemma_conditional_renders(s: Seq<u8>, i: int)
    requires
        0 <= i <= s.len(),
    ensures
        conditional_at(s, i) matches Some((id, children, e)) ==> i < e <= s.len() && render(
            Syntax::Conditional(id, children),
        ) == s.subrange(i, e),
    decreases s.len() - i, 1int,
{
    let a = i + positive_marker().len();
    let b = alpha_end(s, a);
    if marker_at(s, i, positive_marker()) && a < b <= s.len() {
        lemma_block_renders(s, b);
        if let Some((children, e)) = block_at(s, b) {
            let id = s.subrange(a, b);
            assert(render(Syntax::Conditional(id, children)) =~= positive_marker() + id + (
            open_marker() + render_all(children) + close_marker()));
            assert(s.subrange(i, e) =~= s.subrange(i, a) + s.subrange(a, b) + s.subrange(b, e));
        }
    }
}

proof fn lemma_node_renders(s: Seq<u8>, i: int)
    requires
        0 <= i <= s.len(),
    ensures
        node_at(s, i) matches Some((n, e)) ==> i < e <= s.len() && render(n) == s.subrange(i, e),
    decreases s.len() - i, 2int,
{
    lemma_literal_end_bounds(s, i);
    if literal_end(s, i) <= i {
        if let Some((id, e)) = interpolation_at(s, i) {
            let a = i + interp_marker().len();
            let b = alpha_end(s, a);
            assert(s.subrange(i, e) =~= s.subrange(i, a) + s.subrange(a, b) + s.subrange(b, e));
        } else {
            lemma_conditional_renders(s, i);
        }
    }
}

proof fn lemma_sequence_renders(s: Seq<u8>, i: int)
    requires
        0 <= i <= s.len(),
    ensures
        i <= sequence_at(s, i).1 <= s.len(),
        render_all(sequence_at(s, i).0) == s.subrange(i, sequence_at(s, i).1),
    decreases s.len() - i, 3int,
{
    lemma_node_renders(s, i);
    if let Some((n, e)) = node_at(s, i) {
        if i < e <= s.len() {
            lemma_sequence_renders(s, e);
            let (rest, f) = sequence_at(s, e);
            let ns = seq![n] + rest;
            assert(ns[0] == n);
            assert(ns.subrange(1, ns.len() as int) =~= rest);
            assert(s.subrange(i, f) =~= s.subrange(i, e) + s.subrange(e, f));
        } else {
            assert(s.subrange(i, i) =~= Seq::<u8>::empty());
        }
    } else {
        assert(s.subrange(i, i) =~= Seq::<u8>::empty());
    }
}

/// Round trip: rendering the parsed nodes in order and appending the
/// unconsumed remainder gives back the input exactly.
pub proof fn lemma_round_trip(s: Seq<u8>)
    ensures
        render_all(parse_result(s).1) + parse_result(s).0 == s,
{
    lemma_sequence_renders(s, 0);
    let e = sequence_at(s, 0).1;
    assert(s.subrange(0, e) + rest_from(s, e) =~= s);
}

proof fn lemma_literal_run(s: Seq<u8>, i: int, j: int)
    requires
        0 <= i <= j <= s.len(),
        forall|k: int| i <= k < j ==> !any_marker_at(s, k),
        j == s.len() || any_marker_at(s, j),
    ensures
        literal_end(s, i) == j,
    decreases j - i,
{
    if i < j {
        lemma_literal_run(s, i + 1, j);
    }
}

proof fn lemma_alpha_run(s: Seq<u8>, i: int, j: int)
    requires
        0 <= i <= j < s.len(),
        forall|k: int| i <= k < j ==> is_alpha(s[k]),
        !is_alpha(s[j]),
    ensures
        alpha_end(s, i) == j,
    decreases j - i,
{
    if i < j {
        lemma_alpha_run(s, i + 1, j);
    }
}

/// No node starts where nothing is left.
proof fn lemma_nothing_at_end(s: Seq<u8>)
    ensures
        sequence_at(s, s.len() as int) == (Seq::<Syntax>::empty(), s.len() as int),
{
    lemma_literal_run(s, s.len() as int, s.len() as int);
}

/// No node starts at a block-close marker: a sequence stops there.
proof fn lemma_stops_at_close(s: Seq<u8>, i: int)
    requires
        marker_at(s, i, close_marker()),
    ensures
        sequence_at(s, i) == (Seq::<Syntax>::empty(), i),
{
    assert(s.subrange(i, i + 10)[6] == s[i + 6]);
    assert(s.subrange(i, i + 9)[6] == s[i + 6]);
    assert(close_marker()[6] == 0x93);
    assert(interp_marker()[6] == 0x9d);
    assert(positive_marker()[6] == 0x98);
    assert(any_marker_at(s, i));
    assert(literal_end(s, i) == i);
    assert(!marker_at(s, i, interp_marker()));
    assert(interpolation_at(s, i) is None);
    assert(!marker_at(s, i, positive_marker()));
    assert(conditional_at(s, i) is None);
    assert(node_at(s, i) is None);
}

/// Input without markers: a single literal holding all of it, nothing left over.
pub proof fn lemma_marker_free_is_one_literal(s: Seq<u8>)
    requires
        s.len() > 0,
        forall|i: int| 0 <= i < s.len() ==> !any_marker_at(s, i),
    ensures
        parse_result(s) == (Seq::<u8>::empty(), seq![Syntax::Literal(s)]),
{
    lemma_literal_run(s, 0, s.len() as int);
    lemma_nothing_at_end(s);
    assert(node_at(s, 0) == Some((Syntax::Literal(s.subrange(0, s.len() as int)), s.len() as int)));
    assert(s.subrange(0, s.len() as int) =~= s);
    assert(seq![Syntax::Literal(s)] + Seq::<Syntax>::empty() =~= seq![Syntax::Literal(s)]);
    assert(rest_from(s, s.len() as int) =~= Seq::<u8>::empty());
}

/// Empty input: no nodes and nothing left over.
pub proof fn lemma_empty_input()
    ensures
        parse_result(Seq::<u8>::empty()) == (Seq::<u8>::empty(), Seq::<Syntax>::empty()),
{
    let s = Seq::<u8>::empty();
    lemma_nothing_at_end(s);
    assert(rest_from(s, 0) =~= s);
}

/// An interpolation marker followed, up to the next interpolation marker, by
/// bytes that are empty or not all ASCII letters is no interpolation; no
/// other node starts there either.
pub proof fn lemma_bad_identifier_rejected(x: Seq<u8>, tail: Seq<u8>)
    requires
        x.len() == 0 || exists|j: int| 0 <= j < x.len() && !is_alpha(x[j]),
        forall|j: int|
            0 <= j < x.len() ==> !#[trigger] marker_at(x + interp_marker(), j, interp_marker()),
    ensures
        interpolation_at(interp_marker() + x + interp_marker() + tail, 0) is None,
        node_at(interp_marker() + x + interp_marker() + tail, 0) is None,
{
    let m = interp_marker();
    let s = m + x + m + tail;
    let a = m.len() as int;
    assert(s.subrange(0, a) =~= m);
    assert(any_marker_at(s, 0));
    lemma_literal_run(s, 0, 0);
    if x.len() == 0 {
        assert(s[a] == m[0]);
        lemma_alpha_run(s, a, a);
    } else {
        let j = choose|j: int| 0 <= j < x.len() && !is_alpha(x[j]);
        assert(s[a + j] == x[j]);
        lemma_alpha_stops(s, a, a + j);
        let b = alpha_end(s, a);
        if b > a {
            assert(!marker_at(x + m, b - a, m));
            assert(s.subrange(b, b + 9) =~= (x + m).subrange(b - a, b - a + 9));
        }
    }
    assert(s.subrange(0, 9)[6] == s[6]);
    assert(positive_marker()[6] != m[6]);
}

proof fn lemma_alpha_stops(s: Seq<u8>, i: int, p: int)
    requires
        0 <= i <= p < s.len(),
        !is_alpha(s[p]),
    ensures
        i <= alpha_end(s, i) <= p,
    decreases p - i,
{
    if i < p && is_alpha(s[i]) {
        lemma_alpha_stops(s, i + 1, p);
    }
}

proof fn lemma_marker_shift(pre: Seq<u8>, w: Seq<u8>, j: int)
    requires
        0 <= j < w.len(),
    ensures
        any_marker_at(pre + w, pre.len() + j) == any_marker_at(w, j),
{
    let s = pre + w;
    let k = pre.len() + j;
    assert(s.subrange(k, k + 9) =~= w.subrange(j, j + 9) || k + 9 > s.len());
    assert(s.subrange(k, k + 10) =~= w.subrange(j, j + 10) || k + 10 > s.len());
    assert(s.subrange(k, k + 13) =~= w.subrange(j, j + 13) || k + 13 > s.len());
}

/// A marker `m` that is not found at `j` inside `t` is not found there either
/// once bytes that begin with a block-close marker follow `t`, when no byte of
/// `m` after its first one could start a block-close marker.
proof fn lemma_no_straddle(t: Seq<u8>, u: Seq<u8>, j: int, m: Seq<u8>)
    requires
        0 <= j < t.len(),
        !marker_at(t, j, m),
        u.len() >= 2,
        u[0] == 0xc4,
        u[1] == 0x91,
        forall|k: int|
            1 <= k < m.len() ==> !(#[trigger] m[k] == 0xc4 && (k + 1 < m.len() ==> m[k + 1] == 0x91)),
    ensures
        !marker_at(t + u, j, m),
{
    let s = t + u;
    if j + m.len() <= t.len() {
        assert(s.subrange(j, j + m.len()) =~= t.subrange(j, j + m.len()));
    } else if marker_at(s, j, m) {
        let k = t.len() - j;
        assert(s.subrange(j, j + m.len())[k] == s[t.len() as int]);
        if k + 1 < m.len() {
            assert(s.subrange(j, j + m.len())[k + 1] == s[t.len() + 1int]);
        }
        assert(m[k] == 0xc4);
    }
}

proof fn lemma_literal_before_close(t: Seq<u8>, u: Seq<u8>, j: int)
    requires
        0 <= j < t.len(),
        !any_marker_at(t, j),
        u.len() >= 10,
        u.subrange(0, 10) == close_marker(),
    ensures
        !any_marker_at(t + u, j),
{
    assert(u.subrange(0, 10)[0] == u[0]);
    assert(u.subrange(0, 10)[1] == u[1]);
    assert(forall|k: int| 1 <= k < 9 ==> positive_marker()[k] != 0xc4);
    assert(forall|k: int| 1 <= k < 13 && k != 7 ==> open_marker()[k] != 0xc4);
    assert(open_marker()[8] != 0x91);
    assert(forall|k: int| 1 <= k < 10 ==> close_marker()[k] != 0xc4);
    assert(forall|k: int| 1 <= k < 9 ==> interp_marker()[k] != 0xc4);
    lemma_no_straddle(t, u, j, positive_marker());
    lemma_no_straddle(t, u, j, open_marker());
    lemma_no_straddle(t, u, j, close_marker());
    lemma_no_straddle(t, u, j, interp_marker());
}

/// At a positive marker neither a literal nor an interpolation starts.
proof fn lemma_only_conditional_at_positive(s: Seq<u8>, i: int)
    requires
        marker_at(s, i, positive_marker()),
    ensures
        literal_end(s, i) == i,
        interpolation_at(s, i) is None,
{
    assert(any_marker_at(s, i));
    assert(s.subrange(i, i + 9)[6] == s[i + 6]);
    assert(positive_marker()[6] != interp_marker()[6]);
}

proof fn lemma_single_literal(s: Seq<u8>, i: int, k: int)
    requires
        0 <= i < k,
        literal_end(s, i) == k,
        sequence_at(s, k) == (Seq::<Syntax>::empty(), k),
    ensures
        sequence_at(s, i) == (seq![Syntax::Literal(s.subrange(i, k))], k),
{
    lemma_literal_end_bounds(s, i);
    let lit = Syntax::Literal(s.subrange(i, k));
    assert(node_at(s, i) == Some((lit, k)));
    assert(seq![lit] + Seq::<Syntax>::empty() =~= seq![lit]);
    assert(sequence_at(s, i) == (seq![lit] + sequence_at(s, k).0, k));
}

proof fn lemma_single_conditional(s: Seq<u8>, i: int, j: int, kids: Seq<Syntax>, k: int)
    requires
        marker_at(s, i, positive_marker()),
        i + 9 < j,
        alpha_end(s, i + 9) == j,
        marker_at(s, j, open_marker()),
        sequence_at(s, j + 13) == (kids, k),
        marker_at(s, k, close_marker()),
        sequence_at(s, k + 10) == (Seq::<Syntax>::empty(), k + 10),
    ensures
        sequence_at(s, i) == (seq![Syntax::Conditional(s.subrange(i + 9, j), kids)], k + 10),
{
    lemma_only_conditional_at_positive(s, i);
    lemma_sequence_renders(s, j + 13);
    let c = Syntax::Conditional(s.subrange(i + 9, j), kids);
    assert(block_at(s, j) == Some((kids, k + 10)));
    assert(conditional_at(s, i) == Some((s.subrange(i + 9, j), kids, k + 10)));
    assert(node_at(s, i) == Some((c, k + 10)));
    assert(seq![c] + Seq::<Syntax>::empty() =~= seq![c]);
    assert(sequence_at(s, i) == (seq![c] + sequence_at(s, k + 10).0, k + 10));
}

/// Nesting is kept: a conditional around a conditional around a literal
/// parses to one conditional, holding one conditional, holding one literal.
#[verifier::rlimit(60)]
pub proof fn lemma_nesting_preserved(a: Seq<u8>, b: Seq<u8>, t: Seq<u8>)
    requires
        a.len() > 0,
        b.len() > 0,
        t.len() > 0,
        forall|k: int| 0 <= k < a.len() ==> is_alpha(#[trigger] a[k]),
        forall|k: int| 0 <= k < b.len() ==> is_alpha(#[trigger] b[k]),
        forall|k: int| 0 <= k < t.len() ==> !any_marker_at(t, k),
    ensures
        parse_result(
            positive_marker() + a + open_marker() + positive_marker() + b + open_marker() + t
                + close_marker() + close_marker(),
        ) == (
            Seq::<u8>::empty(),
            seq![
                Syntax::Conditional(
                    a,
                    seq![Syntax::Conditional(b, seq![Syntax::Literal(t)])],
                ),
            ],
        ),
{
    let pm = positive_marker();
    let om = open_marker();
    let cm = close_marker();
    let head = pm + a + om + pm + b + om;
    let s = head + t + cm + cm;
    let n = s.len() as int;
    let pa = 9int;
    let o1 = pa + a.len();
    let c1 = o1 + 13;
    let pb = c1 + 9;
    let o2 = pb + b.len();
    let t0 = o2 + 13;
    let k1 = t0 + t.len();
    let k2 = k1 + 10;
    assert(n == k2 + 10);
    assert(s.subrange(0, pa) =~= pm);
    assert(s.subrange(o1, c1) =~= om);
    assert(s.subrange(c1, pb) =~= pm);
    assert(s.subrange(o2, t0) =~= om);
    assert(s.subrange(t0, k1) =~= t);
    assert(s.subrange(k1, k2) =~= cm);
    assert(s.subrange(k2, n) =~= cm);
    assert(s.subrange(pa, o1) =~= a);
    assert(s.subrange(pb, o2) =~= b);

    // the identifiers end where the open markers begin
    assert forall|k: int| pa <= k < o1 implies is_alpha(s[k]) by {
        assert(s[k] == s.subrange(pa, o1)[k - pa]);
    }
    assert(s[o1] == s.subrange(o1, c1)[0]);
    lemma_alpha_run(s, pa, o1);
    assert forall|k: int| pb <= k < o2 implies is_alpha(s[k]) by {
        assert(s[k] == s.subrange(pb, o2)[k - pb]);
    }
    assert(s[o2] == s.subrange(o2, t0)[0]);
    lemma_alpha_run(s, pb, o2);

    // the literal runs up to the first close marker
    let u = cm + cm;
    assert(u.subrange(0, 10) =~= cm);
    assert forall|k: int| t0 <= k < k1 implies !any_marker_at(s, k) by {
        lemma_literal_before_close(t, u, k - t0);
        assert(s =~= head + (t + u));
        lemma_marker_shift(head, t + u, k - t0);
    }
    assert(any_marker_at(s, k1));
    lemma_literal_run(s, t0, k1);
    assert(marker_at(s, k1, cm));
    assert(marker_at(s, k2, cm));
    assert(marker_at(s, o1, om));
    assert(marker_at(s, o2, om));
    assert(marker_at(s, 0, pm));
    assert(marker_at(s, c1, pm));

    lemma_stops_at_close(s, k1);
    lemma_stops_at_close(s, k2);
    lemma_nothing_at_end(s);
    lemma_single_literal(s, t0, k1);
    let lit = Syntax::Literal(t);
    lemma_single_conditional(s, c1, o2, seq![lit], k1);
    let inner = Syntax::Conditional(b, seq![lit]);
    lemma_single_conditional(s, 0, o1, seq![inner], k2);
    assert(rest_from(s, n) =~= Seq::<u8>::empty());
}

} // verus!
