use vstd::prelude::*;
use crate::markers::{any_marker_at, close_marker, interp_marker, marker_at, open_marker, positive_marker};
use crate::syntax::Syntax;

verus! {

/// An ASCII letter, `A`..=`Z` or `a`..=`z`.
pub open spec fn is_alpha(b: u8) -> bool {
    (0x41 <= b && b <= 0x5a) || (0x61 <= b && b <= 0x7a)
}

/// End of the longest run from `i` on that holds no marker.
pub open spec fn literal_end(s: Seq<u8>, i: int) -> int
    decreases s.len() - i,
{
    if i < 0 || i >= s.len() || any_marker_at(s, i) {
        i
    } else {
        literal_end(s, i + 1)
    }
}

/// End of the longest run of ASCII letters from `i` on.
pub open spec fn alpha_end(s: Seq<u8>, i: int) -> int
    decreases s.len() - i,
{
    if i < 0 || i >= s.len() || !is_alpha(s[i]) {
        i
    } else {
        alpha_end(s, i + 1)
    }
}

/// Interpolation rule at `i`: marker, one or more letters, marker.
/// Yields the identifier and the position after the closing marker.
pub open spec fn interpolation_at(s: Seq<u8>, i: int) -> Option<(Seq<u8>, int)> {
    let a = i + interp_marker().len();
    let b = alpha_end(s, a);
    if marker_at(s, i, interp_marker()) && b > a && marker_at(s, b, interp_marker()) {
        Some((s.subrange(a, b), b + interp_marker().len()))
    } else {
        None
    }
}

/// Block rule at `i`: open marker, a node sequence, close marker.
/// Yields the nested nodes and the position after the close marker.
pub open spec fn block_at(s: Seq<u8>, i: int) -> Option<(Seq<Syntax>, int)>
    decreases s.len() - i, 0int,
{
    if marker_at(s, i, open_marker()) {
        let (children, e) = sequence_at(s, i + open_marker().len());
        if marker_at(s, e, close_marker()) {
            Some((children, e + close_marker().len()))
        } else {
            None
        }
    } else {
        None
    }
}

/// Conditional rule at `i`: positive marker, one or more letters, block.
/// Yields the identifier, the nested nodes and the position after the block.
pub open spec fn conditional_at(s: Seq<u8>, i: int) -> Option<(Seq<u8>, Seq<Syntax>, int)>
    decreases s.len() - i, 1int,
{
    let a = i + positive_marker().len();
    let b = alpha_end(s, a);
    if marker_at(s, i, positive_marker()) && a < b <= s.len() {
        match block_at(s, b) {
            Some((children, e)) => Some((s.subrange(a, b), children, e)),
            None => None,
        }
    } else {
        None
    }
}

/// Node rule at `i`: a literal run, else an interpolation, else a conditional.
pub open spec fn node_at(s: Seq<u8>, i: int) -> Option<(Syntax, int)>
    decreases s.len() - i, 2int,
{
    let l = literal_end(s, i);
    if l > i {
        Some((Syntax::Literal(s.subrange(i, l)), l))
    } else {
        match interpolation_at(s, i) {
            Some((id, e)) => Some((Syntax::Interpolation(id), e)),
            None => match conditional_at(s, i) {
                Some((id, children, e)) => Some((Syntax::Conditional(id, children), e)),
                None => None,
            },
        }
    }
}

/// Sequence rule at `i`: nodes one after another for as long as the node
/// rule matches and moves forward. Yields the nodes and where they end.
pub open spec fn sequence_at(s: Seq<u8>, i: int) -> (Seq<Syntax>, int)
    decreases s.len() - i, 3int,
{
    match node_at(s, i) {
        Some((n, e)) => if i < e <= s.len() {
            let (rest, f) = sequence_at(s, e);
            (seq![n] + rest, f)
        } else {
            (Seq::empty(), i)
        },
        None => (Seq::empty(), i),
    }
}

} // verus!
