use vstd::prelude::*;
use vstd::slice::slice_subrange;
use crate::grammar::{
    alpha_end, block_at, conditional_at, interpolation_at, is_alpha, literal_end, node_at,
    sequence_at,
};
use crate::markers::{
    interp_at, marker_starts_at, open_at, close_at, positive_at, BLOCK_CLOSE, BLOCK_OPEN, INTERP,
    POSITIVE, positive_marker,
};
use crate::syntax::{models, Node, Syntax};

verus! {

/// Whether `b` is an ASCII letter.
pub fn is_alpha_byte(b: u8) -> (r: bool)
    ensures
        r == is_alpha(b),
{
    (0x41 <= b && b <= 0x5a) || (0x61 <= b && b <= 0x7a)
}

/// End of the longest marker-free run of `s` from `i` on.
fn literal_end_from(s: &[u8], i: usize) -> (r: usize)
    requires
        i <= s.len(),
    ensures
        r as int == literal_end(s@, i as int),
        i <= r <= s.len(),
{
    let mut j: usize = i;
    while j < s.len() && !marker_starts_at(s, j)
        invariant
            i <= j <= s.len(),
            literal_end(s@, i as int) == literal_end(s@, j as int),
        decreases s.len() - j,
    {
        j = j + 1;
    }
    j
}

/// End of the longest run of ASCII letters of `s` from `i` on.
fn alpha_end_from(s: &[u8], i: usize) -> (r: usize)
    requires
        i <= s.len(),
    ensures
        r as int == alpha_end(s@, i as int),
        i <= r <= s.len(),
{
    let mut j: usize = i;
    while j < s.len() && is_alpha_byte(s[j])
        invariant
            i <= j <= s.len(),
            alpha_end(s@, i as int) == alpha_end(s@, j as int),
        decreases s.len() - j,
    {
        j = j + 1;
    }
    j
}

/// Interpolation rule at position `i` of `s`.
fn interpolation_from<'a>(s: &'a [u8], i: usize) -> (r: Option<(&'a [u8], usize)>)
    requires
        i <= s.len(),
    ensures
        match r {
            Some((id, e)) => interpolation_at(s@, i as int) == Some((id@, e as int)) && i < e <= s.len(),
            None => interpolation_at(s@, i as int) is None,
        },
{
    if !interp_at(s, i) {
        return None;
    }
    let a = i + INTERP.len();
    let b = alpha_end_from(s, a);
    if b > a && interp_at(s, b) {
        Some((slice_subrange(s, a, b), b + INTERP.len()))
    } else {
        None
    }
}

/// Block rule at position `i` of `s`.
fn block_from<'a>(s: &'a [u8], i: usize) -> (r: Option<(Vec<Node<'a>>, usize)>)
    requires
        i <= s.len(),
    ensures
        match r {
            Some((v, e)) => block_at(s@, i as int) == Some((models(v@), e as int)) && i < e <= s.len(),
            None => block_at(s@, i as int) is None,
        },
    decreases s.len() - i, 0int,
{
    if !open_at(s, i) {
        return None;
    }
    let (children, e) = sequence_from(s, i + BLOCK_OPEN.len());
    if close_at(s, e) {
        Some((children, e + BLOCK_CLOSE.len()))
    } else {
        None
    }
}

/// Conditional rule at position `i` of `s`.
fn conditional_from<'a>(s: &'a [u8], i: usize) -> (r: Option<(&'a [u8], Vec<Node<'a>>, usize)>)
    requires
        i <= s.len(),
    ensures
        match r {
            Some((id, v, e)) => conditional_at(s@, i as int) == Some((id@, models(v@), e as int))
                && i < e <= s.len(),
            None => conditional_at(s@, i as int) is None,
        },
    decreases s.len() - i, 1int,
{
    if !positive_at(s, i) {
        return None;
    }
    let a = i + POSITIVE.len();
    let b = alpha_end_from(s, a);
    if b == a {
        return None;
    }
    match block_from(s, b) {
        Some((children, e)) => Some((slice_subrange(s, a, b), children, e)),
        None => None,
    }
}

/// Node rule at position `i` of `s`.
fn node_from<'a>(s: &'a [u8], i: usize) -> (r: Option<(Node<'a>, usize)>)
    requires
        i <= s.len(),
    ensures
        match r {
            Some((n, e)) => node_at(s@, i as int) == Some((n.model(), e as int)) && i < e <= s.len(),
            None => node_at(s@, i as int) is None,
        },
    decreases s.len() - i, 2int,
{
    let l = literal_end_from(s, i);
    if l > i {
        return Some((Node::Literal { contents: slice_subrange(s, i, l) }, l));
    }
    match interpolation_from(s, i) {
        Some((identifier, e)) => Some((Node::Interpolation { identifier }, e)),
        None => match conditional_from(s, i) {
            Some((identifier, children, e)) => Some(
                (Node::Conditional { identifier, children }, e),
            ),
            None => None,
        },
    }
}

/// Sequence rule at position `i` of `s`.
fn sequence_from<'a>(s: &'a [u8], i: usize) -> (r: (Vec<Node<'a>>, usize))
    requires
        i <= s.len(),
    ensures
        sequence_at(s@, i as int) == (models(r.0@), r.1 as int),
        i <= r.1 <= s.len(),
    decreases s.len() - i, 3int,
{
    let mut nodes: Vec<Node<'a>> = Vec::new();
    let mut pos: usize = i;
    assert(models(nodes@) + sequence_at(s@, pos as int).0 =~= sequence_at(s@, pos as int).0);
    loop
        invariant
            i <= pos <= s.len(),
            sequence_at(s@, i as int) == (
                models(nodes@) + sequence_at(s@, pos as int).0,
                sequence_at(s@, pos as int).1,
            ),
        ensures
            i <= pos <= s.len(),
            sequence_at(s@, i as int) == (models(nodes@), pos as int),
        decreases s.len() - pos,
    {
        match node_from(s, pos) {
            Some((n, e)) => {
                let ghost before = nodes@;
                nodes.push(n);
                proof {
                    assert(nodes@.subrange(0, nodes@.len() - 1) =~= before);
                    assert(models(nodes@) + sequence_at(s@, e as int).0 =~= models(before)
                        + sequence_at(s@, pos as int).0);
                }
                pos = e;
            },
            None => {
                assert(models(nodes@) + Seq::<Syntax>::empty() =~= models(nodes@));
                break ;
            },
        }
    }
    (nodes, pos)
}

/// The bytes of `s` from position `e` to the end.
pub open spec fn rest_from(s: Seq<u8>, e: int) -> Seq<u8> {
    s.subrange(e, s.len() as int)
}

/// Interpolation rule at the start of `input`: the unconsumed bytes and the identifier.
pub fn interpolation<'a>(input: &'a [u8]) -> (r: Option<(&'a [u8], &'a [u8])>)
    ensures
        match interpolation_at(input@, 0) {
            Some((id, e)) => r matches Some((rest, got)) && got@ == id && rest@ == rest_from(
                input@,
                e,
            ),
            None => r is None,
        },
{
    match interpolation_from(input, 0) {
        Some((identifier, e)) => Some((slice_subrange(input, e, input.len()), identifier)),
        None => None,
    }
}

/// Node rule at the start of `input`: the unconsumed bytes and the node.
pub fn block<'a>(input: &'a [u8]) -> (r: Option<(&'a [u8], Node<'a>)>)
    ensures
        match node_at(input@, 0) {
            Some((n, e)) => r matches Some((rest, got)) && got.model() == n && rest@ == rest_from(
                input@,
                e,
            ),
            None => r is None,
        },
{
    match node_from(input, 0) {
        Some((n, e)) => Some((slice_subrange(input, e, input.len()), n)),
        None => None,
    }
}

/// Conditional rule at the start of `input`: the unconsumed bytes, and the
/// positive marker, the identifier and the parsed body.
pub fn conditional<'a>(input: &'a [u8]) -> (r: Option<(&'a [u8], (&'a [u8], &'a [u8], Vec<Node<'a>>))>)
    ensures
        match conditional_at(input@, 0) {
            Some((id, children, e)) => r matches Some((rest, (marker, got, v))) && marker@
                == positive_marker() && got@ == id && models(v@) == children && rest@ == rest_from(
                input@,
                e,
            ),
            None => r is None,
        },
{
    match conditional_from(input, 0) {
        Some((identifier, children, e)) => Some(
            (
                slice_subrange(input, e, input.len()),
                (slice_subrange(input, 0, POSITIVE.len()), identifier, children),
            ),
        ),
        None => None,
    }
}

/// Sequence rule at the start of `input`: the unconsumed bytes and the nodes.
/// Always succeeds, possibly with no nodes.
pub fn multi<'a>(input: &'a [u8]) -> (r: (&'a [u8], Vec<Node<'a>>))
    ensures
        models(r.1@) == sequence_at(input@, 0).0,
        r.0@ == rest_from(input@, sequence_at(input@, 0).1),
{
    let (nodes, e) = sequence_from(input, 0);
    (slice_subrange(input, e, input.len()), nodes)
}

/// What parsing `s` gives: the unconsumed bytes and the models of the nodes.
pub open spec fn parse_result(s: Seq<u8>) -> (Seq<u8>, Seq<Syntax>) {
    (rest_from(s, sequence_at(s, 0).1), sequence_at(s, 0).0)
}

/// Parses a whole template: the nodes of the sequence rule run on all of
/// `input`, and the bytes it left unconsumed (empty for a well-formed template).
pub fn parse<'a>(input: &'a [u8]) -> (r: (&'a [u8], Vec<Node<'a>>))
    ensures
        (r.0@, models(r.1@)) == parse_result(input@),
{
    multi(input)
}

} // verus!
