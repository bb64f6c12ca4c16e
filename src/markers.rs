use vstd::prelude::*;

verus! {

/// Opens a positive conditional; followed by its identifier and a block.
pub const POSITIVE: [u8; 9] = [0xc4, 0x91, 0xc5, 0xba, 0xe2, 0x80, 0x98, 0xc5, 0xa4];

/// Opens the body of a conditional.
pub const BLOCK_OPEN: [u8; 13] = [
    0xc3, 0xa2, 0xc5, 0x9b, 0xe2, 0x80, 0x99, 0xc4, 0x8f, 0xc2, 0xb8, 0xc5, 0xb9,
];

/// Closes the body of a conditional.
pub const BLOCK_CLOSE: [u8; 10] = [0xc4, 0x91, 0xc5, 0xba, 0xe2, 0x80, 0x93, 0xe2, 0x80, 0xb9];

/// Surrounds the identifier of an interpolation on both sides.
pub const INTERP: [u8; 9] = [0xc4, 0x91, 0xc5, 0xba, 0xe2, 0x80, 0x9d, 0xc2, 0xa4];

pub open spec fn positive_marker() -> Seq<u8> {
    seq![0xc4u8, 0x91, 0xc5, 0xba, 0xe2, 0x80, 0x98, 0xc5, 0xa4]
}

pub open spec fn open_marker() -> Seq<u8> {
    seq![0xc3u8, 0xa2, 0xc5, 0x9b, 0xe2, 0x80, 0x99, 0xc4, 0x8f, 0xc2, 0xb8, 0xc5, 0xb9]
}

pub open spec fn close_marker() -> Seq<u8> {
    seq![0xc4u8, 0x91, 0xc5, 0xba, 0xe2, 0x80, 0x93, 0xe2, 0x80, 0xb9]
}

pub open spec fn interp_marker() -> Seq<u8> {
    seq![0xc4u8, 0x91, 0xc5, 0xba, 0xe2, 0x80, 0x9d, 0xc2, 0xa4]
}

/// The bytes of `s` from position `i` on start with `m`.
pub open spec fn marker_at(s: Seq<u8>, i: int, m: Seq<u8>) -> bool {
    0 <= i && i + m.len() <= s.len() && s.subrange(i, i + m.len()) == m
}

/// One of the four reserved markers starts at position `i` of `s`.
pub open spec fn any_marker_at(s: Seq<u8>, i: int) -> bool {
    marker_at(s, i, positive_marker()) || marker_at(s, i, open_marker()) || marker_at(
        s,
        i,
        close_marker(),
    ) || marker_at(s, i, interp_marker())
}

/// Whether the bytes of `s` from position `i` on start with `m`.
fn tag_at(s: &[u8], i: usize, m: &[u8]) -> (r: bool)
    ensures
        r == marker_at(s@, i as int, m@),
{
    if i > s.len() || m.len() > s.len() - i {
        return false;
    }
    let mut k: usize = 0;
    while k < m.len()
        invariant
            i + m.len() <= s.len(),
            k <= m.len(),
            forall|j: int| 0 <= j < k ==> s@[i + j] == m@[j],
        decreases m.len() - k,
    {
        if s[i + k] != m[k] {
            assert(s@.subrange(i as int, i + m@.len())[k as int] != m@[k as int]);
            return false;
        }
        k = k + 1;
    }
    assert(s@.subrange(i as int, i + m@.len()) =~= m@);
    true
}

/// Whether a positive marker starts at position `i` of `s`.
pub fn positive_at(s: &[u8], i: usize) -> (r: bool)
    ensures
        r == marker_at(s@, i as int, positive_marker()),
{
    let m = POSITIVE;
    assert(m@ == positive_marker());
    tag_at(s, i, &m)
}

/// Whether a block-open marker starts at position `i` of `s`.
pub fn open_at(s: &[u8], i: usize) -> (r: bool)
    ensures
        r == marker_at(s@, i as int, open_marker()),
{
    let m = BLOCK_OPEN;
    assert(m@ == open_marker());
    tag_at(s, i, &m)
}

/// Whether a block-close marker starts at position `i` of `s`.
pub fn close_at(s: &[u8], i: usize) -> (r: bool)
    ensures
        r == marker_at(s@, i as int, close_marker()),
{
    let m = BLOCK_CLOSE;
    assert(m@ == close_marker());
    tag_at(s, i, &m)
}

/// Whether an interpolation marker starts at position `i` of `s`.
pub fn interp_at(s: &[u8], i: usize) -> (r: bool)
    ensures
        r == marker_at(s@, i as int, interp_marker()),
{
    let m = INTERP;
    assert(m@ == interp_marker());
    tag_at(s, i, &m)
}

/// Whether any of the four markers starts at position `i` of `s`.
pub fn marker_starts_at(s: &[u8], i: usize) -> (r: bool)
    ensures
        r == any_marker_at(s@, i as int),
{
    positive_at(s, i) || open_at(s, i) || close_at(s, i) || interp_at(s, i)
}

} // verus!
