//! Little-endian integers and 16-byte identities inside byte sequences.

use vstd::prelude::*;

verus! {

/// The two bytes of `x`, least significant first.
pub open spec fn le16(x: u16) -> Seq<u8> {
    seq![(x % 0x100) as u8, (x / 0x100) as u8]
}

/// The four bytes of `x`, least significant first.
pub open spec fn le32(x: u32) -> Seq<u8> {
    le16((x % 0x1_0000) as u16) + le16((x / 0x1_0000) as u16)
}

/// The eight bytes of `x`, least significant first.
pub open spec fn le64(x: u64) -> Seq<u8> {
    le32((x % 0x1_0000_0000) as u32) + le32((x / 0x1_0000_0000) as u32)
}

/// The integer held by the two bytes of `s` from position `at`.
pub open spec fn at16(s: Seq<u8>, at: int) -> u16 {
    (s[at] + 0x100 * s[at + 1]) as u16
}

/// The integer held by the four bytes of `s` from position `at`.
pub open spec fn at32(s: Seq<u8>, at: int) -> u32 {
    (at16(s, at) + 0x1_0000 * at16(s, at + 2)) as u32
}

/// The integer held by the eight bytes of `s` from position `at`.
pub open spec fn at64(s: Seq<u8>, at: int) -> u64 {
    (at32(s, at) + 0x1_0000_0000 * at32(s, at + 4)) as u64
}

pub proof fn lemma_16(s: Seq<u8>, at: int, x: u16)
    requires
        0 <= at,
        at + 2 <= s.len(),
    ensures
        s.subrange(at, at + 2) == le16(x) <==> at16(s, at) == x,
{
    if at16(s, at) == x {
        assert(s.subrange(at, at + 2) =~= le16(x));
    }
    if s.subrange(at, at + 2) == le16(x) {
        assert(s[at] == s.subrange(at, at + 2)[0]);
        assert(s[at + 1] == s.subrange(at, at + 2)[1]);
    }
}

pub proof fn lemma_32(s: Seq<u8>, at: int, x: u32)
    requires
        0 <= at,
        at + 4 <= s.len(),
    ensures
        s.subrange(at, at + 4) == le32(x) <==> at32(s, at) == x,
{
    let low = (x % 0x1_0000) as u16;
    let high = (x / 0x1_0000) as u16;
    lemma_16(s, at, low);
    lemma_16(s, at + 2, high);
    let t = s.subrange(at, at + 4);
    let u = le16(low) + le16(high);
    assert(t =~= s.subrange(at, at + 2) + s.subrange(at + 2, at + 4));
    if t == u {
        assert(s.subrange(at, at + 2) =~= u.subrange(0, 2));
        assert(u.subrange(0, 2) =~= le16(low));
        assert(s.subrange(at + 2, at + 4) =~= u.subrange(2, 4));
        assert(u.subrange(2, 4) =~= le16(high));
    }
}

pub proof fn lemma_64(s: Seq<u8>, at: int, x: u64)
    requires
        0 <= at,
        at + 8 <= s.len(),
    ensures
        s.subrange(at, at + 8) == le64(x) <==> at64(s, at) == x,
{
    let low = (x % 0x1_0000_0000) as u32;
    let high = (x / 0x1_0000_0000) as u32;
    lemma_32(s, at, low);
    lemma_32(s, at + 4, high);
    let t = s.subrange(at, at + 8);
    let u = le32(low) + le32(high);
    assert(t =~= s.subrange(at, at + 4) + s.subrange(at + 4, at + 8));
    if t == u {
        assert(s.subrange(at, at + 4) =~= u.subrange(0, 4));
        assert(u.subrange(0, 4) =~= le32(low));
        assert(s.subrange(at + 4, at + 8) =~= u.subrange(4, 8));
        assert(u.subrange(4, 8) =~= le32(high));
    }
}

pub(crate) fn put16(out: &mut Vec<u8>, x: u16)
    ensures
        final(out)@ == old(out)@ + le16(x),
{
    out.push((x % 0x100) as u8);
    out.push((x / 0x100) as u8);
    assert(out@ =~= old(out)@ + le16(x));
}

pub(crate) fn put32(out: &mut Vec<u8>, x: u32)
    ensures
        final(out)@ == old(out)@ + le32(x),
{
    put16(out, (x % 0x1_0000) as u16);
    put16(out, (x / 0x1_0000) as u16);
    assert(out@ =~= old(out)@ + le32(x));
}

pub(crate) fn put64(out: &mut Vec<u8>, x: u64)
    ensures
        final(out)@ == old(out)@ + le64(x),
{
    put32(out, (x % 0x1_0000_0000) as u32);
    put32(out, (x / 0x1_0000_0000) as u32);
    assert(out@ =~= old(out)@ + le64(x));
}

pub(crate) fn get16(s: &[u8], at: usize) -> (x: u16)
    requires
        at + 2 <= s.len(),
    ensures
        x == at16(s@, at as int),
{
    s[at] as u16 + 0x100 * s[at + 1] as u16
}

pub(crate) fn get32(s: &[u8], at: usize) -> (x: u32)
    requires
        at + 4 <= s.len(),
    ensures
        x == at32(s@, at as int),
{
    get16(s, at) as u32 + 0x1_0000 * get16(s, at + 2) as u32
}

pub(crate) fn get64(s: &[u8], at: usize) -> (x: u64)
    requires
        at + 8 <= s.len(),
    ensures
        x == at64(s@, at as int),
{
    get32(s, at) as u64 + 0x1_0000_0000 * get32(s, at + 4) as u64
}

/// Whether every byte is zero.
pub open spec fn blank(id: Seq<u8>) -> bool {
    forall|i: int| 0 <= i < id.len() ==> #[trigger] id[i] == 0
}

pub(crate) fn is_blank(id: &[u8; 16]) -> (r: bool)
    ensures
        r == blank(id@),
{
    let mut i: usize = 0;
    while i < 16
        invariant
            i <= 16,
            forall|j: int| 0 <= j < i ==> #[trigger] id@[j] == 0,
        decreases 16 - i,
    {
        if id[i] != 0 {
            return false;
        }
        i += 1;
    }
    true
}

pub(crate) fn same(a: &[u8; 16], b: &[u8; 16]) -> (r: bool)
    ensures
        r == (*a == *b),
{
    let mut i: usize = 0;
    while i < 16
        invariant
            i <= 16,
            forall|j: int| 0 <= j < i ==> a@[j] == b@[j],
        decreases 16 - i,
    {
        if a[i] != b[i] {
            return false;
        }
        i += 1;
    }
    assert(*a =~= *b);
    true
}

pub(crate) fn put_id(out: &mut Vec<u8>, id: &[u8; 16])
    ensures
        final(out)@ == old(out)@ + id@,
{
    let mut i: usize = 0;
    while i < 16
        invariant
            i <= 16,
            out@ == old(out)@ + id@.subrange(0, i as int),
        decreases 16 - i,
    {
        out.push(id[i]);
        i += 1;
        assert(out@ =~= old(out)@ + id@.subrange(0, i as int));
    }
    assert(id@.subrange(0, 16) =~= id@);
}

pub(crate) fn get_id(s: &[u8], at: usize) -> (id: [u8; 16])
    requires
        at + 16 <= s.len(),
    ensures
        id@ == s@.subrange(at as int, at + 16),
{
    let mut id: [u8; 16] = [0;16];
    let mut i: usize = 0;
    while i < 16
        invariant
            i <= 16,
            at + 16 <= s.len(),
            forall|j: int| 0 <= j < i ==> id@[j] == s@[at + j],
        decreases 16 - i,
    {
        id[i] = s[at + i];
        i += 1;
    }
    assert(id@ =~= s@.subrange(at as int, at + 16));
    id
}

/// The bytes of `s` from position `at` on.
pub(crate) fn tail(s: &[u8], at: usize) -> (r: Vec<u8>)
    requires
        at <= s.len(),
    ensures
        r@ == s@.subrange(at as int, s.len() as int),
{
    vstd::slice::slice_to_vec(vstd::slice::slice_subrange(s, at, s.len()))
}

/// Appends `other` to `out`.
pub(crate) fn put_all(out: &mut Vec<u8>, other: &[u8])
    ensures
        final(out)@ == old(out)@ + other@,
{
    let mut i: usize = 0;
    while i < other.len()
        invariant
            i <= other.len(),
            out@ == old(out)@ + other@.subrange(0, i as int),
        decreases other.len() - i,
    {
        out.push(other[i]);
        i += 1;
        assert(out@ =~= old(out)@ + other@.subrange(0, i as int));
    }
    assert(other@.subrange(0, other.len() as int) =~= other@);
}

} // verus!
