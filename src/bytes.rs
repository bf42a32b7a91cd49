use vstd::prelude::*;

verus! {

/// `sig` is a prefix of `buf`.
pub open spec fn starts_with(buf: Seq<u8>, sig: Seq<u8>) -> bool {
    sig.len() <= buf.len() && buf.subrange(0, sig.len() as int) =~= sig
}

/// Whether `buf` begins with the bytes of `sig`.
pub fn has_prefix(buf: &[u8], sig: &[u8]) -> (r: bool)
    ensures
        r == starts_with(buf@, sig@),
{
    if sig.len() > buf.len() {
        return false;
    }
    let mut i: usize = 0;
    while i < sig.len()
        invariant
            sig@.len() <= buf@.len(),
            i <= sig@.len(),
            forall|j: int| 0 <= j < i ==> buf@[j] == sig@[j],
        decreases sig@.len() - i,
    {
        if buf[i] != sig[i] {
            return false;
        }
        i = i + 1;
    }
    true
}

/// The little-endian value of the four bytes of `b` at `at`.
pub open spec fn le_u32(b: Seq<u8>, at: int) -> u32 {
    (b[at] as int + b[at + 1] as int * 0x100 + b[at + 2] as int * 0x10000 + b[at + 3] as int
        * 0x1000000) as u32
}

/// Reads a little-endian `u32` at `at`, or nothing where fewer than four bytes remain.
pub fn read_u32_le(b: &[u8], at: usize) -> (r: Option<u32>)
    ensures
        r is Some <==> at as int + 4 <= b@.len(),
        r is Some ==> r->Some_0 == le_u32(b@, at as int),
{
    if at > b.len() || b.len() - at < 4 {
        return None;
    }
    let v: u32 = b[at] as u32 + b[at + 1] as u32 * 0x100 + b[at + 2] as u32 * 0x10000
        + b[at + 3] as u32 * 0x1000000;
    Some(v)
}

} // verus!
