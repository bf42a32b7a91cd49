//! The `pf8` container: a three-byte magic, the index size and the entry
//! count, then one record per entry (name length, name, four reserved bytes,
//! offset, size; all integers little-endian `u32`). Entry bytes are stored
//! combined with the SHA-1 digest of the index region.
use vstd::prelude::*;
use vstd::slice::slice_subrange;
use crate::archive::{FileEntry, FileEntryView, views};
use crate::bytes::{le_u32, read_u32_le};
use crate::error::AkaibuError;
use crate::path::{entry_view_of, make_entry};

verus! {

/// The SHA-1 digest of `b`.
pub uninterp spec fn sha1_of(b: Seq<u8>) -> Seq<u8>;

/// Relies on `sha1_smol::Sha1::from` and `Digest::bytes`: the SHA-1 digest of
/// the bytes, which is twenty bytes long.
#[verifier::external_body]
fn sha1_digest(b: &[u8]) -> (r: Vec<u8>)
    ensures
        r@ == sha1_of(b@),
        r@.len() == 20,
{
    sha1_smol::Sha1::from(b).digest().bytes().to_vec()
}

/// Where the index region of `d` ends.
pub open spec fn index_end(d: Seq<u8>) -> int {
    7 + le_u32(d, 3) as int
}

/// The entries of the `n` records that start at `pos` and lie before `end`,
/// or nothing where a record does not fit or points outside the data.
pub open spec fn records(d: Seq<u8>, pos: int, n: nat, end: int) -> Option<Seq<FileEntryView>>
    decreases n,
{
    if n == 0 {
        Some(Seq::empty())
    } else if pos + 4 > end {
        None
    } else {
        let q = pos + 4 + le_u32(d, pos) as int;
        if q + 12 > end {
            None
        } else {
            let off = le_u32(d, q + 4);
            let size = le_u32(d, q + 8);
            if off as int + size as int > d.len() {
                None
            } else {
                match records(d, q + 12, (n - 1) as nat, end) {
                    Some(rest) => Some(
                        seq![entry_view_of(d.subrange(pos + 4, q), off as u64, size as u64)] + rest,
                    ),
                    None => None,
                }
            }
        }
    }
}

/// The entries of a `pf8` container, or nothing where its index is malformed.
pub open spec fn index_of(d: Seq<u8>) -> Option<Seq<FileEntryView>> {
    if d.len() < 11 || index_end(d) > d.len() || index_end(d) < 11 {
        None
    } else {
        records(d, 11, le_u32(d, 7) as nat, index_end(d))
    }
}

/// The key that entries of a `pf8` container are stored under.
pub open spec fn key_of(d: Seq<u8>) -> Seq<u8> {
    sha1_of(d.subrange(7, index_end(d)))
}

/// The entries `a` followed by those of `o`, if `o` has any.
pub open spec fn prepend(a: Seq<FileEntryView>, o: Option<Seq<FileEntryView>>) -> Option<
    Seq<FileEntryView>,
> {
    match o {
        Some(r) => Some(a + r),
        None => None,
    }
}

/// Every entry that `records` gives lies inside the data.
proof fn lemma_records_in_bounds(d: Seq<u8>, pos: int, n: nat, end: int)
    requires
        records(d, pos, n, end) is Some,
    ensures
        forall|i: int|
            0 <= i < records(d, pos, n, end)->Some_0.len() ==> #[trigger] records(
                d,
                pos,
                n,
                end,
            )->Some_0[i].file_offset + records(d, pos, n, end)->Some_0[i].file_size <= d.len(),
    decreases n,
{
    if n > 0 {
        let q = pos + 4 + le_u32(d, pos) as int;
        lemma_records_in_bounds(d, q + 12, (n - 1) as nat, end);
        let rest = records(d, q + 12, (n - 1) as nat, end)->Some_0;
        let all = records(d, pos, n, end)->Some_0;
        assert forall|i: int| 0 < i < all.len() implies #[trigger] all[i].file_offset
            + all[i].file_size <= d.len() by {
            assert(all[i] == rest[i - 1]);
        }
    }
}

/// Reads the index of a `pf8` container: its entries and the key they are stored under.
pub fn read_index(d: &[u8]) -> (r: Result<(Vec<FileEntry>, Vec<u8>), AkaibuError>)
    ensures
        index_of(d@) is None ==> r == Err::<(Vec<FileEntry>, Vec<u8>), AkaibuError>(
            AkaibuError::MalformedIndex,
        ),
        index_of(d@) is Some ==> r is Ok && views(r->Ok_0.0@) == index_of(d@)->Some_0
            && r->Ok_0.1@ == key_of(d@),
{
    if d.len() < 11 {
        return Err(AkaibuError::MalformedIndex);
    }
    let index_size = read_u32_le(d, 3).unwrap();
    let count = read_u32_le(d, 7).unwrap();
    if index_size as usize > d.len() - 7 || (index_size as usize) < 4 {
        return Err(AkaibuError::MalformedIndex);
    }
    let end: usize = 7 + index_size as usize;
    let ghost dv = d@;
    let mut files: Vec<FileEntry> = Vec::new();
    let mut pos: usize = 11;
    let mut i: u32 = 0;
    while i < count
        invariant
            dv == d@,
            11 <= pos <= end <= d@.len(),
            end == index_end(dv),
            count == le_u32(dv, 7),
            i <= count,
            index_of(dv) == prepend(views(files@), records(dv, pos as int, (count - i) as nat, end as int)),
        decreases count - i,
    {
        let ghost before = views(files@);
        if end - pos < 4 {
            return Err(AkaibuError::MalformedIndex);
        }
        let len = read_u32_le(d, pos).unwrap() as usize;
        if end - pos - 4 < len || end - pos - 4 - len < 12 {
            return Err(AkaibuError::MalformedIndex);
        }
        let q: usize = pos + 4 + len;
        let off = read_u32_le(d, q + 4).unwrap();
        let size = read_u32_le(d, q + 8).unwrap();
        if off as u64 + size as u64 > d.len() as u64 {
            return Err(AkaibuError::MalformedIndex);
        }
        let name = slice_subrange(d, pos + 4, q);
        let e = make_entry(name, off as u64, size as u64);
        files.push(e);
        proof {
            assert(views(files@) =~= before.push(e@));
            let tail = records(dv, q + 12, (count - i - 1) as nat, end as int);
            if tail is Some {
                assert(before + (seq![e@] + tail->Some_0) =~= before.push(e@) + tail->Some_0);
            }
        }
        pos = q + 12;
        i = i + 1;
    }
    assert(views(files@) + Seq::<FileEntryView>::empty() =~= views(files@));
    let key = sha1_digest(slice_subrange(d, 7, end));
    Ok((files, key))
}

/// Every entry of a well-formed `pf8` index lies inside the data.
pub proof fn lemma_index_in_bounds(d: Seq<u8>)
    requires
        index_of(d) is Some,
    ensures
        forall|i: int|
            0 <= i < index_of(d)->Some_0.len() ==> #[trigger] index_of(d)->Some_0[i].file_offset
                + index_of(d)->Some_0[i].file_size <= d.len(),
{
    lemma_records_in_bounds(d, 11, le_u32(d, 7) as nat, index_end(d));
}

} // verus!
