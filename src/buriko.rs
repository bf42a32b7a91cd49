//! The `BURIKO ARC20` container: a twelve-byte magic and the entry count,
//! then one record of 0x80 bytes per entry (a name of up to 0x60 bytes ended
//! by a zero byte, then the offset and size, little-endian `u32`). Offsets
//! count from the end of the record table; entry bytes are stored as they are.
use vstd::prelude::*;
use vstd::slice::slice_subrange;
use crate::archive::{FileEntry, FileEntryView, entries_in_bounds, views};
use crate::bytes::{le_u32, read_u32_le};
use crate::error::AkaibuError;
use crate::path::{entry_view_of, make_entry};

verus! {

/// Size of one index record.
pub const RECORD: usize = 0x80;

/// Room for the name inside a record.
pub const NAME_ROOM: usize = 0x60;

/// The first position at or after `k` in `s` that holds a zero byte, or its length.
pub open spec fn zero_from(s: Seq<u8>, k: int) -> int
    decreases s.len() - k,
{
    if k < 0 || k >= s.len() || s[k] == 0 {
        k
    } else {
        zero_from(s, k + 1)
    }
}

/// Where the entry data begins: after the header and `n` records.
pub open spec fn data_base(n: u32) -> int {
    16 + n as int * 0x80
}

/// The name bytes of the record at `p`.
pub open spec fn record_name(d: Seq<u8>, p: int) -> Seq<u8> {
    let room = d.subrange(p, p + 0x60);
    room.subrange(0, zero_from(room, 0))
}

/// The entry of record `i`.
pub open spec fn record_entry(d: Seq<u8>, n: u32, i: int) -> FileEntryView {
    let p = 16 + i * 0x80;
    entry_view_of(
        record_name(d, p),
        (data_base(n) + le_u32(d, p + 0x60) as int) as u64,
        le_u32(d, p + 0x64) as u64,
    )
}

/// Record `i` points inside the data.
pub open spec fn record_fits(d: Seq<u8>, n: u32, i: int) -> bool {
    let p = 16 + i * 0x80;
    data_base(n) + le_u32(d, p + 0x60) as int + le_u32(d, p + 0x64) as int <= d.len()
}

/// The entries of the container, or nothing where its index is malformed.
pub open spec fn index_of(d: Seq<u8>) -> Option<Seq<FileEntryView>> {
    if d.len() < 16 {
        None
    } else {
        let n = le_u32(d, 12);
        if data_base(n) > d.len() || exists|i: int| 0 <= i < n && !#[trigger] record_fits(d, n, i) {
            None
        } else {
            Some(Seq::new(n as nat, |i: int| record_entry(d, n, i)))
        }
    }
}

/// The position of the first zero byte of `s`, or its length.
fn zero_position(s: &[u8]) -> (r: usize)
    ensures
        r == zero_from(s@, 0),
        r <= s@.len(),
{
    let mut k: usize = 0;
    while k < s.len() && s[k] != 0
        invariant
            k <= s@.len(),
            zero_from(s@, 0) == zero_from(s@, k as int),
        decreases s@.len() - k,
    {
        k = k + 1;
    }
    k
}

/// Reads the index: the entries, each with its offset counted from the start
/// of the container.
pub fn read_index(d: &[u8]) -> (r: Result<Vec<FileEntry>, AkaibuError>)
    ensures
        index_of(d@) is None ==> r == Err::<Vec<FileEntry>, AkaibuError>(
            AkaibuError::MalformedIndex,
        ),
        index_of(d@) is Some ==> r is Ok && views(r->Ok_0@) == index_of(d@)->Some_0,
        r is Ok ==> entries_in_bounds(views(r->Ok_0@), d@.len()),
{
    if d.len() < 16 {
        return Err(AkaibuError::MalformedIndex);
    }
    let n = read_u32_le(d, 12).unwrap();
    if (d.len() - 16) / RECORD < n as usize {
        return Err(AkaibuError::MalformedIndex);
    }
    let base: usize = 16 + n as usize * RECORD;
    let mut files: Vec<FileEntry> = Vec::new();
    let mut i: u32 = 0;
    while i < n
        invariant
            d@.len() >= 16,
            n == le_u32(d@, 12),
            base == data_base(n),
            base <= d@.len(),
            i <= n,
            views(files@) =~= Seq::new(i as nat, |k: int| record_entry(d@, n, k)),
            forall|k: int| 0 <= k < i ==> #[trigger] record_fits(d@, n, k),
            entries_in_bounds(views(files@), d@.len()),
        decreases n - i,
    {
        let p: usize = 16 + i as usize * RECORD;
        assert(p + 0x80 <= base) by (nonlinear_arith)
            requires p == 16 + i * 0x80, base == 16 + n * 0x80, i < n;
        let off = read_u32_le(d, p + 0x60).unwrap();
        let size = read_u32_le(d, p + 0x64).unwrap();
        if off as usize > d.len() - base || size as usize > d.len() - base - off as usize {
            assert(!record_fits(d@, n, i as int));
            return Err(AkaibuError::MalformedIndex);
        }
        let room = slice_subrange(d, p, p + NAME_ROOM);
        let z = zero_position(room);
        let name = slice_subrange(room, 0, z);
        let e = make_entry(name, (base + off as usize) as u64, size as u64);
        let ghost before = views(files@);
        files.push(e);
        assert(views(files@) =~= before.push(e@));
        i = i + 1;
    }
    Ok(files)
}

} // verus!
