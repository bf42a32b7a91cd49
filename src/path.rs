use vstd::prelude::*;
use crate::archive::{FileEntry, FileEntryView, lemma_names_view};

verus! {

/// The text that lossy UTF-8 decoding gives for `b`.
pub uninterp spec fn text_of(b: Seq<u8>) -> Seq<char>;

/// Relies on `String::from_utf8_lossy`: decodes bytes as UTF-8, putting a
/// replacement character for each invalid sequence; the text depends on the
/// bytes alone.
#[verifier::external_body]
fn decode_text(b: &[u8]) -> (r: String)
    ensures
        r@ == text_of(b@),
{
    String::from_utf8_lossy(b).into_owned()
}

/// The byte separates two directory levels of an index path.
pub open spec fn is_sep(b: u8) -> bool {
    b == 0x2f || b == 0x5c
}

/// The pieces of `s` between separators, left to right (never empty).
pub open spec fn segments(s: Seq<u8>) -> Seq<Seq<u8>>
    decreases s.len(),
{
    if s.len() == 0 {
        seq![Seq::empty()]
    } else {
        let p = segments(s.drop_last());
        if is_sep(s.last()) {
            p.push(Seq::empty())
        } else {
            p.update(p.len() - 1, p.last().push(s.last()))
        }
    }
}

/// The entry that an index path, offset and size describe.
pub open spec fn entry_view_of(name: Seq<u8>, offset: u64, size: u64) -> FileEntryView {
    let segs = segments(name);
    FileEntryView {
        file_name: text_of(segs.last()),
        full_path: text_of(name),
        dirs: Seq::new((segs.len() - 1) as nat, |i: int| text_of(segs[i])),
        file_offset: offset,
        file_size: size,
    }
}

/// The entry for an index path: the directories are the pieces before the
/// last separator, the name the piece after it.
pub fn make_entry(name: &[u8], offset: u64, size: u64) -> (r: FileEntry)
    ensures
        r@ == entry_view_of(name@, offset, size),
{
    let ghost done: Seq<Seq<u8>> = Seq::empty();
    let mut dirs: Vec<String> = Vec::new();
    let mut cur: Vec<u8> = Vec::new();
    let mut i: usize = 0;
    while i < name.len()
        invariant
            i <= name@.len(),
            segments(name@.subrange(0, i as int)) == done.push(cur@),
            dirs.deep_view() =~= Seq::new(done.len(), |k: int| text_of(done[k])),
        decreases name@.len() - i,
    {
        let b = name[i];
        assert(name@.subrange(0, i + 1).drop_last() =~= name@.subrange(0, i as int));
        if b == 0x2f || b == 0x5c {
            let t = decode_text(cur.as_slice());
            proof { lemma_names_view(&dirs); }
            let ghost old_dv = dirs.deep_view();
            dirs.push(t);
            proof { lemma_names_view(&dirs); }
            proof {
                let prev = done;
                done = done.push(cur@);
                assert(dirs.deep_view()[prev.len() as int] == text_of(done[prev.len() as int]));
                assert forall|k: int| 0 <= k < prev.len() implies dirs.deep_view()[k] == text_of(done[k]) by {
                    assert(done[k] == prev[k]);
                    assert(old_dv[k] == text_of(prev[k]));
                    assert(dirs.deep_view()[k] == old_dv[k]);
                }
                assert(dirs.deep_view() =~= Seq::new(done.len(), |k: int| text_of(done[k])));
            }
            cur = Vec::new();
            assert(segments(name@.subrange(0, i + 1)) =~= done.push(cur@));
        } else {
            cur.push(b);
            assert(segments(name@.subrange(0, i + 1)) =~= done.push(cur@));
        }
        i = i + 1;
    }
    assert(name@.subrange(0, name@.len() as int) =~= name@);
    let file_name = decode_text(cur.as_slice());
    let full_path = decode_text(name);
    let r = FileEntry { file_name, full_path, dirs, file_offset: offset, file_size: size };
    assert(r@.dirs =~= entry_view_of(name@, offset, size).dirs);
    r
}

} // verus!
