use vstd::prelude::*;
use crate::archive::{Archive, FileEntryView, NavigableDirectory, has_repeated_path, paths_unique};
use crate::error::AkaibuError;
use crate::{buriko, pf8};

verus! {

/// One way of reading a container family.
#[derive(Debug, Clone, Copy, PartialEq, Eq, Structural)]
pub enum Scheme {
    Acv1,
    Cpz7,
    Gxp,
    Pf8,
    Ypf,
    Buriko,
    EscArc2,
    Malie,
    Silky,
}

/// The entries and key that a scheme reads from `data`; `None` where the
/// index is malformed or gives two entries the same path.
pub open spec fn opened(s: Scheme, data: Seq<u8>) -> Option<(Seq<FileEntryView>, Seq<u8>)> {
    match read_by(s, data) {
        Some(r) => if paths_unique(r.0) {
            Some(r)
        } else {
            None
        },
        None => None,
    }
}

/// The entries and key that the index reader of a scheme gives for `data`,
/// before paths are checked to be unique.
pub open spec fn read_by(s: Scheme, data: Seq<u8>) -> Option<(Seq<FileEntryView>, Seq<u8>)> {
    match s {
        Scheme::Pf8 => match pf8::index_of(data) {
            Some(f) => Some((f, pf8::key_of(data))),
            None => None,
        },
        Scheme::Buriko => match buriko::index_of(data) {
            Some(f) => Some((f, Seq::<u8>::empty())),
            None => None,
        },
        _ => None,
    }
}

/// Schemes whose index reader this library has.
pub open spec fn implemented(s: Scheme) -> bool {
    s == Scheme::Pf8 || s == Scheme::Buriko
}

/// The display name of a scheme.
pub open spec fn scheme_name(s: Scheme) -> Seq<char> {
    match s {
        Scheme::Acv1 => seq!['A', 'C', 'V', '1'],
        Scheme::Cpz7 => seq!['C', 'P', 'Z', '7'],
        Scheme::Gxp => seq!['G', 'X', 'P'],
        Scheme::Pf8 => seq!['P', 'F', '8'],
        Scheme::Ypf => seq!['Y', 'P', 'F'],
        Scheme::Buriko => seq!['B', 'U', 'R', 'I', 'K', 'O', ' ', 'A', 'R', 'C', '2', '0'],
        Scheme::EscArc2 => seq!['E', 'S', 'C', '-', 'A', 'R', 'C', '2'],
        Scheme::Malie => seq!['M', 'a', 'l', 'i', 'e'],
        Scheme::Silky => seq!['S', 'i', 'l', 'k', 'y'],
    }
}

impl Scheme {
    /// The name shown when a scheme is to be picked.
    pub fn get_name(&self) -> (r: &'static str)
        ensures
            r@ == scheme_name(*self),
    {
        proof {
            reveal_strlit("ACV1");
            reveal_strlit("CPZ7");
            reveal_strlit("GXP");
            reveal_strlit("PF8");
            reveal_strlit("YPF");
            reveal_strlit("BURIKO ARC20");
            reveal_strlit("ESC-ARC2");
            reveal_strlit("Malie");
            reveal_strlit("Silky");
        }
        match self {
            Scheme::Acv1 => "ACV1",
            Scheme::Cpz7 => "CPZ7",
            Scheme::Gxp => "GXP",
            Scheme::Pf8 => "PF8",
            Scheme::Ypf => "YPF",
            Scheme::Buriko => "BURIKO ARC20",
            Scheme::EscArc2 => "ESC-ARC2",
            Scheme::Malie => "Malie",
            Scheme::Silky => "Silky",
        }
    }

    /// Opens a container held in `data`: the archive and a cursor on the root
    /// of its directory tree, both over the entries of the index.
    pub fn extract(&self, data: Vec<u8>) -> (r: Result<(Archive, NavigableDirectory), AkaibuError>)
        ensures
            !implemented(*self) ==> r == Err::<(Archive, NavigableDirectory), AkaibuError>(
                AkaibuError::Unimplemented,
            ),
            implemented(*self) && opened(*self, data@) is None ==> r == Err::<
                (Archive, NavigableDirectory),
                AkaibuError,
            >(AkaibuError::MalformedIndex),
            implemented(*self) && opened(*self, data@) is Some ==> r is Ok && ({
                let (a, nav) = r->Ok_0;
                let (f, key) = opened(*self, data@)->Some_0;
                &&& a.wf() && nav.wf()
                &&& a.data_view() == data@ && a.key_view() == key && a.files_view() == f
                &&& nav.files_view() == f && nav.cwd_view().len() == 0
            }),
    {
        match self {
            Scheme::Pf8 => {
                let (files, key) = match pf8::read_index(data.as_slice()) {
                    Ok(v) => v,
                    Err(e) => return Err(e),
                };
                proof {
                    pf8::lemma_index_in_bounds(data@);
                }
                if has_repeated_path(&files) {
                    return Err(AkaibuError::MalformedIndex);
                }
                Ok(Scheme::assemble(data, key, files))
            },
            Scheme::Buriko => {
                let files = match buriko::read_index(data.as_slice()) {
                    Ok(v) => v,
                    Err(e) => return Err(e),
                };
                if has_repeated_path(&files) {
                    return Err(AkaibuError::MalformedIndex);
                }
                Ok(Scheme::assemble(data, Vec::new(), files))
            },
            _ => Err(AkaibuError::Unimplemented),
        }
    }

    fn assemble(data: Vec<u8>, key: Vec<u8>, files: Vec<crate::archive::FileEntry>) -> (r: (
        Archive,
        NavigableDirectory,
    ))
        requires
            crate::archive::entries_in_bounds(crate::archive::views(files@), data@.len()),
        ensures
            r.0.wf() && r.1.wf(),
            r.0.data_view() == data@ && r.0.key_view() == key@,
            r.0.files_view() == crate::archive::views(files@),
            r.1.files_view() == crate::archive::views(files@),
            r.1.cwd_view().len() == 0,
    {
        let a = Archive::new(data, key, files);
        let nav = NavigableDirectory::new(a.copy_files());
        (a, nav)
    }
}

/// Picks the scheme to open a container with: the first of the list where
/// the family is universal, else the one at the caller's `choice`.
pub fn select_scheme(schemes: &Vec<Scheme>, universal: bool, choice: Option<usize>) -> (r: Result<
    Scheme,
    AkaibuError,
>)
    ensures
        universal && schemes@.len() > 0 ==> r == Ok::<Scheme, AkaibuError>(schemes@[0]),
        !universal && choice is Some && choice->Some_0 < schemes@.len() ==> r == Ok::<
            Scheme,
            AkaibuError,
        >(schemes@[choice->Some_0 as int]),
        (universal && schemes@.len() == 0) || (!universal && (choice is None || choice->Some_0
            >= schemes@.len())) ==> r == Err::<Scheme, AkaibuError>(AkaibuError::InvalidSelection),
{
    if universal {
        if schemes.len() == 0 {
            Err(AkaibuError::InvalidSelection)
        } else {
            Ok(schemes[0])
        }
    } else {
        match choice {
            Some(i) => if i < schemes.len() {
                Ok(schemes[i])
            } else {
                Err(AkaibuError::InvalidSelection)
            },
            None => Err(AkaibuError::InvalidSelection),
        }
    }
}

} // verus!
