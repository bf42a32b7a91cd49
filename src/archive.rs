use vstd::prelude::*;
use crate::error::AkaibuError;

verus! {

/// One logical file inside a container.
#[derive(Debug, Clone)]
pub struct FileEntry {
    /// The leaf name.
    pub file_name: String,
    /// The path inside the container, as its index writes it.
    pub full_path: String,
    /// The directories from the root down to the one holding the file.
    pub dirs: Vec<String>,
    /// Where the stored bytes begin in the container.
    pub file_offset: u64,
    /// How many bytes the file holds.
    pub file_size: u64,
}

pub struct FileEntryView {
    pub file_name: Seq<char>,
    pub full_path: Seq<char>,
    pub dirs: Seq<Seq<char>>,
    pub file_offset: u64,
    pub file_size: u64,
}

impl View for FileEntry {
    type V = FileEntryView;

    open spec fn view(&self) -> FileEntryView {
        FileEntryView {
            file_name: self.file_name@,
            full_path: self.full_path@,
            dirs: self.dirs.deep_view(),
            file_offset: self.file_offset,
            file_size: self.file_size,
        }
    }
}

/// The views of a list of entries.
pub open spec fn views(files: Seq<FileEntry>) -> Seq<FileEntryView> {
    Seq::new(files.len(), |i: int| files[i]@)
}

/// The names of a list, one for each of its strings.
pub open spec fn names_view(v: Seq<String>) -> Seq<Seq<char>> {
    Seq::new(v.len(), |i: int| v[i]@)
}

pub proof fn lemma_names_view(v: &Vec<String>)
    ensures
        v.deep_view() == names_view(v@),
        v.deep_view().len() == v@.len(),
        forall|i: int| 0 <= i < v@.len() ==> #[trigger] v.deep_view()[i] == v@[i]@,
{
    assert(v.deep_view() =~= names_view(v@));
}

/// A copy of a list of names.
pub fn copy_names(names: &Vec<String>) -> (r: Vec<String>)
    ensures
        r.deep_view() =~= names.deep_view(),
{
    let mut out: Vec<String> = Vec::new();
    let mut i: usize = 0;
    while i < names.len()
        invariant
            i <= names@.len(),
            out.deep_view() =~= names.deep_view().subrange(0, i as int),
        decreases names@.len() - i,
    {
        proof { lemma_names_view(&out); lemma_names_view(names); }
        out.push(names[i].clone());
        proof { lemma_names_view(&out); }
        i = i + 1;
    }
    out
}

impl FileEntry {
    /// A copy of this entry.
    pub fn duplicate(&self) -> (r: FileEntry)
        ensures
            r@ == self@,
    {
        FileEntry {
            file_name: self.file_name.clone(),
            full_path: self.full_path.clone(),
            dirs: copy_names(&self.dirs),
            file_offset: self.file_offset,
            file_size: self.file_size,
        }
    }
}

/// `p` names a directory that holds, directly or below, the directory `d`.
pub open spec fn is_prefix(p: Seq<Seq<char>>, d: Seq<Seq<char>>) -> bool {
    p.len() <= d.len() && d.subrange(0, p.len() as int) =~= p
}

/// `p` names a directory of the tree built from `files`: the root, or a
/// directory that some file lies under.
pub open spec fn dir_exists(files: Seq<FileEntryView>, p: Seq<Seq<char>>) -> bool {
    p.len() == 0 || exists|i: int| 0 <= i < files.len() && is_prefix(p, #[trigger] files[i].dirs)
}

/// The files that lie directly in the directory `d`, in index order.
pub open spec fn files_in(files: Seq<FileEntryView>, d: Seq<Seq<char>>) -> Seq<FileEntryView>
    decreases files.len(),
{
    if files.len() == 0 {
        Seq::empty()
    } else {
        let rest = files_in(files.drop_last(), d);
        if files.last().dirs == d {
            rest.push(files.last())
        } else {
            rest
        }
    }
}

/// Every step of a walk down `p` from the root enters an existing directory.
pub open spec fn walkable(files: Seq<FileEntryView>, p: Seq<Seq<char>>) -> bool {
    forall|k: int| 0 < k <= p.len() ==> dir_exists(files, #[trigger] p.subrange(0, k))
}

/// The listing of one directory: its subdirectories by name and its files.
pub struct Directory {
    pub directories: Vec<String>,
    pub files: Vec<FileEntry>,
}

/// A cursor over the directory tree of an opened archive.
pub struct NavigableDirectory {
    files: Vec<FileEntry>,
    cwd: Vec<String>,
}

/// Whether `p` followed by `name` leads into `d`.
fn leads_into(p: &Vec<String>, name: &String, d: &Vec<String>) -> (r: bool)
    ensures
        r == is_prefix(p.deep_view().push(name@), d.deep_view()),
{
    proof { lemma_names_view(p); lemma_names_view(d); }
    if d.len() <= p.len() {
        return false;
    }
    let mut i: usize = 0;
    while i < p.len()
        invariant
            p@.len() < d@.len(),
            i <= p@.len(),
            forall|j: int| 0 <= j < i ==> d.deep_view()[j] == p.deep_view()[j],
        decreases p@.len() - i,
    {
        if !(d[i] == p[i]) {
            assert(d.deep_view().subrange(0, p@.len() as int + 1)[i as int] != p.deep_view().push(name@)[i as int]);
            return false;
        }
        i = i + 1;
    }
    if d[p.len()] == *name {
        assert(d.deep_view().subrange(0, p@.len() as int + 1) =~= p.deep_view().push(name@));
        true
    } else {
        assert(d.deep_view().subrange(0, p@.len() as int + 1)[p@.len() as int] != p.deep_view().push(name@)[p@.len() as int]);
        false
    }
}

/// Whether `d` is exactly `p`.
fn same_dirs(p: &Vec<String>, d: &Vec<String>) -> (r: bool)
    ensures
        r == (d.deep_view() == p.deep_view()),
{
    proof { lemma_names_view(p); lemma_names_view(d); }
    if d.len() != p.len() {
        return false;
    }
    let mut i: usize = 0;
    while i < p.len()
        invariant
            p@.len() == d@.len(),
            i <= p@.len(),
            forall|j: int| 0 <= j < i ==> d.deep_view()[j] == p.deep_view()[j],
        decreases p@.len() - i,
    {
        if !(d[i] == p[i]) {
            assert(d.deep_view()[i as int] != p.deep_view()[i as int]);
            return false;
        }
        i = i + 1;
    }
    assert(d.deep_view() =~= p.deep_view());
    true
}

/// Whether `names` holds `n`.
fn holds_name(names: &Vec<String>, n: &String) -> (r: bool)
    ensures
        r == names.deep_view().contains(n@),
{
    proof { lemma_names_view(names); }
    let mut i: usize = 0;
    while i < names.len()
        invariant
            i <= names@.len(),
            names.deep_view().len() == names@.len(),
            forall|j: int| 0 <= j < i ==> names.deep_view()[j] != n@,
        decreases names@.len() - i,
    {
        if names[i] == *n {
            assert(names.deep_view()[i as int] == n@);
            return true;
        }
        i = i + 1;
    }
    false
}

impl NavigableDirectory {
    pub closed spec fn files_view(&self) -> Seq<FileEntryView> {
        views(self.files@)
    }

    pub closed spec fn cwd_view(&self) -> Seq<Seq<char>> {
        self.cwd.deep_view()
    }

    /// The cursor stands on a directory of the tree.
    pub open spec fn wf(&self) -> bool {
        dir_exists(self.files_view(), self.cwd_view())
    }

    /// A cursor on the root of the tree built from `files`.
    pub fn new(files: Vec<FileEntry>) -> (r: NavigableDirectory)
        ensures
            r.wf(),
            r.files_view() == views(files@),
            r.cwd_view() == Seq::<Seq<char>>::empty(),
    {
        let r = NavigableDirectory { files, cwd: Vec::new() };
        assert(r.cwd_view() =~= Seq::<Seq<char>>::empty());
        r
    }

    /// Every file of the tree, in index order.
    pub fn get_all_files(&self) -> (r: &Vec<FileEntry>)
        ensures
            views(r@) == self.files_view(),
    {
        &self.files
    }

    /// Whether the cursor is below the root.
    pub fn has_parent(&self) -> (r: bool)
        ensures
            r == (self.cwd_view().len() > 0),
    {
        self.cwd.len() > 0
    }

    /// The names from the root down to the current directory.
    pub fn current_path(&self) -> (r: Vec<String>)
        ensures
            r.deep_view() == self.cwd_view(),
    {
        copy_names(&self.cwd)
    }

    /// Descends into the subdirectory `name` of the current directory.
    pub fn move_dir(&mut self, name: &String) -> (r: Result<(), AkaibuError>)
        requires
            old(self).wf(),
        ensures
            final(self).wf(),
            final(self).files_view() == old(self).files_view(),
            dir_exists(old(self).files_view(), old(self).cwd_view().push(name@)) ==> r is Ok
                && final(self).cwd_view() == old(self).cwd_view().push(name@),
            !dir_exists(old(self).files_view(), old(self).cwd_view().push(name@)) ==> r
                == Err::<(), AkaibuError>(AkaibuError::EntryNotFound) && final(self).cwd_view()
                == old(self).cwd_view(),
    {
        let ghost fv = self.files_view();
        let ghost target = self.cwd_view().push(name@);
        let mut i: usize = 0;
        while i < self.files.len()
            invariant
                i <= self.files@.len(),
                fv == self.files_view(),
                fv == old(self).files_view(),
                self.cwd_view() == old(self).cwd_view(),
                old(self).wf(),
                target == self.cwd_view().push(name@),
                forall|j: int| 0 <= j < i ==> !is_prefix(target, #[trigger] fv[j].dirs),
            decreases self.files@.len() - i,
        {
            if leads_into(&self.cwd, name, &self.files[i].dirs) {
                assert(is_prefix(target, fv[i as int].dirs));
                self.cwd.push(name.clone());
                assert(self.cwd_view() =~= target);
                return Ok(());
            }
            i = i + 1;
        }
        Err(AkaibuError::EntryNotFound)
    }

    /// Goes up to the parent directory; at the root nothing changes and the
    /// answer is `EntryNotFound`.
    pub fn back_dir(&mut self) -> (r: Result<(), AkaibuError>)
        requires
            old(self).wf(),
        ensures
            final(self).wf(),
            final(self).files_view() == old(self).files_view(),
            old(self).cwd_view().len() == 0 ==> r == Err::<(), AkaibuError>(
                AkaibuError::EntryNotFound,
            ) && final(self).cwd_view() == old(self).cwd_view(),
            old(self).cwd_view().len() > 0 ==> r is Ok && final(self).cwd_view() == old(
                self,
            ).cwd_view().drop_last(),
    {
        if self.cwd.len() == 0 {
            return Err(AkaibuError::EntryNotFound);
        }
        let ghost before = self.cwd_view();
        let _ = self.cwd.pop();
        assert(self.cwd_view() =~= before.drop_last());
        proof {
            if self.cwd_view().len() > 0 {
                let i = choose|i: int| 0 <= i < self.files_view().len() && is_prefix(before, #[trigger] self.files_view()[i].dirs);
                assert(self.files_view()[i].dirs.subrange(0, self.cwd_view().len() as int) =~= self.cwd_view());
                assert(is_prefix(self.cwd_view(), self.files_view()[i].dirs));
            }
        }
        Ok(())
    }

    /// The listing of the current directory.
    pub fn get_current(&self) -> (r: Directory)
        requires
            self.wf(),
        ensures
            views(r.files@) == files_in(self.files_view(), self.cwd_view()),
            forall|n: Seq<char>| #[trigger] r.directories.deep_view().contains(n) <==> dir_exists(
                self.files_view(), self.cwd_view().push(n)),
            r.directories.deep_view().no_duplicates(),
    {
        let ghost fv = self.files_view();
        let ghost cwd = self.cwd_view();
        let mut names: Vec<String> = Vec::new();
        let mut files: Vec<FileEntry> = Vec::new();
        let mut i: usize = 0;
        while i < self.files.len()
            invariant
                i <= self.files@.len(),
                fv == self.files_view(),
                cwd == self.cwd_view(),
                views(files@) == files_in(fv.subrange(0, i as int), cwd),
                names.deep_view().no_duplicates(),
                forall|n: Seq<char>| #[trigger] names.deep_view().contains(n) <==> exists|j: int|
                    0 <= j < i && is_prefix(cwd.push(n), #[trigger] fv[j].dirs),
            decreases self.files@.len() - i,
        {
            let d = &self.files[i].dirs;
            assert(fv.subrange(0, i + 1).drop_last() =~= fv.subrange(0, i as int));
            if same_dirs(&self.cwd, d) {
                files.push(self.files[i].duplicate());
                assert(views(files@) =~= files_in(fv.subrange(0, i as int), cwd).push(fv[i as int]));
            }
            let ghost old_names = names.deep_view();
            if d.len() > self.cwd.len() {
                let n = &d[self.cwd.len()];
                proof { lemma_names_view(d); }
                if leads_into(&self.cwd, n, d) {
                    if !holds_name(&names, n) {
                        names.push(n.clone());
                        assert(names.deep_view() =~= old_names.push(n@));
                        assert(names.deep_view()[old_names.len() as int] == n@);
                    }
                }
                proof {
                    lemma_names_view(&names);
                    assert(old_names.len() <= names.deep_view().len());
                    assert(forall|k: int| 0 <= k < old_names.len() ==> names.deep_view()[k] == old_names[k]);
                    assert forall|m: Seq<char>| is_prefix(cwd.push(m), fv[i as int].dirs) implies m
                        == n@ by {
                        assert(fv[i as int].dirs.subrange(0, cwd.len() as int + 1)[cwd.len() as int]
                            == cwd.push(m)[cwd.len() as int]);
                    }
                    assert forall|m: Seq<char>| #[trigger] names.deep_view().contains(m) <==> exists|j: int|
                        0 <= j < i + 1 && is_prefix(cwd.push(m), #[trigger] fv[j].dirs) by {
                        if is_prefix(cwd.push(m), fv[i as int].dirs) {
                            assert(fv[i as int].dirs == d.deep_view());
                            assert(is_prefix(cwd.push(n@), d.deep_view()));
                            assert(names.deep_view().contains(n@));
                        }
                        if old_names.contains(m) {
                            let j = choose|j: int| 0 <= j < i && is_prefix(cwd.push(m), #[trigger] fv[j].dirs);
                            assert(0 <= j < i + 1 && is_prefix(cwd.push(m), fv[j].dirs));
                        }
                        if exists|j: int| 0 <= j < i && is_prefix(cwd.push(m), #[trigger] fv[j].dirs) {
                            assert(old_names.contains(m));
                            let k = choose|k: int| 0 <= k < old_names.len() && old_names[k] == m;
                            assert(names.deep_view()[k] == m);
                        }
                        if names.deep_view().contains(m) && !old_names.contains(m) {
                            assert(m == n@);
                            assert(is_prefix(cwd.push(m), fv[i as int].dirs));
                        }
                    }
                }
            } else {
                proof {
                    assert forall|m: Seq<char>| #[trigger] names.deep_view().contains(m) <==> exists|j: int|
                        0 <= j < i + 1 && is_prefix(cwd.push(m), #[trigger] fv[j].dirs) by {
                        assert(!is_prefix(cwd.push(m), fv[i as int].dirs));
                        if old_names.contains(m) {
                            let j = choose|j: int| 0 <= j < i && is_prefix(cwd.push(m), #[trigger] fv[j].dirs);
                            assert(0 <= j < i + 1 && is_prefix(cwd.push(m), fv[j].dirs));
                        }
                    }
                }
            }
            i = i + 1;
        }
        assert(fv.subrange(0, fv.len() as int) =~= fv);
        Directory { directories: names, files }
    }
}

/// The first index at or after `i` whose entry has the path `path`.
pub open spec fn find_from(files: Seq<FileEntryView>, path: Seq<char>, i: int) -> Option<int>
    decreases files.len() - i,
{
    if i < 0 || i >= files.len() {
        None
    } else if files[i].full_path == path {
        Some(i)
    } else {
        find_from(files, path, i + 1)
    }
}

/// The bytes of a stored entry: `size` bytes from `offset`, each combined by
/// exclusive or with the key byte at its position modulo the key's length
/// (left as they are under an empty key).
pub open spec fn stored_bytes(data: Seq<u8>, key: Seq<u8>, offset: int, size: int) -> Seq<u8> {
    Seq::new(
        size as nat,
        |j: int|
            if key.len() == 0 {
                data[offset + j]
            } else {
                data[offset + j] ^ key[j % key.len() as int]
            },
    )
}

/// Every entry lies inside the data.
pub open spec fn entries_in_bounds(files: Seq<FileEntryView>, len: nat) -> bool {
    forall|i: int| 0 <= i < files.len() ==> #[trigger] files[i].file_offset + files[i].file_size <= len
}

/// No two entries share a path.
pub open spec fn paths_unique(files: Seq<FileEntryView>) -> bool {
    forall|i: int, j: int|
        0 <= i < j < files.len() ==> #[trigger] files[i].full_path != #[trigger] files[j].full_path
}

/// Whether two entries of `files` share a path.
pub fn has_repeated_path(files: &Vec<FileEntry>) -> (r: bool)
    ensures
        r == !paths_unique(views(files@)),
{
    let ghost fv = views(files@);
    let mut j: usize = 0;
    while j < files.len()
        invariant
            j <= files@.len(),
            fv == views(files@),
            forall|a: int, b: int| 0 <= a < b < j ==> #[trigger] fv[a].full_path != #[trigger] fv[b].full_path,
        decreases files@.len() - j,
    {
        let mut i: usize = 0;
        while i < j
            invariant
                i <= j < files@.len(),
                fv == views(files@),
                forall|a: int| 0 <= a < i ==> #[trigger] fv[a].full_path != fv[j as int].full_path,
            decreases j - i,
        {
            if files[i].full_path == files[j].full_path {
                assert(fv[i as int].full_path == fv[j as int].full_path);
                return true;
            }
            i = i + 1;
        }
        j = j + 1;
    }
    false
}

/// An opened container: its bytes, the key its entries are stored under, and
/// its entries.
pub struct Archive {
    data: Vec<u8>,
    key: Vec<u8>,
    files: Vec<FileEntry>,
}

impl Archive {
    pub closed spec fn data_view(&self) -> Seq<u8> {
        self.data@
    }

    pub closed spec fn key_view(&self) -> Seq<u8> {
        self.key@
    }

    pub closed spec fn files_view(&self) -> Seq<FileEntryView> {
        views(self.files@)
    }

    pub open spec fn wf(&self) -> bool {
        entries_in_bounds(self.files_view(), self.data_view().len())
    }

    /// What extracting the entry with the path `path` gives, if the archive has one.
    pub open spec fn contents_of(&self, path: Seq<char>) -> Option<Seq<u8>> {
        match find_from(self.files_view(), path, 0) {
            Some(i) => Some(
                stored_bytes(
                    self.data_view(),
                    self.key_view(),
                    self.files_view()[i].file_offset as int,
                    self.files_view()[i].file_size as int,
                ),
            ),
            None => None,
        }
    }

    /// `r` is what extracting the entry with the path `path` gives.
    pub open spec fn extracted(&self, path: Seq<char>, r: Result<Vec<u8>, AkaibuError>) -> bool {
        match self.contents_of(path) {
            None => r == Err::<Vec<u8>, AkaibuError>(AkaibuError::EntryNotFound),
            Some(b) => r is Ok && r->Ok_0@ == b,
        }
    }

    /// An archive over `data` whose entries are stored under `key`.
    pub fn new(data: Vec<u8>, key: Vec<u8>, files: Vec<FileEntry>) -> (r: Archive)
        requires
            entries_in_bounds(views(files@), data@.len()),
        ensures
            r.wf(),
            r.data_view() == data@,
            r.key_view() == key@,
            r.files_view() == views(files@),
    {
        Archive { data, key, files }
    }

    /// Every entry, in index order.
    pub fn get_files(&self) -> (r: &Vec<FileEntry>)
        ensures
            views(r@) == self.files_view(),
    {
        &self.files
    }

    /// A copy of every entry, in index order.
    pub fn copy_files(&self) -> (r: Vec<FileEntry>)
        ensures
            views(r@) == self.files_view(),
    {
        let mut out: Vec<FileEntry> = Vec::new();
        let mut i: usize = 0;
        while i < self.files.len()
            invariant
                i <= self.files@.len(),
                out@.len() == i,
                views(out@) =~= self.files_view().subrange(0, i as int),
            decreases self.files@.len() - i,
        {
            let e = self.files[i].duplicate();
            proof {
                assert(self.files_view()[i as int] == self.files@[i as int]@);
            }
            out.push(e);
            proof {
                assert(views(out@)[i as int] == e@);
            }
            i = i + 1;
        }
        out
    }

    /// The bytes of the entry with the same path as `entry`.
    pub fn extract(&self, entry: &FileEntry) -> (r: Result<Vec<u8>, AkaibuError>)
        requires
            self.wf(),
        ensures
            self.extracted(entry.full_path@, r),
    {
        let ghost fv = self.files_view();
        let ghost path = entry.full_path@;
        let mut i: usize = 0;
        while i < self.files.len()
            invariant
                i <= self.files@.len(),
                fv == self.files_view(),
                find_from(fv, path, 0) == find_from(fv, path, i as int),
                self.wf(),
                path == entry.full_path@,
            decreases self.files@.len() - i,
        {
            proof {
                assert(fv[i as int] == self.files@[i as int]@);
            }
            if self.files[i].full_path == entry.full_path {
                return Ok(self.read_stored(i));
            }
            i = i + 1;
        }
        Err(AkaibuError::EntryNotFound)
    }

    fn read_stored(&self, i: usize) -> (r: Vec<u8>)
        requires
            self.wf(),
            i < self.files_view().len(),
        ensures
            r@ == stored_bytes(
                self.data_view(),
                self.key_view(),
                self.files_view()[i as int].file_offset as int,
                self.files_view()[i as int].file_size as int,
            ),
    {
        proof {
            assert(self.files_view()[i as int] == self.files@[i as int]@);
            assert(self.files_view()[i as int].file_offset + self.files_view()[i as int].file_size
                <= self.data@.len());
        }
        let n = self.data.len();
        let off = self.files[i].file_offset as usize;
        let size = self.files[i].file_size as usize;
        let mut out: Vec<u8> = Vec::new();
        let mut j: usize = 0;
        while j < size
            invariant
                off + size <= self.data@.len(),
                n == self.data@.len(),
                i < self.files_view().len(),
                j <= size,
                off == self.files_view()[i as int].file_offset,
                size == self.files_view()[i as int].file_size,
                out@ =~= stored_bytes(self.data@, self.key@, off as int, size as int).subrange(0, j as int),
            decreases size - j,
        {
            let b = if self.key.len() == 0 {
                self.data[off + j]
            } else {
                self.data[off + j] ^ self.key[j % self.key.len()]
            };
            out.push(b);
            j = j + 1;
        }
        out
    }
}

/// Extracting the same entry twice from an archive gives the same bytes, or
/// the same error.
pub proof fn lemma_extract_repeatable(
    a: &Archive,
    entry: &FileEntry,
    first: Result<Vec<u8>, AkaibuError>,
    second: Result<Vec<u8>, AkaibuError>,
)
    requires
        a.wf(),
        a.extracted(entry.full_path@, first),
        a.extracted(entry.full_path@, second),
    ensures
        first is Ok <==> second is Ok,
        first is Ok ==> first->Ok_0@ == second->Ok_0@,
        first is Err ==> first == second,
{
}

/// A file lies directly in the directory `d` exactly when it is among the
/// files and its directories are `d`.
pub proof fn lemma_files_in(files: Seq<FileEntryView>, d: Seq<Seq<char>>, v: FileEntryView)
    ensures
        files_in(files, d).contains(v) <==> files.contains(v) && v.dirs == d,
    decreases files.len(),
{
    if files.len() > 0 {
        let init = files.drop_last();
        lemma_files_in(init, d, v);
        let rest = files_in(init, d);
        assert(files =~= init.push(files.last()));
        if files.contains(v) && v.dirs == d {
            let i = choose|i: int| 0 <= i < files.len() && files[i] == v;
            if i < files.len() - 1 {
                assert(init[i] == v);
            }
        }
        if files_in(files, d).contains(v) {
            if files.last().dirs == d && v == files.last() {
                assert(files[files.len() - 1] == v);
            } else {
                if files.last().dirs == d {
                    let k = choose|k: int| 0 <= k < rest.push(files.last()).len() && rest.push(files.last())[k] == v;
                    assert(rest[k] == v);
                }
                let i = choose|i: int| 0 <= i < init.len() && init[i] == v;
                assert(files[i] == v);
            }
        }
        if init.contains(v) && v.dirs == d && files.last().dirs == d {
            let k = choose|k: int| 0 <= k < rest.len() && rest[k] == v;
            assert(rest.push(files.last())[k] == v);
        }
        if files.last() == v && v.dirs == d {
            assert(rest.push(files.last())[rest.len() as int] == v);
        }
    }
}

/// A file is among the entries exactly when a walk of `move_dir` steps from
/// the root reaches a directory whose listing holds it.
pub proof fn lemma_entries_reachable(files: Seq<FileEntryView>, v: FileEntryView)
    ensures
        files.contains(v) <==> exists|p: Seq<Seq<char>>|
            walkable(files, p) && #[trigger] files_in(files, p).contains(v),
{
    if files.contains(v) {
        let i = choose|i: int| 0 <= i < files.len() && files[i] == v;
        let p = v.dirs;
        assert forall|k: int| 0 < k <= p.len() implies dir_exists(files, #[trigger] p.subrange(0, k)) by {
            assert(is_prefix(p.subrange(0, k), files[i].dirs)) by {
                assert(files[i].dirs.subrange(0, k) =~= p.subrange(0, k));
            }
        }
        lemma_files_in(files, p, v);
    }
    if exists|p: Seq<Seq<char>>| walkable(files, p) && #[trigger] files_in(files, p).contains(v) {
        let p = choose|p: Seq<Seq<char>>| walkable(files, p) && #[trigger] files_in(files, p).contains(v);
        lemma_files_in(files, p, v);
    }
}

} // verus!
