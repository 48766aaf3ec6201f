use vstd::prelude::*;
use crate::info::{
    fresh_type_view, with_file, with_shares, FileTypeInfo, FileTypeInfoRecords, FileTypeView,
    LinkCounts, SymlinkInfo,
};

verus! {

/// Statistics per extension, in the order the extensions were first seen.
pub type TypeTable = Seq<(Seq<char>, FileTypeView)>;

/// Where `ext` stands in `m` (the last place, should it stand twice), or -1.
pub open spec fn find_ext(m: TypeTable, ext: Seq<char>) -> int
    decreases m.len(),
{
    if m.len() == 0 {
        -1
    } else if m.last().0 == ext {
        m.len() - 1
    } else {
        find_ext(m.drop_last(), ext)
    }
}

/// `find_ext` gives a place of `ext` in `m`, or -1 when `ext` is nowhere.
pub proof fn lemma_find_ext(m: TypeTable, ext: Seq<char>)
    ensures
        -1 <= find_ext(m, ext) < m.len(),
        find_ext(m, ext) >= 0 ==> m[find_ext(m, ext)].0 == ext,
        find_ext(m, ext) < 0 ==> forall|j: int| 0 <= j < m.len() ==> m[j].0 != ext,
    decreases m.len(),
{
    if m.len() > 0 && m.last().0 != ext {
        lemma_find_ext(m.drop_last(), ext);
        assert forall|j: int| 0 <= j < m.len() - 1 implies m[j] == m.drop_last()[j] by {}
    }
}

/// No extension stands twice in `m`.
pub open spec fn keys_unique(m: TypeTable) -> bool {
    forall|i: int, j: int| 0 <= i < j < m.len() ==> m[i].0 != m[j].0
}

/// No extension stands twice in `m`, and each stands for at least one file.
pub open spec fn table_ok(m: TypeTable) -> bool {
    &&& keys_unique(m)
    &&& forall|i: int| 0 <= i < m.len() ==> m[i].1.num_files > 0
}

/// The table `m` after one more file, with extension `ext`, at `path` and of
/// `size` bytes: the extension's statistics take the file in, and an extension
/// not seen before is added at the end.
pub open spec fn table_with_file(m: TypeTable, ext: Seq<char>, path: Seq<char>, size: u64) -> TypeTable {
    let i = find_ext(m, ext);
    if i >= 0 {
        m.update(i, (ext, with_file(m[i].1, path, size)))
    } else {
        m.push((ext, with_file(fresh_type_view(), path, size)))
    }
}

/// The table `m` with the shares of every extension computed.
pub open spec fn table_with_shares(m: TypeTable, total_bytes: int, total_files: int) -> TypeTable {
    m.map_values(|e: (Seq<char>, FileTypeView)| (e.0, with_shares(e.1, total_bytes, total_files)))
}

/// The number of files over all extensions of `m`.
pub open spec fn files_in(m: TypeTable) -> nat
    decreases m.len(),
{
    if m.len() == 0 {
        0
    } else {
        files_in(m.drop_last()) + m.last().1.num_files
    }
}

/// The number of bytes over all extensions of `m`.
pub open spec fn bytes_in(m: TypeTable) -> nat
    decreases m.len(),
{
    if m.len() == 0 {
        0
    } else {
        bytes_in(m.drop_last()) + m.last().1.size_in_bytes
    }
}

/// Whether one more file of `size` bytes with extension `ext` keeps the
/// counters of its extension within their machine types.
pub open spec fn table_fits(m: TypeTable, ext: Seq<char>, size: u64) -> bool {
    let i = find_ext(m, ext);
    i >= 0 ==> m[i].1.num_files + 1 <= u32::MAX && m[i].1.size_in_bytes + size <= u64::MAX
}

/// Tables with the same extensions in the same places find them alike.
pub proof fn lemma_find_ext_same_keys(m1: TypeTable, m2: TypeTable, ext: Seq<char>)
    requires
        m1.len() == m2.len(),
        forall|j: int| 0 <= j < m1.len() ==> m1[j].0 == m2[j].0,
    ensures
        find_ext(m1, ext) == find_ext(m2, ext),
    decreases m1.len(),
{
    if m1.len() > 0 {
        lemma_find_ext_same_keys(m1.drop_last(), m2.drop_last(), ext);
    }
}

/// Replacing one extension's statistics changes the totals by the difference.
pub proof fn lemma_sums_update(m: TypeTable, i: int, x: (Seq<char>, FileTypeView))
    requires
        0 <= i < m.len(),
    ensures
        files_in(m.update(i, x)) == files_in(m) - m[i].1.num_files + x.1.num_files,
        bytes_in(m.update(i, x)) == bytes_in(m) - m[i].1.size_in_bytes + x.1.size_in_bytes,
    decreases m.len(),
{
    let u = m.update(i, x);
    if i == m.len() - 1 {
        assert(u.drop_last() =~= m.drop_last());
    } else {
        assert(u.drop_last() =~= m.drop_last().update(i, x));
        lemma_sums_update(m.drop_last(), i, x);
    }
}

/// Each extension's counts are part of the totals.
pub proof fn lemma_entry_within_sums(m: TypeTable, i: int)
    requires
        0 <= i < m.len(),
    ensures
        m[i].1.num_files <= files_in(m),
        m[i].1.size_in_bytes <= bytes_in(m),
    decreases m.len(),
{
    if i < m.len() - 1 {
        lemma_entry_within_sums(m.drop_last(), i);
    }
}

/// What taking one file into a table does: the file's extension gains it,
/// the others stay as they were, and the totals grow by one file and its size.
pub proof fn lemma_table_with_file(m: TypeTable, ext: Seq<char>, path: Seq<char>, size: u64)
    requires
        keys_unique(m),
    ensures
        ({
            let r = table_with_file(m, ext, path, size);
            let i = find_ext(r, ext);
            &&& keys_unique(r)
            &&& files_in(r) == files_in(m) + 1
            &&& bytes_in(r) == bytes_in(m) + size
            &&& 0 <= i < r.len()
            &&& r[i].0 == ext
            &&& r[i].1.num_files > 0
            &&& (table_ok(m) ==> table_ok(r))
            &&& r[i].1 == with_file(
                if find_ext(m, ext) >= 0 {
                    m[find_ext(m, ext)].1
                } else {
                    fresh_type_view()
                },
                path,
                size,
            )
            &&& m.len() <= r.len()
            &&& forall|j: int| 0 <= j < m.len() && j != i ==> r[j] == m[j]
            &&& r.len() <= m.len() + 1
            &&& r.len() == m.len() + 1 ==> i == m.len()
            &&& forall|k: Seq<char>| find_ext(m, k) >= 0 ==> find_ext(r, k) >= 0
        }),
{
    let r = table_with_file(m, ext, path, size);
    lemma_find_ext(m, ext);
    let f = find_ext(m, ext);
    if f >= 0 {
        lemma_sums_update(m, f, (ext, with_file(m[f].1, path, size)));
        lemma_find_ext_same_keys(r, m, ext);
        assert forall|k: Seq<char>| find_ext(m, k) >= 0 implies find_ext(r, k) >= 0 by {
            lemma_find_ext_same_keys(r, m, k);
        }
    } else {
        assert(r.drop_last() =~= m);
        assert forall|k: Seq<char>| find_ext(m, k) >= 0 implies find_ext(r, k) >= 0 by {
            if k != ext {
                assert(find_ext(r, k) == find_ext(m, k));
            }
        }
    }
}

/// Statistics of the files found, grouped by extension.
#[derive(Debug, Clone, PartialEq, Eq)]
pub struct FileTypeMap {
    entries: Vec<(String, FileTypeInfo)>,
}

impl View for FileTypeMap {
    type V = TypeTable;

    closed spec fn view(&self) -> TypeTable {
        self.entries@.map_values(|e: (String, FileTypeInfo)| (e.0@, e.1@))
    }
}

impl FileTypeMap {
    /// No extension stands twice, and each stands for at least one file.
    pub open spec fn wf(&self) -> bool {
        table_ok(self@)
    }

    pub fn new() -> (r: FileTypeMap)
        ensures
            r@ == Seq::<(Seq<char>, FileTypeView)>::empty(),
            r.wf(),
    {
        let r = FileTypeMap { entries: Vec::new() };
        assert(r@ =~= Seq::<(Seq<char>, FileTypeView)>::empty());
        r
    }

    /// The number of extensions.
    pub fn len(&self) -> (r: usize)
        ensures
            r == self@.len(),
    {
        self.entries.len()
    }

    /// The extension at place `i`.
    pub fn extension(&self, i: usize) -> (r: &str)
        requires
            i < self@.len(),
        ensures
            r@ == self@[i as int].0,
    {
        self.entries[i].0.as_str()
    }

    /// The statistics at place `i`.
    pub fn info(&self, i: usize) -> (r: &FileTypeInfo)
        requires
            i < self@.len(),
        ensures
            r@ == self@[i as int].1,
    {
        &self.entries[i].1
    }

    /// Where `ext` stands, if anywhere.
    fn position(&self, ext: &String) -> (r: Option<usize>)
        ensures
            r is Some <==> find_ext(self@, ext@) >= 0,
            r is Some ==> r->0 == find_ext(self@, ext@),
            self@.len() == self.entries@.len(),
    {
        let mut i = self.entries.len();
        proof {
            assert(self@.subrange(0, i as int) =~= self@);
        }
        while i > 0
            invariant
                i <= self@.len(),
                self@.len() == self.entries@.len(),
                find_ext(self@, ext@) == find_ext(self@.subrange(0, i as int), ext@),
            decreases i,
        {
            proof {
                let s = self@.subrange(0, i as int);
                assert(s.drop_last() =~= self@.subrange(0, i - 1));
            }
            if self.entries[i - 1].0 == *ext {
                assert(self@[i - 1].0 == ext@);
                return Some(i - 1);
            }
            i = i - 1;
        }
        None
    }

    /// The statistics of extension `ext`, if a file with it was seen.
    pub fn get(&self, ext: &str) -> (r: Option<&FileTypeInfo>)
        ensures
            r is Some <==> find_ext(self@, ext@) >= 0,
            r is Some ==> r->0@ == self@[find_ext(self@, ext@)].1,
    {
        let key = ext.to_owned();
        proof {
            lemma_find_ext(self@, ext@);
        }
        match self.position(&key) {
            Some(i) => Some(&self.entries[i].1),
            None => None,
        }
    }

    /// Computes the shares of every extension against the totals given.
    pub fn calculate_percentages(&mut self, total_bytes: u64, total_files: u32)
        requires
            old(self).wf(),
        ensures
            final(self)@ == table_with_shares(old(self)@, total_bytes as int, total_files as int),
            final(self).wf(),
    {
        let n = self.entries.len();
        let mut i: usize = 0;
        while i < n
            invariant
                n == self.entries@.len(),
                n == old(self).entries@.len(),
                i <= n,
                forall|j: int| 0 <= j < i ==> self@[j] == (old(self)@[j].0, with_shares(old(self)@[j].1, total_bytes as int, total_files as int)),
                forall|j: int| i <= j < n ==> self@[j] == old(self)@[j],
            decreases n - i,
        {
            let ghost before = self@;
            let ghost before_entries = self.entries@;
            let e = &mut self.entries[i];
            e.1.calculate_percentages(total_bytes, total_files);
            proof {
                assert(self.entries@ == before_entries.update(i as int, self.entries@[i as int]));
                assert forall|j: int| 0 <= j < n && j != i implies self@[j] == before[j] by {
                    assert(self.entries@[j] == before_entries[j]);
                }
                assert(self@[i as int] == (old(self)@[i as int].0, with_shares(old(self)@[i as int].1, total_bytes as int, total_files as int)));
                assert forall|j: int| 0 <= j < i + 1 implies #[trigger] self@[j] == (old(self)@[j].0, with_shares(old(self)@[j].1, total_bytes as int, total_files as int)) by {
                    if j < i {
                        assert(self@[j] == before[j]);
                    }
                }
            }
            i = i + 1;
        }
        assert(self@ =~= table_with_shares(old(self)@, total_bytes as int, total_files as int));
        assert forall|i: int, j: int| 0 <= i < j < self@.len() implies self@[i].0 != self@[j].0 by {
            assert(self@[i].0 == old(self)@[i].0 && self@[j].0 == old(self)@[j].0);
        }
    }
}

/// Takes the file with extension `extension`, at `path` and of `size` bytes,
/// into the statistics of its extension, which start empty for an extension
/// not seen before. The extension's smallest and largest files then bound
/// the new size as well as every size they bounded before.
pub fn add_file_info_to_map(map: &mut FileTypeMap, extension: String, path: String, size: u64)
    requires
        old(map).wf(),
        table_fits(old(map)@, extension@, size),
    ensures
        final(map).wf(),
        final(map)@ == table_with_file(old(map)@, extension@, path@, size),
        ({
            let m = final(map)@;
            let i = find_ext(m, extension@);
            let o = find_ext(old(map)@, extension@);
            &&& 0 <= i < m.len()
            &&& m[i].0 == extension@
            &&& m[i].1.smallest_file.1 <= size <= m[i].1.largest_file.1
            &&& o >= 0 ==> m[i].1.smallest_file.1 <= old(map)@[o].1.smallest_file.1
                && old(map)@[o].1.largest_file.1 <= m[i].1.largest_file.1
        }),
{
    proof {
        lemma_find_ext(map@, extension@);
        lemma_table_with_file(map@, extension@, path@, size);
    }
    match map.position(&extension) {
        Some(i) => {
            let e = &mut map.entries[i];
            take_file(&mut e.1, path, size);
            assert(map@ =~= table_with_file(old(map)@, extension@, path@, size));
        },
        None => {
            let mut t = FileTypeInfo::new(
                0,
                0,
                FileTypeInfoRecords::default(),
                FileTypeInfoRecords::new(String::new(), u64::MAX),
            );
            take_file(&mut t, path, size);
            map.entries.push((extension, t));
            assert(map@ =~= table_with_file(old(map)@, extension@, path@, size));
        },
    }
}

fn take_file(t: &mut FileTypeInfo, path: String, size: u64)
    requires
        old(t).num_files + 1 <= u32::MAX,
        old(t).size_in_bytes + size <= u64::MAX,
    ensures
        final(t)@ == with_file(old(t)@, path@, size),
{
    let first = t.num_files == 0;
    t.num_files = t.num_files + 1;
    t.size_in_bytes = t.size_in_bytes + size;
    if first || size > t.largest_file.size {
        t.largest_file = FileTypeInfoRecords::new(path.clone(), size);
    }
    if first || size < t.smallest_file.size {
        t.smallest_file = FileTypeInfoRecords::new(path, size);
    }
}

/// What a walk found, in mathematical terms.
pub struct InfoView {
    pub found_dirs: nat,
    pub found_files: nat,
    pub found_symlinks: Option<LinkCounts>,
    pub file_info: Option<TypeTable>,
    pub total_bytes: nat,
}

/// What a walk found.
#[derive(Debug, Clone, PartialEq, Eq)]
pub struct AnalyzedInfo {
    /// Count of directories found during the analysis
    pub found_dirs: u32,
    /// Count of files found during the analysis
    pub found_files: u32,
    /// Info about symlinks found during the analysis
    pub found_symlinks: Option<SymlinkInfo>,
    /// Info about files grouped by file type
    pub file_info: Option<FileTypeMap>,
    /// How many bytes taken up by all the files
    pub total_bytes: u64,
}

impl View for AnalyzedInfo {
    type V = InfoView;

    open spec fn view(&self) -> InfoView {
        InfoView {
            found_dirs: self.found_dirs as nat,
            found_files: self.found_files as nat,
            found_symlinks: match self.found_symlinks {
                Some(l) => Some(l@),
                None => None,
            },
            file_info: match self.file_info {
                Some(m) => Some(m@),
                None => None,
            },
            total_bytes: self.total_bytes as nat,
        }
    }
}

impl Default for AnalyzedInfo {
    fn default() -> (r: AnalyzedInfo)
        ensures
            r@ == (InfoView {
                found_dirs: 0,
                found_files: 0,
                found_symlinks: None,
                file_info: None,
                total_bytes: 0,
            }),
    {
        AnalyzedInfo {
            found_dirs: 0,
            found_files: 0,
            found_symlinks: None,
            file_info: None,
            total_bytes: 0,
        }
    }
}

impl AnalyzedInfo {
    /// The statistics per extension, if any, are well formed.
    pub open spec fn wf(&self) -> bool {
        self.file_info is Some ==> self.file_info->0.wf()
    }

    pub fn new(
        found_dirs: u32,
        found_files: u32,
        found_symlinks: Option<SymlinkInfo>,
        file_info: Option<FileTypeMap>,
        total_bytes: u64,
    ) -> (r: AnalyzedInfo)
        ensures
            r == (AnalyzedInfo { found_dirs, found_files, found_symlinks, file_info, total_bytes }),
    {
        AnalyzedInfo { found_dirs, found_files, found_symlinks, file_info, total_bytes }
    }

    /// Count of directories found during the analysis
    pub fn found_dirs(&self) -> (r: u32)
        ensures
            r == self.found_dirs,
    {
        self.found_dirs
    }

    /// Count of files found during the analysis
    pub fn found_files(&self) -> (r: u32)
        ensures
            r == self.found_files,
    {
        self.found_files
    }

    /// Info about files grouped by file type
    pub fn file_info(&self) -> (r: Option<&FileTypeMap>)
        ensures
            r is Some <==> self.file_info is Some,
            r is Some ==> *r->0 == self.file_info->0,
    {
        self.file_info.as_ref()
    }

    /// Info about symlinks found during the analysis
    pub fn found_symlinks(&self) -> (r: Option<&SymlinkInfo>)
        ensures
            r is Some <==> self.found_symlinks is Some,
            r is Some ==> *r->0 == self.found_symlinks->0,
    {
        self.found_symlinks.as_ref()
    }

    pub fn found_dirs_mut(&mut self) -> (r: &mut u32)
        ensures
            *r == old(self).found_dirs,
            *final(self) == (AnalyzedInfo { found_dirs: *final(r), ..*old(self) }),
    {
        &mut self.found_dirs
    }

    pub fn found_files_mut(&mut self) -> (r: &mut u32)
        ensures
            *r == old(self).found_files,
            *final(self) == (AnalyzedInfo { found_files: *final(r), ..*old(self) }),
    {
        &mut self.found_files
    }

    pub fn set_found_symlinks(&mut self, found_symlinks: Option<SymlinkInfo>)
        ensures
            *final(self) == (AnalyzedInfo { found_symlinks, ..*old(self) }),
    {
        self.found_symlinks = found_symlinks;
    }

    pub fn set_file_info(&mut self, file_info: Option<FileTypeMap>)
        ensures
            *final(self) == (AnalyzedInfo { file_info, ..*old(self) }),
    {
        self.file_info = file_info;
    }

    /// The symlink counts, if they are gathered.
    pub fn found_symlinks_mut(&mut self) -> (r: Option<&mut SymlinkInfo>)
        ensures
            r is Some <==> old(self).found_symlinks is Some,
            r is Some ==> *r->0 == old(self).found_symlinks->0
                && *final(self) == (AnalyzedInfo { found_symlinks: Some(*final(r->0)), ..*old(self) }),
            r is None ==> *final(self) == *old(self),
    {
        self.found_symlinks.as_mut()
    }

    /// The statistics per extension, if they are gathered.
    pub fn file_info_mut(&mut self) -> (r: Option<&mut FileTypeMap>)
        ensures
            r is Some <==> old(self).file_info is Some,
            r is Some ==> *r->0 == old(self).file_info->0
                && *final(self) == (AnalyzedInfo { file_info: Some(*final(r->0)), ..*old(self) }),
            r is None ==> *final(self) == *old(self),
    {
        self.file_info.as_mut()
    }

    /// Computes, for every extension, its share of all files and of all
    /// bytes, if statistics per extension are gathered. A share of a total
    /// that is zero is left unset.
    pub fn calculate_percentages_for_info(&mut self)
        requires
            old(self).wf(),
        ensures
            final(self).wf(),
            final(self)@ == (InfoView {
                file_info: match old(self)@.file_info {
                    Some(m) => Some(table_with_shares(m, old(self).total_bytes as int, old(self).found_files as int)),
                    None => None,
                },
                ..old(self)@
            }),
    {
        let total_bytes = self.total_bytes;
        let found_files = self.found_files;
        if let Some(map) = &mut self.file_info {
            map.calculate_percentages(total_bytes, found_files);
        }
    }

    /// How many bytes taken up by all the files
    pub fn total_bytes(&self) -> (r: u64)
        ensures
            r == self.total_bytes,
    {
        self.total_bytes
    }

    pub fn total_bytes_mut(&mut self) -> (r: &mut u64)
        ensures
            *r == old(self).total_bytes,
            *final(self) == (AnalyzedInfo { total_bytes: *final(r), ..*old(self) }),
    {
        &mut self.total_bytes
    }
}

} // verus!
