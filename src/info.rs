use vstd::prelude::*;

verus! {

/// A share of a whole, kept exact: `part / whole`, with `whole > 0`.
#[derive(Debug, Clone, Copy, PartialEq, Eq, Structural)]
pub struct Fraction {
    pub part: u64,
    pub whole: u64,
}

impl Fraction {
    pub fn part(&self) -> (r: u64)
        ensures
            r == self.part,
    {
        self.part
    }

    pub fn whole(&self) -> (r: u64)
        ensures
            r == self.whole,
    {
        self.whole
    }
}

/// The share `part / whole`, or nothing when `whole` is zero.
pub open spec fn share_of(part: int, whole: int) -> Option<Fraction> {
    if whole > 0 {
        Some(Fraction { part: part as u64, whole: whole as u64 })
    } else {
        None
    }
}

/// Counts of the symbolic links met during a walk.
#[derive(Debug, Clone, Copy, PartialEq, Eq, Structural)]
pub struct SymlinkInfo {
    pub found_symlinks: u32,
    /// Number of symlinks that point to files
    pub file_symlinks: u32,
    /// Number of symlinks that point to directories
    pub dir_symlinks: u32,
}

/// Counts of symbolic links, in mathematical terms.
pub struct LinkCounts {
    pub found: nat,
    pub to_files: nat,
    pub to_dirs: nat,
}

impl View for SymlinkInfo {
    type V = LinkCounts;

    open spec fn view(&self) -> LinkCounts {
        LinkCounts {
            found: self.found_symlinks as nat,
            to_files: self.file_symlinks as nat,
            to_dirs: self.dir_symlinks as nat,
        }
    }
}

impl Default for SymlinkInfo {
    fn default() -> (r: SymlinkInfo)
        ensures
            r == (SymlinkInfo { found_symlinks: 0, file_symlinks: 0, dir_symlinks: 0 }),
    {
        SymlinkInfo { found_symlinks: 0, file_symlinks: 0, dir_symlinks: 0 }
    }
}

impl SymlinkInfo {
    pub fn new(found_symlinks: u32, file_symlinks: u32, dir_symlinks: u32) -> (r: SymlinkInfo)
        ensures
            r == (SymlinkInfo { found_symlinks, file_symlinks, dir_symlinks }),
    {
        SymlinkInfo { found_symlinks, file_symlinks, dir_symlinks }
    }

    /// Number of symlinks that point to files
    pub fn file_symlinks(&self) -> (r: u32)
        ensures
            r == self.file_symlinks,
    {
        self.file_symlinks
    }

    pub fn found_symlinks(&self) -> (r: u32)
        ensures
            r == self.found_symlinks,
    {
        self.found_symlinks
    }

    /// Number of symlinks that point to directories
    pub fn dir_symlinks(&self) -> (r: u32)
        ensures
            r == self.dir_symlinks,
    {
        self.dir_symlinks
    }

    pub fn found_symlinks_mut(&mut self) -> (r: &mut u32)
        ensures
            *r == old(self).found_symlinks,
            *final(self) == (SymlinkInfo { found_symlinks: *final(r), ..*old(self) }),
    {
        &mut self.found_symlinks
    }

    pub fn file_symlinks_mut(&mut self) -> (r: &mut u32)
        ensures
            *r == old(self).file_symlinks,
            *final(self) == (SymlinkInfo { file_symlinks: *final(r), ..*old(self) }),
    {
        &mut self.file_symlinks
    }

    pub fn dir_symlinks_mut(&mut self) -> (r: &mut u32)
        ensures
            *r == old(self).dir_symlinks,
            *final(self) == (SymlinkInfo { dir_symlinks: *final(r), ..*old(self) }),
    {
        &mut self.dir_symlinks
    }
}

/// A notable file: where it is and how large it is.
#[derive(Debug, Clone, PartialEq, Eq)]
pub struct FileTypeInfoRecords {
    /// Path to the file
    pub path: String,
    /// The size of the file
    pub size: u64,
}

impl View for FileTypeInfoRecords {
    type V = (Seq<char>, u64);

    open spec fn view(&self) -> (Seq<char>, u64) {
        (self.path@, self.size)
    }
}

impl Default for FileTypeInfoRecords {
    fn default() -> (r: FileTypeInfoRecords)
        ensures
            r@ == (Seq::<char>::empty(), 0u64),
    {
        FileTypeInfoRecords { path: String::new(), size: 0 }
    }
}

impl FileTypeInfoRecords {
    pub fn new(path: String, size: u64) -> (r: FileTypeInfoRecords)
        ensures
            r.path == path,
            r.size == size,
    {
        FileTypeInfoRecords { path, size }
    }

    /// Path to the file
    pub fn path(&self) -> (r: &str)
        ensures
            r@ == self.path@,
    {
        self.path.as_str()
    }

    /// The size of the file
    pub fn size(&self) -> (r: u64)
        ensures
            r == self.size,
    {
        self.size
    }
}

/// What the statistics of one file extension amount to.
pub struct FileTypeView {
    pub num_files: nat,
    pub size_in_bytes: nat,
    pub largest_file: (Seq<char>, u64),
    pub smallest_file: (Seq<char>, u64),
    pub percent_of_total_files: Option<Fraction>,
    pub percent_of_total_size: Option<Fraction>,
}

/// Statistics of the files that share one extension.
#[derive(Debug, Clone, PartialEq, Eq)]
pub struct FileTypeInfo {
    pub num_files: u32,
    pub largest_file: FileTypeInfoRecords,
    pub smallest_file: FileTypeInfoRecords,
    /// Total size of all files of this type
    pub size_in_bytes: u64,
    pub percent_of_total_files: Option<Fraction>,
    pub percent_of_total_size: Option<Fraction>,
}

impl View for FileTypeInfo {
    type V = FileTypeView;

    open spec fn view(&self) -> FileTypeView {
        FileTypeView {
            num_files: self.num_files as nat,
            size_in_bytes: self.size_in_bytes as nat,
            largest_file: self.largest_file@,
            smallest_file: self.smallest_file@,
            percent_of_total_files: self.percent_of_total_files,
            percent_of_total_size: self.percent_of_total_size,
        }
    }
}

/// The statistics of an extension before any file of it is seen. The
/// smallest file starts at the largest size there is, so that the first file
/// always takes its place.
pub open spec fn fresh_type_view() -> FileTypeView {
    FileTypeView {
        num_files: 0,
        size_in_bytes: 0,
        largest_file: (Seq::empty(), 0),
        smallest_file: (Seq::empty(), u64::MAX),
        percent_of_total_files: None,
        percent_of_total_size: None,
    }
}

/// The statistics `t` after one more file, at `path` and of `size` bytes.
/// The first file of an extension is both its largest and its smallest;
/// after that only a strictly larger (smaller) file replaces the largest
/// (smallest), so of files of equal size the first one seen is kept.
pub open spec fn with_file(t: FileTypeView, path: Seq<char>, size: u64) -> FileTypeView {
    FileTypeView {
        num_files: t.num_files + 1,
        size_in_bytes: (t.size_in_bytes + size) as nat,
        largest_file: if t.num_files == 0 || size > t.largest_file.1 {
            (path, size)
        } else {
            t.largest_file
        },
        smallest_file: if t.num_files == 0 || size < t.smallest_file.1 {
            (path, size)
        } else {
            t.smallest_file
        },
        ..t
    }
}

/// The statistics `t` with both shares computed against the totals.
pub open spec fn with_shares(t: FileTypeView, total_bytes: int, total_files: int) -> FileTypeView {
    FileTypeView {
        percent_of_total_files: share_of(t.num_files as int, total_files),
        percent_of_total_size: share_of(t.size_in_bytes as int, total_bytes),
        ..t
    }
}

impl FileTypeInfo {
    pub fn new(
        size_in_bytes: u64,
        num_files: u32,
        largest_file: FileTypeInfoRecords,
        smallest_file: FileTypeInfoRecords,
    ) -> (r: FileTypeInfo)
        ensures
            r == (FileTypeInfo {
                num_files,
                largest_file,
                smallest_file,
                size_in_bytes,
                percent_of_total_files: None,
                percent_of_total_size: None,
            }),
    {
        FileTypeInfo {
            num_files,
            largest_file,
            smallest_file,
            size_in_bytes,
            percent_of_total_files: None,
            percent_of_total_size: None,
        }
    }

    pub fn size_in_bytes(&self) -> (r: u64)
        ensures
            r == self.size_in_bytes,
    {
        self.size_in_bytes
    }

    pub fn num_files(&self) -> (r: u32)
        ensures
            r == self.num_files,
    {
        self.num_files
    }

    pub fn largest_file(&self) -> (r: &FileTypeInfoRecords)
        ensures
            *r == self.largest_file,
    {
        &self.largest_file
    }

    pub fn smallest_file(&self) -> (r: &FileTypeInfoRecords)
        ensures
            *r == self.smallest_file,
    {
        &self.smallest_file
    }

    /// Share of all files that have this extension
    pub fn percent_of_total_files(&self) -> (r: Option<Fraction>)
        ensures
            r == self.percent_of_total_files,
    {
        self.percent_of_total_files
    }

    /// Share of all bytes held by files with this extension
    pub fn percent_of_total_size(&self) -> (r: Option<Fraction>)
        ensures
            r == self.percent_of_total_size,
    {
        self.percent_of_total_size
    }

    pub fn num_files_mut(&mut self) -> (r: &mut u32)
        ensures
            *r == old(self).num_files,
            *final(self) == (FileTypeInfo { num_files: *final(r), ..*old(self) }),
    {
        &mut self.num_files
    }

    pub fn size_in_bytes_mut(&mut self) -> (r: &mut u64)
        ensures
            *r == old(self).size_in_bytes,
            *final(self) == (FileTypeInfo { size_in_bytes: *final(r), ..*old(self) }),
    {
        &mut self.size_in_bytes
    }

    pub fn set_largest_file(&mut self, largest_file: FileTypeInfoRecords)
        ensures
            *final(self) == (FileTypeInfo { largest_file, ..*old(self) }),
    {
        self.largest_file = largest_file;
    }

    pub fn set_smallest_file(&mut self, smallest_file: FileTypeInfoRecords)
        ensures
            *final(self) == (FileTypeInfo { smallest_file, ..*old(self) }),
    {
        self.smallest_file = smallest_file;
    }

    /// Computes the share of all files and of all bytes that this extension
    /// holds; a share whose total is zero is left unset.
    pub fn calculate_percentages(&mut self, total_bytes: u64, total_files: u32)
        ensures
            final(self)@ == with_shares(old(self)@, total_bytes as int, total_files as int),
    {
        self.percent_of_total_files = if total_files > 0 {
            Some(Fraction { part: self.num_files as u64, whole: total_files as u64 })
        } else {
            None
        };
        self.percent_of_total_size = if total_bytes > 0 {
            Some(Fraction { part: self.size_in_bytes, whole: total_bytes })
        } else {
            None
        };
    }
}

} // verus!
