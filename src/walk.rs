use vstd::prelude::*;
use crate::args::Args;
use crate::ignore::IgnoreFilter;
use crate::info::{LinkCounts, SymlinkInfo};
use crate::path_key::{path_key_of, FastPath};
use crate::stats::{
    add_file_info_to_map, bytes_in, files_in, find_ext, lemma_entry_within_sums, table_ok,
    lemma_find_ext, lemma_table_with_file, table_fits,
    table_with_file, table_with_shares, AnalyzedInfo, FileTypeMap, InfoView,
};

verus! {

/// What a directory entry is, as its own metadata tells (a symbolic link is
/// not followed to tell it).
#[derive(Debug, Clone, Copy, PartialEq, Eq, Structural)]
pub enum EntryKind {
    Dir,
    File,
    Symlink,
    Other,
}

/// One entry of a directory being listed.
#[derive(Debug, Clone, PartialEq, Eq)]
pub struct Entry {
    /// The path as found, below the path the walk started from
    pub path: String,
    /// The absolute form of `path`, against which the ignore list is held
    pub absolute: String,
    /// The canonical identity of the entry
    pub key: String,
    pub kind: EntryKind,
    /// The length in bytes that the entry's metadata gives
    pub size: u64,
}

/// What a symbolic link points to.
#[derive(Debug, Clone, PartialEq, Eq)]
pub struct LinkTarget {
    /// The canonical identity of the target
    pub key: String,
    /// What the target is; a target is never itself a link
    pub kind: EntryKind,
    /// The length in bytes of the target
    pub size: u64,
}

pub struct EntryView {
    pub path: Seq<char>,
    pub absolute: Seq<char>,
    pub key: Seq<char>,
    pub kind: EntryKind,
    pub size: u64,
}

pub struct TargetView {
    pub key: Seq<char>,
    pub kind: EntryKind,
    pub size: u64,
}

impl View for Entry {
    type V = EntryView;

    open spec fn view(&self) -> EntryView {
        EntryView {
            path: self.path@,
            absolute: self.absolute@,
            key: self.key@,
            kind: self.kind,
            size: self.size,
        }
    }
}

impl View for LinkTarget {
    type V = TargetView;

    open spec fn view(&self) -> TargetView {
        TargetView { key: self.key@, kind: self.kind, size: self.size }
    }
}

impl Entry {
    pub fn new(path: String, absolute: String, key: String, kind: EntryKind, size: u64) -> (r: Entry)
        ensures
            r == (Entry { path, absolute, key, kind, size }),
    {
        Entry { path, absolute, key, kind, size }
    }
}

impl LinkTarget {
    pub fn new(key: String, kind: EntryKind, size: u64) -> (r: LinkTarget)
        ensures
            r == (LinkTarget { key, kind, size }),
    {
        LinkTarget { key, kind, size }
    }
}

/// What a visit found worth reporting: a directory or a file newly counted,
/// with the path to show for it.
#[derive(Debug, Clone, PartialEq, Eq)]
pub enum Found {
    Nothing,
    Dir(String),
    File(String),
}

pub enum FoundView {
    Nothing,
    Dir(Seq<char>),
    File(Seq<char>),
}

impl View for Found {
    type V = FoundView;

    open spec fn view(&self) -> FoundView {
        match self {
            Found::Nothing => FoundView::Nothing,
            Found::Dir(p) => FoundView::Dir(p@),
            Found::File(p) => FoundView::File(p@),
        }
    }
}

/// Why a visit was refused; the walk is left as it was.
#[derive(Debug, Clone, Copy, PartialEq, Eq, Structural)]
pub enum WalkError {
    /// A symbolic link had to be resolved, and no target was given
    UnresolvedLink,
    /// A counter would pass the largest value of its type
    CounterOverflow,
}

/// The extension of the file at `path`: the part of its name after the last
/// dot, if it has one.
pub uninterp spec fn path_extension(path: Seq<char>) -> Option<Seq<char>>;

/// Relies on `std::path::Path::extension`, read lossily as text; the result
/// depends on the path's text alone.
#[verifier::external_body]
fn extension_of(path: &str) -> (r: Option<String>)
    ensures
        r is Some <==> path_extension(path@) is Some,
        r is Some ==> r->0@ == path_extension(path@)->0,
{
    std::path::Path::new(path).extension().map(|ext| ext.to_string_lossy().into_owned())
}

/// The key under which a file's statistics are kept: its extension, or the
/// empty text for a file without one.
pub open spec fn extension_key(path: Seq<char>) -> Seq<char> {
    match path_extension(path) {
        Some(ext) => ext,
        None => Seq::empty(),
    }
}

/// The state of a walk, in mathematical terms.
pub struct WalkState {
    pub no_recurse: bool,
    pub follow_symlinks: bool,
    pub count_symlinks: bool,
    pub full_path: bool,
    /// Keys of the paths left out
    pub ignored: Seq<Seq<char>>,
    /// The path the walk started from
    pub root: Seq<char>,
    /// Directories still to be listed; the last is listed next
    pub pending: Seq<Seq<char>>,
    /// Keys of the identities already counted
    pub visited: Seq<Seq<char>>,
    pub info: InfoView,
    /// Directories handed out for listing, in order
    pub listed: Seq<Seq<char>>,
    /// Extension and size of every file counted, in order
    pub files: Seq<(Seq<char>, u64)>,
}

/// Whether the entry is on the ignore list.
pub open spec fn excluded(s: WalkState, e: EntryView) -> bool {
    s.ignored.contains(path_key_of(e.absolute))
}

/// Whether the identity `key` was already counted.
pub open spec fn seen(s: WalkState, key: Seq<char>) -> bool {
    s.visited.contains(path_key_of(key))
}

/// The path shown and recorded for an entry.
pub open spec fn shown(s: WalkState, e: EntryView) -> Seq<char> {
    if s.full_path {
        e.absolute
    } else {
        e.path
    }
}

pub open spec fn mark(s: WalkState, key: Seq<char>) -> WalkState {
    WalkState { visited: s.visited.push(path_key_of(key)), ..s }
}

/// Identities are recorded only when links are followed: without links, an
/// object is reached by one path only.
pub open spec fn mark_if_following(s: WalkState, key: Seq<char>) -> WalkState {
    if s.follow_symlinks {
        mark(s, key)
    } else {
        s
    }
}

/// `s` after counting the directory found at entry `e`, which is queued for
/// listing unless the walk stays at the top.
pub open spec fn with_dir(s: WalkState, e: EntryView) -> WalkState {
    WalkState {
        info: InfoView { found_dirs: s.info.found_dirs + 1, ..s.info },
        pending: if s.no_recurse {
            s.pending
        } else {
            s.pending.push(e.path)
        },
        ..s
    }
}

/// `s` after counting a file of `size` bytes found at entry `e`.
pub open spec fn with_file_at(s: WalkState, e: EntryView, size: u64) -> WalkState {
    let ext = extension_key(e.path);
    WalkState {
        info: InfoView {
            found_files: s.info.found_files + 1,
            total_bytes: (s.info.total_bytes + size) as nat,
            file_info: match s.info.file_info {
                Some(m) => Some(table_with_file(m, ext, shown(s, e), size)),
                None => None,
            },
            ..s.info
        },
        files: s.files.push((ext, size)),
        ..s
    }
}

/// `s` after counting one link whose target is of kind `kind`; a target that
/// is not a directory counts as a file.
pub open spec fn with_link(s: WalkState, kind: EntryKind) -> WalkState {
    WalkState {
        info: InfoView {
            found_symlinks: match s.info.found_symlinks {
                Some(l) => Some(
                    LinkCounts {
                        found: l.found + 1,
                        to_files: if kind != EntryKind::Dir {
                            l.to_files + 1
                        } else {
                            l.to_files
                        },
                        to_dirs: if kind == EntryKind::Dir {
                            l.to_dirs + 1
                        } else {
                            l.to_dirs
                        },
                    },
                ),
                None => None,
            },
            ..s.info
        },
        ..s
    }
}

/// Whether entry `e` is a link whose target must be resolved before it is
/// visited.
pub open spec fn needs_target_of(s: WalkState, e: EntryView) -> bool {
    &&& e.kind == EntryKind::Symlink
    &&& s.count_symlinks || s.follow_symlinks
    &&& !excluded(s, e)
    &&& !seen(s, e.key)
}

/// `s` after visiting the link `e` that points to `t`. When links are followed
/// and the target was not counted yet, the target is counted as a directory or
/// a file found at `e`, and its identity recorded. When links are counted, the
/// link itself is counted, whether its target was counted before or not.
pub open spec fn link_step(s: WalkState, e: EntryView, t: TargetView) -> WalkState {
    let s1 = if s.follow_symlinks && !seen(s, t.key) {
        let s0 = if t.kind == EntryKind::Dir {
            with_dir(s, e)
        } else if t.kind == EntryKind::File {
            with_file_at(s, e, t.size)
        } else {
            s
        };
        mark(s0, t.key)
    } else {
        s
    };
    if s.count_symlinks {
        with_link(s1, t.kind)
    } else {
        s1
    }
}

/// `s` after visiting entry `e` of the directory being listed, with `t` the
/// target of `e` where `e` is a link that needs one.
pub open spec fn step(s: WalkState, e: EntryView, t: Option<TargetView>) -> WalkState {
    if excluded(s, e) {
        s
    } else {
        match e.kind {
            EntryKind::Dir => if seen(s, e.key) {
                s
            } else {
                mark_if_following(with_dir(s, e), e.key)
            },
            EntryKind::File => if seen(s, e.key) {
                s
            } else {
                mark_if_following(with_file_at(s, e, e.size), e.key)
            },
            EntryKind::Symlink => if needs_target_of(s, e) && t is Some {
                link_step(s, e, t->0)
            } else {
                s
            },
            EntryKind::Other => s,
        }
    }
}

/// What visiting entry `e` reports.
pub open spec fn found_of(s: WalkState, e: EntryView, t: Option<TargetView>) -> FoundView {
    if excluded(s, e) {
        FoundView::Nothing
    } else {
        match e.kind {
            EntryKind::Dir => if seen(s, e.key) {
                FoundView::Nothing
            } else {
                FoundView::Dir(shown(s, e))
            },
            EntryKind::File => if seen(s, e.key) {
                FoundView::Nothing
            } else {
                FoundView::File(shown(s, e))
            },
            EntryKind::Symlink => if needs_target_of(s, e) && t is Some && s.follow_symlinks
                && !seen(s, t->0.key) {
                if t->0.kind == EntryKind::Dir {
                    FoundView::Dir(shown(s, e))
                } else if t->0.kind == EntryKind::File {
                    FoundView::File(shown(s, e))
                } else {
                    FoundView::Nothing
                }
            } else {
                FoundView::Nothing
            },
            EntryKind::Other => FoundView::Nothing,
        }
    }
}

/// Every counter of `s` fits its machine type.
pub open spec fn counters_fit(s: WalkState) -> bool {
    &&& s.info.found_dirs <= u32::MAX
    &&& s.info.found_files <= u32::MAX
    &&& s.info.total_bytes <= u64::MAX
    &&& s.info.found_symlinks is Some ==> s.info.found_symlinks->0.found <= u32::MAX
        && s.info.found_symlinks->0.to_files <= u32::MAX
        && s.info.found_symlinks->0.to_dirs <= u32::MAX
}

/// The keys of `v` are distinct.
pub open spec fn distinct(v: Seq<Seq<char>>) -> bool {
    forall|i: int, j: int| 0 <= i < j < v.len() ==> v[i] != v[j]
}

/// Every counted link is counted once more, as pointing to a file or to a
/// directory.
pub open spec fn links_wf(s: WalkState) -> bool {
    &&& s.count_symlinks <==> s.info.found_symlinks is Some
    &&& s.info.found_symlinks is Some ==> s.info.found_symlinks->0.found
        == s.info.found_symlinks->0.to_files + s.info.found_symlinks->0.to_dirs
}

/// The statistics per extension agree with the files counted.
pub open spec fn table_wf(s: WalkState) -> bool {
    s.info.file_info is Some ==> {
        let m = s.info.file_info->0;
        &&& table_ok(m)
        &&& files_in(m) == s.info.found_files
        &&& bytes_in(m) == s.info.total_bytes
        &&& forall|j: int| 0 <= j < s.files.len() ==> find_ext(m, #[trigger] s.files[j].0) >= 0
        &&& forall|i: int, j: int|
            0 <= i < m.len() && 0 <= j < s.files.len() && s.files[j].0 == m[i].0
                ==> m[i].1.smallest_file.1 <= s.files[j].1 <= m[i].1.largest_file.1
    }
}

/// The worklist stays at the top when the walk does not recurse, and when
/// links are followed every directory queued stands for an identity recorded
/// once.
pub open spec fn shape_wf(s: WalkState) -> bool {
    &&& s.no_recurse ==> (forall|i: int| 0 <= i < s.pending.len() ==> s.pending[i] == s.root)
        && (forall|i: int| 0 <= i < s.listed.len() ==> s.listed[i] == s.root)
    &&& distinct(s.visited)
    &&& s.follow_symlinks ==> s.pending.len() + s.listed.len() <= s.visited.len()
    &&& !s.no_recurse ==> s.pending.len() + s.listed.len() == s.info.found_dirs + 1
}

/// The invariant of a walk.
pub open spec fn walk_wf(s: WalkState) -> bool {
    &&& counters_fit(s)
    &&& links_wf(s)
    &&& table_wf(s)
    &&& shape_wf(s)
}

/// The walk's first state: only the starting directory is pending, and when
/// links are followed its identity counts as seen.
pub open spec fn initial(
    args: Args,
    root_key: Seq<char>,
    ignored: Seq<Seq<char>>,
) -> WalkState {
    WalkState {
        no_recurse: args.no_recurse,
        follow_symlinks: args.follow_symlinks,
        count_symlinks: args.count_symlinks,
        full_path: args.full_path,
        ignored,
        root: args.path_to_analyze@,
        pending: seq![args.path_to_analyze@],
        visited: if args.follow_symlinks {
            seq![path_key_of(root_key)]
        } else {
            Seq::empty()
        },
        info: set_up_info(args),
        listed: Seq::empty(),
        files: Seq::empty(),
    }
}

/// Nothing found yet; the optional parts present exactly when asked for.
pub open spec fn set_up_info(args: Args) -> InfoView {
    InfoView {
        found_dirs: 0,
        found_files: 0,
        found_symlinks: if args.count_symlinks {
            Some(LinkCounts { found: 0, to_files: 0, to_dirs: 0 })
        } else {
            None
        },
        file_info: if args.file_info {
            Some(Seq::empty())
        } else {
            None
        },
        total_bytes: 0,
    }
}

/// The result of a walk in state `s`: what it found, with the shares of each
/// extension computed.
pub open spec fn finished(s: WalkState) -> InfoView {
    InfoView {
        file_info: match s.info.file_info {
            Some(m) => Some(table_with_shares(m, s.info.total_bytes as int, s.info.found_files as int)),
            None => None,
        },
        ..s.info
    }
}

proof fn lemma_file_keeps_table(s: WalkState, e: EntryView, size: u64)
    requires
        table_wf(s),
    ensures
        table_wf(with_file_at(s, e, size)),
{
    if s.info.file_info is Some {
        let m = s.info.file_info->0;
        let ext = extension_key(e.path);
        let s2 = with_file_at(s, e, size);
        let r = s2.info.file_info->0;
        lemma_table_with_file(m, ext, shown(s, e), size);
        lemma_find_ext(m, ext);
        let k = find_ext(r, ext);
        let f = find_ext(m, ext);
        assert forall|j: int| 0 <= j < s2.files.len() implies find_ext(r, #[trigger] s2.files[j].0) >= 0 by {
            if j < s.files.len() {
                assert(s2.files[j] == s.files[j]);
            }
        }
        assert forall|i: int, j: int|
            0 <= i < r.len() && 0 <= j < s2.files.len() && s2.files[j].0 == r[i].0
            implies r[i].1.smallest_file.1 <= s2.files[j].1 <= r[i].1.largest_file.1 by {
            if i != k {
                assert(r[i] == m[i]);
                assert(j < s.files.len());
                assert(s2.files[j] == s.files[j]);
            } else if j < s.files.len() {
                assert(s2.files[j] == s.files[j]);
                assert(find_ext(m, s.files[j].0) >= 0);
                assert(f >= 0);
                assert(m[f].0 == m[find_ext(m, s.files[j].0)].0);
            }
        }
    }
}

/// The invariant holds after every visit that keeps the counters within their
/// machine types.
pub proof fn lemma_step_keeps_wf(s: WalkState, e: EntryView, t: Option<TargetView>)
    requires
        walk_wf(s),
        counters_fit(step(s, e, t)),
    ensures
        walk_wf(step(s, e, t)),
{
    if !excluded(s, e) {
        match e.kind {
            EntryKind::Dir => {},
            EntryKind::File => {
                if !seen(s, e.key) {
                    lemma_file_keeps_table(s, e, e.size);
                }
            },
            EntryKind::Symlink => {
                if needs_target_of(s, e) && t is Some {
                    let tt = t->0;
                    if s.follow_symlinks && !seen(s, tt.key) && tt.kind == EntryKind::File {
                        lemma_file_keeps_table(s, e, tt.size);
                    }
                }
            },
            EntryKind::Other => {},
        }
    }
}

/// A walk over a directory tree. It holds the directories still to list, the
/// identities already counted and what was found so far; whoever drives it
/// lists each directory that `next_dir` hands out and visits its entries.
pub struct Walk {
    no_recurse: bool,
    follow_symlinks: bool,
    count_symlinks: bool,
    full_path: bool,
    ignore: IgnoreFilter,
    pending: Vec<String>,
    visited: Vec<FastPath>,
    info: AnalyzedInfo,
    root: Ghost<Seq<char>>,
    listed: Ghost<Seq<Seq<char>>>,
    files: Ghost<Seq<(Seq<char>, u64)>>,
}

impl View for Walk {
    type V = WalkState;

    closed spec fn view(&self) -> WalkState {
        WalkState {
            no_recurse: self.no_recurse,
            follow_symlinks: self.follow_symlinks,
            count_symlinks: self.count_symlinks,
            full_path: self.full_path,
            ignored: self.ignore@,
            root: self.root@,
            pending: self.pending@.map_values(|p: String| p@),
            visited: self.visited@.map_values(|k: FastPath| k@),
            info: self.info@,
            listed: self.listed@,
            files: self.files@,
        }
    }
}

/// What a walk starts with: nothing found, and the statistics per extension
/// and the link counts present exactly when they are asked for.
pub fn set_up_anaylzed_info(args: &Args) -> (r: AnalyzedInfo)
    ensures
        r@ == set_up_info(*args),
{
    let mut out = AnalyzedInfo::default();
    if args.file_info() {
        out.set_file_info(Some(FileTypeMap::new()));
    }
    if args.count_symlinks() {
        out.set_found_symlinks(Some(SymlinkInfo::default()));
    }
    out
}

impl Walk {
    /// The invariant, which every method keeps.
    pub open spec fn wf(&self) -> bool {
        walk_wf(self@)
    }

    /// A walk of `args.path_to_analyze`, whose canonical identity is
    /// `root_key`, leaving out what `ignore` names.
    pub fn new(args: &Args, root_key: &str, ignore: IgnoreFilter) -> (r: Walk)
        ensures
            r@ == initial(*args, root_key@, ignore@),
            r.wf(),
    {
        let mut pending: Vec<String> = Vec::new();
        pending.push(args.path_to_analyze.clone());
        let mut visited: Vec<FastPath> = Vec::new();
        if args.follow_symlinks {
            visited.push(FastPath::new(root_key));
        }
        let r = Walk {
            no_recurse: args.no_recurse,
            follow_symlinks: args.follow_symlinks,
            count_symlinks: args.count_symlinks,
            full_path: args.full_path,
            ignore,
            pending,
            visited,
            info: set_up_anaylzed_info(args),
            root: Ghost(args.path_to_analyze@),
            listed: Ghost(Seq::empty()),
            files: Ghost(Seq::empty()),
        };
        assert(r@.pending =~= seq![args.path_to_analyze@]);
        if args.follow_symlinks {
            assert(r@.visited =~= seq![path_key_of(root_key@)]);
        } else {
            assert(r@.visited =~= Seq::<Seq<char>>::empty());
        }
        r
    }

    /// What was found so far.
    pub fn info(&self) -> (r: &AnalyzedInfo)
        ensures
            r@ == self@.info,
    {
        &self.info
    }

    /// Count of directories found so far
    pub fn found_dirs(&self) -> (r: u32)
        ensures
            r == self@.info.found_dirs,
    {
        self.info.found_dirs
    }

    /// Count of files found so far
    pub fn found_files(&self) -> (r: u32)
        ensures
            r == self@.info.found_files,
    {
        self.info.found_files
    }

    /// The next directory to list, taken off the worklist, or `None` when the
    /// walk is done.
    pub fn next_dir(&mut self) -> (r: Option<String>)
        requires
            old(self).wf(),
        ensures
            final(self).wf(),
            old(self)@.pending.len() == 0 ==> r is None && final(self)@ == old(self)@,
            old(self)@.pending.len() > 0 ==> r is Some && r->0@ == old(self)@.pending.last()
                && final(self)@ == (WalkState {
                    pending: old(self)@.pending.drop_last(),
                    listed: old(self)@.listed.push(r->0@),
                    ..old(self)@
                }),
    {
        let r = self.pending.pop();
        match &r {
            Some(p) => {
                self.listed = Ghost(self.listed@.push(p@));
                assert(self@.pending =~= old(self)@.pending.drop_last());
                proof {
                    let s0 = old(self)@;
                    let s1 = self@;
                    assert(p@ == s0.pending[s0.pending.len() - 1]);
                    assert forall|i: int| 0 <= i < s1.listed.len() implies s1.listed[i] == s0.listed.push(p@)[i] by {}
                    if s0.no_recurse {
                        assert forall|i: int| 0 <= i < s1.listed.len() implies s1.listed[i] == s1.root by {
                            if i < s0.listed.len() {
                                assert(s1.listed[i] == s0.listed[i]);
                            }
                        }
                        assert forall|i: int| 0 <= i < s1.pending.len() implies s1.pending[i] == s1.root by {
                            assert(s1.pending[i] == s0.pending[i]);
                        }
                    }
                }
            },
            None => {},
        }
        r
    }

    fn is_visited(&self, id: &FastPath) -> (r: bool)
        ensures
            r == self@.visited.contains(id@),
    {
        let mut i: usize = 0;
        while i < self.visited.len()
            invariant
                i <= self.visited@.len(),
                forall|j: int| 0 <= j < i ==> self.visited@[j]@ != id@,
            decreases self.visited@.len() - i,
        {
            if self.visited[i].same_as(id) {
                assert(self@.visited[i as int] == id@);
                return true;
            }
            i = i + 1;
        }
        assert(!self@.visited.contains(id@)) by {
            if self@.visited.contains(id@) {
                let j = choose|j: int| 0 <= j < self@.visited.len() && self@.visited[j] == id@;
                assert(self.visited@[j]@ == id@);
            }
        }
        false
    }

    fn shown(&self, e: &Entry) -> (r: String)
        ensures
            r@ == shown(self@, e@),
    {
        if self.full_path {
            e.absolute.clone()
        } else {
            e.path.clone()
        }
    }

    fn add_dir(&mut self, e: &Entry)
        requires
            old(self)@.info.found_dirs < u32::MAX,
        ensures
            final(self)@ == with_dir(old(self)@, e@),
    {
        self.info.found_dirs = self.info.found_dirs + 1;
        if !self.no_recurse {
            self.pending.push(e.path.clone());
            assert(self@.pending =~= old(self)@.pending.push(e.path@));
        }
        assert(self@.info == with_dir(old(self)@, e@).info);
    }

    fn add_file(&mut self, e: &Entry, size: u64)
        requires
            old(self).wf(),
            old(self)@.info.found_files < u32::MAX,
            old(self)@.info.total_bytes + size <= u64::MAX,
        ensures
            final(self)@ == with_file_at(old(self)@, e@, size),
    {
        let ext = match extension_of(e.path.as_str()) {
            Some(ext) => ext,
            None => String::new(),
        };
        let ghost ext_view = ext@;
        let shown = self.shown(e);
        proof {
            if self@.info.file_info is Some {
                let m = self@.info.file_info->0;
                lemma_find_ext(m, ext_view);
                if find_ext(m, ext_view) >= 0 {
                    lemma_entry_within_sums(m, find_ext(m, ext_view));
                }
                assert(table_fits(m, ext_view, size));
            }
        }
        self.info.found_files = self.info.found_files + 1;
        self.info.total_bytes = self.info.total_bytes + size;
        if let Some(map) = &mut self.info.file_info {
            add_file_info_to_map(map, ext, shown, size);
        }
        self.files = Ghost(self.files@.push((ext_view, size)));
        assert(self@.info == with_file_at(old(self)@, e@, size).info);
    }

    fn add_link(&mut self, kind: EntryKind)
        requires
            links_wf(old(self)@),
            old(self)@.info.found_symlinks is Some ==> old(self)@.info.found_symlinks->0.found < u32::MAX,
        ensures
            final(self)@ == with_link(old(self)@, kind),
    {
        if let Some(l) = &mut self.info.found_symlinks {
            l.found_symlinks = l.found_symlinks + 1;
            if kind == EntryKind::Dir {
                l.dir_symlinks = l.dir_symlinks + 1;
            } else {
                l.file_symlinks = l.file_symlinks + 1;
            }
        }
        assert(self@.info == with_link(old(self)@, kind).info);
    }

    fn mark(&mut self, id: FastPath)
        ensures
            final(self)@ == (WalkState { visited: old(self)@.visited.push(id@), ..old(self)@ }),
    {
        self.visited.push(id);
        assert(self@.visited =~= old(self)@.visited.push(id@));
    }

    /// Whether entry `e` is a link whose target must be resolved and handed
    /// to `visit`.
    pub fn needs_target(&self, e: &Entry) -> (r: bool)
        ensures
            r == needs_target_of(self@, e@),
    {
        if e.kind != EntryKind::Symlink || !(self.count_symlinks || self.follow_symlinks) {
            return false;
        }
        if self.ignore.excludes(e.absolute.as_str()) {
            return false;
        }
        let id = FastPath::new(e.key.as_str());
        !self.is_visited(&id)
    }

    /// Visits entry `e` of the directory being listed; `target` is what `e`
    /// points to, needed where `needs_target` says so. An entry on the ignore
    /// list, or whose identity was already counted, changes nothing.
    pub fn visit(&mut self, e: &Entry, target: Option<&LinkTarget>) -> (r: Result<Found, WalkError>)
        requires
            old(self).wf(),
        ensures
            final(self).wf(),
            ({
                let s = old(self)@;
                let t = match target {
                    Some(t) => Some(t@),
                    None => None,
                };
                &&& r is Ok <==> !(needs_target_of(s, e@) && target is None)
                    && counters_fit(step(s, e@, t))
                &&& r == Err::<Found, WalkError>(WalkError::UnresolvedLink)
                    <==> needs_target_of(s, e@) && target is None
                &&& r == Err::<Found, WalkError>(WalkError::CounterOverflow)
                    <==> !(needs_target_of(s, e@) && target is None) && !counters_fit(step(s, e@, t))
                &&& r is Err ==> final(self)@ == s
                &&& r is Ok ==> final(self)@ == step(s, e@, t) && r->Ok_0@ == found_of(s, e@, t)
            }),
    {
        let ghost t = match target {
            Some(t) => Some(t@),
            None => None,
        };
        if self.ignore.excludes(e.absolute.as_str()) {
            return Ok(Found::Nothing);
        }
        match e.kind {
            EntryKind::Dir => {
                let id = FastPath::new(e.key.as_str());
                if self.is_visited(&id) {
                    return Ok(Found::Nothing);
                }
                if self.info.found_dirs == u32::MAX {
                    return Err(WalkError::CounterOverflow);
                }
                let shown = self.shown(e);
                self.add_dir(e);
                if self.follow_symlinks {
                    self.mark(id);
                }
                proof {
                    lemma_step_keeps_wf(old(self)@, e@, t);
                }
                Ok(Found::Dir(shown))
            },
            EntryKind::File => {
                let id = FastPath::new(e.key.as_str());
                if self.is_visited(&id) {
                    return Ok(Found::Nothing);
                }
                if self.info.found_files == u32::MAX || self.info.total_bytes > u64::MAX - e.size {
                    return Err(WalkError::CounterOverflow);
                }
                let shown = self.shown(e);
                self.add_file(e, e.size);
                if self.follow_symlinks {
                    self.mark(id);
                }
                proof {
                    lemma_step_keeps_wf(old(self)@, e@, t);
                }
                Ok(Found::File(shown))
            },
            EntryKind::Symlink => {
                if !(self.count_symlinks || self.follow_symlinks) {
                    return Ok(Found::Nothing);
                }
                let id = FastPath::new(e.key.as_str());
                if self.is_visited(&id) {
                    return Ok(Found::Nothing);
                }
                match target {
                    None => Err(WalkError::UnresolvedLink),
                    Some(tg) => self.visit_link(e, tg),
                }
            },
            EntryKind::Other => Ok(Found::Nothing),
        }
    }

    fn visit_link(&mut self, e: &Entry, tg: &LinkTarget) -> (r: Result<Found, WalkError>)
        requires
            old(self).wf(),
            needs_target_of(old(self)@, e@),
        ensures
            final(self).wf(),
            r == Err::<Found, WalkError>(WalkError::CounterOverflow)
                <==> !counters_fit(step(old(self)@, e@, Some(tg@))),
            r is Err ==> r == Err::<Found, WalkError>(WalkError::CounterOverflow) && final(self)@ == old(self)@,
            r is Ok ==> final(self)@ == step(old(self)@, e@, Some(tg@))
                && r->Ok_0@ == found_of(old(self)@, e@, Some(tg@)),
    {
        let ghost s = self@;
        let target_id = FastPath::new(tg.key.as_str());
        let follow_it = self.follow_symlinks && !self.is_visited(&target_id);
        if follow_it {
            if tg.kind == EntryKind::Dir && self.info.found_dirs == u32::MAX {
                return Err(WalkError::CounterOverflow);
            }
            if tg.kind == EntryKind::File && (self.info.found_files == u32::MAX
                || self.info.total_bytes > u64::MAX - tg.size) {
                return Err(WalkError::CounterOverflow);
            }
        }
        if self.count_symlinks {
            if let Some(l) = &self.info.found_symlinks {
                if l.found_symlinks == u32::MAX {
                    return Err(WalkError::CounterOverflow);
                }
            }
        }
        let mut found = Found::Nothing;
        if follow_it {
            if tg.kind == EntryKind::Dir {
                found = Found::Dir(self.shown(e));
                self.add_dir(e);
            } else if tg.kind == EntryKind::File {
                found = Found::File(self.shown(e));
                self.add_file(e, tg.size);
            }
            self.mark(target_id);
        }
        if self.count_symlinks {
            self.add_link(tg.kind);
        }
        proof {
            lemma_step_keeps_wf(s, e@, Some(tg@));
        }
        Ok(found)
    }

    /// Ends the walk: what it found, with the shares of every extension
    /// computed against the totals.
    pub fn finish(self) -> (r: AnalyzedInfo)
        requires
            self.wf(),
        ensures
            r@ == finished(self@),
    {
        let mut info = self.info;
        info.calculate_percentages_for_info();
        info
    }
}

} // verus!
