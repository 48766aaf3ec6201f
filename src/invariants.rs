use vstd::prelude::*;
use crate::info::Fraction;
use crate::stats::{bytes_in, files_in, find_ext, table_with_shares, TypeTable};
use crate::args::Args;
use crate::info::LinkCounts;
use crate::path_key::path_key_of;
use crate::walk::{
    distinct, excluded, finished, found_of, initial, needs_target_of, seen, step, walk_wf,
    with_link, EntryKind, EntryView, FoundView, TargetView, WalkState,
};

verus! {

/// The sum of the parts of the shares of all files, over the extensions of `t`.
pub open spec fn file_share_parts(t: TypeTable) -> nat
    decreases t.len(),
{
    if t.len() == 0 {
        0
    } else {
        file_share_parts(t.drop_last()) + match t.last().1.percent_of_total_files {
            Some(f) => f.part as nat,
            None => 0,
        }
    }
}

/// The sum of the parts of the shares of all bytes, over the extensions of `t`.
pub open spec fn size_share_parts(t: TypeTable) -> nat
    decreases t.len(),
{
    if t.len() == 0 {
        0
    } else {
        size_share_parts(t.drop_last()) + match t.last().1.percent_of_total_size {
            Some(f) => f.part as nat,
            None => 0,
        }
    }
}

proof fn lemma_shares_keep_sums(m: TypeTable, total_bytes: int, total_files: int)
    ensures
        files_in(table_with_shares(m, total_bytes, total_files)) == files_in(m),
        bytes_in(table_with_shares(m, total_bytes, total_files)) == bytes_in(m),
    decreases m.len(),
{
    if m.len() > 0 {
        let t = table_with_shares(m, total_bytes, total_files);
        assert(t.drop_last() =~= table_with_shares(m.drop_last(), total_bytes, total_files));
        lemma_shares_keep_sums(m.drop_last(), total_bytes, total_files);
    }
}

proof fn lemma_share_parts(m: TypeTable, total_bytes: int, total_files: int)
    requires
        0 < total_files <= u32::MAX,
        0 < total_bytes <= u64::MAX,
        bytes_in(m) <= u64::MAX,
        files_in(m) <= u32::MAX,
    ensures
        file_share_parts(table_with_shares(m, total_bytes, total_files)) == files_in(m),
        size_share_parts(table_with_shares(m, total_bytes, total_files)) == bytes_in(m),
    decreases m.len(),
{
    if m.len() > 0 {
        let t = table_with_shares(m, total_bytes, total_files);
        assert(t.drop_last() =~= table_with_shares(m.drop_last(), total_bytes, total_files));
        lemma_share_parts(m.drop_last(), total_bytes, total_files);
    }
}

/// Of a walk that counts links, the links found are exactly those pointing
/// to files and those pointing to directories.
pub proof fn lemma_link_counts_add_up(s: WalkState)
    requires
        walk_wf(s),
        s.count_symlinks,
    ensures
        finished(s).found_symlinks is Some,
        finished(s).found_symlinks->0.found == finished(s).found_symlinks->0.to_files
            + finished(s).found_symlinks->0.to_dirs,
{
}

/// Of a walk that gathers statistics per extension, the files of all
/// extensions add up to the files found, and their bytes to the bytes found.
pub proof fn lemma_extension_totals(s: WalkState)
    requires
        walk_wf(s),
        s.info.file_info is Some,
    ensures
        finished(s).file_info is Some,
        files_in(finished(s).file_info->0) == finished(s).found_files,
        bytes_in(finished(s).file_info->0) == finished(s).total_bytes,
{
    lemma_shares_keep_sums(s.info.file_info->0, s.info.total_bytes as int, s.info.found_files as int);
}

/// Of a walk that gathers statistics per extension, every file counted lies,
/// by size, between the smallest and the largest file recorded for its
/// extension.
pub proof fn lemma_extension_size_bounds(s: WalkState)
    requires
        walk_wf(s),
        s.info.file_info is Some,
    ensures
        ({
            let t = finished(s).file_info->0;
            &&& forall|j: int| 0 <= j < s.files.len() ==> find_ext(t, #[trigger] s.files[j].0) >= 0
            &&& forall|i: int, j: int|
                0 <= i < t.len() && 0 <= j < s.files.len() && s.files[j].0 == t[i].0
                    ==> t[i].1.smallest_file.1 <= s.files[j].1 <= t[i].1.largest_file.1
        }),
{
    let m = s.info.file_info->0;
    let t = finished(s).file_info->0;
    assert forall|k: Seq<char>| find_ext(t, k) == find_ext(m, k) by {
        crate::stats::lemma_find_ext_same_keys(t, m, k);
    }
}

/// A walk that does not recurse only ever lists the directory it started
/// from, so no entry it visits lies more than one level below it.
pub proof fn lemma_no_recurse_stays_at_top(s: WalkState, e: EntryView, t: Option<TargetView>)
    requires
        walk_wf(s),
        s.no_recurse,
    ensures
        forall|i: int| 0 <= i < s.listed.len() ==> s.listed[i] == s.root,
        forall|i: int| 0 <= i < s.pending.len() ==> s.pending[i] == s.root,
        step(s, e, t).pending == s.pending,
{
}

/// A walk that follows links lists each identity at most once: the
/// directories listed and pending never outnumber the distinct identities
/// recorded, which bounds the walk by the objects it can reach, however the
/// links loop.
pub proof fn lemma_followed_walk_is_bounded(s: WalkState)
    requires
        walk_wf(s),
        s.follow_symlinks,
    ensures
        distinct(s.visited),
        s.pending.len() + s.listed.len() <= s.visited.len(),
{
}

/// A walk that recurses lists the directory it started from and, once
/// each, the directories it counted: never more.
pub proof fn lemma_walk_lists_counted_dirs(s: WalkState)
    requires
        walk_wf(s),
        !s.no_recurse,
    ensures
        s.pending.len() + s.listed.len() == s.info.found_dirs + 1,
{
}

/// Links that are not followed queue nothing and count no directory, so
/// without following the walk descends only through real directories.
pub proof fn lemma_unfollowed_links_queue_nothing(s: WalkState, e: EntryView, t: Option<TargetView>)
    requires
        !s.follow_symlinks,
        e.kind == EntryKind::Symlink,
    ensures
        step(s, e, t).pending == s.pending,
        step(s, e, t).visited == s.visited,
        step(s, e, t).info.found_dirs == s.info.found_dirs,
{
}

/// A directory whose one entry is a link back to itself: once it is listed,
/// nothing is left to list, and the link is counted exactly once, as a link
/// to a directory, whether links are followed or not.
pub proof fn lemma_self_loop_counted_once(args: Args, root_key: Seq<char>, e: EntryView, t: TargetView)
    requires
        args.count_symlinks,
        e.kind == EntryKind::Symlink,
        path_key_of(e.key) != path_key_of(root_key),
        path_key_of(t.key) == path_key_of(root_key),
        t.kind == EntryKind::Dir,
    ensures
        ({
            let s0 = initial(args, root_key, Seq::empty());
            let s1 = WalkState {
                pending: s0.pending.drop_last(),
                listed: s0.listed.push(s0.pending.last()),
                ..s0
            };
            let s2 = step(s1, e, Some(t));
            &&& s2.pending.len() == 0
            &&& s2.info.found_dirs == 0
            &&& s2.info.found_symlinks == Some(LinkCounts { found: 1, to_files: 0, to_dirs: 1 })
            &&& found_of(s1, e, Some(t)) == FoundView::Nothing
        }),
{
    let s0 = initial(args, root_key, Seq::empty());
    assert(!Seq::<Seq<char>>::empty().contains(path_key_of(e.absolute)));
    if args.follow_symlinks {
        assert(s0.visited[0] == path_key_of(root_key));
        assert(!s0.visited.contains(path_key_of(e.key)));
        assert(s0.visited.contains(path_key_of(t.key)));
    }
}

/// A link whose target was already counted queues nothing and counts nothing
/// but the link itself, once.
pub proof fn lemma_link_to_seen_target(s: WalkState, e: EntryView, t: TargetView)
    requires
        needs_target_of(s, e),
        seen(s, t.key),
    ensures
        step(s, e, Some(t)) == (if s.count_symlinks {
            with_link(s, t.kind)
        } else {
            s
        }),
        found_of(s, e, Some(t)) == FoundView::Nothing,
{
}

/// An entry on the ignore list changes nothing: no counter, no statistic, no
/// identity, and it is never queued, so nothing below it is listed through it.
pub proof fn lemma_ignored_entry_changes_nothing(s: WalkState, e: EntryView, t: Option<TargetView>)
    requires
        excluded(s, e),
    ensures
        step(s, e, t) == s,
        found_of(s, e, t) == FoundView::Nothing,
        !needs_target_of(s, e),
{
}

/// Of a walk that gathers statistics per extension and found at least one
/// file (one byte), every extension's share of the files (bytes) is set,
/// against the same whole, and the shares add up to exactly that whole.
pub proof fn lemma_shares_sum_to_one(s: WalkState)
    requires
        walk_wf(s),
        s.info.file_info is Some,
    ensures
        ({
            let t = finished(s).file_info->0;
            &&& s.info.found_files > 0 ==> file_share_parts(t) == s.info.found_files
                && forall|i: int| 0 <= i < t.len() ==> t[i].1.percent_of_total_files
                    == Some(Fraction { part: t[i].1.num_files as u64, whole: s.info.found_files as u64 })
            &&& s.info.total_bytes > 0 ==> size_share_parts(t) == s.info.total_bytes
                && forall|i: int| 0 <= i < t.len() ==> t[i].1.percent_of_total_size
                    == Some(Fraction { part: t[i].1.size_in_bytes as u64, whole: s.info.total_bytes as u64 })
        }),
{
    let m = s.info.file_info->0;
    let tb = s.info.total_bytes as int;
    let tf = s.info.found_files as int;
    if tf > 0 && tb > 0 {
        lemma_share_parts(m, tb, tf);
    } else if tf > 0 {
        lemma_file_share_parts(m, tb, tf);
    } else if tb > 0 {
        lemma_size_share_parts(m, tb, tf);
    }
}

proof fn lemma_file_share_parts(m: TypeTable, total_bytes: int, total_files: int)
    requires
        0 < total_files <= u32::MAX,
        files_in(m) <= u32::MAX,
    ensures
        file_share_parts(table_with_shares(m, total_bytes, total_files)) == files_in(m),
    decreases m.len(),
{
    if m.len() > 0 {
        let t = table_with_shares(m, total_bytes, total_files);
        assert(t.drop_last() =~= table_with_shares(m.drop_last(), total_bytes, total_files));
        lemma_file_share_parts(m.drop_last(), total_bytes, total_files);
    }
}

proof fn lemma_size_share_parts(m: TypeTable, total_bytes: int, total_files: int)
    requires
        0 < total_bytes <= u64::MAX,
        bytes_in(m) <= u64::MAX,
    ensures
        size_share_parts(table_with_shares(m, total_bytes, total_files)) == bytes_in(m),
    decreases m.len(),
{
    if m.len() > 0 {
        let t = table_with_shares(m, total_bytes, total_files);
        assert(t.drop_last() =~= table_with_shares(m.drop_last(), total_bytes, total_files));
        lemma_size_share_parts(m.drop_last(), total_bytes, total_files);
    }
}

} // verus!
