//! Walks a directory tree and gathers statistics about what it holds: how many
//! directories and files there are, how many bytes the files take, statistics per
//! file extension and per kind of symbolic link target.
//!
//! The library holds the decisions of the walk; whoever drives it lists the
//! directories and reads metadata, and hands each entry over as plain values.

mod args;
mod ignore;
mod info;
mod invariants;
mod path_key;
mod stats;
mod timer;
mod walk;

pub use args::Args;
pub use ignore::{
    is_white_space, set_up_ignore_these, split_list, split_on, trim_end_of, trim_start_of, trimmed,
    IgnoreFilter,
};
pub use info::{
    fresh_type_view, share_of, with_file, with_shares, FileTypeInfo, FileTypeInfoRecords,
    FileTypeView, Fraction, LinkCounts, SymlinkInfo,
};
pub use invariants::{
    file_share_parts, lemma_extension_size_bounds, lemma_extension_totals,
    lemma_followed_walk_is_bounded, lemma_ignored_entry_changes_nothing, lemma_link_counts_add_up,
    lemma_link_to_seen_target, lemma_no_recurse_stays_at_top, lemma_self_loop_counted_once,
    lemma_shares_sum_to_one, lemma_unfollowed_links_queue_nothing, lemma_walk_lists_counted_dirs,
    size_share_parts,
};
pub use path_key::{path_key_of, FastPath, SEPARATOR};
pub use stats::{
    add_file_info_to_map, bytes_in, files_in, find_ext, keys_unique, lemma_entry_within_sums,
    lemma_find_ext, lemma_table_with_file, table_fits, table_ok, table_with_file, table_with_shares,
    AnalyzedInfo, FileTypeMap, InfoView, TypeTable,
};
pub use timer::{Timer, NANOS_PER_SECOND};
pub use walk::{
    counters_fit, distinct, excluded, extension_key, finished, found_of, initial, lemma_step_keeps_wf, link_step,
    links_wf, mark, mark_if_following, needs_target_of, path_extension, seen, set_up_anaylzed_info,
    set_up_info, shape_wf, shown, step, table_wf, walk_wf, with_dir, with_file_at, with_link,
    Entry, EntryKind, EntryView, Found, FoundView, LinkTarget, TargetView, Walk, WalkError,
    WalkState,
};
