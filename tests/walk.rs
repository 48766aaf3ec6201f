use dira::{
    AnalyzedInfo, Args, Entry, EntryKind, FileTypeInfo, Found, Fraction, IgnoreFilter,
    LinkTarget, SymlinkInfo, Walk, WalkError,
};

/// A node of an in-memory tree: its absolute path and what it is.
#[derive(Clone)]
enum Node {
    Dir(&'static str),
    File(&'static str, u64),
    Link(&'static str, &'static str),
}

impl Node {
    fn path(&self) -> &'static str {
        match self {
            Node::Dir(p) | Node::File(p, _) | Node::Link(p, _) => p,
        }
    }
}

const CWD: &str = "/home";

fn absolute(p: &str) -> String {
    if p.starts_with('/') {
        p.to_string()
    } else {
        format!("{CWD}/{p}")
    }
}

/// Resolves every link on the way to `p`.
fn resolve(tree: &[Node], p: &str) -> String {
    let mut cur = absolute(p);
    for _ in 0..40 {
        let mut changed = false;
        for n in tree {
            if let Node::Link(lp, target) = n {
                let prefix = format!("{lp}/");
                if cur == *lp {
                    cur = target.to_string();
                    changed = true;
                } else if cur.starts_with(&prefix) {
                    cur = format!("{}/{}", target, &cur[prefix.len()..]);
                    changed = true;
                }
            }
        }
        if !changed {
            break;
        }
    }
    cur
}

fn node_at<'a>(tree: &'a [Node], abs: &str) -> Option<&'a Node> {
    tree.iter().find(|n| n.path() == abs)
}

fn name_of(p: &str) -> &str {
    &p[p.rfind('/').unwrap() + 1..]
}

fn parent_of(p: &str) -> &str {
    &p[..p.rfind('/').unwrap()]
}

fn args(root: &str, no_recurse: bool, file_info: bool, follow: bool, count: bool) -> Args {
    Args::new(root.to_string(), no_recurse, file_info, follow, false, None, false, None, None, count, false)
}

/// Walks the tree the way a driver over a real file system does; returns the
/// result and what each visit reported.
fn run(tree: &[Node], args: &Args, ignore: IgnoreFilter) -> Result<(AnalyzedInfo, Vec<Found>), WalkError> {
    let root_key = resolve(tree, &args.path_to_analyze);
    let mut walk = Walk::new(args, &root_key, ignore);
    let mut reports = Vec::new();
    while let Some(dir) = walk.next_dir() {
        let real = resolve(tree, &dir);
        for n in tree.iter().filter(|n| parent_of(n.path()) == real) {
            let name = name_of(n.path());
            let path = format!("{dir}/{name}");
            let (kind, size) = match n {
                Node::Dir(_) => (EntryKind::Dir, 4096),
                Node::File(_, s) => (EntryKind::File, *s),
                Node::Link(..) => (EntryKind::Symlink, 10),
            };
            let entry = Entry::new(path.clone(), absolute(&path), format!("{real}/{name}"), kind, size);
            let target = if walk.needs_target(&entry) {
                let key = resolve(tree, n.path());
                let (kind, size) = match node_at(tree, &key) {
                    Some(Node::Dir(_)) => (EntryKind::Dir, 4096),
                    Some(Node::File(_, s)) => (EntryKind::File, *s),
                    _ => (EntryKind::Other, 0),
                };
                Some(LinkTarget::new(key, kind, size))
            } else {
                None
            };
            reports.push(walk.visit(&entry, target.as_ref())?);
        }
    }
    Ok((walk.finish(), reports))
}

fn example_tree() -> Vec<Node> {
    vec![
        Node::Dir("/home/r"),
        Node::File("/home/r/a.txt", 10),
        Node::File("/home/r/b.txt", 20),
        Node::Dir("/home/r/sub"),
        Node::File("/home/r/sub/c.log", 5),
    ]
}

fn ext<'a>(info: &'a AnalyzedInfo, e: &str) -> &'a FileTypeInfo {
    info.file_info().unwrap().get(e).unwrap()
}

fn ratio(f: Option<Fraction>) -> f64 {
    let f = f.unwrap();
    f.part() as f64 / f.whole() as f64
}

#[test]
fn example_non_recursive_with_extension_stats() {
    let (info, _) = run(&example_tree(), &args("r", true, true, false, false), IgnoreFilter::empty()).unwrap();
    assert_eq!(info.found_dirs(), 1);
    assert_eq!(info.found_files(), 2);
    assert_eq!(info.total_bytes(), 30);
    assert_eq!(info.file_info().unwrap().len(), 1);
    let txt = ext(&info, "txt");
    assert_eq!(txt.num_files(), 2);
    assert_eq!(txt.size_in_bytes(), 30);
    assert_eq!(txt.largest_file().path(), "r/b.txt");
    assert_eq!(txt.largest_file().size(), 20);
    assert_eq!(txt.smallest_file().path(), "r/a.txt");
    assert_eq!(txt.smallest_file().size(), 10);
    assert_eq!(txt.percent_of_total_files(), Some(Fraction { part: 2, whole: 2 }));
    assert_eq!(txt.percent_of_total_size(), Some(Fraction { part: 30, whole: 30 }));
    assert!((ratio(txt.percent_of_total_files()) - 1.0).abs() < 1e-9);
    assert!(info.file_info().unwrap().get("log").is_none());
    assert!(info.found_symlinks().is_none());
}

#[test]
fn example_recursive_with_extension_stats() {
    let (info, _) = run(&example_tree(), &args("r", false, true, false, false), IgnoreFilter::empty()).unwrap();
    assert_eq!(info.found_dirs(), 1);
    assert_eq!(info.found_files(), 3);
    assert_eq!(info.total_bytes(), 35);
    let log = ext(&info, "log");
    assert_eq!(log.num_files(), 1);
    assert_eq!(log.size_in_bytes(), 5);
    assert_eq!(log.largest_file(), log.smallest_file());
    assert_eq!(log.largest_file().path(), "r/sub/c.log");
    assert_eq!(log.largest_file().size(), 5);
    assert!((ratio(log.percent_of_total_files()) - 0.333).abs() < 1e-3);
    assert!((ratio(log.percent_of_total_size()) - 0.143).abs() < 1e-3);
    let txt = ext(&info, "txt");
    assert_eq!(txt.percent_of_total_files(), Some(Fraction { part: 2, whole: 3 }));
    assert_eq!(txt.percent_of_total_size(), Some(Fraction { part: 30, whole: 35 }));
}

#[test]
fn full_paths_are_recorded_when_asked() {
    let a = Args::new("r".to_string(), true, true, false, false, None, true, None, None, false, false);
    let (info, reports) = run(&example_tree(), &a, IgnoreFilter::empty()).unwrap();
    assert_eq!(ext(&info, "txt").largest_file().path(), "/home/r/b.txt");
    assert!(reports.contains(&Found::Dir("/home/r/sub".to_string())));
    assert!(reports.contains(&Found::File("/home/r/a.txt".to_string())));
}

#[test]
fn extension_totals_match_overall_totals() {
    let tree = vec![
        Node::Dir("/home/r"),
        Node::File("/home/r/a.txt", 7),
        Node::File("/home/r/b", 3),
        Node::File("/home/r/.hidden", 4),
        Node::Dir("/home/r/d"),
        Node::File("/home/r/d/x.TXT", 11),
        Node::File("/home/r/d/y.tar.gz", 2),
    ];
    let (info, _) = run(&tree, &args("r", false, true, false, false), IgnoreFilter::empty()).unwrap();
    let map = info.file_info().unwrap();
    let mut files = 0;
    let mut bytes = 0;
    let mut share_files = 0.0;
    let mut share_bytes = 0.0;
    for i in 0..map.len() {
        files += map.info(i).num_files();
        bytes += map.info(i).size_in_bytes();
        share_files += ratio(map.info(i).percent_of_total_files());
        share_bytes += ratio(map.info(i).percent_of_total_size());
    }
    assert_eq!(files, info.found_files());
    assert_eq!(bytes, info.total_bytes());
    assert!((share_files - 1.0).abs() <= 1e-4);
    assert!((share_bytes - 1.0).abs() <= 1e-4);
    // no suffix, a leading dot alone, case kept, only the last suffix
    assert_eq!(map.get("").unwrap().num_files(), 2);
    assert_eq!(map.get("TXT").unwrap().num_files(), 1);
    assert_eq!(map.get("txt").unwrap().num_files(), 1);
    assert_eq!(map.get("gz").unwrap().num_files(), 1);
    assert!(map.get("hidden").is_none());
    let dotted = vec![Node::Dir("/home/r"), Node::File("/home/r/a.", 1), Node::File("/home/r/b", 2)];
    let (info, _) = run(&dotted, &args("r", false, true, false, false), IgnoreFilter::empty()).unwrap();
    assert_eq!(ext(&info, "").num_files(), 2);
    assert_eq!(info.file_info().unwrap().len(), 1);
}

#[test]
fn sizes_lie_between_smallest_and_largest_and_ties_keep_the_first() {
    let tree = vec![
        Node::Dir("/home/r"),
        Node::File("/home/r/a.bin", 8),
        Node::File("/home/r/b.bin", 3),
        Node::File("/home/r/c.bin", 8),
        Node::File("/home/r/d.bin", 3),
        Node::File("/home/r/e.bin", 5),
    ];
    let (info, _) = run(&tree, &args("r", false, true, false, false), IgnoreFilter::empty()).unwrap();
    let bin = ext(&info, "bin");
    assert_eq!(bin.largest_file().path(), "r/a.bin");
    assert_eq!(bin.smallest_file().path(), "r/b.bin");
    for n in &tree {
        if let Node::File(_, s) = n {
            assert!(bin.smallest_file().size() <= *s && *s <= bin.largest_file().size());
        }
    }
}

#[test]
fn empty_files_and_no_files_leave_shares_unset() {
    let tree = vec![Node::Dir("/home/r"), Node::File("/home/r/z.txt", 0)];
    let (info, _) = run(&tree, &args("r", false, true, false, false), IgnoreFilter::empty()).unwrap();
    let txt = ext(&info, "txt");
    assert_eq!(txt.percent_of_total_files(), Some(Fraction { part: 1, whole: 1 }));
    assert_eq!(txt.percent_of_total_size(), None);
    assert_eq!(txt.smallest_file().path(), "r/z.txt");
    assert_eq!(txt.largest_file().path(), "r/z.txt");
    assert_eq!(txt.largest_file().size(), 0);
    let (empty, _) = run(&[Node::Dir("/home/r")], &args("r", false, true, false, false), IgnoreFilter::empty()).unwrap();
    assert_eq!(empty.found_files(), 0);
    assert_eq!(empty.file_info().unwrap().len(), 0);
}

#[test]
fn no_recurse_lists_only_the_top() {
    let tree = vec![
        Node::Dir("/home/r"),
        Node::Dir("/home/r/a"),
        Node::Dir("/home/r/a/b"),
        Node::File("/home/r/a/b/deep.txt", 1),
        Node::File("/home/r/a/mid.txt", 2),
        Node::File("/home/r/top.txt", 3),
    ];
    let root_key = resolve(&tree, "r");
    let mut walk = Walk::new(&args("r", true, false, false, false), &root_key, IgnoreFilter::empty());
    assert_eq!(walk.next_dir(), Some("r".to_string()));
    let dir = Entry::new("r/a".to_string(), "/home/r/a".to_string(), "/home/r/a".to_string(), EntryKind::Dir, 4096);
    assert_eq!(walk.visit(&dir, None), Ok(Found::Dir("r/a".to_string())));
    assert_eq!(walk.next_dir(), None);
    let (info, _) = run(&tree, &args("r", true, false, false, false), IgnoreFilter::empty()).unwrap();
    assert_eq!(info.found_dirs(), 1);
    assert_eq!(info.found_files(), 1);
    assert_eq!(info.total_bytes(), 3);
}

#[test]
fn symlink_loop_counts_the_link_once() {
    let tree = vec![Node::Dir("/home/A"), Node::Link("/home/A/loop", "/home/A")];
    for follow in [true, false] {
        let (info, _) = run(&tree, &args("A", false, false, follow, true), IgnoreFilter::empty()).unwrap();
        assert_eq!(info.found_symlinks(), Some(&SymlinkInfo::new(1, 0, 1)));
        assert_eq!(info.found_dirs(), 0);
        assert_eq!(info.found_files(), 0);
    }
}

#[test]
fn symlink_loop_below_the_top_terminates() {
    let tree = vec![
        Node::Dir("/home/A"),
        Node::Dir("/home/A/B"),
        Node::File("/home/A/B/f.txt", 6),
        Node::Link("/home/A/B/up", "/home/A"),
        Node::Link("/home/A/B/self", "/home/A/B"),
    ];
    let (info, _) = run(&tree, &args("A", false, false, true, true), IgnoreFilter::empty()).unwrap();
    assert_eq!(info.found_dirs(), 1);
    assert_eq!(info.found_files(), 1);
    assert_eq!(info.total_bytes(), 6);
    assert_eq!(info.found_symlinks(), Some(&SymlinkInfo::new(2, 0, 2)));
}

#[test]
fn followed_links_count_each_object_once() {
    for tree in [
        vec![
            Node::Dir("/home/r"),
            Node::Dir("/home/r/real"),
            Node::File("/home/r/real/f.dat", 3),
            Node::Link("/home/r/alias", "/home/r/real"),
            Node::Link("/home/r/flink", "/home/r/real/f.dat"),
        ],
        vec![
            Node::Dir("/home/r"),
            Node::Link("/home/r/alias", "/home/r/real"),
            Node::Link("/home/r/flink", "/home/r/real/f.dat"),
            Node::Dir("/home/r/real"),
            Node::File("/home/r/real/f.dat", 3),
        ],
    ] {
        let (info, _) = run(&tree, &args("r", false, true, true, true), IgnoreFilter::empty()).unwrap();
        assert_eq!(info.found_dirs(), 1);
        assert_eq!(info.found_files(), 1);
        assert_eq!(info.total_bytes(), 3);
        let s = info.found_symlinks().unwrap();
        assert_eq!((s.found_symlinks(), s.file_symlinks(), s.dir_symlinks()), (2, 1, 1));
        assert_eq!(s.found_symlinks(), s.file_symlinks() + s.dir_symlinks());
    }
}

#[test]
fn counted_links_are_not_followed_without_follow() {
    let tree = vec![
        Node::Dir("/home/r"),
        Node::Dir("/home/r/real"),
        Node::File("/home/r/real/f.dat", 3),
        Node::Link("/home/r/alias", "/home/r/real"),
        Node::Link("/home/r/flink", "/home/r/real/f.dat"),
    ];
    let (info, _) = run(&tree, &args("r", false, false, false, true), IgnoreFilter::empty()).unwrap();
    assert_eq!(info.found_dirs(), 1);
    assert_eq!(info.found_files(), 1);
    assert_eq!(info.found_symlinks(), Some(&SymlinkInfo::new(2, 1, 1)));
    let (plain, _) = run(&tree, &args("r", false, false, false, false), IgnoreFilter::empty()).unwrap();
    assert_eq!(plain.found_symlinks(), None);
    assert_eq!(plain.found_files(), 1);
    let (followed, _) = run(&tree, &args("r", false, false, true, false), IgnoreFilter::empty()).unwrap();
    assert_eq!(followed.found_symlinks(), None);
    assert_eq!(followed.found_dirs(), 1);
}

#[test]
fn link_to_special_file_counts_as_file_link() {
    let tree = vec![Node::Dir("/home/r"), Node::Link("/home/r/dev", "/dev/null")];
    let (info, _) = run(&tree, &args("r", false, false, true, true), IgnoreFilter::empty()).unwrap();
    assert_eq!(info.found_symlinks(), Some(&SymlinkInfo::new(1, 1, 0)));
    assert_eq!(info.found_files(), 0);
    let s = info.found_symlinks().unwrap();
    assert_eq!(s.found_symlinks(), s.file_symlinks() + s.dir_symlinks());
}

#[test]
fn ignored_directory_contributes_nothing() {
    let filter = IgnoreFilter::new(&vec!["/home/r/sub/".to_string(), "/home/r/a.txt".to_string()]);
    let (info, _) = run(&example_tree(), &args("r", false, true, false, true), filter).unwrap();
    assert_eq!(info.found_dirs(), 0);
    assert_eq!(info.found_files(), 1);
    assert_eq!(info.total_bytes(), 20);
    assert!(info.file_info().unwrap().get("log").is_none());
    assert_eq!(ext(&info, "txt").num_files(), 1);
    assert_eq!(info.found_symlinks(), Some(&SymlinkInfo::new(0, 0, 0)));
}

#[test]
fn ignored_link_is_not_resolved() {
    let tree = vec![Node::Dir("/home/r"), Node::Link("/home/r/l", "/home/r")];
    let a = args("r", false, false, true, true);
    let mut walk = Walk::new(&a, "/home/r", IgnoreFilter::new(&vec!["/home/r/l".to_string()]));
    walk.next_dir();
    let e = Entry::new("r/l".to_string(), "/home/r/l".to_string(), "/home/r/l".to_string(), EntryKind::Symlink, 1);
    assert!(!walk.needs_target(&e));
    assert_eq!(walk.visit(&e, None), Ok(Found::Nothing));
    let (info, _) = run(&tree, &a, IgnoreFilter::new(&vec!["/home/r/l".to_string()])).unwrap();
    assert_eq!(info.found_symlinks(), Some(&SymlinkInfo::new(0, 0, 0)));
}

#[test]
fn link_without_target_is_refused() {
    let a = args("r", false, false, false, true);
    let mut walk = Walk::new(&a, "/home/r", IgnoreFilter::empty());
    walk.next_dir();
    let e = Entry::new("r/l".to_string(), "/home/r/l".to_string(), "/home/r/l".to_string(), EntryKind::Symlink, 1);
    assert!(walk.needs_target(&e));
    assert_eq!(walk.visit(&e, None), Err(WalkError::UnresolvedLink));
    assert_eq!(walk.info().found_symlinks(), Some(&SymlinkInfo::new(0, 0, 0)));
    let t = LinkTarget::new("/home/x".to_string(), EntryKind::File, 9);
    assert_eq!(walk.visit(&e, Some(&t)), Ok(Found::Nothing));
    assert_eq!(walk.info().found_symlinks(), Some(&SymlinkInfo::new(1, 1, 0)));
}

#[test]
fn byte_total_overflow_is_refused() {
    let a = args("r", false, true, false, false);
    let mut walk = Walk::new(&a, "/home/r", IgnoreFilter::empty());
    walk.next_dir();
    let big = Entry::new("r/big.img".to_string(), "/home/r/big.img".to_string(), "/home/r/big.img".to_string(), EntryKind::File, u64::MAX);
    let one = Entry::new("r/one.img".to_string(), "/home/r/one.img".to_string(), "/home/r/one.img".to_string(), EntryKind::File, 1);
    assert_eq!(walk.visit(&big, None), Ok(Found::File("r/big.img".to_string())));
    assert_eq!(walk.visit(&one, None), Err(WalkError::CounterOverflow));
    assert_eq!(walk.found_files(), 1);
    assert_eq!(walk.info().total_bytes(), u64::MAX);
    let info = walk.finish();
    let img = ext(&info, "img");
    assert_eq!(img.smallest_file().size(), u64::MAX);
    assert_eq!(img.smallest_file().path(), "r/big.img");
    assert_eq!(img.largest_file().path(), "r/big.img");
}

#[test]
fn other_entries_are_skipped() {
    let mut walk = Walk::new(&args("r", false, true, true, true), "/home/r", IgnoreFilter::empty());
    walk.next_dir();
    let fifo = Entry::new("r/p".to_string(), "/home/r/p".to_string(), "/home/r/p".to_string(), EntryKind::Other, 0);
    assert_eq!(walk.visit(&fifo, None), Ok(Found::Nothing));
    let info = walk.finish();
    assert_eq!((info.found_dirs(), info.found_files(), info.total_bytes()), (0, 0, 0));
}
