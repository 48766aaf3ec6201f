use vstd::prelude::*;
use crate::path_key::{path_key_of, FastPath};

verus! {

/// The pieces of `s` between the occurrences of `sep`, in order; a text
/// without `sep` is one piece, and the empty text is one empty piece.
pub open spec fn split_on(s: Seq<char>, sep: char) -> Seq<Seq<char>>
    decreases s.len(),
{
    if s.len() == 0 {
        seq![Seq::<char>::empty()]
    } else {
        let r = split_on(s.drop_last(), sep);
        if s.last() == sep {
            r.push(Seq::<char>::empty())
        } else {
            r.update(r.len() - 1, r.last().push(s.last()))
        }
    }
}

/// Whether `c` has the Unicode property White_Space, the characters that
/// `char::is_whitespace` accepts.
pub open spec fn is_white_space(c: char) -> bool {
    let u = c as u32;
    ||| 0x9 <= u <= 0xd
    ||| u == 0x20
    ||| u == 0x85
    ||| u == 0xa0
    ||| u == 0x1680
    ||| 0x2000 <= u <= 0x200a
    ||| u == 0x2028
    ||| u == 0x2029
    ||| u == 0x202f
    ||| u == 0x205f
    ||| u == 0x3000
}

/// `s` without the white space it starts with.
pub open spec fn trim_start_of(s: Seq<char>) -> Seq<char>
    decreases s.len(),
{
    if s.len() > 0 && is_white_space(s[0]) {
        trim_start_of(s.subrange(1, s.len() as int))
    } else {
        s
    }
}

/// `s` without the white space it ends with.
pub open spec fn trim_end_of(s: Seq<char>) -> Seq<char>
    decreases s.len(),
{
    if s.len() > 0 && is_white_space(s.last()) {
        trim_end_of(s.drop_last())
    } else {
        s
    }
}

/// The text `s` without the white space at either end.
pub open spec fn trimmed(s: Seq<char>) -> Seq<char> {
    trim_end_of(trim_start_of(s))
}

/// Relies on `str::trim`: it removes the leading and trailing characters
/// that have the Unicode property White_Space.
#[verifier::external_body]
fn trim(s: &str) -> (r: &str)
    ensures
        r@ == trimmed(s@),
{
    s.trim()
}

/// Splits `s` at every `sep`.
pub fn split_list(s: &str, sep: char) -> (r: Vec<String>)
    ensures
        r@.map_values(|p: String| p@) == split_on(s@, sep),
{
    let n = s.unicode_len();
    let mut pieces: Vec<String> = Vec::new();
    let mut start: usize = 0;
    let mut i: usize = 0;
    proof {
        assert(s@.subrange(0, 0) =~= Seq::<char>::empty());
        assert(pieces@.map_values(|p: String| p@).push(s@.subrange(0, 0)) =~= seq![Seq::<char>::empty()]);
    }
    while i < n
        invariant
            n == s@.len(),
            start <= i <= n,
            split_on(s@.subrange(0, i as int), sep)
                == pieces@.map_values(|p: String| p@).push(s@.subrange(start as int, i as int)),
        decreases n - i,
    {
        let ghost before = pieces@.map_values(|p: String| p@);
        let c = s.get_char(i);
        proof {
            let t = s@.subrange(0, i + 1);
            assert(t.drop_last() =~= s@.subrange(0, i as int));
            assert(t.last() == c);
        }
        if c == sep {
            let piece = s.substring_char(start, i).to_owned();
            let ghost piece_view = piece@;
            assert(piece_view == s@.subrange(start as int, i as int));
            pieces.push(piece);
            start = i + 1;
            proof {
                assert(pieces@.map_values(|p: String| p@) =~= before.push(piece_view));
                assert(s@.subrange(start as int, i + 1) =~= Seq::<char>::empty());
                assert(split_on(s@.subrange(0, i + 1), sep)
                    =~= pieces@.map_values(|p: String| p@).push(s@.subrange(start as int, i + 1)));
            }
        } else {
            proof {
                assert(s@.subrange(start as int, i + 1) =~= s@.subrange(start as int, i as int).push(c));
                assert(split_on(s@.subrange(0, i + 1), sep)
                    =~= pieces@.map_values(|p: String| p@).push(s@.subrange(start as int, i + 1)));
            }
        }
        i = i + 1;
    }
    let ghost before = pieces@.map_values(|p: String| p@);
    let last = s.substring_char(start, n).to_owned();
    pieces.push(last);
    proof {
        assert(s@.subrange(0, n as int) =~= s@);
        assert(pieces@.map_values(|p: String| p@) =~= before.push(s@.subrange(start as int, n as int)));
    }
    pieces
}

/// The paths of a comma separated ignore list, each without the white space
/// around it.
pub fn set_up_ignore_these(ignore_entries: &str) -> (r: Vec<String>)
    ensures
        r@.map_values(|p: String| p@)
            == split_on(ignore_entries@, ',').map_values(|p: Seq<char>| trimmed(p)),
{
    let pieces = split_list(ignore_entries, ',');
    let ghost split = split_on(ignore_entries@, ',');
    let mut out: Vec<String> = Vec::new();
    let mut i: usize = 0;
    while i < pieces.len()
        invariant
            i <= pieces@.len(),
            pieces@.map_values(|p: String| p@) == split,
            out@.len() == i,
            forall|j: int| 0 <= j < i ==> out@[j]@ == trimmed(split[j]),
        decreases pieces@.len() - i,
    {
        assert(pieces@[i as int]@ == split[i as int]);
        out.push(trim(pieces[i].as_str()).to_owned());
        i = i + 1;
    }
    assert(out@.map_values(|p: String| p@) =~= split.map_values(|p: Seq<char>| trimmed(p)));
    out
}

/// The paths left out of a walk, each held by its key.
#[derive(Debug, Clone)]
pub struct IgnoreFilter {
    paths: Vec<FastPath>,
}

impl View for IgnoreFilter {
    type V = Seq<Seq<char>>;

    closed spec fn view(&self) -> Seq<Seq<char>> {
        self.paths@.map_values(|p: FastPath| p@)
    }
}

impl IgnoreFilter {
    /// A filter that leaves out exactly the given paths, each compared by its
    /// key, so that a trailing separator makes no difference.
    pub fn new(paths: &Vec<String>) -> (r: IgnoreFilter)
        ensures
            r@ == paths@.map_values(|p: String| path_key_of(p@)),
    {
        let mut keys: Vec<FastPath> = Vec::new();
        let mut i: usize = 0;
        while i < paths.len()
            invariant
                i <= paths@.len(),
                keys@.len() == i,
                forall|j: int| 0 <= j < i ==> keys@[j]@ == path_key_of(paths@[j]@),
            decreases paths@.len() - i,
        {
            keys.push(FastPath::new(paths[i].as_str()));
            i = i + 1;
        }
        let r = IgnoreFilter { paths: keys };
        assert(r@ =~= paths@.map_values(|p: String| path_key_of(p@)));
        r
    }

    /// A filter that leaves out nothing.
    pub fn empty() -> (r: IgnoreFilter)
        ensures
            r@ == Seq::<Seq<char>>::empty(),
    {
        let r = IgnoreFilter { paths: Vec::new() };
        assert(r@ =~= Seq::<Seq<char>>::empty());
        r
    }

    /// Whether `path` is one of the paths left out. Only the whole path
    /// matches: a path below a left out directory is not itself matched.
    pub fn excludes(&self, path: &str) -> (r: bool)
        ensures
            r == self@.contains(path_key_of(path@)),
    {
        let key = FastPath::new(path);
        let mut i: usize = 0;
        while i < self.paths.len()
            invariant
                i <= self.paths@.len(),
                key@ == path_key_of(path@),
                forall|j: int| 0 <= j < i ==> self.paths@[j]@ != key@,
            decreases self.paths@.len() - i,
        {
            if self.paths[i].same_as(&key) {
                assert(self@[i as int] == key@);
                return true;
            }
            i = i + 1;
        }
        assert(!self@.contains(key@)) by {
            if self@.contains(key@) {
                let j = choose|j: int| 0 <= j < self@.len() && self@[j] == key@;
                assert(self.paths@[j]@ == key@);
            }
        }
        false
    }
}

} // verus!
