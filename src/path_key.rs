use vstd::prelude::*;

verus! {

/// The separator between path components.
pub const SEPARATOR: char = '/';

/// The text of a path without the separators it ends with.
pub open spec fn path_key_of(path: Seq<char>) -> Seq<char>
    decreases path.len(),
{
    if path.len() > 0 && path.last() == SEPARATOR {
        path_key_of(path.drop_last())
    } else {
        path
    }
}

/// A path held as text, compared by plain string equality, which is much
/// cheaper than comparing paths component by component.
#[derive(Debug, Clone, PartialEq, Eq)]
pub struct FastPath {
    path: String,
}

impl View for FastPath {
    type V = Seq<char>;

    closed spec fn view(&self) -> Seq<char> {
        self.path@
    }
}

impl FastPath {
    /// The key of `path`: its text with the trailing separators removed, so that
    /// `dir` and `dir/` give the same key.
    pub fn new(path: &str) -> (r: FastPath)
        ensures
            r@ == path_key_of(path@),
    {
        let n = path.unicode_len();
        let mut end = n;
        proof {
            assert(path@.subrange(0, n as int) =~= path@);
        }
        while end > 0 && path.get_char(end - 1) == SEPARATOR
            invariant
                end <= n,
                n == path@.len(),
                path_key_of(path@.subrange(0, end as int)) == path_key_of(path@),
            decreases end,
        {
            proof {
                let s = path@.subrange(0, end as int);
                assert(s.drop_last() =~= path@.subrange(0, end - 1));
            }
            end = end - 1;
        }
        FastPath { path: path.substring_char(0, end).to_owned() }
    }

    /// Whether two keys name the same path.
    pub fn same_as(&self, other: &FastPath) -> (r: bool)
        ensures
            r == (self@ == other@),
    {
        self.path == other.path
    }

    /// The key as text.
    pub fn as_str(&self) -> (r: &str)
        ensures
            r@ == self@,
    {
        self.path.as_str()
    }
}

} // verus!
