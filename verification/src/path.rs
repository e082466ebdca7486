//! File paths as text. The components of a path are separated by `/` or by
//! `\`, so that a path reads alike wherever it was made.
use crate::text::{borrowed_view, chars_of};
use vstd::prelude::*;
use vstd::string::StrSliceExecFns;

verus! {

/// Whether `c` separates the components of a path.
pub open spec fn is_separator(c: char) -> bool {
    c == '/' || c == '\\'
}

/// The greatest position at which a separator stands in `path`, or -1.
pub open spec fn last_separator(path: Seq<char>) -> int
    decreases path.len(),
{
    if path.len() == 0 {
        -1
    } else if is_separator(path.last()) {
        path.len() - 1
    } else {
        last_separator(path.drop_last())
    }
}

/// The greatest position at which a dot stands in `name`, or -1.
pub open spec fn last_dot(name: Seq<char>) -> int
    decreases name.len(),
{
    if name.len() == 0 {
        -1
    } else if name.last() == '.' {
        name.len() - 1
    } else {
        last_dot(name.drop_last())
    }
}

/// The last component of a path: what follows the last separator.
pub open spec fn base_name(path: Seq<char>) -> Seq<char> {
    path.skip(last_separator(path) + 1)
}

/// A file name without its extension: what stands before the last dot,
/// unless that dot begins the name.
pub open spec fn stem_of_name(name: Seq<char>) -> Seq<char> {
    let dot = last_dot(name);
    if dot <= 0 {
        name
    } else {
        name.take(dot)
    }
}

/// The stem of the file that a path names. A path that ends in a separator
/// or in the component `..` names no file.
pub open spec fn file_stem_of(path: Seq<char>) -> Option<Seq<char>> {
    let name = base_name(path);
    if name.len() == 0 || name == seq!['.', '.'] {
        None
    } else {
        Some(stem_of_name(name))
    }
}

/// Where the last component of `path` begins.
fn base_name_start(path: &[char]) -> (start: usize)
    ensures
        start == last_separator(path@) + 1,
        start <= path.len(),
{
    let mut k: usize = path.len();
    proof {
        assert(path@.take(k as int) =~= path@);
    }
    while k > 0
        invariant
            k <= path.len(),
            last_separator(path@) == last_separator(path@.take(k as int)),
        decreases k,
    {
        proof {
            assert(path@.take(k as int).last() == path@[k - 1]);
            assert(path@.take(k as int).drop_last() =~= path@.take(k - 1));
        }
        if path[k - 1] == '/' || path[k - 1] == '\\' {
            return k;
        }
        k = k - 1;
    }
    0
}

/// The stem of the file that `path` names.
pub fn file_stem(path: &str) -> (stem: Option<&str>)
    ensures
        borrowed_view(stem) == file_stem_of(path@),
{
    let chars = chars_of(path);
    let text = chars.as_slice();
    let len: usize = text.len();
    let start = base_name_start(text);
    let ghost name = base_name(path@);
    if start == len {
        return None;
    }
    if len - start == 2 && text[start] == '.' && text[start + 1] == '.' {
        assert(name =~= seq!['.', '.']);
        return None;
    }
    proof {
        if name == seq!['.', '.'] {
            assert(name.len() == 2);
            assert(name[0] == text@[start as int]);
            assert(name[1] == text@[start + 1]);
        }
        assert(name.take(len - start) =~= name);
    }
    // The last dot of the name is sought in the text from `start` on.
    let mut k: usize = len;
    while k > start
        invariant
            start <= k <= len,
            start < len,
            len == text@.len(),
            text@ == path@,
            name == text@.skip(start as int),
            name == base_name(path@),
            name != seq!['.', '.'],
            last_dot(name) == last_dot(name.take(k - start)),
        decreases k,
    {
        proof {
            assert(name.take(k - start).last() == text@[k - 1]);
            assert(name.take(k - start).drop_last() =~= name.take(k - 1 - start));
        }
        if text[k - 1] == '.' {
            let dot: usize = k - 1;
            if dot == start {
                proof {
                    assert(name =~= path@.subrange(start as int, len as int));
                }
                return Some(path.substring_char(start, len));
            }
            proof {
                assert(name.take(dot - start) =~= path@.subrange(start as int, dot as int));
            }
            return Some(path.substring_char(start, dot));
        }
        k = k - 1;
    }
    proof {
        assert(name.take(0) =~= Seq::empty());
        assert(name =~= path@.subrange(start as int, len as int));
    }
    Some(path.substring_char(start, len))
}

} // verus!
