//! Paths as text, with `/` between the names.

use vstd::prelude::*;
use vstd::string::*;
use crate::text::{find_last, last_position, lemma_last_position, lemma_last_position_of_sum};

verus! {

/// The character that parts the names of a path.
pub const SEPARATOR: char = '/';

/// The character that parts a file name from its extension.
pub const DOT: char = '.';

/// What follows the last separator of `path`: the whole of a path that holds none.
pub open spec fn file_name_of(path: Seq<char>) -> Seq<char> {
    path.skip(last_position(path, SEPARATOR) + 1)
}

/// What stands before the last separator of `path`.
///
/// A path without a separator has an empty parent, and a path whose only
/// separator comes first has the root, `/`, as its parent.
pub open spec fn parent_of(path: Seq<char>) -> Seq<char> {
    let at = last_position(path, SEPARATOR);
    if at < 0 {
        Seq::empty()
    } else if at == 0 {
        path.take(1)
    } else {
        path.take(at)
    }
}

/// What follows the last dot of a file name.
///
/// It is empty for a name without a dot, and for a name whose only dot
/// comes first, such as `.profile`.
pub open spec fn extension_of(name: Seq<char>) -> Seq<char> {
    let at = last_position(name, DOT);
    if at <= 0 {
        Seq::empty()
    } else {
        name.skip(at + 1)
    }
}

/// Whether `path` starts at the root.
pub open spec fn is_absolute(path: Seq<char>) -> bool {
    path.len() > 0 && path[0] == SEPARATOR
}

/// `rest` placed under `base`.
///
/// An absolute `rest` stands for itself. Otherwise the two are set side by
/// side, with a separator between them unless `base` is empty or already
/// ends in one.
pub open spec fn joined(base: Seq<char>, rest: Seq<char>) -> Seq<char> {
    if is_absolute(rest) {
        rest
    } else if base.len() == 0 || base.last() == SEPARATOR {
        base + rest
    } else {
        base.push(SEPARATOR) + rest
    }
}

/// The file name of `path`.
pub fn file_name(path: &str) -> (name: String)
    ensures
        name@ == file_name_of(path@),
{
    let n: usize = path.unicode_len();
    let from: usize = match find_last(path, SEPARATOR) {
        Some(at) => {
            proof {
                lemma_last_position(path@, SEPARATOR);
            }
            at + 1
        },
        None => 0,
    };
    proof {
        assert(path@.subrange(from as int, n as int) =~= path@.skip(from as int));
    }
    String::from_str(path.substring_char(from, n))
}

/// The directory that holds `path`.
pub fn parent(path: &str) -> (dir: String)
    ensures
        dir@ == parent_of(path@),
{
    let to: usize = match find_last(path, SEPARATOR) {
        Some(at) => {
            proof {
                lemma_last_position(path@, SEPARATOR);
            }
            if at == 0 {
                1
            } else {
                at
            }
        },
        None => 0,
    };
    proof {
        assert(path@.subrange(0, to as int) =~= path@.take(to as int));
        assert(path@.take(0) =~= Seq::<char>::empty());
    }
    String::from_str(path.substring_char(0, to))
}

/// The extension of the file name `name`.
pub fn extension(name: &str) -> (ext: String)
    ensures
        ext@ == extension_of(name@),
{
    let n: usize = name.unicode_len();
    let from: usize = match find_last(name, DOT) {
        Some(at) => {
            proof {
                lemma_last_position(name@, DOT);
            }
            if at == 0 {
                n
            } else {
                at + 1
            }
        },
        None => n,
    };
    proof {
        assert(name@.subrange(from as int, n as int) =~= name@.skip(from as int));
        assert(name@.skip(n as int) =~= Seq::<char>::empty());
    }
    String::from_str(name.substring_char(from, n))
}

/// Places `rest` under `base`.
pub fn join(base: &str, rest: &str) -> (path: String)
    ensures
        path@ == joined(base@, rest@),
{
    let rest_len: usize = rest.unicode_len();
    if rest_len > 0 && rest.get_char(0) == SEPARATOR {
        return String::from_str(rest);
    }
    let base_len: usize = base.unicode_len();
    let mut path = String::from_str(base);
    if base_len > 0 && base.get_char(base_len - 1) != SEPARATOR {
        proof {
            reveal_strlit("/");
            assert(path@ + "/"@ =~= base@.push(SEPARATOR));
        }
        path.append("/");
    }
    path.append(rest);
    path
}

/// A file name holds no separator.
pub proof fn lemma_file_name_is_one_name(path: Seq<char>)
    ensures
        !file_name_of(path).contains(SEPARATOR),
        file_name_of(file_name_of(path)) == file_name_of(path),
{
    lemma_last_position(path, SEPARATOR);
    let name = file_name_of(path);
    let from = last_position(path, SEPARATOR) + 1;
    if name.contains(SEPARATOR) {
        let i = choose|i: int| 0 <= i < name.len() && name[i] == SEPARATOR;
        assert(path[from + i] == SEPARATOR);
    }
    lemma_last_position(name, SEPARATOR);
    assert(name.skip(0) =~= name);
}

/// A path placed under a base keeps its file name.
pub proof fn lemma_join_keeps_file_name(base: Seq<char>, rest: Seq<char>)
    ensures
        file_name_of(joined(base, rest)) == file_name_of(rest),
{
    if !is_absolute(rest) {
        let front = if base.len() == 0 || base.last() == SEPARATOR {
            base
        } else {
            base.push(SEPARATOR)
        };
        let at = last_position(rest, SEPARATOR);
        lemma_last_position_of_sum(front, rest, SEPARATOR);
        lemma_last_position(rest, SEPARATOR);
        lemma_last_position(front, SEPARATOR);
        if at >= 0 {
            assert((front + rest).skip(front.len() + at + 1) =~= rest.skip(at + 1));
        } else {
            if front.len() > 0 {
                assert(front[front.len() - 1] == SEPARATOR);
            }
            assert(last_position(front, SEPARATOR) == front.len() - 1);
            assert((front + rest).skip(front.len() as int) =~= rest.skip(0));
        }
    }
}

} // verus!
