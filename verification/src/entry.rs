//! A file found under the source root.

use vstd::prelude::*;
use vstd::string::*;
use crate::path::{extension, extension_of, file_name, file_name_of, join, joined};

verus! {

/// One file of the source tree, as the traversal hands it on.
#[derive(Debug, Clone, PartialEq, Eq)]
pub struct FileEntry {
    /// Where the file is: the source root joined with `relative`.
    pub path: String,
    /// The file's path as seen from the source root.
    pub relative: String,
    /// The last name of `relative`.
    pub file_name: String,
    /// The extension of `file_name`, without its dot; empty where it has none.
    pub extension: String,
}

/// What a `FileEntry` holds, as text.
pub struct FileEntryView {
    pub path: Seq<char>,
    pub relative: Seq<char>,
    pub file_name: Seq<char>,
    pub extension: Seq<char>,
}

impl FileEntryView {
    /// The entry for the file at `relative` under `root`.
    pub open spec fn found(root: Seq<char>, relative: Seq<char>) -> FileEntryView {
        FileEntryView {
            path: joined(root, relative),
            relative,
            file_name: file_name_of(relative),
            extension: extension_of(file_name_of(relative)),
        }
    }

    /// The name and the extension are those of the relative path, and the
    /// relative path ends the full one.
    pub open spec fn wf(self) -> bool {
        &&& self.file_name == file_name_of(self.relative)
        &&& self.extension == extension_of(self.file_name)
        &&& self.relative.is_suffix_of(self.path)
    }
}

impl View for FileEntry {
    type V = FileEntryView;

    open spec fn view(&self) -> FileEntryView {
        FileEntryView {
            path: self.path@,
            relative: self.relative@,
            file_name: self.file_name@,
            extension: self.extension@,
        }
    }
}

/// The views of a list's items, in order.
pub open spec fn views<T: View>(list: Seq<T>) -> Seq<T::V> {
    Seq::new(list.len(), |i: int| list[i]@)
}

/// Every entry that `found` describes is well formed.
pub proof fn lemma_found_is_wf(root: Seq<char>, relative: Seq<char>)
    ensures
        FileEntryView::found(root, relative).wf(),
{
    let path = joined(root, relative);
    assert(relative.is_suffix_of(path)) by {
        assert(path.subrange(path.len() - relative.len(), path.len() as int) =~= relative);
    }
}

impl FileEntry {
    /// Describes the file at `relative` under `root`.
    pub fn new(root: &str, relative: &str) -> (entry: FileEntry)
        ensures
            entry@ == FileEntryView::found(root@, relative@),
            entry@.wf(),
    {
        let name = file_name(relative);
        let ext = extension(name.as_str());
        proof {
            lemma_found_is_wf(root@, relative@);
        }
        FileEntry {
            path: join(root, relative),
            relative: String::from_str(relative),
            file_name: name,
            extension: ext,
        }
    }
}

} // verus!
