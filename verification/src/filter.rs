//! Which files a run takes.

use vstd::prelude::*;
use crate::config::{Configuration, ConfigurationView};
use crate::entry::{FileEntry, FileEntryView};
use crate::text::contains_text;

verus! {

/// Whether a file with this extension and name passes the two lists.
///
/// With both lists empty every file passes. Otherwise a file passes if its
/// extension is on the first list or its name is on the second: one match is
/// enough. An entry of a list matches only the text that equals it, letter
/// for letter and case for case.
pub open spec fn admits(
    extensions: Seq<Seq<char>>,
    file_names: Seq<Seq<char>>,
    entry: FileEntryView,
) -> bool {
    ||| extensions.len() == 0 && file_names.len() == 0
    ||| extensions.contains(entry.extension)
    ||| file_names.contains(entry.file_name)
}

/// Whether the run that `config` describes takes `entry`.
pub open spec fn accepted(config: ConfigurationView, entry: FileEntryView) -> bool {
    admits(config.extensions, config.file_names, entry)
}

/// Decides whether `entry` passes the filter of `config`.
pub fn accepts(config: &Configuration, entry: &FileEntry) -> (r: bool)
    ensures
        r == accepted(config@, entry@),
{
    if config.extensions.len() == 0 && config.file_names.len() == 0 {
        return true;
    }
    if contains_text(&config.extensions, entry.extension.as_str()) {
        return true;
    }
    contains_text(&config.file_names, entry.file_name.as_str())
}

} // verus!
