//! Where a file goes.

use vstd::prelude::*;
use vstd::string::*;
use crate::config::{Configuration, ConfigurationView, Mode};
use crate::entry::{views, FileEntry, FileEntryView};
use crate::filter::{accepted, accepts};
use crate::path::{
    file_name_of, join, joined, lemma_file_name_is_one_name, lemma_join_keeps_file_name, parent,
    parent_of, SEPARATOR,
};

verus! {

/// The part of an attempt that went wrong.
#[derive(Debug, Clone, Copy, PartialEq, Eq, Structural)]
pub enum Failure {
    /// The directory that is to hold the destination could not be created.
    DirectoryCreation,
    /// The file could not be copied or moved.
    Transfer,
}

/// One transfer: from where, to where, and whether the source stays.
#[derive(Debug, Clone, PartialEq, Eq)]
pub struct TransferPlan {
    /// The file to read.
    pub source: String,
    /// The file to write.
    pub destination: String,
    /// Copy or move.
    pub mode: Mode,
}

/// What a `TransferPlan` holds, as text.
pub struct TransferPlanView {
    pub source: Seq<char>,
    pub destination: Seq<char>,
    pub mode: Mode,
}

impl View for TransferPlan {
    type V = TransferPlanView;

    open spec fn view(&self) -> TransferPlanView {
        TransferPlanView {
            source: self.source@,
            destination: self.destination@,
            mode: self.mode,
        }
    }
}

/// The path under the destination root at which `entry` is written.
///
/// A run that preserves structure keeps the entry's relative path; any
/// other run keeps the bare file name, so that all files land side by side.
pub open spec fn destination_of(config: ConfigurationView, entry: FileEntryView) -> Seq<char> {
    if config.preserve_structure {
        joined(config.destination, entry.relative)
    } else {
        joined(config.destination, entry.file_name)
    }
}

/// The transfer that `config` asks for `entry`.
pub open spec fn plan_of(config: ConfigurationView, entry: FileEntryView) -> TransferPlanView {
    TransferPlanView {
        source: entry.path,
        destination: destination_of(config, entry),
        mode: config.mode,
    }
}

/// The transfers of a batch: one for each accepted entry, in the order of
/// the entries.
pub open spec fn plans_of(
    config: ConfigurationView,
    entries: Seq<FileEntryView>,
) -> Seq<TransferPlanView>
    decreases entries.len(),
{
    if entries.len() == 0 {
        Seq::empty()
    } else if accepted(config, entries.last()) {
        plans_of(config, entries.drop_last()).push(plan_of(config, entries.last()))
    } else {
        plans_of(config, entries.drop_last())
    }
}

/// Computes the destination path of `entry`.
pub fn destination(config: &Configuration, entry: &FileEntry) -> (path: String)
    ensures
        path@ == destination_of(config@, entry@),
{
    if config.preserve_structure {
        join(config.destination.as_str(), entry.relative.as_str())
    } else {
        join(config.destination.as_str(), entry.file_name.as_str())
    }
}

/// Draws up the transfer of `entry`.
pub fn plan(config: &Configuration, entry: &FileEntry) -> (p: TransferPlan)
    ensures
        p@ == plan_of(config@, entry@),
{
    TransferPlan {
        source: entry.path.clone(),
        destination: destination(config, entry),
        mode: config.mode,
    }
}

/// Filters `entries` and draws up the transfer of each that passes.
pub fn plan_transfers(config: &Configuration, entries: &Vec<FileEntry>) -> (plans: Vec<TransferPlan>)
    ensures
        views(plans@) == plans_of(config@, views(entries@)),
{
    let mut plans: Vec<TransferPlan> = Vec::new();
    let mut i: usize = 0;
    while i < entries.len()
        invariant
            i <= entries.len(),
            views(plans@) == plans_of(config@, views(entries@).take(i as int)),
        decreases entries.len() - i,
    {
        proof {
            let next = views(entries@).take(i + 1);
            assert(next.drop_last() =~= views(entries@).take(i as int));
            assert(next.last() == entries@[i as int]@);
        }
        if accepts(config, &entries[i]) {
            let p = plan(config, &entries[i]);
            proof {
                assert(views(plans@.push(p)) =~= views(plans@).push(p@));
            }
            plans.push(p);
        }
        i = i + 1;
    }
    proof {
        assert(views(entries@).take(entries.len() as int) =~= views(entries@));
    }
    plans
}

/// The word for what a mode does.
pub open spec fn verb_of(mode: Mode) -> Seq<char> {
    match mode {
        Mode::Copy => "copy"@,
        Mode::Move => "move"@,
    }
}

/// The line by which a dry run announces a transfer.
pub open spec fn report_line_of(plan: TransferPlanView) -> Seq<char> {
    "Would "@ + verb_of(plan.mode) + " "@ + plan.source + " to "@ + plan.destination
}

/// The line that tells the user that a transfer was given up.
pub open spec fn failure_line_of(plan: TransferPlanView, failure: Failure) -> Seq<char> {
    match failure {
        Failure::DirectoryCreation => "Error: cannot create the directory for "@
            + plan.destination,
        Failure::Transfer => "Error: cannot "@ + verb_of(plan.mode) + " "@ + plan.source + " to "@
            + plan.destination,
    }
}

impl TransferPlan {
    /// The directory that must exist before the destination can be
    /// written; empty where the destination names no directory.
    pub fn destination_directory(&self) -> (dir: String)
        ensures
            dir@ == parent_of(self@.destination),
    {
        parent(self.destination.as_str())
    }

    /// The word for what the plan does to the file.
    pub fn verb(&self) -> (word: &'static str)
        ensures
            word@ == verb_of(self@.mode),
    {
        match self.mode {
            Mode::Copy => "copy",
            Mode::Move => "move",
        }
    }

    /// The line by which a dry run announces this transfer.
    pub fn report_line(&self) -> (line: String)
        ensures
            line@ == report_line_of(self@),
    {
        let mut line = String::from_str("Would ");
        line.append(self.verb());
        line.append(" ");
        line.append(self.source.as_str());
        line.append(" to ");
        line.append(self.destination.as_str());
        line
    }

    /// The line that tells the user that this transfer was given up.
    pub fn failure_line(&self, failure: Failure) -> (line: String)
        ensures
            line@ == failure_line_of(self@, failure),
    {
        match failure {
            Failure::DirectoryCreation => {
                let mut line = String::from_str("Error: cannot create the directory for ");
                line.append(self.destination.as_str());
                line
            },
            Failure::Transfer => {
                let mut line = String::from_str("Error: cannot ");
                line.append(self.verb());
                line.append(" ");
                line.append(self.source.as_str());
                line.append(" to ");
                line.append(self.destination.as_str());
                line
            },
        }
    }
}

/// Where the file at `relative` under the source root goes.
///
/// A run that preserves structure writes it at the same relative path
/// under the destination root. Any other run writes it under the
/// destination root by its bare name, which holds no separator. Either way
/// the file keeps its name.
pub proof fn lemma_destination_keeps_or_drops_structure(
    config: ConfigurationView,
    root: Seq<char>,
    relative: Seq<char>,
)
    ensures
        config.preserve_structure ==> destination_of(config, FileEntryView::found(root, relative))
            == joined(config.destination, relative),
        !config.preserve_structure ==> destination_of(
            config,
            FileEntryView::found(root, relative),
        ) == joined(config.destination, file_name_of(relative)),
        !file_name_of(relative).contains(SEPARATOR),
        file_name_of(destination_of(config, FileEntryView::found(root, relative))) == file_name_of(
            relative,
        ),
{
    lemma_file_name_is_one_name(relative);
    lemma_join_keeps_file_name(config.destination, relative);
    lemma_join_keeps_file_name(config.destination, file_name_of(relative));
}

/// The plans of a batch are as many as its entries at most.
pub proof fn lemma_plans_are_no_more_than_entries(
    config: ConfigurationView,
    entries: Seq<FileEntryView>,
)
    ensures
        plans_of(config, entries).len() <= entries.len(),
    decreases entries.len(),
{
    if entries.len() > 0 {
        lemma_plans_are_no_more_than_entries(config, entries.drop_last());
    }
}

/// Every entry of a batch that passes the filter has its plan among the
/// plans of the batch.
pub proof fn lemma_accepted_entries_are_planned(
    config: ConfigurationView,
    entries: Seq<FileEntryView>,
    i: int,
)
    requires
        0 <= i < entries.len(),
        accepted(config, entries[i]),
    ensures
        plans_of(config, entries).contains(plan_of(config, entries[i])),
    decreases entries.len(),
{
    let plans = plans_of(config, entries);
    if i == entries.len() - 1 {
        assert(plans[plans.len() - 1] == plan_of(config, entries[i]));
    } else {
        let front = entries.drop_last();
        lemma_accepted_entries_are_planned(config, front, i);
        let k = choose|k: int|
            0 <= k < plans_of(config, front).len() && plans_of(config, front)[k] == plan_of(
                config,
                front[i],
            );
        assert(plans[k] == plan_of(config, entries[i]));
    }
}

/// Every plan of a batch is the plan of an entry that passes the filter.
pub proof fn lemma_plans_come_from_accepted_entries(
    config: ConfigurationView,
    entries: Seq<FileEntryView>,
    k: int,
)
    requires
        0 <= k < plans_of(config, entries).len(),
    ensures
        exists|i: int|
            0 <= i < entries.len() && accepted(config, #[trigger] entries[i]) && plans_of(
                config,
                entries,
            )[k] == plan_of(config, entries[i]),
    decreases entries.len(),
{
    let plans = plans_of(config, entries);
    let front = entries.drop_last();
    if accepted(config, entries.last()) && k == plans.len() - 1 {
        assert(plans[k] == plan_of(config, entries[entries.len() - 1]));
    } else {
        lemma_plans_come_from_accepted_entries(config, front, k);
        let i = choose|i: int|
            0 <= i < front.len() && accepted(config, #[trigger] front[i]) && plans_of(
                config,
                front,
            )[k] == plan_of(config, front[i]);
        assert(entries[i] == front[i]);
    }
}

} // verus!
