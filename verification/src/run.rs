//! The run as a whole: from the tree on disk to the transfers.

use vstd::prelude::*;
use crate::config::ConfigurationView;
use crate::entry::FileEntryView;
use crate::filter::accepted;
use crate::path::joined;
use crate::transfer::{destination_of, lemma_accepted_entries_are_planned, plan_of, plans_of};
use crate::traverse::{descends, lemma_finished_walk_found_every_file, walked, DirItemView};

verus! {

/// Every file of the source tree that passes the filter is planned for.
///
/// Let `tree` give the listing of each directory under the source root, and
/// let the walk over it have come to its end. Then for each file that a
/// directory of the tree lists, if the file passes the filter, the plans
/// drawn up for what the walk found hold the file's plan: from its path
/// under the source root to its computed destination, in the mode of the
/// run.
pub proof fn lemma_every_matching_file_is_planned(
    config: ConfigurationView,
    tree: spec_fn(Seq<char>) -> Seq<DirItemView>,
    rounds: nat,
    directory: Seq<char>,
    depth: nat,
    j: int,
)
    requires
        walked(tree, config.source, rounds).pending.len() == 0,
        descends(tree, Seq::empty(), directory, depth),
        0 <= j < tree(directory).len(),
        !tree(directory)[j].is_dir,
        accepted(
            config,
            FileEntryView::found(config.source, joined(directory, tree(directory)[j].name)),
        ),
    ensures
        ({
            let entry = FileEntryView::found(
                config.source,
                joined(directory, tree(directory)[j].name),
            );
            let plans = plans_of(config, walked(tree, config.source, rounds).found);
            &&& plans.contains(plan_of(config, entry))
            &&& plan_of(config, entry).source == joined(
                config.source,
                joined(directory, tree(directory)[j].name),
            )
            &&& plan_of(config, entry).destination == destination_of(config, entry)
            &&& plan_of(config, entry).mode == config.mode
        }),
{
    let entry = FileEntryView::found(config.source, joined(directory, tree(directory)[j].name));
    let found = walked(tree, config.source, rounds).found;
    lemma_finished_walk_found_every_file(tree, config.source, rounds, directory, depth, j);
    let i = choose|i: int| 0 <= i < found.len() && found[i] == entry;
    lemma_accepted_entries_are_planned(config, found, i);
}

} // verus!
