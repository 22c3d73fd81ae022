//! Walking the source tree.
//!
//! The walk keeps the directories that are still to be listed. The caller
//! takes one, lists it, and hands the listing back; the files of the listing
//! come out as entries, its directories join those still to be listed.
//!
//! Nothing here tells a directory from a link to one: that is the caller's
//! call. Where links lead back up the tree, a directory is handed out again
//! and again, and the walk does not end.

use vstd::prelude::*;
use vstd::string::*;
use crate::config::{ConfigError, ConfigErrorView};
use crate::entry::{lemma_found_is_wf, views, FileEntry, FileEntryView};
use crate::path::{join, joined};
use crate::text::texts;

verus! {

/// One line of a directory listing.
#[derive(Debug, Clone, PartialEq, Eq)]
pub struct DirItem {
    /// The item's name within its directory.
    pub name: String,
    /// Whether the item is a directory.
    pub is_dir: bool,
}

/// What a `DirItem` holds, as text.
pub struct DirItemView {
    pub name: Seq<char>,
    pub is_dir: bool,
}

impl View for DirItem {
    type V = DirItemView;

    open spec fn view(&self) -> DirItemView {
        DirItemView { name: self.name@, is_dir: self.is_dir }
    }
}

/// A walk over the tree under a root.
#[derive(Debug)]
pub struct Traverser {
    root: String,
    pending: Vec<String>,
}

/// The state of a walk: its root, and the directories that are still to be
/// listed, each as a path relative to the root. The last one is next.
pub struct TraverserView {
    pub root: Seq<char>,
    pub pending: Seq<Seq<char>>,
}

impl View for Traverser {
    type V = TraverserView;

    closed spec fn view(&self) -> TraverserView {
        TraverserView { root: self.root@, pending: texts(self.pending@) }
    }
}

/// The entries for the files that `listing` shows in the directory at
/// `directory` under `root`, in the order of the listing.
pub open spec fn files_in(
    root: Seq<char>,
    directory: Seq<char>,
    listing: Seq<DirItemView>,
) -> Seq<FileEntryView>
    decreases listing.len(),
{
    if listing.len() == 0 {
        Seq::empty()
    } else if listing.last().is_dir {
        files_in(root, directory, listing.drop_last())
    } else {
        files_in(root, directory, listing.drop_last()).push(
            FileEntryView::found(root, joined(directory, listing.last().name)),
        )
    }
}

/// The directories that `listing` shows in `directory`, as paths relative to
/// the root, in the order of the listing.
pub open spec fn directories_in(directory: Seq<char>, listing: Seq<DirItemView>) -> Seq<Seq<char>>
    decreases listing.len(),
{
    if listing.len() == 0 {
        Seq::empty()
    } else if listing.last().is_dir {
        directories_in(directory, listing.drop_last()).push(joined(directory, listing.last().name))
    } else {
        directories_in(directory, listing.drop_last())
    }
}

impl Traverser {
    /// Starts a walk at `root`. `root_is_dir` says whether `root` exists and
    /// is a directory; where it is not, there is no walk.
    pub fn new(root: &str, root_is_dir: bool) -> (r: Result<Traverser, ConfigError>)
        ensures
            match r {
                Ok(walk) => root_is_dir && walk@.root == root@ && walk@.pending == seq![
                    Seq::<char>::empty(),
                ],
                Err(e) => !root_is_dir && e@ == ConfigErrorView::NotADirectory(root@),
            },
    {
        if !root_is_dir {
            return Err(ConfigError::NotADirectory(String::from_str(root)));
        }
        let mut pending: Vec<String> = Vec::new();
        pending.push(String::new());
        let walk = Traverser { root: String::from_str(root), pending };
        proof {
            assert(walk@.pending =~= seq![Seq::<char>::empty()]);
        }
        Ok(walk)
    }

    /// Whether every directory has been listed.
    pub fn is_done(&self) -> (r: bool)
        ensures
            r == (self@.pending.len() == 0),
    {
        self.pending.len() == 0
    }

    /// Takes the next directory to list off the walk: its path relative to
    /// the root, which is empty for the root itself.
    pub fn next_directory(&mut self) -> (r: Option<String>)
        ensures
            final(self)@.root == old(self)@.root,
            match r {
                Some(directory) => {
                    &&& old(self)@.pending.len() > 0
                    &&& directory@ == old(self)@.pending.last()
                    &&& final(self)@.pending == old(self)@.pending.drop_last()
                },
                None => old(self)@.pending.len() == 0 && final(self)@.pending.len() == 0,
            },
    {
        let r = self.pending.pop();
        proof {
            if r is Some {
                assert(self@.pending =~= old(self)@.pending.drop_last());
            }
        }
        r
    }

    /// The path at which the directory `directory`, relative to the root, is
    /// to be listed.
    pub fn locate(&self, directory: &str) -> (path: String)
        ensures
            path@ == joined(self@.root, directory@),
    {
        join(self.root.as_str(), directory)
    }

    /// Takes in the listing of `directory`: its files come back as entries,
    /// its directories are kept to be listed in their turn.
    pub fn absorb(&mut self, directory: &str, listing: &Vec<DirItem>) -> (entries: Vec<FileEntry>)
        ensures
            final(self)@.root == old(self)@.root,
            final(self)@.pending == old(self)@.pending + directories_in(
                directory@,
                views(listing@),
            ),
            views(entries@) == files_in(old(self)@.root, directory@, views(listing@)),
    {
        let mut entries: Vec<FileEntry> = Vec::new();
        let mut i: usize = 0;
        while i < listing.len()
            invariant
                i <= listing.len(),
                self@.root == old(self)@.root,
                self@.pending == old(self)@.pending + directories_in(
                    directory@,
                    views(listing@).take(i as int),
                ),
                views(entries@) == files_in(self@.root, directory@, views(listing@).take(i as int)),
            decreases listing.len() - i,
        {
            let relative = join(directory, listing[i].name.as_str());
            proof {
                let next = views(listing@).take(i + 1);
                assert(next.drop_last() =~= views(listing@).take(i as int));
                assert(next.last() == listing@[i as int]@);
            }
            if listing[i].is_dir {
                let ghost before = self@.pending;
                self.pending.push(relative);
                proof {
                    assert(self@.pending =~= before.push(relative@));
                    assert(self@.pending =~= old(self)@.pending + directories_in(
                        directory@,
                        views(listing@).take(i + 1),
                    ));
                }
            } else {
                let entry = FileEntry::new(self.root.as_str(), relative.as_str());
                proof {
                    assert(views(entries@.push(entry)) =~= views(entries@).push(entry@));
                }
                entries.push(entry);
            }
            i = i + 1;
        }
        proof {
            assert(views(listing@).take(listing.len() as int) =~= views(listing@));
        }
        entries
    }
}

/// Whether `entry` stands for an item of `listing` that is no directory.
pub open spec fn is_file_of(
    root: Seq<char>,
    directory: Seq<char>,
    listing: Seq<DirItemView>,
    entry: FileEntryView,
) -> bool {
    exists|j: int|
        0 <= j < listing.len() && !(#[trigger] listing[j]).is_dir && entry == FileEntryView::found(
            root,
            joined(directory, listing[j].name),
        )
}

/// A listing is shared out whole: each of its items is either handed out as
/// a file or kept as a directory. Every entry handed out is well formed and
/// stands for an item of the listing that is no directory.
pub proof fn lemma_listing_is_shared_out(
    root: Seq<char>,
    directory: Seq<char>,
    listing: Seq<DirItemView>,
)
    ensures
        files_in(root, directory, listing).len() + directories_in(directory, listing).len()
            == listing.len(),
        forall|k: int|
            #![trigger files_in(root, directory, listing)[k]]
            0 <= k < files_in(root, directory, listing).len() ==> {
                &&& files_in(root, directory, listing)[k].wf()
                &&& is_file_of(root, directory, listing, files_in(root, directory, listing)[k])
            },
    decreases listing.len(),
{
    if listing.len() > 0 {
        let front = listing.drop_last();
        let files = files_in(root, directory, listing);
        lemma_listing_is_shared_out(root, directory, front);
        if !listing.last().is_dir {
            lemma_found_is_wf(root, joined(directory, listing.last().name));
        }
        assert forall|k: int| 0 <= k < files.len() implies is_file_of(
            root,
            directory,
            listing,
            #[trigger] files[k],
        ) by {
            if k < files_in(root, directory, front).len() {
                let earlier = files_in(root, directory, front)[k];
                assert(is_file_of(root, directory, front, earlier));
                let j = choose|j: int|
                    0 <= j < front.len() && !(#[trigger] front[j]).is_dir && earlier
                        == FileEntryView::found(root, joined(directory, front[j].name));
                assert(!listing[j].is_dir);
            } else {
                assert(!listing[listing.len() - 1].is_dir);
            }
        }
    }
}

/// What a walk has come to: the directories still to be listed, and the
/// entries handed out so far.
pub struct Progress {
    pub pending: Seq<Seq<char>>,
    pub found: Seq<FileEntryView>,
}

/// Where a walk from `root` stands after `rounds` rounds, when `tree` gives
/// the listing of each directory. A round takes the next directory and
/// takes in its listing; a round on a finished walk changes nothing.
pub open spec fn walked(
    tree: spec_fn(Seq<char>) -> Seq<DirItemView>,
    root: Seq<char>,
    rounds: nat,
) -> Progress
    decreases rounds,
{
    if rounds == 0 {
        Progress { pending: seq![Seq::<char>::empty()], found: Seq::empty() }
    } else {
        let before = walked(tree, root, (rounds - 1) as nat);
        if before.pending.len() == 0 {
            before
        } else {
            let directory = before.pending.last();
            Progress {
                pending: before.pending.drop_last() + directories_in(directory, tree(directory)),
                found: before.found + files_in(root, directory, tree(directory)),
            }
        }
    }
}

/// Whether `directory` lies `depth` levels below `ancestor` in `tree`; both
/// are paths relative to the root.
pub open spec fn descends(
    tree: spec_fn(Seq<char>) -> Seq<DirItemView>,
    ancestor: Seq<char>,
    directory: Seq<char>,
    depth: nat,
) -> bool
    decreases depth,
{
    if depth == 0 {
        directory == ancestor
    } else {
        exists|j: int|
            0 <= j < tree(ancestor).len() && (#[trigger] tree(ancestor)[j]).is_dir && descends(
                tree,
                joined(ancestor, tree(ancestor)[j].name),
                directory,
                (depth - 1) as nat,
            )
    }
}

/// Whether all files that `tree` lists in `directory` have been handed out.
pub open spec fn covered(
    tree: spec_fn(Seq<char>) -> Seq<DirItemView>,
    root: Seq<char>,
    found: Seq<FileEntryView>,
    directory: Seq<char>,
) -> bool {
    forall|j: int|
        0 <= j < tree(directory).len() && !(#[trigger] tree(directory)[j]).is_dir
            ==> found.contains(FileEntryView::found(root, joined(directory, tree(directory)[j].name)))
}

/// Whether `directory` is one of `pending` or lies below one of them.
pub open spec fn awaited(
    tree: spec_fn(Seq<char>) -> Seq<DirItemView>,
    pending: Seq<Seq<char>>,
    directory: Seq<char>,
) -> bool {
    exists|i: int, depth: nat|
        0 <= i < pending.len() && #[trigger] descends(tree, pending[i], directory, depth)
}

/// Each file of a listing is among the entries made of it.
pub proof fn lemma_files_in_holds(
    root: Seq<char>,
    directory: Seq<char>,
    listing: Seq<DirItemView>,
    j: int,
)
    requires
        0 <= j < listing.len(),
        !listing[j].is_dir,
    ensures
        files_in(root, directory, listing).contains(
            FileEntryView::found(root, joined(directory, listing[j].name)),
        ),
    decreases listing.len(),
{
    let files = files_in(root, directory, listing);
    if j == listing.len() - 1 {
        assert(files[files.len() - 1] == FileEntryView::found(
            root,
            joined(directory, listing[j].name),
        ));
    } else {
        let front = listing.drop_last();
        lemma_files_in_holds(root, directory, front, j);
        let wanted = FileEntryView::found(root, joined(directory, front[j].name));
        let k = choose|k: int|
            0 <= k < files_in(root, directory, front).len() && files_in(root, directory, front)[k]
                == wanted;
        assert(files[k] == wanted);
    }
}

/// Each directory of a listing is among the directories kept of it.
pub proof fn lemma_directories_in_holds(directory: Seq<char>, listing: Seq<DirItemView>, j: int)
    requires
        0 <= j < listing.len(),
        listing[j].is_dir,
    ensures
        directories_in(directory, listing).contains(joined(directory, listing[j].name)),
    decreases listing.len(),
{
    let kept = directories_in(directory, listing);
    if j == listing.len() - 1 {
        assert(kept[kept.len() - 1] == joined(directory, listing[j].name));
    } else {
        let front = listing.drop_last();
        lemma_directories_in_holds(directory, front, j);
        let wanted = joined(directory, front[j].name);
        let k = choose|k: int|
            0 <= k < directories_in(directory, front).len() && directories_in(directory, front)[k]
                == wanted;
        assert(kept[k] == wanted);
    }
}

/// At every round of a walk, each directory of the tree has either had its
/// files handed out or is still awaited.
pub proof fn lemma_walk_loses_nothing(
    tree: spec_fn(Seq<char>) -> Seq<DirItemView>,
    root: Seq<char>,
    rounds: nat,
    directory: Seq<char>,
    depth: nat,
)
    requires
        descends(tree, Seq::empty(), directory, depth),
    ensures
        covered(tree, root, walked(tree, root, rounds).found, directory) || awaited(
            tree,
            walked(tree, root, rounds).pending,
            directory,
        ),
    decreases rounds,
{
    let now = walked(tree, root, rounds);
    if rounds == 0 {
        assert(descends(tree, now.pending[0], directory, depth));
    } else {
        let before = walked(tree, root, (rounds - 1) as nat);
        lemma_walk_loses_nothing(tree, root, (rounds - 1) as nat, directory, depth);
        if before.pending.len() > 0 {
            let taken = before.pending.last();
            let kept = directories_in(taken, tree(taken));
            let files = files_in(root, taken, tree(taken));
            if covered(tree, root, before.found, directory) {
                assert forall|j: int|
                    0 <= j < tree(directory).len() && !(#[trigger] tree(directory)[j]).is_dir
                    implies now.found.contains(
                    FileEntryView::found(root, joined(directory, tree(directory)[j].name)),
                ) by {
                    let wanted = FileEntryView::found(
                        root,
                        joined(directory, tree(directory)[j].name),
                    );
                    let k = choose|k: int| 0 <= k < before.found.len() && before.found[k] == wanted;
                    assert(now.found[k] == wanted);
                }
            } else {
                let (i, below) = choose|i: int, below: nat|
                    0 <= i < before.pending.len() && #[trigger] descends(
                        tree,
                        before.pending[i],
                        directory,
                        below,
                    );
                if i < before.pending.len() - 1 {
                    assert(now.pending[i] == before.pending[i]);
                    assert(descends(tree, now.pending[i], directory, below));
                } else if below == 0 {
                    assert forall|j: int|
                        0 <= j < tree(directory).len() && !(#[trigger] tree(directory)[j]).is_dir
                        implies now.found.contains(
                        FileEntryView::found(root, joined(directory, tree(directory)[j].name)),
                    ) by {
                        let wanted = FileEntryView::found(
                            root,
                            joined(directory, tree(directory)[j].name),
                        );
                        lemma_files_in_holds(root, taken, tree(taken), j);
                        let k = choose|k: int| 0 <= k < files.len() && files[k] == wanted;
                        assert(now.found[before.found.len() + k] == wanted);
                    }
                } else {
                    let j = choose|j: int|
                        0 <= j < tree(taken).len() && (#[trigger] tree(taken)[j]).is_dir && descends(
                            tree,
                            joined(taken, tree(taken)[j].name),
                            directory,
                            (below - 1) as nat,
                        );
                    let child = joined(taken, tree(taken)[j].name);
                    lemma_directories_in_holds(taken, tree(taken), j);
                    let k = choose|k: int| 0 <= k < kept.len() && kept[k] == child;
                    let at = before.pending.len() - 1 + k;
                    assert(now.pending[at] == child);
                    assert(descends(tree, now.pending[at], directory, (below - 1) as nat));
                }
            }
        }
    }
}

/// A walk that has come to its end has handed out every file of the tree:
/// each file that a directory at any depth below the root lists is among
/// the entries found.
pub proof fn lemma_finished_walk_found_every_file(
    tree: spec_fn(Seq<char>) -> Seq<DirItemView>,
    root: Seq<char>,
    rounds: nat,
    directory: Seq<char>,
    depth: nat,
    j: int,
)
    requires
        walked(tree, root, rounds).pending.len() == 0,
        descends(tree, Seq::empty(), directory, depth),
        0 <= j < tree(directory).len(),
        !tree(directory)[j].is_dir,
    ensures
        walked(tree, root, rounds).found.contains(
            FileEntryView::found(root, joined(directory, tree(directory)[j].name)),
        ),
{
    lemma_walk_loses_nothing(tree, root, rounds, directory, depth);
}

} // verus!
