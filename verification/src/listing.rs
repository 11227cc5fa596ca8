//! Walking a directory tree to gather the relative paths of its entries,
//! which the comparisons of two trees take.
//!
//! The walk reads the file system between decisions, so it is a machine:
//! the caller lists the directory that a step names and hands the listing
//! to the next step.

use vstd::prelude::*;
use crate::entries::{clone_entry, entries_view, Entry, EntryView};
use crate::path::{is_ordinary, is_ordinary_name};
use crate::platform::Platform;
use crate::sandbox::SandboxError;
use crate::tree_check::lemma_pop_items;
use crate::verification::{excluded_names, lemma_only_runner_files_excluded, DirEntries};

verus! {

/// What the caller of a tree listing does next.
pub enum ListingAction {
    /// List this directory, given relative to the tree's root, as the name
    /// of each entry and whether it is a directory; report with `on_listing`.
    List(Entry),
    /// The walk is over.
    Done(Result<(), SandboxError>),
}

pub enum ListingPhase {
    List,
    Finished,
}

/// A walk of a tree that records every entry whose name is not excluded, as
/// its path relative to the root, and lists every directory it records. A
/// walk that ends accepted has listed every directory it met. A listing
/// with a name that is not an ordinary name ends the walk refused.
pub struct TreeListing {
    pub platform: Platform,
    pub found: DirEntries,
    /// Directories still to list.
    pub pending: Vec<Entry>,
    /// The directory the pending action is about.
    pub current: Entry,
    pub phase: ListingPhase,
    /// The directories met so far: the root (the empty path) and those recorded.
    pub dirs: Ghost<Set<EntryView>>,
    /// The directories listed so far.
    pub listed: Ghost<Set<EntryView>>,
}

/// The entries recorded from the first `upto` of `items`, listed in `dir`:
/// each whose name is not excluded, as `dir` joined with its name.
pub open spec fn recorded(dir: EntryView, items: Seq<(Seq<char>, bool)>, upto: int) -> Set<EntryView> {
    Set::new(|e: EntryView| exists|i: int| 0 <= i < upto && !excluded_names().contains(#[trigger] items[i].0) && e == dir.push(items[i].0))
}

/// Those of them that are directories.
pub open spec fn recorded_dirs(dir: EntryView, items: Seq<(Seq<char>, bool)>, upto: int) -> Set<EntryView> {
    Set::new(|e: EntryView| exists|i: int| 0 <= i < upto && !excluded_names().contains(#[trigger] items[i].0) && items[i].1 && e == dir.push(items[i].0))
}

/// Every item's name is an ordinary name.
pub open spec fn names_ordinary(items: Seq<(Seq<char>, bool)>, platform: Platform) -> bool {
    forall|i: int| 0 <= i < items.len() ==> #[trigger] is_ordinary_name(items[i].0, platform)
}

/// Whether every item's name is an ordinary name.
pub fn item_names_ordinary(items: &Vec<(String, bool)>, platform: Platform) -> (r: bool)
    ensures
        r == names_ordinary(items.deep_view(), platform),
{
    let n = items.len();
    let mut k: usize = 0;
    while k < n
        invariant
            n == items.len(),
            k <= n,
            forall|i: int| 0 <= i < k ==> #[trigger] is_ordinary_name(items.deep_view()[i].0, platform),
        decreases n - k,
    {
        assert(items.deep_view()[k as int].0 == items@[k as int].0@);
        if !is_ordinary(items[k].0.as_str(), platform) {
            return false;
        }
        k = k + 1;
    }
    true
}

/// Pushing an item adds it to a sequence's items.
pub proof fn lemma_push_items<T>(s: Seq<T>, x: T)
    ensures
        s.push(x).to_set() == s.to_set().insert(x),
{
    assert forall|y: T| s.push(x).contains(y) implies #[trigger] s.contains(y) || y == x by {
        let i = choose|i: int| 0 <= i < s.push(x).len() && s.push(x)[i] == y;
        if i < s.len() {
            assert(s[i] == y);
        }
    }
    assert forall|y: T| s.contains(y) implies #[trigger] s.push(x).contains(y) by {
        let i = choose|i: int| 0 <= i < s.len() && s[i] == y;
        assert(s.push(x)[i] == y);
    }
    assert(s.push(x)[s.len() as int] == x);
    assert(s.push(x).to_set() =~= s.to_set().insert(x));
}

impl TreeListing {
    /// Every directory met is listed, still to list, or the one being listed.
    pub open spec fn wf(&self) -> bool {
        !(self.phase is Finished) ==> self.dirs@ == self.listed@.union(self.pending.deep_view().to_set()).insert(self.current.deep_view())
    }

    /// The set of entries recorded so far.
    pub open spec fn entry_set(&self) -> Set<EntryView> {
        entries_view(self.found.entries@).to_set()
    }

    /// Begins walking a tree; the first action lists its root.
    pub fn start(platform: Platform) -> (r: (TreeListing, ListingAction))
        ensures
            r.0.wf(),
            r.0.platform == platform,
            r.0.phase is List,
            r.0.found.entries@.len() == 0,
            r.0.current@.len() == 0,
            r.0.dirs@ == Set::<EntryView>::empty().insert(Seq::empty()),
            r.0.listed@ == Set::<EntryView>::empty(),
            r.1 matches ListingAction::List(p) && p@.len() == 0,
    {
        let walk = TreeListing {
            platform,
            found: DirEntries::new(),
            pending: Vec::new(),
            current: Vec::new(),
            phase: ListingPhase::List,
            dirs: Ghost(Set::empty().insert(Seq::empty())),
            listed: Ghost(Set::empty()),
        };
        proof {
            assert(walk.current.deep_view() =~= Seq::<Seq<char>>::empty());
            assert(walk.pending.deep_view().to_set() =~= Set::<EntryView>::empty());
            assert(walk.dirs@ =~= walk.listed@.union(walk.pending.deep_view().to_set()).insert(walk.current.deep_view()));
        }
        (walk, ListingAction::List(Vec::new()))
    }

    /// Takes the listing of the current directory: each entry whose name is
    /// not excluded is recorded, and each such directory is listed later; a
    /// failed listing ends the walk with its error.
    pub fn on_listing(&mut self, outcome: Result<Vec<(String, bool)>, std::io::Error>) -> (a: ListingAction)
        requires
            old(self).wf(),
            old(self).phase is List,
        ensures
            final(self).wf(),
            a matches ListingAction::Done(Ok(())) ==> final(self).dirs@ == final(self).listed@,
            match outcome {
                Err(e) => final(self).phase is Finished && (a matches ListingAction::Done(Err(SandboxError::Io(x))) && x == e),
                Ok(items) => if !names_ordinary(items.deep_view(), old(self).platform) {
                    final(self).phase is Finished && (a matches ListingAction::Done(Err(SandboxError::AbnormalComponent)))
                } else {
                    let cur = old(self).current.deep_view();
                    let n = items.len() as int;
                    &&& final(self).entry_set() == old(self).entry_set().union(recorded(cur, items.deep_view(), n))
                    &&& final(self).dirs@ == old(self).dirs@.union(recorded_dirs(cur, items.deep_view(), n))
                    &&& final(self).listed@ == old(self).listed@.insert(cur)
                    &&& a is List ==> {
                        &&& final(self).phase is List
                        &&& a matches ListingAction::List(p) && p.deep_view() == final(self).current.deep_view()
                        &&& final(self).dirs@.contains(final(self).current.deep_view())
                    }
                    &&& a is Done ==> (final(self).phase is Finished && (a matches ListingAction::Done(Ok(()))))
                },
            },
    {
        let items = match outcome {
            Ok(i) => i,
            Err(e) => {
                self.phase = ListingPhase::Finished;
                return ListingAction::Done(Err(SandboxError::Io(e)));
            },
        };
        if !item_names_ordinary(&items, self.platform) {
            self.phase = ListingPhase::Finished;
            return ListingAction::Done(Err(SandboxError::AbnormalComponent));
        }
        let ghost cur = self.current.deep_view();
        let ghost iv = items.deep_view();
        let ghost entries0 = self.entry_set();
        let ghost pending0 = self.pending.deep_view().to_set();
        let ghost dirs0 = self.dirs@;
        let ghost listed0 = self.listed@;
        let n = items.len();
        let mut j: usize = 0;
        proof {
            assert(recorded(cur, iv, 0) =~= Set::<EntryView>::empty());
            assert(recorded_dirs(cur, iv, 0) =~= Set::<EntryView>::empty());
            assert(entries0 =~= entries0.union(recorded(cur, iv, 0)));
            assert(pending0 =~= pending0.union(recorded_dirs(cur, iv, 0)));
        }
        while j < n
            invariant
                n == items.len(),
                iv == items.deep_view(),
                cur == self.current.deep_view(),
                j <= n,
                self.entry_set() == entries0.union(recorded(cur, iv, j as int)),
                self.pending.deep_view().to_set() == pending0.union(recorded_dirs(cur, iv, j as int)),
                self.dirs@ == dirs0,
                self.listed@ == listed0,
                self.platform == old(self).platform,
                self.phase is List,
            decreases n - j,
        {
            let name = items[j].0.clone();
            let is_dir = items[j].1;
            let ghost name_v = name@;
            let ghost before = entries_view(self.found.entries@);
            let ghost pend = self.pending.deep_view();
            proof {
                assert(iv[j as int].0 == name_v);
                assert(iv[j as int].1 == is_dir);
            }
            let descend = self.found.collect_dir_entry(&self.current, name, is_dir);
            proof {
                if excluded_names().contains(name_v) {
                    assert(recorded(cur, iv, j + 1) =~= recorded(cur, iv, j as int));
                    assert(recorded_dirs(cur, iv, j + 1) =~= recorded_dirs(cur, iv, j as int));
                } else {
                    lemma_push_items(before, cur.push(name_v));
                    assert(recorded(cur, iv, j + 1) =~= recorded(cur, iv, j as int).insert(cur.push(name_v)));
                    if is_dir {
                        assert(recorded_dirs(cur, iv, j + 1) =~= recorded_dirs(cur, iv, j as int).insert(cur.push(name_v)));
                    } else {
                        assert(recorded_dirs(cur, iv, j + 1) =~= recorded_dirs(cur, iv, j as int));
                    }
                }
                assert(self.entry_set() =~= entries0.union(recorded(cur, iv, j + 1)));
            }
            if let Some(d) = descend {
                self.pending.push(d);
                proof {
                    assert(self.pending.deep_view() =~= pend.push(cur.push(name_v)));
                    lemma_push_items(pend, cur.push(name_v));
                }
            }
            proof {
                assert(self.pending.deep_view().to_set() =~= pending0.union(recorded_dirs(cur, iv, j + 1)));
            }
            j = j + 1;
        }
        proof {
            assert(dirs0 == listed0.union(pending0).insert(cur));
        }
        self.listed = Ghost(self.listed@.insert(cur));
        self.dirs = Ghost(self.dirs@.union(recorded_dirs(cur, iv, n as int)));
        let ghost all = self.pending.deep_view();
        proof {
            assert(self.dirs@ =~= self.listed@.union(all.to_set()));
        }
        match self.pending.pop() {
            None => {
                self.phase = ListingPhase::Finished;
                proof {
                    assert(all.to_set() =~= Set::<EntryView>::empty());
                    assert(self.dirs@ =~= self.listed@);
                }
                ListingAction::Done(Ok(()))
            },
            Some(next) => {
                proof {
                    assert(self.pending.deep_view() =~= all.drop_last());
                    lemma_pop_items(all);
                    assert(next.deep_view() == all.last());
                }
                self.current = clone_entry(&next);
                proof {
                    assert(self.dirs@ =~= self.listed@.union(self.pending.deep_view().to_set()).insert(self.current.deep_view()));
                }
                ListingAction::List(next)
            },
        }
    }
}

/// Every listed entry whose name is not one of the runner's four files
/// (`server.exe`, `client.exe`, `server.log`, `client.log`) is recorded, as
/// its directory joined with its name; and nothing else is recorded. So an
/// entry of the client tree that the server tree lacks always reaches the
/// containment check.
pub proof fn lemma_listing_records_all_but_runner_files(dir: EntryView, items: Seq<(Seq<char>, bool)>, e: EntryView)
    ensures
        recorded(dir, items, items.len() as int).contains(e) <==> exists|i: int| 0 <= i < items.len()
            && !(items[i].0 == "server.exe"@ || items[i].0 == "client.exe"@ || items[i].0 == "server.log"@
                || items[i].0 == "client.log"@)
            && e == dir.push(#[trigger] items[i].0),
{
    if recorded(dir, items, items.len() as int).contains(e) {
        let i = choose|i: int| 0 <= i < items.len() && !excluded_names().contains(#[trigger] items[i].0) && e == dir.push(items[i].0);
        lemma_only_runner_files_excluded(items[i].0);
    }
    if exists|i: int| 0 <= i < items.len()
            && !(items[i].0 == "server.exe"@ || items[i].0 == "client.exe"@ || items[i].0 == "server.log"@
                || items[i].0 == "client.log"@)
            && e == dir.push(#[trigger] items[i].0) {
        let i = choose|i: int| 0 <= i < items.len()
            && !(items[i].0 == "server.exe"@ || items[i].0 == "client.exe"@ || items[i].0 == "server.log"@
                || items[i].0 == "client.log"@)
            && e == dir.push(#[trigger] items[i].0);
        lemma_only_runner_files_excluded(items[i].0);
        assert(!excluded_names().contains(items[i].0));
    }
}

} // verus!
