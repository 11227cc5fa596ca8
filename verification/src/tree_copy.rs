//! Copying the contents of a directory tree into another directory without
//! following links, as when a run's directories are filled from the
//! sandbox's inputs.
//!
//! The copy reads and writes the file system between decisions, so it is a
//! machine: the caller performs the action that a step names and hands the
//! outcome to the next step.

use vstd::prelude::*;
use crate::path::{clone_path, is_ordinary, is_ordinary_component, is_ordinary_name, ordinary_from, ComponentView, PathComponent};
use crate::platform::Platform;
use crate::sandbox::{copy_entry_kind, is_link, CopyKind, EntryMeta, SandboxError};
use crate::tree_check::{lemma_pop_items, lemma_stacked_items, stacked};

verus! {

/// What the caller of a tree copy does next.
pub enum CopyAction {
    /// Check the whole tree at this path for links; report with `on_step`.
    CheckTree(Vec<PathComponent>),
    /// Create this directory with its missing parents; report with `on_step`.
    CreateDir(Vec<PathComponent>),
    /// List the names of this directory's entries; report with `on_listing`.
    List(Vec<PathComponent>),
    /// Look at this path without following links; report with `on_metadata`.
    Inspect(Vec<PathComponent>),
    /// Copy the file at the first path to the second; report with `on_step`.
    CopyFile(Vec<PathComponent>, Vec<PathComponent>),
    /// The copy is over.
    Done(Result<(), SandboxError>),
}

pub enum CopyPhase {
    CheckTree,
    CreateDir,
    List,
    Inspect,
    CopyFile,
    Finished,
}

/// A source path and the destination path it is copied to.
pub type CopyPair = (Seq<ComponentView>, Seq<ComponentView>);

/// A depth-first copy of the tree at `source` into `destination`: a
/// directory has its tree checked for links, its counterpart created, and
/// its entries listed and copied in turn, first entry first; a file is
/// copied; a link or anything else ends the copy refused. A copy that ends
/// accepted has copied every path of the tree that it was handed to the
/// place that mirrors it below the destination.
pub struct TreeCopy {
    pub source: Vec<PathComponent>,
    pub destination: Vec<PathComponent>,
    pub platform: Platform,
    /// Entries still to copy, as source and destination; the last comes next.
    pub pending: Vec<(Vec<PathComponent>, Vec<PathComponent>)>,
    /// The entry the pending action is about.
    pub from: Vec<PathComponent>,
    pub to: Vec<PathComponent>,
    pub phase: CopyPhase,
    /// Every entry handed to the copy so far: the root and the entries listed.
    pub offered: Ghost<Set<CopyPair>>,
    /// The entries copied: files copied, directories created and listed.
    pub copied: Ghost<Set<CopyPair>>,
}

/// `pair` is a path below `source`, made of ordinary names, and the same
/// path below `destination`.
pub open spec fn mirrors(source: Seq<ComponentView>, destination: Seq<ComponentView>, pair: CopyPair, platform: Platform) -> bool {
    &&& source.len() <= pair.0.len()
    &&& pair.0.take(source.len() as int) == source
    &&& ordinary_from(source.len() as int, pair.0, platform)
    &&& pair.1 == destination + pair.0.skip(source.len() as int)
}

/// Every one of `names` is an ordinary name.
pub open spec fn all_ordinary(names: Seq<Seq<char>>, platform: Platform) -> bool {
    forall|i: int| 0 <= i < names.len() ==> #[trigger] is_ordinary_name(names[i], platform)
}

/// The entries named `names` of the directory `from`, copied into `to`.
pub open spec fn entries_of(from: Seq<ComponentView>, to: Seq<ComponentView>, names: Seq<Seq<char>>) -> Seq<CopyPair> {
    Seq::new(names.len(), |i: int| (from.push(ComponentView::Normal(names[i])), to.push(ComponentView::Normal(names[i]))))
}

/// Whether every one of `names` is an ordinary name.
pub fn all_names_ordinary(names: &Vec<String>, platform: Platform) -> (r: bool)
    ensures
        r == all_ordinary(names.deep_view(), platform),
{
    let n = names.len();
    let mut k: usize = 0;
    while k < n
        invariant
            n == names.len(),
            k <= n,
            forall|i: int| 0 <= i < k ==> #[trigger] is_ordinary_name(names.deep_view()[i], platform),
        decreases n - k,
    {
        assert(names.deep_view()[k as int] == names@[k as int]@);
        if !is_ordinary(names[k].as_str(), platform) {
            return false;
        }
        k = k + 1;
    }
    true
}

impl TreeCopy {
    pub open spec fn current(&self) -> CopyPair {
        (self.from.deep_view(), self.to.deep_view())
    }

    /// Every entry handed over is copied, still to copy, or the current one
    /// (copied already once it is being listed), and mirrors its source.
    pub open spec fn wf(&self) -> bool {
        &&& forall|p: CopyPair| #[trigger] self.offered@.contains(p) ==> mirrors(self.source.deep_view(), self.destination.deep_view(), p, self.platform)
        &&& !(self.phase is Finished) ==> {
            &&& self.offered@ == self.copied@.union(self.pending.deep_view().to_set()).insert(self.current())
            &&& self.phase is List ==> self.copied@.contains(self.current())
        }
    }

    /// What stays fixed along a copy.
    pub open spec fn same_copy(&self, other: &TreeCopy) -> bool {
        &&& other.source.deep_view() == self.source.deep_view()
        &&& other.destination.deep_view() == self.destination.deep_view()
        &&& other.platform == self.platform
    }

    /// Begins copying the contents of `source` into `destination`; the
    /// first action checks the source tree for links.
    pub fn start(source: Vec<PathComponent>, destination: Vec<PathComponent>, platform: Platform) -> (r: (TreeCopy, CopyAction))
        ensures
            r.0.wf(),
            r.0.platform == platform,
            r.0.phase is CheckTree,
            r.0.source.deep_view() == source.deep_view(),
            r.0.destination.deep_view() == destination.deep_view(),
            r.0.pending.len() == 0,
            r.0.current() == (source.deep_view(), destination.deep_view()),
            r.0.offered@ == Set::<CopyPair>::empty().insert((source.deep_view(), destination.deep_view())),
            r.0.copied@ == Set::<CopyPair>::empty(),
            r.1 matches CopyAction::CheckTree(p) && p.deep_view() == source.deep_view(),
    {
        let check = clone_path(&source);
        let from = clone_path(&source);
        let to = clone_path(&destination);
        let ghost root: CopyPair = (source.deep_view(), destination.deep_view());
        let copy = TreeCopy {
            source,
            destination,
            platform,
            pending: Vec::new(),
            from,
            to,
            phase: CopyPhase::CheckTree,
            offered: Ghost(Set::empty().insert(root)),
            copied: Ghost(Set::empty()),
        };
        proof {
            let sv = copy.source.deep_view();
            assert(sv.take(sv.len() as int) =~= sv);
            assert(copy.destination.deep_view() + sv.skip(sv.len() as int) =~= copy.destination.deep_view());
            assert(copy.pending.deep_view().to_set() =~= Set::<CopyPair>::empty());
            assert(copy.offered@ =~= copy.copied@.union(copy.pending.deep_view().to_set()).insert(copy.current()));
        }
        (copy, CopyAction::CheckTree(check))
    }

    /// Takes the next pending entry, or ends the copy accepted when none is
    /// left.
    fn take_next(&mut self) -> (a: CopyAction)
        requires
            old(self).offered@ == old(self).copied@.union(old(self).pending.deep_view().to_set()),
            forall|p: CopyPair| #[trigger] old(self).offered@.contains(p) ==> mirrors(old(self).source.deep_view(), old(self).destination.deep_view(), p, old(self).platform),
        ensures
            final(self).wf(),
            old(self).same_copy(&*final(self)),
            final(self).offered@ == old(self).offered@,
            final(self).copied@ == old(self).copied@,
            a matches CopyAction::Done(Ok(())) ==> final(self).offered@ == final(self).copied@,
            old(self).pending.len() == 0 ==> final(self).phase is Finished && a matches CopyAction::Done(Ok(())),
            old(self).pending.len() > 0 ==> {
                &&& final(self).phase is Inspect
                &&& final(self).current() == old(self).pending.deep_view().last()
                &&& final(self).pending.deep_view() == old(self).pending.deep_view().drop_last()
                &&& a matches CopyAction::Inspect(p) && p.deep_view() == final(self).from.deep_view()
            },
    {
        let ghost before = self.pending.deep_view();
        match self.pending.pop() {
            None => {
                self.phase = CopyPhase::Finished;
                proof {
                    assert(before.to_set() =~= Set::<CopyPair>::empty());
                    assert(self.offered@ =~= self.copied@);
                }
                CopyAction::Done(Ok(()))
            },
            Some(entry) => {
                proof {
                    assert(self.pending.deep_view() =~= before.drop_last());
                    lemma_pop_items(before);
                }
                let (from, to) = entry;
                let look = clone_path(&from);
                self.from = from;
                self.to = to;
                self.phase = CopyPhase::Inspect;
                proof {
                    assert(self.current() == before.last());
                    assert(self.offered@ =~= self.copied@.union(self.pending.deep_view().to_set()).insert(self.current()));
                }
                CopyAction::Inspect(look)
            },
        }
    }

    /// Takes the outcome of checking a tree, creating a directory or copying
    /// a file: a failure ends the copy with it; a checked tree has its
    /// counterpart created next, a created directory is listed next, and
    /// after a copied file the next entry is taken.
    pub fn on_step(&mut self, outcome: Result<(), std::io::Error>) -> (a: CopyAction)
        requires
            old(self).wf(),
            old(self).phase is CheckTree || old(self).phase is CreateDir || old(self).phase is CopyFile,
        ensures
            final(self).wf(),
            old(self).same_copy(&*final(self)),
            final(self).offered@ == old(self).offered@,
            a matches CopyAction::Done(Ok(())) ==> final(self).offered@ == final(self).copied@,
            match outcome {
                Err(e) => final(self).phase is Finished && (a matches CopyAction::Done(Err(SandboxError::Io(x))) && x == e),
                Ok(()) => match old(self).phase {
                    CopyPhase::CheckTree => {
                        &&& final(self).phase is CreateDir
                        &&& final(self).current() == old(self).current()
                        &&& final(self).copied@ == old(self).copied@
                        &&& final(self).pending.deep_view() == old(self).pending.deep_view()
                        &&& a matches CopyAction::CreateDir(p) && p.deep_view() == old(self).to.deep_view()
                    },
                    CopyPhase::CreateDir => {
                        &&& final(self).phase is List
                        &&& final(self).current() == old(self).current()
                        &&& final(self).copied@ == old(self).copied@.insert(old(self).current())
                        &&& final(self).pending.deep_view() == old(self).pending.deep_view()
                        &&& a matches CopyAction::List(p) && p.deep_view() == old(self).from.deep_view()
                    },
                    _ => {
                        &&& final(self).copied@ == old(self).copied@.insert(old(self).current())
                        &&& old(self).pending.len() == 0 ==> (final(self).phase is Finished && (a matches CopyAction::Done(Ok(()))))
                        &&& old(self).pending.len() > 0 ==> {
                            &&& final(self).phase is Inspect
                            &&& final(self).current() == old(self).pending.deep_view().last()
                            &&& final(self).pending.deep_view() == old(self).pending.deep_view().drop_last()
                            &&& a matches CopyAction::Inspect(p) && p.deep_view() == final(self).from.deep_view()
                        }
                    },
                },
            },
    {
        if let Err(e) = outcome {
            self.phase = CopyPhase::Finished;
            return CopyAction::Done(Err(SandboxError::Io(e)));
        }
        match self.phase {
            CopyPhase::CheckTree => {
                self.phase = CopyPhase::CreateDir;
                CopyAction::CreateDir(clone_path(&self.to))
            },
            CopyPhase::CreateDir => {
                let ghost cur = self.current();
                self.copied = Ghost(self.copied@.insert(cur));
                self.phase = CopyPhase::List;
                proof {
                    assert(self.offered@ =~= self.copied@.union(self.pending.deep_view().to_set()).insert(cur));
                }
                CopyAction::List(clone_path(&self.from))
            },
            _ => {
                let ghost cur = self.current();
                self.copied = Ghost(self.copied@.insert(cur));
                proof {
                    assert(self.offered@ =~= self.copied@.union(self.pending.deep_view().to_set()));
                }
                self.take_next()
            },
        }
    }

    /// Takes what the entry last looked at is: a directory is copied as a
    /// tree, a file is copied, and a link or anything else ends the copy
    /// refused.
    pub fn on_metadata(&mut self, outcome: Result<EntryMeta, std::io::Error>) -> (a: CopyAction)
        requires
            old(self).wf(),
            old(self).phase is Inspect,
        ensures
            final(self).wf(),
            old(self).same_copy(&*final(self)),
            final(self).offered@ == old(self).offered@,
            final(self).copied@ == old(self).copied@,
            final(self).current() == old(self).current(),
            final(self).pending.deep_view() == old(self).pending.deep_view(),
            match outcome {
                Err(e) => final(self).phase is Finished && (a matches CopyAction::Done(Err(SandboxError::Io(x))) && x == e),
                Ok(m) => if is_link(m) {
                    final(self).phase is Finished && a matches CopyAction::Done(Err(SandboxError::LinkRejected))
                } else if m.is_dir {
                    final(self).phase is CheckTree && (a matches CopyAction::CheckTree(p) && p.deep_view() == old(self).from.deep_view())
                } else if m.is_file {
                    &&& final(self).phase is CopyFile
                    &&& a matches CopyAction::CopyFile(s, d) && s.deep_view() == old(self).from.deep_view()
                        && d.deep_view() == old(self).to.deep_view()
                } else {
                    final(self).phase is Finished && a matches CopyAction::Done(Err(SandboxError::UnsupportedEntry))
                },
            },
    {
        let meta = match outcome {
            Ok(m) => m,
            Err(e) => {
                self.phase = CopyPhase::Finished;
                return CopyAction::Done(Err(SandboxError::Io(e)));
            },
        };
        match copy_entry_kind(&meta) {
            Err(e) => {
                self.phase = CopyPhase::Finished;
                CopyAction::Done(Err(e))
            },
            Ok(CopyKind::Directory) => {
                self.phase = CopyPhase::CheckTree;
                CopyAction::CheckTree(clone_path(&self.from))
            },
            Ok(CopyKind::File) => {
                self.phase = CopyPhase::CopyFile;
                CopyAction::CopyFile(clone_path(&self.from), clone_path(&self.to))
            },
        }
    }

    /// Takes the names of the entries of the directory last listed: they are
    /// copied next, first entry first, each into the same name below the
    /// current destination. A name that is not an ordinary name ends the copy
    /// refused, so that nothing is read or written outside the two trees.
    pub fn on_listing(&mut self, outcome: Result<Vec<String>, std::io::Error>) -> (a: CopyAction)
        requires
            old(self).wf(),
            old(self).phase is List,
        ensures
            final(self).wf(),
            old(self).same_copy(&*final(self)),
            final(self).copied@ == old(self).copied@,
            a matches CopyAction::Done(Ok(())) ==> final(self).offered@ == final(self).copied@,
            match outcome {
                Err(e) => final(self).phase is Finished && (a matches CopyAction::Done(Err(SandboxError::Io(x))) && x == e),
                Ok(names) => if !all_ordinary(names.deep_view(), old(self).platform) {
                    final(self).phase is Finished && (a matches CopyAction::Done(Err(SandboxError::AbnormalComponent)))
                } else {
                    let listed = entries_of(old(self).from.deep_view(), old(self).to.deep_view(), names.deep_view());
                    let all = old(self).pending.deep_view() + stacked(listed);
                    &&& final(self).offered@ == old(self).offered@.union(listed.to_set())
                    &&& all.len() == 0 ==> (final(self).phase is Finished && (a matches CopyAction::Done(Ok(()))))
                    &&& all.len() > 0 ==> {
                        &&& final(self).phase is Inspect
                        &&& final(self).current() == all.last()
                        &&& final(self).pending.deep_view() == all.drop_last()
                        &&& a matches CopyAction::Inspect(p) && p.deep_view() == final(self).from.deep_view()
                    }
                },
            },
    {
        let names = match outcome {
            Ok(n) => n,
            Err(e) => {
                self.phase = CopyPhase::Finished;
                return CopyAction::Done(Err(SandboxError::Io(e)));
            },
        };
        if !all_names_ordinary(&names, self.platform) {
            self.phase = CopyPhase::Finished;
            return CopyAction::Done(Err(SandboxError::AbnormalComponent));
        }
        let n = names.len();
        let ghost start = self.pending.deep_view();
        let ghost nv = names.deep_view();
        let ghost fv = self.from.deep_view();
        let ghost tv = self.to.deep_view();
        let ghost listed = entries_of(fv, tv, nv);
        let ghost offered = self.offered@;
        let ghost copied = self.copied@;
        let ghost sv = self.source.deep_view();
        let ghost dv = self.destination.deep_view();
        let ghost platform = self.platform;
        let mut j: usize = n;
        proof {
            assert(stacked(listed.subrange(n as int, n as int)) =~= Seq::<CopyPair>::empty());
            assert(start + stacked(listed.subrange(n as int, n as int)) =~= start);
        }
        while j > 0
            invariant
                n == names.len(),
                nv == names.deep_view(),
                fv == self.from.deep_view(),
                tv == self.to.deep_view(),
                listed == entries_of(fv, tv, nv),
                j <= n,
                self.pending.deep_view() == start + stacked(listed.subrange(j as int, n as int)),
                self.offered@ == offered,
                self.copied@ == copied,
                self.source.deep_view() == sv,
                self.destination.deep_view() == dv,
                self.platform == platform,
                self.phase is List,
            decreases j,
        {
            j = j - 1;
            let ghost before = self.pending.deep_view();
            let mut from = clone_path(&self.from);
            let mut to = clone_path(&self.to);
            let name_from = names[j].clone();
            let name_to = names[j].clone();
            proof {
                assert(nv[j as int] == names@[j as int]@);
            }
            let ghost f0 = from.deep_view();
            let ghost t0 = to.deep_view();
            from.push(PathComponent::Normal(name_from));
            to.push(PathComponent::Normal(name_to));
            proof {
                assert(from.deep_view() =~= f0.push(ComponentView::Normal(nv[j as int])));
                assert(to.deep_view() =~= t0.push(ComponentView::Normal(nv[j as int])));
            }
            self.pending.push((from, to));
            proof {
                assert(self.pending.deep_view() =~= before.push(listed[j as int]));
                assert(stacked(listed.subrange(j as int, n as int)) =~= stacked(listed.subrange(j + 1, n as int)).push(listed[j as int]));
            }
        }
        let ghost all = self.pending.deep_view();
        proof {
            assert(listed.subrange(0, n as int) =~= listed);
            lemma_stacked_items(start, listed);
            assert(offered == copied.union(start.to_set()).insert((fv, tv)));
            assert(copied.contains((fv, tv)));
            assert(offered.contains((fv, tv)));
            assert(mirrors(sv, dv, (fv, tv), platform));
            assert forall|p: CopyPair| #[trigger] listed.to_set().contains(p) implies mirrors(sv, dv, p, platform) by {
                let i = choose|i: int| 0 <= i < listed.len() && listed[i] == p;
                let c = ComponentView::Normal(nv[i]);
                assert(is_ordinary_name(nv[i], platform));
                assert forall|x: int| sv.len() <= x < fv.push(c).len() implies #[trigger] is_ordinary_component(fv.push(c)[x], platform) by {
                    if x < fv.len() {
                        assert(fv.push(c)[x] == fv[x]);
                    }
                }
                assert(fv.push(c).take(sv.len() as int) =~= fv.take(sv.len() as int));
                assert(fv.push(c).skip(sv.len() as int) =~= fv.skip(sv.len() as int).push(c));
                assert(tv.push(c) =~= dv + fv.push(c).skip(sv.len() as int));
            }
            self.offered = Ghost(self.offered@.union(listed.to_set()));
            assert(self.offered@ =~= self.copied@.union(all.to_set()));
        }
        self.take_next()
    }
}

} // verus!
