//! Checking a whole directory tree for links before an operation that would
//! follow them (a recursive copy, removal or rename).
//!
//! The check reads the file system between decisions, so it is a machine:
//! the caller looks at or lists the path that a step names and hands the
//! outcome to the next step.

use vstd::prelude::*;
use crate::path::{clone_path, is_ordinary_component, is_ordinary_name, is_prefix, ordinary_from, ComponentView, PathComponent};
use crate::platform::Platform;
use crate::tree_copy::{all_names_ordinary, all_ordinary};
use crate::sandbox::{is_link, reject_link, EntryMeta, SandboxError};

verus! {

/// What the caller of a tree check does next.
pub enum TreeAction {
    /// Look at this path without following links; report with `on_metadata`.
    Inspect(Vec<PathComponent>),
    /// List the names of this directory's entries; report with `on_listing`.
    List(Vec<PathComponent>),
    /// The check is over: `Ok` when no link was met.
    Done(Result<(), SandboxError>),
}

pub enum TreePhase {
    Inspect,
    List,
    Finished,
}

/// A depth-first check of a tree: each path is looked at without following
/// links; a link ends the check refused, a directory has its entries listed
/// and each of them checked in turn, first entry first, before the entries
/// that follow its own directory. A check that ends accepted has cleared
/// every path handed to it, the root and every entry listed; every such
/// path lies below the root, along ordinary names (a listing with any other
/// name ends the check refused).
pub struct TreeCheck {
    pub root: Vec<PathComponent>,
    pub platform: Platform,
    /// Paths still to look at; the last is looked at next.
    pub pending: Vec<Vec<PathComponent>>,
    /// The path the pending action is about.
    pub current: Vec<PathComponent>,
    pub phase: TreePhase,
    /// Every path handed to the check so far: the root and the entries listed.
    pub offered: Ghost<Set<Seq<ComponentView>>>,
    /// The paths looked at and found to be no link.
    pub cleared: Ghost<Set<Seq<ComponentView>>>,
}

/// `children` stacked so that the first of them is taken first.
pub open spec fn stacked<T>(children: Seq<T>) -> Seq<T> {
    Seq::new(children.len(), |i: int| children[children.len() - 1 - i])
}

/// Taking the last item off a stack takes it out of the stack's items,
/// which are those left and it.
pub proof fn lemma_pop_items<T>(s: Seq<T>)
    requires
        s.len() > 0,
    ensures
        s.to_set() == s.drop_last().to_set().insert(s.last()),
{
    assert forall|x: T| s.contains(x) implies #[trigger] s.drop_last().contains(x) || x == s.last() by {
        let i = choose|i: int| 0 <= i < s.len() && s[i] == x;
        if i < s.len() - 1 {
            assert(s.drop_last()[i] == x);
        }
    }
    assert forall|x: T| s.drop_last().contains(x) implies #[trigger] s.contains(x) by {
        let i = choose|i: int| 0 <= i < s.drop_last().len() && s.drop_last()[i] == x;
        assert(s[i] == x);
    }
    assert(s[s.len() - 1] == s.last());
    assert(s.to_set() =~= s.drop_last().to_set().insert(s.last()));
}

/// Stacking items onto a stack adds exactly them to its items.
pub proof fn lemma_stacked_items<T>(start: Seq<T>, cv: Seq<T>)
    ensures
        (start + stacked(cv)).to_set() == start.to_set().union(cv.to_set()),
{
    let all = start + stacked(cv);
    let st = stacked(cv);
    assert forall|x: T| all.contains(x) implies #[trigger] start.contains(x) || cv.contains(x) by {
        let i = choose|i: int| 0 <= i < all.len() && all[i] == x;
        if i < start.len() {
            assert(start[i] == x);
        } else {
            let k = i - start.len();
            assert(st[k] == x);
            assert(cv[cv.len() - 1 - k] == x);
        }
    }
    assert forall|x: T| start.contains(x) implies #[trigger] all.contains(x) by {
        let i = choose|i: int| 0 <= i < start.len() && start[i] == x;
        assert(all[i] == x);
    }
    assert forall|x: T| cv.contains(x) implies #[trigger] all.contains(x) by {
        let i = choose|i: int| 0 <= i < cv.len() && cv[i] == x;
        let k = cv.len() - 1 - i;
        assert(st[k] == x);
        assert(all[start.len() + k] == x);
    }
    assert(all.to_set() =~= start.to_set().union(cv.to_set()));
}

impl TreeCheck {
    /// Every path handed over is cleared, still to look at, or the one the
    /// pending action is about.
    pub open spec fn wf(&self) -> bool {
        &&& forall|p: Seq<ComponentView>| #[trigger] self.offered@.contains(p)
            ==> is_prefix(self.root.deep_view(), p) && ordinary_from(self.root.len() as int, p, self.platform)
        &&& !(self.phase is Finished) ==> {
            &&& self.offered@ == self.cleared@.union(self.pending.deep_view().to_set()).insert(self.current.deep_view())
            &&& self.phase is List ==> self.cleared@.contains(self.current.deep_view())
        }
    }

    /// Begins checking the tree at `root`; the first action looks at it.
    pub fn start(root: Vec<PathComponent>, platform: Platform) -> (r: (TreeCheck, TreeAction))
        ensures
            r.0.wf(),
            r.0.root.deep_view() == root.deep_view(),
            r.0.platform == platform,
            r.0.phase is Inspect,
            r.0.pending.len() == 0,
            r.0.current.deep_view() == root.deep_view(),
            r.0.offered@ == Set::<Seq<ComponentView>>::empty().insert(root.deep_view()),
            r.0.cleared@ == Set::<Seq<ComponentView>>::empty(),
            r.1 matches TreeAction::Inspect(p) && p.deep_view() == root.deep_view(),
    {
        let look = clone_path(&root);
        let current = clone_path(&root);
        let check = TreeCheck {
            root,
            platform,
            pending: Vec::new(),
            current,
            phase: TreePhase::Inspect,
            offered: Ghost(Set::empty().insert(look.deep_view())),
            cleared: Ghost(Set::empty()),
        };
        proof {
            let rv = check.root.deep_view();
            assert(rv.take(rv.len() as int) =~= rv);
            assert(check.pending.deep_view().to_set() =~= Set::<Seq<ComponentView>>::empty());
            assert(check.offered@ =~= check.cleared@.union(check.pending.deep_view().to_set()).insert(check.current.deep_view()));
        }
        (check, TreeAction::Inspect(look))
    }

    /// Takes the next pending path, or ends the check accepted when none is
    /// left.
    fn take_next(&mut self) -> (a: TreeAction)
        requires
            old(self).offered@ == old(self).cleared@.union(old(self).pending.deep_view().to_set()),
            forall|p: Seq<ComponentView>| #[trigger] old(self).offered@.contains(p)
                ==> is_prefix(old(self).root.deep_view(), p) && ordinary_from(old(self).root.len() as int, p, old(self).platform),
        ensures
            final(self).wf(),
            final(self).root == old(self).root,
            final(self).platform == old(self).platform,
            final(self).offered@ == old(self).offered@,
            final(self).cleared@ == old(self).cleared@,
            a matches TreeAction::Done(Ok(())) ==> final(self).offered@ == final(self).cleared@,
            old(self).pending.len() == 0 ==> final(self).phase is Finished && a matches TreeAction::Done(Ok(())),
            old(self).pending.len() > 0 ==> {
                &&& final(self).phase is Inspect
                &&& final(self).current.deep_view() == old(self).pending.deep_view().last()
                &&& final(self).pending.deep_view() == old(self).pending.deep_view().drop_last()
                &&& a matches TreeAction::Inspect(p) && p.deep_view() == final(self).current.deep_view()
            },
    {
        let ghost before = self.pending.deep_view();
        match self.pending.pop() {
            None => {
                self.phase = TreePhase::Finished;
                TreeAction::Done(Ok(()))
            },
            Some(p) => {
                proof {
                    assert(self.pending.deep_view() =~= before.drop_last());
                    assert(before =~= before.drop_last().push(before.last()));
                    lemma_pop_items(before);
                }
                self.current = clone_path(&p);
                self.phase = TreePhase::Inspect;
                proof {
                    assert(self.offered@ =~= self.cleared@.union(self.pending.deep_view().to_set()).insert(self.current.deep_view()));
                }
                TreeAction::Inspect(p)
            },
        }
    }

    /// Takes what the path last looked at is: a link ends the check refused,
    /// a directory is listed next, anything else is done with.
    pub fn on_metadata(&mut self, outcome: Result<EntryMeta, std::io::Error>) -> (a: TreeAction)
        requires
            old(self).wf(),
            old(self).phase is Inspect,
        ensures
            final(self).wf(),
            final(self).root == old(self).root,
            final(self).platform == old(self).platform,
            final(self).offered@ == old(self).offered@,
            a matches TreeAction::Done(Ok(())) ==> final(self).offered@ == final(self).cleared@,
            match outcome {
                Err(e) => final(self).phase is Finished && (a matches TreeAction::Done(Err(SandboxError::Io(x))) && x == e),
                Ok(m) => if is_link(m) {
                    final(self).phase is Finished && a matches TreeAction::Done(Err(SandboxError::LinkRejected))
                } else {
                    &&& final(self).cleared@ == old(self).cleared@.insert(old(self).current.deep_view())
                    &&& if m.is_dir {
                        &&& final(self).phase is List
                        &&& final(self).current.deep_view() == old(self).current.deep_view()
                        &&& final(self).pending.deep_view() == old(self).pending.deep_view()
                        &&& a matches TreeAction::List(p) && p.deep_view() == old(self).current.deep_view()
                    } else if old(self).pending.len() == 0 {
                        final(self).phase is Finished && a matches TreeAction::Done(Ok(()))
                    } else {
                        &&& final(self).phase is Inspect
                        &&& final(self).current.deep_view() == old(self).pending.deep_view().last()
                        &&& final(self).pending.deep_view() == old(self).pending.deep_view().drop_last()
                        &&& a matches TreeAction::Inspect(p) && p.deep_view() == final(self).current.deep_view()
                    }
                },
            },
    {
        let meta = match outcome {
            Ok(m) => m,
            Err(e) => {
                self.phase = TreePhase::Finished;
                return TreeAction::Done(Err(SandboxError::Io(e)));
            },
        };
        if reject_link(&meta).is_err() {
            self.phase = TreePhase::Finished;
            return TreeAction::Done(Err(SandboxError::LinkRejected));
        }
        let ghost cur = self.current.deep_view();
        self.cleared = Ghost(self.cleared@.insert(cur));
        if meta.is_dir {
            self.phase = TreePhase::List;
            proof {
                assert(self.offered@ =~= self.cleared@.union(self.pending.deep_view().to_set()).insert(cur));
            }
            TreeAction::List(clone_path(&self.current))
        } else {
            proof {
                assert(self.offered@ =~= self.cleared@.union(self.pending.deep_view().to_set()));
            }
            self.take_next()
        }
    }

    /// Takes the names of the entries of the directory last listed: they are
    /// checked next, first entry first; a name that is not an ordinary name
    /// ends the check refused.
    pub fn on_listing(&mut self, outcome: Result<Vec<String>, std::io::Error>) -> (a: TreeAction)
        requires
            old(self).wf(),
            old(self).phase is List,
        ensures
            final(self).wf(),
            final(self).root == old(self).root,
            final(self).platform == old(self).platform,
            final(self).cleared@ == old(self).cleared@,
            a matches TreeAction::Done(Ok(())) ==> final(self).offered@ == final(self).cleared@,
            match outcome {
                Err(e) => final(self).phase is Finished && (a matches TreeAction::Done(Err(SandboxError::Io(x))) && x == e),
                Ok(names) => if !all_ordinary(names.deep_view(), old(self).platform) {
                    final(self).phase is Finished && (a matches TreeAction::Done(Err(SandboxError::AbnormalComponent)))
                } else {
                    let children = children_of(old(self).current.deep_view(), names.deep_view());
                    let all = old(self).pending.deep_view() + stacked(children);
                    &&& final(self).offered@ == old(self).offered@.union(children.to_set())
                    &&& all.len() == 0 ==> (final(self).phase is Finished && (a matches TreeAction::Done(Ok(()))))
                    &&& all.len() > 0 ==> {
                        &&& final(self).phase is Inspect
                        &&& final(self).current.deep_view() == all.last()
                        &&& final(self).pending.deep_view() == all.drop_last()
                        &&& a matches TreeAction::Inspect(p) && p.deep_view() == final(self).current.deep_view()
                    }
                },
            },
    {
        let names = match outcome {
            Ok(n) => n,
            Err(e) => {
                self.phase = TreePhase::Finished;
                return TreeAction::Done(Err(SandboxError::Io(e)));
            },
        };
        if !all_names_ordinary(&names, self.platform) {
            self.phase = TreePhase::Finished;
            return TreeAction::Done(Err(SandboxError::AbnormalComponent));
        }
        let ghost start = self.pending.deep_view();
        let ghost nv = names.deep_view();
        let ghost offered = self.offered@;
        let ghost cleared = self.cleared@;
        let ghost cur = self.current.deep_view();
        let ghost cv = children_of(cur, nv);
        let ghost rv = self.root.deep_view();
        let ghost platform = self.platform;
        let n = names.len();
        let mut j: usize = n;
        proof {
            assert(stacked(cv.subrange(n as int, n as int)) =~= Seq::<Seq<ComponentView>>::empty());
            assert(start + stacked(cv.subrange(n as int, n as int)) =~= start);
        }
        while j > 0
            invariant
                n == names.len(),
                nv == names.deep_view(),
                cv == children_of(cur, nv),
                j <= n,
                self.pending.deep_view() == start + stacked(cv.subrange(j as int, n as int)),
                self.offered@ == offered,
                self.cleared@ == cleared,
                self.current.deep_view() == cur,
                self.root.deep_view() == rv,
                self.root == old(self).root,
                self.platform == platform,
                platform == old(self).platform,
                self.phase is List,
            decreases j,
        {
            j = j - 1;
            let ghost before = self.pending.deep_view();
            let mut child = clone_path(&self.current);
            proof {
                assert(nv[j as int] == names@[j as int]@);
            }
            child.push(PathComponent::Normal(names[j].clone()));
            proof {
                assert(child.deep_view() =~= cur.push(ComponentView::Normal(nv[j as int])));
            }
            self.pending.push(child);
            proof {
                assert(self.pending.deep_view() =~= before.push(cv[j as int]));
                assert(stacked(cv.subrange(j as int, n as int)) =~= stacked(cv.subrange(j + 1, n as int)).push(cv[j as int]));
            }
        }
        let ghost all = self.pending.deep_view();
        proof {
            assert(cv.subrange(0, n as int) =~= cv);
            lemma_stacked_items(start, cv);
            assert(offered == cleared.union(start.to_set()).insert(cur));
            assert(cleared.contains(cur));
            assert(offered.contains(cur));
            assert forall|p: Seq<ComponentView>| #[trigger] cv.to_set().contains(p) implies is_prefix(rv, p) && ordinary_from(rv.len() as int, p, platform) by {
                let i = choose|i: int| 0 <= i < cv.len() && cv[i] == p;
                let c = ComponentView::Normal(nv[i]);
                assert(is_ordinary_name(nv[i], platform));
                assert(cur.push(c).take(rv.len() as int) =~= cur.take(rv.len() as int));
                assert forall|x: int| rv.len() <= x < cur.push(c).len() implies #[trigger] is_ordinary_component(cur.push(c)[x], platform) by {
                    if x < cur.len() {
                        assert(cur.push(c)[x] == cur[x]);
                    }
                }
            }
            self.offered = Ghost(self.offered@.union(cv.to_set()));
            assert(self.offered@ =~= self.cleared@.union(all.to_set()));
        }
        self.take_next()
    }
}

/// The entries named `names` of the directory `dir`.
pub open spec fn children_of(dir: Seq<ComponentView>, names: Seq<Seq<char>>) -> Seq<Seq<ComponentView>> {
    Seq::new(names.len(), |i: int| dir.push(ComponentView::Normal(names[i])))
}

} // verus!
