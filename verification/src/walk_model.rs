//! What a path walk, and the setup of the sandbox root, conclude as a
//! function of what the file system answers, and the laws that follow.
//!
//! A file system is given by two answers: what is at a path, looked at
//! without following links (`None` where nothing is), and the canonical
//! form of a path. A walk begins with `walk_spec` of its root and path as its
//! outlook, and each step that a file system answers either keeps the
//! outlook or ends the walk with it (the steps' `reaches` clauses); so a walk
//! whose actions one file system answers ends with the verdict `walk_spec`
//! gives. The setup of the sandbox root is described the same way.

use vstd::prelude::*;
use crate::path::{
    is_ambiguous_on_windows, is_ordinary_component, is_ordinary_name, is_prefix, ordinary_from, strictly_inside, ComponentView,
    PathComponent,
};
use crate::platform::Platform;
use crate::sandbox::{
    first_record_of, lemma_lookup_finds_opened, other_dir, SandboxView,
    is_link, relative_view, sandbox_dir_names, EntryMeta, MetadataOutcome, PathWalk, SandboxError, SandboxSetup, SetupAction,
    SetupPhase, WalkAction, WalkPhase,
};

verus! {

/// What is at each path, looked at without following links.
pub type MetaAnswers = spec_fn(Seq<ComponentView>) -> Option<EntryMeta>;

/// The canonical form of each path.
pub type CanonAnswers = spec_fn(Seq<ComponentView>) -> Seq<ComponentView>;

/// Why a walk refuses a path, without the error's payload.
pub enum Refusal {
    LinkRejected,
    RootMoved,
    OutsideSandbox,
    AbnormalComponent,
    AmbiguousComponent,
    ResolvedOutside,
    RootTarget,
    Io,
    /// A refusal that no walk gives.
    Other,
}

/// The end of a walk: the path it accepts, or why it refuses.
pub enum Verdict {
    Accepted(Seq<ComponentView>),
    Refused(Refusal),
}

pub open spec fn refusal_of(e: SandboxError) -> Refusal {
    match e {
        SandboxError::LinkRejected => Refusal::LinkRejected,
        SandboxError::RootMoved => Refusal::RootMoved,
        SandboxError::OutsideSandbox => Refusal::OutsideSandbox,
        SandboxError::AbnormalComponent => Refusal::AbnormalComponent,
        SandboxError::AmbiguousComponent => Refusal::AmbiguousComponent,
        SandboxError::ResolvedOutside => Refusal::ResolvedOutside,
        SandboxError::RootTarget => Refusal::RootTarget,
        SandboxError::Io(_) => Refusal::Io,
        _ => Refusal::Other,
    }
}

/// The verdict a walk's final result stands for.
pub open spec fn verdict_of(r: Result<Vec<PathComponent>, SandboxError>) -> Verdict {
    match r {
        Ok(t) => Verdict::Accepted(t.deep_view()),
        Err(e) => Verdict::Refused(refusal_of(e)),
    }
}

/// The walk over the components of `rel` from `next` on, with `target`
/// reached so far: each ordinary, unambiguous name is taken onto the target;
/// where something exists there it must be no link, and the target becomes
/// its canonical form, which must lie strictly inside the root.
pub open spec fn walk_from(
    root: Seq<ComponentView>,
    rel: Seq<ComponentView>,
    next: int,
    target: Seq<ComponentView>,
    platform: Platform,
    meta: MetaAnswers,
    canon: CanonAnswers,
) -> Verdict
    decreases rel.len() - next,
{
    if next >= rel.len() {
        if target == root {
            Verdict::Refused(Refusal::RootTarget)
        } else {
            Verdict::Accepted(target)
        }
    } else {
        match rel[next] {
            ComponentView::Normal(name) => if !is_ordinary_name(name, platform) {
                Verdict::Refused(Refusal::AbnormalComponent)
            } else if platform is Windows && is_ambiguous_on_windows(name) {
                Verdict::Refused(Refusal::AmbiguousComponent)
            } else {
                let t = target.push(ComponentView::Normal(name));
                match meta(t) {
                    None => walk_from(root, rel, next + 1, t, platform, meta, canon),
                    Some(m) => if is_link(m) {
                        Verdict::Refused(Refusal::LinkRejected)
                    } else {
                        let c = canon(t);
                        if c == root || !is_prefix(root, c) || !ordinary_from(root.len() as int, c, platform) {
                            Verdict::Refused(Refusal::ResolvedOutside)
                        } else {
                            walk_from(root, rel, next + 1, c, platform, meta, canon)
                        }
                    },
                }
            },
            _ => Verdict::Refused(Refusal::AbnormalComponent),
        }
    }
}

/// The rest of a walk once the target's canonical form `c` is known.
pub open spec fn resolved(
    root: Seq<ComponentView>,
    rel: Seq<ComponentView>,
    next: int,
    c: Seq<ComponentView>,
    platform: Platform,
    meta: MetaAnswers,
    canon: CanonAnswers,
) -> Verdict {
    if c == root || !is_prefix(root, c) || !ordinary_from(root.len() as int, c, platform) {
        Verdict::Refused(Refusal::ResolvedOutside)
    } else {
        walk_from(root, rel, next, c, platform, meta, canon)
    }
}

/// The rest of a walk once the target `t` is to be looked at.
pub open spec fn inspected(
    root: Seq<ComponentView>,
    rel: Seq<ComponentView>,
    next: int,
    t: Seq<ComponentView>,
    platform: Platform,
    meta: MetaAnswers,
    canon: CanonAnswers,
) -> Verdict {
    match meta(t) {
        None => walk_from(root, rel, next, t, platform, meta, canon),
        Some(m) => if is_link(m) {
            Verdict::Refused(Refusal::LinkRejected)
        } else {
            resolved(root, rel, next, canon(t), platform, meta, canon)
        },
    }
}

/// The rest of a walk once the root's canonical form `c` is known: the root
/// must not have moved, and an absolute path must begin with it.
pub open spec fn root_checked(
    root: Seq<ComponentView>,
    path: Seq<ComponentView>,
    absolute: bool,
    platform: Platform,
    meta: MetaAnswers,
    canon: CanonAnswers,
    c: Seq<ComponentView>,
) -> Verdict {
    if c != root {
        Verdict::Refused(Refusal::RootMoved)
    } else if absolute && !is_prefix(root, path) {
        Verdict::Refused(Refusal::OutsideSandbox)
    } else {
        let rel = if absolute { path.skip(root.len() as int) } else { path };
        walk_from(root, rel, 0, root, platform, meta, canon)
    }
}

/// The verdict of validating `path` against `root` on a file system that
/// answers `meta` and `canon`: the root must exist and be no link, then the
/// walk goes on as `root_checked` says.
pub open spec fn walk_spec(
    root: Seq<ComponentView>,
    path: Seq<ComponentView>,
    absolute: bool,
    platform: Platform,
    meta: MetaAnswers,
    canon: CanonAnswers,
) -> Verdict {
    match meta(root) {
        None => Verdict::Refused(Refusal::Io),
        Some(m) => if is_link(m) {
            Verdict::Refused(Refusal::LinkRejected)
        } else {
            root_checked(root, path, absolute, platform, meta, canon, canon(root))
        },
    }
}

/// `meta` gives at `p` what the step was told.
pub open spec fn answers_meta(meta: MetaAnswers, p: Seq<ComponentView>, o: MetadataOutcome) -> bool {
    match o {
        MetadataOutcome::Found(m) => meta(p) == Some(m),
        MetadataOutcome::Missing(_) => meta(p) is None,
        MetadataOutcome::Failed(_) => false,
    }
}

/// `canon` gives at `p` the canonical form the step was told.
pub open spec fn answers_canon(canon: CanonAnswers, p: Seq<ComponentView>, o: Result<Vec<PathComponent>, std::io::Error>) -> bool {
    o matches Ok(c) && c.deep_view() == canon(p)
}

impl PathWalk {
    /// The path the pending action is about.
    pub open spec fn asked(&self) -> Seq<ComponentView> {
        if self.phase is CheckRoot || self.phase is ResolveRoot {
            self.root.deep_view()
        } else {
            self.target.deep_view()
        }
    }

    /// The verdict this walk reaches from where it stands, if its actions
    /// are answered by `meta` and `canon`.
    pub open spec fn outlook(&self, meta: MetaAnswers, canon: CanonAnswers) -> Verdict {
        let root = self.root.deep_view();
        let rel = self.relative.deep_view();
        match self.phase {
            WalkPhase::CheckRoot => walk_spec(root, self.path.components.deep_view(), self.path.absolute, self.platform, meta, canon),
            WalkPhase::ResolveRoot => root_checked(
                root, self.path.components.deep_view(), self.path.absolute, self.platform, meta, canon, canon(root)),
            WalkPhase::Inspect => inspected(root, rel, self.next as int, self.target.deep_view(), self.platform, meta, canon),
            WalkPhase::Resolve => resolved(
                root, rel, self.next as int, canon(self.target.deep_view()), self.platform, meta, canon),
            WalkPhase::Finished => Verdict::Refused(Refusal::Other),
        }
    }
}

/// After a step that returned `a`, the walk `after` still heads for `v`:
/// either `a` ends the walk with `v`, or `after`'s outlook is `v`.
pub open spec fn reaches(after: PathWalk, a: WalkAction, v: Verdict, meta: MetaAnswers, canon: CanonAnswers) -> bool {
    match a {
        WalkAction::Done(r) => verdict_of(r) == v,
        _ => after.outlook(meta, canon) == v,
    }
}

/// What `advanced` describes is one step of `walk_from`.
pub proof fn lemma_advanced_reaches(w: PathWalk, a: WalkAction, next: int, target: Seq<ComponentView>, rel: Seq<ComponentView>, meta: MetaAnswers, canon: CanonAnswers)
    requires
        w.advanced(a, next, target),
        w.relative.deep_view() == rel,
        0 <= next <= rel.len(),
    ensures
        reaches(w, a, walk_from(w.root.deep_view(), rel, next, target, w.platform, meta, canon), meta, canon),
{
}

proof fn lemma_walk_stays_inside(
    root: Seq<ComponentView>,
    rel: Seq<ComponentView>,
    next: int,
    target: Seq<ComponentView>,
    platform: Platform,
    meta: MetaAnswers,
    canon: CanonAnswers,
    t: Seq<ComponentView>,
)
    requires
        is_prefix(root, target),
        ordinary_from(root.len() as int, target, platform),
        walk_from(root, rel, next, target, platform, meta, canon) == Verdict::Accepted(t),
    ensures
        strictly_inside(root, t),
        ordinary_from(root.len() as int, t, platform),
    decreases rel.len() - next,
{
    if next >= rel.len() {
        if target.len() == root.len() {
            assert(target.take(root.len() as int) =~= target);
        }
    } else if let ComponentView::Normal(name) = rel[next] {
        let pushed = target.push(ComponentView::Normal(name));
        assert(pushed.take(root.len() as int) =~= target.take(root.len() as int));
        assert forall|i: int| root.len() <= i < pushed.len() implies #[trigger] is_ordinary_component(pushed[i], platform) by {
            if i < target.len() {
                assert(pushed[i] == target[i]);
            }
        }
        match meta(pushed) {
            None => lemma_walk_stays_inside(root, rel, next + 1, pushed, platform, meta, canon, t),
            Some(m) => lemma_walk_stays_inside(root, rel, next + 1, canon(pushed), platform, meta, canon, t),
        }
    }
}

/// Every path a walk accepts lies strictly inside the root, and every one
/// of its components below the root is an ordinary name: no `..`, no
/// separator hidden in a name, nothing empty. This holds on every file
/// system, whatever it answers.
pub proof fn lemma_accepted_paths_stay_inside(
    root: Seq<ComponentView>,
    path: Seq<ComponentView>,
    absolute: bool,
    platform: Platform,
    meta: MetaAnswers,
    canon: CanonAnswers,
    t: Seq<ComponentView>,
)
    requires
        walk_spec(root, path, absolute, platform, meta, canon) == Verdict::Accepted(t),
    ensures
        strictly_inside(root, t),
        ordinary_from(root.len() as int, t, platform),
{
    let rel = if absolute { path.skip(root.len() as int) } else { path };
    assert(root.take(root.len() as int) =~= root);
    lemma_walk_stays_inside(root, rel, 0, root, platform, meta, canon, t);
}

/// An absolute path that begins with the root is walked as what remains of
/// it after the root: on the same file system both walks reach the same
/// verdict, the same accepted path or the same refusal.
pub proof fn lemma_absolute_descendant_walks_as_relative(
    root: Seq<ComponentView>,
    rest: Seq<ComponentView>,
    platform: Platform,
    meta: MetaAnswers,
    canon: CanonAnswers,
)
    ensures
        walk_spec(root, root + rest, true, platform, meta, canon) == walk_spec(root, rest, false, platform, meta, canon),
{
    assert((root + rest).take(root.len() as int) =~= root);
    assert((root + rest).skip(root.len() as int) =~= rest);
}

/// `q`, the last path a walk takes a name onto, can be taken again: its last
/// component is an ordinary, unambiguous name, and either nothing is there
/// or what is there is no link and is its own canonical form.
pub open spec fn passable(q: Seq<ComponentView>, platform: Platform, meta: MetaAnswers, canon: CanonAnswers) -> bool {
    &&& q.len() > 0
    &&& q.last() matches ComponentView::Normal(name) && is_ordinary_name(name, platform)
        && !(platform is Windows && is_ambiguous_on_windows(name))
    &&& match meta(q) {
        None => true,
        Some(m) => !is_link(m) && canon(q) == q,
    }
}

/// Every prefix of `t` below `root` can be taken again by a walk.
pub open spec fn passable_below(root: Seq<ComponentView>, t: Seq<ComponentView>, platform: Platform, meta: MetaAnswers, canon: CanonAnswers) -> bool {
    &&& is_prefix(root, t)
    &&& forall|k: int| root.len() < k <= t.len() ==> #[trigger] passable(t.take(k), platform, meta, canon)
}

/// The file system canonicalizes as canonicalization promises, below
/// `root`: a canonical form holds only normalized, ordinary names (on
/// Windows, names Windows reads as they are written) and passes through no
/// link, and each of its prefixes that exists is its own canonical form.
/// Said exactly: where the canonical form of an existing entry that is no
/// link lies strictly inside the root, every one of its prefixes below the
/// root is `passable`.
pub open spec fn canonicalizes_faithfully(root: Seq<ComponentView>, platform: Platform, meta: MetaAnswers, canon: CanonAnswers) -> bool {
    forall|x: Seq<ComponentView>| #![trigger canon(x)]
        (meta(x) matches Some(m) && !is_link(m)) && strictly_inside(root, canon(x))
            ==> forall|k: int| root.len() < k <= canon(x).len() ==> #[trigger] passable(canon(x).take(k), platform, meta, canon)
}

proof fn lemma_walk_accepts_passable(
    root: Seq<ComponentView>,
    rel: Seq<ComponentView>,
    next: int,
    target: Seq<ComponentView>,
    platform: Platform,
    meta: MetaAnswers,
    canon: CanonAnswers,
    t: Seq<ComponentView>,
)
    requires
        canonicalizes_faithfully(root, platform, meta, canon),
        passable_below(root, target, platform, meta, canon),
        walk_from(root, rel, next, target, platform, meta, canon) == Verdict::Accepted(t),
    ensures
        passable_below(root, t, platform, meta, canon),
        strictly_inside(root, t),
    decreases rel.len() - next,
{
    if next >= rel.len() {
        if target.len() == root.len() {
            assert(target.take(root.len() as int) =~= target);
        }
    } else {
        if let ComponentView::Normal(name) = rel[next] {
            let pushed = target.push(ComponentView::Normal(name));
            assert(pushed.take(root.len() as int) =~= target.take(root.len() as int));
            match meta(pushed) {
                None => {
                    assert forall|k: int| root.len() < k <= pushed.len() implies #[trigger] passable(pushed.take(k), platform, meta, canon) by {
                        if k < pushed.len() {
                            assert(pushed.take(k) =~= target.take(k));
                        } else {
                            assert(pushed.take(k) =~= pushed);
                        }
                    }
                    lemma_walk_accepts_passable(root, rel, next + 1, pushed, platform, meta, canon, t);
                },
                Some(m) => {
                    let c = canon(pushed);
                    if c.len() == root.len() {
                        assert(c.take(root.len() as int) =~= c);
                    }
                    assert(strictly_inside(root, c));
                    lemma_walk_accepts_passable(root, rel, next + 1, c, platform, meta, canon, t);
                },
            }
        }
    }
}

proof fn lemma_walk_retraces(
    root: Seq<ComponentView>,
    t: Seq<ComponentView>,
    i: int,
    platform: Platform,
    meta: MetaAnswers,
    canon: CanonAnswers,
)
    requires
        passable_below(root, t, platform, meta, canon),
        strictly_inside(root, t),
        0 <= i <= t.len() - root.len(),
    ensures
        walk_from(root, t.skip(root.len() as int), i, t.take(root.len() + i), platform, meta, canon) == Verdict::Accepted(t),
    decreases t.len() - root.len() - i,
{
    let rel = t.skip(root.len() as int);
    let here = t.take(root.len() + i);
    if i == t.len() - root.len() {
        assert(here =~= t);
    } else {
        let q = t.take(root.len() + i + 1);
        assert(passable(q, platform, meta, canon));
        assert(rel[i] == q.last());
        assert(here.push(rel[i]) =~= q);
        assert(q.take(root.len() as int) =~= t.take(root.len() as int));
        assert forall|k: int| root.len() <= k < q.len() implies #[trigger] is_ordinary_component(q[k], platform) by {
            assert(passable(t.take(k + 1), platform, meta, canon));
            assert(t.take(k + 1).last() == q[k]);
        }
        lemma_walk_retraces(root, t, i + 1, platform, meta, canon);
    }
}

/// A path that a walk accepted is accepted again, as itself, when walked as
/// an absolute path on the same file system: the result of validating a
/// path, relative or absolute, is a fixed point of validation. This holds
/// of file systems whose canonical forms are canonical, as canonicalization
/// promises; on one that answers otherwise the second walk may refuse. With
/// a sandbox's directory as the root this is `Sandbox::validate_path`
/// mapping a path that `resolve_path` resolved to itself (while
/// `resolve_path` refuses that absolute path, as its contract says).
pub proof fn lemma_accepted_path_is_a_fixed_point(
    root: Seq<ComponentView>,
    path: Seq<ComponentView>,
    absolute: bool,
    platform: Platform,
    meta: MetaAnswers,
    canon: CanonAnswers,
    t: Seq<ComponentView>,
)
    requires
        canonicalizes_faithfully(root, platform, meta, canon),
        walk_spec(root, path, absolute, platform, meta, canon) == Verdict::Accepted(t),
    ensures
        walk_spec(root, t, true, platform, meta, canon) == Verdict::Accepted(t),
{
    let rel = if absolute { path.skip(root.len() as int) } else { path };
    assert(root.take(root.len() as int) =~= root);
    lemma_walk_accepts_passable(root, rel, 0, root, platform, meta, canon, t);
    lemma_walk_retraces(root, t, 0, platform, meta, canon);
}

/// A level of the sandbox root is usable: a directory, and no link.
pub open spec fn level_ok(o: Option<EntryMeta>) -> bool {
    o matches Some(m) && !is_link(m) && m.is_dir
}

/// The sandbox root that setting up below the canonical project directory
/// `base` reaches from level `level` on, where creating a level never fails:
/// the levels still to check must be usable, and the root is then the
/// canonical form of `base/test/sandbox`. Whether a level had to be created
/// or existed already plays no part.
pub open spec fn setup_from(base: Seq<ComponentView>, level: int, meta: MetaAnswers, canon: CanonAnswers) -> Option<Seq<ComponentView>> {
    let top = base + relative_view(sandbox_dir_names().take(1));
    let dir = base + relative_view(sandbox_dir_names());
    if (level == 0 ==> level_ok(meta(top))) && level_ok(meta(dir)) {
        Some(canon(dir))
    } else {
        None
    }
}

impl SandboxSetup {
    /// The sandbox root this setup reaches from where it stands, if its
    /// actions are answered by `meta` and `canon` (`None`: it refuses).
    pub open spec fn outlook(&self, meta: MetaAnswers, canon: CanonAnswers) -> Option<Seq<ComponentView>> {
        match self.phase {
            SetupPhase::Create => setup_from(self.base.deep_view(), self.level as int, meta, canon),
            SetupPhase::Inspect => setup_from(self.base.deep_view(), self.level as int, meta, canon),
            SetupPhase::Root => Some(canon(self.dir.deep_view())),
            _ => None,
        }
    }
}

/// After a setup step that returned `a`, the setup `after` still heads for
/// `v`: `a` ends it as `v` says, or `after`'s outlook is `v`.
pub open spec fn setup_reaches(after: SandboxSetup, a: SetupAction, v: Option<Seq<ComponentView>>, meta: MetaAnswers, canon: CanonAnswers) -> bool {
    match a {
        SetupAction::Done(Ok(m)) => v == Some(m.dir.deep_view()),
        SetupAction::Done(Err(_)) => v is None,
        _ => after.outlook(meta, canon) == v,
    }
}

/// Looking a sandbox up by its name finds what opening it under that name
/// recorded. The walk of the name reaches the sandbox's directory `d`; an
/// opening of an existing `d` (a directory, no link) records the sandbox at
/// the canonical form of `d`; on a file system that canonicalizes as
/// canonicalization promises, that is `d` itself. So a later lookup, whose
/// walk of the same name reaches `d` again, finds as the earliest record of
/// `d` the sandbox just recorded, whatever the records held before.
pub proof fn lemma_name_finds_opened_sandbox(
    root: Seq<ComponentView>,
    name: Seq<char>,
    platform: Platform,
    meta: MetaAnswers,
    canon: CanonAnswers,
    d: Seq<ComponentView>,
    initial: Seq<SandboxView>,
)
    requires
        canonicalizes_faithfully(root, platform, meta, canon),
        walk_spec(root, seq![ComponentView::Normal(name)], false, platform, meta, canon) == Verdict::Accepted(d),
        meta(d) matches Some(m) && !is_link(m),
    ensures
        canon(d) == d,
        ({
            let after = initial.filter(other_dir(canon(d))).push((name, canon(d)));
            &&& first_record_of(after, d, after.len() - 1)
            &&& forall|k: int| #[trigger] first_record_of(after, d, k) ==> after[k] == (name, d)
        }),
{
    let path = seq![ComponentView::Normal(name)];
    assert(root.take(root.len() as int) =~= root);
    lemma_walk_accepts_passable(root, path, 0, root, platform, meta, canon, d);
    assert(d.take(d.len() as int) =~= d);
    assert(passable(d.take(d.len() as int), platform, meta, canon));
    lemma_lookup_finds_opened(initial, (name, canon(d)), d);
}

/// Setting up the sandbox root is repeatable. Its outcome depends only on
/// the canonical project directory, on what the two levels `test` and
/// `test/sandbox` are and on the canonical form of the second, not on
/// whether a level had to be created; so a second setup, on a file system
/// that still answers as the first one left it, reaches the same root
/// `canonical(project)/test/sandbox` (and, by `on_canonical`, with no
/// records). No setup step removes anything: none of its actions does.
pub proof fn lemma_setup_is_repeatable(
    base: Seq<ComponentView>,
    meta: MetaAnswers,
    canon: CanonAnswers,
    meta2: MetaAnswers,
    canon2: CanonAnswers,
)
    requires
        setup_from(base, 0, meta, canon) is Some,
        meta2(base + relative_view(sandbox_dir_names().take(1))) == meta(base + relative_view(sandbox_dir_names().take(1))),
        meta2(base + relative_view(sandbox_dir_names())) == meta(base + relative_view(sandbox_dir_names())),
        canon2(base + relative_view(sandbox_dir_names())) == canon(base + relative_view(sandbox_dir_names())),
    ensures
        setup_from(base, 0, meta2, canon2) == setup_from(base, 0, meta, canon),
        setup_from(base, 0, meta, canon) == Some(canon(base + relative_view(sandbox_dir_names()))),
{
}

} // verus!
