//! Confinement of paths to a sandbox root: every path that the runner
//! touches is checked to resolve strictly inside the sandbox, without
//! passing through links.
//!
//! The checks read the file system between decisions, so they are written
//! as machines: the caller performs the action that a step returns (look at
//! a path, canonicalize a path) and hands the outcome to the next step.

use vstd::prelude::*;
use crate::path::{
    clone_component, clone_path, is_ambiguous_on_windows, is_ambiguous_windows_name, is_ordinary, is_ordinary_name, is_prefix,
    ordinary_after, ordinary_from, path_eq, starts_with, strictly_inside, strip_prefix, ComponentView, PathComponent, PathModel,
};
use crate::platform::Platform;
use crate::walk_model::{
    answers_canon, answers_meta, lemma_advanced_reaches, reaches, setup_from, setup_reaches, walk_from, CanonAnswers, MetaAnswers,
};

verus! {

#[verifier::external_type_specification]
#[verifier::external_body]
pub struct ExIoError(std::io::Error);

/// Why a sandbox operation was refused.
pub enum SandboxError {
    /// A link or reparse point lies on the path.
    LinkRejected,
    /// The sandbox root no longer canonicalizes to itself.
    RootMoved,
    /// An absolute path does not begin with the sandbox root.
    OutsideSandbox,
    /// A component is not an ordinary name.
    AbnormalComponent,
    /// A component would be read ambiguously by Windows.
    AmbiguousComponent,
    /// A component resolved to a place outside the sandbox.
    ResolvedOutside,
    /// The path names the sandbox root itself.
    RootTarget,
    /// A sandbox name is not a single ordinary name.
    InvalidName,
    /// A relative path was required.
    AbsolutePath,
    /// No sandbox of that name has been opened or created.
    NotRegistered,
    /// A directory was expected; the text says which.
    NotADirectory(&'static str),
    /// A listed entry lies outside the sandbox.
    EntryOutside,
    /// A copy would read and write the same file.
    IdenticalPaths,
    /// A rename would replace an existing path.
    DestinationExists,
    /// The tree holds something that is neither a file nor a directory.
    UnsupportedEntry,
    /// The file system reported an error.
    Io(std::io::Error),
}

/// What the file system says of one path, without following links.
pub struct EntryMeta {
    pub is_symlink: bool,
    /// The Windows file attribute bits (0 elsewhere).
    pub attributes: u32,
    pub is_dir: bool,
    pub is_file: bool,
}

/// The Windows attribute bit of reparse points, which covers junctions.
pub open spec fn reparse_point_bit() -> u32 {
    0x400u32
}

/// A symbolic link, or a reparse point such as a junction.
pub open spec fn is_link(m: EntryMeta) -> bool {
    m.is_symlink || m.attributes & reparse_point_bit() != 0
}

/// An entry is a link exactly when it is a symbolic link or carries the
/// reparse-point attribute bit `0x400`; no other attribute bit (archive
/// `0x20`, directory `0x10`, read-only `0x1`, ...) makes it one.
pub proof fn lemma_links_are_symlinks_and_reparse_points(m: EntryMeta)
    ensures
        is_link(m) <==> (m.is_symlink || m.attributes & 0x400u32 != 0),
{
}

/// Whether an entry is a link depends only on whether it is a symbolic
/// link and on its reparse-point bit: two entries that agree on those are
/// both links or both not, whatever their other attribute bits.
pub proof fn lemma_other_attributes_do_not_make_links(m1: EntryMeta, m2: EntryMeta)
    requires
        m1.is_symlink == m2.is_symlink,
        m1.attributes & 0x400u32 == m2.attributes & 0x400u32,
    ensures
        is_link(m1) == is_link(m2),
{
}

/// Refuses links and reparse points.
pub fn reject_link(metadata: &EntryMeta) -> (r: Result<(), SandboxError>)
    ensures
        r is Ok <==> !is_link(*metadata),
        r is Ok <==> !(metadata.is_symlink || metadata.attributes & 0x400u32 != 0),
        r is Err ==> r matches Err(SandboxError::LinkRejected),
{
    if metadata.is_symlink || metadata.attributes & 0x400u32 != 0 {
        Err(SandboxError::LinkRejected)
    } else {
        Ok(())
    }
}

/// The outcome of looking at a path without following links.
pub enum MetadataOutcome {
    Found(EntryMeta),
    /// Nothing exists there.
    Missing(std::io::Error),
    /// Any other failure.
    Failed(std::io::Error),
}

/// What the caller of a path walk does next.
pub enum WalkAction {
    /// Look at this path without following links, and report with `on_metadata`.
    Inspect(Vec<PathComponent>),
    /// Canonicalize this path, and report with `on_canonical`.
    Canonicalize(Vec<PathComponent>),
    /// The walk is over.
    Done(Result<Vec<PathComponent>, SandboxError>),
}

/// Where a path walk stands.
pub enum WalkPhase {
    /// Waiting for what the root is.
    CheckRoot,
    /// Waiting for the canonical form of the root.
    ResolveRoot,
    /// Waiting for what the current target is.
    Inspect,
    /// Waiting for the canonical form of the current target.
    Resolve,
    Finished,
}

/// Validation of a path against a sandbox root: relative paths are taken
/// below the root, absolute ones must begin with it; each component must be
/// an ordinary name, and each existing prefix must be no link and must
/// resolve strictly inside the root.
pub struct PathWalk {
    pub root: Vec<PathComponent>,
    pub path: PathModel,
    pub platform: Platform,
    pub relative: Vec<PathComponent>,
    pub next: usize,
    pub target: Vec<PathComponent>,
    pub phase: WalkPhase,
}

/// Whether `a` reports the end of a walk with `result` refused for `e`.
pub open spec fn refuses(a: WalkAction, e: SandboxError) -> bool {
    a matches WalkAction::Done(Err(x)) && x == e
}

impl PathWalk {
    pub open spec fn wf(&self) -> bool {
        &&& self.next <= self.relative.len()
        &&& (self.phase is Inspect || self.phase is Resolve) ==> strictly_inside(self.root.deep_view(), self.target.deep_view())
        &&& (self.phase is Inspect || self.phase is Resolve) ==> ordinary_from(self.root.len() as int, self.target.deep_view(), self.platform)
    }

    /// An upper bound on the steps left: every step that does not end the
    /// walk lowers it, so a walk ends after at most twice as many steps as
    /// the path has components, plus four, whatever the file system says.
    pub open spec fn pending(&self) -> nat {
        match self.phase {
            WalkPhase::CheckRoot => (2 * self.path.components.len() + 4) as nat,
            WalkPhase::ResolveRoot => (2 * self.path.components.len() + 3) as nat,
            WalkPhase::Inspect => (2 * (self.relative.len() - self.next) + 2) as nat,
            WalkPhase::Resolve => (2 * (self.relative.len() - self.next) + 1) as nat,
            WalkPhase::Finished => 0,
        }
    }

    /// What stays fixed along a walk.
    pub open spec fn same_walk(&self, other: &PathWalk) -> bool {
        &&& other.root.deep_view() == self.root.deep_view()
        &&& other.path == self.path
        &&& other.platform == self.platform
    }

    /// The step after the components before `next` were handled and the
    /// target became `target`: accept the target once all components are
    /// used (unless it is the root itself), else take the next component,
    /// which must be an ordinary, unambiguous name, onto the target and look
    /// at the result.
    pub open spec fn advanced(&self, a: WalkAction, next: int, target: Seq<ComponentView>) -> bool {
        let rel = self.relative.deep_view();
        if next == rel.len() {
            &&& self.phase is Finished
            &&& if target == self.root.deep_view() {
                refuses(a, SandboxError::RootTarget)
            } else {
                a matches WalkAction::Done(Ok(t)) && t.deep_view() == target
            }
        } else {
            match rel[next] {
                ComponentView::Normal(name) => if !is_ordinary_name(name, self.platform) {
                    self.phase is Finished && refuses(a, SandboxError::AbnormalComponent)
                } else if self.platform is Windows && is_ambiguous_on_windows(name) {
                    self.phase is Finished && refuses(a, SandboxError::AmbiguousComponent)
                } else {
                    &&& self.phase is Inspect
                    &&& self.next == next + 1
                    &&& self.target.deep_view() == target.push(ComponentView::Normal(name))
                    &&& a matches WalkAction::Inspect(p) && p.deep_view() == self.target.deep_view()
                },
                _ => self.phase is Finished && refuses(a, SandboxError::AbnormalComponent),
            }
        }
    }

    /// Begins validating `path` against the sandbox root `root`; the first
    /// action looks at the root.
    pub fn start(root: Vec<PathComponent>, path: PathModel, platform: Platform) -> (r: (PathWalk, WalkAction))
        ensures
            r.0.wf(),
            r.0.phase is CheckRoot,
            r.0.root.deep_view() == root.deep_view(),
            r.0.path == path,
            r.0.platform == platform,
            r.1 matches WalkAction::Inspect(p) && p.deep_view() == root.deep_view(),
    {
        let look = clone_path(&root);
        let walk = PathWalk {
            root,
            path,
            platform,
            relative: Vec::new(),
            next: 0,
            target: Vec::new(),
            phase: WalkPhase::CheckRoot,
        };
        (walk, WalkAction::Inspect(look))
    }

    fn advance(&mut self) -> (a: WalkAction)
        requires
            old(self).next <= old(self).relative.len(),
            is_prefix(old(self).root.deep_view(), old(self).target.deep_view()),
            ordinary_from(old(self).root.len() as int, old(self).target.deep_view(), old(self).platform),
        ensures
            final(self).wf(),
            old(self).same_walk(&*final(self)),
            final(self).relative.deep_view() == old(self).relative.deep_view(),
            final(self).advanced(a, old(self).next as int, old(self).target.deep_view()),
            a matches WalkAction::Done(Ok(t)) ==> strictly_inside(final(self).root.deep_view(), t.deep_view())
                && ordinary_from(final(self).root.len() as int, t.deep_view(), final(self).platform),
            final(self).pending() <= 2 * (old(self).relative.len() - old(self).next),
    {
        let ghost rootv = self.root.deep_view();
        let ghost before = self.target.deep_view();
        if self.next == self.relative.len() {
            self.phase = WalkPhase::Finished;
            if path_eq(&self.target, &self.root) {
                return WalkAction::Done(Err(SandboxError::RootTarget));
            }
            assert(before.take(before.len() as int) =~= before);
            return WalkAction::Done(Ok(clone_path(&self.target)));
        }
        let comp = clone_component(&self.relative[self.next]);
        match comp {
            PathComponent::Normal(name) => {
                if !is_ordinary(name.as_str(), self.platform) {
                    self.phase = WalkPhase::Finished;
                    return WalkAction::Done(Err(SandboxError::AbnormalComponent));
                }
                if matches!(self.platform, Platform::Windows) && is_ambiguous_windows_name(name.as_str()) {
                    self.phase = WalkPhase::Finished;
                    return WalkAction::Done(Err(SandboxError::AmbiguousComponent));
                }
                self.target.push(PathComponent::Normal(name));
                self.next = self.next + 1;
                self.phase = WalkPhase::Inspect;
                let ghost after = self.target.deep_view();
                assert(after =~= before.push(self.target@.last().deep_view()));
                assert(after.take(rootv.len() as int) =~= before.take(rootv.len() as int));
                assert forall|i: int| rootv.len() <= i < after.len() implies #[trigger] crate::path::is_ordinary_component(after[i], self.platform) by {
                    if i < before.len() {
                        assert(after[i] == before[i]);
                    }
                }
                WalkAction::Inspect(clone_path(&self.target))
            },
            _ => {
                self.phase = WalkPhase::Finished;
                WalkAction::Done(Err(SandboxError::AbnormalComponent))
            },
        }
    }

    /// Takes what the file system says of the path last inspected.
    pub fn on_metadata(&mut self, outcome: MetadataOutcome) -> (a: WalkAction)
        requires
            old(self).wf(),
            old(self).phase is CheckRoot || old(self).phase is Inspect,
        ensures
            final(self).wf(),
            final(self).pending() < old(self).pending(),
            old(self).same_walk(&*final(self)),
            a matches WalkAction::Done(Ok(t)) ==> strictly_inside(final(self).root.deep_view(), t.deep_view())
                && ordinary_from(final(self).root.len() as int, t.deep_view(), final(self).platform),
            forall|meta: MetaAnswers, canon: CanonAnswers| answers_meta(meta, old(self).asked(), outcome)
                ==> #[trigger] reaches(*final(self), a, old(self).outlook(meta, canon), meta, canon),
            match outcome {
                MetadataOutcome::Found(m) => if is_link(m) {
                    final(self).phase is Finished && refuses(a, SandboxError::LinkRejected)
                } else if old(self).phase is CheckRoot {
                    &&& final(self).phase is ResolveRoot
                    &&& a matches WalkAction::Canonicalize(p) && p.deep_view() == old(self).root.deep_view()
                } else {
                    &&& final(self).phase is Resolve
                    &&& final(self).next == old(self).next
                    &&& final(self).relative.deep_view() == old(self).relative.deep_view()
                    &&& final(self).target.deep_view() == old(self).target.deep_view()
                    &&& a matches WalkAction::Canonicalize(p) && p.deep_view() == old(self).target.deep_view()
                },
                MetadataOutcome::Missing(e) => if old(self).phase is CheckRoot {
                    final(self).phase is Finished && refuses(a, SandboxError::Io(e))
                } else {
                    &&& final(self).relative.deep_view() == old(self).relative.deep_view()
                    &&& final(self).advanced(a, old(self).next as int, old(self).target.deep_view())
                },
                MetadataOutcome::Failed(e) => final(self).phase is Finished && refuses(a, SandboxError::Io(e)),
            },
    {
        match outcome {
            MetadataOutcome::Found(meta) => {
                if reject_link(&meta).is_err() {
                    self.phase = WalkPhase::Finished;
                    return WalkAction::Done(Err(SandboxError::LinkRejected));
                }
                if matches!(self.phase, WalkPhase::CheckRoot) {
                    self.phase = WalkPhase::ResolveRoot;
                    WalkAction::Canonicalize(clone_path(&self.root))
                } else {
                    self.phase = WalkPhase::Resolve;
                    WalkAction::Canonicalize(clone_path(&self.target))
                }
            },
            MetadataOutcome::Missing(e) => {
                if matches!(self.phase, WalkPhase::CheckRoot) {
                    self.phase = WalkPhase::Finished;
                    WalkAction::Done(Err(SandboxError::Io(e)))
                } else {
                    let ghost t = self.target.deep_view();
                    let ghost r = self.root.deep_view();
                    let ghost rel = self.relative.deep_view();
                    let ghost n = self.next as int;
                    assert(is_prefix(r, t));
                    let a = self.advance();
                    proof {
                        assert forall|meta: MetaAnswers, canon: CanonAnswers| #[trigger] reaches(*self, a, walk_from(r, rel, n, t, self.platform, meta, canon), meta, canon) by {
                            lemma_advanced_reaches(*self, a, n, t, rel, meta, canon);
                        }
                    }
                    a
                }
            },
            MetadataOutcome::Failed(e) => {
                self.phase = WalkPhase::Finished;
                WalkAction::Done(Err(SandboxError::Io(e)))
            },
        }
    }

    /// Takes the canonical form of the path last sent to be canonicalized.
    pub fn on_canonical(&mut self, outcome: Result<Vec<PathComponent>, std::io::Error>) -> (a: WalkAction)
        requires
            old(self).wf(),
            old(self).phase is ResolveRoot || old(self).phase is Resolve,
        ensures
            final(self).wf(),
            final(self).pending() < old(self).pending(),
            old(self).same_walk(&*final(self)),
            a matches WalkAction::Done(Ok(t)) ==> strictly_inside(final(self).root.deep_view(), t.deep_view())
                && ordinary_from(final(self).root.len() as int, t.deep_view(), final(self).platform),
            forall|meta: MetaAnswers, canon: CanonAnswers| answers_canon(canon, old(self).asked(), outcome)
                ==> #[trigger] reaches(*final(self), a, old(self).outlook(meta, canon), meta, canon),
            match outcome {
                Err(e) => final(self).phase is Finished && refuses(a, SandboxError::Io(e)),
                Ok(c) => if old(self).phase is ResolveRoot {
                    let rootv = old(self).root.deep_view();
                    let pv = old(self).path.components.deep_view();
                    if c.deep_view() != rootv {
                        final(self).phase is Finished && refuses(a, SandboxError::RootMoved)
                    } else if old(self).path.absolute && !is_prefix(rootv, pv) {
                        final(self).phase is Finished && refuses(a, SandboxError::OutsideSandbox)
                    } else {
                        &&& final(self).relative.deep_view() == (if old(self).path.absolute { pv.skip(rootv.len() as int) } else { pv })
                        &&& final(self).advanced(a, 0, rootv)
                    }
                } else {
                    let rootv = old(self).root.deep_view();
                    if c.deep_view() == rootv || !is_prefix(rootv, c.deep_view()) || !ordinary_from(rootv.len() as int, c.deep_view(), old(self).platform) {
                        final(self).phase is Finished && refuses(a, SandboxError::ResolvedOutside)
                    } else {
                        &&& final(self).relative.deep_view() == old(self).relative.deep_view()
                        &&& final(self).advanced(a, old(self).next as int, c.deep_view())
                    }
                },
            },
    {
        let canonical = match outcome {
            Ok(c) => c,
            Err(e) => {
                self.phase = WalkPhase::Finished;
                return WalkAction::Done(Err(SandboxError::Io(e)));
            },
        };
        if matches!(self.phase, WalkPhase::ResolveRoot) {
            if !path_eq(&canonical, &self.root) {
                self.phase = WalkPhase::Finished;
                return WalkAction::Done(Err(SandboxError::RootMoved));
            }
            if self.path.absolute {
                match strip_prefix(&self.path.components, &self.root) {
                    Some(rest) => {
                        self.relative = rest;
                    },
                    None => {
                        self.phase = WalkPhase::Finished;
                        return WalkAction::Done(Err(SandboxError::OutsideSandbox));
                    },
                }
            } else {
                self.relative = clone_path(&self.path.components);
            }
            self.next = 0;
            self.target = clone_path(&self.root);
            let ghost rv = self.root.deep_view();
            let ghost rel = self.relative.deep_view();
            assert(rv.take(rv.len() as int) =~= rv);
            let a = self.advance();
            proof {
                assert forall|meta: MetaAnswers, canon: CanonAnswers| #[trigger] reaches(*self, a, walk_from(rv, rel, 0, rv, self.platform, meta, canon), meta, canon) by {
                    lemma_advanced_reaches(*self, a, 0, rv, rel, meta, canon);
                }
            }
            a
        } else {
            if path_eq(&canonical, &self.root) || !starts_with(&canonical, &self.root)
                || !ordinary_after(&canonical, self.root.len(), self.platform) {
                self.phase = WalkPhase::Finished;
                return WalkAction::Done(Err(SandboxError::ResolvedOutside));
            }
            self.target = canonical;
            let ghost rv = self.root.deep_view();
            let ghost rel = self.relative.deep_view();
            let ghost n = self.next as int;
            let ghost t = self.target.deep_view();
            let a = self.advance();
            proof {
                assert forall|meta: MetaAnswers, canon: CanonAnswers| #[trigger] reaches(*self, a, walk_from(rv, rel, n, t, self.platform, meta, canon), meta, canon) by {
                    lemma_advanced_reaches(*self, a, n, t, rel, meta, canon);
                }
            }
            a
        }
    }
}


/// A sandbox directory: a named directory below the sandbox root, holding a
/// `server` and a `client` directory.
pub struct Sandbox {
    pub name: String,
    pub dir: Vec<PathComponent>,
}

/// A sandbox as its name and its directory.
pub type SandboxView = (Seq<char>, Seq<ComponentView>);

impl DeepView for Sandbox {
    type V = SandboxView;

    open spec fn deep_view(&self) -> SandboxView {
        (self.name@, self.dir.deep_view())
    }
}

/// The path made of ordinary names.
pub open spec fn relative_view(names: Seq<Seq<char>>) -> Seq<ComponentView> {
    names.map_values(|n: Seq<char>| ComponentView::Normal(n))
}

/// A relative path of ordinary names, built from text.
pub fn relative_path(names: &Vec<&str>) -> (r: PathModel)
    ensures
        !r.absolute,
        r.components.deep_view() == relative_view(names@.map_values(|n: &str| n@)),
{
    let mut components: Vec<PathComponent> = Vec::new();
    let n = names.len();
    let mut i: usize = 0;
    while i < n
        invariant
            n == names.len(),
            i <= n,
            components.len() == i,
            forall|j: int| 0 <= j < i ==> #[trigger] components@[j].deep_view() == ComponentView::Normal(names@[j]@),
        decreases n - i,
    {
        components.push(PathComponent::Normal(String::from_str(names[i])));
        i = i + 1;
    }
    assert(components.deep_view() =~= relative_view(names@.map_values(|n: &str| n@)));
    PathModel { components, absolute: false }
}

/// A step of setting up an isolated run.
pub enum RunStep {
    /// Create this directory of the sandbox, with missing parents.
    CreateDir(PathModel),
    /// Copy the contents of the first directory into the second.
    CopyContents(PathModel, PathModel),
}

/// The run directories, and the steps that fill them.
pub struct RunPlan {
    pub steps: Vec<RunStep>,
    pub server_run: PathModel,
    pub client_run: PathModel,
}

/// Whether a run step is the one expected.
pub open spec fn creates(step: RunStep, names: Seq<Seq<char>>) -> bool {
    step matches RunStep::CreateDir(p) && !p.absolute && p.components.deep_view() == relative_view(names)
}

pub open spec fn copies(step: RunStep, from: Seq<Seq<char>>, to: Seq<Seq<char>>) -> bool {
    &&& step matches RunStep::CopyContents(a, b)
    &&& !a.absolute && a.components.deep_view() == relative_view(from)
    &&& !b.absolute && b.components.deep_view() == relative_view(to)
}

impl Sandbox {
    /// The sandbox's name.
    pub fn name(&self) -> (r: &str)
        ensures
            r@ == self.name@,
    {
        self.name.as_str()
    }

    /// Begins checking that `path` (relative, or an absolute path below the
    /// sandbox) stays inside this sandbox.
    pub fn validate_path(&self, path: PathModel, platform: Platform) -> (r: (PathWalk, WalkAction))
        ensures
            r.0.wf(),
            r.0.phase is CheckRoot,
            r.0.root.deep_view() == self.dir.deep_view(),
            r.0.path == path,
            r.0.platform == platform,
            r.1 matches WalkAction::Inspect(p) && p.deep_view() == self.dir.deep_view(),
    {
        PathWalk::start(clone_path(&self.dir), path, platform)
    }

    /// Begins resolving a relative path inside this sandbox; absolute paths
    /// are refused.
    pub fn resolve_path(&self, relative: PathModel, platform: Platform) -> (r: Result<(PathWalk, WalkAction), SandboxError>)
        ensures
            relative.absolute <==> r is Err,
            r is Err ==> r matches Err(SandboxError::AbsolutePath),
            r matches Ok(w) ==> {
                &&& w.0.wf()
                &&& w.0.phase is CheckRoot
                &&& w.0.root.deep_view() == self.dir.deep_view()
                &&& w.0.path == relative
                &&& w.0.platform == platform
                &&& w.1 matches WalkAction::Inspect(p) && p.deep_view() == self.dir.deep_view()
            },
    {
        if relative.absolute {
            return Err(SandboxError::AbsolutePath);
        }
        Ok(self.validate_path(relative, platform))
    }

    /// Begins resolving the two paths of a copy of `source`'s contents into
    /// `destination`, both relative to this sandbox; an absolute one is
    /// refused. The caller runs both walks, then the tree copy.
    pub fn copy_contents(&self, source: PathModel, destination: PathModel, platform: Platform)
        -> (r: Result<((PathWalk, WalkAction), (PathWalk, WalkAction)), SandboxError>)
        ensures
            r is Err <==> source.absolute || destination.absolute,
            r is Err ==> r matches Err(SandboxError::AbsolutePath),
            r matches Ok(w) ==> {
                &&& w.0.0.wf() && w.0.0.phase is CheckRoot && w.0.0.platform == platform
                &&& w.0.0.root.deep_view() == self.dir.deep_view() && w.0.0.path == source
                &&& w.0.1 matches WalkAction::Inspect(p) && p.deep_view() == self.dir.deep_view()
                &&& w.1.0.wf() && w.1.0.phase is CheckRoot && w.1.0.platform == platform
                &&& w.1.0.root.deep_view() == self.dir.deep_view() && w.1.0.path == destination
                &&& w.1.1 matches WalkAction::Inspect(p) && p.deep_view() == self.dir.deep_view()
            },
    {
        if source.absolute || destination.absolute {
            return Err(SandboxError::AbsolutePath);
        }
        let from = self.validate_path(source, platform);
        let to = self.validate_path(destination, platform);
        Ok((from, to))
    }

    /// Begins resolving `relative` inside this sandbox to ask whether it
    /// exists; an absolute path is refused, and a path that does not
    /// resolve inside the sandbox is an error rather than `false`.
    pub fn check_exists(&self, relative: PathModel, platform: Platform) -> (r: Result<(PathWalk, WalkAction), SandboxError>)
        ensures
            relative.absolute <==> r is Err,
            r is Err ==> r matches Err(SandboxError::AbsolutePath),
            r matches Ok(w) ==> {
                &&& w.0.wf()
                &&& w.0.phase is CheckRoot
                &&& w.0.root.deep_view() == self.dir.deep_view()
                &&& w.0.path == relative
                &&& w.0.platform == platform
                &&& w.1 matches WalkAction::Inspect(p) && p.deep_view() == self.dir.deep_view()
            },
    {
        self.resolve_path(relative, platform)
    }

    /// Plans an isolated run: `runs/<run_id>/server` and
    /// `runs/<run_id>/client` are created and filled with copies of the
    /// sandbox's `server` and `client` directories. The run id must be one
    /// ordinary name; any other (`..`, a path, nothing) is refused, so that
    /// no run directory lies outside `runs`.
    pub fn create_run(&self, run_id: &str, platform: Platform) -> (r: Result<RunPlan, SandboxError>)
        ensures
            r is Err <==> !is_ordinary_name(run_id@, platform),
            r is Err ==> r matches Err(SandboxError::AbnormalComponent),
            r matches Ok(plan) ==> {
                &&& plan.steps.len() == 4
                &&& creates(plan.steps@[0], seq!["runs"@, run_id@, "server"@])
                &&& creates(plan.steps@[1], seq!["runs"@, run_id@, "client"@])
                &&& copies(plan.steps@[2], seq!["server"@], seq!["runs"@, run_id@, "server"@])
                &&& copies(plan.steps@[3], seq!["client"@], seq!["runs"@, run_id@, "client"@])
                &&& !plan.server_run.absolute
                &&& plan.server_run.components.deep_view() == relative_view(seq!["runs"@, run_id@, "server"@])
                &&& !plan.client_run.absolute
                &&& plan.client_run.components.deep_view() == relative_view(seq!["runs"@, run_id@, "client"@])
            },
    {
        if !is_ordinary(run_id, platform) {
            return Err(SandboxError::AbnormalComponent);
        }
        let server_names = vec!["runs", run_id, "server"];
        let client_names = vec!["runs", run_id, "client"];
        assert(server_names@.map_values(|n: &str| n@) =~= seq!["runs"@, run_id@, "server"@]);
        assert(client_names@.map_values(|n: &str| n@) =~= seq!["runs"@, run_id@, "client"@]);
        let server_only = vec!["server"];
        let client_only = vec!["client"];
        assert(server_only@.map_values(|n: &str| n@) =~= seq!["server"@]);
        assert(client_only@.map_values(|n: &str| n@) =~= seq!["client"@]);
        let mut steps: Vec<RunStep> = Vec::new();
        steps.push(RunStep::CreateDir(relative_path(&server_names)));
        steps.push(RunStep::CreateDir(relative_path(&client_names)));
        steps.push(RunStep::CopyContents(relative_path(&server_only), relative_path(&server_names)));
        steps.push(RunStep::CopyContents(relative_path(&client_only), relative_path(&client_names)));
        Ok(RunPlan {
            steps,
            server_run: relative_path(&server_names),
            client_run: relative_path(&client_names),
        })
    }

    /// The path of an entry listed in this sandbox, relative to the
    /// sandbox, as names; refused when the entry is not below the sandbox
    /// or leaves names behind that are not ordinary.
    pub fn relative_entry(&self, entry: &Vec<PathComponent>) -> (r: Result<Vec<String>, SandboxError>)
        ensures
            r matches Ok(names) ==> is_prefix(self.dir.deep_view(), entry.deep_view())
                && relative_view(names.deep_view()) == entry.deep_view().skip(self.dir.len() as int),
            r is Err ==> r matches Err(SandboxError::EntryOutside),
            is_prefix(self.dir.deep_view(), entry.deep_view())
                && (forall|i: int| self.dir.len() <= i < entry.len() ==> #[trigger] entry.deep_view()[i] is Normal)
                ==> r is Ok,
    {
        let rest = match strip_prefix(entry, &self.dir) {
            Some(rest) => rest,
            None => return Err(SandboxError::EntryOutside),
        };
        let ghost rv = rest.deep_view();
        let mut names: Vec<String> = Vec::new();
        let n = rest.len();
        let mut i: usize = 0;
        while i < n
            invariant
                n == rest.len(),
                rv == rest.deep_view(),
                rv == entry.deep_view().skip(self.dir.len() as int),
                self.dir.len() <= entry.len(),
                i <= n,
                names.len() == i,
                forall|j: int| 0 <= j < i ==> ComponentView::Normal(#[trigger] names@[j]@) == rv[j],
            decreases n - i,
        {
            match &rest[i] {
                PathComponent::Normal(name) => {
                    names.push(name.clone());
                },
                _ => {
                    assert(rv.len() == n);
                    assert(rv[i as int] == rest@[i as int].deep_view());
                    assert(entry.deep_view().len() == entry@.len());
                    assert(entry.deep_view()[self.dir.len() + i] == rv[i as int]);
                    assert(!(entry.deep_view()[self.dir.len() + i] is Normal));
                    return Err(SandboxError::EntryOutside);
                },
            }
            i = i + 1;
        }
        assert(relative_view(names.deep_view()) =~= rv);
        Ok(names)
    }
}

/// What to do with an entry met while copying a directory tree.
pub enum CopyKind {
    /// Create it and copy its contents.
    Directory,
    /// Copy the file.
    File,
}

/// Decides how an entry of a tree being copied is handled: links are
/// refused, directories are copied recursively, files copied, and anything
/// else refused.
pub fn copy_entry_kind(metadata: &EntryMeta) -> (r: Result<CopyKind, SandboxError>)
    ensures
        is_link(*metadata) ==> r matches Err(SandboxError::LinkRejected),
        !is_link(*metadata) && metadata.is_dir ==> r matches Ok(CopyKind::Directory),
        !is_link(*metadata) && !metadata.is_dir && metadata.is_file ==> r matches Ok(CopyKind::File),
        !is_link(*metadata) && !metadata.is_dir && !metadata.is_file ==> r matches Err(SandboxError::UnsupportedEntry),
{
    reject_link(metadata)?;
    if metadata.is_dir {
        Ok(CopyKind::Directory)
    } else if metadata.is_file {
        Ok(CopyKind::File)
    } else {
        Err(SandboxError::UnsupportedEntry)
    }
}

/// Refuses a copy whose source and destination are the same path.
pub fn check_distinct(source: &Vec<PathComponent>, destination: &Vec<PathComponent>) -> (r: Result<(), SandboxError>)
    ensures
        r is Ok <==> source.deep_view() != destination.deep_view(),
        r is Err ==> r matches Err(SandboxError::IdenticalPaths),
{
    if path_eq(source, destination) {
        Err(SandboxError::IdenticalPaths)
    } else {
        Ok(())
    }
}

/// Refuses a rename onto a path that exists.
pub fn check_rename_destination(destination_exists: bool) -> (r: Result<(), SandboxError>)
    ensures
        r is Ok <==> !destination_exists,
        r is Err ==> r matches Err(SandboxError::DestinationExists),
{
    if destination_exists {
        Err(SandboxError::DestinationExists)
    } else {
        Ok(())
    }
}

/// Checks an existing path that is to be opened as a sandbox: it must be a
/// directory, and not a link.
pub fn check_existing_sandbox(metadata: &EntryMeta) -> (r: Result<(), SandboxError>)
    ensures
        is_link(*metadata) ==> r matches Err(SandboxError::LinkRejected),
        !is_link(*metadata) && !metadata.is_dir ==> (r matches Err(SandboxError::NotADirectory(m)) && m@ == "sandbox path is not a directory"@),
        r is Ok <==> !is_link(*metadata) && metadata.is_dir,
{
    reject_link(metadata)?;
    if !metadata.is_dir {
        return Err(SandboxError::NotADirectory("sandbox path is not a directory"));
    }
    Ok(())
}


/// Keeps the sandboxes whose directory is not `dir`.
pub open spec fn other_dir(dir: Seq<ComponentView>) -> spec_fn(SandboxView) -> bool {
    |s: SandboxView| s.1 != dir
}

/// The manager of all sandboxes, below the root `dir`; `created` records
/// the sandboxes opened or created so far, oldest first.
pub struct SandboxManager {
    pub dir: Vec<PathComponent>,
    pub created: Vec<Sandbox>,
}

/// The names, below the project directory, of the sandbox root.
pub open spec fn sandbox_dir_names() -> Seq<Seq<char>> {
    seq!["test"@, "sandbox"@]
}

/// What the caller of the manager's setup does next.
pub enum SetupAction {
    /// Canonicalize this path and report with `on_canonical`.
    Canonicalize(Vec<PathComponent>),
    /// Create this directory (not its parents) and report with `on_create`.
    CreateDir(Vec<PathComponent>),
    /// Look at this path without following links and report with `on_metadata`.
    Inspect(Vec<PathComponent>),
    /// Setup is over.
    Done(Result<SandboxManager, SandboxError>),
}

/// The outcome of creating one directory.
pub enum CreateOutcome {
    Created,
    AlreadyExists(std::io::Error),
    Failed(std::io::Error),
}

pub enum SetupPhase {
    Project,
    Create,
    Inspect,
    Root,
    Finished,
}

/// Setting up the sandbox root below a project directory: each level of
/// `test/sandbox` is created unless present, and must then be a directory
/// and no link, so that no pre-existing link can redirect the sandbox.
pub struct SandboxSetup {
    pub base: Vec<PathComponent>,
    pub dir: Vec<PathComponent>,
    pub level: usize,
    pub phase: SetupPhase,
}

pub open spec fn setup_refuses(a: SetupAction, e: SandboxError) -> bool {
    a matches SetupAction::Done(Err(x)) && x == e
}

impl SandboxSetup {
    /// An upper bound on the steps left; every step that does not end the
    /// setup lowers it.
    pub open spec fn pending(&self) -> nat {
        match self.phase {
            SetupPhase::Project => 7,
            SetupPhase::Create => (6 - 2 * self.level) as nat,
            SetupPhase::Inspect => (5 - 2 * self.level) as nat,
            SetupPhase::Root => 2,
            SetupPhase::Finished => 0,
        }
    }

    pub open spec fn wf(&self) -> bool {
        &&& self.level < 2
        &&& (self.phase is Create || self.phase is Inspect) ==> self.dir.deep_view()
            == self.base.deep_view() + relative_view(sandbox_dir_names().take(self.level + 1))
        &&& self.phase is Root ==> self.dir.deep_view() == self.base.deep_view() + relative_view(sandbox_dir_names())
    }

    /// Takes a canonical path: first that of the project directory, at the
    /// end that of the sandbox root.
    pub fn on_canonical(&mut self, outcome: Result<Vec<PathComponent>, std::io::Error>) -> (a: SetupAction)
        requires
            old(self).wf(),
            old(self).phase is Project || old(self).phase is Root,
        ensures
            final(self).wf(),
            final(self).pending() < old(self).pending(),
            forall|meta: MetaAnswers, canon: CanonAnswers| old(self).phase is Root
                ==> ((outcome matches Ok(c) && canon(old(self).dir.deep_view()) == c.deep_view())
                ==> #[trigger] setup_reaches(*final(self), a, old(self).outlook(meta, canon), meta, canon)),
            forall|meta: MetaAnswers, canon: CanonAnswers| #![trigger final(self).outlook(meta, canon)]
                outcome matches Ok(c) ==> (old(self).phase is Project
                ==> setup_reaches(*final(self), a, setup_from(c.deep_view(), 0, meta, canon), meta, canon)),
            match outcome {
                Err(e) => final(self).phase is Finished && setup_refuses(a, SandboxError::Io(e)),
                Ok(c) => if old(self).phase is Project {
                    &&& final(self).phase is Create
                    &&& final(self).level == 0
                    &&& final(self).base.deep_view() == c.deep_view()
                    &&& final(self).dir.deep_view() == c.deep_view() + relative_view(seq!["test"@])
                    &&& a matches SetupAction::CreateDir(p) && p.deep_view() == c.deep_view() + relative_view(seq!["test"@])
                } else {
                    &&& final(self).phase is Finished
                    &&& a matches SetupAction::Done(Ok(m))
                    &&& m.dir.deep_view() == c.deep_view()
                    &&& m.created.len() == 0
                },
            },
    {
        let canonical = match outcome {
            Ok(c) => c,
            Err(e) => {
                self.phase = SetupPhase::Finished;
                return SetupAction::Done(Err(SandboxError::Io(e)));
            },
        };
        if matches!(self.phase, SetupPhase::Project) {
            self.base = clone_path(&canonical);
            let mut dir = canonical;
            let ghost bv = dir.deep_view();
            dir.push(PathComponent::Normal(String::from_str("test")));
            assert(dir.deep_view() =~= bv + relative_view(seq!["test"@]));
            assert(sandbox_dir_names().take(1) =~= seq!["test"@]);
            self.dir = clone_path(&dir);
            self.level = 0;
            self.phase = SetupPhase::Create;
            SetupAction::CreateDir(dir)
        } else {
            self.phase = SetupPhase::Finished;
            SetupAction::Done(Ok(SandboxManager { dir: canonical, created: Vec::new() }))
        }
    }

    /// Takes the outcome of creating the current level; one that exists
    /// already is accepted.
    pub fn on_create(&mut self, outcome: CreateOutcome) -> (a: SetupAction)
        requires
            old(self).wf(),
            old(self).phase is Create,
        ensures
            final(self).wf(),
            final(self).pending() < old(self).pending(),
            forall|meta: MetaAnswers, canon: CanonAnswers| !(outcome is Failed)
                ==> #[trigger] setup_reaches(*final(self), a, old(self).outlook(meta, canon), meta, canon),
            match outcome {
                CreateOutcome::Failed(e) => final(self).phase is Finished && setup_refuses(a, SandboxError::Io(e)),
                _ => {
                    &&& final(self).phase is Inspect
                    &&& final(self).level == old(self).level
                    &&& final(self).base.deep_view() == old(self).base.deep_view()
                    &&& final(self).dir.deep_view() == old(self).dir.deep_view()
                    &&& a matches SetupAction::Inspect(p) && p.deep_view() == old(self).dir.deep_view()
                },
            },
    {
        match outcome {
            CreateOutcome::Failed(e) => {
                self.phase = SetupPhase::Finished;
                SetupAction::Done(Err(SandboxError::Io(e)))
            },
            _ => {
                self.phase = SetupPhase::Inspect;
                SetupAction::Inspect(clone_path(&self.dir))
            },
        }
    }

    /// Takes what the current level is: it must be a directory and no link;
    /// then the next level is created, or, after the last, the sandbox root
    /// is canonicalized.
    pub fn on_metadata(&mut self, outcome: Result<EntryMeta, std::io::Error>) -> (a: SetupAction)
        requires
            old(self).wf(),
            old(self).phase is Inspect,
        ensures
            final(self).wf(),
            final(self).pending() < old(self).pending(),
            forall|meta: MetaAnswers, canon: CanonAnswers| (outcome matches Ok(m) && meta(old(self).dir.deep_view()) == Some(m))
                ==> #[trigger] setup_reaches(*final(self), a, old(self).outlook(meta, canon), meta, canon),
            match outcome {
                Err(e) => final(self).phase is Finished && setup_refuses(a, SandboxError::Io(e)),
                Ok(m) => if is_link(m) {
                    final(self).phase is Finished && setup_refuses(a, SandboxError::LinkRejected)
                } else if !m.is_dir {
                    final(self).phase is Finished && setup_refuses(a, SandboxError::NotADirectory("invalid sandbox directory"))
                } else if old(self).level == 0 {
                    &&& final(self).phase is Create
                    &&& final(self).level == 1
                    &&& final(self).base.deep_view() == old(self).base.deep_view()
                    &&& final(self).dir.deep_view() == old(self).base.deep_view() + relative_view(sandbox_dir_names())
                    &&& a matches SetupAction::CreateDir(p) && p.deep_view() == old(self).base.deep_view() + relative_view(sandbox_dir_names())
                } else {
                    &&& final(self).phase is Root
                    &&& final(self).base.deep_view() == old(self).base.deep_view()
                    &&& final(self).dir.deep_view() == old(self).base.deep_view() + relative_view(sandbox_dir_names())
                    &&& a matches SetupAction::Canonicalize(p) && p.deep_view() == old(self).base.deep_view() + relative_view(sandbox_dir_names())
                },
            },
    {
        let meta = match outcome {
            Ok(m) => m,
            Err(e) => {
                self.phase = SetupPhase::Finished;
                return SetupAction::Done(Err(SandboxError::Io(e)));
            },
        };
        assert(sandbox_dir_names().take(1) =~= seq!["test"@]);
        assert(sandbox_dir_names().take(2) =~= sandbox_dir_names());
        if reject_link(&meta).is_err() {
            self.phase = SetupPhase::Finished;
            return SetupAction::Done(Err(SandboxError::LinkRejected));
        }
        if !meta.is_dir {
            self.phase = SetupPhase::Finished;
            return SetupAction::Done(Err(SandboxError::NotADirectory("invalid sandbox directory")));
        }
        let ghost before = self.dir.deep_view();
        if self.level == 0 {
            self.dir.push(PathComponent::Normal(String::from_str("sandbox")));
            assert(relative_view(sandbox_dir_names()) =~= relative_view(sandbox_dir_names().take(1)).push(ComponentView::Normal("sandbox"@)));
            assert(self.dir.deep_view() =~= before.push(ComponentView::Normal("sandbox"@)));
            assert(self.dir.deep_view() =~= self.base.deep_view() + relative_view(sandbox_dir_names()));
            self.level = 1;
            self.phase = SetupPhase::Create;
            SetupAction::CreateDir(clone_path(&self.dir))
        } else {
            self.phase = SetupPhase::Root;
            SetupAction::Canonicalize(clone_path(&self.dir))
        }
    }
}

impl SandboxManager {
    /// Begins setting up the sandbox root below the project directory
    /// `project`; the first action canonicalizes the project directory.
    pub fn new(project: Vec<PathComponent>) -> (r: (SandboxSetup, SetupAction))
        ensures
            r.0.wf(),
            r.0.phase is Project,
            r.1 matches SetupAction::Canonicalize(p) && p.deep_view() == project.deep_view(),
    {
        let setup = SandboxSetup { base: Vec::new(), dir: Vec::new(), level: 0, phase: SetupPhase::Project };
        (setup, SetupAction::Canonicalize(project))
    }

    /// Begins checking that `path` stays below the sandbox root.
    pub fn validate_path(&self, path: PathModel, platform: Platform) -> (r: (PathWalk, WalkAction))
        ensures
            r.0.wf(),
            r.0.phase is CheckRoot,
            r.0.root.deep_view() == self.dir.deep_view(),
            r.0.path == path,
            r.0.platform == platform,
            r.1 matches WalkAction::Inspect(p) && p.deep_view() == self.dir.deep_view(),
    {
        PathWalk::start(clone_path(&self.dir), path, platform)
    }

    /// Begins resolving the directory of the sandbox called `name`, which
    /// must be a single ordinary name.
    pub fn child_path(&self, name: PathModel, platform: Platform) -> (r: Result<(PathWalk, WalkAction), SandboxError>)
        ensures
            r is Ok <==> name.components.len() == 1 && name.components@[0] is Normal,
            r is Err ==> r matches Err(SandboxError::InvalidName),
            r matches Ok(w) ==> {
                &&& w.0.wf()
                &&& w.0.phase is CheckRoot
                &&& w.0.root.deep_view() == self.dir.deep_view()
                &&& w.0.path == name
                &&& w.0.platform == platform
                &&& w.1 matches WalkAction::Inspect(p) && p.deep_view() == self.dir.deep_view()
            },
    {
        if name.components.len() != 1 {
            return Err(SandboxError::InvalidName);
        }
        match &name.components[0] {
            PathComponent::Normal(_) => {},
            _ => return Err(SandboxError::InvalidName),
        }
        Ok(self.validate_path(name, platform))
    }

    /// Drops every record of a sandbox in `dir`, keeping the others in order.
    pub fn forget(&mut self, dir: &Vec<PathComponent>)
        ensures
            final(self).dir == old(self).dir,
            final(self).created.deep_view() == old(self).created.deep_view().filter(other_dir(dir.deep_view())),
    {
        let ghost start = self.created.deep_view();
        let ghost keep = other_dir(dir.deep_view());
        let mut i: usize = 0;
        let ghost mut j: int = 0;
        assert(start.take(0).filter(keep) =~= Seq::<SandboxView>::empty()) by {
            reveal_with_fuel(Seq::<_>::filter, 1);
        }
        assert(start.skip(0) =~= start);
        assert(self.created.deep_view() =~= start.take(0).filter(keep) + start.skip(0));
        while i < self.created.len()
            invariant
                self.dir == old(self).dir,
                start == old(self).created.deep_view(),
                keep == other_dir(dir.deep_view()),
                0 <= j <= start.len(),
                i == start.take(j).filter(keep).len(),
                self.created.deep_view() == start.take(j).filter(keep) + start.skip(j),
            decreases self.created.len() - i,
        {
            let ghost cur = self.created.deep_view();
            assert(cur[i as int] == start[j]);
            assert(start.take(j + 1).drop_last() =~= start.take(j));
            assert(start.take(j + 1).last() == start[j]);
            if path_eq(&self.created[i].dir, dir) {
                self.created.remove(i);
                proof {
                    assert(self.created.deep_view() =~= cur.remove(i as int));
                    reveal_with_fuel(Seq::<_>::filter, 1);
                    assert(!keep(start[j]));
                    assert(start.take(j + 1).filter(keep) == start.take(j).filter(keep));
                    assert(self.created.deep_view() =~= start.take(j + 1).filter(keep) + start.skip(j + 1));
                    j = j + 1;
                }
            } else {
                i = i + 1;
                proof {
                    reveal_with_fuel(Seq::<_>::filter, 1);
                    assert(keep(start[j]));
                    assert(start.take(j + 1).filter(keep) == start.take(j).filter(keep).push(start[j]));
                    assert(self.created.deep_view() =~= start.take(j + 1).filter(keep) + start.skip(j + 1));
                    j = j + 1;
                }
            }
        }
        proof {
            if j < start.len() {
                assert(self.created.deep_view().len() > i);
            }
            assert(start.take(j) =~= start);
        }
    }

    /// Records a sandbox as the newest and hands it back.
    pub fn remember(&mut self, sandbox: Sandbox) -> (r: &Sandbox)
        ensures
            final(self).dir == old(self).dir,
            final(self).created.deep_view() == old(self).created.deep_view().push(sandbox.deep_view()),
            r.deep_view() == sandbox.deep_view(),
    {
        let ghost sv = sandbox.deep_view();
        let ghost before = self.created.deep_view();
        self.created.push(sandbox);
        assert(self.created.deep_view() =~= before.push(sv));
        let last = self.created.len() - 1;
        &self.created[last]
    }

    /// The earliest recorded sandbox whose directory is `dir`.
    pub fn get_sandbox(&self, dir: &Vec<PathComponent>) -> (r: Result<&Sandbox, SandboxError>)
        ensures
            r is Err <==> forall|k: int| 0 <= k < self.created.len() ==> #[trigger] self.created.deep_view()[k].1 != dir.deep_view(),
            r is Err ==> r matches Err(SandboxError::NotRegistered),
            r matches Ok(s) ==> exists|k: int| 0 <= k < self.created.len()
                && s.deep_view() == #[trigger] self.created.deep_view()[k]
                && s.dir.deep_view() == dir.deep_view()
                && forall|j: int| 0 <= j < k ==> self.created.deep_view()[j].1 != dir.deep_view(),
    {
        let ghost cv = self.created.deep_view();
        let n = self.created.len();
        let mut i: usize = 0;
        while i < n
            invariant
                n == self.created.len(),
                cv == self.created.deep_view(),
                i <= n,
                forall|j: int| 0 <= j < i ==> cv[j].1 != dir.deep_view(),
            decreases n - i,
        {
            if path_eq(&self.created[i].dir, dir) {
                assert(cv[i as int] == self.created@[i as int].deep_view());
                assert(cv[i as int].1 == dir.deep_view());
                return Ok(&self.created[i]);
            }
            i = i + 1;
        }
        Err(SandboxError::NotRegistered)
    }
}

/// Whether an opening starts the sandbox afresh or keeps what it holds.
#[derive(Clone, Copy, Debug, PartialEq, Eq)]
pub enum OpenMode {
    /// Remove any previous contents.
    Fresh,
    /// Keep an existing sandbox as it is.
    Keep,
}

/// What the caller of a sandbox opening does next.
pub enum OpenAction {
    /// Report with `on_exists` whether this path exists.
    CheckExists(Vec<PathComponent>),
    /// Check the whole tree at this path for links; report with `on_step`.
    CheckTree(Vec<PathComponent>),
    /// Remove the tree at this path; report with `on_step`.
    RemoveTree(Vec<PathComponent>),
    /// Look at this path without following links; report with `on_metadata`.
    Inspect(Vec<PathComponent>),
    /// Create this directory (not its parents); report with `on_step`.
    CreateDir(Vec<PathComponent>),
    /// Canonicalize this path; report with `on_canonical`.
    Canonicalize(Vec<PathComponent>),
    /// Run this walk, create the directory it accepts with its parents, and
    /// report with `on_step`.
    CreateSubdir(PathWalk, WalkAction),
    /// The opening is over; on success the sandbox is the manager's newest record.
    Done(Result<(), SandboxError>),
}

pub enum OpenPhase {
    Exists,
    Tree,
    Remove,
    CreateRoot,
    InspectExisting,
    Resolve,
    Server,
    Client,
    Finished,
}

/// Opening a sandbox directory `dir` (already confined to the sandbox
/// root) under the name `name`.
pub struct SandboxOpening {
    pub name: String,
    pub dir: Vec<PathComponent>,
    pub mode: OpenMode,
    pub platform: Platform,
    pub phase: OpenPhase,
    pub sandbox: Sandbox,
    /// The manager's records when the opening began.
    pub initial: Ghost<Seq<SandboxView>>,
    /// Whether the earlier records of `dir` have been dropped yet.
    pub forgotten: bool,
}

pub open spec fn open_refuses(a: OpenAction, e: SandboxError) -> bool {
    a matches OpenAction::Done(Err(x)) && x == e
}

/// `a` starts a walk that resolves the names `names` below `root`.
pub open spec fn creates_subdir(a: OpenAction, root: Seq<ComponentView>, names: Seq<Seq<char>>, platform: Platform) -> bool {
    &&& a matches OpenAction::CreateSubdir(w, first)
    &&& w.wf()
    &&& w.platform == platform
    &&& w.phase is CheckRoot
    &&& w.root.deep_view() == root
    &&& !w.path.absolute
    &&& w.path.components.deep_view() == relative_view(names)
    &&& first matches WalkAction::Inspect(p) && p.deep_view() == root
}

impl SandboxOpening {
    /// The manager's records as they stand at this point of the opening.
    pub open spec fn registry(&self) -> Seq<SandboxView> {
        if self.forgotten {
            self.initial@.filter(other_dir(self.dir.deep_view()))
        } else {
            self.initial@
        }
    }

    /// The manager passed to a step is the one the opening works on.
    pub open spec fn matches_manager(&self, m: &SandboxManager) -> bool {
        m.created.deep_view() == self.registry()
    }

    /// What stays fixed along an opening.
    pub open spec fn same_opening(&self, other: &SandboxOpening) -> bool {
        &&& other.name@ == self.name@
        &&& other.dir.deep_view() == self.dir.deep_view()
        &&& other.mode == self.mode
        &&& other.platform == self.platform
        &&& other.initial@ == self.initial@
    }

    /// Takes whether the sandbox path exists. A fresh opening checks an
    /// existing tree for links before removing it; a keeping opening looks
    /// at what exists; a missing directory is created.
    pub fn on_exists(self, manager: &mut SandboxManager, present: Result<bool, std::io::Error>) -> (r: (SandboxOpening, OpenAction))
        requires
            self.phase is Exists,
            !self.forgotten,
            self.matches_manager(old(manager)),
        ensures
            r.1 matches OpenAction::Done(Err(_)) ==> r.0.forgotten == self.forgotten
                && final(manager).created.deep_view() == old(manager).created.deep_view(),
            self.same_opening(&r.0),
            r.0.matches_manager(final(manager)),
            final(manager).dir == old(manager).dir,
            match present {
                Err(e) => r.0.phase is Finished && open_refuses(r.1, SandboxError::Io(e)),
                Ok(true) => if self.mode is Fresh {
                    r.0.phase is Tree && !r.0.forgotten && (r.1 matches OpenAction::CheckTree(p) && p.deep_view() == self.dir.deep_view())
                } else {
                    r.0.phase is InspectExisting && !r.0.forgotten && (r.1 matches OpenAction::Inspect(p) && p.deep_view() == self.dir.deep_view())
                },
                Ok(false) => {
                    &&& r.0.phase is CreateRoot
                    &&& r.0.forgotten == (self.mode is Fresh)
                    &&& r.1 matches OpenAction::CreateDir(p) && p.deep_view() == self.dir.deep_view()
                },
            },
    {
        let mut next = self;
        match present {
            Err(e) => {
                next.phase = OpenPhase::Finished;
                (next, OpenAction::Done(Err(SandboxError::Io(e))))
            },
            Ok(true) => {
                let p = clone_path(&next.dir);
                if matches!(next.mode, OpenMode::Fresh) {
                    next.phase = OpenPhase::Tree;
                    (next, OpenAction::CheckTree(p))
                } else {
                    next.phase = OpenPhase::InspectExisting;
                    (next, OpenAction::Inspect(p))
                }
            },
            Ok(false) => {
                if matches!(next.mode, OpenMode::Fresh) {
                    manager.forget(&next.dir);
                    next.forgotten = true;
                }
                next.phase = OpenPhase::CreateRoot;
                let p = clone_path(&next.dir);
                (next, OpenAction::CreateDir(p))
            },
        }
    }

    /// Takes what an existing path to be kept as a sandbox is: it must be a
    /// directory and no link.
    pub fn on_metadata(self, manager: &mut SandboxManager, outcome: Result<EntryMeta, std::io::Error>) -> (r: (SandboxOpening, OpenAction))
        requires
            self.phase is InspectExisting,
            !self.forgotten,
            self.matches_manager(old(manager)),
        ensures
            r.1 matches OpenAction::Done(Err(_)) ==> r.0.forgotten == self.forgotten
                && final(manager).created.deep_view() == old(manager).created.deep_view(),
            self.same_opening(&r.0),
            r.0.matches_manager(final(manager)),
            final(manager).dir == old(manager).dir,
            match outcome {
                Err(e) => r.0.phase is Finished && open_refuses(r.1, SandboxError::Io(e)),
                Ok(m) => if is_link(m) {
                    r.0.phase is Finished && open_refuses(r.1, SandboxError::LinkRejected)
                } else if !m.is_dir {
                    &&& r.0.phase is Finished
                    &&& r.1 matches OpenAction::Done(Err(SandboxError::NotADirectory(t)))
                    &&& t@ == "sandbox path is not a directory"@
                } else {
                    &&& r.0.phase is Resolve
                    &&& r.0.forgotten
                    &&& r.1 matches OpenAction::Canonicalize(p) && p.deep_view() == self.dir.deep_view()
                },
            },
    {
        let mut next = self;
        let meta = match outcome {
            Ok(m) => m,
            Err(e) => {
                next.phase = OpenPhase::Finished;
                return (next, OpenAction::Done(Err(SandboxError::Io(e))));
            },
        };
        match check_existing_sandbox(&meta) {
            Err(e) => {
                next.phase = OpenPhase::Finished;
                (next, OpenAction::Done(Err(e)))
            },
            Ok(()) => {
                manager.forget(&next.dir);
                next.forgotten = true;
                next.phase = OpenPhase::Resolve;
                let p = clone_path(&next.dir);
                (next, OpenAction::Canonicalize(p))
            },
        }
    }

    /// Takes the canonical form of the sandbox directory; the sandbox's
    /// `server` directory is made next.
    pub fn on_canonical(self, outcome: Result<Vec<PathComponent>, std::io::Error>) -> (r: (SandboxOpening, OpenAction))
        requires
            self.phase is Resolve,
        ensures
            self.same_opening(&r.0),
            r.0.forgotten == self.forgotten,
            match outcome {
                Err(e) => r.0.phase is Finished && open_refuses(r.1, SandboxError::Io(e)),
                Ok(c) => {
                    &&& r.0.phase is Server
                    &&& r.0.sandbox.name@ == self.name@
                    &&& r.0.sandbox.dir.deep_view() == c.deep_view()
                    &&& creates_subdir(r.1, c.deep_view(), seq!["server"@], self.platform)
                },
            },
    {
        let mut next = self;
        match outcome {
            Err(e) => {
                next.phase = OpenPhase::Finished;
                (next, OpenAction::Done(Err(SandboxError::Io(e))))
            },
            Ok(c) => {
                next.sandbox = Sandbox { name: next.name.clone(), dir: c };
                next.phase = OpenPhase::Server;
                let names = vec!["server"];
                assert(names@.map_values(|n: &str| n@) =~= seq!["server"@]);
                let (w, a) = next.sandbox.validate_path(relative_path(&names), next.platform);
                (next, OpenAction::CreateSubdir(w, a))
            },
        }
    }

    /// Takes the outcome of a step that checks, removes or creates: any
    /// failure ends the opening with it. After the last step the sandbox is
    /// recorded as the manager's newest.
    pub fn on_step(self, manager: &mut SandboxManager, outcome: Result<(), std::io::Error>) -> (r: (SandboxOpening, OpenAction))
        requires
            self.phase is Tree || self.phase is Remove || self.phase is CreateRoot || self.phase is Server || self.phase is Client,
            (self.phase is Tree || self.phase is Remove) ==> !self.forgotten,
            (self.phase is Server || self.phase is Client) ==> self.forgotten,
            self.matches_manager(old(manager)),
        ensures
            r.1 matches OpenAction::Done(Err(_)) ==> r.0.forgotten == self.forgotten
                && final(manager).created.deep_view() == old(manager).created.deep_view(),
            self.same_opening(&r.0),
            final(manager).dir == old(manager).dir,
            !(r.1 matches OpenAction::Done(Ok(()))) ==> r.0.matches_manager(final(manager)),
            match outcome {
                Err(e) => r.0.phase is Finished && open_refuses(r.1, SandboxError::Io(e)),
                Ok(()) => match self.phase {
                    OpenPhase::Tree => r.0.phase is Remove && !r.0.forgotten
                        && (r.1 matches OpenAction::RemoveTree(p) && p.deep_view() == self.dir.deep_view()),
                    OpenPhase::Remove => r.0.phase is CreateRoot && r.0.forgotten
                        && (r.1 matches OpenAction::CreateDir(p) && p.deep_view() == self.dir.deep_view()),
                    OpenPhase::CreateRoot => r.0.phase is Resolve && r.0.forgotten
                        && (r.1 matches OpenAction::Canonicalize(p) && p.deep_view() == self.dir.deep_view()),
                    OpenPhase::Server => r.0.phase is Client && r.0.forgotten
                        && r.0.sandbox.deep_view() == self.sandbox.deep_view()
                        && creates_subdir(r.1, self.sandbox.dir.deep_view(), seq!["client"@], self.platform),
                    _ => {
                        &&& r.0.phase is Finished
                        &&& r.1 matches OpenAction::Done(Ok(()))
                        &&& final(manager).created.deep_view()
                            == self.initial@.filter(other_dir(self.dir.deep_view())).push(self.sandbox.deep_view())
                    },
                },
            },
    {
        let mut next = self;
        if let Err(e) = outcome {
            next.phase = OpenPhase::Finished;
            return (next, OpenAction::Done(Err(SandboxError::Io(e))));
        }
        match next.phase {
            OpenPhase::Tree => {
                next.phase = OpenPhase::Remove;
                let p = clone_path(&next.dir);
                (next, OpenAction::RemoveTree(p))
            },
            OpenPhase::Remove => {
                manager.forget(&next.dir);
                next.forgotten = true;
                next.phase = OpenPhase::CreateRoot;
                let p = clone_path(&next.dir);
                (next, OpenAction::CreateDir(p))
            },
            OpenPhase::CreateRoot => {
                if !next.forgotten {
                    manager.forget(&next.dir);
                    next.forgotten = true;
                }
                next.phase = OpenPhase::Resolve;
                let p = clone_path(&next.dir);
                (next, OpenAction::Canonicalize(p))
            },
            OpenPhase::Server => {
                next.phase = OpenPhase::Client;
                let names = vec!["client"];
                assert(names@.map_values(|n: &str| n@) =~= seq!["client"@]);
                let (w, a) = next.sandbox.validate_path(relative_path(&names), next.platform);
                (next, OpenAction::CreateSubdir(w, a))
            },
            _ => {
                let recorded = Sandbox { name: next.sandbox.name.clone(), dir: clone_path(&next.sandbox.dir) };
                manager.remember(recorded);
                next.phase = OpenPhase::Finished;
                (next, OpenAction::Done(Ok(())))
            },
        }
    }
}

impl SandboxManager {
    fn begin_opening(&self, name: String, dir: Vec<PathComponent>, mode: OpenMode, platform: Platform) -> (r: (SandboxOpening, OpenAction))
        ensures
            r.0.platform == platform,
            r.0.phase is Exists,
            !r.0.forgotten,
            r.0.name@ == name@,
            r.0.dir.deep_view() == dir.deep_view(),
            r.0.mode == mode,
            r.0.initial@ == self.created.deep_view(),
            r.0.matches_manager(self),
            r.1 matches OpenAction::CheckExists(p) && p.deep_view() == dir.deep_view(),
    {
        let p = clone_path(&dir);
        let placeholder = Sandbox { name: name.clone(), dir: Vec::new() };
        let opening = SandboxOpening {
            name,
            dir,
            mode,
            platform,
            phase: OpenPhase::Exists,
            sandbox: placeholder,
            initial: Ghost(self.created.deep_view()),
            forgotten: false,
        };
        (opening, OpenAction::CheckExists(p))
    }

    /// Begins creating a fresh sandbox called `name` in `dir` (the directory
    /// that `child_path` accepted), replacing its previous contents if any.
    pub fn create_sandbox(&self, name: String, dir: Vec<PathComponent>, platform: Platform) -> (r: (SandboxOpening, OpenAction))
        ensures
            r.0.platform == platform,
            r.0.phase is Exists,
            !r.0.forgotten,
            r.0.name@ == name@,
            r.0.dir.deep_view() == dir.deep_view(),
            r.0.mode is Fresh,
            r.0.initial@ == self.created.deep_view(),
            r.0.matches_manager(self),
            r.1 matches OpenAction::CheckExists(p) && p.deep_view() == dir.deep_view(),
    {
        self.begin_opening(name, dir, OpenMode::Fresh, platform)
    }

    /// Begins opening the sandbox called `name` in `dir` (the directory
    /// that `child_path` accepted), creating it if missing and keeping its
    /// contents otherwise.
    pub fn open_or_create_sandbox(&self, name: String, dir: Vec<PathComponent>, platform: Platform) -> (r: (SandboxOpening, OpenAction))
        ensures
            r.0.platform == platform,
            r.0.phase is Exists,
            !r.0.forgotten,
            r.0.name@ == name@,
            r.0.dir.deep_view() == dir.deep_view(),
            r.0.mode is Keep,
            r.0.initial@ == self.created.deep_view(),
            r.0.matches_manager(self),
            r.1 matches OpenAction::CheckExists(p) && p.deep_view() == dir.deep_view(),
    {
        self.begin_opening(name, dir, OpenMode::Keep, platform)
    }
}

/// The four directories that a run plan with id `run_id` touches, below
/// the sandbox: its inputs and its two run directories.
pub open spec fn run_dir(run_id: Seq<char>, side: Seq<char>) -> Seq<ComponentView> {
    relative_view(seq!["runs"@, run_id, side])
}

/// Runs are isolated: the run directories of two plans with different ids,
/// and the server and client directories of one plan, lie outside one
/// another, so no run writes into another's directories.
pub proof fn lemma_runs_are_disjoint(r1: Seq<char>, r2: Seq<char>, side1: Seq<char>, side2: Seq<char>)
    requires
        r1 != r2 || side1 != side2,
    ensures
        !is_prefix(run_dir(r1, side1), run_dir(r2, side2)),
        !is_prefix(run_dir(r2, side2), run_dir(r1, side1)),
{
    let a = run_dir(r1, side1);
    let b = run_dir(r2, side2);
    assert(a.len() == 3 && b.len() == 3);
    if is_prefix(a, b) {
        assert(b.take(3) =~= b);
        if r1 != r2 {
            assert(a[1] != b[1]);
        } else {
            assert(a[2] != b[2]);
        }
    }
    if is_prefix(b, a) {
        assert(a.take(3) =~= a);
        if r1 != r2 {
            assert(a[1] != b[1]);
        } else {
            assert(a[2] != b[2]);
        }
    }
}

/// The earliest record of a directory, as `get_sandbox` returns it.
pub open spec fn first_record_of(records: Seq<SandboxView>, dir: Seq<ComponentView>, k: int) -> bool {
    &&& 0 <= k < records.len()
    &&& records[k].1 == dir
    &&& forall|j: int| 0 <= j < k ==> records[j].1 != dir
}

/// After a sandbox has been opened or created in its canonical directory,
/// looking that directory up finds the sandbox just recorded, whatever the
/// records held before; a directory that no record names is not found.
pub proof fn lemma_lookup_finds_opened(initial: Seq<SandboxView>, s: SandboxView, dir: Seq<ComponentView>)
    ensures
        ({
            let after = initial.filter(other_dir(s.1)).push(s);
            &&& forall|k: int| #[trigger] first_record_of(after, s.1, k) ==> after[k] == s
            &&& first_record_of(after, s.1, after.len() - 1)
            &&& (forall|k: int| 0 <= k < after.len() ==> after[k].1 != dir) ==> !exists|k: int| first_record_of(after, dir, k)
        }),
{
    let after = initial.filter(other_dir(s.1)).push(s);
    lemma_reopened_sandbox_recorded_once(initial, s);
    assert forall|j: int| 0 <= j < after.len() - 1 implies after[j].1 != s.1 by {
        if after[j].1 == s.1 {
            assert(j == after.len() - 1);
        }
    }
}

/// Opening or creating a sandbox forgets every earlier record of its
/// directory before recording it, so afterwards exactly one record names
/// that directory: the newest.
pub proof fn lemma_reopened_sandbox_recorded_once(created: Seq<SandboxView>, s: SandboxView)
    ensures
        ({
            let after = created.filter(other_dir(s.1)).push(s);
            &&& after.last() == s
            &&& forall|k: int| 0 <= k < after.len() && #[trigger] after[k].1 == s.1 ==> k == after.len() - 1
        }),
{
    let kept = created.filter(other_dir(s.1));
    let after = kept.push(s);
    assert forall|k: int| 0 <= k < after.len() && #[trigger] after[k].1 == s.1 implies k == after.len() - 1 by {
        if k < kept.len() {
            created.lemma_filter_pred(other_dir(s.1), k);
            assert(after[k] == kept[k]);
        }
    }
}

} // verus!
