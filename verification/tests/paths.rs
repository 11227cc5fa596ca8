use sync_runner::path::{PathComponent, PathModel};
use sync_runner::platform::Platform;
use sync_runner::sandbox::{
    check_distinct, check_existing_sandbox, check_rename_destination, copy_entry_kind, reject_link,
    CopyKind, EntryMeta, MetadataOutcome, PathWalk, RunStep, Sandbox, SandboxError, SandboxManager, WalkAction,
};
use std::collections::HashMap;

fn normal(s: &str) -> PathComponent {
    PathComponent::Normal(s.to_string())
}

fn abs(parts: &[&str]) -> Vec<PathComponent> {
    let mut v = vec![PathComponent::RootDir];
    v.extend(parts.iter().map(|p| normal(p)));
    v
}

fn rel(parts: &[&str]) -> PathModel {
    PathModel { components: parts.iter().map(|p| normal(p)).collect(), absolute: false }
}

fn key(p: &[PathComponent]) -> String {
    p.iter()
        .map(|c| match c {
            PathComponent::RootDir => "/".to_string(),
            PathComponent::Normal(s) => s.clone(),
            PathComponent::Prefix(s) => s.clone(),
            PathComponent::CurDir => ".".to_string(),
            PathComponent::ParentDir => "..".to_string(),
        })
        .collect::<Vec<_>>()
        .join("|")
}

fn dir_meta() -> EntryMeta {
    EntryMeta { is_symlink: false, attributes: 0, is_dir: true, is_file: false }
}

fn link_meta() -> EntryMeta {
    EntryMeta { is_symlink: true, attributes: 0, is_dir: false, is_file: false }
}

/// A pretend file system: what exists, and where each existing path
/// canonicalizes to.
struct Fs {
    meta: HashMap<String, EntryMeta>,
    canon: HashMap<String, Vec<PathComponent>>,
}

impl Fs {
    fn new() -> Fs {
        Fs { meta: HashMap::new(), canon: HashMap::new() }
    }
    fn dir(&mut self, p: Vec<PathComponent>) {
        self.meta.insert(key(&p), dir_meta());
        self.canon.insert(key(&p), p);
    }
    fn link(&mut self, p: Vec<PathComponent>, to: Vec<PathComponent>) {
        self.meta.insert(key(&p), link_meta());
        self.canon.insert(key(&p), to);
    }
    fn redirect(&mut self, p: Vec<PathComponent>, to: Vec<PathComponent>) {
        self.meta.insert(key(&p), dir_meta());
        self.canon.insert(key(&p), to);
    }
    fn run(&self, start: (PathWalk, WalkAction)) -> Result<Vec<PathComponent>, SandboxError> {
        let (mut walk, mut action) = start;
        loop {
            action = match action {
                WalkAction::Inspect(p) => {
                    let outcome = match self.meta.get(&key(&p)) {
                        Some(m) => MetadataOutcome::Found(EntryMeta { ..*m }),
                        None => MetadataOutcome::Missing(std::io::Error::from(std::io::ErrorKind::NotFound)),
                    };
                    walk.on_metadata(outcome)
                }
                WalkAction::Canonicalize(p) => {
                    let c = self.canon.get(&key(&p)).map(|c| c.iter().map(clone_c).collect());
                    walk.on_canonical(c.ok_or_else(|| std::io::Error::from(std::io::ErrorKind::NotFound)))
                }
                WalkAction::Done(r) => return r,
            }
        }
    }
}

fn clone_c(c: &PathComponent) -> PathComponent {
    match c {
        PathComponent::RootDir => PathComponent::RootDir,
        PathComponent::CurDir => PathComponent::CurDir,
        PathComponent::ParentDir => PathComponent::ParentDir,
        PathComponent::Normal(s) => PathComponent::Normal(s.clone()),
        PathComponent::Prefix(s) => PathComponent::Prefix(s.clone()),
    }
}

fn sandbox_fs() -> (Fs, Sandbox) {
    let mut fs = Fs::new();
    fs.dir(abs(&["sb"]));
    fs.dir(abs(&["sb", "client"]));
    (fs, Sandbox { name: "sb".to_string(), dir: abs(&["sb"]) })
}

#[test]
fn relative_path_resolves_below_root() {
    let (fs, sb) = sandbox_fs();
    let r = fs.run(sb.validate_path(rel(&["client", "demo.txt"]), Platform::Unix)).ok().unwrap();
    assert_eq!(key(&r), key(&abs(&["sb", "client", "demo.txt"])));
}

#[test]
fn absolute_path_below_root_is_accepted() {
    let (fs, sb) = sandbox_fs();
    let path = PathModel { components: abs(&["sb", "client"]), absolute: true };
    let r = fs.run(sb.validate_path(path, Platform::Unix)).ok().unwrap();
    assert_eq!(key(&r), key(&abs(&["sb", "client"])));
}

#[test]
fn absolute_path_elsewhere_is_outside() {
    let (fs, sb) = sandbox_fs();
    let path = PathModel { components: abs(&["etc", "passwd"]), absolute: true };
    assert!(matches!(fs.run(sb.validate_path(path, Platform::Unix)), Err(SandboxError::OutsideSandbox)));
}

#[test]
fn parent_component_is_refused() {
    let (fs, sb) = sandbox_fs();
    let path = PathModel { components: vec![normal("client"), PathComponent::ParentDir, normal("x")], absolute: false };
    assert!(matches!(fs.run(sb.validate_path(path, Platform::Unix)), Err(SandboxError::AbnormalComponent)));
}

#[test]
fn root_itself_is_refused() {
    let (fs, sb) = sandbox_fs();
    assert!(matches!(fs.run(sb.validate_path(rel(&[]), Platform::Unix)), Err(SandboxError::RootTarget)));
}

#[test]
fn link_on_the_way_is_refused() {
    let (mut fs, sb) = sandbox_fs();
    fs.link(abs(&["sb", "escape"]), abs(&["etc"]));
    assert!(matches!(fs.run(sb.validate_path(rel(&["escape", "passwd"]), Platform::Unix)), Err(SandboxError::LinkRejected)));
}

#[test]
fn resolution_outside_is_refused() {
    let (mut fs, sb) = sandbox_fs();
    fs.redirect(abs(&["sb", "mount"]), abs(&["elsewhere"]));
    assert!(matches!(fs.run(sb.validate_path(rel(&["mount"]), Platform::Unix)), Err(SandboxError::ResolvedOutside)));
}

#[test]
fn moved_root_is_refused() {
    let (mut fs, sb) = sandbox_fs();
    fs.redirect(abs(&["sb"]), abs(&["other"]));
    assert!(matches!(fs.run(sb.validate_path(rel(&["client"]), Platform::Unix)), Err(SandboxError::RootMoved)));
}

#[test]
fn linked_root_is_refused() {
    let (mut fs, sb) = sandbox_fs();
    fs.link(abs(&["sb"]), abs(&["sb"]));
    assert!(matches!(fs.run(sb.validate_path(rel(&["client"]), Platform::Unix)), Err(SandboxError::LinkRejected)));
}

#[test]
fn missing_root_reports_the_error() {
    let fs = Fs::new();
    let sb = Sandbox { name: "sb".to_string(), dir: abs(&["sb"]) };
    assert!(matches!(fs.run(sb.validate_path(rel(&["client"]), Platform::Unix)), Err(SandboxError::Io(_))));
}

#[test]
fn ambiguous_names_refused_on_windows_only() {
    let (fs, sb) = sandbox_fs();
    for name in ["a:b", "trailing.", "trailing "] {
        assert!(matches!(fs.run(sb.validate_path(rel(&[name]), Platform::Windows)), Err(SandboxError::AmbiguousComponent)));
        assert!(fs.run(sb.validate_path(rel(&[name]), Platform::Unix)).is_ok());
    }
}

#[test]
fn resolve_path_refuses_absolute() {
    let (_fs, sb) = sandbox_fs();
    let path = PathModel { components: abs(&["sb", "client"]), absolute: true };
    assert!(matches!(sb.resolve_path(path, Platform::Unix), Err(SandboxError::AbsolutePath)));
}

#[test]
fn child_path_needs_one_normal_name() {
    let m = SandboxManager { dir: abs(&["sb"]), created: Vec::new() };
    assert!(m.child_path(rel(&["default"]), Platform::Unix).is_ok());
    assert!(matches!(m.child_path(rel(&["a", "b"]), Platform::Unix), Err(SandboxError::InvalidName)));
    assert!(matches!(m.child_path(rel(&[]), Platform::Unix), Err(SandboxError::InvalidName)));
    let up = PathModel { components: vec![PathComponent::ParentDir], absolute: false };
    assert!(matches!(m.child_path(up, Platform::Unix), Err(SandboxError::InvalidName)));
}

#[test]
fn reparse_points_count_as_links() {
    let junction = EntryMeta { is_symlink: false, attributes: 0x410, is_dir: true, is_file: false };
    assert!(matches!(reject_link(&junction), Err(SandboxError::LinkRejected)));
    let plain = EntryMeta { is_symlink: false, attributes: 0x10, is_dir: true, is_file: false };
    assert!(reject_link(&plain).is_ok());
}

#[test]
fn copy_decisions() {
    assert!(matches!(copy_entry_kind(&dir_meta()), Ok(CopyKind::Directory)));
    let file = EntryMeta { is_symlink: false, attributes: 0, is_dir: false, is_file: true };
    assert!(matches!(copy_entry_kind(&file), Ok(CopyKind::File)));
    assert!(matches!(copy_entry_kind(&link_meta()), Err(SandboxError::LinkRejected)));
    let other = EntryMeta { is_symlink: false, attributes: 0, is_dir: false, is_file: false };
    assert!(matches!(copy_entry_kind(&other), Err(SandboxError::UnsupportedEntry)));
}

#[test]
fn identical_copy_and_occupied_rename_are_refused() {
    assert!(matches!(check_distinct(&abs(&["sb", "a"]), &abs(&["sb", "a"])), Err(SandboxError::IdenticalPaths)));
    assert!(check_distinct(&abs(&["sb", "a"]), &abs(&["sb", "b"])).is_ok());
    assert!(matches!(check_rename_destination(true), Err(SandboxError::DestinationExists)));
    assert!(check_rename_destination(false).is_ok());
}

#[test]
fn existing_sandbox_must_be_a_directory() {
    let file = EntryMeta { is_symlink: false, attributes: 0, is_dir: false, is_file: true };
    match check_existing_sandbox(&file) {
        Err(SandboxError::NotADirectory(m)) => assert_eq!(m, "sandbox path is not a directory"),
        _ => panic!("expected a refusal"),
    }
    assert!(check_existing_sandbox(&dir_meta()).is_ok());
}

#[test]
fn run_plan_names_run_directories() {
    let (_fs, sb) = sandbox_fs();
    let plan = sb.create_run("r1", Platform::Unix).ok().unwrap();
    assert_eq!(plan.steps.len(), 4);
    assert!(matches!(&plan.steps[0], RunStep::CreateDir(p) if key(&p.components) == "runs|r1|server"));
    assert_eq!(key(&plan.server_run.components), "runs|r1|server");
    assert_eq!(key(&plan.client_run.components), "runs|r1|client");
}

#[test]
fn relative_entries_strip_the_root() {
    let (_fs, sb) = sandbox_fs();
    let names = sb.relative_entry(&abs(&["sb", "runs", "x"])).ok().unwrap();
    assert_eq!(names, vec!["runs".to_string(), "x".to_string()]);
    assert!(matches!(sb.relative_entry(&abs(&["other", "x"])), Err(SandboxError::EntryOutside)));
}

#[test]
fn registry_keeps_one_record_per_directory() {
    let mut m = SandboxManager { dir: abs(&["sb"]), created: Vec::new() };
    m.remember(Sandbox { name: "a".to_string(), dir: abs(&["sb", "a"]) });
    m.remember(Sandbox { name: "b".to_string(), dir: abs(&["sb", "b"]) });
    m.forget(&abs(&["sb", "a"]));
    let s = m.remember(Sandbox { name: "a2".to_string(), dir: abs(&["sb", "a"]) });
    assert_eq!(s.name, "a2");
    assert_eq!(m.created.len(), 2);
    assert_eq!(m.get_sandbox(&abs(&["sb", "a"])).ok().unwrap().name, "a2");
    assert_eq!(m.created[0].name, "b");
    assert!(matches!(m.get_sandbox(&abs(&["sb", "c"])), Err(SandboxError::NotRegistered)));
}

fn same_outcome(a: &Result<Vec<PathComponent>, SandboxError>, b: &Result<Vec<PathComponent>, SandboxError>) -> bool {
    match (a, b) {
        (Ok(x), Ok(y)) => key(x) == key(y),
        (Err(SandboxError::LinkRejected), Err(SandboxError::LinkRejected)) => true,
        (Err(SandboxError::ResolvedOutside), Err(SandboxError::ResolvedOutside)) => true,
        (Err(SandboxError::AbnormalComponent), Err(SandboxError::AbnormalComponent)) => true,
        (Err(SandboxError::RootTarget), Err(SandboxError::RootTarget)) => true,
        _ => false,
    }
}

#[test]
fn absolute_descendant_walks_as_its_relative_rest() {
    let (mut fs, sb) = sandbox_fs();
    fs.redirect(abs(&["sb", "alias"]), abs(&["sb", "client"]));
    fs.link(abs(&["sb", "escape"]), abs(&["etc"]));
    fs.redirect(abs(&["sb", "mount"]), abs(&["elsewhere"]));
    for parts in [vec!["client", "demo.txt"], vec!["alias", "f"], vec!["escape", "x"], vec!["mount"], vec![]] {
        let relative = fs.run(sb.validate_path(rel(&parts), Platform::Unix));
        let mut full = vec!["sb"];
        full.extend(parts.iter().copied());
        let absolute = fs.run(sb.validate_path(PathModel { components: abs(&full), absolute: true }, Platform::Unix));
        assert!(same_outcome(&relative, &absolute), "{:?}", parts);
    }
}

#[test]
fn accepted_path_validates_to_itself() {
    let (mut fs, sb) = sandbox_fs();
    fs.redirect(abs(&["sb", "alias"]), abs(&["sb", "client"]));
    for parts in [vec!["client", "demo.txt"], vec!["alias", "f"], vec!["client"]] {
        let first = fs.run(sb.validate_path(rel(&parts), Platform::Unix)).ok().unwrap();
        let again = PathModel { components: first.iter().map(clone_c).collect(), absolute: true };
        let second = fs.run(sb.validate_path(again, Platform::Unix)).ok().unwrap();
        assert_eq!(key(&first), key(&second));
        let absolute_again = PathModel { components: first.iter().map(clone_c).collect(), absolute: true };
        assert!(matches!(sb.resolve_path(absolute_again, Platform::Unix), Err(SandboxError::AbsolutePath)));
    }
    let first = fs.run(sb.validate_path(rel(&["alias", "f"]), Platform::Unix)).ok().unwrap();
    assert_eq!(key(&first), key(&abs(&["sb", "client", "f"])));
}

#[test]
fn runs_with_different_ids_do_not_overlap() {
    let (_fs, sb) = sandbox_fs();
    let one = sb.create_run("r1", Platform::Unix).ok().unwrap();
    let two = sb.create_run("r2", Platform::Unix).ok().unwrap();
    let dirs = [
        key(&one.server_run.components),
        key(&one.client_run.components),
        key(&two.server_run.components),
        key(&two.client_run.components),
    ];
    for (i, a) in dirs.iter().enumerate() {
        for (j, b) in dirs.iter().enumerate() {
            if i != j {
                assert!(!b.starts_with(&format!("{}|", a)) && a != b);
            }
        }
    }
}

#[test]
fn run_ids_must_be_one_ordinary_name() {
    let (_fs, sb) = sandbox_fs();
    for id in ["../../evil", "..", ".", "", "/tmp/x", "a/b"] {
        assert!(matches!(sb.create_run(id, Platform::Unix), Err(SandboxError::AbnormalComponent)), "{id:?}");
    }
    assert!(matches!(sb.create_run("a\\b", Platform::Windows), Err(SandboxError::AbnormalComponent)));
    assert!(sb.create_run("a\\b", Platform::Unix).is_ok());
    assert!(sb.create_run("1700000000-42-0", Platform::Windows).is_ok());
}

#[test]
fn names_hiding_parents_or_separators_are_refused() {
    let (fs, sb) = sandbox_fs();
    for name in ["..", ".", "", "../../evil", "/tmp/x", "a/b"] {
        let path = PathModel { components: vec![normal("client"), normal(name)], absolute: false };
        assert!(matches!(fs.run(sb.validate_path(path, Platform::Unix)), Err(SandboxError::AbnormalComponent)), "{name:?}");
    }
    let path = PathModel { components: vec![normal("a\\b")], absolute: false };
    assert!(matches!(fs.run(sb.validate_path(path, Platform::Windows)), Err(SandboxError::AbnormalComponent)));
}

#[test]
fn canonical_forms_with_odd_names_are_refused() {
    let (mut fs, sb) = sandbox_fs();
    fs.redirect(abs(&["sb", "odd"]), abs(&["sb", "..", "x"]));
    assert!(matches!(fs.run(sb.validate_path(rel(&["odd"]), Platform::Unix)), Err(SandboxError::ResolvedOutside)));
}

#[test]
fn copy_contents_and_existence_resolve_inside_the_sandbox() {
    let (fs, sb) = sandbox_fs();
    let (from, to) = sb.copy_contents(rel(&["server"]), rel(&["runs", "r", "server"]), Platform::Unix).ok().unwrap();
    assert_eq!(key(&fs.run(from).ok().unwrap()), key(&abs(&["sb", "server"])));
    assert_eq!(key(&fs.run(to).ok().unwrap()), key(&abs(&["sb", "runs", "r", "server"])));
    let outside = PathModel { components: abs(&["etc"]), absolute: true };
    assert!(matches!(sb.copy_contents(rel(&["server"]), outside, Platform::Unix), Err(SandboxError::AbsolutePath)));
    assert_eq!(key(&fs.run(sb.check_exists(rel(&["client"]), Platform::Unix).ok().unwrap()).ok().unwrap()), key(&abs(&["sb", "client"])));
    let up = PathModel { components: vec![PathComponent::ParentDir], absolute: false };
    assert!(matches!(fs.run(sb.check_exists(up, Platform::Unix).ok().unwrap()), Err(SandboxError::AbnormalComponent)));
}
