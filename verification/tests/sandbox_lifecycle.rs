use sync_runner::path::PathComponent;
use sync_runner::tree_check::{TreeAction, TreeCheck};
use sync_runner::tree_copy::{CopyAction, TreeCopy};
use sync_runner::platform::Platform;
use sync_runner::sandbox::{
    CreateOutcome, EntryMeta, MetadataOutcome, OpenAction, Sandbox, SandboxError, SandboxManager, SetupAction, WalkAction,
};
use std::io;

fn abs(parts: &[&str]) -> Vec<PathComponent> {
    let mut v = vec![PathComponent::RootDir];
    v.extend(parts.iter().map(|p| PathComponent::Normal(p.to_string())));
    v
}

fn names(p: &[PathComponent]) -> Vec<String> {
    p.iter()
        .map(|c| match c {
            PathComponent::Normal(s) => s.clone(),
            _ => "/".to_string(),
        })
        .collect()
}

fn dir_meta() -> EntryMeta {
    EntryMeta { is_symlink: false, attributes: 0, is_dir: true, is_file: false }
}

#[test]
fn setup_creates_test_and_sandbox_levels() {
    let (mut setup, mut action) = SandboxManager::new(abs(&["proj"]));
    let mut created = Vec::new();
    let manager = loop {
        action = match action {
            SetupAction::Canonicalize(p) => setup.on_canonical(Ok(p)),
            SetupAction::CreateDir(p) => {
                created.push(names(&p).join("/"));
                setup.on_create(CreateOutcome::AlreadyExists(io::Error::from(io::ErrorKind::AlreadyExists)))
            }
            SetupAction::Inspect(_) => setup.on_metadata(Ok(dir_meta())),
            SetupAction::Done(r) => break r.ok().unwrap(),
        };
    };
    assert_eq!(created, vec!["//proj/test", "//proj/test/sandbox"]);
    assert_eq!(names(&manager.dir).join("/"), "//proj/test/sandbox");
    assert!(manager.created.is_empty());
}

fn set_up(first: bool) -> SandboxManager {
    let (mut setup, mut action) = SandboxManager::new(abs(&["proj"]));
    loop {
        action = match action {
            SetupAction::Canonicalize(p) => setup.on_canonical(Ok(p)),
            SetupAction::CreateDir(_) => setup.on_create(if first {
                CreateOutcome::Created
            } else {
                CreateOutcome::AlreadyExists(io::Error::from(io::ErrorKind::AlreadyExists))
            }),
            SetupAction::Inspect(_) => setup.on_metadata(Ok(dir_meta())),
            SetupAction::Done(r) => return r.ok().unwrap(),
        };
    }
}

#[test]
fn second_setup_gives_the_same_root() {
    let first = set_up(true);
    let second = set_up(false);
    assert_eq!(names(&first.dir), names(&second.dir));
    assert_eq!(names(&second.dir).join("/"), "//proj/test/sandbox");
    assert!(first.created.is_empty() && second.created.is_empty());
}

#[test]
fn setup_refuses_a_linked_level() {
    let (mut setup, action) = SandboxManager::new(abs(&["proj"]));
    let SetupAction::Canonicalize(p) = action else { panic!() };
    setup.on_canonical(Ok(p));
    setup.on_create(CreateOutcome::Created);
    let link = EntryMeta { is_symlink: true, attributes: 0, is_dir: false, is_file: false };
    let action = setup.on_metadata(Ok(link));
    assert!(matches!(action, SetupAction::Done(Err(SandboxError::LinkRejected))));
}

/// Runs a sandbox walk against a tree where everything below the root is missing.
fn finish_walk(start: (sync_runner::sandbox::PathWalk, WalkAction)) -> Vec<PathComponent> {
    let (mut walk, mut action) = start;
    let mut first = true;
    loop {
        action = match action {
            WalkAction::Inspect(_) if first => {
                first = false;
                walk.on_metadata(MetadataOutcome::Found(dir_meta()))
            }
            WalkAction::Inspect(_) => walk.on_metadata(MetadataOutcome::Missing(io::Error::from(io::ErrorKind::NotFound))),
            WalkAction::Canonicalize(p) => walk.on_canonical(Ok(p)),
            WalkAction::Done(r) => return r.ok().unwrap(),
        }
    }
}

fn open(manager: &mut SandboxManager, fresh: bool, exists: bool) -> (Vec<String>, Result<(), SandboxError>) {
    let dir = abs(&["sb", "case"]);
    let (mut opening, mut action) = if fresh {
        manager.create_sandbox("case".to_string(), dir, Platform::Unix)
    } else {
        manager.open_or_create_sandbox("case".to_string(), dir, Platform::Unix)
    };
    let mut log = Vec::new();
    loop {
        (opening, action) = match action {
            OpenAction::CheckExists(_) => {
                log.push("exists?".to_string());
                opening.on_exists(manager, Ok(exists))
            }
            OpenAction::CheckTree(_) => {
                log.push("check tree".to_string());
                opening.on_step(manager, Ok(()))
            }
            OpenAction::RemoveTree(_) => {
                log.push("remove".to_string());
                opening.on_step(manager, Ok(()))
            }
            OpenAction::Inspect(_) => {
                log.push("inspect".to_string());
                opening.on_metadata(manager, Ok(dir_meta()))
            }
            OpenAction::CreateDir(_) => {
                log.push("create".to_string());
                opening.on_step(manager, Ok(()))
            }
            OpenAction::Canonicalize(p) => {
                log.push("canonicalize".to_string());
                opening.on_canonical(Ok(p))
            }
            OpenAction::CreateSubdir(w, a) => {
                let target = finish_walk((w, a));
                log.push(format!("mkdir {}", names(&target).last().unwrap()));
                opening.on_step(manager, Ok(()))
            }
            OpenAction::Done(r) => return (log, r),
        };
    }
}

#[test]
fn fresh_sandbox_replaces_an_existing_one() {
    let mut m = SandboxManager { dir: abs(&["sb"]), created: vec![Sandbox { name: "old".to_string(), dir: abs(&["sb", "case"]) }] };
    let (log, r) = open(&mut m, true, true);
    assert!(r.is_ok());
    assert_eq!(log, vec!["exists?", "check tree", "remove", "create", "canonicalize", "mkdir server", "mkdir client"]);
    assert_eq!(m.created.len(), 1);
    assert_eq!(m.created[0].name, "case");
}

#[test]
fn kept_sandbox_is_inspected_not_removed() {
    let mut m = SandboxManager { dir: abs(&["sb"]), created: Vec::new() };
    let (log, r) = open(&mut m, false, true);
    assert!(r.is_ok());
    assert_eq!(log, vec!["exists?", "inspect", "canonicalize", "mkdir server", "mkdir client"]);
    let (log, _) = open(&mut m, false, false);
    assert_eq!(log, vec!["exists?", "create", "canonicalize", "mkdir server", "mkdir client"]);
    assert_eq!(m.created.len(), 1);
}

#[test]
fn kept_sandbox_must_not_be_a_file() {
    let mut m = SandboxManager { dir: abs(&["sb"]), created: Vec::new() };
    let (opening, _) = m.open_or_create_sandbox("case".to_string(), abs(&["sb", "case"]), Platform::Unix);
    let (opening, _) = opening.on_exists(&mut m, Ok(true));
    let file = EntryMeta { is_symlink: false, attributes: 0, is_dir: false, is_file: true };
    let (_, action) = opening.on_metadata(&mut m, Ok(file));
    match action {
        OpenAction::Done(Err(SandboxError::NotADirectory(t))) => assert_eq!(t, "sandbox path is not a directory"),
        _ => panic!("expected a refusal"),
    }
}

#[test]
fn refused_openings_keep_the_records() {
    let earlier = || vec![Sandbox { name: "old".to_string(), dir: abs(&["sb", "case"]) }];
    let mut m = SandboxManager { dir: abs(&["sb"]), created: earlier() };
    let (opening, _) = m.open_or_create_sandbox("case".to_string(), abs(&["sb", "case"]), Platform::Unix);
    let (opening, _) = opening.on_exists(&mut m, Ok(true));
    let file = EntryMeta { is_symlink: false, attributes: 0, is_dir: false, is_file: true };
    let (_, action) = opening.on_metadata(&mut m, Ok(file));
    assert!(matches!(action, OpenAction::Done(Err(SandboxError::NotADirectory(_)))));
    assert_eq!(m.created.len(), 1);
    assert_eq!(m.created[0].name, "old");

    let mut m = SandboxManager { dir: abs(&["sb"]), created: earlier() };
    let (opening, _) = m.create_sandbox("case".to_string(), abs(&["sb", "case"]), Platform::Unix);
    let (opening, action) = opening.on_exists(&mut m, Ok(true));
    assert!(matches!(action, OpenAction::CheckTree(_)));
    let (_, action) = opening.on_step(&mut m, Err(io::Error::from(io::ErrorKind::PermissionDenied)));
    assert!(matches!(action, OpenAction::Done(Err(SandboxError::Io(_)))));
    assert_eq!(m.created.len(), 1);
    assert_eq!(m.created[0].name, "old");
}

#[test]
fn opened_sandbox_is_found_by_its_directory() {
    let mut m = SandboxManager { dir: abs(&["sb"]), created: vec![Sandbox { name: "old".to_string(), dir: abs(&["sb", "case"]) }] };
    let (_, r) = open(&mut m, false, false);
    assert!(r.is_ok());
    assert_eq!(m.get_sandbox(&abs(&["sb", "case"])).ok().unwrap().name, "case");
    assert!(matches!(m.get_sandbox(&abs(&["sb", "never"])), Err(SandboxError::NotRegistered)));
}

/// Runs a tree check over a pretend tree: `dirs` are the directories with
/// their entries, `links` the paths that are links; anything else is a file.
fn check_tree(dirs: &[(&str, &[&str])], links: &[&str]) -> (Vec<String>, Result<(), SandboxError>) {
    let (mut check, mut action) = TreeCheck::start(abs(&["t"]), Platform::Unix);
    let mut seen = Vec::new();
    loop {
        action = match action {
            TreeAction::Inspect(p) => {
                let path = names(&p).join("/");
                seen.push(path.clone());
                let is_dir = dirs.iter().any(|(d, _)| *d == path);
                let is_symlink = links.contains(&path.as_str());
                check.on_metadata(Ok(EntryMeta { is_symlink, attributes: 0, is_dir, is_file: !is_dir }))
            }
            TreeAction::List(p) => {
                let path = names(&p).join("/");
                let (_, entries) = dirs.iter().find(|(d, _)| *d == path).unwrap();
                check.on_listing(Ok(entries.iter().map(|e| e.to_string()).collect()))
            }
            TreeAction::Done(r) => return (seen, r),
        };
    }
}

#[test]
fn tree_check_visits_depth_first_and_refuses_links() {
    let tree: &[(&str, &[&str])] = &[("//t", &["a", "b", "d"]), ("//t/b", &["c"])];
    let (seen, r) = check_tree(tree, &[]);
    assert!(r.is_ok());
    assert_eq!(seen, vec!["//t", "//t/a", "//t/b", "//t/b/c", "//t/d"]);
    let (seen, r) = check_tree(tree, &["//t/b/c"]);
    assert!(matches!(r, Err(SandboxError::LinkRejected)));
    assert_eq!(seen.last().unwrap(), "//t/b/c");
    let (seen, r) = check_tree(&[], &["//t"]);
    assert!(matches!(r, Err(SandboxError::LinkRejected)));
    assert_eq!(seen, vec!["//t"]);
}

#[test]
fn tree_check_reports_a_listing_failure() {
    let (mut check, _) = TreeCheck::start(abs(&["t"]), Platform::Unix);
    let action = check.on_metadata(Ok(dir_meta()));
    assert!(matches!(action, TreeAction::List(_)));
    let action = check.on_listing(Err(io::Error::from(io::ErrorKind::PermissionDenied)));
    assert!(matches!(action, TreeAction::Done(Err(SandboxError::Io(_)))));
}

/// Runs a tree copy from `//s` to `//d` over a pretend tree, logging the actions.
fn copy_tree(dirs: &[(&str, &[&str])], links: &[&str]) -> (Vec<String>, Result<(), SandboxError>) {
    let (mut copy, mut action) = TreeCopy::start(abs(&["s"]), abs(&["d"]), Platform::Unix);
    let mut log = Vec::new();
    loop {
        action = match action {
            CopyAction::CheckTree(p) => {
                log.push(format!("check {}", names(&p).join("/")));
                copy.on_step(Ok(()))
            }
            CopyAction::CreateDir(p) => {
                log.push(format!("mkdir {}", names(&p).join("/")));
                copy.on_step(Ok(()))
            }
            CopyAction::List(p) => {
                let path = names(&p).join("/");
                log.push(format!("list {path}"));
                let (_, entries) = dirs.iter().find(|(d, _)| *d == path).unwrap();
                copy.on_listing(Ok(entries.iter().map(|e| e.to_string()).collect()))
            }
            CopyAction::Inspect(p) => {
                let path = names(&p).join("/");
                let is_dir = dirs.iter().any(|(d, _)| *d == path);
                let is_symlink = links.contains(&path.as_str());
                copy.on_metadata(Ok(EntryMeta { is_symlink, attributes: 0, is_dir, is_file: !is_dir }))
            }
            CopyAction::CopyFile(from, to) => {
                log.push(format!("copy {} {}", names(&from).join("/"), names(&to).join("/")));
                copy.on_step(Ok(()))
            }
            CopyAction::Done(r) => return (log, r),
        };
    }
}

#[test]
fn tree_copy_mirrors_the_source() {
    let tree: &[(&str, &[&str])] = &[("//s", &["a", "b"]), ("//s/b", &["c"])];
    let (log, r) = copy_tree(tree, &[]);
    assert!(r.is_ok());
    assert_eq!(
        log,
        vec![
            "check //s", "mkdir //d", "list //s", "copy //s/a //d/a", "check //s/b", "mkdir //d/b", "list //s/b",
            "copy //s/b/c //d/b/c",
        ]
    );
    let (log, r) = copy_tree(tree, &["//s/b/c"]);
    assert!(matches!(r, Err(SandboxError::LinkRejected)));
    assert!(!log.iter().any(|l| l.contains("//s/b/c")));
}

#[test]
fn tree_machines_refuse_names_that_leave_the_tree() {
    let (mut check, _) = TreeCheck::start(abs(&["t"]), Platform::Unix);
    check.on_metadata(Ok(dir_meta()));
    let action = check.on_listing(Ok(vec!["ok".to_string(), "..".to_string()]));
    assert!(matches!(action, TreeAction::Done(Err(SandboxError::AbnormalComponent))));

    let (mut copy, _) = TreeCopy::start(abs(&["s"]), abs(&["d"]), Platform::Unix);
    copy.on_step(Ok(()));
    copy.on_step(Ok(()));
    let action = copy.on_listing(Ok(vec!["../../evil".to_string()]));
    assert!(matches!(action, CopyAction::Done(Err(SandboxError::AbnormalComponent))));
}
