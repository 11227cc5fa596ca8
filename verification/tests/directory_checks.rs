use sync_runner::listing::{ListingAction, TreeListing};
use sync_runner::entries::{insert_entry, missing_entries, symmetric_difference};
use sync_runner::order::{compare_entries, compare_names, Order};
use sync_runner::platform::Platform;
use sync_runner::verification::{
    format_paths, is_excluded_file, verify_file, verify_files, verify_server_contains_client_files,
    DirEntries, DirSnapshot, VerificationError,
};

fn e(parts: &[&str]) -> Vec<String> {
    parts.iter().map(|p| p.to_string()).collect()
}

fn snap(display: &str, entries: Option<Vec<Vec<String>>>) -> DirSnapshot {
    DirSnapshot { display: display.to_string(), listing: entries }
}

#[test]
fn runner_files_are_excluded() {
    for name in ["server.exe", "client.exe", "server.log", "client.log"] {
        assert!(is_excluded_file(name));
    }
    assert!(!is_excluded_file("server.txt"));
    assert!(!is_excluded_file("server.exe.bak"));
    assert!(!is_excluded_file(""));
}

#[test]
fn names_compare_by_code_point() {
    assert_eq!(compare_names("a", "b"), Order::Less);
    assert_eq!(compare_names("ab", "a"), Order::Greater);
    assert_eq!(compare_names("", ""), Order::Equal);
    assert_eq!(compare_names("Z", "a"), Order::Less);
    assert_eq!(compare_names("é", "z"), Order::Greater);
    assert_eq!(compare_entries(&e(&["a", "z"]), &e(&["ab"])), Order::Less);
    assert_eq!(compare_entries(&e(&["a"]), &e(&["a", "b"])), Order::Less);
}

#[test]
fn sorted_insertion_keeps_order_and_drops_duplicates() {
    let mut v: Vec<Vec<String>> = Vec::new();
    for p in [e(&["b"]), e(&["a", "x"]), e(&["a"]), e(&["b"]), e(&["c"])] {
        insert_entry(&mut v, p);
    }
    assert_eq!(v, vec![e(&["a"]), e(&["a", "x"]), e(&["b"]), e(&["c"])]);
}

#[test]
fn missing_and_differing_entries() {
    let server = vec![e(&["a"]), e(&["extra"])];
    let client = vec![e(&["z"]), e(&["a"]), e(&["d", "f"])];
    assert_eq!(missing_entries(&server, &client), vec![e(&["d", "f"]), e(&["z"])]);
    assert_eq!(symmetric_difference(&server, &client), vec![e(&["d", "f"]), e(&["extra"]), e(&["z"])]);
}

#[test]
fn containment_allows_extra_server_entries() {
    let server = snap("srv", Some(vec![e(&["a"]), e(&["extra"])]));
    let client = snap("cli", Some(vec![e(&["a"])]));
    assert!(verify_server_contains_client_files(&server, &client, Platform::Unix).is_ok());
}

#[test]
fn containment_lists_missing_entries_sorted() {
    let server = snap("srv", Some(vec![e(&["a"])]));
    let client = snap("cli", Some(vec![e(&["z"]), e(&["a"]), e(&["d", "f"])]));
    match verify_server_contains_client_files(&server, &client, Platform::Unix) {
        Err(VerificationError::MissingFiles(m)) => assert_eq!(m, "Server is missing client files: d/f, z"),
        _ => panic!("expected missing files"),
    }
    match verify_server_contains_client_files(&server, &client, Platform::Windows) {
        Err(VerificationError::MissingFiles(m)) => assert_eq!(m, "Server is missing client files: d\\f, z"),
        _ => panic!("expected missing files"),
    }
}

#[test]
fn containment_needs_directories() {
    match verify_server_contains_client_files(&snap("srv", None), &snap("cli", None), Platform::Unix) {
        Err(VerificationError::NotADirectory(m)) => assert_eq!(m, "srv is not a directory"),
        _ => panic!("expected not a directory"),
    }
    match verify_server_contains_client_files(&snap("srv", Some(vec![])), &snap("cli", None), Platform::Unix) {
        Err(VerificationError::NotADirectory(m)) => assert_eq!(m, "cli is not a directory"),
        _ => panic!("expected not a directory"),
    }
}

#[test]
fn same_entries_check_is_symmetric() {
    let a = snap("a", Some(vec![e(&["x"]), e(&["y"])]));
    let b = snap("b", Some(vec![e(&["y"]), e(&["x"])]));
    assert!(verify_files(&a, &b, Platform::Unix).is_ok());
    let c = snap("c", Some(vec![e(&["x"]), e(&["w"])]));
    match verify_files(&a, &c, Platform::Unix) {
        Err(VerificationError::MissingFiles(m)) => assert_eq!(m, "Missing files: w, y"),
        _ => panic!("expected missing files"),
    }
    match verify_files(&c, &a, Platform::Unix) {
        Err(VerificationError::MissingFiles(m)) => assert_eq!(m, "Missing files: w, y"),
        _ => panic!("expected missing files"),
    }
    match verify_files(&snap("s", None), &a, Platform::Unix) {
        Err(VerificationError::NotADirectory(m)) => assert_eq!(m, "s or a is not a directory"),
        _ => panic!("expected not a directory"),
    }
}

#[test]
fn file_contents_compared_bytewise() {
    assert!(verify_file(&e(&["f"]), &[1, 2, 3], &[1, 2, 3], Platform::Unix).is_ok());
    match verify_file(&e(&["d", "f"]), &[1, 2, 3], &[1, 2, 4], Platform::Unix) {
        Err(VerificationError::ContentsDiffer(m)) => assert_eq!(m, "File contents differ: d/f"),
        _ => panic!("expected a difference"),
    }
    assert!(verify_file(&e(&["f"]), &[], &[0], Platform::Unix).is_err());
}

#[test]
fn collected_entries_skip_excluded_names() {
    let mut found = DirEntries::new();
    assert!(found.collect_dir_entry(&e(&[]), "server.exe".to_string(), false).is_none());
    assert_eq!(found.collect_dir_entry(&e(&[]), "sub".to_string(), true), Some(e(&["sub"])));
    assert!(found.collect_dir_entry(&e(&["sub"]), "a.txt".to_string(), false).is_none());
    assert!(found.collect_dir_entry(&e(&["sub"]), "client.log".to_string(), true).is_none());
    assert_eq!(found.entries, vec![e(&["sub"]), e(&["sub", "a.txt"])]);
}

#[test]
fn paths_are_listed_with_commas() {
    assert_eq!(format_paths(&vec![e(&["a", "b"]), e(&["c"])], Platform::Unix), "a/b, c");
    assert_eq!(format_paths(&vec![], Platform::Unix), "");
}

/// Walks a pretend tree: each directory, given by its relative path joined
/// with `/`, lists its names with whether each is a directory.
fn walk_tree(dirs: &[(&str, &[(&str, bool)])]) -> Vec<String> {
    let (mut walk, mut action) = TreeListing::start(Platform::Unix);
    loop {
        action = match action {
            ListingAction::List(rel) => {
                let key = rel.join("/");
                let (_, items) = dirs.iter().find(|(d, _)| *d == key).unwrap();
                walk.on_listing(Ok(items.iter().map(|(n, d)| (n.to_string(), *d)).collect()))
            }
            ListingAction::Done(r) => {
                assert!(r.is_ok());
                let mut found: Vec<String> = walk.found.entries.iter().map(|e| e.join("/")).collect();
                found.sort();
                return found;
            }
        };
    }
}

#[test]
fn tree_listing_records_every_entry_and_enters_directories() {
    let tree: &[(&str, &[(&str, bool)])] = &[
        ("", &[("a.txt", false), ("sub", true), ("server.exe", false), ("client.log", true)]),
        ("sub", &[("b.txt", false), ("deeper", true)]),
        ("sub/deeper", &[("c.txt", false)]),
    ];
    assert_eq!(walk_tree(tree), vec!["a.txt", "sub", "sub/b.txt", "sub/deeper", "sub/deeper/c.txt"]);
}

#[test]
fn tree_listing_stops_on_a_failed_listing() {
    let (mut walk, _) = TreeListing::start(Platform::Unix);
    let action = walk.on_listing(Err(std::io::Error::from(std::io::ErrorKind::PermissionDenied)));
    assert!(matches!(action, ListingAction::Done(Err(_))));
}

#[test]
fn tree_listing_refuses_names_that_leave_the_tree() {
    let (mut walk, _) = TreeListing::start(Platform::Unix);
    let action = walk.on_listing(Ok(vec![("..".to_string(), true)]));
    assert!(matches!(action, ListingAction::Done(Err(sync_runner::sandbox::SandboxError::AbnormalComponent))));
}
