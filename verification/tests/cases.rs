use sync_runner::case::binary_file::BinaryFileCase;
use sync_runner::case::comprehensive::ComprehensiveCase;
use sync_runner::case::default::DefaultCase;
use sync_runner::case::directory_transfer::DirectoryTransferCase;
use sync_runner::case::empty_file::EmptyFileCase;
use sync_runner::case::just_demo::JustDemo;
use sync_runner::case::long_filename::LongFilenameCase;
use sync_runner::case::multiple_files::MultipleFilesCase;
use sync_runner::case::{Check, FixtureStep, TestCase};
use sync_runner::sandbox::Sandbox;

fn sandbox() -> Sandbox {
    Sandbox { name: "case".to_string(), dir: Vec::new() }
}

fn writes(steps: &[FixtureStep]) -> Vec<(String, Vec<u8>)> {
    steps
        .iter()
        .filter_map(|s| match s {
            FixtureStep::WriteFile(p, d) => Some((p.join("/"), d.clone())),
            _ => None,
        })
        .collect()
}

fn dirs(steps: &[FixtureStep]) -> Vec<String> {
    steps
        .iter()
        .filter_map(|s| match s {
            FixtureStep::CreateDir(p) => Some(p.join("/")),
            _ => None,
        })
        .collect()
}

fn same_files(checks: &[Check]) -> Vec<String> {
    checks
        .iter()
        .filter_map(|c| match c {
            Check::SameFile(p) => Some(p.join("/")),
            _ => None,
        })
        .collect()
}

#[test]
fn large_binary_pattern() {
    let data = BinaryFileCase::large_binary_data();
    assert_eq!(data.len(), 1024 * 1024);
    assert_eq!(data[0], 0);
    assert_eq!(data[250], 250);
    assert_eq!(data[251], 0);
    assert_eq!(data[1048575], (1048575 % 251) as u8);
}

#[test]
fn patterned_data_formula() {
    let data = ComprehensiveCase::patterned_data(600);
    assert_eq!(data.len(), 600);
    assert_eq!(data[1], 31);
    assert_eq!(data[9], 23);
    assert_eq!(data[251], ((251 * 31 + 1) % 256) as u8);
    assert_eq!(data[502], ((502 * 31 + 2) % 256) as u8);
    assert!(ComprehensiveCase::patterned_data(0).is_empty());
}

#[test]
fn long_names() {
    let long = LongFilenameCase::long_file_name();
    assert_eq!(long.len(), 244);
    assert!(long.starts_with(&"a".repeat(240)) && long.ends_with(".txt"));
    let near = LongFilenameCase::near_limit_file_name();
    assert_eq!(near, format!("{}.txt", "b".repeat(250)));
}

#[test]
fn default_case_makes_both_directories() {
    let sb = sandbox();
    let case = DefaultCase::new(&sb);
    assert_eq!(dirs(&case.prepare()), vec!["server", "client"]);
    assert!(case.verify().is_empty());
    assert!(case.clean().is_empty());
}

#[test]
fn just_demo_writes_and_removes_demo() {
    let sb = sandbox();
    let case = JustDemo::new(&sb);
    assert_eq!(writes(&case.prepare()), vec![("client/demo.txt".to_string(), b"hello world".to_vec())]);
    match &case.clean()[..] {
        [FixtureStep::RemoveFile(p)] => assert_eq!(p.join("/"), "client/demo.txt"),
        _ => panic!("expected one removal"),
    }
}

#[test]
fn empty_file_case() {
    let sb = sandbox();
    let case = EmptyFileCase::new(&sb);
    assert_eq!(writes(&case.prepare()), vec![("client/empty.bin".to_string(), Vec::new())]);
    assert_eq!(same_files(&case.verify()), vec!["empty.bin"]);
}

#[test]
fn multiple_files_case() {
    let sb = sandbox();
    let case = MultipleFilesCase::new(&sb);
    let w = writes(&case.prepare());
    assert_eq!(w.len(), 4);
    assert_eq!(w[3], ("client/name with spaces (v1)-[test].txt".to_string(), b"special filename".to_vec()));
    assert_eq!(same_files(&case.verify()).len(), 4);
}

#[test]
fn binary_file_case() {
    let sb = sandbox();
    let case = BinaryFileCase::new(&sb);
    let w = writes(&case.prepare());
    assert_eq!(w[0].1.len(), 69);
    assert_eq!(&w[0].1[..4], &[0x89, b'P', b'N', b'G']);
    assert_eq!(w[1].1, vec![0x00, 0x01, 0x7f, 0x80, 0xfe, 0xff]);
    assert_eq!(w[2].1.len(), 1024 * 1024);
    assert_eq!(same_files(&case.verify()), vec!["sample.png", "bytes.bin", "large.bin"]);
}

#[test]
fn directory_transfer_case() {
    let sb = sandbox();
    let case = DirectoryTransferCase::new(&sb);
    let steps = case.prepare();
    assert_eq!(dirs(&steps), vec!["client/nested/deep"]);
    assert_eq!(writes(&steps), vec![("client/nested/deep/inside.txt".to_string(), b"directory test".to_vec())]);
    assert!(matches!(&case.verify()[..], [Check::SameEntries, Check::SameTree]));
}

#[test]
fn comprehensive_case() {
    let sb = sandbox();
    let case = ComprehensiveCase::new(&sb);
    let steps = case.prepare();
    assert_eq!(steps.len(), 21);
    assert_eq!(dirs(&steps).len(), 8);
    let w = writes(&steps);
    assert_eq!(w[0].0, "client/large/archive/payload.bin");
    assert_eq!(w[0].1.len(), 4 * 1024 * 1024);
    assert_eq!(w[4].0, "client/boundaries/socket_buffer/255-bytes.bin");
    assert_eq!(w[4].1.len(), 255);
    assert_eq!(w[6].1.len(), 257);
    assert_eq!(w[12], ("server/existing/outdated.bin".to_string(), b"old server contents".to_vec()));
    assert!(matches!(&case.verify()[..], [Check::SameEntries, Check::SameTree]));
}

#[test]
fn descriptions_are_the_documented_ones() {
    let sb = sandbox();
    assert!(JustDemo::new(&sb).description().starts_with("Create one small text file"));
    assert!(EmptyFileCase::new(&sb).description().starts_with("Transfer a zero-byte file"));
}
