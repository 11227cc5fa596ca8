//! A file inside nested directories.

use vstd::prelude::*;
use vstd::utf8::encode_utf8;
use crate::case::{child, path1, write_text, Check, CheckView, FixtureStep, StepView, TestCase};
use crate::sandbox::Sandbox;

verus! {

/// A file two directories deep on the client.
pub struct DirectoryTransferCase<'a> {
    pub sandbox: &'a Sandbox,
}

impl<'a> DirectoryTransferCase<'a> {
    pub fn new(sandbox: &'a Sandbox) -> (r: Self)
        ensures
            r.sandbox == sandbox,
    {
        DirectoryTransferCase { sandbox }
    }
}

impl TestCase for DirectoryTransferCase<'_> {
    fn description(&self) -> (r: &'static str)
        ensures
            r@ == "Place a file inside a nested client-side directory, transfer it recursively, and verify that its relative path and contents are preserved."@,
    {
        "Place a file inside a nested client-side directory, transfer it recursively, and verify that its relative path and contents are preserved."
    }

    fn prepare(&self) -> (r: Vec<FixtureStep>)
        ensures
            r.deep_view() == seq![
                StepView::CreateDir(seq!["client"@, "nested"@, "deep"@]),
                StepView::WriteFile(seq!["client"@, "nested"@, "deep"@, "inside.txt"@], encode_utf8("directory test"@)),
            ],
    {
        let mut steps: Vec<FixtureStep> = Vec::new();
        steps.push(FixtureStep::CreateDir(child(child(path1("client"), "nested"), "deep")));
        steps.push(write_text(child(child(child(path1("client"), "nested"), "deep"), "inside.txt"), "directory test"));
        assert(steps.deep_view() =~~= seq![
            StepView::CreateDir(seq!["client"@, "nested"@, "deep"@]),
            StepView::WriteFile(seq!["client"@, "nested"@, "deep"@, "inside.txt"@], encode_utf8("directory test"@)),
        ]);
        steps
    }

    fn verify(&self) -> (r: Vec<Check>)
        ensures
            r.deep_view() == seq![CheckView::SameEntries, CheckView::SameTree],
    {
        let mut checks: Vec<Check> = Vec::new();
        checks.push(Check::SameEntries);
        checks.push(Check::SameTree);
        assert(checks.deep_view() =~~= seq![CheckView::SameEntries, CheckView::SameTree]);
        checks
    }

    fn clean(&self) -> (r: Vec<FixtureStep>)
        ensures
            r.len() == 0,
    {
        Vec::new()
    }
}

} // verus!
