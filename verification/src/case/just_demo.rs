//! A single small text file.

use vstd::prelude::*;
use vstd::utf8::encode_utf8;
use crate::case::{child, path1, write_text, Check, FixtureStep, StepView, TestCase};
use crate::sandbox::Sandbox;

verus! {

/// One small text file on the client.
pub struct JustDemo<'a> {
    pub sandbox: &'a Sandbox,
}

impl<'a> JustDemo<'a> {
    pub fn new(sandbox: &'a Sandbox) -> (r: Self)
        ensures
            r.sandbox == sandbox,
    {
        JustDemo { sandbox }
    }
}

impl TestCase for JustDemo<'_> {
    fn description(&self) -> (r: &'static str)
        ensures
            r@ == "Create one small text file on the client, transfer it to the server, and verify that the server receives the same file contents."@,
    {
        "Create one small text file on the client, transfer it to the server, and verify that the server receives the same file contents."
    }

    fn prepare(&self) -> (r: Vec<FixtureStep>)
        ensures
            r.deep_view() == seq![StepView::WriteFile(seq!["client"@, "demo.txt"@], encode_utf8("hello world"@))],
    {
        let mut steps: Vec<FixtureStep> = Vec::new();
        steps.push(write_text(child(path1("client"), "demo.txt"), "hello world"));
        assert(steps.deep_view() =~~= seq![StepView::WriteFile(seq!["client"@, "demo.txt"@], encode_utf8("hello world"@))]);
        steps
    }

    fn verify(&self) -> (r: Vec<Check>)
        ensures
            r.len() == 0,
    {
        Vec::new()
    }

    fn clean(&self) -> (r: Vec<FixtureStep>)
        ensures
            r.deep_view() == seq![StepView::RemoveFile(seq!["client"@, "demo.txt"@])],
    {
        let mut steps: Vec<FixtureStep> = Vec::new();
        steps.push(FixtureStep::RemoveFile(child(path1("client"), "demo.txt")));
        assert(steps.deep_view() =~~= seq![StepView::RemoveFile(seq!["client"@, "demo.txt"@])]);
        steps
    }
}

} // verus!
