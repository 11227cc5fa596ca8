//! A zero-byte file.

use vstd::prelude::*;
use crate::case::{child, path1, Check, CheckView, FixtureStep, StepView, TestCase};
use crate::sandbox::Sandbox;

verus! {

/// A zero-byte file on the client.
pub struct EmptyFileCase<'a> {
    pub sandbox: &'a Sandbox,
}

impl<'a> EmptyFileCase<'a> {
    pub fn new(sandbox: &'a Sandbox) -> (r: Self)
        ensures
            r.sandbox == sandbox,
    {
        EmptyFileCase { sandbox }
    }
}

impl TestCase for EmptyFileCase<'_> {
    fn description(&self) -> (r: &'static str)
        ensures
            r@ == "Transfer a zero-byte file and verify that the server creates it without adding or losing data."@,
    {
        "Transfer a zero-byte file and verify that the server creates it without adding or losing data."
    }

    fn prepare(&self) -> (r: Vec<FixtureStep>)
        ensures
            r.deep_view() == seq![StepView::WriteFile(seq!["client"@, "empty.bin"@], Seq::<u8>::empty())],
    {
        let mut steps: Vec<FixtureStep> = Vec::new();
        steps.push(FixtureStep::WriteFile(child(path1("client"), "empty.bin"), Vec::new()));
        assert(steps.deep_view() =~~= seq![StepView::WriteFile(seq!["client"@, "empty.bin"@], Seq::<u8>::empty())]);
        steps
    }

    fn verify(&self) -> (r: Vec<Check>)
        ensures
            r.deep_view() == seq![CheckView::SameFile(seq!["empty.bin"@])],
    {
        let mut checks: Vec<Check> = Vec::new();
        checks.push(Check::SameFile(path1("empty.bin")));
        assert(checks.deep_view() =~~= seq![CheckView::SameFile(seq!["empty.bin"@])]);
        checks
    }

    fn clean(&self) -> (r: Vec<FixtureStep>)
        ensures
            r.len() == 0,
    {
        Vec::new()
    }
}

} // verus!
