//! The default case: the developer fills the sandbox by hand.

use vstd::prelude::*;
use crate::case::{path1, Check, FixtureStep, StepView, TestCase};
use crate::sandbox::Sandbox;

verus! {

/// Runs the server and client on whatever the developer placed in the
/// default sandbox; only the sandbox's two directories are made sure of.
pub struct DefaultCase<'a> {
    pub sandbox: &'a Sandbox,
}

impl<'a> DefaultCase<'a> {
    pub fn new(sandbox: &'a Sandbox) -> (r: Self)
        ensures
            r.sandbox == sandbox,
    {
        DefaultCase { sandbox }
    }
}

impl TestCase for DefaultCase<'_> {
    fn description(&self) -> (r: &'static str)
        ensures
            r@ == "Synchronize the files a developer placed in the default sandbox, then verify that the server holds every client entry."@,
    {
        "Synchronize the files a developer placed in the default sandbox, then verify that the server holds every client entry."
    }

    fn prepare(&self) -> (r: Vec<FixtureStep>)
        ensures
            r.deep_view() == seq![StepView::CreateDir(seq!["server"@]), StepView::CreateDir(seq!["client"@])],
    {
        let mut steps: Vec<FixtureStep> = Vec::new();
        steps.push(FixtureStep::CreateDir(path1("server")));
        steps.push(FixtureStep::CreateDir(path1("client")));
        assert(steps.deep_view() =~~= seq![StepView::CreateDir(seq!["server"@]), StepView::CreateDir(seq!["client"@])]);
        steps
    }

    /// No check of its own: what the developer placed may differ between
    /// the two sides, so the default case asks only what every run asks,
    /// that the server holds every entry of the client; it asks neither an
    /// exact match of the entries nor equal trees.
    fn verify(&self) -> (r: Vec<Check>)
        ensures
            r.len() == 0,
    {
        Vec::new()
    }

    fn clean(&self) -> (r: Vec<FixtureStep>)
        ensures
            r.len() == 0,
    {
        Vec::new()
    }
}

} // verus!
