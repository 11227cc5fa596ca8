//! Several files in one run, one with spaces and punctuation in its name.

use vstd::prelude::*;
use vstd::utf8::encode_utf8;
use crate::case::{child, path1, write_text, Check, CheckView, FixtureStep, StepView, TestCase};
use crate::sandbox::Sandbox;

verus! {

/// Several files transferred in one run.
pub struct MultipleFilesCase<'a> {
    pub sandbox: &'a Sandbox,
}

impl<'a> MultipleFilesCase<'a> {
    pub fn new(sandbox: &'a Sandbox) -> (r: Self)
        ensures
            r.sandbox == sandbox,
    {
        MultipleFilesCase { sandbox }
    }
}

impl TestCase for MultipleFilesCase<'_> {
    fn description(&self) -> (r: &'static str)
        ensures
            r@ == "Transfer several files in one run, including a filename with spaces and punctuation, and verify each file independently."@,
    {
        "Transfer several files in one run, including a filename with spaces and punctuation, and verify each file independently."
    }

    fn prepare(&self) -> (r: Vec<FixtureStep>)
        ensures
            r.deep_view() == seq![
                StepView::WriteFile(seq!["client"@, "multiple-1.txt"@], encode_utf8("first"@)),
                StepView::WriteFile(seq!["client"@, "multiple-2.txt"@], encode_utf8("second"@)),
                StepView::WriteFile(seq!["client"@, "multiple-3.txt"@], encode_utf8("third"@)),
                StepView::WriteFile(seq!["client"@, "name with spaces (v1)-[test].txt"@], encode_utf8("special filename"@)),
            ],
    {
        let mut steps: Vec<FixtureStep> = Vec::new();
        steps.push(write_text(child(path1("client"), "multiple-1.txt"), "first"));
        steps.push(write_text(child(path1("client"), "multiple-2.txt"), "second"));
        steps.push(write_text(child(path1("client"), "multiple-3.txt"), "third"));
        steps.push(write_text(child(path1("client"), "name with spaces (v1)-[test].txt"), "special filename"));
        assert(steps.deep_view() =~~= seq![
            StepView::WriteFile(seq!["client"@, "multiple-1.txt"@], encode_utf8("first"@)),
            StepView::WriteFile(seq!["client"@, "multiple-2.txt"@], encode_utf8("second"@)),
            StepView::WriteFile(seq!["client"@, "multiple-3.txt"@], encode_utf8("third"@)),
            StepView::WriteFile(seq!["client"@, "name with spaces (v1)-[test].txt"@], encode_utf8("special filename"@)),
        ]);
        steps
    }

    fn verify(&self) -> (r: Vec<Check>)
        ensures
            r.deep_view() == seq![
                CheckView::SameFile(seq!["multiple-1.txt"@]),
                CheckView::SameFile(seq!["multiple-2.txt"@]),
                CheckView::SameFile(seq!["multiple-3.txt"@]),
                CheckView::SameFile(seq!["name with spaces (v1)-[test].txt"@]),
            ],
    {
        let mut checks: Vec<Check> = Vec::new();
        checks.push(Check::SameFile(path1("multiple-1.txt")));
        checks.push(Check::SameFile(path1("multiple-2.txt")));
        checks.push(Check::SameFile(path1("multiple-3.txt")));
        checks.push(Check::SameFile(path1("name with spaces (v1)-[test].txt")));
        assert(checks.deep_view() =~~= seq![
            CheckView::SameFile(seq!["multiple-1.txt"@]),
            CheckView::SameFile(seq!["multiple-2.txt"@]),
            CheckView::SameFile(seq!["multiple-3.txt"@]),
            CheckView::SameFile(seq!["name with spaces (v1)-[test].txt"@]),
        ]);
        checks
    }

    fn clean(&self) -> (r: Vec<FixtureStep>)
        ensures
            r.len() == 0,
    {
        Vec::new()
    }
}

} // verus!
