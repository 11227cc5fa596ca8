//! Long file names, one close to the usual 255-character limit of a
//! path component.

use vstd::prelude::*;
use vstd::string::*;
use vstd::utf8::encode_utf8;
use crate::case::{child, path1, write_text, Check, CheckView, FixtureStep, StepView, TestCase};
use crate::sandbox::Sandbox;

verus! {

/// `count` copies of `c`, then `.txt`.
pub open spec fn repeated_name(c: char, count: nat) -> Seq<char> {
    Seq::new(count, |i: int| c) + ".txt"@
}

/// Two files with long names.
pub struct LongFilenameCase<'a> {
    pub sandbox: &'a Sandbox,
}

/// `count` copies of the one-character text `unit`, then `.txt`.
fn repeat_with_suffix(unit: &str, count: usize) -> (r: String)
    requires
        unit@.len() == 1,
    ensures
        r@ == repeated_name(unit@[0], count as nat),
{
    let mut s = String::new();
    let mut i: usize = 0;
    while i < count
        invariant
            unit@.len() == 1,
            i <= count,
            s@ == Seq::new(i as nat, |k: int| unit@[0]),
        decreases count - i,
    {
        s.append(unit);
        assert(s@ =~= Seq::new((i + 1) as nat, |k: int| unit@[0]));
        i = i + 1;
    }
    s.append(".txt");
    s
}

impl<'a> LongFilenameCase<'a> {
    pub fn new(sandbox: &'a Sandbox) -> (r: Self)
        ensures
            r.sandbox == sandbox,
    {
        LongFilenameCase { sandbox }
    }

    /// 240 `a`s, then `.txt`.
    pub fn long_file_name() -> (r: String)
        ensures
            r@ == repeated_name('a', 240),
    {
        proof { reveal_strlit("a"); }
        repeat_with_suffix("a", 240)
    }

    /// 250 `b`s, then `.txt`: 254 characters.
    pub fn near_limit_file_name() -> (r: String)
        ensures
            r@ == repeated_name('b', 250),
    {
        proof { reveal_strlit("b"); }
        repeat_with_suffix("b", 250)
    }
}

impl TestCase for LongFilenameCase<'_> {
    fn description(&self) -> (r: &'static str)
        ensures
            r@ == "Transfer files with long names, including a filename close to the platform component-length limit, and verify their contents."@,
    {
        "Transfer files with long names, including a filename close to the platform component-length limit, and verify their contents."
    }

    fn prepare(&self) -> (r: Vec<FixtureStep>)
        ensures
            r.deep_view() == seq![
                StepView::WriteFile(seq!["client"@, repeated_name('a', 240)], encode_utf8("long filename"@)),
                StepView::WriteFile(seq!["client"@, repeated_name('b', 250)], encode_utf8("near limit filename"@)),
            ],
    {
        let long = Self::long_file_name();
        let near = Self::near_limit_file_name();
        let mut steps: Vec<FixtureStep> = Vec::new();
        steps.push(write_text(child(path1("client"), long.as_str()), "long filename"));
        steps.push(write_text(child(path1("client"), near.as_str()), "near limit filename"));
        assert(steps.deep_view() =~~= seq![
            StepView::WriteFile(seq!["client"@, repeated_name('a', 240)], encode_utf8("long filename"@)),
            StepView::WriteFile(seq!["client"@, repeated_name('b', 250)], encode_utf8("near limit filename"@)),
        ]);
        steps
    }

    fn verify(&self) -> (r: Vec<Check>)
        ensures
            r.deep_view() == seq![
                CheckView::SameFile(seq![repeated_name('a', 240)]),
                CheckView::SameFile(seq![repeated_name('b', 250)]),
            ],
    {
        let long = Self::long_file_name();
        let near = Self::near_limit_file_name();
        let mut checks: Vec<Check> = Vec::new();
        checks.push(Check::SameFile(path1(long.as_str())));
        checks.push(Check::SameFile(path1(near.as_str())));
        assert(checks.deep_view() =~~= seq![
            CheckView::SameFile(seq![repeated_name('a', 240)]),
            CheckView::SameFile(seq![repeated_name('b', 250)]),
        ]);
        checks
    }

    fn clean(&self) -> (r: Vec<FixtureStep>)
        ensures
            r.len() == 0,
    {
        Vec::new()
    }
}

} // verus!
