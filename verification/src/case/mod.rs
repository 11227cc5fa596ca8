//! The integration test cases: what each puts in its sandbox before the
//! server and client run, what it checks afterwards, and what it removes.

use vstd::prelude::*;
use vstd::string::*;
use vstd::utf8::encode_utf8;
use crate::entries::{Entry, EntryView};

pub mod binary_file;
pub mod comprehensive;
pub mod default;
pub mod directory_transfer;
pub mod empty_file;
pub mod just_demo;
pub mod long_filename;
pub mod multiple_files;

verus! {

/// A change to a sandbox, at a path relative to the sandbox.
pub enum FixtureStep {
    /// Create the directory and its missing parents.
    CreateDir(Entry),
    /// Create or overwrite the file with these bytes; its parent exists.
    WriteFile(Entry, Vec<u8>),
    /// Remove the file.
    RemoveFile(Entry),
}

/// The model of a fixture step.
#[verifier::ext_equal]
pub enum StepView {
    CreateDir(EntryView),
    WriteFile(EntryView, Seq<u8>),
    RemoveFile(EntryView),
}

impl DeepView for FixtureStep {
    type V = StepView;

    open spec fn deep_view(&self) -> StepView {
        match self {
            FixtureStep::CreateDir(p) => StepView::CreateDir(p.deep_view()),
            FixtureStep::WriteFile(p, data) => StepView::WriteFile(p.deep_view(), data@),
            FixtureStep::RemoveFile(p) => StepView::RemoveFile(p.deep_view()),
        }
    }
}

/// A check run on the server and client run directories after both
/// processes succeeded.
pub enum Check {
    /// This file, relative to each run directory, has the same bytes on both sides.
    SameFile(Entry),
    /// Both trees hold the same entries.
    SameEntries,
    /// Both trees hold the same entries, and every file the same bytes.
    SameTree,
}

/// The model of a check.
#[verifier::ext_equal]
pub enum CheckView {
    SameFile(EntryView),
    SameEntries,
    SameTree,
}

impl DeepView for Check {
    type V = CheckView;

    open spec fn deep_view(&self) -> CheckView {
        match self {
            Check::SameFile(p) => CheckView::SameFile(p.deep_view()),
            Check::SameEntries => CheckView::SameEntries,
            Check::SameTree => CheckView::SameTree,
        }
    }
}

/// An integration test case.
pub trait TestCase {
    /// What the case exercises, shown when it fails.
    fn description(&self) -> &'static str;

    /// The fixture to put in the sandbox before the run.
    fn prepare(&self) -> Vec<FixtureStep>;

    /// The checks to run after the run, besides the check that the server
    /// holds every entry of the client.
    fn verify(&self) -> Vec<Check>;

    /// What to remove from the sandbox afterwards.
    fn clean(&self) -> Vec<FixtureStep>;
}

/// The relative path made of the single name `name`.
pub fn path1(name: &str) -> (r: Entry)
    ensures
        r.deep_view() == seq![name@],
{
    let mut r: Vec<String> = Vec::new();
    r.push(String::from_str(name));
    assert(r.deep_view() =~~= seq![name@]);
    r
}

/// The relative path `base` extended by `name`.
pub fn child(base: Entry, name: &str) -> (r: Entry)
    ensures
        r.deep_view() == base.deep_view().push(name@),
{
    let ghost before = base.deep_view();
    let mut r = base;
    r.push(String::from_str(name));
    assert(r.deep_view() =~= before.push(name@));
    r
}

/// The UTF-8 bytes of a text.
pub fn text_bytes(text: &str) -> (r: Vec<u8>)
    ensures
        r@ == encode_utf8(text@),
{
    text.as_bytes_vec()
}


/// Writing the UTF-8 bytes of `text` to `path`.
pub fn write_text(path: Entry, text: &str) -> (r: FixtureStep)
    ensures
        r.deep_view() == StepView::WriteFile(path.deep_view(), encode_utf8(text@)),
{
    FixtureStep::WriteFile(path, text_bytes(text))
}

} // verus!
