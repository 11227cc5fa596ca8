//! A mixed tree: large, binary, empty, buffer-boundary, nested, unchanged
//! and outdated files.

use vstd::prelude::*;
use vstd::utf8::encode_utf8;
use crate::case::{child, path1, write_text, Check, CheckView, FixtureStep, StepView, TestCase};
use crate::sandbox::Sandbox;

verus! {

/// `size` bytes where byte `i` is `(31 * i + i / 251) mod 256`.
pub open spec fn patterned(size: nat) -> Seq<u8> {
    Seq::new(size, |i: int| ((i * 31 + i / 251) % 256) as u8)
}

/// Computing the pattern for every index below `size` stays within `usize`.
pub open spec fn patterned_fits(size: usize) -> bool {
    size == 0 || (size - 1) * 31 + (size - 1) / 251 <= usize::MAX
}

/// The size of the large file: four mebibytes.
pub open spec fn large_file_size() -> nat {
    4194304
}

/// The socket buffer size of the programs under test.
pub open spec fn socket_buffer_size() -> nat {
    256
}

/// A synchronisation of a mixed directory tree.
pub struct ComprehensiveCase<'a> {
    pub sandbox: &'a Sandbox,
}

impl<'a> ComprehensiveCase<'a> {
    pub fn new(sandbox: &'a Sandbox) -> (r: Self)
        ensures
            r.sandbox == sandbox,
    {
        ComprehensiveCase { sandbox }
    }

    /// `size` bytes where byte `i` is `(31 * i + i / 251) mod 256`.
    pub fn patterned_data(size: usize) -> (r: Vec<u8>)
        requires
            patterned_fits(size),
        ensures
            r@ == patterned(size as nat),
    {
        let mut data: Vec<u8> = Vec::with_capacity(size);
        let mut index: usize = 0;
        while index < size
            invariant
                patterned_fits(size),
                index <= size,
                data@.len() == index,
                forall|j: int| 0 <= j < index ==> #[trigger] data@[j] == ((j * 31 + j / 251) % 256) as u8,
            decreases size - index,
        {
            proof {
                vstd::arithmetic::div_mod::lemma_div_is_ordered(index as int, (size - 1) as int, 251);
            }
            data.push(((index * 31 + index / 251) % 256) as u8);
            index = index + 1;
        }
        assert(data@ =~= patterned(size as nat));
        data
    }
}

/// The directories that the fixture creates.
pub open spec fn comprehensive_dirs() -> Seq<StepView> {
    seq![
        StepView::CreateDir(seq!["client"@, "large"@, "archive"@]),
        StepView::CreateDir(seq!["client"@, "binary"@, "raw"@]),
        StepView::CreateDir(seq!["client"@, "boundaries"@, "empty"@]),
        StepView::CreateDir(seq!["client"@, "boundaries"@, "socket_buffer"@]),
        StepView::CreateDir(seq!["client"@, "nested"@, "level-1"@, "level-2"@, "level-3"@]),
        StepView::CreateDir(seq!["client"@, "names"@, "with spaces"@]),
        StepView::CreateDir(seq!["client"@, "existing"@]),
        StepView::CreateDir(seq!["server"@, "existing"@]),
    ]
}

/// The files that the fixture writes, in order.
pub open spec fn comprehensive_files() -> Seq<StepView> {
    seq![
        StepView::WriteFile(seq!["client"@, "large"@, "archive"@, "payload.bin"@], patterned(large_file_size())),
        StepView::WriteFile(seq!["client"@, "binary"@, "raw"@, "all-bytes.bin"@], patterned(65536)),
        StepView::WriteFile(seq!["client"@, "boundaries"@, "empty"@, "zero.bin"@], Seq::<u8>::empty()),
        StepView::WriteFile(seq!["client"@, "boundaries"@, "empty"@, "one-byte.bin"@], seq![0xffu8]),
        StepView::WriteFile(seq!["client"@, "boundaries"@, "socket_buffer"@, "255-bytes.bin"@], patterned((socket_buffer_size() - 1) as nat)),
        StepView::WriteFile(seq!["client"@, "boundaries"@, "socket_buffer"@, "256-bytes.bin"@], patterned(socket_buffer_size())),
        StepView::WriteFile(seq!["client"@, "boundaries"@, "socket_buffer"@, "257-bytes.bin"@], patterned(socket_buffer_size() + 1)),
        StepView::WriteFile(seq!["client"@, "nested"@, "level-1"@, "level-2"@, "level-3"@, "deep.txt"@], encode_utf8("deeply nested text"@)),
        StepView::WriteFile(seq!["client"@, "names"@, "with spaces"@, "mixed name [v1].txt"@], encode_utf8("path with spaces and punctuation"@)),
        StepView::WriteFile(seq!["client"@, "existing"@, "unchanged.bin"@], encode_utf8("already synchronized"@)),
        StepView::WriteFile(seq!["server"@, "existing"@, "unchanged.bin"@], encode_utf8("already synchronized"@)),
        StepView::WriteFile(seq!["client"@, "existing"@, "outdated.bin"@], encode_utf8("new client contents"@)),
        StepView::WriteFile(seq!["server"@, "existing"@, "outdated.bin"@], encode_utf8("old server contents"@)),
    ]
}

fn push_dirs(steps: &mut Vec<FixtureStep>)
    requires
        old(steps)@.len() == 0,
    ensures
        final(steps).deep_view() == comprehensive_dirs(),
{
    steps.push(FixtureStep::CreateDir(child(child(path1("client"), "large"), "archive")));
    steps.push(FixtureStep::CreateDir(child(child(path1("client"), "binary"), "raw")));
    steps.push(FixtureStep::CreateDir(child(child(path1("client"), "boundaries"), "empty")));
    steps.push(FixtureStep::CreateDir(child(child(path1("client"), "boundaries"), "socket_buffer")));
    steps.push(FixtureStep::CreateDir(child(child(child(child(path1("client"), "nested"), "level-1"), "level-2"), "level-3")));
    steps.push(FixtureStep::CreateDir(child(child(path1("client"), "names"), "with spaces")));
    steps.push(FixtureStep::CreateDir(child(path1("client"), "existing")));
    steps.push(FixtureStep::CreateDir(child(path1("server"), "existing")));
    assert(steps.deep_view() =~~= comprehensive_dirs());
}

fn push_data_files(steps: &mut Vec<FixtureStep>)
    requires
        old(steps)@.len() == 0,
    ensures
        final(steps).deep_view() == comprehensive_files().take(7),
{
    assert(patterned_fits(4194304));
    steps.push(FixtureStep::WriteFile(child(child(child(path1("client"), "large"), "archive"), "payload.bin"), ComprehensiveCase::patterned_data(4194304)));
    steps.push(FixtureStep::WriteFile(child(child(child(path1("client"), "binary"), "raw"), "all-bytes.bin"), ComprehensiveCase::patterned_data(65536)));
    steps.push(FixtureStep::WriteFile(child(child(child(path1("client"), "boundaries"), "empty"), "zero.bin"), Vec::new()));
    steps.push(FixtureStep::WriteFile(child(child(child(path1("client"), "boundaries"), "empty"), "one-byte.bin"), vec![0xffu8]));
    steps.push(FixtureStep::WriteFile(child(child(child(path1("client"), "boundaries"), "socket_buffer"), "255-bytes.bin"), ComprehensiveCase::patterned_data(255)));
    steps.push(FixtureStep::WriteFile(child(child(child(path1("client"), "boundaries"), "socket_buffer"), "256-bytes.bin"), ComprehensiveCase::patterned_data(256)));
    steps.push(FixtureStep::WriteFile(child(child(child(path1("client"), "boundaries"), "socket_buffer"), "257-bytes.bin"), ComprehensiveCase::patterned_data(257)));
    assert(steps.deep_view() =~~= comprehensive_files().take(7));
}

fn push_text_files(steps: &mut Vec<FixtureStep>)
    requires
        old(steps)@.len() == 0,
    ensures
        final(steps).deep_view() == comprehensive_files().skip(7),
{
    steps.push(write_text(child(child(child(child(child(path1("client"), "nested"), "level-1"), "level-2"), "level-3"), "deep.txt"), "deeply nested text"));
    steps.push(write_text(child(child(child(path1("client"), "names"), "with spaces"), "mixed name [v1].txt"), "path with spaces and punctuation"));
    steps.push(write_text(child(child(path1("client"), "existing"), "unchanged.bin"), "already synchronized"));
    steps.push(write_text(child(child(path1("server"), "existing"), "unchanged.bin"), "already synchronized"));
    steps.push(write_text(child(child(path1("client"), "existing"), "outdated.bin"), "new client contents"));
    steps.push(write_text(child(child(path1("server"), "existing"), "outdated.bin"), "old server contents"));
    assert(steps.deep_view() =~~= comprehensive_files().skip(7));
}

/// Moves all of `more` to the end of `steps`.
fn append_steps(steps: &mut Vec<FixtureStep>, more: Vec<FixtureStep>)
    ensures
        final(steps).deep_view() == old(steps).deep_view() + more.deep_view(),
{
    let ghost before = steps.deep_view();
    let ghost added = more.deep_view();
    let mut rest = more;
    let mut moved: Vec<FixtureStep> = Vec::new();
    while rest.len() > 0
        invariant
            steps.deep_view() == before + added.take(added.len() - rest.deep_view().len()),
            rest.deep_view() == added.skip(added.len() - rest.deep_view().len()),
            rest.deep_view().len() <= added.len(),
        decreases rest.len(),
    {
        let ghost k = added.len() - rest.deep_view().len();
        let ghost old_rest = rest.deep_view();
        assert(old_rest[0] == added[k]);
        assert(old_rest[0] == rest@[0].deep_view());
        let step = rest.remove(0);
        assert(step.deep_view() == added[k]);
        assert(rest.deep_view() =~= old_rest.drop_first());
        let ghost prior = steps.deep_view();
        steps.push(step);
        assert(steps.deep_view() =~= prior.push(added[k]));
        assert(added.take(k + 1) =~= added.take(k).push(added[k]));
        assert(rest.deep_view() =~= added.skip(k + 1));
    }
    assert(added.take(added.len() as int) =~= added);
}

impl TestCase for ComprehensiveCase<'_> {
    fn description(&self) -> (r: &'static str)
        ensures
            r@ == "Synchronize a mixed directory tree containing large, binary, empty, buffer-boundary, nested, unchanged, and outdated files, then verify the complete result."@,
    {
        "Synchronize a mixed directory tree containing large, binary, empty, buffer-boundary, nested, unchanged, and outdated files, then verify the complete result."
    }

    fn prepare(&self) -> (r: Vec<FixtureStep>)
        ensures
            r.deep_view() == comprehensive_dirs() + comprehensive_files(),
    {
        let mut steps: Vec<FixtureStep> = Vec::new();
        push_dirs(&mut steps);
        let mut data: Vec<FixtureStep> = Vec::new();
        push_data_files(&mut data);
        let mut text: Vec<FixtureStep> = Vec::new();
        push_text_files(&mut text);
        append_steps(&mut steps, data);
        append_steps(&mut steps, text);
        assert(comprehensive_files().take(7) + comprehensive_files().skip(7) =~= comprehensive_files());
        assert(comprehensive_dirs() + comprehensive_files().take(7) + comprehensive_files().skip(7) =~= comprehensive_dirs() + comprehensive_files());
        steps
    }

    fn verify(&self) -> (r: Vec<Check>)
        ensures
            r.deep_view() == seq![CheckView::SameEntries, CheckView::SameTree],
    {
        let mut checks: Vec<Check> = Vec::new();
        checks.push(Check::SameEntries);
        checks.push(Check::SameTree);
        assert(checks.deep_view() =~~= seq![CheckView::SameEntries, CheckView::SameTree]);
        checks
    }

    fn clean(&self) -> (r: Vec<FixtureStep>)
        ensures
            r.len() == 0,
    {
        Vec::new()
    }
}

} // verus!
