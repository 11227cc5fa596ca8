//! Image data, special bytes and a large patterned file.

use vstd::prelude::*;
use crate::case::{child, path1, Check, CheckView, FixtureStep, StepView, TestCase};
use crate::sandbox::Sandbox;

verus! {

/// The bytes of a one-pixel PNG image.
pub open spec fn image_bytes() -> Seq<u8> {
    seq![
        0x89u8, 0x50, 0x4e, 0x47, 0x0d, 0x0a, 0x1a, 0x0a, 0x00, 0x00, 0x00, 0x0d, 0x49, 0x48, 0x44, 0x52,
        0x00, 0x00, 0x00, 0x01, 0x00, 0x00, 0x00, 0x01, 0x08, 0x06, 0x00, 0x00, 0x00, 0x1f, 0x15, 0xc4,
        0x89, 0x00, 0x00, 0x00, 0x0d, 0x49, 0x44, 0x41, 0x54, 0x08, 0xd7, 0x63, 0xf8, 0xcf, 0xc0, 0x00,
        0x00, 0x03, 0x01, 0x01, 0x00, 0x18, 0xdd, 0x8d, 0xb0, 0x00, 0x00, 0x00, 0x00, 0x49, 0x45, 0x4e,
        0x44, 0xae, 0x42, 0x60, 0x82,
    ]
}

/// Bytes at the edges of the signed and unsigned ranges.
pub open spec fn edge_bytes() -> Seq<u8> {
    seq![0x00u8, 0x01, 0x7f, 0x80, 0xfe, 0xff]
}

/// The size of the large file: one mebibyte.
pub open spec fn large_size() -> nat {
    1048576
}

/// The large file: byte `i` is `i` modulo 251, a prime, so the pattern does
/// not line up with power-of-two buffer sizes.
pub open spec fn large_pattern() -> Seq<u8> {
    Seq::new(large_size(), |i: int| (i % 251) as u8)
}

/// Image data, embedded zero and high-bit bytes, and a large file.
pub struct BinaryFileCase<'a> {
    pub sandbox: &'a Sandbox,
}

fn image_data() -> (r: Vec<u8>)
    ensures
        r@ == image_bytes(),
{
    let r: Vec<u8> = vec![
        0x89u8, 0x50, 0x4e, 0x47, 0x0d, 0x0a, 0x1a, 0x0a, 0x00, 0x00, 0x00, 0x0d, 0x49, 0x48, 0x44, 0x52,
        0x00, 0x00, 0x00, 0x01, 0x00, 0x00, 0x00, 0x01, 0x08, 0x06, 0x00, 0x00, 0x00, 0x1f, 0x15, 0xc4,
        0x89, 0x00, 0x00, 0x00, 0x0d, 0x49, 0x44, 0x41, 0x54, 0x08, 0xd7, 0x63, 0xf8, 0xcf, 0xc0, 0x00,
        0x00, 0x03, 0x01, 0x01, 0x00, 0x18, 0xdd, 0x8d, 0xb0, 0x00, 0x00, 0x00, 0x00, 0x49, 0x45, 0x4e,
        0x44, 0xae, 0x42, 0x60, 0x82,
    ];
    assert(r@ =~= image_bytes());
    r
}

fn edge_data() -> (r: Vec<u8>)
    ensures
        r@ == edge_bytes(),
{
    let r: Vec<u8> = vec![0x00u8, 0x01, 0x7f, 0x80, 0xfe, 0xff];
    assert(r@ =~= edge_bytes());
    r
}

impl<'a> BinaryFileCase<'a> {
    pub fn new(sandbox: &'a Sandbox) -> (r: Self)
        ensures
            r.sandbox == sandbox,
    {
        BinaryFileCase { sandbox }
    }

    /// One mebibyte where byte `i` is `i` modulo 251.
    pub fn large_binary_data() -> (r: Vec<u8>)
        ensures
            r@ == large_pattern(),
    {
        let size: usize = 1024 * 1024;
        let mut data: Vec<u8> = Vec::with_capacity(size);
        let mut index: usize = 0;
        while index < size
            invariant
                size == large_size(),
                index <= size,
                data@.len() == index,
                forall|j: int| 0 <= j < index ==> #[trigger] data@[j] == (j % 251) as u8,
            decreases size - index,
        {
            data.push((index % 251) as u8);
            index = index + 1;
        }
        assert(data@ =~= large_pattern());
        data
    }
}

impl TestCase for BinaryFileCase<'_> {
    fn description(&self) -> (r: &'static str)
        ensures
            r@ == "Transfer image data, embedded zero and high-bit bytes, and a 1 MiB patterned payload, then compare all files byte-for-byte."@,
    {
        "Transfer image data, embedded zero and high-bit bytes, and a 1 MiB patterned payload, then compare all files byte-for-byte."
    }

    fn prepare(&self) -> (r: Vec<FixtureStep>)
        ensures
            r.deep_view() == seq![
                StepView::WriteFile(seq!["client"@, "sample.png"@], image_bytes()),
                StepView::WriteFile(seq!["client"@, "bytes.bin"@], edge_bytes()),
                StepView::WriteFile(seq!["client"@, "large.bin"@], large_pattern()),
            ],
    {
        let mut steps: Vec<FixtureStep> = Vec::new();
        steps.push(FixtureStep::WriteFile(child(path1("client"), "sample.png"), image_data()));
        steps.push(FixtureStep::WriteFile(child(path1("client"), "bytes.bin"), edge_data()));
        steps.push(FixtureStep::WriteFile(child(path1("client"), "large.bin"), Self::large_binary_data()));
        assert(steps.deep_view() =~~= seq![
            StepView::WriteFile(seq!["client"@, "sample.png"@], image_bytes()),
            StepView::WriteFile(seq!["client"@, "bytes.bin"@], edge_bytes()),
            StepView::WriteFile(seq!["client"@, "large.bin"@], large_pattern()),
        ]);
        steps
    }

    fn verify(&self) -> (r: Vec<Check>)
        ensures
            r.deep_view() == seq![
                CheckView::SameFile(seq!["sample.png"@]),
                CheckView::SameFile(seq!["bytes.bin"@]),
                CheckView::SameFile(seq!["large.bin"@]),
            ],
    {
        let mut checks: Vec<Check> = Vec::new();
        checks.push(Check::SameFile(path1("sample.png")));
        checks.push(Check::SameFile(path1("bytes.bin")));
        checks.push(Check::SameFile(path1("large.bin")));
        assert(checks.deep_view() =~~= seq![
            CheckView::SameFile(seq!["sample.png"@]),
            CheckView::SameFile(seq!["bytes.bin"@]),
            CheckView::SameFile(seq!["large.bin"@]),
        ]);
        checks
    }

    fn clean(&self) -> (r: Vec<FixtureStep>)
        ensures
            r.len() == 0,
    {
        Vec::new()
    }
}

} // verus!
