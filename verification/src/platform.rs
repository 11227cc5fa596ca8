//! The host conventions that the path logic depends on.

use vstd::prelude::*;

verus! {

/// The family of operating system whose path conventions apply.
#[derive(Clone, Copy, Debug, PartialEq, Eq)]
pub enum Platform {
    Unix,
    Windows,
}

/// The character that separates path components when a path is displayed.
pub open spec fn separator_of(platform: Platform) -> Seq<char> {
    match platform {
        Platform::Unix => seq!['/'],
        Platform::Windows => seq!['\\'],
    }
}

impl Platform {
    /// The main separator of the platform, as text.
    pub fn separator(self) -> (r: &'static str)
        ensures
            r@ == separator_of(self),
    {
        match self {
            Platform::Unix => {
                let s = "/";
                proof { reveal_strlit("/"); }
                s
            },
            Platform::Windows => {
                let s = "\\";
                proof { reveal_strlit("\\"); }
                s
            },
        }
    }
}

} // verus!
