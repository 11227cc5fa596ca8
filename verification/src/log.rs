//! The runner's own console log: levels, their labels and colours, and the
//! module name shown with each line.

use vstd::prelude::*;
use vstd::string::*;

verus! {

#[verifier::external_type_specification]
#[verifier::external_body]
pub struct ExInstant(std::time::Instant);

/// The runner's logger; lines show the time since `start_time`.
pub struct Log {
    pub start_time: std::time::Instant,
}

/// Reads the monotonic clock. Nothing is stated of the instant returned: it
/// depends on when the call happens.
#[verifier::external_body]
fn now() -> std::time::Instant {
    std::time::Instant::now()
}

impl Log {
    /// A logger whose clock starts now.
    pub fn new() -> Log {
        Log { start_time: now() }
    }
}

/// The severity of a log line.
#[derive(Clone, Copy, Debug, PartialEq, Eq)]
pub enum LogLevel {
    Info,
    Debug,
    Warn,
    Error,
}

pub open spec fn level_label(level: LogLevel) -> Seq<char> {
    match level {
        LogLevel::Info => "INFO"@,
        LogLevel::Debug => "DEBUG"@,
        LogLevel::Warn => "WARN"@,
        LogLevel::Error => "ERROR"@,
    }
}

pub open spec fn level_color(level: LogLevel) -> Seq<char> {
    match level {
        LogLevel::Info => "\x1b[32m"@,
        LogLevel::Debug => "\x1b[1;34m"@,
        LogLevel::Warn => "\x1b[1;33m"@,
        LogLevel::Error => "\x1b[1;31m"@,
    }
}

impl LogLevel {
    /// The label shown in brackets.
    pub fn label(self) -> (r: &'static str)
        ensures
            r@ == level_label(self),
    {
        match self {
            LogLevel::Info => "INFO",
            LogLevel::Debug => "DEBUG",
            LogLevel::Warn => "WARN",
            LogLevel::Error => "ERROR",
        }
    }

    /// The ANSI colour sequence the line is shown in.
    pub fn color(self) -> (r: &'static str)
        ensures
            r@ == level_color(self),
    {
        match self {
            LogLevel::Info => "\x1b[32m",
            LogLevel::Debug => "\x1b[1;34m",
            LogLevel::Warn => "\x1b[1;33m",
            LogLevel::Error => "\x1b[1;31m",
        }
    }

    /// Whether a line of this level is shown: debug lines only in verbose
    /// mode, all others always.
    pub fn enabled(self, verbose: bool) -> (r: bool)
        ensures
            r == (verbose || !(self is Debug)),
    {
        match self {
            LogLevel::Debug => verbose,
            _ => true,
        }
    }
}

/// The colour of the timestamp.
pub fn timestamp_color() -> (r: &'static str)
    ensures
        r@ == "\x1b[90m"@,
{
    "\x1b[90m"
}

/// The sequence that ends a coloured line.
pub fn color_reset() -> (r: &'static str)
    ensures
        r@ == "\x1b[0m"@,
{
    "\x1b[0m"
}

pub open spec fn is_path_separator(c: char) -> bool {
    c == '/' || c == '\\'
}

/// `name` without a trailing `.rs`, if it has one.
pub open spec fn without_rs(name: Seq<char>) -> Seq<char> {
    if name.len() >= 3 && name.skip(name.len() - 3) == ".rs"@ {
        name.take(name.len() - 3)
    } else {
        name
    }
}

/// `k` is where the last component of `file` begins.
pub open spec fn file_name_start(file: Seq<char>, k: int) -> bool {
    &&& 0 <= k <= file.len()
    &&& k == 0 || is_path_separator(file[k - 1])
    &&& forall|i: int| k <= i < file.len() ==> !is_path_separator(#[trigger] file[i])
}

/// The module a source file holds: the file's name after its last `/` or
/// `\`, without the `.rs` extension.
pub fn module_name(file: &str) -> (r: &str)
    ensures
        exists|k: int| file_name_start(file@, k) && r@ == without_rs(file@.skip(k)),
{
    let n = file.unicode_len();
    let mut k: usize = n;
    let mut found = false;
    while k > 0 && !found
        invariant
            n == file@.len(),
            k <= n,
            found ==> k > 0 && is_path_separator(file@[k - 1]),
            forall|i: int| k <= i < n ==> !is_path_separator(#[trigger] file@[i]),
        decreases k, (if found { 0int } else { 1int }),
    {
        let c = file.get_char(k - 1);
        if c == '/' || c == '\\' {
            found = true;
        } else {
            k = k - 1;
        }
    }
    assert(file_name_start(file@, k as int));
    let name = file.substring_char(k, n);
    assert(name@ =~= file@.skip(k as int));
    proof { reveal_strlit(".rs"); }
    let len = name.unicode_len();
    if len >= 3 && name.get_char(len - 3) == '.' && name.get_char(len - 2) == 'r' && name.get_char(len - 1) == 's' {
        assert(name@.skip(len - 3) =~= ".rs"@);
        let stem = name.substring_char(0, len - 3);
        assert(stem@ =~= name@.take(len - 3));
        stem
    } else {
        assert(!(name@.len() >= 3 && name@.skip(name@.len() - 3) == ".rs"@)) by {
            if name@.len() >= 3 && name@.skip(name@.len() - 3) == ".rs"@ {
                assert(name@.skip(len - 3)[0] == name@[len - 3]);
                assert(name@.skip(len - 3)[1] == name@[len - 2]);
                assert(name@.skip(len - 3)[2] == name@[len - 1]);
            }
        }
        name
    }
}

} // verus!
