//! Settings of the broker that are read from its command line.

use vstd::prelude::*;

verus! {

/// How much the broker logs.
#[derive(Clone, Copy, Debug, PartialEq, Eq, Structural)]
pub enum LogLevel {
    Trace,
    Debug,
    Info,
    Warn,
    Error,
    Off,
}

/// The level of a numeric setting: 0 traces everything, 1 debug, 2 info,
/// 3 warnings, 4 errors, anything higher nothing.
pub open spec fn loglevel_spec(n: u64) -> LogLevel {
    if n == 0 {
        LogLevel::Trace
    } else if n == 1 {
        LogLevel::Debug
    } else if n == 2 {
        LogLevel::Info
    } else if n == 3 {
        LogLevel::Warn
    } else if n == 4 {
        LogLevel::Error
    } else {
        LogLevel::Off
    }
}

/// The level of a numeric setting (see [`loglevel_spec`]).
pub fn int_to_loglevel(loglevel_int: u64) -> (l: LogLevel)
    ensures
        l == loglevel_spec(loglevel_int),
{
    match loglevel_int {
        0 => LogLevel::Trace,
        1 => LogLevel::Debug,
        2 => LogLevel::Info,
        3 => LogLevel::Warn,
        4 => LogLevel::Error,
        _ => LogLevel::Off,
    }
}

/// Where the broker writes its log.
#[derive(Clone, Debug)]
pub enum LogTarget {
    Stdout,
    Stderr,
    /// Appended to the named file, which is created if needed.
    File(String),
}

/// Whether `t` is the target named `name`: an empty name or `stdout` is the
/// standard output, `stderr` the standard error, any other name a file.
pub open spec fn is_log_target(name: Seq<char>, t: LogTarget) -> bool {
    if name == Seq::<char>::empty() || name == "stdout"@ {
        t is Stdout
    } else if name == "stderr"@ {
        t is Stderr
    } else {
        t matches LogTarget::File(f) && f@ == name
    }
}

/// The target that a log setting names.
pub fn log_target(name: &str) -> (t: LogTarget)
    ensures
        is_log_target(name@, t),
{
    let n = name.unicode_len();
    if n == 0 {
        assert(name@ =~= Seq::<char>::empty());
        return LogTarget::Stdout;
    }
    if str_equal(name, "stdout") {
        LogTarget::Stdout
    } else if str_equal(name, "stderr") {
        LogTarget::Stderr
    } else {
        LogTarget::File(String::from_str(name))
    }
}

/// Whether two strings have the same characters.
fn str_equal(a: &str, b: &str) -> (r: bool)
    ensures
        r == (a@ == b@),
{
    let n = a.unicode_len();
    if n != b.unicode_len() {
        return false;
    }
    let mut i: usize = 0;
    while i < n
        invariant
            n == a@.len() == b@.len(),
            i <= n,
            forall|j: int| 0 <= j < i ==> a@[j] == b@[j],
        decreases n - i,
    {
        if a.get_char(i) != b.get_char(i) {
            return false;
        }
        i = i + 1;
    }
    assert(a@ =~= b@);
    true
}

} // verus!
