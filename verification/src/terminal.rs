//! Terminal command support.
//!
//! Running a command is the shell's work; what the caller sees is decided
//! here: the combined output record and the system-information record.

use vstd::prelude::*;

verus! {

/// Basic information about the host, for the terminal's welcome message.
pub struct SystemInfo {
    pub os: String,
    pub arch: String,
    pub current_dir: String,
}

/// The combined output of a finished command: standard output, and when
/// anything arrived on standard error, a newline and that text appended.
pub open spec fn combined_output(out: Seq<char>, err: Seq<char>) -> Seq<char> {
    if err.len() == 0 {
        out
    } else {
        out + seq!['\n'] + err
    }
}

/// Combine a command's captured standard output and standard error.
pub fn combine_output(stdout: &str, stderr: &str) -> (r: String)
    ensures
        r@ == combined_output(stdout@, stderr@),
{
    if stderr.unicode_len() == 0 {
        stdout.to_owned()
    } else {
        let mut cs = crate::json::str_to_chars(stdout);
        cs.push('\n');
        let mut ec = crate::json::str_to_chars(stderr);
        cs.append(&mut ec);
        proof {
            assert(cs@ =~= stdout@ + seq!['\n'] + stderr@);
        }
        crate::json::string_from_chars(&cs)
    }
}

impl SystemInfo {
    /// The record handed to the terminal, from the plain values the shell
    /// read off the host.
    pub fn new(os: String, arch: String, current_dir: String) -> (r: SystemInfo)
        ensures
            r.os@ == os@,
            r.arch@ == arch@,
            r.current_dir@ == current_dir@,
    {
        SystemInfo { os, arch, current_dir }
    }
}

} // verus!
