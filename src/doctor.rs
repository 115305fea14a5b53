//! Diagnostics: the verdict of each environment probe.
//!
//! Probing (running `tmux -V`, writing a marker file) is the caller's; this
//! module turns each probe's outcome into a reported check.

use vstd::prelude::*;
use crate::text::{before_first, before_first_of, chars_of, string_of, trim_end, trim_start, trimmed};

verus! {

/// One diagnostic: its name, `pass` or `fail`, a message, and whether a
/// failure makes the environment unusable.
#[derive(Debug, Clone)]
pub struct Check {
    pub name: String,
    pub status: String,
    pub message: String,
    pub required: bool,
}

pub open spec fn check_is(c: Check, name: Seq<char>, passed: bool, message: Seq<char>, required: bool) -> bool {
    &&& c.name@ == name
    &&& c.status@ == (if passed { "pass"@ } else { "fail"@ })
    &&& c.message@ == message
    &&& c.required == required
}

fn make(name: &str, passed: bool, message: String, required: bool) -> (r: Check)
    ensures
        check_is(r, name@, passed, message@, required),
{
    Check {
        name: name.to_owned(),
        status: if passed { String::from_str("pass") } else { String::from_str("fail") },
        message,
        required,
    }
}

/// Whether a check failed.
pub fn check_failed(c: &Check) -> (r: bool)
    ensures
        r == (c.status@ == "fail"@),
{
    crate::text::text_eq(c.status.as_str(), "fail")
}

/// tmux is required: it passes with its version (or `unknown`) when
/// `tmux -V` succeeded.
pub fn check_tmux(available: bool, version: Option<String>) -> (r: Check)
    ensures
        check_is(r, "tmux"@, available, if !available {
            "not found in PATH"@
        } else {
            match version {
                Some(v) => v@,
                None => "unknown"@,
            }
        }, true),
{
    if available {
        let message = match version {
            Some(v) => v,
            None => String::from_str("unknown"),
        };
        make("tmux", true, message, true)
    } else {
        make("tmux", false, String::from_str("not found in PATH"), true)
    }
}

/// The first line of a program's output, trimmed; `unknown` when it
/// printed nothing.
pub open spec fn first_line(out: Seq<char>) -> Seq<char> {
    if out.len() == 0 {
        "unknown"@
    } else {
        let line = before_first(out, '\n');
        let line = if line.len() > 0 && line.last() == '\r' { line.drop_last() } else { line };
        trim_end(trim_start(line))
    }
}

/// screen is optional: it passes with the first line of `screen -v` when
/// that succeeded; `output` is `None` when it did not.
pub fn check_screen(output: Option<&str>) -> (r: Check)
    ensures
        match output {
            Some(out) => check_is(r, "screen"@, true, first_line(out@), false),
            None => check_is(r, "screen"@, false, "not found"@, false),
        },
{
    match output {
        None => make("screen", false, String::from_str("not found"), false),
        Some(out) => {
            let cs = chars_of(out);
            if cs.len() == 0 {
                return make("screen", true, String::from_str("unknown"), false);
            }
            let mut line = before_first_of(&cs, '\n');
            if line.len() > 0 && line[line.len() - 1] == '\r' {
                line.pop();
            }
            let (lo, hi) = trimmed(&line);
            let mut kept: Vec<char> = Vec::new();
            let mut i: usize = lo;
            while i < hi
                invariant
                    lo <= i <= hi <= line@.len(),
                    kept@ == line@.subrange(lo as int, i as int),
                decreases hi - i,
            {
                kept.push(line[i]);
                i = i + 1;
                assert(kept@ =~= line@.subrange(lo as int, i as int));
            }
            make("screen", true, string_of(&kept), false)
        },
    }
}

fn dir_check(name: &str, dir: &str, writable: bool) -> (r: Check)
    ensures
        check_is(r, name@, writable, dir@ + if writable { " (writable)"@ } else { " (not writable)"@ }, true),
{
    let message = if writable {
        dir.to_owned().concat(" (writable)")
    } else {
        dir.to_owned().concat(" (not writable)")
    };
    make(name, writable, message, true)
}

/// The configuration directory is required, and passes when writable.
pub fn check_config_dir(dir: &str, writable: bool) -> (r: Check)
    ensures
        check_is(r, "config_dir"@, writable, dir@ + if writable { " (writable)"@ } else { " (not writable)"@ }, true),
{
    dir_check("config_dir", dir, writable)
}

/// The log directory is required, and passes when writable.
pub fn check_log_dir(dir: &str, writable: bool) -> (r: Check)
    ensures
        check_is(r, "log_dir"@, writable, dir@ + if writable { " (writable)"@ } else { " (not writable)"@ }, true),
{
    dir_check("log_dir", dir, writable)
}

/// A POSIX shell is required: it passes when `sh -c 'echo ok'` succeeded.
pub fn check_shell(ok: bool) -> (r: Check)
    ensures
        check_is(r, "shell"@, ok, if ok { "/bin/sh available"@ } else { "sh not available"@ }, true),
{
    if ok {
        make("shell", true, String::from_str("/bin/sh available"), true)
    } else {
        make("shell", false, String::from_str("sh not available"), true)
    }
}

/// Whether no required check failed.
pub fn all_required_passed(checks: &Vec<Check>) -> (r: bool)
    ensures
        r == forall|i: int| 0 <= i < checks@.len() ==> !(#[trigger] checks@[i].required && checks@[i].status@ == "fail"@),
{
    let mut i: usize = 0;
    while i < checks.len()
        invariant
            i <= checks@.len(),
            forall|j: int| 0 <= j < i ==> !(#[trigger] checks@[j].required && checks@[j].status@ == "fail"@),
        decreases checks@.len() - i,
    {
        if checks[i].required && check_failed(&checks[i]) {
            return false;
        }
        i = i + 1;
    }
    true
}

} // verus!
