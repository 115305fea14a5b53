//! Presentation choices of the command layer: colour, quietness, and the
//! process exit codes that typed failures map to.

use vstd::prelude::*;
use crate::error::LarsError;

verus! {

/// `s` in green, as an ANSI-coloured text.
pub open spec fn green(s: Seq<char>) -> Seq<char> {
    "\x1b[32m"@ + s + "\x1b[39m"@
}

/// `s` in red, as an ANSI-coloured text.
pub open spec fn red(s: Seq<char>) -> Seq<char> {
    "\x1b[31m"@ + s + "\x1b[39m"@
}

/// `s` dimmed, as an ANSI-styled text.
pub open spec fn dimmed(s: Seq<char>) -> Seq<char> {
    "\x1b[2m"@ + s + "\x1b[0m"@
}

/// Relies on `owo_colors::OwoColorize::green`: the text between the green
/// foreground code and the default foreground code.
#[verifier::external_body]
fn paint_green(s: &str) -> (r: String)
    ensures
        r@ == green(s@),
{
    owo_colors::OwoColorize::green(&s).to_string()
}

/// Relies on `owo_colors::OwoColorize::red`: the text between the red
/// foreground code and the default foreground code.
#[verifier::external_body]
fn paint_red(s: &str) -> (r: String)
    ensures
        r@ == red(s@),
{
    owo_colors::OwoColorize::red(&s).to_string()
}

/// Relies on `owo_colors::OwoColorize::dimmed`: the text between the dim
/// code and the reset code.
#[verifier::external_body]
fn paint_dimmed(s: &str) -> (r: String)
    ensures
        r@ == dimmed(s@),
{
    owo_colors::OwoColorize::dimmed(&s).to_string()
}

/// How the command layer writes its output.
#[derive(Debug, Clone, Copy, PartialEq, Eq, Structural)]
pub struct OutputContext {
    /// Machine-readable output.
    pub json: bool,
    /// No ANSI colours.
    pub no_color: bool,
    /// No output but errors.
    pub quiet: bool,
}

impl OutputContext {
    /// A context with colours off when `no_color` holds; the caller folds
    /// the `NO_COLOR` environment variable into it.
    pub fn new(json: bool, no_color: bool, quiet: bool) -> (r: OutputContext)
        ensures
            r == (OutputContext { json, no_color, quiet }),
    {
        OutputContext { json, no_color, quiet }
    }

    /// `running` in green or `stopped` in red; plain without colours.
    pub fn status_indicator(&self, running: bool) -> (r: String)
        ensures
            r@ == {
                let word = if running { "running"@ } else { "stopped"@ };
                if self.no_color { word } else if running { green(word) } else { red(word) }
            },
    {
        if running {
            if self.no_color {
                String::from_str("running")
            } else {
                paint_green("running")
            }
        } else {
            if self.no_color {
                String::from_str("stopped")
            } else {
                paint_red("stopped")
            }
        }
    }

    /// `yes` in green or `no` dimmed; plain without colours.
    pub fn enabled_indicator(&self, enabled: bool) -> (r: String)
        ensures
            r@ == {
                let word = if enabled { "yes"@ } else { "no"@ };
                if self.no_color { word } else if enabled { green(word) } else { dimmed(word) }
            },
    {
        if enabled {
            if self.no_color {
                String::from_str("yes")
            } else {
                paint_green("yes")
            }
        } else {
            if self.no_color {
                String::from_str("no")
            } else {
                paint_dimmed("no")
            }
        }
    }

    /// Whether a success, warning or information line is written.
    pub fn shows_messages(&self) -> (r: bool)
        ensures
            r == !self.quiet,
    {
        !self.quiet
    }
}

/// Process exit codes of the command layer.
#[derive(Debug, Clone, Copy, PartialEq, Eq, Structural)]
pub enum ExitCode {
    Success,
    GeneralError,
    UsageError,
    ServiceNotFound,
    ServiceAlreadyExists,
    RunnerUnavailable,
    StartFailed,
    StopFailed,
    ConfigError,
}

pub open spec fn exit_code_value(c: ExitCode) -> i32 {
    match c {
        ExitCode::Success => 0,
        ExitCode::GeneralError => 1,
        ExitCode::UsageError => 2,
        ExitCode::ServiceNotFound => 10,
        ExitCode::ServiceAlreadyExists => 11,
        ExitCode::RunnerUnavailable => 20,
        ExitCode::StartFailed => 21,
        ExitCode::StopFailed => 22,
        ExitCode::ConfigError => 30,
    }
}

impl ExitCode {
    /// The numeric status the process exits with.
    pub fn code(&self) -> (r: i32)
        ensures
            r == exit_code_value(*self),
    {
        match self {
            ExitCode::Success => 0,
            ExitCode::GeneralError => 1,
            ExitCode::UsageError => 2,
            ExitCode::ServiceNotFound => 10,
            ExitCode::ServiceAlreadyExists => 11,
            ExitCode::RunnerUnavailable => 20,
            ExitCode::StartFailed => 21,
            ExitCode::StopFailed => 22,
            ExitCode::ConfigError => 30,
        }
    }
}

impl From<ExitCode> for i32 {
    fn from(c: ExitCode) -> (r: i32)
        ensures
            r == exit_code_value(c),
    {
        c.code()
    }
}

impl vstd::std_specs::convert::FromSpecImpl<ExitCode> for i32 {
    open spec fn obeys_from_spec() -> bool {
        true
    }

    open spec fn from_spec(c: ExitCode) -> i32 {
        exit_code_value(c)
    }
}

} // verus!
