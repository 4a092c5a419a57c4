//! What the command-line tool is asked to do.
use crate::text::str_eq;
use vstd::prelude::*;

verus! {

/// A command of the command-line tool.
#[derive(Debug, Clone, PartialEq, Eq)]
pub enum CliCommand {
    /// No option: scan for receivers and report their capabilities.
    Scan,
    /// `--capture-test`: capture system audio for a few seconds.
    CaptureTest,
    /// `--connect-test [selector]`: pair, set up a session and tear it down.
    ConnectTest(Option<String>),
    /// `--stream-test [selector]`: stream captured audio for a few seconds.
    StreamTest(Option<String>),
    /// `--help` or `-h`.
    Help,
    /// Any other first argument: it is reported, then the help is shown.
    Unknown(String),
}

/// Whether `c` is the command that the arguments name, `args[0]` being the
/// program itself: no argument is a scan; the two tests take the argument
/// after the option, if any, as their selector; an unknown option is kept.
pub open spec fn command_matches(c: CliCommand, args: Seq<Seq<char>>) -> bool {
    if args.len() < 2 {
        c == CliCommand::Scan
    } else {
        let a = args[1];
        let selector = if args.len() > 2 {
            Some(args[2])
        } else {
            None
        };
        match c {
            CliCommand::Scan => false,
            CliCommand::CaptureTest => a == "--capture-test"@,
            CliCommand::ConnectTest(s) => a == "--connect-test"@ && opt_view(s) == selector,
            CliCommand::StreamTest(s) => a == "--stream-test"@ && opt_view(s) == selector,
            CliCommand::Help => a == "--help"@ || a == "-h"@,
            CliCommand::Unknown(s) => s@ == a && a != "--capture-test"@ && a != "--connect-test"@
                && a != "--stream-test"@ && a != "--help"@ && a != "-h"@,
        }
    }
}

pub open spec fn opt_view(s: Option<String>) -> Option<Seq<char>> {
    match s {
        Some(v) => Some(v@),
        None => None,
    }
}

/// Reads the command from the program's arguments, `args[0]` being the
/// program itself.
pub fn parse_cli_args(args: &Vec<String>) -> (c: CliCommand)
    ensures
        command_matches(c, args@.map_values(|s: String| s@)),
{
    let ghost v = args@.map_values(|s: String| s@);
    if args.len() < 2 {
        return CliCommand::Scan;
    }
    proof {
        assert(v[1] == args@[1]@);
    }
    let selector = if args.len() > 2 {
        proof {
            assert(v[2] == args@[2]@);
        }
        Some(args[2].clone())
    } else {
        None
    };
    let a = args[1].as_str();
    if str_eq(a, "--capture-test") {
        CliCommand::CaptureTest
    } else if str_eq(a, "--connect-test") {
        CliCommand::ConnectTest(selector)
    } else if str_eq(a, "--stream-test") {
        CliCommand::StreamTest(selector)
    } else if str_eq(a, "--help") || str_eq(a, "-h") {
        CliCommand::Help
    } else {
        CliCommand::Unknown(args[1].clone())
    }
}

} // verus!
