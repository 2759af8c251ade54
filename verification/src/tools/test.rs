//! Choosing and reporting `cargo test`, `cargo check` and `cargo clippy` runs.
use vstd::prelude::*;
use crate::text::{push_str, str_eq, string_from, to_chars, words, words_exec};
use crate::tools::{is_error_result, ToolResult};

verus! {

/// The cargo subcommands the test tool runs.
#[derive(Debug, Clone, Copy, PartialEq, Eq, Structural)]
pub enum CargoCommand {
    Test,
    Check,
    Clippy,
}

/// The command word of the tool's arguments: the first word, else `test`.
pub open spec fn command_word(args: Seq<char>) -> Seq<char> {
    if words(args).len() > 0 {
        words(args)[0]
    } else {
        "test"@
    }
}

/// The directory of the tool's arguments: the second word, else `.`.
pub open spec fn directory_word(args: Seq<char>) -> Seq<char> {
    if words(args).len() > 1 {
        words(args)[1]
    } else {
        "."@
    }
}

/// The subcommand a command word names.
pub open spec fn command_kind_of(word: Seq<char>) -> Option<CargoCommand> {
    if word == "test"@ {
        Some(CargoCommand::Test)
    } else if word == "check"@ {
        Some(CargoCommand::Check)
    } else if word == "clippy"@ {
        Some(CargoCommand::Clippy)
    } else {
        None
    }
}

/// The report of a finished run: a pass line and the standard output, or a
/// failure line, the standard output and the standard error.
pub open spec fn run_report(kind: CargoCommand, success: bool, stdout: Seq<char>, stderr: Seq<char>) -> Seq<char> {
    match kind {
        CargoCommand::Test => if success {
            "Tests passed!\n"@ + stdout
        } else {
            "Tests failed:\n"@ + stdout + "\n"@ + stderr
        },
        CargoCommand::Check => if success {
            "Check passed!\n"@ + stdout
        } else {
            "Check failed:\n"@ + stdout + "\n"@ + stderr
        },
        CargoCommand::Clippy => if success {
            "Clippy passed!\n"@ + stdout
        } else {
            "Clippy warnings/errors:\n"@ + stdout + "\n"@ + stderr
        },
    }
}

/// Runs cargo's test, check and lint commands.
pub struct TestRunner;

impl TestRunner {
    pub fn new() -> (t: TestRunner) {
        TestRunner
    }

    pub fn name(&self) -> (s: &'static str)
        ensures
            s@ == "test"@,
    {
        "test"
    }

    pub fn description(&self) -> (s: &'static str)
        ensures
            s@ == "Run tests, checks, and linting (cargo test, cargo check, cargo clippy)"@,
    {
        "Run tests, checks, and linting (cargo test, cargo check, cargo clippy)"
    }

    /// The command word and the directory named by the tool's arguments.
    pub fn parse_args(args: &str) -> (r: (String, String))
        ensures
            r.0@ == command_word(args@),
            r.1@ == directory_word(args@),
    {
        let ws = words_exec(&to_chars(args));
        proof {
            assert(ws@.len() == words(args@).len());
            if ws@.len() > 0 {
                assert(ws@.map_values(|w: Vec<char>| w@)[0] == ws@[0]@);
            }
            if ws@.len() > 1 {
                assert(ws@.map_values(|w: Vec<char>| w@)[1] == ws@[1]@);
            }
        }
        let command = if ws.len() > 0 {
            string_from(&ws[0])
        } else {
            String::from_str("test")
        };
        let dir = if ws.len() > 1 {
            string_from(&ws[1])
        } else {
            String::from_str(".")
        };
        (command, dir)
    }

    /// The subcommand a command word names, if any.
    pub fn command_kind(command: &str) -> (k: Option<CargoCommand>)
        ensures
            k == command_kind_of(command@),
    {
        if str_eq(command, "test") {
            Some(CargoCommand::Test)
        } else if str_eq(command, "check") {
            Some(CargoCommand::Check)
        } else if str_eq(command, "clippy") {
            Some(CargoCommand::Clippy)
        } else {
            None
        }
    }

    /// The arguments cargo is started with for a subcommand.
    pub fn cargo_args(kind: CargoCommand) -> (a: Vec<String>)
        ensures
            kind == CargoCommand::Test ==> a@.len() == 1 && a@[0]@ == "test"@,
            kind == CargoCommand::Check ==> a@.len() == 1 && a@[0]@ == "check"@,
            kind == CargoCommand::Clippy ==> a@.len() == 4 && a@[0]@ == "clippy"@ && a@[1]@
                == "--"@ && a@[2]@ == "-D"@ && a@[3]@ == "warnings"@,
    {
        let mut a: Vec<String> = Vec::new();
        match kind {
            CargoCommand::Test => a.push(String::from_str("test")),
            CargoCommand::Check => a.push(String::from_str("check")),
            CargoCommand::Clippy => {
                a.push(String::from_str("clippy"));
                a.push(String::from_str("--"));
                a.push(String::from_str("-D"));
                a.push(String::from_str("warnings"));
            },
        }
        a
    }

    /// The report of a finished run.
    pub fn report(kind: CargoCommand, success: bool, stdout: &str, stderr: &str) -> (s: String)
        ensures
            s@ == run_report(kind, success, stdout@, stderr@),
    {
        let mut out: Vec<char> = Vec::new();
        match kind {
            CargoCommand::Test => push_str(&mut out, if success {
                "Tests passed!\n"
            } else {
                "Tests failed:\n"
            }),
            CargoCommand::Check => push_str(&mut out, if success {
                "Check passed!\n"
            } else {
                "Check failed:\n"
            }),
            CargoCommand::Clippy => push_str(&mut out, if success {
                "Clippy passed!\n"
            } else {
                "Clippy warnings/errors:\n"
            }),
        }
        push_str(&mut out, stdout);
        if !success {
            push_str(&mut out, "\n");
            push_str(&mut out, stderr);
        }
        string_from(&out)
    }

    /// The result for a directory that does not exist.
    pub fn missing_directory_result(dir: &str) -> (r: ToolResult)
        ensures
            is_error_result(r, "Directory not found: "@ + dir@),
    {
        let mut msg = to_chars("Directory not found: ");
        push_str(&mut msg, dir);
        ToolResult::error(string_from(&msg).as_str())
    }

    /// The result for a command word that names no subcommand.
    pub fn unknown_command_result(command: &str) -> (r: ToolResult)
        ensures
            is_error_result(
                r,
                "Unknown test command: "@ + command@ + ". Use 'test', 'check', or 'clippy'"@,
            ),
    {
        let mut msg = to_chars("Unknown test command: ");
        push_str(&mut msg, command);
        push_str(&mut msg, ". Use 'test', 'check', or 'clippy'");
        ToolResult::error(string_from(&msg).as_str())
    }
}

} // verus!
