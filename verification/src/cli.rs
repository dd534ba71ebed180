//! Command-line interface of the flashing tool: which command a list of
//! arguments asks for.
//!
//! Usage:
//!   bk-cli ports
//!   bk-cli flash --soc <path> --port <port>
//!   bk-cli log   --port <port> [--baud <rate>]
//!   bk-cli test  --soc <path> --port <port> [--timeout <secs>]

use vstd::prelude::*;

use crate::text::{parse_bounded, parse_u32, parse_u64, push_str, str_eq, string_views};

verus! {

/// The baud rate of `log` when `--baud` gives none.
pub const DEFAULT_LOG_BAUD: u32 = 2_000_000;

/// The boot-log capture window, in seconds: that of `flash`, and that of
/// `test` when `--timeout` gives none.
pub const DEFAULT_CAPTURE_SECS: u64 = 20;

/// `args[i]` is the first occurrence of `flag` that has an argument after it.
pub open spec fn flag_at(args: Seq<Seq<char>>, flag: Seq<char>, i: int) -> bool {
    &&& 0 <= i && i + 1 < args.len()
    &&& args[i] == flag
    &&& forall|k: int| 0 <= k < i ==> args[k] != flag
}

/// The argument that follows the first occurrence of `flag`, if any.
pub open spec fn arg_after(args: Seq<Seq<char>>, flag: Seq<char>) -> Option<Seq<char>> {
    if exists|i: int| flag_at(args, flag, i) {
        Some(args[(choose|i: int| flag_at(args, flag, i)) + 1])
    } else {
        None
    }
}

/// The number given by an optional argument, or `default` when it is absent
/// or does not read as a number that fits under `max`.
pub open spec fn number_or(arg: Option<Seq<char>>, max: int, default: int) -> int {
    match arg {
        Some(s) => match parse_bounded(s, max) {
            Some(v) => v,
            None => default,
        },
        None => default,
    }
}

/// Finds `flag` among `args` and returns the argument after it (the value of
/// `--flag <value>`); the first occurrence that has a following argument wins.
pub fn get_arg(args: &Vec<String>, flag: &str) -> (r: Option<String>)
    ensures
        match r {
            Some(v) => arg_after(string_views(args@), flag@) == Some(v@),
            None => arg_after(string_views(args@), flag@) is None,
        },
{
    let ghost a = string_views(args@);
    let n = args.len();
    if n < 2 {
        assert(!exists|i: int| flag_at(a, flag@, i));
        return None;
    }
    let mut i: usize = 0;
    while i + 1 < n
        invariant
            n == args@.len(),
            a == string_views(args@),
            i + 1 <= n,
            forall|k: int| 0 <= k < i ==> a[k] != flag@,
        decreases n - i,
    {
        if str_eq(args[i].as_str(), flag) {
            assert(flag_at(a, flag@, i as int));
            let ghost j = choose|j: int| flag_at(a, flag@, j);
            assert(j == i) by {
                if j < i {
                    assert(a[j] != flag@);
                } else if j > i {
                    assert(a[i as int] != flag@);
                }
            }
            return Some(args[i + 1].clone());
        }
        i = i + 1;
    }
    assert(!exists|j: int| flag_at(a, flag@, j)) by {
        if exists|j: int| flag_at(a, flag@, j) {
            let j = choose|j: int| flag_at(a, flag@, j);
            assert(j < i);
            assert(a[j] != flag@);
        }
    }
    None
}

/// A command of the tool.
pub enum Command {
    /// List the serial ports.
    Ports,
    /// Flash the firmware in `soc` through `port`.
    Flash { soc: String, port: String },
    /// Stream the serial log of `port` at `baud`.
    Log { port: String, baud: u32 },
    /// Flash, then check the boot log for `timeout_secs` seconds.
    Test { soc: String, port: String, timeout_secs: u64 },
    /// Show the usage text.
    Help,
}

/// Why a list of arguments names no command.
pub enum CliError {
    /// No command was given: the usage text is shown.
    Usage,
    /// A required `--flag <value>` is missing.
    MissingArgument(String),
    /// The command is not one the tool knows.
    UnknownCommand(String),
}

impl CliError {
    /// The error line reported, if any: `"<flag> is required"` or
    /// `"Unknown command: <name>"`.
    pub fn message(&self) -> (r: Option<String>)
        ensures
            match self {
                CliError::Usage => r is None,
                CliError::MissingArgument(f) => r matches Some(m) && m@ == f@ + " is required"@,
                CliError::UnknownCommand(c) => r matches Some(m) && m@ == "Unknown command: "@
                    + c@,
            },
    {
        match self {
            CliError::Usage => None,
            CliError::MissingArgument(f) => {
                let mut m = f.clone();
                push_str(&mut m, " is required");
                Some(m)
            },
            CliError::UnknownCommand(c) => {
                let mut m = String::new();
                push_str(&mut m, "Unknown command: ");
                push_str(&mut m, c.as_str());
                Some(m)
            },
        }
    }
}

/// `r` is the error that flag `flag` is missing.
pub open spec fn missing(r: Result<Command, CliError>, flag: Seq<char>) -> bool {
    r matches Err(CliError::MissingArgument(f)) && f@ == flag
}

/// The result of reading the command `args[1]` of `args` (`args[0]` being the
/// program): see `parse_command`.
pub open spec fn command_matches(args: Seq<Seq<char>>, r: Result<Command, CliError>) -> bool {
    let cmd = args[1];
    let soc = arg_after(args, "--soc"@);
    let port = arg_after(args, "--port"@);
    if cmd == "ports"@ {
        r matches Ok(Command::Ports)
    } else if cmd == "flash"@ {
        match (soc, port) {
            (None, _) => missing(r, "--soc"@),
            (Some(_), None) => missing(r, "--port"@),
            (Some(s), Some(p)) => r matches Ok(Command::Flash { soc: rs, port: rp }) && rs@ == s
                && rp@ == p,
        }
    } else if cmd == "log"@ {
        match port {
            None => missing(r, "--port"@),
            Some(p) => r matches Ok(Command::Log { port: rp, baud }) && rp@ == p && baud
                == number_or(arg_after(args, "--baud"@), u32::MAX as int, DEFAULT_LOG_BAUD as int),
        }
    } else if cmd == "test"@ {
        match (soc, port) {
            (None, _) => missing(r, "--soc"@),
            (Some(_), None) => missing(r, "--port"@),
            (Some(s), Some(p)) => r matches Ok(Command::Test { soc: rs, port: rp, timeout_secs })
                && rs@ == s && rp@ == p && timeout_secs == number_or(
                arg_after(args, "--timeout"@),
                u64::MAX as int,
                DEFAULT_CAPTURE_SECS as int,
            ),
        }
    } else if cmd == "--help"@ || cmd == "-h"@ || cmd == "help"@ {
        r matches Ok(Command::Help)
    } else {
        r matches Err(CliError::UnknownCommand(c)) && c@ == cmd
    }
}

fn required(args: &Vec<String>, flag: &str) -> (r: Result<String, CliError>)
    ensures
        match r {
            Ok(v) => arg_after(string_views(args@), flag@) == Some(v@),
            Err(e) => arg_after(string_views(args@), flag@) is None && (e matches CliError::MissingArgument(f) && f@ == flag@),
        },
{
    match get_arg(args, flag) {
        Some(v) => Ok(v),
        None => Err(CliError::MissingArgument(flag.to_owned())),
    }
}

/// Reads the command of a command line (`args[0]` is the program). Fewer
/// than two arguments is a usage error; otherwise the command named by
/// `args[1]` with its flags, as `command_matches` states.
pub fn parse_command(args: &Vec<String>) -> (r: Result<Command, CliError>)
    ensures
        args@.len() < 2 ==> r matches Err(CliError::Usage),
        args@.len() >= 2 ==> command_matches(string_views(args@), r),
{
    if args.len() < 2 {
        return Err(CliError::Usage);
    }
    let ghost a = string_views(args@);
    assert(a[1] == args@[1]@);
    let cmd = args[1].as_str();
    if str_eq(cmd, "ports") {
        Ok(Command::Ports)
    } else if str_eq(cmd, "flash") {
        let soc = match required(args, "--soc") {
            Ok(v) => v,
            Err(e) => return Err(e),
        };
        let port = match required(args, "--port") {
            Ok(v) => v,
            Err(e) => return Err(e),
        };
        Ok(Command::Flash { soc, port })
    } else if str_eq(cmd, "log") {
        let port = match required(args, "--port") {
            Ok(v) => v,
            Err(e) => return Err(e),
        };
        let baud = match get_arg(args, "--baud") {
            Some(s) => match parse_u32(s.as_str()) {
                Some(v) => v,
                None => DEFAULT_LOG_BAUD,
            },
            None => DEFAULT_LOG_BAUD,
        };
        Ok(Command::Log { port, baud })
    } else if str_eq(cmd, "test") {
        let soc = match required(args, "--soc") {
            Ok(v) => v,
            Err(e) => return Err(e),
        };
        let port = match required(args, "--port") {
            Ok(v) => v,
            Err(e) => return Err(e),
        };
        let timeout_secs = match get_arg(args, "--timeout") {
            Some(s) => match parse_u64(s.as_str()) {
                Some(v) => v,
                None => DEFAULT_CAPTURE_SECS,
            },
            None => DEFAULT_CAPTURE_SECS,
        };
        Ok(Command::Test { soc, port, timeout_secs })
    } else if str_eq(cmd, "--help") || str_eq(cmd, "-h") || str_eq(cmd, "help") {
        Ok(Command::Help)
    } else {
        Err(CliError::UnknownCommand(args[1].clone()))
    }
}

} // verus!
