//! The command line of the health sampler.
use crate::text::{chars_of, concat, owned, parse_u64, parse_u64_chars, str_eq};
use vstd::prelude::*;

verus! {

#[derive(Debug, Clone, Copy, PartialEq, Eq, Structural)]
pub enum Mode {
    Daemon,
    Json,
}

#[derive(Debug, Clone, PartialEq, Eq)]
pub struct Cli {
    pub mode: Mode,
    pub from_socket: bool,
    pub socket_path: String,
    pub min_interval_ms: u64,
    pub normal_interval_ms: u64,
    pub max_interval_ms: u64,
    pub max_kernel_errors: usize,
}

/// What the command line asks for: a run with these settings, or the usage text.
#[derive(Debug, Clone, PartialEq, Eq)]
pub enum CliCommand {
    Run(Cli),
    Help,
}

/// The settings as plain values: mode, from-socket, socket path, the three
/// intervals and the kernel error limit.
pub type CliView = (Mode, bool, Seq<char>, u64, u64, u64, usize);

pub open spec fn cli_view(c: Cli) -> CliView {
    (
        c.mode,
        c.from_socket,
        c.socket_path@,
        c.min_interval_ms,
        c.normal_interval_ms,
        c.max_interval_ms,
        c.max_kernel_errors,
    )
}

pub open spec fn default_cli() -> CliView {
    (Mode::Daemon, false, "/run/sentia/health.sock"@, 2_000, 5_000, 20_000, 16)
}

impl Default for Cli {
    fn default() -> (r: Self)
        ensures
            cli_view(r) == default_cli(),
    {
        Cli {
            mode: Mode::Daemon,
            from_socket: false,
            socket_path: owned("/run/sentia/health.sock"),
            min_interval_ms: 2_000,
            normal_interval_ms: 5_000,
            max_interval_ms: 20_000,
            max_kernel_errors: 16,
        }
    }
}

/// `usize::from_str`.
pub open spec fn parse_usize(s: Seq<char>) -> Option<usize> {
    match parse_u64(s) {
        Some(v) => if v <= usize::MAX {
            Some(v as usize)
        } else {
            None
        },
        None => None,
    }
}

/// The outcome of reading the arguments from index `i` on, starting from the
/// settings `c`: the settings, `None` for the usage text, or an error message.
pub open spec fn cli_from(c: CliView, args: Seq<Seq<char>>, i: int) -> Result<Option<CliView>, Seq<char>>
    decreases args.len() - i,
{
    if i < 0 || i >= args.len() {
        Ok(Some(c))
    } else {
        let a = args[i];
        let v = if i + 1 < args.len() {
            Some(args[i + 1])
        } else {
            None
        };
        if a == "--json"@ {
            cli_from((Mode::Json, c.1, c.2, c.3, c.4, c.5, c.6), args, i + 1)
        } else if a == "--daemon"@ {
            cli_from((Mode::Daemon, c.1, c.2, c.3, c.4, c.5, c.6), args, i + 1)
        } else if a == "--from-socket"@ {
            cli_from((c.0, true, c.2, c.3, c.4, c.5, c.6), args, i + 1)
        } else if a == "--socket-path"@ {
            match v {
                None => Err("--socket-path expects a path"@),
                Some(p) => cli_from((c.0, c.1, p, c.3, c.4, c.5, c.6), args, i + 2),
            }
        } else if a == "--min-interval-ms"@ {
            match v {
                None => Err("--min-interval-ms expects a value"@),
                Some(p) => match parse_u64(p) {
                    None => Err("--min-interval-ms must be an integer"@),
                    Some(n) => cli_from((c.0, c.1, c.2, n, c.4, c.5, c.6), args, i + 2),
                },
            }
        } else if a == "--interval-ms"@ || a == "--normal-interval-ms"@ {
            match v {
                None => Err("--interval-ms expects a value"@),
                Some(p) => match parse_u64(p) {
                    None => Err("--interval-ms must be an integer"@),
                    Some(n) => cli_from((c.0, c.1, c.2, c.3, n, c.5, c.6), args, i + 2),
                },
            }
        } else if a == "--max-interval-ms"@ {
            match v {
                None => Err("--max-interval-ms expects a value"@),
                Some(p) => match parse_u64(p) {
                    None => Err("--max-interval-ms must be an integer"@),
                    Some(n) => cli_from((c.0, c.1, c.2, c.3, c.4, n, c.6), args, i + 2),
                },
            }
        } else if a == "--max-kernel-errors"@ {
            match v {
                None => Err("--max-kernel-errors expects a value"@),
                Some(p) => match parse_usize(p) {
                    None => Err("--max-kernel-errors must be an integer"@),
                    Some(n) => cli_from((c.0, c.1, c.2, c.3, c.4, c.5, n), args, i + 2),
                },
            }
        } else if a == "--help"@ || a == "-h"@ {
            Ok(None)
        } else {
            Err("unknown argument: "@ + a)
        }
    }
}

pub open spec fn arg_views(args: Seq<String>) -> Seq<Seq<char>> {
    args.map_values(|a: String| a@)
}

fn parse_number(text: &str) -> (r: Option<u64>)
    ensures
        r == parse_u64(text@),
{
    parse_u64_chars(chars_of(text).as_slice())
}

/// Reads the arguments after the program name.
pub fn parse_cli(args: &Vec<String>) -> (r: Result<CliCommand, String>)
    ensures
        match (r, cli_from(default_cli(), arg_views(args@), 0)) {
            (Ok(CliCommand::Run(c)), Ok(Some(v))) => cli_view(c) == v,
            (Ok(CliCommand::Help), Ok(None)) => true,
            (Err(e), Err(m)) => e@ == m,
            _ => false,
        },
{
    let ghost av = arg_views(args@);
    let mut cli = Cli::default();
    let mut index: usize = 0;
    while index < args.len()
        invariant
            index <= args.len(),
            av == arg_views(args@),
            cli_from(default_cli(), av, 0) == cli_from(cli_view(cli), av, index as int),
        decreases args.len() - index,
    {
        let a = args[index].as_str();
        assert(av[index as int] == a@);
        let has_value = index + 1 < args.len();
        proof {
            if has_value {
                assert(av[index + 1] == args@[index + 1]@);
            }
        }
        if str_eq(a, "--json") {
            cli.mode = Mode::Json;
        } else if str_eq(a, "--daemon") {
            cli.mode = Mode::Daemon;
        } else if str_eq(a, "--from-socket") {
            cli.from_socket = true;
        } else if str_eq(a, "--socket-path") {
            if !has_value {
                return Err(owned("--socket-path expects a path"));
            }
            index = index + 1;
            cli.socket_path = args[index].clone();
        } else if str_eq(a, "--min-interval-ms") {
            if !has_value {
                return Err(owned("--min-interval-ms expects a value"));
            }
            index = index + 1;
            match parse_number(args[index].as_str()) {
                Some(n) => cli.min_interval_ms = n,
                None => return Err(owned("--min-interval-ms must be an integer")),
            }
        } else if str_eq(a, "--interval-ms") || str_eq(a, "--normal-interval-ms") {
            if !has_value {
                return Err(owned("--interval-ms expects a value"));
            }
            index = index + 1;
            match parse_number(args[index].as_str()) {
                Some(n) => cli.normal_interval_ms = n,
                None => return Err(owned("--interval-ms must be an integer")),
            }
        } else if str_eq(a, "--max-interval-ms") {
            if !has_value {
                return Err(owned("--max-interval-ms expects a value"));
            }
            index = index + 1;
            match parse_number(args[index].as_str()) {
                Some(n) => cli.max_interval_ms = n,
                None => return Err(owned("--max-interval-ms must be an integer")),
            }
        } else if str_eq(a, "--max-kernel-errors") {
            if !has_value {
                return Err(owned("--max-kernel-errors expects a value"));
            }
            index = index + 1;
            match parse_number(args[index].as_str()) {
                Some(n) => {
                    if n > usize::MAX as u64 {
                        return Err(owned("--max-kernel-errors must be an integer"));
                    }
                    cli.max_kernel_errors = n as usize;
                },
                None => return Err(owned("--max-kernel-errors must be an integer")),
            }
        } else if str_eq(a, "--help") || str_eq(a, "-h") {
            return Ok(CliCommand::Help);
        } else {
            return Err(concat("unknown argument: ", a));
        }
        index = index + 1;
    }
    Ok(CliCommand::Run(cli))
}

} // verus!
