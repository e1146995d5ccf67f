//! The command line: which command the arguments ask for, and the example
//! configuration.
use vstd::prelude::*;
use crate::text::{text_eq, text_of};

verus! {

/// The commands of the program.
#[derive(Debug)]
pub enum Command {
    /// No command was given: show the usage.
    Usage,
    /// Run with the configuration file at this path.
    Run(String),
    /// `run` without a configuration file path.
    MissingConfig,
    /// Run the demonstration pipeline.
    Demo,
    /// Run the internal checks.
    Test,
    /// Show the usage.
    Help,
    /// Show the version.
    Version,
    /// A command that does not exist; its name.
    Unknown(String),
}

/// Whether `c` is the command that the arguments ask for; the first
/// argument is the program's own name.
pub open spec fn is_command_of(args: Seq<Seq<char>>, c: Command) -> bool {
    if args.len() < 2 {
        c is Usage
    } else {
        let w = args[1];
        if w == "run"@ {
            if args.len() < 3 {
                c is MissingConfig
            } else {
                c matches Command::Run(p) && p@ == args[2]
            }
        } else if w == "demo"@ {
            c is Demo
        } else if w == "test"@ {
            c is Test
        } else if w == "help"@ || w == "--help"@ || w == "-h"@ {
            c is Help
        } else if w == "version"@ || w == "--version"@ || w == "-v"@ {
            c is Version
        } else {
            c matches Command::Unknown(n) && n@ == w
        }
    }
}

/// The views of the arguments.
pub open spec fn arg_texts(args: Seq<String>) -> Seq<Seq<char>> {
    args.map_values(|a: String| a@)
}

/// The command that the arguments ask for.
pub fn parse_command(args: &Vec<String>) -> (c: Command)
    ensures
        is_command_of(arg_texts(args@), c),
{
    if args.len() < 2 {
        return Command::Usage;
    }
    let w = args[1].as_str();
    if text_eq(w, "run") {
        if args.len() < 3 {
            Command::MissingConfig
        } else {
            Command::Run(args[2].clone())
        }
    } else if text_eq(w, "demo") {
        Command::Demo
    } else if text_eq(w, "test") {
        Command::Test
    } else if text_eq(w, "help") || text_eq(w, "--help") || text_eq(w, "-h") {
        Command::Help
    } else if text_eq(w, "version") || text_eq(w, "--version") || text_eq(w, "-v") {
        Command::Version
    } else {
        Command::Unknown(args[1].clone())
    }
}

/// An example configuration file.
pub fn example_config() -> (r: String)
    ensures
        r@ == EXAMPLE_CONFIG@,
{
    text_of(EXAMPLE_CONFIG)
}

/// The text of the example configuration file.
pub const EXAMPLE_CONFIG: &'static str = "# Example GoHangout-rs configuration
inputs:
  - type: random
    name: random_input
    config:
      from: 1
      to: 1000
      max_messages: 100

filters:
  - type: add_field
    name: add_timestamp
    config:
      field: \"@timestamp\"
      value: \"{{timestamp}}\"

outputs:
  - type: stdout
    name: console_output
    config:
      format: json
      pretty: true
";

}
