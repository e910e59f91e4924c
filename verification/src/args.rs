//! Command line options.
#![allow(non_camel_case_types)]
use vstd::prelude::*;
use crate::tomlConf::configStruct::ErrorLevel;
use crate::text::str_eq;

verus! {

/// Whether to launch the game after updating it.
#[derive(Debug, Clone, Copy, PartialEq, Eq, Structural, Default)]
pub enum RunAfter {
    #[default]
    yes,
    no,
}

impl RunAfter {
    pub fn to_bool(&self) -> (r: bool)
        ensures
            r == (*self == RunAfter::yes),
    {
        match self {
            RunAfter::yes => true,
            RunAfter::no => false,
        }
    }

    /// The option's name on the command line.
    pub fn name(&self) -> (r: &'static str)
        ensures
            r@ == match self {
                RunAfter::yes => "yes"@,
                RunAfter::no => "no"@,
            },
    {
        match self {
            RunAfter::yes => "yes",
            RunAfter::no => "no",
        }
    }
}

/// The parsed command line: `one` names the single game to update (`none`
/// for all), `level` the log level, `run` whether to launch it afterwards.
#[derive(Debug, Clone)]
pub struct ArgsClap {
    pub one: String,
    pub level: ErrorLevel,
    pub run: RunAfter,
}

/// The game to run when the arguments are `<program> -run <game> ...`.
pub fn run_request(args: &Vec<String>) -> (r: Option<&String>)
    ensures
        match r {
            Some(g) => args@.len() > 2 && args@[1]@ == "-run"@ && *g == args@[2],
            None => !(args@.len() > 2 && args@[1]@ == "-run"@),
        },
{
    if args.len() > 2 && str_eq(args[1].as_str(), "-run") {
        Some(&args[2])
    } else {
        None
    }
}

/// The arguments a restart passes: the run choice and the game.
pub fn restart_args(run_after: RunAfter, short_name: &str) -> (r: Vec<String>)
    ensures
        r@.len() == 4,
        r@[0]@ == "-r"@,
        r@[1]@ == match run_after {
            RunAfter::yes => "yes"@,
            RunAfter::no => "no"@,
        },
        r@[2]@ == "--one"@,
        r@[3]@ == short_name@,
{
    vec![
        String::from_str("-r"),
        String::from_str(run_after.name()),
        String::from_str("--one"),
        crate::text::owned(short_name),
    ]
}

/// The log level: the one asked for on the command line, else the
/// configured one, else `info`.
pub fn logger_level(arg_level: ErrorLevel, config_level: Option<ErrorLevel>) -> (r: ErrorLevel)
    ensures
        r == if arg_level != ErrorLevel::none {
            arg_level
        } else {
            match config_level {
                Some(l) => l,
                None => ErrorLevel::info,
            }
        },
{
    if arg_level != ErrorLevel::none {
        arg_level
    } else {
        match config_level {
            Some(l) => l,
            None => ErrorLevel::info,
        }
    }
}

} // verus!
