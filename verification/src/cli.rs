//! The pure part of command-line handling: choosing the mode from the
//! subcommand word, collecting file arguments and flags, and the
//! validation rules. Whether the named files exist is the boundary's
//! business, not this module's.

use vstd::prelude::*;

verus! {

/// What the command line asks for.
#[derive(Debug, PartialEq, Eq, Structural)]
pub enum Mode {
    Nop,
    Build,
    Run,
    Parse,
}

/// The parsed command line: the subcommand's mode, the file arguments as
/// given, and whether help was asked for.
#[derive(Debug)]
pub struct Cli {
    pub mode: Mode,
    pub files: Vec<String>,
    pub help: bool,
}

/// The views of the argument strings.
pub open spec fn views_of(v: Seq<String>) -> Seq<Seq<char>> {
    v.map_values(|x: String| x@)
}

/// The mode the subcommand word selects; anything else, or no word at
/// all, asks for nothing but help.
pub open spec fn spec_mode(argv: Seq<Seq<char>>) -> Mode {
    if argv.len() < 2 {
        Mode::Nop
    } else if argv[1] == "run"@ {
        Mode::Run
    } else if argv[1] == "build"@ {
        Mode::Build
    } else if argv[1] == "parse"@ {
        Mode::Parse
    } else {
        Mode::Nop
    }
}

/// A `--help` flag stands among the first `n` arguments after the
/// subcommand.
pub open spec fn spec_has_help(argv: Seq<Seq<char>>, n: int) -> bool
    decreases n,
{
    if n <= 2 {
        false
    } else {
        spec_has_help(argv, n - 1) || argv[n - 1] == "--help"@
    }
}

/// The file arguments among the first `n` arguments after the
/// subcommand: everything that is not a flag, in order.
pub open spec fn spec_files(argv: Seq<Seq<char>>, n: int) -> Seq<Seq<char>>
    decreases n,
{
    if n <= 2 {
        seq![]
    } else if argv[n - 1] == "--help"@ {
        spec_files(argv, n - 1)
    } else {
        spec_files(argv, n - 1).push(argv[n - 1])
    }
}

fn is_word(a: &String, b: &str) -> (r: bool)
    ensures
        r == (a@ == b@),
{
    *a == b.to_owned()
}

/// Parses the command line. The first argument is the program's own
/// name; the second selects the mode, and an unknown or missing
/// subcommand asks for help and nothing else. The remaining arguments
/// are `--help` flags and file names, kept in order and as given. A call
/// without help and without any file is refused, as is a `parse`
/// subcommand with more than one file.
#[verifier::loop_isolation(false)]
pub fn parse_argv(argv: Vec<String>) -> (r: Result<Cli, String>)
    ensures
        match r {
            Result::Ok(cli) => {
                let dv = views_of(argv@);
                &&& cli.mode == spec_mode(dv)
                &&& (cli.mode == Mode::Nop ==> cli.files@.len() == 0 && cli.help)
                &&& (cli.mode != Mode::Nop ==> {
                    &&& cli.help == spec_has_help(dv, dv.len() as int)
                    &&& views_of(cli.files@) == spec_files(dv, dv.len() as int)
                    &&& (cli.help || cli.files@.len() > 0)
                    &&& (cli.mode == Mode::Parse ==> cli.files@.len() <= 1)
                })
            },
            Result::Err(msg) => {
                let dv = views_of(argv@);
                let help = spec_has_help(dv, dv.len() as int);
                let files = spec_files(dv, dv.len() as int);
                &&& spec_mode(dv) != Mode::Nop
                &&& if !help && files.len() == 0 {
                    msg@ == "No file target is specified."@
                } else {
                    &&& spec_mode(dv) == Mode::Parse
                    &&& files.len() > 1
                    &&& msg@ == "Only one file can be specified for 'parse' subcommand"@
                }
            },
        },
{
    let ghost dv = views_of(argv@);
    let mode = if argv.len() < 2 {
        Mode::Nop
    } else if is_word(&argv[1], "run") {
        Mode::Run
    } else if is_word(&argv[1], "build") {
        Mode::Build
    } else if is_word(&argv[1], "parse") {
        Mode::Parse
    } else {
        Mode::Nop
    };
    if matches!(mode, Mode::Nop) {
        return Result::Ok(Cli { mode: Mode::Nop, files: Vec::new(), help: true });
    }
    let mut files: Vec<String> = Vec::new();
    let mut help = false;
    let mut idx: usize = 2;
    while idx < argv.len()
        invariant
            2 <= idx <= argv@.len(),
            help == spec_has_help(dv, idx as int),
            views_of(files@) == spec_files(dv, idx as int),
        decreases argv@.len() - idx,
    {
        if is_word(&argv[idx], "--help") {
            help = true;
        } else {
            files.push(argv[idx].clone());
            proof {
                assert(views_of(files@) =~= spec_files(dv, idx + 1));
            }
        }
        idx = idx + 1;
    }
    if !help && files.len() == 0 {
        return Result::Err("No file target is specified.".to_owned());
    }
    if matches!(mode, Mode::Parse) && files.len() > 1 {
        return Result::Err("Only one file can be specified for 'parse' subcommand".to_owned());
    }
    proof {
        assert(files@.len() == views_of(files@).len());
    }
    Result::Ok(Cli { mode, files, help })
}

} // verus!
