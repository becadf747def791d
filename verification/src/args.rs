//! Command-line argument parsing: an option may override the configuration
//! or log file path and set the verbosity; every other word names an input
//! file.

use vstd::prelude::*;

use crate::text::starts_with_char;
use crate::text::starts_with_ddash;
use crate::text::str_is;

verus! {

/// Logging verbosity.
#[derive(Debug, Default, Clone, Copy, PartialEq, Eq, Structural)]
pub enum Verbosity {
    #[default]
    Warn,
    Info,
    Debug,
    Trace,
}

/// Mathematical model of [`Args`].
pub struct SpecArgs {
    pub config_file: Option<Seq<char>>,
    pub log_file: Option<Seq<char>>,
    pub verbosity: Verbosity,
    pub files: Seq<Seq<char>>,
}

/// The parsed options.
#[derive(Debug)]
pub struct Args {
    pub config_file: Option<String>,
    pub log_file: Option<String>,
    pub verbosity: Verbosity,
    pub files: Vec<String>,
}

impl Args {
    /// The mathematical value of these options.
    pub open spec fn model(self) -> SpecArgs {
        SpecArgs {
            config_file: self.config_file.deep_view(),
            log_file: self.log_file.deep_view(),
            verbosity: self.verbosity,
            files: self.files.deep_view(),
        }
    }
}

/// The options before any argument: nothing overridden, lowest verbosity,
/// no files.
pub open spec fn spec_default_args() -> SpecArgs {
    SpecArgs { config_file: None, log_file: None, verbosity: Verbosity::Warn, files: Seq::empty() }
}

impl Default for Args {
    /// The options before any argument.
    fn default() -> (r: Self)
        ensures
            r.model() == spec_default_args(),
    {
        let r = Args {
            config_file: None,
            log_file: None,
            verbosity: Verbosity::Warn,
            files: Vec::new(),
        };
        proof {
            assert(r.files.deep_view() =~= Seq::<Seq<char>>::empty());
        }
        r
    }
}

/// Mathematical model of [`Cli`].
pub enum SpecCli {
    Help,
    Version,
    Health(Option<Seq<char>>),
    Options(SpecArgs),
}

/// What the command line asks for.
#[derive(Debug)]
pub enum Cli {
    Help,
    Version,
    Health(Option<String>),
    Options(Args),
}

impl Cli {
    /// The mathematical value of this request.
    pub open spec fn model(self) -> SpecCli {
        match self {
            Cli::Help => SpecCli::Help,
            Cli::Version => SpecCli::Version,
            Cli::Health(arg) => SpecCli::Health(arg.deep_view()),
            Cli::Options(args) => SpecCli::Options(args.model()),
        }
    }
}

impl Default for Cli {
    /// The request of an empty command line.
    fn default() -> (r: Self)
        ensures
            r.model() == SpecCli::Options(spec_default_args()),
    {
        Cli::Options(Args::default())
    }
}

/// Mathematical model of [`ArgError`].
pub enum SpecArgError {
    MissingPath(Seq<char>),
    MissingLevel(Seq<char>),
    InvalidLevel(Seq<char>),
    Unexpected(Seq<char>),
}

/// Why a command line was rejected; each variant carries the offending
/// option or argument.
#[derive(Debug)]
pub enum ArgError {
    MissingPath(String),
    MissingLevel(String),
    InvalidLevel(String),
    Unexpected(String),
}

impl ArgError {
    /// The mathematical value of this rejection.
    pub open spec fn model(self) -> SpecArgError {
        match self {
            ArgError::MissingPath(s) => SpecArgError::MissingPath(s@),
            ArgError::MissingLevel(s) => SpecArgError::MissingLevel(s@),
            ArgError::InvalidLevel(s) => SpecArgError::InvalidLevel(s@),
            ArgError::Unexpected(s) => SpecArgError::Unexpected(s@),
        }
    }
}

/// What the arguments from position `i` on ask for, over the options
/// accumulated so far. `-h`, `-V` and `--health` answer at once; `-c`, `-l`
/// and `-v` consume the following argument; an unknown double-dash word is
/// rejected; everything else is an input file.
pub open spec fn spec_parse(args: Seq<Seq<char>>, i: int, acc: SpecArgs) -> Result<
    SpecCli,
    SpecArgError,
>
    decreases args.len() - i,
{
    if i < 0 || i >= args.len() {
        Ok(SpecCli::Options(acc))
    } else {
        let a = args[i];
        if a == "-h"@ || a == "--help"@ {
            Ok(SpecCli::Help)
        } else if a == "-V"@ || a == "--version"@ {
            Ok(SpecCli::Version)
        } else if a == "--health"@ {
            if i + 1 < args.len() && !(args[i + 1].len() > 0 && args[i + 1][0] == '-') {
                Ok(SpecCli::Health(Some(args[i + 1])))
            } else {
                Ok(SpecCli::Health(None))
            }
        } else if a == "-c"@ || a == "--config"@ {
            if i + 1 < args.len() {
                spec_parse(args, i + 2, SpecArgs { config_file: Some(args[i + 1]), ..acc })
            } else {
                Err(SpecArgError::MissingPath(a))
            }
        } else if a == "-l"@ || a == "--log"@ {
            if i + 1 < args.len() {
                spec_parse(args, i + 2, SpecArgs { log_file: Some(args[i + 1]), ..acc })
            } else {
                Err(SpecArgError::MissingPath(a))
            }
        } else if a == "-v"@ {
            if i + 1 < args.len() {
                let lv = args[i + 1];
                if lv == "0"@ {
                    spec_parse(args, i + 2, SpecArgs { verbosity: Verbosity::Warn, ..acc })
                } else if lv == "1"@ {
                    spec_parse(args, i + 2, SpecArgs { verbosity: Verbosity::Info, ..acc })
                } else if lv == "2"@ {
                    spec_parse(args, i + 2, SpecArgs { verbosity: Verbosity::Debug, ..acc })
                } else if lv == "3"@ {
                    spec_parse(args, i + 2, SpecArgs { verbosity: Verbosity::Trace, ..acc })
                } else {
                    Err(SpecArgError::InvalidLevel(a))
                }
            } else {
                Err(SpecArgError::MissingLevel(a))
            }
        } else if a.len() >= 2 && a[0] == '-' && a[1] == '-' {
            Err(SpecArgError::Unexpected(a))
        } else {
            spec_parse(args, i + 1, SpecArgs { files: acc.files + seq![a], ..acc })
        }
    }
}

impl Cli {
    /// Parses the command line arguments, the program name already dropped.
    #[verifier::loop_isolation(false)]
    pub fn parse(args: &Vec<String>) -> (r: Result<Cli, ArgError>)
        ensures
            match r {
                Ok(c) => spec_parse(args.deep_view(), 0, spec_default_args()) == Ok::<
                    SpecCli,
                    SpecArgError,
                >(c.model()),
                Err(e) => spec_parse(args.deep_view(), 0, spec_default_args()) == Err::<
                    SpecCli,
                    SpecArgError,
                >(e.model()),
            },
    {
        let ghost d = args.deep_view();
        let mut acc = Args::default();
        let mut i: usize = 0;
        while i < args.len()
            invariant
                i <= args.len(),
                d.len() == args@.len(),
                spec_parse(d, 0, spec_default_args()) == spec_parse(d, i as int, acc.model()),
            decreases args.len() - i,
        {
            let a = &args[i];
            if str_is(a, "-h") || str_is(a, "--help") {
                return Ok(Cli::Help);
            } else if str_is(a, "-V") || str_is(a, "--version") {
                return Ok(Cli::Version);
            } else if str_is(a, "--health") {
                if i + 1 < args.len() && !starts_with_char(&args[i + 1], '-') {
                    return Ok(Cli::Health(Some(args[i + 1].clone())));
                } else {
                    return Ok(Cli::Health(None));
                }
            } else if str_is(a, "-c") || str_is(a, "--config") {
                if i + 1 < args.len() {
                    acc.config_file = Some(args[i + 1].clone());
                    i = i + 2;
                } else {
                    return Err(ArgError::MissingPath(a.clone()));
                }
            } else if str_is(a, "-l") || str_is(a, "--log") {
                if i + 1 < args.len() {
                    acc.log_file = Some(args[i + 1].clone());
                    i = i + 2;
                } else {
                    return Err(ArgError::MissingPath(a.clone()));
                }
            } else if str_is(a, "-v") {
                if i + 1 < args.len() {
                    let lv = &args[i + 1];
                    if str_is(lv, "0") {
                        acc.verbosity = Verbosity::Warn;
                    } else if str_is(lv, "1") {
                        acc.verbosity = Verbosity::Info;
                    } else if str_is(lv, "2") {
                        acc.verbosity = Verbosity::Debug;
                    } else if str_is(lv, "3") {
                        acc.verbosity = Verbosity::Trace;
                    } else {
                        return Err(ArgError::InvalidLevel(a.clone()));
                    }
                    i = i + 2;
                } else {
                    return Err(ArgError::MissingLevel(a.clone()));
                }
            } else if starts_with_ddash(a) {
                return Err(ArgError::Unexpected(a.clone()));
            } else {
                let ghost before = acc.files.deep_view();
                acc.files.push(a.clone());
                proof {
                    assert(acc.files.deep_view() =~= before + seq![d[i as int]]);
                }
                i = i + 1;
            }
        }
        Ok(Cli::Options(acc))
    }
}

} // verus!
