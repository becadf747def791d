//! The application root: the parsed options and the effective configuration,
//! constructed once per run and immutable thereafter.

use vstd::prelude::*;

use crate::args::Args;
use crate::config::Config;

verus! {

/// The application.
#[derive(Debug)]
pub struct App {
    pub args: Args,
    pub config: Config,
}

impl App {
    /// A fresh application holding exactly the given options and
    /// configuration.
    pub fn new(args: Args, config: Config) -> (r: Result<Self, String>)
        ensures
            r is Ok,
            r->Ok_0.args == args,
            r->Ok_0.config == config,
    {
        Ok(App { args, config })
    }
}

} // verus!
