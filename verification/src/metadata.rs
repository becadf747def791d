//! Process metadata: the effective configuration and log file paths, each a
//! write-once cell that accepts at most one override before first use, and
//! the conventional directory layout under the platform base directories.

use vstd::prelude::*;

use crate::text::str_concat;
use crate::text::str_of;

verus! {

/// The write-once configuration and log file paths.
#[derive(Debug)]
pub struct Metadata {
    config_file: Option<String>,
    log_file: Option<String>,
}

impl Metadata {
    /// A fresh metadata root with neither path decided yet.
    pub fn load() -> (r: Self)
        ensures
            r.spec_config_file() is None,
            r.spec_log_file() is None,
    {
        Metadata { config_file: None, log_file: None }
    }

    /// The configuration file path already decided, if any.
    pub closed spec fn spec_config_file(self) -> Option<Seq<char>> {
        match self.config_file {
            Some(p) => Some(p@),
            None => None,
        }
    }

    /// The log file path already decided, if any.
    pub closed spec fn spec_log_file(self) -> Option<Seq<char>> {
        match self.log_file {
            Some(p) => Some(p@),
            None => None,
        }
    }

    /// The configuration file path, decided on first use: the stored override
    /// when one was set, else `fallback`, which is then cached.
    pub fn config_file(&mut self, fallback: &str) -> (r: String)
        ensures
            final(self).spec_log_file() == old(self).spec_log_file(),
            match old(self).spec_config_file() {
                Some(p) => r@ == p && final(self).spec_config_file() == old(self).spec_config_file(),
                None => r@ == fallback@ && final(self).spec_config_file() == Some(fallback@),
            },
    {
        match &self.config_file {
            Some(p) => p.clone(),
            None => {
                let p = str_of(fallback);
                self.config_file = Some(p.clone());
                p
            },
        }
    }

    /// The log file path, decided on first use, as `config_file`.
    pub fn log_file(&mut self, fallback: &str) -> (r: String)
        ensures
            final(self).spec_config_file() == old(self).spec_config_file(),
            match old(self).spec_log_file() {
                Some(p) => r@ == p && final(self).spec_log_file() == old(self).spec_log_file(),
                None => r@ == fallback@ && final(self).spec_log_file() == Some(fallback@),
            },
    {
        match &self.log_file {
            Some(p) => p.clone(),
            None => {
                let p = str_of(fallback);
                self.log_file = Some(p.clone());
                p
            },
        }
    }

    /// Sets the configuration file path. Succeeds exactly when no path has
    /// been decided yet; a second override is rejected.
    pub fn set_config_file(&mut self, path: &str) -> (r: Result<(), String>)
        ensures
            final(self).spec_log_file() == old(self).spec_log_file(),
            r is Ok <==> old(self).spec_config_file() is None,
            r is Ok ==> final(self).spec_config_file() == Some(path@),
            r is Err ==> final(self).spec_config_file() == old(self).spec_config_file(),
    {
        match &self.config_file {
            Some(_) => Err(str_of("cannot override configuration file path")),
            None => {
                self.config_file = Some(str_of(path));
                Ok(())
            },
        }
    }

    /// Sets the log file path. Succeeds exactly when no path has been decided
    /// yet; a second override is rejected.
    pub fn set_log_file(&mut self, path: &str) -> (r: Result<(), String>)
        ensures
            final(self).spec_config_file() == old(self).spec_config_file(),
            r is Ok <==> old(self).spec_log_file() is None,
            r is Ok ==> final(self).spec_log_file() == Some(path@),
            r is Err ==> final(self).spec_log_file() == old(self).spec_log_file(),
    {
        match &self.log_file {
            Some(_) => Err(str_of("cannot override log file path")),
            None => {
                self.log_file = Some(str_of(path));
                Ok(())
            },
        }
    }
}

/// The product's configuration directory under the platform base
/// configuration directory.
pub fn config_dir(base_config_dir: &str) -> (r: String)
    ensures
        r@ == base_config_dir@ + "/tissue"@,
{
    str_concat(base_config_dir, "/tissue")
}

/// The product's cache directory under the platform base cache directory.
pub fn cache_dir(base_cache_dir: &str) -> (r: String)
    ensures
        r@ == base_cache_dir@ + "/tissue"@,
{
    str_concat(base_cache_dir, "/tissue")
}

/// The default configuration file inside the configuration directory.
pub fn default_config_file(config_dir: &str) -> (r: String)
    ensures
        r@ == config_dir@ + "/config.toml"@,
{
    str_concat(config_dir, "/config.toml")
}

/// The default log file inside the cache directory.
pub fn default_log_file(cache_dir: &str) -> (r: String)
    ensures
        r@ == cache_dir@ + "/tissue.log"@,
{
    str_concat(cache_dir, "/tissue.log")
}

} // verus!
