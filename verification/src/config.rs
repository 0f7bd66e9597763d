//! Resolving one run's configuration from the command line and environment.

use vstd::prelude::*;

verus! {

/// Why the configuration could not be built.
#[derive(Clone, Copy, PartialEq, Eq, Structural, Debug)]
pub enum ConfigError {
    /// No query argument was given.
    MissingQuery,
    /// A query was given but no file path.
    MissingFilePath,
}

/// One run's settings: what to search for, in which file, and whether the
/// match is case-insensitive.  Built once per invocation and never mutated.
pub struct Config {
    pub query: String,
    pub file_path: String,
    pub ignore_case: bool,
}

impl Config {
    /// Builds the configuration from the argument vector (element 0 is the
    /// program name and is skipped: the query is element 1, the file path
    /// element 2) and from the value of the case-insensitivity environment
    /// variable, `None` when that variable is unset.  The variable's
    /// presence alone enables case folding, whatever its value.
    pub fn build(args: &Vec<String>, ignore_case_env: Option<String>) -> (r: Result<
        Config,
        ConfigError,
    >)
        ensures
            args@.len() < 2 ==> r == Err::<Config, ConfigError>(ConfigError::MissingQuery),
            args@.len() == 2 ==> r == Err::<Config, ConfigError>(ConfigError::MissingFilePath),
            args@.len() >= 3 ==> {
                &&& r is Ok
                &&& r->Ok_0.query == args@[1]
                &&& r->Ok_0.file_path == args@[2]
                &&& r->Ok_0.ignore_case == (ignore_case_env is Some)
            },
    {
        if args.len() < 2 {
            return Err(ConfigError::MissingQuery);
        }
        if args.len() < 3 {
            return Err(ConfigError::MissingFilePath);
        }
        let query = args[1].clone();
        let file_path = args[2].clone();
        let ignore_case = ignore_case_env.is_some();
        Ok(Config { query, file_path, ignore_case })
    }
}

} // verus!
