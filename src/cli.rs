use vstd::prelude::*;

verus! {

/// The concurrency used for either budget when none is given.
pub const DEFAULT_CONCURRENCY: usize = 64;

/// The command line: one sub-command.
#[derive(Debug)]
pub struct Cli {
    pub command: Command,
}

/// The sub-commands.
#[derive(Debug)]
pub enum Command {
    /// Crawl the current directory and validate every module in it.
    Validate(Validate),
}

/// The settings of a validation run.
#[derive(Clone, Copy, Debug, PartialEq, Eq, Structural)]
pub struct Validate {
    /// Maximum concurrency for filesystem traversal.
    pub max_concurrency_fs: usize,
    /// Maximum concurrency for processes.
    pub max_concurrency_process: usize,
}

impl Default for Validate {
    fn default() -> (r: Validate)
        ensures
            r.max_concurrency_fs == DEFAULT_CONCURRENCY,
            r.max_concurrency_process == DEFAULT_CONCURRENCY,
    {
        Validate {
            max_concurrency_fs: DEFAULT_CONCURRENCY,
            max_concurrency_process: DEFAULT_CONCURRENCY,
        }
    }
}

} // verus!
