//! What the command line asks the bench to do.
use vstd::prelude::*;

verus! {

/// The settings a run reads from its configuration file.
#[derive(Clone, Debug)]
pub struct Config {
    /// Transactions a serial run sends; the bench account is prepared with
    /// two cells for each.
    pub transactions: usize,
    /// Endpoints of the nodes to submit to.
    pub rpc_urls: Vec<String>,
}

/// The mode chosen on the command line, with its configuration.
pub enum CommandLine {
    /// Mine this many blocks, then exit.
    MineMode(Config, u64),
    /// Send transactions continuously for this many seconds.
    BenchMode(Config, u64),
    /// Prepare the cells of the bench account.
    InitBenchAccount(Config),
}

impl CommandLine {
    /// The configuration that every mode carries.
    pub fn config(&self) -> (r: &Config)
        ensures
            match self {
                CommandLine::MineMode(c, _) => r == c,
                CommandLine::BenchMode(c, _) => r == c,
                CommandLine::InitBenchAccount(c) => r == c,
            },
    {
        match self {
            CommandLine::MineMode(c, _) => c,
            CommandLine::BenchMode(c, _) => c,
            CommandLine::InitBenchAccount(c) => c,
        }
    }
}

} // verus!
