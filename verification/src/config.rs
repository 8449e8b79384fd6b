//! The settings of the program.

use vstd::prelude::*;

verus! {

/// Where the store is saved, and how many workers process tasks.
pub struct Config {
    pub database_path: String,
    pub worker_threads: usize,
}

impl Default for Config {
    /// The settings used where none are given: the store in `tasks.db`,
    /// and four workers.
    fn default() -> (config: Config)
        ensures
            config.database_path@ == "tasks.db"@,
            config.worker_threads == 4,
    {
        Config { database_path: "tasks.db".to_owned(), worker_threads: 4 }
    }
}

} // verus!
