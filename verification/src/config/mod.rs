//! Where the store is kept.

use vstd::prelude::*;

verus! {

/// The configuration.
#[derive(Debug, PartialEq, Eq)]
pub struct Config {
    /// The path to the database file.
    pub db_path: String,
}

impl Clone for Config {
    fn clone(&self) -> (r: Config)
        ensures
            r.db_path@ == self.db_path@,
    {
        Config { db_path: self.db_path.clone() }
    }
}

} // verus!
