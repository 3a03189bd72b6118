//! Where the encrypted database lives.

use vstd::prelude::*;

verus! {

/// The database file and its key.
#[derive(Debug, Clone)]
pub struct DbConfig {
    pub path: String,
    pub key: String,
}

} // verus!
