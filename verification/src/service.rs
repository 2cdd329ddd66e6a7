//! The application service: one database file, named by its path.
use vstd::prelude::*;

use crate::text::owned;

verus! {

/// The application service over one database file. The path is kept as given; it is
/// resolved and opened only when an operation runs.
#[derive(Debug, Clone)]
pub struct Service {
    database_path: String,
}

impl Service {
    /// The path of the database this service works on.
    pub closed spec fn path(&self) -> Seq<char> {
        self.database_path@
    }

    pub fn new(database_path: &str) -> (s: Self)
        ensures
            s.path() == database_path@,
    {
        Service { database_path: owned(database_path) }
    }

    pub fn database_path(&self) -> (r: &str)
        ensures
            r@ == self.path(),
    {
        self.database_path.as_str()
    }
}

} // verus!
