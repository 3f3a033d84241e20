//! Where the database file lives, and the rule that it may be changed only
//! until the database has been opened.

use vstd::prelude::*;

verus! {

/// The location of the database and whether it has been opened.
pub struct DbPath {
    path: String,
    opened: bool,
}

/// The outcome of a request to change the database location.
#[derive(PartialEq, Eq, Structural, Debug, Clone, Copy)]
pub enum PathConfig {
    /// The location was stored.
    Accepted,
    /// The database is already open; nothing was changed.
    RejectedAlreadyOpen,
}

impl DbPath {
    pub closed spec fn path_spec(&self) -> Seq<char> {
        self.path@
    }

    pub closed spec fn opened_spec(&self) -> bool {
        self.opened
    }

    /// A location that has not been opened yet.
    pub fn new(path: String) -> (r: DbPath)
        ensures
            r.path_spec() == path@,
            !r.opened_spec(),
    {
        DbPath { path, opened: false }
    }

    /// The current location.
    pub fn path(&self) -> (r: &String)
        ensures
            r@ == self.path_spec(),
    {
        &self.path
    }

    /// Whether the database has been opened.
    pub fn is_opened(&self) -> (r: bool)
        ensures
            r == self.opened_spec(),
    {
        self.opened
    }

    /// Records that the database has been opened: from now on the location
    /// is fixed.
    pub fn mark_opened(&mut self)
        ensures
            final(self).opened_spec(),
            final(self).path_spec() == old(self).path_spec(),
    {
        self.opened = true;
    }
}

/// Sets the location where the database is stored. Accepted only while the
/// database has not been opened; afterwards the request is rejected and the
/// state is left unchanged.
pub fn set_db_path(db: &mut DbPath, path: String) -> (r: PathConfig)
    ensures
        r == (if old(db).opened_spec() {
            PathConfig::RejectedAlreadyOpen
        } else {
            PathConfig::Accepted
        }),
        r == PathConfig::Accepted ==> final(db).path_spec() == path@,
        r == PathConfig::RejectedAlreadyOpen ==> final(db).path_spec() == old(db).path_spec(),
        final(db).opened_spec() == old(db).opened_spec(),
{
    if db.opened {
        return PathConfig::RejectedAlreadyOpen;
    }
    db.path = path;
    PathConfig::Accepted
}

} // verus!
