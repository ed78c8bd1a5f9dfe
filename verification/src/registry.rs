use vstd::prelude::*;

use crate::args::DEFAULT_MAX_DEPTH;
use crate::errors::DefragError;

verus! {

/// One on-disk database file of a profile, with the sizes the engine
/// records around compaction.
#[derive(Debug, PartialEq)]
pub struct Database {
    pub path: String,
    pub size_before: Option<u64>,
    pub size_after: Option<u64>,
    pub defrag: bool,
}

/// One browser user profile: a name (empty for single-profile browsers),
/// an absolute directory path, and its discovered databases.
#[derive(Debug, PartialEq)]
pub struct Profile {
    pub name: String,
    pub path: String,
    pub databases: Option<Vec<Database>>,
}

/// A named maintenance target owning its resolved profiles.
#[derive(Debug)]
pub struct Browser {
    pub name: String,
    pub database_lists: Option<Vec<Profile>>,
}

/// Run parameters: the maximum scan depth and, for the browser whose
/// profiles cannot be auto-discovered, an explicit profile path.
#[derive(Debug)]
pub struct Config {
    pub max_depth: usize,
    pub profile_path: Option<String>,
}

impl Default for Config {
    /// The default run: scan two levels deep, no explicit profile path.
    fn default() -> (c: Config)
        ensures
            c.max_depth == DEFAULT_MAX_DEPTH,
            c.profile_path is None,
    {
        Config { max_depth: DEFAULT_MAX_DEPTH, profile_path: None }
    }
}

impl Database {
    /// The record's internal invariant: an after-size is only ever recorded
    /// together with a before-size, and a database marked defragmented has
    /// both sizes.
    pub open spec fn wf(self) -> bool {
        &&& self.size_after is Some ==> self.size_before is Some
        &&& self.defrag ==> self.size_before is Some && self.size_after is Some
    }

    /// A freshly discovered database: no sizes measured, not defragmented.
    pub fn new(path: &str) -> (db: Database)
        ensures
            db.path@ == path@,
            db.size_before is None,
            db.size_after is None,
            !db.defrag,
            db.wf(),
    {
        Database {
            path: path.to_owned(),
            size_before: None,
            size_after: None,
            defrag: false,
        }
    }
}

impl Browser {
    /// A browser known only by name; its profiles are not yet resolved.
    pub fn new(name: &str) -> (b: Browser)
        ensures
            b.name@ == name@,
            b.database_lists is None,
    {
        Browser { name: name.to_owned(), database_lists: None }
    }

    /// Update the list of database files.
    ///
    /// `func` is the browser-specific profile listing function; its result,
    /// when it succeeds, becomes the browser's resolved profile list. On
    /// failure the browser is left unchanged and the error is handed back.
    pub fn list_databases<F: FnOnce(Config) -> Result<Vec<Profile>, DefragError>>(
        &mut self,
        func: F,
        config: Config,
    ) -> (r: Result<(), DefragError>)
        requires
            call_requires(func, (config,)),
        ensures
            final(self).name == old(self).name,
            r is Ok ==> exists|v: Vec<Profile>|
                call_ensures(func, (config,), Ok::<Vec<Profile>, DefragError>(v))
                    && final(self).database_lists == Some(v),
            r matches Err(e) ==> final(self).database_lists == old(self).database_lists
                && call_ensures(func, (config,), Err::<Vec<Profile>, DefragError>(e)),
    {
        match func(config) {
            Ok(v) => {
                self.database_lists = Some(v);
                Ok(())
            },
            Err(e) => Err(e),
        }
    }
}

} // verus!
