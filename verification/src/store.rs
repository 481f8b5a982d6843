//! Where the profile is kept, and what a read of it yields.

use vstd::prelude::*;
use crate::profile::{ConnectionProfile, default_profile};

verus! {

/// The profile's file name inside the data directory.
pub const PROFILE_FILE: &'static str = "profile.json";

/// Extension of the temporary file a save writes before renaming it.
pub const TEMP_EXTENSION: &'static str = "json.tmp";

/// The profile store of one data directory.
pub struct ProfileStore {
    data_dir: String,
}

impl ProfileStore {
    pub fn new(data_dir: &str) -> (s: Self)
        ensures
            s.dir() == data_dir@,
    {
        ProfileStore { data_dir: String::from_str(data_dir) }
    }

    pub closed spec fn dir(&self) -> Seq<char> {
        self.data_dir@
    }

    /// The data directory.
    pub fn data_dir(&self) -> (d: String)
        ensures
            d@ == self.dir(),
    {
        self.data_dir.clone()
    }

    /// Reading never fails: an unreadable file gives the defaults silently,
    /// a corrupt one gives the defaults and the warning to log.
    /// `read` is `None` when the file could not be read, else the parse result.
    pub fn loaded(read: Option<Result<ConnectionProfile, String>>) -> (r: (
        ConnectionProfile,
        Option<String>,
    ))
        ensures
            match read {
                Some(Ok(p)) => r.0@ == p@ && r.1 is None,
                Some(Err(e)) => r.0@ == default_profile() && (r.1 matches Some(w) && w@
                    == "Profile unreadable ("@ + e@ + "); using defaults."@),
                None => r.0@ == default_profile() && r.1 is None,
            },
    {
        match read {
            Some(Ok(p)) => (p, None),
            Some(Err(e)) => (
                ConnectionProfile::default(),
                Some(String::from_str("Profile unreadable (").concat(e.as_str()).concat(
                    "); using defaults.",
                )),
            ),
            None => (ConnectionProfile::default(), None),
        }
    }
}

} // verus!
