//! Where the notes live.

use vstd::prelude::*;

use crate::paths::{expand_tilde, expanded_path, join_path, path_join};

verus! {

/// The user's settings.
#[derive(Debug)]
pub struct Config {
    /// The notes directory; a leading `~/` stands for the home directory.
    pub notes_dir: String,
}

/// Relies on `dirs::home_dir`: the home directory as the environment or the
/// user database gives it, when one is found. Nothing is promised of its
/// value, which differs between machines and runs.
#[verifier::external_body]
fn home_directory() -> (r: Option<String>) {
    match dirs::home_dir() {
        Some(p) => Some(p.to_string_lossy().into_owned()),
        None => None,
    }
}

/// The view of an optional string.
pub open spec fn opt_view(o: Option<String>) -> Option<Seq<char>> {
    match o {
        Some(s) => Some(s@),
        None => None,
    }
}

impl Config {
    /// The notes directory with `~/` expanded against the home directory,
    /// whatever that turns out to be; a path without `~/` is kept as it is.
    pub fn notes_path(&self) -> (r: String)
        ensures
            exists|home: Option<Seq<char>>| r@ == expanded_path(self.notes_dir@, home),
            !(self.notes_dir@.len() >= 2 && self.notes_dir@[0] == '~' && self.notes_dir@[1] == '/')
                ==> r@ == self.notes_dir@,
    {
        let home = home_directory();
        let r = expand_tilde(self.notes_dir.as_str(), home);
        assert(r@ == expanded_path(self.notes_dir@, opt_view(home)));
        r
    }

    /// The settings written when there are none: `Documents/Notes` under
    /// the home directory, or under the current one when no home is known.
    pub fn default_for(home: Option<String>) -> (r: Config)
        ensures
            r.notes_dir@ == join_path(
                join_path(
                    match home {
                        Some(h) => h@,
                        None => Seq::empty(),
                    },
                    "Documents"@,
                ),
                "Notes"@,
            ),
    {
        let base = match home {
            Some(h) => h,
            None => String::new(),
        };
        let docs = path_join(base.as_str(), "Documents");
        Config { notes_dir: path_join(docs.as_str(), "Notes") }
    }
}

} // verus!
