//! The application's own settings, as far as setup and import touch them.

use vstd::prelude::*;

verus! {

/// The application's settings.
#[derive(Clone, Debug, PartialEq, Eq)]
pub struct DivaConfig {
    pub dark_mode: bool,
    pub first_run: bool,
    pub diva_dir: String,
    /// The load order of the installed mods, by name.
    pub priority: Vec<String>,
}

impl DivaConfig {
    /// The settings of a fresh installation: setup has not run, no game
    /// directory is known and no load order is set.
    pub fn new() -> (out: Self)
        ensures
            !out.dark_mode,
            out.first_run,
            out.diva_dir@.len() == 0,
            out.priority@.len() == 0,
    {
        DivaConfig { dark_mode: false, first_run: true, diva_dir: String::new(), priority: Vec::new() }
    }
}

} // verus!
