use vstd::prelude::*;

verus! {

/// The user's preferences.
#[derive(PartialEq, Eq, Structural, Debug, Clone, Copy)]
pub struct Config {
    pub prefer_dark_theme: bool,
}

impl Config {
    /// The preferences when none were saved: the light theme.
    pub fn default_config() -> (r: Config)
        ensures
            r == (Config { prefer_dark_theme: false }),
    {
        Config { prefer_dark_theme: false }
    }
}

} // verus!
