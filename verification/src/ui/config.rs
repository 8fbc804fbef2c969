//! The user's settings: the name of the chosen theme.
use vstd::prelude::*;

verus! {

/// The theme used when none was chosen.
pub open spec fn default_theme_spec() -> Seq<char> {
    "Catppuccin Mocha"@
}

/// The theme used when none was chosen.
pub fn default_theme_name() -> (r: String)
    ensures
        r@ == default_theme_spec(),
{
    String::from_str("Catppuccin Mocha")
}

/// Persisted settings.
#[derive(Debug, Clone)]
pub struct Config {
    /// The name of the selected theme (one of the built-in themes).
    pub theme: String,
}

impl Default for Config {
    fn default() -> (r: Self)
        ensures
            r.theme@ == default_theme_spec(),
    {
        Config { theme: default_theme_name() }
    }
}

} // verus!
