//! The colours of the program: dark, light, or what the system uses.

use vstd::prelude::*;
use vstd::string::*;
use crate::text;
use crate::text::Text;

verus! {

broadcast use vstd::string::group_string_axioms;

/// Which colours the program uses.
#[derive(Debug, Clone, Copy, PartialEq, Eq, Structural)]
pub enum ThemeMode {
    Dark,
    Light,
    System,
}

impl ThemeMode {
    /// The theme that a click on the theme button leads to.
    pub open spec fn following(self) -> ThemeMode {
        match self {
            ThemeMode::Dark => ThemeMode::Light,
            ThemeMode::Light => ThemeMode::System,
            ThemeMode::System => ThemeMode::Dark,
        }
    }

    /// What the theme is called.
    pub open spec fn name(self) -> Text {
        match self {
            ThemeMode::Dark => "Dark"@,
            ThemeMode::Light => "Light"@,
            ThemeMode::System => "System"@,
        }
    }

    /// The theme that a click on the theme button leads to.
    pub fn next(self) -> (r: ThemeMode)
        ensures
            r == self.following(),
    {
        match self {
            ThemeMode::Dark => ThemeMode::Light,
            ThemeMode::Light => ThemeMode::System,
            ThemeMode::System => ThemeMode::Dark,
        }
    }

    /// What the theme is called.
    pub fn label(self) -> (r: &'static str)
        ensures
            r@ == self.name(),
    {
        match self {
            ThemeMode::Dark => "Dark",
            ThemeMode::Light => "Light",
            ThemeMode::System => "System",
        }
    }

    /// The theme with a name, if there is one.
    pub fn named(name: &str) -> (r: Option<ThemeMode>)
        ensures
            match r {
                Some(theme) => theme.name() == name@,
                None => name@ != "Dark"@ && name@ != "Light"@ && name@ != "System"@,
            },
    {
        if text::same(name, "Dark") {
            Some(ThemeMode::Dark)
        } else if text::same(name, "Light") {
            Some(ThemeMode::Light)
        } else if text::same(name, "System") {
            Some(ThemeMode::System)
        } else {
            None
        }
    }
}

/// The theme button goes through every theme and comes back after three clicks.
pub proof fn law_themes_come_around(theme: ThemeMode)
    ensures
        theme.following() != theme,
        theme.following().following() != theme,
        theme.following().following().following() == theme,
{
}

/// A theme is known again by its name.
pub proof fn law_theme_names_differ(a: ThemeMode, b: ThemeMode)
    requires
        a.name() == b.name(),
    ensures
        a == b,
{
    reveal_strlit("Dark");
    reveal_strlit("Light");
    reveal_strlit("System");
    assert("Dark"@.len() == 4 && "Light"@.len() == 5 && "System"@.len() == 6);
}

} // verus!
