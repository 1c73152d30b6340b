//! The Alacritty integration: its settings file selects the color theme on
//! the line that starts with `colors`, and refers to a theme by an alias
//! reference, `*` followed by the theme's name.
//!
//! Reading and writing the settings file on disk belongs to the caller; the
//! functions here take the file's lines and return through them.

use crate::editor::{lemma_rewrite_idempotent, line_matches, rewrite, rewrite_spec};
use vstd::prelude::*;
use vstd::string::*;

verus! {

/// The prefix of the settings line that selects the color theme.
pub open spec fn settings_prefix() -> Seq<char> {
    "colors"@
}

/// The full settings line that selects the theme named `theme`.
pub open spec fn theme_line(theme: Seq<char>) -> Seq<char> {
    "colors: *"@ + theme
}

/// Configured theme names for Alacritty; an absent name makes the matching
/// mode switch a no-op.
#[derive(Debug, Clone)]
pub struct Alacritty {
    pub dark_theme: Option<String>,
    pub light_theme: Option<String>,
}

impl Alacritty {
    /// Switch the settings lines to the dark theme; when no dark theme is
    /// configured, leave them untouched.
    pub fn dark_mode(&self, lines: &mut Vec<String>)
        ensures
            self.dark_theme is Some ==> final(lines).deep_view() == rewrite_spec(
                old(lines).deep_view(),
                settings_prefix(),
                theme_line(self.dark_theme->0@),
            ),
            self.dark_theme is None ==> final(lines)@ == old(lines)@,
    {
        if let Some(theme) = &self.dark_theme {
            change_theme(theme.as_str(), lines);
        }
    }

    /// Switch the settings lines to the light theme; when no light theme is
    /// configured, leave them untouched.
    pub fn light_mode(&self, lines: &mut Vec<String>)
        ensures
            self.light_theme is Some ==> final(lines).deep_view() == rewrite_spec(
                old(lines).deep_view(),
                settings_prefix(),
                theme_line(self.light_theme->0@),
            ),
            self.light_theme is None ==> final(lines)@ == old(lines)@,
    {
        if let Some(theme) = &self.light_theme {
            change_theme(theme.as_str(), lines);
        }
    }

    /// Readiness check: the integration may be invoked only when both theme
    /// names are configured and the settings file exists on disk; the caller
    /// passes whether it does.
    pub fn is_some(&self, settings_file_present: bool) -> (b: bool)
        ensures
            b == (self.dark_theme is Some && self.light_theme is Some && settings_file_present),
    {
        self.dark_theme.is_some() && self.light_theme.is_some() && settings_file_present
    }
}

/// A theme-selection line itself starts with the settings prefix.
pub proof fn lemma_theme_line_matches(theme: Seq<char>)
    ensures
        line_matches(theme_line(theme), settings_prefix()),
{
    reveal_strlit("colors");
    reveal_strlit("colors: *");
    assert(settings_prefix() =~= theme_line(theme).subrange(0, 6));
}

/// Switching the settings lines to a theme twice yields the same lines as
/// switching once: the inserted line starts with the settings prefix, so a
/// second pass finds it again and rewrites it to itself.
pub proof fn lemma_switch_idempotent(lines: Seq<Seq<char>>, theme: Seq<char>)
    ensures
        rewrite_spec(
            rewrite_spec(lines, settings_prefix(), theme_line(theme)),
            settings_prefix(),
            theme_line(theme),
        ) == rewrite_spec(lines, settings_prefix(), theme_line(theme)),
{
    lemma_theme_line_matches(theme);
    lemma_rewrite_idempotent(lines, settings_prefix(), theme_line(theme));
}

/// Rewrite the theme-selection line of the settings lines to refer to
/// `theme`.
fn change_theme(theme: &str, lines: &mut Vec<String>)
    ensures
        final(lines).deep_view() == rewrite_spec(
            old(lines).deep_view(),
            settings_prefix(),
            theme_line(theme@),
        ),
{
    let mut insert = "colors: *".to_owned();
    insert.append(theme);
    proof {
        reveal_strlit("colors");
        assert(settings_prefix().len() > 0);
    }
    rewrite(lines, "colors", insert.as_str());
}

} // verus!
