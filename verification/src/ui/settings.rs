//! The settings page: what it stores, and what it says.

use vstd::prelude::*;

use crate::config::{Change, ColorScheme, BYTES_PER_MB};
use crate::text;
use crate::text::{cat, write_decimal};

verus! {

/// What the desktop's style is told.
#[derive(Debug, Clone, Copy, PartialEq, Eq, Structural)]
pub enum StyleScheme {
    /// Follow the desktop.
    Follow,
    ForceDark,
    ForceLight,
}

/// What the desktop's style is told: a stored choice is forced, so it survives the desktop
/// changing its mind.
pub fn style_scheme(color_scheme: Option<ColorScheme>) -> (r: StyleScheme)
    ensures
        r == (match color_scheme {
            Some(ColorScheme::Dark) => StyleScheme::ForceDark,
            Some(ColorScheme::Light) => StyleScheme::ForceLight,
            None => StyleScheme::Follow,
        }),
{
    match color_scheme {
        Some(ColorScheme::Dark) => StyleScheme::ForceDark,
        Some(ColorScheme::Light) => StyleScheme::ForceLight,
        None => StyleScheme::Follow,
    }
}

/// What the dark switch stores.
pub fn dark_change(active: bool) -> (r: Change)
    ensures
        r == (if active {
            Change::ColorScheme(ColorScheme::Dark)
        } else {
            Change::ColorScheme(ColorScheme::Light)
        }),
{
    if active {
        Change::ColorScheme(ColorScheme::Dark)
    } else {
        Change::ColorScheme(ColorScheme::Light)
    }
}

/// The style class that marks the scheme in force, and the one that is taken away.
pub fn scheme_classes(dark: bool) -> (r: (&'static str, &'static str))
    ensures
        r.0@ == (if dark {
            "dark"@
        } else {
            "light"@
        }),
        r.1@ == (if dark {
            "light"@
        } else {
            "dark"@
        }),
{
    if dark {
        ("dark", "light")
    } else {
        ("light", "dark")
    }
}

/// How much of the cache is in use, `bytes` being what it holds if that is known.
pub fn cache_subtitle(bytes: Option<u64>) -> (r: String)
    ensures
        r@ == (match bytes {
            Some(bytes) => text::decimal((bytes / BYTES_PER_MB) as nat)
                + " MB in use; oldest downloads are pruned first"@,
            None => "Downloaded tracks, pruned oldest-first"@,
        }),
{
    match bytes {
        Some(bytes) => cat(
            write_decimal(bytes / BYTES_PER_MB).as_str(),
            " MB in use; oldest downloads are pruned first",
        ),
        None => "Downloaded tracks, pruned oldest-first".to_owned(),
    }
}

} // verus!
