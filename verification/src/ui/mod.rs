//! What the popup shows and does, apart from drawing it.

pub mod artists;
pub mod artwork;
pub mod browse;
pub mod library;
pub mod login;
pub mod nowplaying;
pub mod popup;
pub mod queries;
pub mod queue;
pub mod settings;
pub mod x11;

use vstd::prelude::*;

verus! {

/// How many row menus are open right now.
///
/// A menu is its own surface, so opening one takes focus off the popup and auto-hide would
/// dismiss the whole thing under the menu the user just asked for. A counter rather than a flag
/// because a second menu can open while the first is still closing.
#[derive(Debug, Clone, Copy, PartialEq, Eq, Structural)]
pub struct Menus {
    pub open: usize,
}

/// No menu open.
pub fn no_menus() -> (r: Menus)
    ensures
        r.open == 0,
{
    Menus { open: 0 }
}

pub fn menu_opened(menus: &mut Menus)
    requires
        old(menus).open < usize::MAX,
    ensures
        final(menus).open == old(menus).open + 1,
{
    menus.open = menus.open + 1;
}

pub fn menu_closed(menus: &mut Menus)
    ensures
        final(menus).open == (if old(menus).open > 0 {
            old(menus).open - 1
        } else {
            0
        }),
{
    if menus.open > 0 {
        menus.open = menus.open - 1;
    }
}

/// True while a row menu is on screen, i.e. while losing window focus is expected rather than a
/// reason to hide.
pub fn menu_is_open(menus: &Menus) -> (r: bool)
    ensures
        r == (menus.open > 0),
{
    menus.open > 0
}

} // verus!
