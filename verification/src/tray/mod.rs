//! The tray icon: what it shows, and what is done to it.

pub mod sni;
pub mod xembed;

use vstd::prelude::*;

use crate::jellyfin::models::{Item, ItemView};
use crate::player::{Command, State};
use crate::text::cat;

verus! {

/// Requests the tray sends to the window.
#[derive(Debug, Clone, Copy, PartialEq, Eq, Structural)]
pub enum UiRequest {
    TogglePopup,
    ShowPopup,
    HidePopup,
    Quit,
}

/// Standard freedesktop icon names, which exist in every icon theme.
pub open spec fn standard_icon(state: State) -> Seq<char> {
    match state {
        State::Playing => "media-playback-start"@,
        State::Paused => "media-playback-pause"@,
        State::Stopped => "multimedia-player"@,
    }
}

/// Standard freedesktop icon names: a host resolves these by its own theme.
pub fn icon_name_for_state(state: State) -> (r: &'static str)
    ensures
        r@ == standard_icon(state),
{
    match state {
        State::Playing => "media-playback-start",
        State::Paused => "media-playback-pause",
        State::Stopped => "multimedia-player",
    }
}

/// What a click, a turn of the wheel or a menu entry asks for.
#[derive(Debug, Clone, Copy, PartialEq, Eq, Structural)]
pub enum TrayAction {
    PlayPause,
    Next,
    Previous,
    PlayRandom,
    TogglePopup,
    /// Stop the player, then the program.
    Quit,
}

impl TrayAction {
    /// What the player is told, if anything.
    pub open spec fn tells_player(self) -> Option<Command> {
        match self {
            TrayAction::PlayPause => Some(Command::PlayPause),
            TrayAction::Next => Some(Command::Next),
            TrayAction::Previous => Some(Command::Previous),
            TrayAction::PlayRandom => Some(Command::PlayRandom),
            TrayAction::TogglePopup => None,
            TrayAction::Quit => Some(Command::Shutdown),
        }
    }

    /// What the window is told, if anything.
    pub open spec fn tells_ui(self) -> Option<UiRequest> {
        match self {
            TrayAction::TogglePopup => Some(UiRequest::TogglePopup),
            TrayAction::Quit => Some(UiRequest::Quit),
            _ => None,
        }
    }

    /// What the player is told, if anything.
    pub fn command(self) -> (r: Option<Command>)
        ensures
            r == self.tells_player(),
    {
        match self {
            TrayAction::PlayPause => Some(Command::PlayPause),
            TrayAction::Next => Some(Command::Next),
            TrayAction::Previous => Some(Command::Previous),
            TrayAction::PlayRandom => Some(Command::PlayRandom),
            TrayAction::TogglePopup => None,
            TrayAction::Quit => Some(Command::Shutdown),
        }
    }

    /// What the window is told, if anything.
    pub fn ui_request(self) -> (r: Option<UiRequest>)
        ensures
            r == self.tells_ui(),
    {
        match self {
            TrayAction::TogglePopup => Some(UiRequest::TogglePopup),
            TrayAction::Quit => Some(UiRequest::Quit),
            _ => None,
        }
    }
}

/// What a vertical turn of the wheel over the icon does: up, which is negative, is the next
/// track, and down the previous one.
pub fn scroll_action(delta: i32) -> (r: Option<TrayAction>)
    ensures
        r == (if delta < 0 {
            Some(TrayAction::Next)
        } else if delta > 0 {
            Some(TrayAction::Previous)
        } else {
            None
        }),
{
    if delta < 0 {
        Some(TrayAction::Next)
    } else if delta > 0 {
        Some(TrayAction::Previous)
    } else {
        None
    }
}

/// How a track is named in one line.
pub open spec fn label_of(item: ItemView) -> Seq<char> {
    item.display_artist() + " - "@ + item.name
}

/// How a track is named in one line.
pub fn track_label(item: &Item) -> (r: String)
    ensures
        r@ == label_of(item@),
{
    cat(cat(item.display_artist(), " - ").as_str(), item.name.as_str())
}

/// What is shown where no track is.
pub fn nothing_playing() -> (r: String)
    ensures
        r@ == "Nothing playing"@,
{
    "Nothing playing".to_owned()
}

/// Whether the icon follows the player yet. That takes a session and an icon, and either may come
/// first.
#[derive(Debug, Clone, Copy, PartialEq, Eq, Structural)]
pub struct Updater {
    pub running: bool,
}

impl Updater {
    pub fn new() -> (r: Self)
        ensures
            !r.running,
    {
        Updater { running: false }
    }

    /// One of the two is there now, and perhaps both. Says whether to start following: once
    /// both are there, and only once.
    pub fn try_start(&mut self, has_session: bool, has_icon: bool) -> (r: bool)
        ensures
            r == (!old(self).running && has_session && has_icon),
            final(self).running == (old(self).running || r),
    {
        if self.running || !has_session || !has_icon {
            return false;
        }
        self.running = true;
        true
    }
}

/// Every action of the tray goes to the player or to the window, and quitting to both.
pub proof fn law_tray_actions_go_where_they_belong()
    ensures
        TrayAction::PlayPause.tells_player() == Some(Command::PlayPause),
        TrayAction::Next.tells_player() == Some(Command::Next),
        TrayAction::Previous.tells_player() == Some(Command::Previous),
        TrayAction::PlayRandom.tells_player() == Some(Command::PlayRandom),
        TrayAction::Quit.tells_player() == Some(Command::Shutdown),
        TrayAction::TogglePopup.tells_player() is None,
        TrayAction::TogglePopup.tells_ui() == Some(UiRequest::TogglePopup),
        TrayAction::Quit.tells_ui() == Some(UiRequest::Quit),
        TrayAction::PlayPause.tells_ui() is None,
        TrayAction::Next.tells_ui() is None,
        TrayAction::Previous.tells_ui() is None,
        TrayAction::PlayRandom.tells_ui() is None,
{
}

/// The label of a track says who it is by and then what it is called.
pub proof fn law_a_label_says_who_and_what(item: ItemView)
    ensures
        item.display_artist().is_prefix_of(label_of(item)),
        label_of(item).len() == item.display_artist().len() + 3 + item.name.len(),
        label_of(item).skip(item.display_artist().len() + 3int) == item.name,
{
    reveal_strlit(" - ");
    assert(label_of(item).skip(item.display_artist().len() + 3int) =~= item.name);
}

/// The icon says what is heard: one for each state.
pub proof fn law_the_icon_says_what_is_heard()
    ensures
        standard_icon(State::Playing) == "media-playback-start"@,
        standard_icon(State::Paused) == "media-playback-pause"@,
        standard_icon(State::Stopped) == "multimedia-player"@,
{
}

} // verus!
