//! The icon under a StatusNotifierItem host.

use vstd::prelude::*;

use crate::player::{Event, Snapshot, State};
use crate::text;
use crate::tray;
use crate::tray::{icon_name_for_state, nothing_playing, scroll_action, track_label, TrayAction};

verus! {

/// What the icon says.
#[derive(Debug)]
pub struct Tray {
    pub state: State,
    pub now_playing: Option<String>,
}

/// Which way a wheel was turned.
#[derive(Debug, Clone, Copy, PartialEq, Eq, Structural)]
pub enum Orientation {
    Vertical,
    Horizontal,
}

/// An entry of the icon's menu.
#[derive(Debug)]
pub enum MenuEntry {
    Separator,
    Item { label: String, icon_name: String, action: TrayAction },
}

/// What a [`MenuEntry`] says.
pub enum MenuEntryView {
    Separator,
    Item { label: Seq<char>, icon_name: Seq<char>, action: TrayAction },
}

impl View for MenuEntry {
    type V = MenuEntryView;

    open spec fn view(&self) -> MenuEntryView {
        match *self {
            MenuEntry::Separator => MenuEntryView::Separator,
            MenuEntry::Item { label, icon_name, action } => MenuEntryView::Item {
                label: label@,
                icon_name: icon_name@,
                action,
            },
        }
    }
}

/// What each entry of a menu says.
pub open spec fn entries(v: Seq<MenuEntry>) -> Seq<MenuEntryView> {
    v.map_values(|e: MenuEntry| e@)
}

/// The icon's menu.
pub open spec fn menu_of(state: State) -> Seq<MenuEntryView> {
    let playing = state == State::Playing;
    seq![
        MenuEntryView::Item {
            label: if playing {
                "Pause"@
            } else {
                "Play"@
            },
            icon_name: if playing {
                "media-playback-pause"@
            } else {
                "media-playback-start"@
            },
            action: TrayAction::PlayPause,
        },
        MenuEntryView::Item {
            label: "Next"@,
            icon_name: "media-skip-forward"@,
            action: TrayAction::Next,
        },
        MenuEntryView::Item {
            label: "Previous"@,
            icon_name: "media-skip-backward"@,
            action: TrayAction::Previous,
        },
        MenuEntryView::Separator,
        MenuEntryView::Item {
            label: "Random play"@,
            icon_name: "media-playlist-shuffle"@,
            action: TrayAction::PlayRandom,
        },
        MenuEntryView::Separator,
        MenuEntryView::Item {
            label: "Show/Hide"@,
            icon_name: "view-reveal-symbolic"@,
            action: TrayAction::TogglePopup,
        },
        MenuEntryView::Item {
            label: "Quit"@,
            icon_name: "application-exit"@,
            action: TrayAction::Quit,
        },
    ]
}

fn entry(label: &str, icon_name: &str, action: TrayAction) -> (r: MenuEntry)
    ensures
        r@ == (MenuEntryView::Item { label: label@, icon_name: icon_name@, action }),
{
    MenuEntry::Item { label: label.to_owned(), icon_name: icon_name.to_owned(), action }
}

impl Tray {
    /// An icon of a player that has just been started.
    pub fn new() -> (r: Self)
        ensures
            r.state == State::Stopped,
            r.now_playing is None,
    {
        Tray { state: State::Stopped, now_playing: None }
    }

    pub fn icon_name(&self) -> (r: &'static str)
        ensures
            r@ == tray::standard_icon(self.state),
    {
        icon_name_for_state(self.state)
    }

    /// What is shown when the pointer rests on the icon.
    pub fn description(&self) -> (r: String)
        ensures
            r@ == (match self.now_playing {
                Some(label) => label@,
                None => "Nothing playing"@,
            }),
    {
        match &self.now_playing {
            Some(label) => label.clone(),
            None => nothing_playing(),
        }
    }

    /// A turn of the wheel. Only the vertical one steps through the queue.
    pub fn scroll(&self, delta: i32, orientation: Orientation) -> (r: Option<TrayAction>)
        ensures
            r == (if orientation == Orientation::Vertical && delta < 0 {
                Some(TrayAction::Next)
            } else if orientation == Orientation::Vertical && delta > 0 {
                Some(TrayAction::Previous)
            } else {
                None
            }),
    {
        if orientation != Orientation::Vertical {
            return None;
        }
        scroll_action(delta)
    }

    /// The icon's menu.
    pub fn menu(&self) -> (r: Vec<MenuEntry>)
        ensures
            entries(r@) == menu_of(self.state),
    {
        let playing = self.state == State::Playing;
        let mut r: Vec<MenuEntry> = Vec::new();
        r.push(
            if playing {
                entry("Pause", "media-playback-pause", TrayAction::PlayPause)
            } else {
                entry("Play", "media-playback-start", TrayAction::PlayPause)
            },
        );
        r.push(entry("Next", "media-skip-forward", TrayAction::Next));
        r.push(entry("Previous", "media-skip-backward", TrayAction::Previous));
        r.push(MenuEntry::Separator);
        r.push(entry("Random play", "media-playlist-shuffle", TrayAction::PlayRandom));
        r.push(MenuEntry::Separator);
        r.push(entry("Show/Hide", "view-reveal-symbolic", TrayAction::TogglePopup));
        r.push(entry("Quit", "application-exit", TrayAction::Quit));
        assert(entries(r@) =~= menu_of(self.state));
        r
    }

    /// Seeds the icon from the queue as it stands: the track of a restored session was announced
    /// before anything listened.
    pub fn seed(&mut self, snapshot: &Snapshot)
        ensures
            final(self).state == old(self).state,
            text::text_opt(final(self).now_playing) == (if snapshot.cursor
                < snapshot.items@.len() {
                Some(tray::label_of(snapshot.items@[snapshot.cursor as int]@))
            } else {
                text::text_opt(old(self).now_playing)
            }),
    {
        if snapshot.cursor < snapshot.items.len() {
            self.now_playing = Some(track_label(&snapshot.items[snapshot.cursor]));
        }
    }

    /// An event of the player. Says whether the icon changed: a position comes four times a
    /// second, and is nothing to redraw for.
    pub fn on_event(&mut self, event: &Event) -> (r: bool)
        ensures
            r == (*event is TrackChanged || *event is StateChanged),
            final(self).state == (match *event {
                Event::StateChanged(state) => state,
                _ => old(self).state,
            }),
            text::text_opt(final(self).now_playing) == (match *event {
                Event::TrackChanged(Some(item)) => Some(tray::label_of(item@)),
                Event::TrackChanged(None) => None,
                _ => text::text_opt(old(self).now_playing),
            }),
    {
        match event {
            Event::TrackChanged(item) => {
                self.now_playing = match item {
                    Some(item) => Some(track_label(item)),
                    None => None,
                };
                true
            },
            Event::StateChanged(state) => {
                self.state = *state;
                true
            },
            _ => false,
        }
    }
}

/// The menu offers every action once, whatever is heard, and says of the first whether it pauses or
/// plays; nothing else of it depends on the state.
pub proof fn law_the_menu_offers_every_action(state: State, other: State)
    ensures
        menu_of(state).len() == 8,
        menu_of(state)[0] matches MenuEntryView::Item { label, icon_name, action } && action
            == TrayAction::PlayPause && label == (if state == State::Playing {
            "Pause"@
        } else {
            "Play"@
        }),
        menu_of(state)[1] matches MenuEntryView::Item { label, icon_name, action } && action
            == TrayAction::Next && label == "Next"@,
        menu_of(state)[2] matches MenuEntryView::Item { label, icon_name, action } && action
            == TrayAction::Previous && label == "Previous"@,
        menu_of(state)[3] is Separator,
        menu_of(state)[4] matches MenuEntryView::Item { label, icon_name, action } && action
            == TrayAction::PlayRandom && label == "Random play"@,
        menu_of(state)[5] is Separator,
        menu_of(state)[6] matches MenuEntryView::Item { label, icon_name, action } && action
            == TrayAction::TogglePopup && label == "Show/Hide"@,
        menu_of(state)[7] matches MenuEntryView::Item { label, icon_name, action } && action
            == TrayAction::Quit && label == "Quit"@,
        menu_of(state).skip(1) == menu_of(other).skip(1),
{
    assert(menu_of(state).skip(1) =~= menu_of(other).skip(1));
}

/// Every entry of the menu has the icon of what it does, the first that of what it would do.
pub proof fn law_menu_entries_have_their_icons(state: State)
    ensures
        menu_of(state)[0] matches MenuEntryView::Item { label, icon_name, action } && icon_name
            == (if state == State::Playing {
            "media-playback-pause"@
        } else {
            "media-playback-start"@
        }),
        menu_of(state)[1] matches MenuEntryView::Item { label, icon_name, action } && icon_name
            == "media-skip-forward"@,
        menu_of(state)[2] matches MenuEntryView::Item { label, icon_name, action } && icon_name
            == "media-skip-backward"@,
        menu_of(state)[4] matches MenuEntryView::Item { label, icon_name, action } && icon_name
            == "media-playlist-shuffle"@,
        menu_of(state)[6] matches MenuEntryView::Item { label, icon_name, action } && icon_name
            == "view-reveal-symbolic"@,
        menu_of(state)[7] matches MenuEntryView::Item { label, icon_name, action } && icon_name
            == "application-exit"@,
{
}

} // verus!
