//! The popup window: when it shows and hides, what a row stands for, and what is said in
//! passing.

use vstd::prelude::*;

use crate::config::Anchor;
use crate::jellyfin::models;
use crate::jellyfin::models::{copy_items, Item, ItemView, Kind};
use crate::player::{Command, Event, State};
use crate::config::Repeat;
use crate::text;
use crate::text::{cat, opt_is, str_eq};
use crate::ui::nowplaying::{NowPlaying, NowPlayingView, TrackChange};
use crate::ui::queue;
use crate::ui::queue::kind_label;
use crate::ui::{menu_is_open, Menus};

verus! {

/// How long a message stays on screen, in seconds.
pub const TOAST_TIMEOUT_SECS: u32 = 5;

/// How often auto-hide reconsiders a blur it skipped because a row menu was open, in
/// milliseconds.
pub const MENU_HIDE_RECHECK_MS: u64 = 250;

/// How long after losing focus a tray click still counts as "the user was using this", and
/// therefore closes the popup rather than raising it, in nanoseconds.
///
/// Under focus-follows-mouse the popup is unfocused the instant the pointer leaves it for the
/// tray, so without this the tray click could never close it again.
pub const TRAY_HIDE_GRACE_NANOS: u128 = 1_200_000_000;

/// Results per library search, capped well past anything a scroll would realistically reach.
pub const LIBRARY_SEARCH_LIMIT: u32 = 60;

/// How long typing has to pause before the server is asked, in milliseconds.
pub const LIBRARY_SEARCH_DEBOUNCE_MS: u64 = 250;

// ---------------------------------------------------------------------------------------
// Showing and hiding.
// ---------------------------------------------------------------------------------------

/// What happens to the window.
#[derive(Debug, Clone, Copy, PartialEq, Eq, Structural)]
pub enum WindowAction {
    /// Show it, or raise it where it is up.
    Show,
    Hide,
}

/// What to do about a blur.
#[derive(Debug, Clone, Copy, PartialEq, Eq, Structural)]
pub enum HideDecision {
    Hide,
    /// A row menu has the focus: look again in a moment.
    Wait,
    Keep,
}

/// The popup window.
#[derive(Debug, Clone, Copy, PartialEq, Eq, Structural)]
pub struct Popup {
    /// Whether it hides when it loses focus.
    pub hide_on_blur: bool,
    /// How long that waits, in milliseconds.
    pub hide_delay_ms: u64,
    /// Whether it has the focus.
    pub active: bool,
    /// When it last lost the focus, counted in nanoseconds from any fixed moment.
    pub unfocused_since: Option<u128>,
}

impl Popup {
    pub fn new(hide_on_blur: bool, hide_delay_ms: u64) -> (r: Self)
        ensures
            r == (Popup { hide_on_blur, hide_delay_ms, active: false, unfocused_since: None }),
    {
        Popup { hide_on_blur, hide_delay_ms, active: false, unfocused_since: None }
    }

    /// Whether the focus was lost a moment ago.
    pub open spec fn just_left(self, now: u128) -> bool {
        self.unfocused_since is Some && now - self.unfocused_since.unwrap()
            < TRAY_HIDE_GRACE_NANOS
    }

    /// What a tray click does, `visible` being whether the window is on screen.
    pub open spec fn clicked(self, visible: bool, now: u128) -> WindowAction {
        if visible && (self.active || self.just_left(now)) {
            WindowAction::Hide
        } else {
            WindowAction::Show
        }
    }

    /// With the focus, or without it since `now`.
    pub open spec fn with_focus(self, active: bool, now: u128) -> Popup {
        Popup {
            active,
            unfocused_since: if active {
                None
            } else {
                Some(now)
            },
            ..self
        }
    }

    /// What a tray click does, `visible` being whether the window is on screen.
    ///
    /// Not a plain toggle: a popup that is on screen but does not have the focus is raised, not
    /// closed, unless it had the focus a moment ago.
    pub fn toggle(&self, visible: bool, now: u128) -> (r: WindowAction)
        ensures
            r == self.clicked(visible, now),
    {
        if !visible {
            return WindowAction::Show;
        }
        let just_left = match self.unfocused_since {
            Some(at) => now < at || now - at < TRAY_HIDE_GRACE_NANOS,
            None => false,
        };
        if self.active || just_left {
            WindowAction::Hide
        } else {
            WindowAction::Show
        }
    }

    /// The window got or lost the focus. Says after how many milliseconds to decide whether to
    /// hide it, if at all.
    pub fn focus_changed(&mut self, active: bool, now: u128) -> (r: Option<u64>)
        ensures
            *final(self) == old(self).with_focus(active, now),
            r == (if old(self).hide_on_blur && !active {
                Some(old(self).hide_delay_ms)
            } else {
                None
            }),
    {
        self.active = active;
        self.unfocused_since = if active {
            None
        } else {
            Some(now)
        };
        if self.hide_on_blur && !active {
            Some(self.hide_delay_ms)
        } else {
            None
        }
    }

    /// Whether to hide the window now. Focus that bounced straight back keeps it, and so does a
    /// row menu, for as long as it is open.
    pub fn hide_due(&self, menus: &Menus) -> (r: HideDecision)
        ensures
            r == (if !self.hide_on_blur || self.active {
                HideDecision::Keep
            } else if menus.open > 0 {
                HideDecision::Wait
            } else {
                HideDecision::Hide
            }),
    {
        if !self.hide_on_blur || self.active {
            HideDecision::Keep
        } else if menu_is_open(menus) {
            HideDecision::Wait
        } else {
            HideDecision::Hide
        }
    }
}

/// A tray click closes the popup that is in use, also where reaching the tray took the focus
/// away from it; it raises one that has been left alone, and shows one that is hidden.
pub proof fn law_a_tray_click_closes_what_is_in_use(popup: Popup, left: u128, clicked: u128)
    requires
        left <= clicked,
    ensures
        popup.with_focus(true, left).clicked(true, clicked) == WindowAction::Hide,
        popup.with_focus(false, left).clicked(true, clicked) == (if clicked - left
            < TRAY_HIDE_GRACE_NANOS {
            WindowAction::Hide
        } else {
            WindowAction::Show
        }),
        popup.clicked(false, clicked) == WindowAction::Show,
{
}

/// A key on the window, whatever is shown in it.
#[derive(Debug, Clone, Copy, PartialEq, Eq, Structural)]
pub enum WindowKey {
    Q,
    Escape,
    Other,
}

/// Where a key goes before any widget sees it.
#[derive(Debug, Clone, Copy, PartialEq, Eq, Structural)]
pub enum KeyRoute {
    /// Stop the player and the program.
    Quit,
    /// To the root view.
    Root,
    /// To whatever has the focus.
    Focus,
}

/// Where a key goes, `on_root` being whether the root view is what is shown. Control and `q` quit
/// from anywhere, signed in or not; single keys are shortcuts on the root view only, so that
/// typing into a filter elsewhere is just typing.
pub fn route_key(key: WindowKey, control: bool, on_root: bool) -> (r: KeyRoute)
    ensures
        r == (if key == WindowKey::Q && control {
            KeyRoute::Quit
        } else if on_root {
            KeyRoute::Root
        } else {
            KeyRoute::Focus
        }),
{
    if key == WindowKey::Q && control {
        KeyRoute::Quit
    } else if on_root {
        KeyRoute::Root
    } else {
        KeyRoute::Focus
    }
}

/// What a key does that nothing else took: Escape hides the window.
pub fn unclaimed_key(key: WindowKey) -> (r: Option<WindowAction>)
    ensures
        r == (if key == WindowKey::Escape {
            Some(WindowAction::Hide)
        } else {
            None
        }),
{
    match key {
        WindowKey::Escape => Some(WindowAction::Hide),
        _ => None,
    }
}

/// Which edges of the monitor the popup is pinned to: top, bottom, left, right.
pub fn layer_anchor(anchor: Anchor) -> (r: (bool, bool, bool, bool))
    ensures
        r == (match anchor {
            Anchor::TopLeft => (true, false, true, false),
            Anchor::TopRight => (true, false, false, true),
            Anchor::BottomLeft => (false, true, true, false),
            Anchor::BottomRight => (false, true, false, true),
        }),
        r.0 != r.1,
        r.2 != r.3,
{
    match anchor {
        Anchor::TopLeft => (true, false, true, false),
        Anchor::TopRight => (true, false, false, true),
        Anchor::BottomLeft => (false, true, true, false),
        Anchor::BottomRight => (false, true, false, true),
    }
}

// ---------------------------------------------------------------------------------------
// What is said in passing.
// ---------------------------------------------------------------------------------------

/// The message on screen, if there is one.
#[derive(Debug)]
pub struct Toaster {
    pub showing: Option<String>,
}

impl Toaster {
    pub fn new() -> (r: Self)
        ensures
            r.showing is None,
    {
        Toaster { showing: None }
    }

    /// A message. Says whether it is to be shown: not while an identical one is still visible,
    /// since failures arrive in bursts.
    pub fn show(&mut self, message: &str) -> (r: bool)
        ensures
            r == (text::text_opt(old(self).showing) != Some(message@)),
            text::text_opt(final(self).showing) == Some(message@),
    {
        if opt_is(&self.showing, message) {
            return false;
        }
        self.showing = Some(message.to_owned());
        true
    }

    /// The message is gone.
    pub fn dismissed(&mut self)
        ensures
            final(self).showing is None,
    {
        self.showing = None;
    }
}

/// What is said of a library query that failed: what it was for comes first.
pub fn error_message(context: &str, message: &str) -> (r: String)
    ensures
        r@ == context@ + ": "@ + message@,
{
    cat(cat(context, ": ").as_str(), message)
}

// ---------------------------------------------------------------------------------------
// What a row stands for.
// ---------------------------------------------------------------------------------------

/// Where the tracks that a row stands for come from.
#[derive(Debug)]
pub enum Resolve {
    /// It is a track itself.
    Itself,
    /// The tracks of this album.
    AlbumTracks(String),
    /// Everything by this artist.
    ArtistTracks(String),
}

/// What a [`Resolve`] says.
pub enum ResolveView {
    Itself,
    AlbumTracks(Seq<char>),
    ArtistTracks(Seq<char>),
}

impl View for Resolve {
    type V = ResolveView;

    open spec fn view(&self) -> ResolveView {
        match *self {
            Resolve::Itself => ResolveView::Itself,
            Resolve::AlbumTracks(id) => ResolveView::AlbumTracks(id@),
            Resolve::ArtistTracks(id) => ResolveView::ArtistTracks(id@),
        }
    }
}

/// Where the tracks that a search hit stands for come from: by its own kind, as its activation
/// goes.
pub fn resolve_search(item: &Item) -> (r: Resolve)
    ensures
        r@ == (match item@.kind() {
            Kind::Artist => ResolveView::ArtistTracks(item@.id),
            Kind::Album => ResolveView::AlbumTracks(item@.id),
            Kind::Track => ResolveView::Itself,
            Kind::Other => ResolveView::Itself,
        }),
{
    match item.kind() {
        Kind::Artist => Resolve::ArtistTracks(item.id.clone()),
        Kind::Album => Resolve::AlbumTracks(item.id.clone()),
        Kind::Track => Resolve::Itself,
        Kind::Other => Resolve::Itself,
    }
}

/// Where in the queue tracks are put.
#[derive(Debug, Clone, Copy, PartialEq, Eq, Structural)]
pub enum Enqueue {
    /// At its end.
    Last,
    /// Directly behind what is playing.
    Next,
}

/// What the menu entry says.
pub fn enqueue_label(place: Enqueue) -> (r: &'static str)
    ensures
        r@ == (match place {
            Enqueue::Last => "Add to queue"@,
            Enqueue::Next => "Play next"@,
        }),
{
    match place {
        Enqueue::Last => "Add to queue",
        Enqueue::Next => "Play next",
    }
}

/// Puts the tracks that a row stands for into the queue: what the player is told, if anything,
/// and what is said. No tracks at all is worth saying out loud: it looks exactly like a broken
/// menu entry from the outside.
pub fn send_enqueue(items: Vec<Item>, place: Enqueue) -> (r: (Option<Command>, String))
    ensures
        items@.len() == 0 ==> r.0 is None && r.1@ == "Nothing to queue"@,
        items@.len() > 0 ==> (match place {
            Enqueue::Last => r.0 == Some(Command::QueueLast { items }) && r.1@
                == queue::count_of(items@.len()) + " added to the queue"@,
            Enqueue::Next => r.0 == Some(Command::QueueNext { items }) && r.1@
                == queue::count_of(items@.len()) + " playing next"@,
        }),
{
    if items.len() == 0 {
        return (None, "Nothing to queue".to_owned());
    }
    let count = kind_label(items.len());
    match place {
        Enqueue::Last => (
            Some(Command::QueueLast { items }),
            cat(count.as_str(), " added to the queue"),
        ),
        Enqueue::Next => (
            Some(Command::QueueNext { items }),
            cat(count.as_str(), " playing next"),
        ),
    }
}

/// Where a search hit that is a track takes the rest of its queue from.
#[derive(Debug)]
pub enum Scope {
    /// Its album.
    Album(String),
    /// Everything by the first artist credited.
    Artist(String),
    /// A fresh random queue.
    Random,
}

/// What a [`Scope`] says.
pub enum ScopeView {
    Album(Seq<char>),
    Artist(Seq<char>),
    Random,
}

impl View for Scope {
    type V = ScopeView;

    open spec fn view(&self) -> ScopeView {
        match *self {
            Scope::Album(id) => ScopeView::Album(id@),
            Scope::Artist(id) => ScopeView::Artist(id@),
            Scope::Random => ScopeView::Random,
        }
    }
}

/// Where a search hit that is a track takes the rest of its queue from: a hit should never leave
/// the queue at just one track.
pub fn play_search_track(item: &Item) -> (r: Scope)
    ensures
        r@ == (match item@.album_id {
            Some(id) => ScopeView::Album(id),
            None => if item@.artist_items.len() > 0 {
                ScopeView::Artist(item@.artist_items[0].id)
            } else {
                ScopeView::Random
            },
        }),
{
    if let Some(id) = &item.album_id {
        return Scope::Album(id.clone());
    }
    if item.artist_items.len() > 0 {
        return Scope::Artist(item.artist_items[0].id.clone());
    }
    Scope::Random
}

/// Position of the first track with this id.
pub open spec fn position_of(items: Seq<ItemView>, id: Seq<char>) -> Option<int>
    decreases items.len(),
{
    if items.len() == 0 {
        None
    } else {
        match position_of(items.drop_last(), id) {
            Some(i) => Some(i),
            None => if items.last().id == id {
                Some(items.len() - 1)
            } else {
                None
            },
        }
    }
}

fn find_track(items: &Vec<Item>, id: &str) -> (r: Option<usize>)
    ensures
        position_of(models::item_views(items@), id@) == (match r {
            Some(i) => Some(i as int),
            None => None,
        }),
        r is Some ==> r.unwrap() < items@.len(),
{
    let ghost all = models::item_views(items@);
    let mut i: usize = 0;
    while i < items.len()
        invariant
            i <= items@.len(),
            all == models::item_views(items@),
            position_of(all.take(i as int), id@) is None,
        decreases items.len() - i,
    {
        proof {
            assert(all.take(i + 1).drop_last() =~= all.take(i as int));
            assert(all[i as int] == items@[i as int]@);
        }
        if str_eq(items[i].id.as_str(), id) {
            proof {
                lemma_position_in_prefix(all, id@, i + 1);
            }
            return Some(i);
        }
        i += 1;
    }
    assert(all.take(i as int) =~= all);
    None
}

/// A track found in the first part of a list is found in the whole.
proof fn lemma_position_in_prefix(items: Seq<ItemView>, id: Seq<char>, n: int)
    requires
        0 <= n <= items.len(),
        position_of(items.take(n), id) is Some,
    ensures
        position_of(items, id) == position_of(items.take(n), id),
    decreases items.len(),
{
    if n == items.len() {
        assert(items.take(n) =~= items);
    } else {
        assert(items.drop_last().take(n) =~= items.take(n));
        lemma_position_in_prefix(items.drop_last(), id, n);
    }
}

/// Shuffles `tracks` behind the chosen one, or plays at random where the query behind them came
/// to nothing.
pub fn play_shuffled_or_random(tracks: Vec<Item>, chosen: &Item) -> (r: Command)
    ensures
        tracks@.len() == 0 ==> r == Command::PlayRandom,
        tracks@.len() > 0 ==> r == (Command::PlayShuffled {
            items: tracks,
            first: match position_of(models::item_views(tracks@), chosen@.id) {
                Some(i) => i as usize,
                None => 0,
            },
        }),
{
    if tracks.len() == 0 {
        return Command::PlayRandom;
    }
    let first = match find_track(&tracks, chosen.id.as_str()) {
        Some(i) => i,
        None => 0,
    };
    Command::PlayShuffled { items: tracks, first }
}

/// The tracks that belong to no album.
pub open spec fn loose_of(tracks: Seq<ItemView>) -> Seq<ItemView> {
    tracks.filter(|t: ItemView| t.album_id is None)
}

/// The tracks that belong to no album: an album list alone hides them completely.
pub fn loose_tracks(tracks: &Vec<Item>) -> (r: Vec<Item>)
    ensures
        models::item_views(r@) == loose_of(models::item_views(tracks@)),
{
    let ghost all = models::item_views(tracks@);
    let mut r: Vec<Item> = Vec::new();
    let mut i: usize = 0;
    proof {
        reveal(Seq::filter);
        assert(models::item_views(r@) =~= loose_of(all.take(0)));
    }
    while i < tracks.len()
        invariant
            i <= tracks@.len(),
            all == models::item_views(tracks@),
            models::item_views(r@) == loose_of(all.take(i as int)),
        decreases tracks.len() - i,
    {
        let ghost before = models::item_views(r@);
        if tracks[i].album_id.is_none() {
            r.push(tracks[i].clone());
            assert(models::item_views(r@) =~= before.push(all[i as int]));
        }
        i += 1;
        proof {
            reveal(Seq::filter);
            assert(all.take(i as int).drop_last() =~= all.take(i - 1));
        }
    }
    assert(all.take(i as int) =~= all);
    r
}

/// Playing the row at `index` of an artist's loose tracks: it comes first, and everything by the
/// artist is shuffled behind it. The row is one of those shown, so the track has to be looked up
/// in the whole catalogue.
pub fn play_loose(tracks: &Vec<Item>, shown: &Vec<Item>, index: usize) -> (r: Option<Command>)
    ensures
        match r {
            Some(cmd) => {
                &&& index < shown@.len()
                &&& position_of(models::item_views(tracks@), shown@[index as int]@.id) is Some
                &&& cmd is PlayShuffled
                &&& models::item_views(cmd->PlayShuffled_items@) == models::item_views(tracks@)
                &&& cmd->PlayShuffled_first == position_of(
                    models::item_views(tracks@),
                    shown@[index as int]@.id,
                ).unwrap()
            },
            None => index >= shown@.len() || position_of(
                models::item_views(tracks@),
                shown@[index as int]@.id,
            ) is None,
        },
{
    if index >= shown.len() {
        return None;
    }
    match find_track(tracks, shown[index].id.as_str()) {
        Some(first) => Some(Command::PlayShuffled { items: copy_items(tracks), first }),
        None => None,
    }
}

/// Every loose track can be played from its row, and what plays is that track.
pub proof fn law_a_loose_track_plays_itself(tracks: Seq<ItemView>, index: int)
    requires
        0 <= index < loose_of(tracks).len(),
    ensures
        ({
            let found = position_of(tracks, loose_of(tracks)[index].id);
            &&& found is Some
            &&& 0 <= found.unwrap() < tracks.len()
            &&& tracks[found.unwrap()].id == loose_of(tracks)[index].id
        }),
{
    let pred = |t: ItemView| t.album_id is None;
    let track = loose_of(tracks)[index];
    tracks.lemma_filter_contains_rev(pred, track);
    let i = choose|i: int| 0 <= i < tracks.len() && tracks[i] == track;
    lemma_position_exists(tracks, track.id, i);
}

proof fn lemma_position_exists(items: Seq<ItemView>, id: Seq<char>, i: int)
    requires
        0 <= i < items.len(),
        items[i].id == id,
    ensures
        position_of(items, id) is Some,
        0 <= position_of(items, id).unwrap() < items.len(),
        items[position_of(items, id).unwrap()].id == id,
    decreases items.len(),
{
    let front = items.drop_last();
    if i < front.len() {
        lemma_position_exists(front, id, i);
    } else if position_of(front, id) is Some {
        lemma_position_holds(front, id);
    }
}

proof fn lemma_position_holds(items: Seq<ItemView>, id: Seq<char>)
    requires
        position_of(items, id) is Some,
    ensures
        0 <= position_of(items, id).unwrap() < items.len(),
        items[position_of(items, id).unwrap()].id == id,
    decreases items.len(),
{
    let front = items.drop_last();
    if position_of(front, id) is Some {
        lemma_position_holds(front, id);
    }
}

/// Playing a row of an album: itself first, the rest of the album shuffled behind it. Picking a
/// song is a choice about that song.
pub fn play_album_row(items: &Vec<Item>, index: usize) -> (r: Command)
    ensures
        r is PlayShuffled,
        models::item_views(r->PlayShuffled_items@) == models::item_views(items@),
        r->PlayShuffled_first == index,
{
    Command::PlayShuffled { items: copy_items(items), first: index }
}

/// Playing an album in order.
pub fn play_album(items: &Vec<Item>) -> (r: Command)
    ensures
        r is PlayItems,
        models::item_views(r->PlayItems_items@) == models::item_views(items@),
        r->PlayItems_start == 0,
{
    Command::PlayItems { items: copy_items(items), start: 0 }
}

// ---------------------------------------------------------------------------------------
// What the root view makes of the player's events.
// ---------------------------------------------------------------------------------------

/// What has to be drawn again.
#[derive(Debug)]
pub enum RootUpdate {
    Nothing,
    /// Another track, or none.
    Track(TrackChange),
    Repeat(Repeat),
    State(State),
    /// The slider.
    Slider,
    /// The slider, and a message.
    Failed(String),
}

/// An event of the player, at the time `now`. A failure means that a seek in flight may never be
/// confirmed, so the slider is let go.
pub fn on_event(view: &mut NowPlaying, event: Event, now: u128) -> (r: RootUpdate)
    ensures
        match event {
            Event::TrackChanged(item) => final(view)@ == old(view)@.with_track(
                models::item_opt(item),
            ) && r == RootUpdate::Track(
                TrackChange {
                    art_generation: final(view)@.art_generation,
                    clear_focus: old(view)@.artist_mode,
                },
            ),
            Event::RepeatChanged(repeat) => final(view)@ == old(view)@ && r
                == RootUpdate::Repeat(repeat),
            Event::StateChanged(state) => final(view)@ == old(view)@ && r == RootUpdate::State(
                state,
            ),
            Event::Position(pos) => final(view)@ == old(view)@.positioned(pos, now) && r
                == RootUpdate::Slider,
            Event::Seeked(pos) => final(view)@ == old(view)@.seeked(pos, now) && r
                == RootUpdate::Slider,
            Event::Failed(message) => final(view)@ == (NowPlayingView { pin: None, ..old(view)@ })
                && r == RootUpdate::Failed(message),
            _ => final(view)@ == old(view)@ && r == RootUpdate::Nothing,
        },
{
    match event {
        Event::TrackChanged(item) => RootUpdate::Track(view.set_track(item)),
        Event::RepeatChanged(repeat) => RootUpdate::Repeat(repeat),
        Event::StateChanged(state) => RootUpdate::State(state),
        Event::Position(pos) => {
            view.set_position(pos, now);
            RootUpdate::Slider
        },
        Event::Seeked(pos) => {
            view.set_seeked(pos, now);
            RootUpdate::Slider
        },
        Event::Failed(message) => {
            view.cancel_pending_seek();
            RootUpdate::Failed(message)
        },
        _ => RootUpdate::Nothing,
    }
}

/// The focus is had or not as it was told, and the moment it was lost is remembered while it is
/// not had. Nothing else of the popup changes by it.
pub proof fn law_the_moment_the_focus_is_lost_is_remembered(popup: Popup, now: u128)
    ensures
        popup.with_focus(true, now) == (Popup { active: true, unfocused_since: None, ..popup }),
        popup.with_focus(false, now) == (Popup {
            active: false,
            unfocused_since: Some(now),
            ..popup
        }),
{
}

/// A popup that was left less than one and a fifth of a second ago counts as in use, and one that
/// has never had the focus does not.
pub proof fn law_a_popup_is_in_use_for_a_moment_longer(popup: Popup, left: u128, now: u128)
    ensures
        popup.with_focus(false, left).just_left(now) <==> now < left + 1_200_000_000,
        !popup.with_focus(true, left).just_left(now),
        popup.unfocused_since is None ==> !popup.just_left(now),
        !popup.active && popup.unfocused_since is None ==> popup.clicked(true, now)
            == WindowAction::Show,
{
}

/// A track is found where it first stands, and not where none has its id.
pub proof fn law_a_track_is_found_where_it_first_stands(items: Seq<ItemView>, id: Seq<char>)
    ensures
        match position_of(items, id) {
            Some(i) => {
                &&& 0 <= i < items.len()
                &&& items[i].id == id
                &&& forall|j: int| 0 <= j < i ==> (#[trigger] items[j]).id != id
            },
            None => forall|j: int| 0 <= j < items.len() ==> (#[trigger] items[j]).id != id,
        },
    decreases items.len(),
{
    if items.len() > 0 {
        let front = items.drop_last();
        law_a_track_is_found_where_it_first_stands(front, id);
        match position_of(front, id) {
            Some(i) => {
                assert(items[i] == front[i]);
                assert forall|j: int| 0 <= j < i implies (#[trigger] items[j]).id != id by {
                    assert(items[j] == front[j]);
                }
            },
            None => {
                assert forall|j: int| 0 <= j < items.len() - 1 implies (#[trigger] items[j]).id
                    != id by {
                    assert(items[j] == front[j]);
                }
            },
        }
    }
}

/// The loose tracks are all that belong to no album, and no others.
pub proof fn law_loose_tracks_belong_to_no_album(tracks: Seq<ItemView>, track: ItemView)
    ensures
        loose_of(tracks).contains(track) <==> tracks.contains(track) && track.album_id is None,
{
    let pred = |t: ItemView| t.album_id is None;
    if loose_of(tracks).contains(track) {
        let i = choose|i: int| 0 <= i < loose_of(tracks).len() && loose_of(tracks)[i] == track;
        tracks.lemma_filter_pred(pred, i);
        tracks.lemma_filter_contains_rev(pred, track);
    }
    if tracks.contains(track) && track.album_id is None {
        let i = choose|i: int| 0 <= i < tracks.len() && tracks[i] == track;
        tracks.lemma_filter_contains(pred, i);
    }
}

} // verus!
