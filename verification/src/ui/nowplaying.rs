//! The root view: cover, tags, seek bar and transport.

use vstd::prelude::*;

use crate::config::Repeat;
use crate::jellyfin::models;
use crate::jellyfin::models::{Item, ItemView};
use crate::player::{Command, State};
use crate::text;
use crate::text::{cat, copy_text, pad, str_eq, write_decimal};
use crate::time::{Duration, NANOS_PER_SEC};
use crate::ui::browse::Modifiers;

verus! {

/// Cover height that is asked for. Large because it is stretched across the whole popup.
pub const ART_HEIGHT: u32 = 768;

/// How long to wait for the slider to settle before acting on a drag, in milliseconds.
pub const SEEK_DEBOUNCE_MS: u64 = 150;

/// How much of the track one arrow key covers: one part in so many.
pub const SEEK_KEY_PARTS: u128 = 10;

/// How long artist focus survives without a keypress, in milliseconds.
pub const ARTIST_FOCUS_TIMEOUT_MS: u64 = 5_000;

/// How long the slider may stay pinned to a requested position before positions take it back, in
/// nanoseconds. Some seeks are never confirmed, so the pin needs an expiry.
pub const SEEK_PIN_TIMEOUT_NANOS: u128 = 5_000_000_000;

/// How far from the requested position a position may land and still count as the seek having
/// arrived, in nanoseconds.
pub const SEEK_PIN_TOLERANCE_NANOS: u128 = 2_000_000_000;

// ---------------------------------------------------------------------------------------
// What the view says.
// ---------------------------------------------------------------------------------------

/// Whole seconds, as far as they fit in sixty-four bits.
pub open spec fn whole_seconds(d: Duration) -> nat {
    let secs = (d.nanos / NANOS_PER_SEC) as nat;
    if secs <= u64::MAX {
        secs
    } else {
        u64::MAX as nat
    }
}

/// Minutes and seconds.
pub open spec fn clock_of(d: Duration) -> Seq<char> {
    let total = whole_seconds(d);
    text::decimal(total / 60) + ":"@ + text::padded(text::decimal(total % 60), 2, '0')
}

/// Minutes and seconds.
pub fn format_time(d: Duration) -> (r: String)
    ensures
        r@ == clock_of(d),
{
    let secs = d.as_secs();
    let total: u64 = if secs <= 0xffff_ffff_ffff_ffff {
        secs as u64
    } else {
        0xffff_ffff_ffff_ffff
    };
    let minutes = cat(write_decimal(total / 60).as_str(), ":");
    cat(minutes.as_str(), pad(write_decimal(total % 60).as_str(), 2, '0').as_str())
}

/// The play button's icon: what a press would do.
pub fn play_icon(state: State) -> (r: &'static str)
    ensures
        r@ == (if state == State::Playing {
            "trayplay-pause-symbolic"@
        } else {
            "trayplay-play-symbolic"@
        }),
{
    match state {
        State::Playing => "trayplay-pause-symbolic",
        _ => "trayplay-play-symbolic",
    }
}

/// The repeat button's icon and tooltip: the state that is in force, not what the next press
/// would do.
pub fn repeat_icon(repeat: Repeat) -> (r: (&'static str, &'static str))
    ensures
        r.0@ == (match repeat {
            Repeat::Off => "trayplay-repeat-off-symbolic"@,
            Repeat::All => "trayplay-repeat-all-symbolic"@,
            Repeat::One => "trayplay-repeat-one-symbolic"@,
        }),
        r.1@ == (match repeat {
            Repeat::Off => "Repeat: off"@,
            Repeat::All => "Repeat: whole queue"@,
            Repeat::One => "Repeat: this track"@,
        }),
{
    match repeat {
        Repeat::Off => ("trayplay-repeat-off-symbolic", "Repeat: off"),
        Repeat::All => ("trayplay-repeat-all-symbolic", "Repeat: whole queue"),
        Repeat::One => ("trayplay-repeat-one-symbolic", "Repeat: this track"),
    }
}

/// Text for the panel of a track without a cover, and with it the colour: the album, so that
/// every track of a record looks the same; failing that, everyone credited; failing that, the
/// title.
pub open spec fn placeholder_of(item: ItemView) -> Seq<char> {
    if item.album is Some && item.album.unwrap().len() > 0 {
        item.album.unwrap()
    } else if item.display_artists() != "Unknown Artist"@ {
        item.display_artists()
    } else {
        item.name
    }
}

/// Text for the panel of a track without a cover.
pub fn placeholder_text(item: &Item) -> (r: String)
    ensures
        r@ == placeholder_of(item@),
{
    if let Some(album) = &item.album {
        let empty = album.as_str().is_empty();
        if !empty {
            return album.clone();
        }
    }
    let artists = item.display_artists();
    if !str_eq(artists.as_str(), "Unknown Artist") {
        return artists;
    }
    item.name.clone()
}

/// What the album line says.
#[derive(Debug)]
pub enum AlbumLine {
    Hidden,
    /// A name that leads nowhere.
    Plain(String),
    /// A name that leads to the album.
    Link(String),
}

/// What an [`AlbumLine`] says.
pub enum AlbumLineView {
    Hidden,
    Plain(Seq<char>),
    Link(Seq<char>),
}

impl View for AlbumLine {
    type V = AlbumLineView;

    open spec fn view(&self) -> AlbumLineView {
        match *self {
            AlbumLine::Hidden => AlbumLineView::Hidden,
            AlbumLine::Plain(name) => AlbumLineView::Plain(name@),
            AlbumLine::Link(name) => AlbumLineView::Link(name@),
        }
    }
}

/// What the album line says of a track.
pub fn album_line(item: &Item) -> (r: AlbumLine)
    ensures
        r@ == (match (item@.album, item@.album_id) {
            (Some(album), Some(_)) => AlbumLineView::Link(album),
            (Some(album), None) => AlbumLineView::Plain(album),
            (None, _) => AlbumLineView::Hidden,
        }),
{
    match (copy_text(&item.album), &item.album_id) {
        (Some(album), Some(_)) => AlbumLine::Link(album),
        (Some(album), None) => AlbumLine::Plain(album),
        (None, _) => AlbumLine::Hidden,
    }
}

/// The title line.
pub fn title_line(item: &Option<Item>) -> (r: String)
    ensures
        r@ == (match *item {
            Some(item) => item@.name,
            None => "Nothing playing"@,
        }),
{
    match item {
        Some(item) => item.name.clone(),
        None => "Nothing playing".to_owned(),
    }
}

// ---------------------------------------------------------------------------------------
// What is done to it.
// ---------------------------------------------------------------------------------------

/// Where to go from the current track.
#[derive(Debug)]
pub enum Navigate {
    Artist { id: String, name: String },
    Album { id: String, name: String },
    Library,
    Queue,
    Settings,
}

/// What a [`Navigate`] says.
pub enum NavigateView {
    Artist { id: Seq<char>, name: Seq<char> },
    Album { id: Seq<char>, name: Seq<char> },
    Library,
    Queue,
    Settings,
}

impl View for Navigate {
    type V = NavigateView;

    open spec fn view(&self) -> NavigateView {
        match *self {
            Navigate::Artist { id, name } => NavigateView::Artist { id: id@, name: name@ },
            Navigate::Album { id, name } => NavigateView::Album { id: id@, name: name@ },
            Navigate::Library => NavigateView::Library,
            Navigate::Queue => NavigateView::Queue,
            Navigate::Settings => NavigateView::Settings,
        }
    }
}

/// Where the album of a track is.
pub open spec fn album_target(item: Option<ItemView>) -> Option<NavigateView> {
    match item {
        Some(item) => match (item.album_id, item.album) {
            (Some(id), Some(name)) => Some(NavigateView::Album { id, name }),
            _ => None,
        },
        None => None,
    }
}

/// A key on the root view.
#[derive(Debug, Clone, Copy, PartialEq, Eq, Structural)]
pub enum Key {
    Left,
    Right,
    Escape,
    Enter,
    Space,
    N,
    P,
    R,
    L,
    Q,
    S,
    /// `a` as it is.
    LowerA,
    /// `a` with shift.
    UpperA,
    Other,
}

/// What a key does.
#[derive(Debug)]
pub enum KeyAction {
    Nothing,
    Tell(Command),
    Go(Navigate),
    /// Focus the first artist that leads anywhere.
    FocusArtist,
    /// Keep the artist focus for another while, under this number.
    KeepArtistFocus(u64),
    /// Ask for this position once the slider has settled, under this number.
    Seek { target: Duration, generation: u64 },
}

/// What a [`KeyAction`] says.
pub enum KeyActionView {
    Nothing,
    Tell(Command),
    Go(NavigateView),
    FocusArtist,
    KeepArtistFocus(u64),
    Seek { target: Duration, generation: u64 },
}

impl View for KeyAction {
    type V = KeyActionView;

    open spec fn view(&self) -> KeyActionView {
        match *self {
            KeyAction::Nothing => KeyActionView::Nothing,
            KeyAction::Tell(cmd) => KeyActionView::Tell(cmd),
            KeyAction::Go(target) => KeyActionView::Go(target@),
            KeyAction::FocusArtist => KeyActionView::FocusArtist,
            KeyAction::KeepArtistFocus(generation) => KeyActionView::KeepArtistFocus(generation),
            KeyAction::Seek { target, generation } => KeyActionView::Seek { target, generation },
        }
    }
}

/// What became of a key.
#[derive(Debug)]
pub struct KeyOutcome {
    /// Whether the key goes no further.
    pub stop: bool,
    /// Whether the focus is dropped first.
    pub clear_focus: bool,
    pub action: KeyAction,
}

/// Where the slider is pinned to, and since when.
#[derive(Debug, Clone, Copy, PartialEq, Eq, Structural)]
pub struct Pin {
    pub target: Duration,
    /// Counted in nanoseconds from any fixed moment.
    pub since: u128,
}

/// What a change of track asks for, apart from showing the track.
#[derive(Debug, Clone, Copy, PartialEq, Eq, Structural)]
pub struct TrackChange {
    /// The number for [`NowPlaying::cover_is_current`].
    pub art_generation: u64,
    /// An artist had the focus, which is dropped.
    pub clear_focus: bool,
}

/// The root view.
#[derive(Debug)]
pub struct NowPlaying {
    track: Option<Item>,
    /// Position the user asked for, while the seek is still in flight. Positions are ignored
    /// until it is reached, so the slider does not snap back to where playback still is and
    /// then forward again.
    pin: Option<Pin>,
    /// Where the slider is.
    value: Duration,
    /// Where the slider ends.
    span: Duration,
    /// Whether the slider can be used.
    sensitive: bool,
    seek_generation: u64,
    /// Whether an artist has the focus, so that the arrows move between artists.
    artist_mode: bool,
    artist_generation: u64,
    art_generation: u64,
}

/// What a [`NowPlaying`] knows.
#[verifier::ext_equal]
pub struct NowPlayingView {
    pub track: Option<ItemView>,
    pub pin: Option<Pin>,
    pub value: Duration,
    pub span: Duration,
    pub sensitive: bool,
    pub seek_generation: u64,
    pub artist_mode: bool,
    pub artist_generation: u64,
    pub art_generation: u64,
}

impl View for NowPlaying {
    type V = NowPlayingView;

    closed spec fn view(&self) -> NowPlayingView {
        NowPlayingView {
            track: models::item_opt(self.track),
            pin: self.pin,
            value: self.value,
            span: self.span,
            sensitive: self.sensitive,
            seek_generation: self.seek_generation,
            artist_mode: self.artist_mode,
            artist_generation: self.artist_generation,
            art_generation: self.art_generation,
        }
    }
}

/// How long the slider is for a track: at least a second.
pub open spec fn slider_span(item: ItemView) -> Duration {
    match item.duration() {
        Some(d) => if d.nanos > NANOS_PER_SEC {
            d
        } else {
            Duration { nanos: NANOS_PER_SEC }
        },
        None => Duration { nanos: NANOS_PER_SEC },
    }
}

/// Whether the slider can be used for a track: its length is known.
pub open spec fn slider_sensitive(item: ItemView) -> bool {
    item.duration() is Some && item.duration().unwrap().nanos > 0
}

/// One press of an arrow key away, within the slider.
pub open spec fn stepped(value: Duration, span: Duration, forward: bool) -> Duration {
    let step = span.nanos / SEEK_KEY_PARTS;
    let to = if forward {
        value.nanos + step
    } else {
        value.nanos - step
    };
    Duration {
        nanos: if to < 0 {
            0
        } else if to > span.nanos {
            span.nanos
        } else {
            to as u128
        },
    }
}

/// Where a slider of this length is put when asked to go to `pos`: no further than its end.
pub open spec fn clamped(pos: Duration, span: Duration) -> Duration {
    if pos.nanos > span.nanos {
        span
    } else {
        pos
    }
}

/// Whether two positions are close enough to count as the same.
pub open spec fn near(a: Duration, b: Duration) -> bool {
    -SEEK_PIN_TOLERANCE_NANOS <= a.nanos - b.nanos <= SEEK_PIN_TOLERANCE_NANOS
}

impl NowPlayingView {
    /// Nothing playing.
    pub open spec fn empty() -> NowPlayingView {
        NowPlayingView {
            track: None,
            pin: None,
            value: Duration { nanos: 0 },
            span: Duration { nanos: NANOS_PER_SEC },
            sensitive: false,
            seek_generation: 0,
            artist_mode: false,
            artist_generation: 0,
            art_generation: 0,
        }
    }

    /// The slider moved to where the user wants it, and pinned there. It goes no further than
    /// its end; what is asked of the player, and waited for, is the position itself.
    pub open spec fn seek_requested(self, target: Duration, now: u128) -> NowPlayingView {
        NowPlayingView {
            pin: Some(Pin { target, since: now }),
            value: clamped(target, self.span),
            seek_generation: self.seek_generation.wrapping_add(1),
            ..self
        }
    }

    /// Another track, or none. Outranks any seek still in flight on the old one, and any cover.
    pub open spec fn with_track(self, item: Option<ItemView>) -> NowPlayingView {
        let other = NowPlayingView {
            track: item,
            pin: None,
            value: Duration { nanos: 0 },
            artist_mode: false,
            art_generation: self.art_generation.wrapping_add(1),
            ..self
        };
        match item {
            Some(item) => NowPlayingView {
                span: slider_span(item),
                sensitive: slider_sensitive(item),
                ..other
            },
            None => NowPlayingView { sensitive: false, ..other },
        }
    }

    /// Whether positions are ignored: a seek is in flight, and this is not where it goes.
    pub open spec fn holds(self, pos: Duration, now: u128) -> bool {
        match self.pin {
            Some(pin) => !near(pos, pin.target) && now - pin.since < SEEK_PIN_TIMEOUT_NANOS,
            None => false,
        }
    }

    /// Playback has got to `pos`.
    pub open spec fn positioned(self, pos: Duration, now: u128) -> NowPlayingView {
        if self.holds(pos, now) {
            self
        } else {
            NowPlayingView { pin: None, value: clamped(pos, self.span), ..self }
        }
    }

    /// The player has accepted a seek. That alone does not release the pin: positions from
    /// before it can still arrive.
    pub open spec fn seeked(self, pos: Duration, now: u128) -> NowPlayingView {
        NowPlayingView {
            pin: match self.pin {
                Some(pin) => Some(pin),
                None => Some(Pin { target: pos, since: now }),
            },
            value: clamped(pos, self.span),
            ..self
        }
    }

    /// An artist has the focus, for a while.
    pub open spec fn artist_focused(self) -> NowPlayingView {
        NowPlayingView {
            artist_mode: true,
            artist_generation: self.artist_generation.wrapping_add(1),
            ..self
        }
    }

    /// What a key does where no artist has the focus.
    pub open spec fn plain_key(self, key: Key, now: u128) -> (NowPlayingView, bool, KeyActionView) {
        match key {
            Key::Left => if self.sensitive {
                let target = stepped(self.value, self.span, false);
                let next = self.seek_requested(target, now);
                (next, true, KeyActionView::Seek { target, generation: next.seek_generation })
            } else {
                (self, true, KeyActionView::Nothing)
            },
            Key::Right => if self.sensitive {
                let target = stepped(self.value, self.span, true);
                let next = self.seek_requested(target, now);
                (next, true, KeyActionView::Seek { target, generation: next.seek_generation })
            } else {
                (self, true, KeyActionView::Nothing)
            },
            Key::Space => (self, true, KeyActionView::Tell(Command::PlayPause)),
            Key::N => (self, true, KeyActionView::Tell(Command::Next)),
            Key::P => (self, true, KeyActionView::Tell(Command::Previous)),
            Key::R => (self, true, KeyActionView::Tell(Command::CycleRepeat)),
            Key::L => (self, true, KeyActionView::Go(NavigateView::Library)),
            Key::Q => (self, true, KeyActionView::Go(NavigateView::Queue)),
            Key::S => (self, true, KeyActionView::Go(NavigateView::Settings)),
            Key::LowerA => match album_target(self.track) {
                Some(target) => (self, true, KeyActionView::Go(target)),
                None => (self, true, KeyActionView::Nothing),
            },
            Key::UpperA => (self, true, KeyActionView::FocusArtist),
            _ => (self, false, KeyActionView::Nothing),
        }
    }

    /// What a key does: what the view becomes, whether the key goes no further, whether the
    /// focus is dropped first, and what is done.
    pub open spec fn key(self, key: Key, modifiers: Modifiers, now: u128) -> (
        NowPlayingView,
        bool,
        bool,
        KeyActionView,
    ) {
        if modifiers.control || modifiers.alt {
            (self, false, false, KeyActionView::Nothing)
        } else if self.artist_mode {
            let out = NowPlayingView { artist_mode: false, ..self };
            match key {
                Key::Left => {
                    let next = self.artist_focused();
                    (next, false, false, KeyActionView::KeepArtistFocus(next.artist_generation))
                },
                Key::Right => {
                    let next = self.artist_focused();
                    (next, false, false, KeyActionView::KeepArtistFocus(next.artist_generation))
                },
                Key::Escape => (out, true, true, KeyActionView::Nothing),
                Key::Enter => (out, false, false, KeyActionView::Nothing),
                _ => {
                    let (next, stop, action) = out.plain_key(key, now);
                    (next, stop, true, action)
                },
            }
        } else {
            let (next, stop, action) = self.plain_key(key, now);
            (next, stop, false, action)
        }
    }
}

impl NowPlaying {
    /// Nothing playing.
    pub fn new() -> (r: Self)
        ensures
            r@ == NowPlayingView::empty(),
    {
        NowPlaying {
            track: None,
            pin: None,
            value: Duration::zero(),
            span: Duration { nanos: NANOS_PER_SEC },
            sensitive: false,
            seek_generation: 0,
            artist_mode: false,
            artist_generation: 0,
            art_generation: 0,
        }
    }

    /// Moves the slider and pins it there. The number that comes back is for
    /// [`NowPlaying::seek_is_due`], once it has settled: only the newest request is sent, since
    /// every seek rebuilds a decoder.
    pub fn request_seek(&mut self, target: Duration, now: u128) -> (r: u64)
        ensures
            final(self)@ == old(self)@.seek_requested(target, now),
            r == final(self)@.seek_generation,
    {
        self.pin = Some(Pin { target, since: now });
        self.move_slider(target);
        self.seek_generation = self.seek_generation.wrapping_add(1);
        self.seek_generation
    }

    /// Whether the request of this number is still the newest.
    pub fn seek_is_due(&self, generation: u64) -> (r: bool)
        ensures
            r == (self@.seek_generation == generation),
    {
        self.seek_generation == generation
    }

    fn move_slider(&mut self, pos: Duration)
        ensures
            final(self)@ == (NowPlayingView {
                value: clamped(pos, old(self)@.span),
                ..old(self)@
            }),
    {
        self.value = if pos.nanos > self.span.nanos {
            self.span
        } else {
            pos
        };
    }

    fn step_target(&self, forward: bool) -> (r: Duration)
        ensures
            r == stepped(self@.value, self@.span, forward),
    {
        let step = self.span.nanos / SEEK_KEY_PARTS;
        let at = self.value.nanos;
        let nanos = if forward {
            if at >= self.span.nanos || step > self.span.nanos - at {
                self.span.nanos
            } else {
                at + step
            }
        } else if at < step {
            0
        } else if at - step > self.span.nanos {
            self.span.nanos
        } else {
            at - step
        };
        Duration { nanos }
    }

    fn plain_key(&mut self, key: Key, now: u128) -> (r: (bool, KeyAction))
        ensures
            (final(self)@, r.0, r.1@) == old(self)@.plain_key(key, now),
    {
        match key {
            Key::Left => {
                // A track whose length is not known cannot be seeked.
                if !self.sensitive {
                    return (true, KeyAction::Nothing);
                }
                let target = self.step_target(false);
                let generation = self.request_seek(target, now);
                (true, KeyAction::Seek { target, generation })
            },
            Key::Right => {
                if !self.sensitive {
                    return (true, KeyAction::Nothing);
                }
                let target = self.step_target(true);
                let generation = self.request_seek(target, now);
                (true, KeyAction::Seek { target, generation })
            },
            Key::Space => (true, KeyAction::Tell(Command::PlayPause)),
            Key::N => (true, KeyAction::Tell(Command::Next)),
            Key::P => (true, KeyAction::Tell(Command::Previous)),
            Key::R => (true, KeyAction::Tell(Command::CycleRepeat)),
            Key::L => (true, KeyAction::Go(Navigate::Library)),
            Key::Q => (true, KeyAction::Go(Navigate::Queue)),
            Key::S => (true, KeyAction::Go(Navigate::Settings)),
            // Nothing playing, or a track with no album: the key is still swallowed.
            Key::LowerA => match self.album() {
                Some(target) => (true, KeyAction::Go(target)),
                None => (true, KeyAction::Nothing),
            },
            // Focus rather than navigate: *which* artist is the point of the shortcut.
            Key::UpperA => (true, KeyAction::FocusArtist),
            _ => (false, KeyAction::Nothing),
        }
    }

    /// Where the album of the current track is.
    pub fn album(&self) -> (r: Option<Navigate>)
        ensures
            album_target(self@.track) == (match r {
                Some(target) => Some(target@),
                None => None,
            }),
    {
        match &self.track {
            Some(item) => match (copy_text(&item.album_id), copy_text(&item.album)) {
                (Some(id), Some(name)) => Some(Navigate::Album { id, name }),
                _ => None,
            },
            None => None,
        }
    }

    /// A single-key shortcut, at the time `now`.
    ///
    /// Anything with control or alt belongs to the window or the desktop. While an artist is
    /// focused the arrows walk the strip and Escape backs out of it, rather than seeking and
    /// closing the popup.
    pub fn handle_key(&mut self, key: Key, modifiers: Modifiers, now: u128) -> (r: KeyOutcome)
        ensures
            (final(self)@, r.stop, r.clear_focus, r.action@) == old(self)@.key(
                key,
                modifiers,
                now,
            ),
    {
        if modifiers.control || modifiers.alt {
            return KeyOutcome { stop: false, clear_focus: false, action: KeyAction::Nothing };
        }
        let mut clear_focus = false;
        if self.artist_mode {
            match key {
                Key::Left => {
                    let generation = self.artist_focused();
                    let action = KeyAction::KeepArtistFocus(generation);
                    return KeyOutcome { stop: false, clear_focus: false, action };
                },
                Key::Right => {
                    let generation = self.artist_focused();
                    let action = KeyAction::KeepArtistFocus(generation);
                    return KeyOutcome { stop: false, clear_focus: false, action };
                },
                Key::Escape => {
                    self.artist_mode = false;
                    return KeyOutcome { stop: true, clear_focus: true, action: KeyAction::Nothing };
                },
                // The focused button is activated, and the navigation that follows ends the
                // mode by itself.
                Key::Enter => {
                    self.artist_mode = false;
                    return KeyOutcome {
                        stop: false,
                        clear_focus: false,
                        action: KeyAction::Nothing,
                    };
                },
                // Any other shortcut means the user has moved on.
                _ => {
                    self.artist_mode = false;
                    clear_focus = true;
                },
            }
        }
        let (stop, action) = self.plain_key(key, now);
        KeyOutcome { stop, clear_focus, action }
    }

    /// An artist got the focus, or keeps it. The number that comes back is for
    /// [`NowPlaying::artist_timeout`].
    pub fn artist_focused(&mut self) -> (r: u64)
        ensures
            final(self)@ == old(self)@.artist_focused(),
            r == final(self)@.artist_generation,
    {
        self.artist_mode = true;
        self.artist_generation = self.artist_generation.wrapping_add(1);
        self.artist_generation
    }

    /// The time of an artist focus is up. Says whether the focus is dropped: not where it has
    /// been renewed since, or has gone already.
    pub fn artist_timeout(&mut self, generation: u64) -> (r: bool)
        ensures
            r == (old(self)@.artist_generation == generation && old(self)@.artist_mode),
            final(self)@ == (NowPlayingView {
                artist_mode: old(self)@.artist_mode && old(self)@.artist_generation
                    != generation,
                ..old(self)@
            }),
    {
        if self.artist_generation != generation || !self.artist_mode {
            return false;
        }
        self.artist_mode = false;
        true
    }

    /// Another track, or none. The focus is dropped only where an artist had it: anything else
    /// that has it, such as a filter on another page, keeps it.
    pub fn set_track(&mut self, item: Option<Item>) -> (r: TrackChange)
        ensures
            final(self)@ == old(self)@.with_track(models::item_opt(item)),
            r.art_generation == final(self)@.art_generation,
            r.clear_focus == old(self)@.artist_mode,
    {
        let clear_focus = self.artist_mode();
        self.pin = None;
        self.artist_mode = false;
        self.art_generation = self.art_generation.wrapping_add(1);
        self.value = Duration::zero();
        match &item {
            Some(track) => {
                let length = match track.duration() {
                    Some(d) => d,
                    None => Duration::zero(),
                };
                self.sensitive = length.nanos > 0;
                self.span = if length.nanos > NANOS_PER_SEC {
                    length
                } else {
                    Duration { nanos: NANOS_PER_SEC }
                };
            },
            None => {
                self.sensitive = false;
            },
        }
        self.track = item;
        TrackChange { art_generation: self.art_generation, clear_focus }
    }

    /// Whether a cover that was asked for under this number is still wanted: not where the
    /// track has changed since.
    pub fn cover_is_current(&self, generation: u64) -> (r: bool)
        ensures
            r == (self@.art_generation == generation),
    {
        self.art_generation == generation
    }

    /// Playback has got to `pos`, at the time `now`.
    pub fn set_position(&mut self, pos: Duration, now: u128)
        ensures
            final(self)@ == old(self)@.positioned(pos, now),
    {
        if let Some(pin) = self.pin {
            let gap = if pos.nanos >= pin.target.nanos {
                pos.nanos - pin.target.nanos
            } else {
                pin.target.nanos - pos.nanos
            };
            let arrived = gap <= SEEK_PIN_TOLERANCE_NANOS;
            let young = now < pin.since || now - pin.since < SEEK_PIN_TIMEOUT_NANOS;
            if !arrived && young {
                // Still the position before the seek: the slider stays where the user put it.
                return;
            }
            self.pin = None;
        }
        self.move_slider(pos);
    }

    /// The player has accepted a seek, perhaps one that was not asked for here.
    pub fn set_seeked(&mut self, pos: Duration, now: u128)
        ensures
            final(self)@ == old(self)@.seeked(pos, now),
    {
        if self.pin.is_none() {
            self.pin = Some(Pin { target: pos, since: now });
        }
        self.move_slider(pos);
    }

    /// Drops a pin whose seek will never be confirmed.
    pub fn cancel_pending_seek(&mut self)
        ensures
            final(self)@ == (NowPlayingView { pin: None, ..old(self)@ }),
    {
        self.pin = None;
    }

    /// Where the slider is.
    pub fn value(&self) -> (r: Duration)
        ensures
            r == self@.value,
    {
        self.value
    }

    /// Where the slider ends.
    pub fn span(&self) -> (r: Duration)
        ensures
            r == self@.span,
    {
        self.span
    }

    /// Whether the slider can be used.
    pub fn is_sensitive(&self) -> (r: bool)
        ensures
            r == self@.sensitive,
    {
        self.sensitive
    }

    /// Whether there is a track, so that others like it can be asked for.
    pub fn has_track(&self) -> (r: bool)
        ensures
            r == (self@.track is Some),
    {
        self.track.is_some()
    }

    /// Whether an artist has the focus, so that leaving them drops it.
    pub fn artist_mode(&self) -> (r: bool)
        ensures
            r == self@.artist_mode,
    {
        self.artist_mode
    }

    /// Whether a seek is in flight, so that the slider pulses.
    pub fn is_seeking(&self) -> (r: bool)
        ensures
            r == (self@.pin is Some),
    {
        self.pin.is_some()
    }
}

/// Until a seek arrives or is given up, the slider stays where the user put it, whatever
/// positions come.
pub proof fn law_a_seek_holds_the_slider(
    view: NowPlayingView,
    target: Duration,
    asked: u128,
    pos: Duration,
    now: u128,
)
    requires
        !near(pos, target),
        now - asked < SEEK_PIN_TIMEOUT_NANOS,
    ensures
        view.seek_requested(target, asked).positioned(pos, now) == view.seek_requested(
            target,
            asked,
        ),
        view.seek_requested(target, asked).seeked(target, now).positioned(pos, now)
            == view.seek_requested(target, asked),
        view.seek_requested(target, asked).value == clamped(target, view.span),
{
}

/// A seek does not hold the slider for ever: it lets go where playback arrives, and when its
/// time is up.
pub proof fn law_a_seek_lets_go_of_the_slider(
    view: NowPlayingView,
    target: Duration,
    asked: u128,
    pos: Duration,
    now: u128,
)
    requires
        near(pos, target) || now - asked >= SEEK_PIN_TIMEOUT_NANOS,
    ensures
        ({
            let after = view.seek_requested(target, asked).positioned(pos, now);
            after.pin is None && after.value == clamped(pos, view.span)
        }),
{
}

/// The slider never stands beyond its end, whatever positions are asked for or come.
pub proof fn law_the_slider_stays_on_its_track(
    view: NowPlayingView,
    item: Option<ItemView>,
    pos: Duration,
    now: u128,
)
    requires
        view.value.nanos <= view.span.nanos,
    ensures
        NowPlayingView::empty().value.nanos <= NowPlayingView::empty().span.nanos,
        view.with_track(item).value.nanos <= view.with_track(item).span.nanos,
        view.seek_requested(pos, now).value.nanos <= view.span.nanos,
        view.positioned(pos, now).value.nanos <= view.span.nanos,
        view.seeked(pos, now).value.nanos <= view.span.nanos,
{
}

/// Of several seeks in a row only the last is still due.
pub proof fn law_only_the_newest_seek_is_sent(
    view: NowPlayingView,
    first: Duration,
    second: Duration,
    then: u128,
    now: u128,
)
    ensures
        view.seek_requested(first, then).seek_generation != view.seek_requested(
            first,
            then,
        ).seek_requested(second, now).seek_generation,
{
}

/// A cover that arrives after the track has changed is not shown.
pub proof fn law_a_late_cover_is_not_shown(
    view: NowPlayingView,
    item: Option<ItemView>,
    next: Option<ItemView>,
)
    ensures
        view.with_track(item).art_generation != view.with_track(item).with_track(
            next,
        ).art_generation,
{
}

/// An arrow key moves by a tenth of the track from where the slider stands: Right forward, to the
/// end at most; Left back, to the start at most. The slider goes there at once, the newest request
/// is this one, and nothing else of the view changes.
pub proof fn law_arrows_move_by_a_tenth_from_where_it_is(view: NowPlayingView, now: u128)
    requires
        view.sensitive,
        view.value.nanos <= view.span.nanos,
    ensures
        ({
            let step = view.span.nanos / 10;
            let (forth, stop, action) = view.plain_key(Key::Right, now);
            &&& stop
            &&& action is Seek
            &&& action->Seek_target.nanos == if view.value.nanos + step <= view.span.nanos {
                view.value.nanos + step
            } else {
                view.span.nanos as int
            }
            &&& action->Seek_target.nanos >= view.value.nanos
            &&& action->Seek_generation == forth.seek_generation
            &&& forth.value == action->Seek_target
            &&& forth.pin == Some(Pin { target: action->Seek_target, since: now })
            &&& forth == (NowPlayingView {
                value: forth.value,
                pin: forth.pin,
                seek_generation: forth.seek_generation,
                ..view
            })
        }),
        ({
            let step = view.span.nanos / 10;
            let (back, stop, action) = view.plain_key(Key::Left, now);
            &&& stop
            &&& action is Seek
            &&& action->Seek_target.nanos == if view.value.nanos >= step {
                view.value.nanos - step
            } else {
                0
            }
            &&& action->Seek_target.nanos <= view.value.nanos
            &&& action->Seek_generation == back.seek_generation
            &&& back.value == action->Seek_target
            &&& back.pin == Some(Pin { target: action->Seek_target, since: now })
            &&& back == (NowPlayingView {
                value: back.value,
                pin: back.pin,
                seek_generation: back.seek_generation,
                ..view
            })
        }),
{
}

/// Away from both ends, one arrow takes the other back.
pub proof fn law_left_takes_right_back(view: NowPlayingView, now: u128)
    requires
        view.sensitive,
        view.value.nanos + view.span.nanos / 10 <= view.span.nanos,
    ensures
        view.plain_key(Key::Right, now).0.plain_key(Key::Left, now).0.value == view.value,
        view.value.nanos >= view.span.nanos / 10 ==> view.plain_key(Key::Left, now).0.plain_key(
            Key::Right,
            now,
        ).0.value == view.value,
{
}

/// A slider that cannot be moved swallows the arrows and does nothing.
pub proof fn law_arrows_do_nothing_without_a_length(view: NowPlayingView, now: u128)
    requires
        !view.sensitive,
    ensures
        view.plain_key(Key::Left, now) == (view, true, KeyActionView::Nothing),
        view.plain_key(Key::Right, now) == (view, true, KeyActionView::Nothing),
{
}

/// What each letter does, and that it changes nothing of the view by itself.
pub proof fn law_letters_do_what_they_stand_for(view: NowPlayingView, key: Key, now: u128)
    requires
        key != Key::Left,
        key != Key::Right,
    ensures
        ({
            let (after, stop, action) = view.plain_key(key, now);
            &&& after == view
            &&& stop <==> !(key == Key::Escape || key == Key::Enter || key == Key::Other)
            &&& action == (match key {
                Key::Space => KeyActionView::Tell(Command::PlayPause),
                Key::N => KeyActionView::Tell(Command::Next),
                Key::P => KeyActionView::Tell(Command::Previous),
                Key::R => KeyActionView::Tell(Command::CycleRepeat),
                Key::L => KeyActionView::Go(NavigateView::Library),
                Key::Q => KeyActionView::Go(NavigateView::Queue),
                Key::S => KeyActionView::Go(NavigateView::Settings),
                Key::UpperA => KeyActionView::FocusArtist,
                Key::LowerA => match view.track {
                    Some(track) => if track.album is Some && track.album_id is Some {
                        KeyActionView::Go(
                            NavigateView::Album {
                                id: track.album_id.unwrap(),
                                name: track.album.unwrap(),
                            },
                        )
                    } else {
                        KeyActionView::Nothing
                    },
                    None => KeyActionView::Nothing,
                },
                _ => KeyActionView::Nothing,
            })
        }),
{
}

/// With Control or Alt no key is taken. Where no artist has the focus, a key does what it does by
/// itself. Where one has, the arrows are left to the artists and keep the focus for another while;
/// Escape ends it; Enter ends it and is left to the artist; and any other key ends it and then does
/// what it does.
pub proof fn law_artist_focus_takes_the_keys_first(
    view: NowPlayingView,
    key: Key,
    modifiers: Modifiers,
    now: u128,
)
    ensures
        ({
            let (after, stop, cleared, action) = view.key(key, modifiers, now);
            let out = NowPlayingView { artist_mode: false, ..view };
            if modifiers.control || modifiers.alt {
                after == view && !stop && !cleared && action is Nothing
            } else if !view.artist_mode {
                (after, stop, action) == view.plain_key(key, now) && !cleared
            } else if key == Key::Left || key == Key::Right {
                &&& after.artist_mode
                &&& after == (NowPlayingView { artist_generation: after.artist_generation, ..view })
                &&& after.artist_generation != view.artist_generation
                &&& action == KeyActionView::KeepArtistFocus(after.artist_generation)
                &&& !stop && !cleared
            } else if key == Key::Escape {
                after == out && stop && cleared && action is Nothing
            } else if key == Key::Enter {
                after == out && !stop && !cleared && action is Nothing
            } else {
                (after, stop, action) == out.plain_key(key, now) && cleared
            }
        }),
{
}

/// Focusing an artist, and every key that keeps the focus, makes the wait that was running before
/// it void.
pub proof fn law_focus_is_kept_by_the_newest_wait(view: NowPlayingView)
    ensures
        view.artist_focused().artist_mode,
        view.artist_focused().artist_generation != view.artist_generation,
        view.artist_focused() == (NowPlayingView {
            artist_mode: true,
            artist_generation: view.artist_focused().artist_generation,
            ..view
        }),
{
}

/// Another track is shown from its start, with a slider as long as it is and at least a second,
/// which can be moved where its length is known; no seek is in flight, no artist has the focus, and
/// only a cover that is asked for from then on is its own.
pub proof fn law_another_track_is_shown_from_its_start(
    view: NowPlayingView,
    item: Option<ItemView>,
)
    ensures
        ({
            let after = view.with_track(item);
            &&& after.track == item
            &&& after.value.nanos == 0
            &&& after.pin is None
            &&& !after.artist_mode
            &&& after.art_generation != view.art_generation
            &&& after.seek_generation == view.seek_generation
            &&& after.artist_generation == view.artist_generation
            &&& match item {
                Some(track) => match track.duration() {
                    Some(length) => {
                        &&& after.sensitive == (length.nanos > 0)
                        &&& after.span.nanos == if length.nanos > 1_000_000_000 {
                            length.nanos
                        } else {
                            1_000_000_000
                        }
                    },
                    None => !after.sensitive && after.span.nanos == 1_000_000_000,
                },
                None => !after.sensitive && after.span == view.span,
            }
        }),
{
}

/// A seek that is asked for puts the slider there, and it is waited for from then on; what it was
/// waiting for before does not count.
pub proof fn law_a_seek_is_waited_for_where_it_was_asked(
    view: NowPlayingView,
    target: Duration,
    now: u128,
)
    ensures
        ({
            let after = view.seek_requested(target, now);
            &&& after.pin == Some(Pin { target, since: now })
            &&& after.value.nanos == if target.nanos <= view.span.nanos {
                target.nanos
            } else {
                view.span.nanos
            }
            &&& after.seek_generation != view.seek_generation
            &&& after == (NowPlayingView {
                pin: after.pin,
                value: after.value,
                seek_generation: after.seek_generation,
                ..view
            })
        }),
{
}

/// Without a seek in flight the slider follows playback, to its end at most. With one, it follows
/// once playback is within two seconds of where the seek goes, or five seconds have gone by; until
/// then nothing changes.
pub proof fn law_the_slider_follows_playback(view: NowPlayingView, pos: Duration, now: u128)
    ensures
        ({
            let after = view.positioned(pos, now);
            let arrived = match view.pin {
                Some(pin) => {
                    ||| pos.nanos <= pin.target.nanos + 2_000_000_000 && pin.target.nanos
                        <= pos.nanos + 2_000_000_000
                    ||| now >= pin.since + 5_000_000_000
                },
                None => true,
            };
            if arrived {
                &&& after.pin is None
                &&& after.value.nanos == if pos.nanos <= view.span.nanos {
                    pos.nanos
                } else {
                    view.span.nanos
                }
                &&& after == (NowPlayingView { pin: None, value: after.value, ..view })
            } else {
                after == view
            }
        }),
{
}

/// A seek that the player has done puts the slider there. One that was asked for here is still
/// waited for; one that was not is waited for from then on.
pub proof fn law_a_seek_from_elsewhere_is_waited_for_too(
    view: NowPlayingView,
    pos: Duration,
    now: u128,
)
    ensures
        ({
            let after = view.seeked(pos, now);
            &&& after.value.nanos == if pos.nanos <= view.span.nanos {
                pos.nanos
            } else {
                view.span.nanos
            }
            &&& after.pin == if view.pin is Some {
                view.pin
            } else {
                Some(Pin { target: pos, since: now })
            }
            &&& after == (NowPlayingView { pin: after.pin, value: after.value, ..view })
        }),
{
}

/// The panel of a track without a cover says its album; everyone credited where it has none; and
/// its title where nobody is.
pub proof fn law_the_panel_names_the_album_first(item: ItemView)
    ensures
        ({
            let text = placeholder_of(item);
            &&& item.album is Some && item.album.unwrap().len() > 0 ==> text
                == item.album.unwrap()
            &&& !(item.album is Some && item.album.unwrap().len() > 0) && item.display_artists()
                != "Unknown Artist"@ ==> text == item.display_artists()
            &&& !(item.album is Some && item.album.unwrap().len() > 0) && item.display_artists()
                == "Unknown Artist"@ ==> text == item.name
        }),
{
}

/// A clock says whole minutes, a colon and the seconds that are left, in two digits.
pub proof fn law_a_clock_says_minutes_and_seconds(d: Duration)
    requires
        d.nanos / 1_000_000_000 <= u64::MAX,
    ensures
        ({
            let minutes = text::decimal((d.nanos / 60_000_000_000) as nat);
            let clock = clock_of(d);
            let seconds = (d.nanos / 1_000_000_000) % 60;
            &&& clock.len() == minutes.len() + 3
            &&& minutes.is_prefix_of(clock)
            &&& clock[minutes.len() as int] == ':'
            &&& clock[minutes.len() as int + 1] as u32 == 48 + seconds / 10
            &&& clock[minutes.len() as int + 2] as u32 == 48 + seconds % 10
        }),
{
    reveal_strlit(":");
    let total = (d.nanos / 1_000_000_000) as nat;
    assert(total / 60 == (d.nanos / 60_000_000_000) as nat);
    let s = (total % 60) as nat;
    reveal_with_fuel(text::numeral, 3);
    let digits = text::numeral(s, 10);
    if s < 10 {
        assert(digits.len() == 1);
    } else {
        assert(s / 10 < 10);
        assert(digits =~= seq![text::digit((s / 10) as int), text::digit((s % 10) as int)]);
    }
}

/// The slider can be used for a track of any length, and not for one of none.
pub proof fn law_the_slider_needs_a_length(item: ItemView)
    ensures
        item.duration() is None ==> !slider_sensitive(item),
        item.duration() matches Some(d) ==> slider_sensitive(item) == (d.nanos != 0),
{
}

/// An empty panel shows nothing, stands at the start and cannot be used, and asking for a place on
/// it begins one wait more.
pub proof fn law_an_empty_panel_shows_nothing(panel: NowPlayingView, target: Duration, now: u128)
    ensures
        NowPlayingView::empty().track is None,
        NowPlayingView::empty().pin is None,
        NowPlayingView::empty().value.nanos == 0,
        NowPlayingView::empty().span.nanos == 1_000_000_000,
        !NowPlayingView::empty().sensitive,
        !NowPlayingView::empty().artist_mode,
        NowPlayingView::empty().seek_generation == 0,
        NowPlayingView::empty().artist_generation == 0,
        NowPlayingView::empty().art_generation == 0,
        panel.seek_generation < u64::MAX ==> panel.seek_requested(target, now).seek_generation
            == panel.seek_generation + 1,
        panel.seek_requested(target, now).seek_generation != panel.seek_generation,
{
}

} // verus!
