//! What a desktop's media controls are told of the player, and what they tell it.

use vstd::prelude::*;

use crate::config::Repeat;
use crate::jellyfin::client;
use crate::jellyfin::client::Client;
use crate::jellyfin::models::{Item, ItemView};
use crate::player::{Command, Event, Snapshot, State};
use crate::text;
use crate::text::{cat, copy_text, copy_texts, opt_is};
use crate::time::{Duration, NANOS_PER_MICRO};
use crate::tray::UiRequest;

verus! {

/// What the controls call a repeat setting.
#[derive(Debug, Clone, Copy, PartialEq, Eq, Structural)]
pub enum LoopStatus {
    Off,
    Track,
    /// The queue, in the words of this program.
    Playlist,
}

/// What the controls call a state.
#[derive(Debug, Clone, Copy, PartialEq, Eq, Structural)]
pub enum PlaybackStatus {
    Playing,
    Paused,
    Stopped,
}

/// What the controls call a repeat setting.
pub open spec fn loop_status_of(repeat: Repeat) -> LoopStatus {
    match repeat {
        Repeat::Off => LoopStatus::Off,
        Repeat::All => LoopStatus::Playlist,
        Repeat::One => LoopStatus::Track,
    }
}

/// What this program calls a repeat setting of theirs.
pub open spec fn repeat_of(status: LoopStatus) -> Repeat {
    match status {
        LoopStatus::Off => Repeat::Off,
        LoopStatus::Playlist => Repeat::All,
        LoopStatus::Track => Repeat::One,
    }
}

pub fn to_loop_status(repeat: Repeat) -> (r: LoopStatus)
    ensures
        r == loop_status_of(repeat),
{
    match repeat {
        Repeat::Off => LoopStatus::Off,
        Repeat::All => LoopStatus::Playlist,
        Repeat::One => LoopStatus::Track,
    }
}

pub fn from_loop_status(status: LoopStatus) -> (r: Repeat)
    ensures
        r == repeat_of(status),
{
    match status {
        LoopStatus::Off => Repeat::Off,
        LoopStatus::Playlist => Repeat::All,
        LoopStatus::Track => Repeat::One,
    }
}

/// A repeat setting that goes out comes back the same, and the other way round.
pub proof fn law_loop_status_and_repeat_are_the_same(repeat: Repeat, status: LoopStatus)
    ensures
        repeat_of(loop_status_of(repeat)) == repeat,
        loop_status_of(repeat_of(status)) == status,
{
}

/// What the controls call a state.
pub open spec fn playback_status_of(state: State) -> PlaybackStatus {
    match state {
        State::Playing => PlaybackStatus::Playing,
        State::Paused => PlaybackStatus::Paused,
        State::Stopped => PlaybackStatus::Stopped,
    }
}

pub fn to_playback_status(state: State) -> (r: PlaybackStatus)
    ensures
        r == playback_status_of(state),
{
    match state {
        State::Playing => PlaybackStatus::Playing,
        State::Paused => PlaybackStatus::Paused,
        State::Stopped => PlaybackStatus::Stopped,
    }
}

/// A number as a signed one of sixty-four bits.
pub open spec fn wrapped(n: nat) -> int {
    let low = n % 0x1_0000_0000_0000_0000;
    if low <= i64::MAX {
        low as int
    } else {
        low - 0x1_0000_0000_0000_0000
    }
}

/// A span of time in whole microseconds.
pub open spec fn micros_of(d: Duration) -> int {
    wrapped((d.nanos / NANOS_PER_MICRO) as nat)
}

/// A span of time in whole microseconds.
pub fn to_time(d: Duration) -> (r: i64)
    ensures
        r == micros_of(d),
{
    let low = d.as_micros() % 0x1_0000_0000_0000_0000;
    if low <= 0x7fff_ffff_ffff_ffff {
        low as i64
    } else {
        (low as i128 - 0x1_0000_0000_0000_0000) as i64
    }
}

/// The span of time of a number of microseconds. Negative ones are clamped: a client may seek
/// backwards past the start.
pub fn to_duration(micros: i64) -> (r: Duration)
    ensures
        r.nanos == (if micros > 0 {
            micros * NANOS_PER_MICRO
        } else {
            0
        }),
{
    if micros > 0 {
        Duration::from_micros(micros as u64)
    } else {
        Duration::zero()
    }
}

/// A position that goes out comes back the same, to the microsecond.
pub proof fn law_positions_survive_the_round_trip(d: Duration)
    requires
        d.nanos < 0x7fff_ffff_ffff_ffff * NANOS_PER_MICRO,
    ensures
        0 <= micros_of(d),
        d.nanos - NANOS_PER_MICRO < micros_of(d) * NANOS_PER_MICRO <= d.nanos,
{
}

/// What comes in front of an item's id in the id of a track.
pub const TRACK_ID_PREFIX: &'static str = "/dev/trayplay/track/";

/// Cover size handed to the controls.
pub const ART_HEIGHT: u32 = 512;

/// Whether a character may stand between the slashes of an object path.
pub open spec fn is_path_char(c: char) -> bool {
    ('a' <= c && c <= 'z') || ('A' <= c && c <= 'Z') || ('0' <= c && c <= '9') || c == '_'
}

/// Whether text is an object path: a slash alone, or elements of at least one letter, digit or
/// underscore, each with a slash in front.
pub open spec fn is_object_path(s: Seq<char>) -> bool {
    &&& s.len() > 0
    &&& s[0] == '/'
    &&& s.len() > 1 ==> s.last() != '/'
    &&& forall|i: int| 0 <= i < s.len() ==> #[trigger] s[i] == '/' || is_path_char(s[i])
    &&& forall|i: int| 0 < i < s.len() ==> !(#[trigger] s[i] == '/' && s[i - 1] == '/')
}

/// `mpris_server::TrackId::try_from`: a track id is text that is a valid object path, and reads
/// as that text; other text is refused.
#[verifier::external_body]
fn checked_track_id(path: String) -> (r: Option<String>)
    ensures
        r is Some <==> is_object_path(path@),
        r is Some ==> r.unwrap()@ == path@,
{
    match mpris_server::TrackId::try_from(path) {
        Ok(id) => Some(id.as_str().to_owned()),
        Err(_) => None,
    }
}

/// The id of a track, if the item's id makes one.
pub open spec fn track_id_of(item_id: Seq<char>) -> Option<Seq<char>> {
    let path = TRACK_ID_PREFIX@ + item_id;
    if is_object_path(path) {
        Some(path)
    } else {
        None
    }
}

/// The id of a track. An item's id is hexadecimal, so it needs no escaping; one that is not may
/// make no id at all.
pub fn track_id(item_id: &str) -> (r: Option<String>)
    ensures
        text::text_opt(r) == track_id_of(item_id@),
{
    checked_track_id(cat(TRACK_ID_PREFIX, item_id))
}

/// An item whose id is made of letters and digits has a track id, and different items have
/// different ones.
pub proof fn law_plain_ids_make_track_ids(a: Seq<char>, b: Seq<char>)
    requires
        a.len() > 0,
        forall|i: int| 0 <= i < a.len() ==> is_path_char(#[trigger] a[i]),
    ensures
        track_id_of(a) is Some,
        track_id_of(a) == track_id_of(b) ==> a == b,
{
    reveal_strlit("/dev/trayplay/track/");
    let path = TRACK_ID_PREFIX@ + a;
    let n = TRACK_ID_PREFIX@.len();
    assert forall|i: int| 0 <= i < path.len() implies #[trigger] path[i] == '/' || is_path_char(
        path[i],
    ) by {
        if i >= n {
            assert(path[i] == a[i - n]);
        }
    }
    assert forall|i: int| 0 < i < path.len() implies !(#[trigger] path[i] == '/' && path[i - 1]
        == '/') by {
        if i >= n {
            assert(path[i] == a[i - n]);
        }
    }
    assert(path.last() == a.last());
    assert(is_path_char(a[a.len() - 1]));
    if track_id_of(a) == track_id_of(b) {
        let other = TRACK_ID_PREFIX@ + b;
        assert(path.skip(n as int) =~= a);
        assert(other.skip(n as int) =~= b);
    }
}

/// What the controls are told of a track. No track at all has nothing but empty fields.
#[derive(Debug)]
pub struct Metadata {
    pub track_id: Option<String>,
    pub title: Option<String>,
    /// In microseconds.
    pub length: Option<i64>,
    pub album: Option<String>,
    pub album_artist: Option<String>,
    pub track_number: Option<i32>,
    pub disc_number: Option<i32>,
    pub artists: Vec<String>,
    pub art_url: Option<String>,
}

/// What [`Metadata`] say.
pub struct MetadataView {
    pub track_id: Option<Seq<char>>,
    pub title: Option<Seq<char>>,
    pub length: Option<i64>,
    pub album: Option<Seq<char>>,
    pub album_artist: Option<Seq<char>>,
    pub track_number: Option<i32>,
    pub disc_number: Option<i32>,
    pub artists: Seq<Seq<char>>,
    pub art_url: Option<Seq<char>>,
}

impl View for Metadata {
    type V = MetadataView;

    open spec fn view(&self) -> MetadataView {
        MetadataView {
            track_id: text::text_opt(self.track_id),
            title: text::text_opt(self.title),
            length: self.length,
            album: text::text_opt(self.album),
            album_artist: text::text_opt(self.album_artist),
            track_number: self.track_number,
            disc_number: self.disc_number,
            artists: text::texts(self.artists@),
            art_url: text::text_opt(self.art_url),
        }
    }
}

/// What is said of a track that is not there.
pub open spec fn no_metadata() -> MetadataView {
    MetadataView {
        track_id: None,
        title: None,
        length: None,
        album: None,
        album_artist: None,
        track_number: None,
        disc_number: None,
        artists: Seq::empty(),
        art_url: None,
    }
}

/// What is said of a track, its cover coming from the server at `base`.
pub open spec fn metadata_of(item: ItemView, base: Seq<char>) -> MetadataView {
    MetadataView {
        track_id: track_id_of(item.id),
        title: Some(item.name),
        length: match item.duration() {
            Some(d) => Some(micros_of(d) as i64),
            None => None,
        },
        album: item.album,
        album_artist: item.album_artist,
        track_number: item.index_number,
        disc_number: item.parent_index_number,
        artists: if item.artists.len() == 0 {
            seq![item.display_artist()]
        } else {
            item.artists
        },
        art_url: match item.cover_source() {
            Some((id, tag)) => Some(
                base + "/Items/"@ + id + "/Images/Primary?tag="@ + client::url_encoded(tag)
                    + "&maxHeight="@ + text::decimal(ART_HEIGHT as nat),
            ),
            None => None,
        },
    }
}

fn empty_metadata() -> (r: Metadata)
    ensures
        r@ == no_metadata(),
{
    let artists: Vec<String> = Vec::new();
    assert(text::texts(artists@) =~= Seq::empty());
    Metadata {
        track_id: None,
        title: None,
        length: None,
        album: None,
        album_artist: None,
        track_number: None,
        disc_number: None,
        artists,
        art_url: None,
    }
}

/// What is said of a track. Artists can be missing on sparsely tagged libraries: the name that
/// is shown everywhere else takes their place, so no one displays a blank artist.
pub fn metadata_for(item: &Item, client: &Client) -> (r: Metadata)
    ensures
        r@ == metadata_of(item@, client@.base),
{
    let artists = if item.artists.len() == 0 {
        let mut one: Vec<String> = Vec::new();
        one.push(item.display_artist().to_owned());
        assert(text::texts(one@) =~= seq![item@.display_artist()]);
        one
    } else {
        copy_texts(&item.artists)
    };
    let length = match item.duration() {
        Some(d) => Some(to_time(d)),
        None => None,
    };
    let art_url = match item.cover_source() {
        Some((id, tag)) => Some(client.image_url(id, tag, ART_HEIGHT)),
        None => None,
    };
    Metadata {
        track_id: track_id(item.id.as_str()),
        title: Some(item.name.clone()),
        length,
        album: copy_text(&item.album),
        album_artist: copy_text(&item.album_artist),
        track_number: item.index_number,
        disc_number: item.parent_index_number,
        artists,
        art_url,
    }
}

/// What the controls ask for.
#[derive(Debug)]
pub enum Call {
    PlayPause,
    Play,
    Pause,
    Stop,
    Next,
    Previous,
    /// Relative to `position`, in microseconds.
    Seek { position: i64, offset: i64 },
    /// Absolute, and for this track only.
    SetPosition { track_id: String, position: i64 },
    SetLoopStatus(LoopStatus),
    Raise,
    Quit,
}

/// What is published.
#[derive(Debug)]
pub enum Update {
    Metadata(Metadata),
    Playback(PlaybackStatus),
    /// The position clients read on demand, in microseconds.
    Position(i64),
    /// The position jumped.
    Seeked(i64),
    Loop(LoopStatus),
}

/// What an [`Update`] says.
pub enum UpdateView {
    Metadata(MetadataView),
    Playback(PlaybackStatus),
    Position(i64),
    Seeked(i64),
    Loop(LoopStatus),
}

impl View for Update {
    type V = UpdateView;

    open spec fn view(&self) -> UpdateView {
        match *self {
            Update::Metadata(metadata) => UpdateView::Metadata(metadata@),
            Update::Playback(status) => UpdateView::Playback(status),
            Update::Position(micros) => UpdateView::Position(micros),
            Update::Seeked(micros) => UpdateView::Seeked(micros),
            Update::Loop(status) => UpdateView::Loop(status),
        }
    }
}

/// What each update of a list says.
pub open spec fn updates(v: Seq<Update>) -> Seq<UpdateView> {
    v.map_values(|u: Update| u@)
}

/// The controls: which track they think is playing.
#[derive(Debug)]
pub struct Controls {
    pub current: Option<String>,
}

impl Controls {
    pub fn new() -> (r: Self)
        ensures
            r.current is None,
    {
        Controls { current: None }
    }

    /// Whether a call is for the track that is playing.
    pub open spec fn plays(&self, track_id: Seq<char>) -> bool {
        text::text_opt(self.current) == Some(track_id)
    }

    /// What a call makes of the player, and of the window. A position for a track that is not
    /// playing is ignored.
    pub fn call(&self, call: Call) -> (r: (Option<Command>, Option<UiRequest>))
        requires
            call matches Call::Seek { position, offset } ==> i64::MIN <= position + offset
                <= i64::MAX,
        ensures
            r.0 == (match call {
                Call::PlayPause => Some(Command::PlayPause),
                Call::Play => Some(Command::Play),
                Call::Pause => Some(Command::Pause),
                Call::Stop => Some(Command::Stop),
                Call::Next => Some(Command::Next),
                Call::Previous => Some(Command::Previous),
                Call::Seek { position, offset } => Some(
                    Command::Seek(seek_target(position + offset)),
                ),
                Call::SetPosition { track_id, position } => if self.plays(track_id@) {
                    Some(Command::Seek(seek_target(position as int)))
                } else {
                    None
                },
                Call::SetLoopStatus(status) => Some(Command::SetRepeat(repeat_of(status))),
                Call::Raise => None,
                Call::Quit => Some(Command::Shutdown),
            }),
            r.1 == (match call {
                Call::Raise => Some(UiRequest::ShowPopup),
                Call::Quit => Some(UiRequest::Quit),
                _ => None,
            }),
    {
        match call {
            Call::PlayPause => (Some(Command::PlayPause), None),
            Call::Play => (Some(Command::Play), None),
            Call::Pause => (Some(Command::Pause), None),
            Call::Stop => (Some(Command::Stop), None),
            Call::Next => (Some(Command::Next), None),
            Call::Previous => (Some(Command::Previous), None),
            Call::Seek { position, offset } => (
                Some(Command::Seek(to_duration(position + offset))),
                None,
            ),
            Call::SetPosition { track_id, position } => {
                if opt_is(&self.current, track_id.as_str()) {
                    (Some(Command::Seek(to_duration(position))), None)
                } else {
                    (None, None)
                }
            },
            Call::SetLoopStatus(status) => (
                Some(Command::SetRepeat(from_loop_status(status))),
                None,
            ),
            Call::Raise => (None, Some(UiRequest::ShowPopup)),
            Call::Quit => (Some(Command::Shutdown), Some(UiRequest::Quit)),
        }
    }

    /// Seeds the controls from the queue as it stands: what was restored was announced before
    /// anything listened.
    pub fn seed(&mut self, snapshot: &Snapshot, client: &Client) -> (r: Vec<Update>)
        ensures
            updates(r@) == (if snapshot.cursor < snapshot.items@.len() {
                seq![
                    UpdateView::Loop(loop_status_of(snapshot.repeat)),
                    UpdateView::Metadata(
                        metadata_of(snapshot.items@[snapshot.cursor as int]@, client@.base),
                    ),
                ]
            } else {
                seq![UpdateView::Loop(loop_status_of(snapshot.repeat))]
            }),
            text::text_opt(final(self).current) == (if snapshot.cursor < snapshot.items@.len() {
                track_id_of(snapshot.items@[snapshot.cursor as int]@.id)
            } else {
                text::text_opt(old(self).current)
            }),
    {
        let mut r: Vec<Update> = Vec::new();
        r.push(Update::Loop(to_loop_status(snapshot.repeat)));
        if snapshot.cursor < snapshot.items.len() {
            let item = &snapshot.items[snapshot.cursor];
            self.current = track_id(item.id.as_str());
            r.push(Update::Metadata(metadata_for(item, client)));
            assert(updates(r@) =~= seq![
                UpdateView::Loop(loop_status_of(snapshot.repeat)),
                UpdateView::Metadata(
                    metadata_of(snapshot.items@[snapshot.cursor as int]@, client@.base),
                ),
            ]);
        } else {
            assert(updates(r@) =~= seq![UpdateView::Loop(loop_status_of(snapshot.repeat))]);
        }
        r
    }

    /// What is published of an event of the player. The controls know no queue, no failures and
    /// no buffering.
    pub fn on_event(&mut self, event: &Event, client: &Client) -> (r: Vec<Update>)
        ensures
            updates(r@) == (match *event {
                Event::TrackChanged(Some(item)) => seq![
                    UpdateView::Metadata(metadata_of(item@, client@.base)),
                ],
                Event::TrackChanged(None) => seq![UpdateView::Metadata(no_metadata())],
                Event::StateChanged(state) => seq![
                    UpdateView::Playback(playback_status_of(state)),
                ],
                Event::Position(pos) => seq![UpdateView::Position(micros_of(pos) as i64)],
                Event::Seeked(pos) => seq![
                    UpdateView::Position(micros_of(pos) as i64),
                    UpdateView::Seeked(micros_of(pos) as i64),
                ],
                Event::RepeatChanged(repeat) => seq![UpdateView::Loop(loop_status_of(repeat))],
                _ => Seq::empty(),
            }),
            text::text_opt(final(self).current) == (match *event {
                Event::TrackChanged(Some(item)) => track_id_of(item@.id),
                Event::TrackChanged(None) => None,
                _ => text::text_opt(old(self).current),
            }),
    {
        let mut r: Vec<Update> = Vec::new();
        match event {
            Event::TrackChanged(item) => {
                match item {
                    Some(item) => {
                        self.current = track_id(item.id.as_str());
                        r.push(Update::Metadata(metadata_for(item, client)));
                    },
                    None => {
                        self.current = None;
                        r.push(Update::Metadata(empty_metadata()));
                    },
                }
            },
            Event::StateChanged(state) => r.push(Update::Playback(to_playback_status(*state))),
            Event::Position(pos) => r.push(Update::Position(to_time(*pos))),
            Event::Seeked(pos) => {
                r.push(Update::Position(to_time(*pos)));
                r.push(Update::Seeked(to_time(*pos)));
            },
            Event::RepeatChanged(repeat) => r.push(Update::Loop(to_loop_status(*repeat))),
            _ => {},
        }
        assert(updates(r@) =~= (match *event {
            Event::TrackChanged(Some(item)) => seq![
                UpdateView::Metadata(metadata_of(item@, client@.base)),
            ],
            Event::TrackChanged(None) => seq![UpdateView::Metadata(no_metadata())],
            Event::StateChanged(state) => seq![UpdateView::Playback(playback_status_of(state))],
            Event::Position(pos) => seq![UpdateView::Position(micros_of(pos) as i64)],
            Event::Seeked(pos) => seq![
                UpdateView::Position(micros_of(pos) as i64),
                UpdateView::Seeked(micros_of(pos) as i64),
            ],
            Event::RepeatChanged(repeat) => seq![UpdateView::Loop(loop_status_of(repeat))],
            _ => Seq::empty(),
        }));
        r
    }
}

/// Where a seek to a number of microseconds goes.
pub open spec fn seek_target(micros: int) -> Duration {
    Duration {
        nanos: if micros > 0 {
            (micros * NANOS_PER_MICRO) as u128
        } else {
            0
        },
    }
}

/// Each repeat setting and each state has the name that stands for it.
pub proof fn law_the_controls_name_what_is_set()
    ensures
        loop_status_of(Repeat::Off) == LoopStatus::Off,
        loop_status_of(Repeat::All) == LoopStatus::Playlist,
        loop_status_of(Repeat::One) == LoopStatus::Track,
        playback_status_of(State::Playing) == PlaybackStatus::Playing,
        playback_status_of(State::Paused) == PlaybackStatus::Paused,
        playback_status_of(State::Stopped) == PlaybackStatus::Stopped,
{
}

/// A seek goes to the microsecond that is asked for, and to the start where that is before it.
pub proof fn law_a_seek_goes_to_the_microsecond(micros: int)
    requires
        micros <= i64::MAX,
    ensures
        micros >= 0 ==> seek_target(micros).nanos == micros * 1_000,
        micros < 0 ==> seek_target(micros).nanos == 0,
{
}

/// A position is told in whole microseconds, as far as they fit.
pub proof fn law_positions_are_told_in_microseconds(d: Duration)
    requires
        d.nanos / 1_000 <= i64::MAX,
    ensures
        micros_of(d) == d.nanos / 1_000,
{
}

/// What the controls are told of a track is that track's: its title, album, numbers and length,
/// everyone credited or else the one artist that is shown, and the address of its cover where it
/// has one. Two tracks that say the same in all this are told alike.
pub proof fn law_the_controls_are_told_of_the_track(item: ItemView, base: Seq<char>)
    ensures
        ({
            let told = metadata_of(item, base);
            &&& told.title == Some(item.name)
            &&& told.album == item.album
            &&& told.album_artist == item.album_artist
            &&& told.track_number == item.index_number
            &&& told.disc_number == item.parent_index_number
            &&& told.length is Some <==> item.duration() is Some
            &&& item.duration() is Some && item.duration().unwrap().nanos / 1_000 <= i64::MAX
                ==> told.length.unwrap() == item.duration().unwrap().nanos / 1_000
            &&& told.artists.len() > 0
            &&& item.artists.len() > 0 ==> told.artists == item.artists
            &&& item.artists.len() == 0 ==> told.artists == seq![item.display_artist()]
            &&& told.art_url is Some <==> item.cover_source() is Some
            &&& item.cover_source() matches Some((id, tag)) ==> {
                let head = base + "/Items/"@ + id + "/Images/Primary?tag="@ + client::url_encoded(
                    tag,
                );
                head.is_prefix_of(told.art_url.unwrap())
            }
            &&& told.track_id is Some ==> told.track_id.unwrap() == "/dev/trayplay/track/"@
                + item.id
        }),
{
    reveal_strlit("/dev/trayplay/track/");
}

/// Nothing is told of no track.
pub proof fn law_nothing_is_told_of_no_track()
    ensures
        no_metadata().track_id is None,
        no_metadata().title is None,
        no_metadata().length is None,
        no_metadata().album is None,
        no_metadata().art_url is None,
        no_metadata().artists.len() == 0,
{
}

/// A call is for the track that plays where it names that very track, and for none while nothing
/// plays.
pub proof fn law_a_call_names_the_track_that_plays(controls: Controls, track_id: Seq<char>)
    ensures
        controls.current is None ==> !controls.plays(track_id),
        controls.current matches Some(current) ==> controls.plays(track_id) == (current@
            == track_id),
{
}

/// What a repeat setting is called reads as that setting.
pub proof fn law_a_repeat_setting_reads_as_it_is_called(repeat: Repeat, status: LoopStatus)
    ensures
        repeat_of(loop_status_of(repeat)) == repeat,
        loop_status_of(repeat_of(status)) == status,
{
}

/// A number too large for its sixty-four bits wraps round, and no other changes.
pub proof fn law_numbers_wrap_round(n: nat)
    ensures
        n <= i64::MAX ==> wrapped(n) == n,
        i64::MIN <= wrapped(n) <= i64::MAX,
        (wrapped(n) - n) % 0x1_0000_0000_0000_0000 == 0,
{
}

} // verus!
