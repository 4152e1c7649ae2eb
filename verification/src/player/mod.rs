//! The player: what happens to the queue, and what is asked of the server, the cache and the
//! audio output, for every command and every tick.

pub mod actor;
pub mod cache;
pub mod decoder;
pub mod laws;
pub mod model;
pub mod outcomes;
pub mod persist;
pub mod queue;
pub mod rodio_sink;
pub mod shuffle;
pub mod sink;

use vstd::prelude::*;

use crate::config::Repeat;
use crate::jellyfin::models;
use crate::jellyfin::models::{Item, ItemView};
use crate::player::persist::{Saved, SavedView};
use crate::time::Duration;

pub use crate::player::actor::Player;

verus! {

/// How often the sink is polled for end-of-track and position, in milliseconds.
pub const TICK_MS: u64 = 250;

/// Refill a random queue once this few tracks remain.
pub const REFILL_SLACK: usize = 5;

/// How many missing tracks in a row are skipped past before giving up and stopping.
///
/// A bound rather than "until something plays": with repeat-all and a queue whose files have
/// all moved, skipping would walk the same circle forever.
pub const MAX_MISSING_SKIPS: usize = 16;

/// How close to the end of the current track the next one is handed to the sink, in
/// nanoseconds.
///
/// Late on purpose: a track handed to the sink cannot be taken back, so committing early would
/// put almost every "Play next" behind an already committed track.
pub const PREQUEUE_LEAD_NANOS: u128 = 10_000_000_000;

/// Whether anything is heard.
#[derive(Debug, Clone, Copy, PartialEq, Eq, Structural)]
pub enum State {
    Stopped,
    Playing,
    Paused,
}

impl Default for State {
    fn default() -> (r: Self)
        ensures
            r == State::Stopped,
    {
        State::Stopped
    }
}

/// What the player can be told to do.
#[derive(Debug)]
pub enum Command {
    /// Start a fresh random queue.
    PlayRandom,
    /// Play an album from its first track.
    PlayAlbum(String),
    /// Play everything by an artist, album by album.
    PlayArtist(String),
    /// Play an explicit list, starting at an index.
    PlayItems { items: Vec<Item>, start: usize },
    /// Play one track now and shuffle the rest of its scope behind it.
    PlayShuffled { items: Vec<Item>, first: usize },
    /// Append to the end of the queue, playing nothing now.
    QueueLast { items: Vec<Item> },
    /// Insert directly after the track playing now.
    QueueNext { items: Vec<Item> },
    /// New track-cache ceiling, in bytes. Applied and pruned at once.
    SetCacheLimit(u64),
    /// Step the repeat setting on: off, all, one, off.
    CycleRepeat,
    /// Set it outright.
    SetRepeat(Repeat),
    /// Drop one track from the queue.
    ///
    /// Carries the id as well as the index because the caller is working from a snapshot: if
    /// the queue moved on in between, the id no longer matches and the removal is dropped
    /// rather than taking out an innocent neighbour.
    Remove { index: usize, id: String },
    PlayPause,
    Play,
    Pause,
    Next,
    Previous,
    Stop,
    Seek(Duration),
    /// Load the queue left behind by the previous session, without playing it. Ignored once
    /// anything else has filled the queue.
    Restore,
    /// Put tracks like the one playing now behind it, in place of what was to come.
    InstantMix { limit: u32 },
    /// Read the queue back.
    Snapshot,
    Shutdown,
}

/// The queue as it stands, for display.
#[derive(Debug)]
pub struct Snapshot {
    pub items: Vec<Item>,
    /// Index of the track playing now. Meaningless when `items` is empty.
    pub cursor: usize,
    /// Carried along so a listener that starts late can seed itself.
    pub repeat: Repeat,
}

/// What a [`Snapshot`] says.
pub struct SnapshotView {
    pub items: Seq<ItemView>,
    pub cursor: int,
    pub repeat: Repeat,
}

impl View for Snapshot {
    type V = SnapshotView;

    open spec fn view(&self) -> SnapshotView {
        SnapshotView {
            items: models::item_views(self.items@),
            cursor: self.cursor as int,
            repeat: self.repeat,
        }
    }
}

impl Clone for Snapshot {
    fn clone(&self) -> (r: Self)
        ensures
            r@ == self@,
    {
        Snapshot {
            items: models::copy_items(&self.items),
            cursor: self.cursor,
            repeat: self.repeat,
        }
    }
}

/// What the player tells everyone who listens.
#[derive(Debug)]
pub enum Event {
    TrackChanged(Option<Item>),
    /// The queue's contents changed without the track changing.
    QueueChanged,
    /// Repeat changed.
    RepeatChanged(Repeat),
    StateChanged(State),
    /// A track is being opened: the request has gone out and nothing is playing yet. None means
    /// something is being fetched whose track is not known yet.
    ///
    /// There is no explicit "done": `TrackChanged` and `Failed` are the two ways a load ends.
    Loading(Option<Item>),
    /// Download progress for one cache entry. `total` is None when the length is not known.
    Buffering { id: String, got: u64, total: Option<u64> },
    Position(Duration),
    /// A seek was performed.
    Seeked(Duration),
    /// Recoverable failure worth surfacing to the user.
    Failed(String),
}

/// What an [`Event`] says.
pub enum EventView {
    TrackChanged(Option<ItemView>),
    QueueChanged,
    RepeatChanged(Repeat),
    StateChanged(State),
    Loading(Option<ItemView>),
    Buffering { id: Seq<char>, got: u64, total: Option<u64> },
    Position(Duration),
    Seeked(Duration),
    Failed(Seq<char>),
}

impl View for Event {
    type V = EventView;

    open spec fn view(&self) -> EventView {
        match *self {
            Event::TrackChanged(item) => EventView::TrackChanged(models::item_opt(item)),
            Event::QueueChanged => EventView::QueueChanged,
            Event::RepeatChanged(repeat) => EventView::RepeatChanged(repeat),
            Event::StateChanged(state) => EventView::StateChanged(state),
            Event::Loading(item) => EventView::Loading(models::item_opt(item)),
            Event::Buffering { id, got, total } => EventView::Buffering { id: id@, got, total },
            Event::Position(pos) => EventView::Position(pos),
            Event::Seeked(pos) => EventView::Seeked(pos),
            Event::Failed(message) => EventView::Failed(message@),
        }
    }
}

impl Clone for Event {
    fn clone(&self) -> (r: Self)
        ensures
            r@ == self@,
    {
        match self {
            Event::TrackChanged(item) => Event::TrackChanged(models::copy_item_opt(item)),
            Event::QueueChanged => Event::QueueChanged,
            Event::RepeatChanged(repeat) => Event::RepeatChanged(*repeat),
            Event::StateChanged(state) => Event::StateChanged(*state),
            Event::Loading(item) => Event::Loading(models::copy_item_opt(item)),
            Event::Buffering { id, got, total } => Event::Buffering {
                id: id.clone(),
                got: *got,
                total: *total,
            },
            Event::Position(pos) => Event::Position(*pos),
            Event::Seeked(pos) => Event::Seeked(*pos),
            Event::Failed(message) => Event::Failed(message.clone()),
        }
    }
}

/// What the player waits for before it goes on.
#[derive(Debug)]
pub enum Request {
    /// So many random tracks. Answered by [`Reply::Tracks`].
    RandomTracks(u32),
    /// The tracks of an album. Answered by [`Reply::Tracks`].
    AlbumTracks(String),
    /// The albums of an artist. Answered by [`Reply::Tracks`].
    ArtistAlbums(String),
    /// So many tracks like this one. Answered by [`Reply::Tracks`].
    InstantMix { id: String, limit: u32 },
    /// What the state file holds. Answered by [`Reply::Stored`].
    LoadQueue,
    /// A reader to start playback from, which may still be downloading. Answered by
    /// [`Reply::Opened`].
    OpenForPlayback { id: String, ext: String },
    /// A reader over the complete file. Answered by [`Reply::Complete`].
    OpenComplete { id: String, ext: String },
    /// Play what was just opened. Answered by [`Reply::Taken`].
    PlayReader,
    /// Seek in what was just opened, through the demuxer. Answered by [`Reply::Taken`].
    SeekReader(Duration),
    /// Play what was just opened from byte `byte`, reporting positions offset by `pos`.
    /// Answered by [`Reply::Placed`].
    PlayReaderAt { byte: u64, pos: Duration },
    /// Queue what was just opened behind what is playing. Answered by [`Reply::Taken`].
    QueueReader,
    /// How far playback has got. Answered by [`Reply::Polled`].
    PollSink,
    /// Whether a track is on disk. Answered by [`Reply::Probed`].
    ProbeCache { id: String, ext: String },
}

/// What a [`Request`] says.
pub enum RequestView {
    RandomTracks(u32),
    AlbumTracks(Seq<char>),
    ArtistAlbums(Seq<char>),
    InstantMix { id: Seq<char>, limit: u32 },
    LoadQueue,
    OpenForPlayback { id: Seq<char>, ext: Seq<char> },
    OpenComplete { id: Seq<char>, ext: Seq<char> },
    PlayReader,
    SeekReader(Duration),
    PlayReaderAt { byte: u64, pos: Duration },
    QueueReader,
    PollSink,
    ProbeCache { id: Seq<char>, ext: Seq<char> },
}

impl View for Request {
    type V = RequestView;

    open spec fn view(&self) -> RequestView {
        match *self {
            Request::RandomTracks(limit) => RequestView::RandomTracks(limit),
            Request::AlbumTracks(id) => RequestView::AlbumTracks(id@),
            Request::ArtistAlbums(id) => RequestView::ArtistAlbums(id@),
            Request::InstantMix { id, limit } => RequestView::InstantMix { id: id@, limit },
            Request::LoadQueue => RequestView::LoadQueue,
            Request::OpenForPlayback { id, ext } => RequestView::OpenForPlayback {
                id: id@,
                ext: ext@,
            },
            Request::OpenComplete { id, ext } => RequestView::OpenComplete { id: id@, ext: ext@ },
            Request::PlayReader => RequestView::PlayReader,
            Request::SeekReader(pos) => RequestView::SeekReader(pos),
            Request::PlayReaderAt { byte, pos } => RequestView::PlayReaderAt { byte, pos },
            Request::QueueReader => RequestView::QueueReader,
            Request::PollSink => RequestView::PollSink,
            Request::ProbeCache { id, ext } => RequestView::ProbeCache { id: id@, ext: ext@ },
        }
    }
}

/// Why a track could not be opened.
#[derive(Debug)]
pub enum OpenError {
    /// No address to stream from.
    Address(String),
    /// The stream itself failed; `gone` where the server has no such file at all.
    Stream { message: String, gone: bool },
}

/// Why playback from a byte offset did not start.
#[derive(Debug)]
pub enum PlaceError {
    /// The reader could not be moved there.
    Positioning(String),
    /// The sink did not take it.
    Sink(String),
}

/// The answer to a [`Request`].
#[derive(Debug)]
pub enum Reply {
    Tracks(Result<Vec<Item>, String>),
    Stored(Option<Saved>),
    Opened(Result<(), OpenError>),
    /// The length of the file, if it is known, and whether the demuxer can seek in what is
    /// playing.
    Complete(Result<(Option<u64>, bool), OpenError>),
    Taken(Result<(), String>),
    Placed(Result<(), PlaceError>),
    /// How often the sink moved to a queued track by itself since it was last asked, whether
    /// nothing is playing any more, and the position in what is.
    Polled { advances: usize, finished: bool, position: Duration },
    /// Whether the file is complete, whether there is an address to fetch it from, and the
    /// position in what is playing.
    Probed { cached: bool, reachable: bool, position: Duration },
}

/// What is to be done, in order.
#[derive(Debug)]
pub enum Action {
    Emit(Event),
    /// Write the queue to the state file.
    Persist(Saved),
    /// Remember the repeat setting for the next session.
    SaveRepeat(Repeat),
    /// New ceiling on the track cache, in bytes, to be applied at once.
    LimitCache(u64),
    Answer(Snapshot),
    SinkPause,
    SinkResume,
    SinkStop,
    /// Start a download without reading from it.
    Warm { id: String, ext: String },
    /// Do this, and hand back the answer. Always the last action of a list.
    Ask(Request),
    /// Stop for good.
    Quit,
}

/// What an [`Action`] says.
pub enum ActionView {
    Emit(EventView),
    Persist(SavedView),
    SaveRepeat(Repeat),
    LimitCache(u64),
    Answer(SnapshotView),
    SinkPause,
    SinkResume,
    SinkStop,
    Warm { id: Seq<char>, ext: Seq<char> },
    Ask(RequestView),
    Quit,
}

impl View for Action {
    type V = ActionView;

    open spec fn view(&self) -> ActionView {
        match *self {
            Action::Emit(event) => ActionView::Emit(event@),
            Action::Persist(saved) => ActionView::Persist(saved@),
            Action::SaveRepeat(repeat) => ActionView::SaveRepeat(repeat),
            Action::LimitCache(bytes) => ActionView::LimitCache(bytes),
            Action::Answer(snapshot) => ActionView::Answer(snapshot@),
            Action::SinkPause => ActionView::SinkPause,
            Action::SinkResume => ActionView::SinkResume,
            Action::SinkStop => ActionView::SinkStop,
            Action::Warm { id, ext } => ActionView::Warm { id: id@, ext: ext@ },
            Action::Ask(request) => ActionView::Ask(request@),
            Action::Quit => ActionView::Quit,
        }
    }
}

/// What each action of a list says.
pub open spec fn actions(v: Seq<Action>) -> Seq<ActionView> {
    v.map_values(|a: Action| a@)
}

/// What a refill of a random queue was wanted for.
#[derive(Debug, Clone, Copy, PartialEq, Eq, Structural)]
pub enum Refill {
    /// To move on to the next track.
    Advance,
    /// To have a next track to hand to the sink.
    QueueNext,
}

/// What the player waits for.
#[derive(Debug)]
pub enum Pending {
    Nothing,
    /// Tracks for a fresh random queue.
    Random,
    /// The tracks of one album.
    Album,
    /// The albums of an artist.
    ArtistAlbums,
    /// The tracks of one of an artist's albums: those collected so far, and the albums left.
    ArtistTracks { tracks: Vec<Item>, albums: Vec<Item>, next: usize },
    /// Tracks like the current one.
    Mix,
    /// The state file.
    Restore,
    /// More tracks for a random queue.
    Refill(Refill),
    /// A reader over the current track, with so many missing tracks left to skip.
    Open(usize),
    /// The sink taking the current track.
    Play,
    /// The complete file of the current track, to seek in.
    SeekOpen(Duration),
    /// The sink taking a seek.
    Seek(Duration),
    /// The sink taking a start at a byte offset.
    SeekAt(Duration),
    /// How far playback has got.
    Poll,
    /// Whether the following track is on disk.
    Probe,
    /// The complete file of the following track.
    OpenNext,
    /// The sink taking the following track.
    SetNext,
}

/// What a [`Pending`] says.
pub enum PendingView {
    Nothing,
    Random,
    Album,
    ArtistAlbums,
    /// The tracks collected so far, and the albums that have not been asked for.
    ArtistTracks { tracks: Seq<ItemView>, albums: Seq<ItemView> },
    Mix,
    Restore,
    Refill(Refill),
    Open(nat),
    Play,
    SeekOpen(Duration),
    Seek(Duration),
    SeekAt(Duration),
    Poll,
    Probe,
    OpenNext,
    SetNext,
}

impl View for Pending {
    type V = PendingView;

    open spec fn view(&self) -> PendingView {
        match *self {
            Pending::Nothing => PendingView::Nothing,
            Pending::Random => PendingView::Random,
            Pending::Album => PendingView::Album,
            Pending::ArtistAlbums => PendingView::ArtistAlbums,
            Pending::ArtistTracks { tracks, albums, next } => PendingView::ArtistTracks {
                tracks: models::item_views(tracks@),
                albums: models::item_views(albums@).skip(next as int),
            },
            Pending::Mix => PendingView::Mix,
            Pending::Restore => PendingView::Restore,
            Pending::Refill(refill) => PendingView::Refill(refill),
            Pending::Open(left) => PendingView::Open(left as nat),
            Pending::Play => PendingView::Play,
            Pending::SeekOpen(pos) => PendingView::SeekOpen(pos),
            Pending::Seek(pos) => PendingView::Seek(pos),
            Pending::SeekAt(pos) => PendingView::SeekAt(pos),
            Pending::Poll => PendingView::Poll,
            Pending::Probe => PendingView::Probe,
            Pending::OpenNext => PendingView::OpenNext,
            Pending::SetNext => PendingView::SetNext,
        }
    }
}

} // verus!
