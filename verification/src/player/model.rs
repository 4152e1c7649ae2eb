//! What the player does, as a function from what it is and what happens to what it becomes and
//! what it asks for.

use vstd::prelude::*;

use crate::config::Repeat;
use crate::jellyfin::models;
use crate::jellyfin::models::ItemView;
use crate::order;
use crate::player::persist::Saved;
use crate::player::queue::{Mode, QueueView};
use crate::player::sink::Fault;
use crate::player::{
    ActionView, Command, EventView, OpenError, PendingView, PlaceError, Refill, Reply, RequestView,
    SnapshotView, State, MAX_MISSING_SKIPS, PREQUEUE_LEAD_NANOS, REFILL_SLACK,
};
use crate::time::Duration;

verus! {

/// What the player is.
#[verifier::ext_equal]
pub struct PlayerView {
    pub queue: QueueView,
    pub state: State,
    pub repeat: Repeat,
    /// Tracks asked for when a random queue is filled.
    pub random_batch: u32,
    /// Whether the following track is fetched and queued ahead of time.
    pub prefetch: bool,
    /// Id of the track already handed to the sink as the gapless follow-up.
    pub queued_next: Option<Seq<char>>,
    /// Whether the queue holds a restored session nothing has played from yet.
    pub resume_pending: bool,
    /// Id of the track whose download has been started ahead of time.
    pub warming: Option<Seq<char>>,
    pub pending: PendingView,
}

/// The player, and what it has asked for so far.
#[verifier::ext_equal]
pub struct Step {
    pub player: PlayerView,
    pub out: Seq<ActionView>,
}

impl PlayerView {
    /// A player that has just been started.
    pub open spec fn fresh(random_batch: u32, prefetch: bool, repeat: Repeat) -> PlayerView {
        PlayerView {
            queue: QueueView::of(Seq::empty(), 0, Mode::Explicit),
            state: State::Stopped,
            repeat,
            random_batch,
            prefetch,
            queued_next: None,
            resume_pending: false,
            warming: None,
            pending: PendingView::Nothing,
        }
    }

    /// The cursor is on a track; what is waited for is about a track that is there.
    pub open spec fn wf(self) -> bool {
        &&& self.queue.wf()
        &&& match self.pending {
            PendingView::Open(left) => self.queue.current() is Some && left < MAX_MISSING_SKIPS,
            PendingView::Play => self.queue.current() is Some,
            PendingView::SeekOpen(_) => self.queue.current() is Some,
            PendingView::Probe => self.queue.next(self.wraps()) is Some,
            PendingView::OpenNext => self.queue.next(self.wraps()) is Some,
            PendingView::SetNext => self.queue.next(self.wraps()) is Some,
            PendingView::ArtistTracks { tracks, albums } => albums.len() > 0,
            _ => true,
        }
    }

    /// Whether nothing is waited for, so that a command or a tick can be taken.
    pub open spec fn idle(self) -> bool {
        self.pending == PendingView::Nothing
    }

    /// Whether the queue starts over at its end.
    pub open spec fn wraps(self) -> bool {
        self.repeat == Repeat::All
    }

    /// What plays after the current track.
    pub open spec fn next(self) -> Option<ItemView> {
        self.queue.next(self.wraps())
    }

    /// Whether a random queue is about to run dry.
    pub open spec fn needs_refill(self) -> bool {
        self.queue.mode == Mode::Random && self.queue.items.len() - self.queue.cursor
            <= REFILL_SLACK
    }

    /// Whether the current track is within the lead of its end, `position` being where it is.
    /// One whose length is not known always is.
    pub open spec fn near_end(self, position: Duration) -> bool {
        match self.queue.current() {
            Some(item) => match item.duration() {
                Some(total) => total.nanos <= position.nanos + PREQUEUE_LEAD_NANOS,
                None => true,
            },
            None => true,
        }
    }
}

/// Position of the first `c` at or behind `i`, or the end of the text.
pub open spec fn find_char(s: Seq<char>, c: char, i: int) -> int
    decreases s.len() - i,
{
    if i >= s.len() || s[i] == c {
        i
    } else {
        find_char(s, c, i + 1)
    }
}

/// File extension for the cache entry of a track: the first container that is named for it.
pub open spec fn extension_of(item: ItemView) -> Seq<char> {
    match item.container {
        Some(container) => container.take(find_char(container, ',', 0)),
        None => "bin"@,
    }
}

/// The tracks of a list with another id.
pub open spec fn others(items: Seq<ItemView>, id: Seq<char>) -> Seq<ItemView> {
    items.filter(|item: ItemView| item.id != id)
}

/// Whether any track behind the cursor has another id.
pub open spec fn others_follow(queue: QueueView, id: Seq<char>) -> bool {
    others(queue.items.skip(queue.cursor + 1), id).len() > 0
}

/// The queue without any track of id `id`, the current one among them. The cursor lands on the
/// track that followed, or on the last one left.
pub open spec fn purged(queue: QueueView, id: Seq<char>) -> QueueView {
    let before = others(queue.items.take(queue.cursor), id);
    let after = others(queue.items.skip(queue.cursor + 1), id);
    QueueView {
        items: before + after,
        cursor: if after.len() > 0 || before.len() == 0 {
            before.len() as int
        } else {
            before.len() - 1
        },
        ..queue
    }
}

/// The byte that position `pos` of a track of length `total` is at, in a file of `len` bytes,
/// at a constant bitrate. Kept just inside the end, so that a seek to the very end still yields
/// a frame to resynchronise on.
pub open spec fn byte_at(pos: nat, total: nat, len: nat) -> nat {
    if pos * 100 >= total * 99 {
        len * 99 / 100
    } else {
        len * pos / total
    }
}

/// A message with what was being done in front of it.
pub open spec fn in_context(context: Seq<char>, message: Seq<char>) -> Seq<char> {
    context + ": "@ + message
}

/// What is reported of a track that could not be opened.
pub open spec fn open_message(err: OpenError, item: ItemView) -> Seq<char> {
    match err {
        OpenError::Address(message) => message@,
        OpenError::Stream { message, gone } => in_context(
            "opening stream for "@ + item.name,
            message@,
        ),
    }
}

/// Whether the server has no such file at all.
pub open spec fn is_gone(err: OpenError) -> bool {
    err is Stream && err->gone
}

impl Step {
    /// Nothing asked for yet.
    pub open spec fn start(player: PlayerView) -> Step {
        Step { player, out: Seq::empty() }
    }

    /// With one thing more asked for.
    pub open spec fn act(self, action: ActionView) -> Step {
        Step { out: self.out.push(action), ..self }
    }

    pub open spec fn emit(self, event: EventView) -> Step {
        self.act(ActionView::Emit(event))
    }

    pub open spec fn fail(self, message: Seq<char>) -> Step {
        self.emit(EventView::Failed(message))
    }

    /// Asking for something and waiting for the answer.
    pub open spec fn ask(self, request: RequestView, pending: PendingView) -> Step {
        Step {
            player: PlayerView { pending, ..self.player },
            out: self.out.push(ActionView::Ask(request)),
        }
    }

    pub open spec fn with_queue(self, queue: QueueView) -> Step {
        Step { player: PlayerView { queue, ..self.player }, ..self }
    }

    pub open spec fn with_resume_pending(self, resume_pending: bool) -> Step {
        Step { player: PlayerView { resume_pending, ..self.player }, ..self }
    }

    /// With nothing handed to the sink and nothing being fetched ahead of time.
    pub open spec fn with_nothing_ahead(self) -> Step {
        Step { player: PlayerView { queued_next: None, warming: None, ..self.player }, ..self }
    }

    /// A change of state is announced; staying the same is not.
    pub open spec fn set_state(self, state: State) -> Step {
        if self.player.state == state {
            self
        } else {
            Step { player: PlayerView { state, ..self.player }, ..self }.emit(
                EventView::StateChanged(state),
            )
        }
    }

    pub open spec fn persist(self) -> Step {
        self.act(ActionView::Persist(self.player.queue.saved()))
    }

    #[verifier::opaque]
    pub open spec fn set_repeat(self, repeat: Repeat) -> Step {
        if self.player.repeat == repeat {
            self
        } else {
            Step { player: PlayerView { repeat, queued_next: None, ..self.player }, ..self }.act(
                ActionView::SaveRepeat(repeat),
            ).emit(EventView::RepeatChanged(repeat))
        }
    }

    /// Tracks that become the queue where there is none, shown but not started; that go behind
    /// what the sink has already been handed where they are to play next; and to the end where
    /// they are not.
    #[verifier::opaque]
    pub open spec fn enqueue(self, items: Seq<ItemView>, next: bool) -> Step {
        let queue = self.player.queue;
        if items.len() == 0 {
            self
        } else if queue.items.len() == 0 {
            let filled = QueueView::of(items, 0, Mode::Explicit);
            self.with_queue(filled).with_resume_pending(true).emit(
                EventView::TrackChanged(filled.current()),
            ).persist().emit(EventView::QueueChanged)
        } else if next {
            let after = if self.player.queued_next is Some {
                queue.cursor + 1
            } else {
                queue.cursor
            };
            self.with_queue(queue.inserted_after(after, items)).persist().emit(
                EventView::QueueChanged,
            )
        } else {
            self.with_queue(queue.appended(items)).persist().emit(EventView::QueueChanged)
        }
    }

    #[verifier::opaque]
    pub open spec fn remove(self, index: int, id: Seq<char>) -> Step {
        let queue = self.player.queue;
        if !(0 <= index < queue.items.len() && queue.items[index].id == id) {
            self
        } else if index == queue.cursor {
            self.fail("that track is playing right now"@)
        } else if self.player.queued_next == Some(id) {
            self.fail("that track is already cued up next"@)
        } else {
            self.with_queue(queue.without(index)).persist().emit(EventView::QueueChanged)
        }
    }

    #[verifier::opaque]
    pub open spec fn pause(self) -> Step {
        self.act(ActionView::SinkPause).set_state(State::Paused)
    }

    #[verifier::opaque]
    pub open spec fn resume(self) -> Step {
        self.act(ActionView::SinkResume).set_state(State::Playing)
    }

    /// Nothing is heard any more.
    pub open spec fn halt(self) -> Step {
        self.act(ActionView::SinkStop).set_state(State::Stopped)
    }

    /// A random queue has to be asked for first.
    #[verifier::opaque]
    pub open spec fn play_random(self) -> Step {
        self.emit(EventView::Loading(None)).ask(
            RequestView::RandomTracks(self.player.random_batch),
            PendingView::Random,
        )
    }

    /// Play, from a stopped player: the restored session if there is one, else a random queue.
    #[verifier::opaque]
    pub open spec fn resume_or_random(self) -> Step {
        if self.player.resume_pending && self.player.queue.items.len() > 0 {
            self.start_current(MAX_MISSING_SKIPS as nat)
        } else {
            self.play_random()
        }
    }

    /// A queue of its own, started at once.
    #[verifier::opaque]
    pub open spec fn start_queue(self, items: Seq<ItemView>, start: int, mode: Mode) -> Step {
        self.with_queue(QueueView::of(items, start, mode)).start_current(MAX_MISSING_SKIPS as nat)
    }

    /// The track at the cursor is announced and opened, `tries` being how many tracks may still
    /// be tried.
    #[verifier::opaque]
    pub open spec fn start_current(self, tries: nat) -> Step {
        if tries == 0 {
            self.halt().fail("too many tracks in a row are missing on the server"@)
        } else {
            match self.player.queue.current() {
                None => self.set_state(State::Stopped),
                Some(item) => self.emit(EventView::Loading(Some(item))).ask(
                    RequestView::OpenForPlayback { id: item.id, ext: extension_of(item) },
                    PendingView::Open((tries - 1) as nat),
                ),
            }
        }
    }

    /// A track that cannot be fetched stops the player on it, and Play tries it again: it may
    /// well work next time.
    #[verifier::opaque]
    pub open spec fn stall(self, message: Seq<char>) -> Step {
        self.with_resume_pending(true).halt().fail(message)
    }

    /// The queue after a track that the server has lost was dropped from it, and whether a
    /// track follows.
    pub open spec fn after_missing(self, item: ItemView) -> (QueueView, bool) {
        let left = purged(self.player.queue, item.id);
        if others_follow(self.player.queue, item.id) {
            (left, true)
        } else if self.player.wraps() && left.items.len() > 0 {
            (left.advanced(true), true)
        } else {
            (left, false)
        }
    }

    /// Every copy of a track that the server has lost is dropped, and the next one tried.
    #[verifier::opaque]
    pub open spec fn drop_missing(self, item: ItemView, tries: nat) -> Step {
        let (queue, stepped) = self.after_missing(item);
        let dropped = self.fail(item.name + " is no longer on the server, skipping it"@).with_queue(
            queue,
        ).persist().emit(EventView::QueueChanged);
        if stepped {
            dropped.start_current(tries)
        } else {
            dropped.halt().emit(EventView::TrackChanged(None))
        }
    }

    /// The sink took the current track.
    #[verifier::opaque]
    pub open spec fn started(self) -> Step {
        self.with_nothing_ahead().with_resume_pending(false).emit(
            EventView::TrackChanged(self.player.queue.current()),
        ).set_state(State::Playing).persist()
    }

    /// On to the next track, with a random queue topped up first.
    #[verifier::opaque]
    pub open spec fn advance(self) -> Step {
        let announced = self.emit(EventView::Loading(self.player.next()));
        if self.player.needs_refill() {
            announced.ask(
                RequestView::RandomTracks(self.player.random_batch),
                PendingView::Refill(Refill::Advance),
            )
        } else {
            announced.advance_now()
        }
    }

    /// On to the next track. A queue that has none stops.
    #[verifier::opaque]
    pub open spec fn advance_now(self) -> Step {
        if self.player.next() is Some {
            self.with_queue(self.player.queue.advanced(self.player.wraps())).start_current(
                MAX_MISSING_SKIPS as nat,
            )
        } else {
            self.halt().emit(EventView::TrackChanged(None))
        }
    }

    /// Tracks that came for a random queue; a refill that failed stops nothing.
    #[verifier::opaque]
    pub open spec fn refilled(self, more: Option<Seq<ItemView>>) -> Step {
        match more {
            Some(items) => self.with_queue(self.player.queue.appended(items)).persist(),
            None => self,
        }
    }

    /// The following track is wanted, to be handed to the sink.
    #[verifier::opaque]
    pub open spec fn queue_next(self) -> Step {
        if self.player.repeat == Repeat::One {
            self
        } else if self.player.needs_refill() {
            self.ask(
                RequestView::RandomTracks(self.player.random_batch),
                PendingView::Refill(Refill::QueueNext),
            )
        } else {
            self.probe_next()
        }
    }

    /// Whether the following track is on disk has to be known, unless it was handed over
    /// already.
    #[verifier::opaque]
    pub open spec fn probe_next(self) -> Step {
        match self.player.next() {
            None => self,
            Some(next) => if self.player.queued_next == Some(next.id) {
                self
            } else {
                self.ask(
                    RequestView::ProbeCache { id: next.id, ext: extension_of(next) },
                    PendingView::Probe,
                )
            },
        }
    }

    /// A track that is not on disk is fetched, once; one that is is opened when the current
    /// track is nearly done.
    #[verifier::opaque]
    pub open spec fn probed(self, cached: bool, reachable: bool, position: Duration) -> Step {
        match self.player.next() {
            None => self,
            Some(next) => if !cached {
                if self.player.warming == Some(next.id) || !reachable {
                    self
                } else {
                    Step {
                        player: PlayerView { warming: Some(next.id), ..self.player },
                        ..self
                    }.act(ActionView::Warm { id: next.id, ext: extension_of(next) })
                }
            } else if self.player.near_end(position) {
                self.ask(
                    RequestView::OpenComplete { id: next.id, ext: extension_of(next) },
                    PendingView::OpenNext,
                )
            } else {
                self
            },
        }
    }

    #[verifier::opaque]
    pub open spec fn seek(self, pos: Duration) -> Step {
        match self.player.queue.current() {
            None => self,
            Some(item) => self.ask(
                RequestView::OpenComplete { id: item.id, ext: extension_of(item) },
                PendingView::SeekOpen(pos),
            ),
        }
    }

    /// The complete file is there: the demuxer seeks where it can, and playback is started at
    /// an estimated byte where it cannot.
    #[verifier::opaque]
    pub open spec fn seek_opened(self, pos: Duration, len: Option<u64>, seekable: bool) -> Step {
        if seekable {
            self.ask(RequestView::SeekReader(pos), PendingView::Seek(pos))
        } else {
            match (self.player.queue.current(), len) {
                (Some(item), Some(len)) => match item.duration() {
                    Some(total) => if total.nanos == 0 {
                        self.fail("this track cannot be seeked"@)
                    } else {
                        self.ask(
                            RequestView::PlayReaderAt {
                                byte: byte_at(
                                    pos.nanos as nat,
                                    total.nanos as nat,
                                    len as nat,
                                ) as u64,
                                pos,
                            },
                            PendingView::SeekAt(pos),
                        )
                    },
                    None => self.fail("this track cannot be seeked"@),
                },
                _ => self.fail("this track cannot be seeked"@),
            }
        }
    }

    /// The sink moved `advances` tracks on by itself; the queue follows, as far as it goes.
    pub open spec fn catch_up(self, advances: nat) -> Step
        decreases advances,
    {
        if advances == 0 {
            self
        } else {
            let cleared = self.with_nothing_ahead();
            match self.player.next() {
                Some(item) => cleared.with_queue(
                    self.player.queue.advanced(self.player.wraps()),
                ).emit(EventView::TrackChanged(Some(item))).catch_up((advances - 1) as nat),
                None => cleared,
            }
        }
    }

    #[verifier::opaque]
    pub open spec fn polled(self, advances: nat, finished: bool, position: Duration) -> Step {
        let caught_up = self.catch_up(advances);
        let saved = if advances > 0 && self.player.next() is Some {
            caught_up.persist()
        } else {
            caught_up
        };
        if finished {
            if self.player.repeat == Repeat::One {
                saved.start_current(MAX_MISSING_SKIPS as nat)
            } else {
                saved.advance()
            }
        } else {
            let told = saved.emit(EventView::Position(position));
            if self.player.prefetch {
                told.queue_next()
            } else {
                told
            }
        }
    }

    /// Every quarter of a second. A failure is reported in any state; one of the track that is
    /// playing skips it.
    pub open spec fn tick(self, fault: Option<Fault>) -> Step {
        match fault {
            Some(fault) => {
                let told = self.fail(fault.message@);
                if self.player.state != State::Playing {
                    told
                } else if fault.affects_current {
                    told.advance()
                } else {
                    told.ask(RequestView::PollSink, PendingView::Poll)
                }
            },
            None => if self.player.state != State::Playing {
                self
            } else {
                self.ask(RequestView::PollSink, PendingView::Poll)
            },
        }
    }

    /// A command, `order` being how the rest of a shuffled scope comes out.
    pub open spec fn handle(self, cmd: Command, order: Seq<int>) -> Step {
        match cmd {
            Command::PlayRandom => self.play_random(),
            Command::PlayAlbum(id) => self.ask(
                RequestView::AlbumTracks(id@),
                PendingView::Album,
            ),
            Command::PlayArtist(id) => self.ask(
                RequestView::ArtistAlbums(id@),
                PendingView::ArtistAlbums,
            ),
            Command::PlayItems { items, start } => if items@.len() == 0 {
                self
            } else {
                self.start_queue(models::item_views(items@), start as int, Mode::Explicit)
            },
            Command::PlayShuffled { items, first } => if first >= items@.len() {
                self
            } else {
                self.start_queue(
                    shuffled_scope(models::item_views(items@), first as int, order),
                    0,
                    Mode::Explicit,
                )
            },
            Command::QueueLast { items } => self.enqueue(models::item_views(items@), false),
            Command::QueueNext { items } => self.enqueue(models::item_views(items@), true),
            Command::SetCacheLimit(bytes) => self.act(ActionView::LimitCache(bytes)),
            Command::CycleRepeat => self.set_repeat(self.player.repeat.successor()),
            Command::SetRepeat(repeat) => self.set_repeat(repeat),
            Command::Remove { index, id } => self.remove(index as int, id@),
            Command::PlayPause => match self.player.state {
                State::Playing => self.pause(),
                State::Paused => self.resume(),
                State::Stopped => self.resume_or_random(),
            },
            Command::Play => match self.player.state {
                State::Playing => self,
                State::Paused => self.resume(),
                State::Stopped => self.resume_or_random(),
            },
            Command::Pause => if self.player.state == State::Playing {
                self.pause()
            } else {
                self
            },
            Command::Next => self.advance(),
            Command::Previous => if self.player.queue.items.len() > 0 {
                self.with_queue(self.player.queue.stepped_back()).start_current(
                    MAX_MISSING_SKIPS as nat,
                )
            } else {
                self
            },
            Command::Stop => self.halt().emit(EventView::Position(Duration { nanos: 0 })),
            Command::Seek(pos) => self.seek(pos),
            Command::Restore => if self.player.queue.items.len() > 0 {
                self
            } else {
                self.ask(RequestView::LoadQueue, PendingView::Restore)
            },
            Command::InstantMix { limit } => match self.player.queue.current() {
                Some(item) => self.ask(
                    RequestView::InstantMix { id: item.id, limit },
                    PendingView::Mix,
                ),
                None => self,
            },
            Command::Snapshot => self.act(
                ActionView::Answer(
                    SnapshotView {
                        items: self.player.queue.items,
                        cursor: self.player.queue.cursor,
                        repeat: self.player.repeat,
                    },
                ),
            ),
            Command::Shutdown => self.act(ActionView::SinkStop).act(ActionView::Quit),
        }
    }

    /// Tracks like the current one, put behind it in place of what was to come. What the sink
    /// has already been handed stays: it is going to be heard. The track they were asked for is
    /// not repeated, and the queue does not refill itself any more.
    #[verifier::opaque]
    pub open spec fn mixed(self, tracks: Seq<ItemView>) -> Step {
        match self.player.queue.current() {
            Some(seed) => {
                let mix = others(tracks, seed.id);
                if mix.len() == 0 {
                    self.fail("server returned no tracks"@)
                } else {
                    let queue = self.player.queue;
                    let kept = if self.player.queued_next is Some && queue.has_successor() {
                        queue.cursor + 2
                    } else {
                        queue.cursor + 1
                    };
                    self.with_queue(
                        QueueView {
                            items: queue.items.take(kept) + mix,
                            mode: Mode::Explicit,
                            ..queue
                        },
                    ).persist().emit(EventView::QueueChanged)
                }
            },
            None => self,
        }
    }

    /// What the state file held, once it is known: shown, but not started.
    #[verifier::opaque]
    pub open spec fn restored(self, stored: Option<Saved>) -> Step {
        match stored {
            Some(saved) => match saved@.restored() {
                Some(queue) => self.with_queue(queue).with_resume_pending(true).emit(
                    EventView::TrackChanged(queue.current()),
                ),
                None => self,
            },
            None => self,
        }
    }

    /// The albums of an artist, one after the other, until all their tracks are there.
    #[verifier::opaque]
    pub open spec fn collect(self, tracks: Seq<ItemView>, albums: Seq<ItemView>) -> Step {
        if albums.len() == 0 {
            self.start_queue(tracks, 0, Mode::Explicit)
        } else {
            self.ask(
                RequestView::AlbumTracks(albums[0].id),
                PendingView::ArtistTracks { tracks, albums },
            )
        }
    }

    /// The answer to what was asked for last. One that answers something else changes nothing.
    pub open spec fn resume_with(self, reply: Reply) -> Step {
        let idle = Step {
            player: PlayerView { pending: PendingView::Nothing, ..self.player },
            ..self
        };
        match (self.player.pending, reply) {
            (PendingView::Random, Reply::Tracks(Ok(tracks))) => if tracks@.len() == 0 {
                idle.fail("server returned no tracks"@)
            } else {
                idle.start_queue(models::item_views(tracks@), 0, Mode::Random)
            },
            (PendingView::Random, Reply::Tracks(Err(message))) => idle.fail(
                in_context("fetching random tracks"@, message@),
            ),
            (PendingView::Album, Reply::Tracks(Ok(tracks))) => idle.start_queue(
                models::item_views(tracks@),
                0,
                Mode::Explicit,
            ),
            (PendingView::Album, Reply::Tracks(Err(message))) => idle.fail(
                in_context("fetching album tracks"@, message@),
            ),
            (PendingView::ArtistAlbums, Reply::Tracks(Ok(albums))) => idle.collect(
                Seq::empty(),
                models::item_views(albums@),
            ),
            (PendingView::ArtistAlbums, Reply::Tracks(Err(message))) => idle.fail(
                in_context("fetching artist albums"@, message@),
            ),
            (
                PendingView::ArtistTracks { tracks, albums },
                Reply::Tracks(Ok(more)),
            ) => idle.collect(tracks + models::item_views(more@), albums.skip(1)),
            (
                PendingView::ArtistTracks { tracks, albums },
                Reply::Tracks(Err(message)),
            ) => idle.fail(message@),
            (PendingView::Mix, Reply::Tracks(Ok(tracks))) => idle.mixed(
                models::item_views(tracks@),
            ),
            (PendingView::Mix, Reply::Tracks(Err(message))) => idle.fail(
                in_context("fetching an instant mix"@, message@),
            ),
            (PendingView::Restore, Reply::Stored(stored)) => idle.restored(stored),
            (PendingView::Refill(purpose), Reply::Tracks(result)) => {
                let topped_up = idle.refilled(
                    match result {
                        Ok(more) => Some(models::item_views(more@)),
                        Err(_) => None,
                    },
                );
                match purpose {
                    Refill::Advance => topped_up.advance_now(),
                    Refill::QueueNext => topped_up.probe_next(),
                }
            },
            (PendingView::Open(left), Reply::Opened(Ok(()))) => idle.ask(
                RequestView::PlayReader,
                PendingView::Play,
            ),
            (PendingView::Open(left), Reply::Opened(Err(err))) => {
                let item = self.player.queue.current().unwrap();
                if is_gone(err) {
                    idle.drop_missing(item, left)
                } else {
                    idle.stall(open_message(err, item))
                }
            },
            (PendingView::Play, Reply::Taken(Ok(()))) => idle.started(),
            (PendingView::Play, Reply::Taken(Err(message))) => idle.fail(
                in_context("starting playback"@, message@),
            ),
            (PendingView::SeekOpen(pos), Reply::Complete(Ok((len, seekable)))) => idle.seek_opened(
                pos,
                len,
                seekable,
            ),
            (PendingView::SeekOpen(pos), Reply::Complete(Err(err))) => idle.fail(
                open_message(err, self.player.queue.current().unwrap()),
            ),
            (PendingView::Seek(pos), Reply::Taken(Ok(()))) => idle.emit(EventView::Seeked(pos)),
            (PendingView::Seek(pos), Reply::Taken(Err(message))) => idle.fail(
                in_context("seeking"@, message@),
            ),
            (PendingView::SeekAt(pos), Reply::Placed(Ok(()))) => idle.emit(EventView::Seeked(pos)),
            (PendingView::SeekAt(pos), Reply::Placed(Err(err))) => idle.fail(
                match err {
                    PlaceError::Positioning(message) => in_context(
                        "positioning reader"@,
                        message@,
                    ),
                    PlaceError::Sink(message) => in_context("seeking"@, message@),
                },
            ),
            (
                PendingView::Poll,
                Reply::Polled { advances, finished, position },
            ) => idle.polled(advances as nat, finished, position),
            (
                PendingView::Probe,
                Reply::Probed { cached, reachable, position },
            ) => idle.probed(cached, reachable, position),
            (PendingView::OpenNext, Reply::Complete(Ok(_))) => idle.ask(
                RequestView::QueueReader,
                PendingView::SetNext,
            ),
            (PendingView::OpenNext, Reply::Complete(Err(_))) => idle,
            (PendingView::SetNext, Reply::Taken(Ok(()))) => Step {
                player: PlayerView {
                    queued_next: Some(self.player.next().unwrap().id),
                    ..idle.player
                },
                ..idle
            },
            (PendingView::SetNext, Reply::Taken(Err(_))) => idle,
            _ => self,
        }
    }
}

/// Whether `order` is a way that a command's shuffle can come out.
pub open spec fn may_shuffle(cmd: Command, order: Seq<int>) -> bool {
    match cmd {
        Command::PlayShuffled { items, first } => first < items@.len() ==> order::is_permutation(
            order,
            (items@.len() - 1) as nat,
        ),
        _ => true,
    }
}

/// The chosen track in front, and the rest of its scope behind it, in the order that `order`
/// names.
pub open spec fn shuffled_scope(items: Seq<ItemView>, first: int, order: Seq<int>) -> Seq<
    ItemView,
> {
    seq![items[first]] + order::arranged(items.remove(first), order)
}

/// Following the sink moves the cursor and nothing else of what was set or heard.
pub proof fn law_following_the_sink_only_moves_the_cursor(step: Step, advances: nat)
    requires
        step.player.queue.wf(),
    ensures
        ({
            let after = step.catch_up(advances).player;
            &&& after.queue.wf()
            &&& after.queue.items == step.player.queue.items
            &&& after.queue.mode == step.player.queue.mode
            &&& after.state == step.player.state
            &&& after.repeat == step.player.repeat
            &&& after.random_batch == step.player.random_batch
            &&& after.prefetch == step.player.prefetch
            &&& after.resume_pending == step.player.resume_pending
            &&& after.pending == step.player.pending
        }),
    decreases advances,
{
    if advances > 0 && step.player.next() is Some {
        let once = step.with_nothing_ahead().with_queue(
            step.player.queue.advanced(step.player.wraps()),
        ).emit(EventView::TrackChanged(step.player.next()));
        law_following_the_sink_only_moves_the_cursor(once, (advances - 1) as nat);
    }
}

} // verus!
