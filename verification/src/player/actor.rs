//! The player itself.
//!
//! It does no work of its own on the network, the disk or the audio device. A command, a tick or
//! an answer goes in, and a list of what is to be done comes out; where that ends in a request,
//! nothing else goes in until it is answered.

use vstd::prelude::*;

use crate::config::Repeat;
use crate::jellyfin::models;
use crate::jellyfin::models::{copy_items, Item, ItemView};
use crate::order;
use crate::player::model;
use crate::player::model::{PlayerView, Step};
use crate::player::persist;
use crate::player::queue::{Mode, Queue, QueueView};
use crate::player::shuffle;
use crate::player::sink::Fault;
use crate::player::{
    Action, Command, Event, OpenError, Pending, PlaceError, Refill, Reply, Request,
    Snapshot, State, MAX_MISSING_SKIPS, PREQUEUE_LEAD_NANOS, REFILL_SLACK,
};
use crate::text;
use crate::text::{cat, chars_of, opt_is, part, str_eq, string_of};
use crate::time::Duration;

verus! {

/// The player: the queue, what is heard of it, and what is waited for.
#[derive(Debug)]
pub struct Player {
    queue: Queue,
    state: State,
    repeat: Repeat,
    random_batch: u32,
    prefetch: bool,
    queued_next: Option<String>,
    resume_pending: bool,
    warming: Option<String>,
    pending: Pending,
}

impl View for Player {
    type V = PlayerView;

    closed spec fn view(&self) -> PlayerView {
        PlayerView {
            queue: self.queue@,
            state: self.state,
            repeat: self.repeat,
            random_batch: self.random_batch,
            prefetch: self.prefetch,
            queued_next: text::text_opt(self.queued_next),
            resume_pending: self.resume_pending,
            warming: text::text_opt(self.warming),
            pending: self.pending@,
        }
    }
}

/// A player and the list of what it has asked for.
pub open spec fn step(player: Player, out: Vec<Action>) -> Step {
    Step { player: player@, out: crate::player::actions(out@) }
}

/// One thing more to do.
fn act(out: &mut Vec<Action>, action: Action)
    ensures
        crate::player::actions(final(out)@) == crate::player::actions(old(out)@).push(action@),
{
    let ghost before = crate::player::actions(out@);
    out.push(action);
    assert(crate::player::actions(out@) =~= before.push(action@));
}

/// One thing more to tell everyone who listens.
fn emit(out: &mut Vec<Action>, event: Event)
    ensures
        crate::player::actions(final(out)@) == crate::player::actions(old(out)@).push(
            crate::player::ActionView::Emit(event@),
        ),
{
    act(out, Action::Emit(event));
}

/// One failure more to report.
fn fail(out: &mut Vec<Action>, message: String)
    ensures
        crate::player::actions(final(out)@) == crate::player::actions(old(out)@).push(
            crate::player::ActionView::Emit(crate::player::EventView::Failed(message@)),
        ),
{
    emit(out, Event::Failed(message));
}

/// A message with what was being done in front of it.
fn in_context(context: &str, message: &str) -> (r: String)
    ensures
        r@ == model::in_context(context@, message@),
{
    cat(cat(context, ": ").as_str(), message)
}

/// What is reported of a track that could not be opened.
fn open_message(err: OpenError, item: &Item) -> (r: String)
    ensures
        r@ == model::open_message(err, item@),
{
    match err {
        OpenError::Address(message) => message,
        OpenError::Stream { message, .. } => in_context(
            cat("opening stream for ", item.name.as_str()).as_str(),
            message.as_str(),
        ),
    }
}

/// File extension for the cache entry.
///
/// This is the *source* container, which is not necessarily what lands on disk: a transcoded
/// track keeps the source extension. That keeps the cache key stable whether or not the server
/// transcoded.
pub fn extension(item: &Item) -> (r: String)
    ensures
        r@ == model::extension_of(item@),
{
    match &item.container {
        Some(container) => {
            let chars = chars_of(container.as_str());
            let mut i: usize = 0;
            while i < chars.len() && chars[i] != ','
                invariant
                    i <= chars.len(),
                    model::find_char(chars@, ',', 0) == model::find_char(chars@, ',', i as int),
                decreases chars.len() - i,
            {
                i += 1;
            }
            let head = part(chars.as_slice(), 0, i);
            assert(chars@.subrange(0, i as int) =~= chars@.take(i as int));
            string_of(head.as_slice())
        },
        None => "bin".to_owned(),
    }
}

/// The longest span of time there is a byte position for, in nanoseconds.
pub const MAX_TOTAL_NANOS: u128 = 0x4000_0000_0000_0000_0000_0000;

/// The byte that position `pos` of a track of length `total` is at, in a file of `len` bytes,
/// at a constant bitrate.
///
/// Kept just inside the end so a seek to the very end still yields a frame to resynchronise on
/// rather than instant end-of-stream.
pub fn byte_position(pos: Duration, total: Duration, len: u64) -> (r: u64)
    requires
        0 < total.nanos < MAX_TOTAL_NANOS,
    ensures
        r == model::byte_at(pos.nanos as nat, total.nanos as nat, len as nat),
{
    if pos.nanos >= total.nanos || pos.nanos * 100 >= total.nanos * 99 {
        return (len as u128 * 99 / 100) as u64;
    }
    let p = pos.nanos;
    let t = total.nanos;
    let hi = len as u128 / 0x1_0000_0000;
    let lo = len as u128 % 0x1_0000_0000;
    assert(hi * p < 0x1_0000_0000 * MAX_TOTAL_NANOS) by (nonlinear_arith)
        requires
            hi < 0x1_0000_0000,
            p < MAX_TOTAL_NANOS,
            MAX_TOTAL_NANOS == 0x4000_0000_0000_0000_0000_0000,
    ;
    assert(lo * p < 0x1_0000_0000 * MAX_TOTAL_NANOS) by (nonlinear_arith)
        requires
            lo < 0x1_0000_0000,
            p < MAX_TOTAL_NANOS,
            MAX_TOTAL_NANOS == 0x4000_0000_0000_0000_0000_0000,
    ;
    let q = hi * p / t;
    let rem = hi * p % t;
    let low = rem * 0x1_0000_0000 + lo * p;
    let ghost b = low / t;
    proof {
        assert(hi * p == q * t + rem) by (nonlinear_arith)
            requires
                t > 0,
                q == (hi * p) / (t as int),
                rem == (hi * p) % (t as int),
        ;
        assert(len * p == (q * 0x1_0000_0000) * t + low) by (nonlinear_arith)
            requires
                len == hi * 0x1_0000_0000 + lo,
                hi * p == q * t + rem,
                low == rem * 0x1_0000_0000 + lo * p,
        ;
        assert((len * p) / (t as int) == q * 0x1_0000_0000 + b) by (nonlinear_arith)
            requires
                t > 0,
                len * p == (q * 0x1_0000_0000) * t + low,
                b == low / t,
        ;
        assert((len * p) / (t as int) <= len) by (nonlinear_arith)
            requires
                t > 0,
                0 <= p < t,
                len >= 0,
        ;
    }
    (q * 0x1_0000_0000 + low / t) as u64
}

impl Player {
    /// The cursor is on a track; what is waited for is about a track that is there.
    pub open spec fn wf(&self) -> bool {
        &&& self@.wf()
        &&& self.knows_what_it_waits_for()
    }

    /// While an artist's albums are expanded, one of them is being asked for.
    pub closed spec fn knows_what_it_waits_for(&self) -> bool {
        match self.pending {
            Pending::ArtistTracks { tracks, albums, next } => next < albums@.len(),
            _ => true,
        }
    }

    /// Whether nothing is waited for, so that a command or a tick can be taken.
    pub open spec fn idle(&self) -> bool {
        self.wf() && self@.idle()
    }

    /// A player with an empty queue.
    pub fn new(random_batch: u32, prefetch: bool, repeat: Repeat) -> (r: Self)
        ensures
            r.idle(),
            r@ == PlayerView::fresh(random_batch, prefetch, repeat),
    {
        Player {
            queue: Queue::new(),
            state: State::Stopped,
            repeat,
            random_batch,
            prefetch,
            queued_next: None,
            resume_pending: false,
            warming: None,
            pending: Pending::Nothing,
        }
    }

    /// The queue as it stands.
    pub fn queue(&self) -> (r: &Queue)
        ensures
            r@ == self@.queue,
            self.wf() ==> r.wf(),
    {
        &self.queue
    }

    /// Whether anything is heard.
    pub fn state(&self) -> (r: State)
        ensures
            r == self@.state,
    {
        self.state
    }

    /// What happens when a track, or the whole queue, runs out.
    pub fn repeat(&self) -> (r: Repeat)
        ensures
            r == self@.repeat,
    {
        self.repeat
    }

    /// Whether an answer is waited for.
    pub fn is_waiting(&self) -> (r: bool)
        ensures
            r == !self@.idle(),
    {
        match self.pending {
            Pending::Nothing => false,
            _ => true,
        }
    }

    fn ask(&mut self, out: &mut Vec<Action>, request: Request, pending: Pending)
        requires
            old(self)@.queue.wf(),
        ensures
            step(*final(self), *final(out)) == step(*old(self), *old(out)).ask(
                request@,
                pending@,
            ),
            final(self).pending == pending,
    {
        self.pending = pending;
        act(out, Action::Ask(request));
    }

    fn set_state(&mut self, out: &mut Vec<Action>, state: State)
        requires
            old(self).wf(),
        ensures
            final(self).wf(),
            final(self).pending == old(self).pending,
            step(*final(self), *final(out)) == step(*old(self), *old(out)).set_state(state),
    {
        if self.state != state {
            self.state = state;
            emit(out, Event::StateChanged(state));
        }
    }

    /// Records the queue for the next launch.
    fn persist(&self, out: &mut Vec<Action>)
        requires
            self.wf(),
        ensures
            step(*self, *final(out)) == step(*self, *old(out)).persist(),
    {
        act(out, Action::Persist(persist::save(&self.queue)));
    }

    fn halt(&mut self, out: &mut Vec<Action>)
        requires
            old(self).wf(),
        ensures
            final(self).wf(),
            final(self).pending == old(self).pending,
            step(*final(self), *final(out)) == step(*old(self), *old(out)).halt(),
    {
        act(out, Action::SinkStop);
        self.set_state(out, State::Stopped);
    }

    /// Applies a repeat setting and remembers it for the next session.
    ///
    /// Turning repeat-one on with the next track already committed to the sink cannot be
    /// undone, so that one transition still happens; from the track after it, repeat-one holds.
    /// Clearing the marker means that what to queue is reconsidered as soon as the setting
    /// allows it.
    fn set_repeat(&mut self, out: &mut Vec<Action>, repeat: Repeat)
        requires
            old(self).idle(),
        ensures
            final(self).idle(),
            step(*final(self), *final(out)) == step(*old(self), *old(out)).set_repeat(repeat),
    {
        reveal(Step::set_repeat);
        if self.repeat == repeat {
            return;
        }
        self.repeat = repeat;
        self.queued_next = None;
        act(out, Action::SaveRepeat(repeat));
        emit(out, Event::RepeatChanged(repeat));
    }

    /// Adds tracks to the queue without disturbing what is playing.
    ///
    /// Neither way changes the mode, so a random queue carries on refilling behind the
    /// additions: enqueueing an album should not silently end random play.
    fn enqueue(&mut self, out: &mut Vec<Action>, items: Vec<Item>, next: bool)
        requires
            old(self).idle(),
        ensures
            final(self).idle(),
            step(*final(self), *final(out)) == step(*old(self), *old(out)).enqueue(
                models::item_views(items@),
                next,
            ),
    {
        reveal(Step::enqueue);
        if items.len() == 0 {
            return;
        }
        if self.queue.is_empty() {
            self.queue.replace(items, 0, Mode::Explicit);
            self.resume_pending = true;
            let current = self.current();
            emit(out, Event::TrackChanged(current));
        } else if next {
            let len = self.queue.len();
            assert(self.queue@.cursor < len);
            // A track that has been committed to the sink is going to be heard next no matter
            // what the queue says, so the insert goes after it.
            let after = match self.queued_next {
                Some(_) => self.queue.cursor() + 1,
                None => self.queue.cursor(),
            };
            self.queue.insert_after(after, items);
        } else {
            self.queue.append(items);
        }
        self.persist(out);
        emit(out, Event::QueueChanged);
    }

    /// A copy of the track at the cursor.
    fn current(&self) -> (r: Option<Item>)
        ensures
            models::item_opt(r) == self@.queue.current(),
    {
        match self.queue.current() {
            Some(item) => Some(item.clone()),
            None => None,
        }
    }

    /// A copy of the track that plays next.
    fn next(&self) -> (r: Option<Item>)
        requires
            self@.queue.wf(),
        ensures
            models::item_opt(r) == self@.next(),
    {
        match self.queue.peek_next(self.repeat == Repeat::All) {
            Some(item) => Some(item.clone()),
            None => None,
        }
    }

    fn remove(&mut self, out: &mut Vec<Action>, index: usize, id: String)
        requires
            old(self).idle(),
        ensures
            final(self).idle(),
            step(*final(self), *final(out)) == step(*old(self), *old(out)).remove(
                index as int,
                id@,
            ),
    {
        reveal(Step::remove);
        let known = {
            let items = self.queue.items();
            index < items.len() && str_eq(items[index].id.as_str(), id.as_str())
        };
        if !known {
            return;
        }
        if index == self.queue.cursor() {
            fail(out, "that track is playing right now".to_owned());
            return;
        }
        if opt_is(&self.queued_next, id.as_str()) {
            fail(out, "that track is already cued up next".to_owned());
            return;
        }
        if self.queue.remove(index) {
            self.persist(out);
            emit(out, Event::QueueChanged);
        }
    }

    /// Starts a fresh random queue.
    fn play_random(&mut self, out: &mut Vec<Action>)
        requires
            old(self).idle(),
        ensures
            final(self).wf(),
            step(*final(self), *final(out)) == step(*old(self), *old(out)).play_random(),
    {
        reveal(Step::play_random);
        // No track to name yet, but the query itself can be the slow part.
        emit(out, Event::Loading(None));
        let batch = self.random_batch;
        self.ask(out, Request::RandomTracks(batch), Pending::Random);
    }

    /// Announces and opens whatever the cursor points at, with so many tracks left to try.
    ///
    /// The bound is what makes skipping safe: repeat-all on a queue whose tracks have all gone
    /// would otherwise walk in a circle forever.
    fn start_current(&mut self, out: &mut Vec<Action>, tries: usize)
        requires
            old(self).idle(),
            tries <= MAX_MISSING_SKIPS,
        ensures
            final(self).wf(),
            step(*final(self), *final(out)) == step(*old(self), *old(out)).start_current(
                tries as nat,
            ),
    {
        reveal(Step::start_current);
        if tries == 0 {
            self.halt(out);
            fail(out, "too many tracks in a row are missing on the server".to_owned());
            return;
        }
        match self.current() {
            None => self.set_state(out, State::Stopped),
            Some(item) => {
                let id = item.id.clone();
                let ext = extension(&item);
                emit(out, Event::Loading(Some(item)));
                self.ask(out, Request::OpenForPlayback { id, ext }, Pending::Open(tries - 1));
            },
        }
    }

    fn start_queue(&mut self, out: &mut Vec<Action>, items: Vec<Item>, start: usize, mode: Mode)
        requires
            old(self).idle(),
        ensures
            final(self).wf(),
            step(*final(self), *final(out)) == step(*old(self), *old(out)).start_queue(
                models::item_views(items@),
                start as int,
                mode,
            ),
    {
        reveal(Step::start_queue);
        self.queue.replace(items, start, mode);
        self.start_current(out, MAX_MISSING_SKIPS);
    }

    /// What Play means from a stopped player: pick up the restored session if there is one,
    /// otherwise start a fresh random queue.
    fn resume_or_random(&mut self, out: &mut Vec<Action>)
        requires
            old(self).idle(),
        ensures
            final(self).wf(),
            step(*final(self), *final(out)) == step(*old(self), *old(out)).resume_or_random(),
    {
        reveal(Step::resume_or_random);
        if self.resume_pending && !self.queue.is_empty() {
            self.start_current(out, MAX_MISSING_SKIPS);
        } else {
            self.play_random(out);
        }
    }

    /// Whether a random queue is about to run dry.
    fn needs_refill(&self) -> (r: bool)
        requires
            self@.queue.wf(),
        ensures
            r == self@.needs_refill(),
    {
        self.queue.mode() == Mode::Random && self.queue.running_low(REFILL_SLACK)
    }

    /// Moves to the next track, refilling a random queue if it is running out.
    fn advance(&mut self, out: &mut Vec<Action>)
        requires
            old(self).idle(),
        ensures
            final(self).wf(),
            step(*final(self), *final(out)) == step(*old(self), *old(out)).advance(),
    {
        reveal(Step::advance);
        // Announced before the refill: that goes over the network and can take a while.
        let next = self.next();
        emit(out, Event::Loading(next));
        if self.needs_refill() {
            let batch = self.random_batch;
            self.ask(out, Request::RandomTracks(batch), Pending::Refill(Refill::Advance));
        } else {
            self.advance_now(out);
        }
    }

    fn advance_now(&mut self, out: &mut Vec<Action>)
        requires
            old(self).idle(),
        ensures
            final(self).wf(),
            step(*final(self), *final(out)) == step(*old(self), *old(out)).advance_now(),
    {
        reveal(Step::advance_now);
        let wrap = self.repeat == Repeat::All;
        let moved = self.queue.advance(wrap).is_some();
        if moved {
            self.start_current(out, MAX_MISSING_SKIPS);
        } else {
            self.halt(out);
            emit(out, Event::TrackChanged(None));
        }
    }

    /// Pauses what is heard.
    fn pause(&mut self, out: &mut Vec<Action>)
        requires
            old(self).idle(),
        ensures
            final(self).idle(),
            step(*final(self), *final(out)) == step(*old(self), *old(out)).pause(),
    {
        reveal(Step::pause);
        act(out, Action::SinkPause);
        self.set_state(out, State::Paused);
    }

    fn resume(&mut self, out: &mut Vec<Action>)
        requires
            old(self).idle(),
        ensures
            final(self).idle(),
            step(*final(self), *final(out)) == step(*old(self), *old(out)).resume(),
    {
        reveal(Step::resume);
        act(out, Action::SinkResume);
        self.set_state(out, State::Playing);
    }

    /// A track that cannot be fetched stops the player on it, and Play tries it again, rather
    /// than marching the cursor through the rest of the queue.
    fn stall(&mut self, out: &mut Vec<Action>, message: String)
        requires
            old(self).idle(),
        ensures
            final(self).idle(),
            step(*final(self), *final(out)) == step(*old(self), *old(out)).stall(message@),
    {
        reveal(Step::stall);
        self.resume_pending = true;
        self.halt(out);
        fail(out, message);
    }

    /// Drops every copy of a track the server has no file for and steps to whatever follows it.
    /// Stops where nothing does.
    fn drop_missing(&mut self, out: &mut Vec<Action>, item: &Item, tries: usize)
        requires
            old(self).idle(),
            tries <= MAX_MISSING_SKIPS,
            old(self)@.queue.current() == Some(item@),
        ensures
            final(self).wf(),
            step(*final(self), *final(out)) == step(*old(self), *old(out)).drop_missing(
                item@,
                tries as nat,
            ),
    {
        reveal(Step::drop_missing);
        fail(out, cat(item.name.as_str(), " is no longer on the server, skipping it"));
        let mut stepped = drop_everywhere(&mut self.queue, item.id.as_str());
        // It was the final track, but repeat-all means the queue does not end.
        if !stepped && self.repeat == Repeat::All && !self.queue.is_empty() {
            stepped = self.queue.advance(true).is_some();
        }
        self.persist(out);
        emit(out, Event::QueueChanged);
        if stepped {
            self.start_current(out, tries);
        } else {
            self.halt(out);
            emit(out, Event::TrackChanged(None));
        }
    }

    /// Hands the following track to the sink so it can cross into it without a decode gap.
    ///
    /// Repeat-one has no next track to hand over. Otherwise a random queue is refilled first:
    /// its last track would never get a gapless successor.
    fn queue_next(&mut self, out: &mut Vec<Action>)
        requires
            old(self).idle(),
        ensures
            final(self).wf(),
            step(*final(self), *final(out)) == step(*old(self), *old(out)).queue_next(),
    {
        reveal(Step::queue_next);
        if self.repeat == Repeat::One {
            return;
        }
        if self.needs_refill() {
            let batch = self.random_batch;
            self.ask(out, Request::RandomTracks(batch), Pending::Refill(Refill::QueueNext));
        } else {
            self.probe_next(out);
        }
    }

    fn probe_next(&mut self, out: &mut Vec<Action>)
        requires
            old(self).idle(),
        ensures
            final(self).wf(),
            step(*final(self), *final(out)) == step(*old(self), *old(out)).probe_next(),
    {
        reveal(Step::probe_next);
        if let Some(next) = self.next() {
            if !opt_is(&self.queued_next, next.id.as_str()) {
                let ext = extension(&next);
                self.ask(out, Request::ProbeCache { id: next.id, ext }, Pending::Probe);
            }
        }
    }

    /// Whether the current track is within the lead of its end.
    ///
    /// A track whose duration the server did not give cannot be measured, so it commits as soon
    /// as the file is there.
    fn near_end(&self, position: Duration) -> (r: bool)
        ensures
            r == self@.near_end(position),
    {
        match self.queue.current() {
            Some(item) => match item.duration() {
                Some(total) => total.saturating_sub(position).nanos <= PREQUEUE_LEAD_NANOS,
                None => true,
            },
            None => true,
        }
    }

    /// Two steps, on separate ticks: a track that is not on disk is fetched, once, and one that
    /// is is opened when the current track is nearly done.
    fn probed(&mut self, out: &mut Vec<Action>, cached: bool, reachable: bool, position: Duration)
        requires
            old(self).idle(),
        ensures
            final(self).wf(),
            step(*final(self), *final(out)) == step(*old(self), *old(out)).probed(
                cached,
                reachable,
                position,
            ),
    {
        reveal(Step::probed);
        if let Some(next) = self.next() {
            let ext = extension(&next);
            if !cached {
                self.warm(out, &next, ext, reachable);
            } else if self.near_end(position) {
                self.ask(out, Request::OpenComplete { id: next.id, ext }, Pending::OpenNext);
            }
        }
    }

    /// Starts the download for a track without reading from it. Repeated calls for the same
    /// track are ignored.
    fn warm(&mut self, out: &mut Vec<Action>, item: &Item, ext: String, reachable: bool)
        requires
            old(self).idle(),
        ensures
            final(self).idle(),
            step(*final(self), *final(out)) == {
                let before = step(*old(self), *old(out));
                if before.player.warming == Some(item@.id) || !reachable {
                    before
                } else {
                    Step {
                        player: PlayerView { warming: Some(item@.id), ..before.player },
                        ..before
                    }.act(crate::player::ActionView::Warm { id: item@.id, ext: ext@ })
                }
            },
    {
        if opt_is(&self.warming, item.id.as_str()) || !reachable {
            return;
        }
        self.warming = Some(item.id.clone());
        act(out, Action::Warm { id: item.id.clone(), ext });
    }

    /// Seeks the current track.
    ///
    /// Always needs a complete file: the demuxer path seeks, and the byte-offset path needs a
    /// known length.
    fn seek(&mut self, out: &mut Vec<Action>, pos: Duration)
        requires
            old(self).idle(),
        ensures
            final(self).wf(),
            step(*final(self), *final(out)) == step(*old(self), *old(out)).seek(pos),
    {
        reveal(Step::seek);
        if let Some(item) = self.current() {
            let ext = extension(&item);
            self.ask(out, Request::OpenComplete { id: item.id, ext }, Pending::SeekOpen(pos));
        }
    }

    /// Two strategies. If the demuxer knows the frame count it can position itself accurately.
    /// If it does not, the byte offset is estimated from the duration and the file size, which
    /// is exact for constant bitrate.
    fn seek_opened(
        &mut self,
        out: &mut Vec<Action>,
        pos: Duration,
        len: Option<u64>,
        seekable: bool,
    )
        requires
            old(self).idle(),
        ensures
            final(self).wf(),
            step(*final(self), *final(out)) == step(*old(self), *old(out)).seek_opened(
                pos,
                len,
                seekable,
            ),
    {
        reveal(Step::seek_opened);
        if seekable {
            self.ask(out, Request::SeekReader(pos), Pending::Seek(pos));
            return;
        }
        let total = match self.queue.current() {
            Some(item) => item.duration(),
            None => None,
        };
        if let (Some(total), Some(len)) = (total, len) {
            if !total.is_zero() {
                let byte = byte_position(pos, total, len);
                self.ask(out, Request::PlayReaderAt { byte, pos }, Pending::SeekAt(pos));
                return;
            }
        }
        fail(out, "this track cannot be seeked".to_owned());
    }

    /// The sink crosses into a pre-queued track by itself, so the queue cursor is caught up
    /// here rather than by starting playback again. Returns whether it moved.
    fn catch_up(&mut self, out: &mut Vec<Action>, advances: usize) -> (r: bool)
        requires
            old(self).idle(),
        ensures
            final(self).idle(),
            r == (advances > 0 && old(self)@.next() is Some),
            step(*final(self), *final(out)) == step(*old(self), *old(out)).catch_up(
                advances as nat,
            ),
    {
        let mut left = advances;
        let mut advanced = false;
        while left > 0
            invariant
                left <= advances,
                self.idle(),
                advanced == (left < advances),
                advanced ==> old(self)@.next() is Some,
                !advanced ==> *self == *old(self),
                step(*self, *out).catch_up(left as nat) == step(*old(self), *old(out)).catch_up(
                    advances as nat,
                ),
            decreases left,
        {
            self.queued_next = None;
            self.warming = None;
            let wrap = self.repeat == Repeat::All;
            let moved = match self.queue.advance(wrap) {
                Some(item) => Some(item.clone()),
                None => None,
            };
            match moved {
                Some(item) => {
                    advanced = true;
                    emit(out, Event::TrackChanged(Some(item)));
                },
                // The sink moved on but the queue did not: nothing sensible to report.
                None => return advanced,
            }
            left -= 1;
        }
        advanced
    }

    fn polled(&mut self, out: &mut Vec<Action>, advances: usize, finished: bool, position: Duration)
        requires
            old(self).idle(),
        ensures
            final(self).wf(),
            step(*final(self), *final(out)) == step(*old(self), *old(out)).polled(
                advances as nat,
                finished,
                position,
            ),
    {
        reveal(Step::polled);
        proof {
            model::law_following_the_sink_only_moves_the_cursor(
                step(*self, *out),
                advances as nat,
            );
        }
        if self.catch_up(out, advances) {
            self.persist(out);
        }
        if finished {
            if self.repeat == Repeat::One {
                self.start_current(out, MAX_MISSING_SKIPS);
            } else {
                self.advance(out);
            }
            return;
        }
        emit(out, Event::Position(position));
        if self.prefetch {
            self.queue_next(out);
        }
    }

    /// Every quarter of a second, `fault` being what the sink reports.
    ///
    /// Failures are reported even while paused or stopped. Only one of the track being played
    /// skips it; a queued track that failed to load is retried when it comes up normally.
    pub fn tick(&mut self, fault: Option<Fault>) -> (r: Vec<Action>)
        requires
            old(self).idle(),
        ensures
            final(self).wf(),
            step(*final(self), r) == Step::start(old(self)@).tick(fault),
    {
        let mut out: Vec<Action> = Vec::new();
        assert(crate::player::actions(out@) =~= Seq::empty());
        if let Some(fault) = fault {
            let affects_current = fault.affects_current;
            fail(&mut out, fault.message);
            if affects_current {
                if self.state == State::Playing {
                    self.advance(&mut out);
                }
                return out;
            }
        }
        if self.state == State::Playing {
            self.ask(&mut out, Request::PollSink, Pending::Poll);
        }
        out
    }

    /// A command.
    #[verifier::rlimit(30)]
    pub fn handle(&mut self, cmd: Command) -> (r: Vec<Action>)
        requires
            old(self).idle(),
        ensures
            final(self).wf(),
            exists|order: Seq<int>| #[trigger]
                model::may_shuffle(cmd, order) && step(*final(self), r) == Step::start(
                    old(self)@,
                ).handle(cmd, order),
    {
        let mut out: Vec<Action> = Vec::new();
        let ghost start = Step::start(self@);
        let ghost mut order: Seq<int> = Seq::empty();
        assert(crate::player::actions(out@) =~= Seq::empty());
        match cmd {
            Command::PlayRandom => self.play_random(&mut out),
            Command::PlayAlbum(id) => {
                self.ask(&mut out, Request::AlbumTracks(id), Pending::Album);
            },
            Command::PlayArtist(id) => {
                // Albums in release order, each expanded to its tracks, so the artist plays
                // through as a discography rather than shuffled.
                self.ask(&mut out, Request::ArtistAlbums(id), Pending::ArtistAlbums);
            },
            Command::PlayItems { items, start } => {
                if items.len() > 0 {
                    self.start_queue(&mut out, items, start, Mode::Explicit);
                }
            },
            Command::PlayShuffled { items, first } => {
                if first < items.len() {
                    let ghost all = models::item_views(items@);
                    // Chosen track out first, the remainder shuffled behind it, so the queue
                    // starts at its first track and reads in play order.
                    let mut items = items;
                    let chosen = items.remove(first);
                    let ghost rest = models::item_views(items@);
                    let mut shuffled = shuffle::shuffle(&items);
                    proof {
                        assert(rest =~= all.remove(first as int));
                        order = choose|order: Seq<int>|
                            #[trigger] order::is_permutation(order, items@.len())
                                && models::item_views(shuffled@) == order::arranged(rest, order);
                    }
                    let ghost behind = models::item_views(shuffled@);
                    shuffled.insert(0, chosen);
                    assert(models::item_views(shuffled@) =~= seq![all[first as int]] + behind);
                    self.start_queue(&mut out, shuffled, 0, Mode::Explicit);
                }
            },
            Command::QueueLast { items } => self.enqueue(&mut out, items, false),
            Command::QueueNext { items } => self.enqueue(&mut out, items, true),
            Command::SetCacheLimit(bytes) => act(&mut out, Action::LimitCache(bytes)),
            Command::CycleRepeat => {
                let repeat = self.repeat.next();
                self.set_repeat(&mut out, repeat);
            },
            Command::SetRepeat(repeat) => self.set_repeat(&mut out, repeat),
            Command::Remove { index, id } => self.remove(&mut out, index, id),
            Command::PlayPause => match self.state {
                State::Playing => self.pause(&mut out),
                State::Paused => self.resume(&mut out),
                // Nothing loaded yet, so treat it as "start something".
                State::Stopped => self.resume_or_random(&mut out),
            },
            Command::Play => match self.state {
                State::Playing => {},
                State::Paused => self.resume(&mut out),
                State::Stopped => self.resume_or_random(&mut out),
            },
            Command::Pause => {
                if self.state == State::Playing {
                    self.pause(&mut out);
                }
            },
            Command::Next => self.advance(&mut out),
            Command::Previous => {
                let any = self.queue.back().is_some();
                if any {
                    self.start_current(&mut out, MAX_MISSING_SKIPS);
                }
            },
            Command::Stop => {
                self.halt(&mut out);
                emit(&mut out, Event::Position(Duration::zero()));
            },
            Command::Seek(pos) => self.seek(&mut out, pos),
            Command::Restore => {
                // Whatever the user has already asked for outranks the old session.
                if self.queue.is_empty() {
                    self.ask(&mut out, Request::LoadQueue, Pending::Restore);
                }
            },
            Command::InstantMix { limit } => {
                if let Some(item) = self.current() {
                    self.ask(&mut out, Request::InstantMix { id: item.id, limit }, Pending::Mix);
                }
            },
            Command::Snapshot => {
                let snapshot = Snapshot {
                    items: models::copy_items(self.queue.items()),
                    cursor: self.queue.cursor(),
                    repeat: self.repeat,
                };
                act(&mut out, Action::Answer(snapshot));
            },
            Command::Shutdown => {
                act(&mut out, Action::SinkStop);
                act(&mut out, Action::Quit);
            },
        }
        assert(model::may_shuffle(cmd, order));
        assert(step(*self, out) == start.handle(cmd, order));
        out
    }

    /// The albums of an artist, one after the other, until all their tracks are there.
    fn collect(
        &mut self,
        out: &mut Vec<Action>,
        tracks: Vec<Item>,
        albums: Vec<Item>,
        next: usize,
    )
        requires
            old(self).idle(),
            next <= albums@.len(),
        ensures
            final(self).wf(),
            step(*final(self), *final(out)) == step(*old(self), *old(out)).collect(
                models::item_views(tracks@),
                models::item_views(albums@).skip(next as int),
            ),
    {
        reveal(Step::collect);
        if next < albums.len() {
            let id = albums[next].id.clone();
            self.ask(
                out,
                Request::AlbumTracks(id),
                Pending::ArtistTracks { tracks, albums, next },
            );
        } else {
            self.start_queue(out, tracks, 0, Mode::Explicit);
        }
    }

    /// Tracks that came for a random queue. A refill failure should not stop what is already
    /// queued.
    fn refilled(&mut self, out: &mut Vec<Action>, result: Result<Vec<Item>, String>)
        requires
            old(self).idle(),
        ensures
            final(self).idle(),
            step(*final(self), *final(out)) == step(*old(self), *old(out)).refilled(
                match result {
                    Ok(more) => Some(models::item_views(more@)),
                    Err(_) => None,
                },
            ),
    {
        reveal(Step::refilled);
        if let Ok(more) = result {
            self.queue.append(more);
            self.persist(out);
        }
    }

    /// Tracks like the current one, put behind it in place of what was to come. The track they
    /// were asked for keeps playing, and what is behind it stays as history.
    fn mixed(&mut self, out: &mut Vec<Action>, tracks: Vec<Item>)
        requires
            old(self).idle(),
        ensures
            final(self).idle(),
            step(*final(self), *final(out)) == step(*old(self), *old(out)).mixed(
                models::item_views(tracks@),
            ),
    {
        reveal(Step::mixed);
        if let Some(seed) = self.current() {
            let mut mix = others_of(&tracks, seed.id.as_str());
            if mix.len() == 0 {
                fail(out, "server returned no tracks".to_owned());
                return;
            }
            let cursor = self.queue.cursor();
            let len = self.queue.len();
            let kept = if self.queued_next.is_some() && len - cursor > 1 {
                cursor + 2
            } else {
                cursor + 1
            };
            let ghost head = self.queue@.items.take(kept as int);
            let ghost tail = models::item_views(mix@);
            let mut items = copy_items(self.queue.items());
            items.truncate(kept);
            assert(models::item_views(items@) =~= head);
            items.append(&mut mix);
            assert(models::item_views(items@) =~= head + tail);
            self.queue.replace(items, cursor, Mode::Explicit);
            self.persist(out);
            emit(out, Event::QueueChanged);
        }
    }

    /// The previous session's queue, shown without touching the audio device.
    fn restored(&mut self, out: &mut Vec<Action>, stored: Option<persist::Saved>)
        requires
            old(self).idle(),
        ensures
            final(self).idle(),
            step(*final(self), *final(out)) == step(*old(self), *old(out)).restored(stored),
    {
        reveal(Step::restored);
        if let Some((items, cursor, mode)) = persist::load(stored) {
            self.queue.replace(items, cursor, mode);
            self.resume_pending = true;
            let current = self.current();
            emit(out, Event::TrackChanged(current));
        }
    }

    /// The sink took the current track, discarding anything queued behind it before.
    fn started(&mut self, out: &mut Vec<Action>)
        requires
            old(self).idle(),
        ensures
            final(self).idle(),
            step(*final(self), *final(out)) == step(*old(self), *old(out)).started(),
    {
        reveal(Step::started);
        self.queued_next = None;
        self.warming = None;
        // Whatever was restored has now been played from.
        self.resume_pending = false;
        let current = self.current();
        emit(out, Event::TrackChanged(current));
        self.set_state(out, State::Playing);
        self.persist(out);
    }

    /// The answer to what was asked for last.
    #[verifier::rlimit(30)]
    pub fn resume_with(&mut self, reply: Reply) -> (r: Vec<Action>)
        requires
            old(self).wf(),
        ensures
            final(self).wf(),
            step(*final(self), r) == Step::start(old(self)@).resume_with(reply),
    {
        let mut out: Vec<Action> = Vec::new();
        assert(crate::player::actions(out@) =~= Seq::empty());
        let mut pending = Pending::Nothing;
        core::mem::swap(&mut pending, &mut self.pending);
        match (pending, reply) {
            (Pending::Random, Reply::Tracks(Ok(tracks))) => {
                if tracks.len() == 0 {
                    fail(&mut out, "server returned no tracks".to_owned());
                } else {
                    self.start_queue(&mut out, tracks, 0, Mode::Random);
                }
            },
            (Pending::Random, Reply::Tracks(Err(message))) => {
                fail(&mut out, in_context("fetching random tracks", message.as_str()));
            },
            (Pending::Album, Reply::Tracks(Ok(tracks))) => {
                self.start_queue(&mut out, tracks, 0, Mode::Explicit);
            },
            (Pending::Album, Reply::Tracks(Err(message))) => {
                fail(&mut out, in_context("fetching album tracks", message.as_str()));
            },
            (Pending::ArtistAlbums, Reply::Tracks(Ok(albums))) => {
                let tracks: Vec<Item> = Vec::new();
                assert(models::item_views(tracks@) =~= Seq::empty());
                assert(models::item_views(albums@).skip(0) =~= models::item_views(albums@));
                self.collect(&mut out, tracks, albums, 0);
            },
            (Pending::ArtistAlbums, Reply::Tracks(Err(message))) => {
                fail(&mut out, in_context("fetching artist albums", message.as_str()));
            },
            (Pending::ArtistTracks { tracks, albums, next }, Reply::Tracks(Ok(more))) => {
                let ghost before = models::item_views(tracks@);
                let ghost new = models::item_views(more@);
                let mut tracks = tracks;
                let mut more = more;
                tracks.append(&mut more);
                assert(models::item_views(tracks@) =~= before + new);
                let count = albums.len();
                assert(models::item_views(albums@).skip(next + 1) =~= models::item_views(
                    albums@,
                ).skip(next as int).skip(1));
                self.collect(&mut out, tracks, albums, next + 1);
            },
            (Pending::ArtistTracks { .. }, Reply::Tracks(Err(message))) => {
                fail(&mut out, message);
            },
            (Pending::Mix, Reply::Tracks(Ok(tracks))) => self.mixed(&mut out, tracks),
            (Pending::Mix, Reply::Tracks(Err(message))) => {
                fail(&mut out, in_context("fetching an instant mix", message.as_str()));
            },
            (Pending::Restore, Reply::Stored(stored)) => self.restored(&mut out, stored),
            (Pending::Refill(purpose), Reply::Tracks(result)) => {
                self.refilled(&mut out, result);
                match purpose {
                    Refill::Advance => self.advance_now(&mut out),
                    Refill::QueueNext => self.probe_next(&mut out),
                }
            },
            (Pending::Open(_), Reply::Opened(Ok(()))) => {
                self.ask(&mut out, Request::PlayReader, Pending::Play);
            },
            (Pending::Open(left), Reply::Opened(Err(err))) => {
                if let Some(item) = self.current() {
                    // A track the server cannot serve *at all* is dropped from the queue and
                    // skipped. Anything else may well work next time.
                    let gone = match &err {
                        OpenError::Stream { gone, .. } => *gone,
                        OpenError::Address(_) => false,
                    };
                    if gone {
                        self.drop_missing(&mut out, &item, left);
                    } else {
                        self.stall(&mut out, open_message(err, &item));
                    }
                }
            },
            (Pending::Play, Reply::Taken(Ok(()))) => self.started(&mut out),
            (Pending::Play, Reply::Taken(Err(message))) => {
                fail(&mut out, in_context("starting playback", message.as_str()));
            },
            (Pending::SeekOpen(pos), Reply::Complete(Ok((len, seekable)))) => {
                self.seek_opened(&mut out, pos, len, seekable);
            },
            (Pending::SeekOpen(_), Reply::Complete(Err(err))) => {
                if let Some(item) = self.current() {
                    fail(&mut out, open_message(err, &item));
                }
            },
            (Pending::Seek(pos), Reply::Taken(Ok(()))) => emit(&mut out, Event::Seeked(pos)),
            (Pending::Seek(_), Reply::Taken(Err(message))) => {
                fail(&mut out, in_context("seeking", message.as_str()));
            },
            (Pending::SeekAt(pos), Reply::Placed(Ok(()))) => emit(&mut out, Event::Seeked(pos)),
            (Pending::SeekAt(_), Reply::Placed(Err(err))) => match err {
                PlaceError::Positioning(message) => fail(
                    &mut out,
                    in_context("positioning reader", message.as_str()),
                ),
                PlaceError::Sink(message) => fail(
                    &mut out,
                    in_context("seeking", message.as_str()),
                ),
            },
            (Pending::Poll, Reply::Polled { advances, finished, position }) => {
                self.polled(&mut out, advances, finished, position);
            },
            (Pending::Probe, Reply::Probed { cached, reachable, position }) => {
                self.probed(&mut out, cached, reachable, position);
            },
            (Pending::OpenNext, Reply::Complete(Ok(_))) => {
                self.ask(&mut out, Request::QueueReader, Pending::SetNext);
            },
            // Not fatal: the track is retried the normal way when it comes up.
            (Pending::OpenNext, Reply::Complete(Err(_))) => {},
            (Pending::SetNext, Reply::Taken(Ok(()))) => {
                if let Some(next) = self.next() {
                    self.queued_next = Some(next.id);
                }
            },
            (Pending::SetNext, Reply::Taken(Err(_))) => {},
            (pending, _) => {
                self.pending = pending;
            },
        }
        out
    }
}

/// The tracks of a list with another id.
fn others_of(items: &Vec<Item>, id: &str) -> (r: Vec<Item>)
    ensures
        models::item_views(r@) == model::others(models::item_views(items@), id@),
{
    let ghost all = models::item_views(items@);
    let mut r: Vec<Item> = Vec::new();
    let mut i: usize = 0;
    proof {
        reveal(Seq::filter);
        assert(models::item_views(r@) =~= model::others(all.take(0), id@));
    }
    while i < items.len()
        invariant
            i <= items@.len(),
            all == models::item_views(items@),
            models::item_views(r@) == model::others(all.take(i as int), id@),
        decreases items.len() - i,
    {
        let ghost before = models::item_views(r@);
        let keep = !str_eq(items[i].id.as_str(), id);
        if keep {
            r.push(items[i].clone());
            assert(models::item_views(r@) =~= before.push(all[i as int]));
        }
        i += 1;
        proof {
            reveal(Seq::filter);
            assert(all.take(i as int).drop_last() =~= all.take(i - 1));
        }
    }
    assert(all.take(i as int) =~= all);
    r
}

/// The queue when every track of id `id` at or behind position `i` has been dropped from it, but
/// for the one at the cursor.
spec fn others_from(queue: QueueView, id: Seq<char>, i: int) -> QueueView {
    let cursor = queue.cursor;
    if i > cursor {
        QueueView {
            items: queue.items.take(i) + model::others(queue.items.skip(i), id),
            ..queue
        }
    } else {
        let middle = model::others(queue.items.subrange(i, cursor), id);
        QueueView {
            items: queue.items.take(i) + middle + seq![queue.items[cursor]] + model::others(
                queue.items.skip(cursor + 1),
                id,
            ),
            cursor: i + middle.len(),
            ..queue
        }
    }
}

/// The tracks of other ids, one track further to the front.
proof fn lemma_others_front(items: Seq<ItemView>, id: Seq<char>)
    requires
        items.len() > 0,
    ensures
        model::others(items, id) == (if items[0].id != id {
            seq![items[0]]
        } else {
            Seq::empty()
        }) + model::others(items.skip(1), id),
{
    let keep = |item: ItemView| item.id != id;
    let one = seq![items[0]];
    assert(items =~= one + items.skip(1));
    Seq::filter_distributes_over_add(one, items.skip(1), keep);
    reveal(Seq::filter);
    assert(one.drop_last() =~= Seq::<ItemView>::empty());
    assert(one.drop_last().filter(keep) =~= Seq::<ItemView>::empty());
    assert(one.filter(keep) =~= (if items[0].id != id {
        seq![items[0]]
    } else {
        Seq::empty()
    }));
}

/// One position further to the front, the queue stays as it is or loses the track there.
proof fn lemma_others_from(queue: QueueView, id: Seq<char>, i: int)
    requires
        0 <= queue.cursor < queue.items.len(),
        0 <= i < queue.items.len(),
    ensures
        ({
            let later = others_from(queue, id, i + 1);
            &&& i < later.items.len()
            &&& later.items[i] == queue.items[i]
            &&& i != queue.cursor ==> later.cursor != i
            &&& others_from(queue, id, i) == (if i != queue.cursor && queue.items[i].id == id {
                later.without(i)
            } else {
                later
            })
        }),
{
    let later = others_from(queue, id, i + 1);
    let now = others_from(queue, id, i);
    let cursor = queue.cursor;
    let tail = queue.items.skip(i);
    assert(tail.skip(1) =~= queue.items.skip(i + 1));
    if i > cursor {
        lemma_others_front(tail, id);
        if queue.items[i].id == id {
            assert(now.items =~= later.items.remove(i));
        } else {
            assert(now.items =~= later.items);
        }
    } else if i == cursor {
        let middle = queue.items.subrange(i, cursor);
        assert(middle =~= Seq::empty());
        reveal(Seq::filter);
        assert(now.items =~= later.items);
    } else {
        let middle = queue.items.subrange(i, cursor);
        assert(middle.skip(1) =~= queue.items.subrange(i + 1, cursor));
        lemma_others_front(middle, id);
        if queue.items[i].id == id {
            assert(now.items =~= later.items.remove(i));
        } else {
            assert(now.items =~= later.items);
        }
    }
}

/// Drops every track of id `id`, the one at the cursor among them. Returns whether the cursor
/// now points at a track that followed it.
fn drop_everywhere(queue: &mut Queue, id: &str) -> (r: bool)
    requires
        old(queue).wf(),
        old(queue)@.current() is Some,
        old(queue)@.current().unwrap().id == id@,
    ensures
        final(queue).wf(),
        r == model::others_follow(old(queue)@, id@),
        final(queue)@ == model::purged(old(queue)@, id@),
{
    let ghost was = queue@;
    let cursor = queue.cursor();
    let mut index = queue.len();
    proof {
        assert(was.items.skip(index as int) =~= Seq::empty());
        reveal(Seq::filter);
        assert(others_from(was, id@, index as int).items =~= queue@.items);
    }
    // Reverse order, so the indices ahead of each removal stay valid.
    while index > 0
        invariant
            0 <= was.cursor < was.items.len(),
            cursor == was.cursor,
            index <= was.items.len(),
            was.items.len() <= usize::MAX,
            queue.wf(),
            queue@ == others_from(was, id@, index as int),
        decreases index,
    {
        index -= 1;
        proof {
            lemma_others_from(was, id@, index as int);
        }
        let dead = index != cursor && {
            let items = queue.items();
            str_eq(items[index].id.as_str(), id)
        };
        if dead {
            queue.remove(index);
        }
    }
    proof {
        let before = model::others(was.items.take(was.cursor), id@);
        let after = model::others(was.items.skip(was.cursor + 1), id@);
        assert(was.items.subrange(0, was.cursor) =~= was.items.take(was.cursor));
        assert(queue@.items =~= before + seq![was.items[was.cursor]] + after);
        assert(queue@.items.remove(queue@.cursor) =~= before + after);
    }
    // The one at the cursor last, since `remove` deliberately refuses it.
    queue.remove_current()
}

} // verus!
