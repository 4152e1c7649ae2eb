//! What holds of the player whatever it is told, asked or answered.

use vstd::prelude::*;

use crate::config::Repeat;
use crate::jellyfin::models;
use crate::jellyfin::models::ItemView;
use crate::order;
use crate::player::model;
use crate::player::model::{PlayerView, Step};
use crate::player::queue::{Mode, QueueView};
use crate::player::sink::Fault;
use crate::player::{
    ActionView, Command, EventView, OpenError, PendingView, Refill, Reply, RequestView, State,
    MAX_MISSING_SKIPS,
};
use crate::time::Duration;

verus! {

/// Whether a request is the one that is waited for.
pub open spec fn asks_for(request: RequestView, pending: PendingView) -> bool {
    match pending {
        PendingView::Nothing => false,
        PendingView::Random => request is RandomTracks,
        PendingView::Album => request is AlbumTracks,
        PendingView::ArtistAlbums => request is ArtistAlbums,
        PendingView::ArtistTracks { tracks, albums } => request is AlbumTracks,
        PendingView::Mix => request is InstantMix,
        PendingView::Restore => request is LoadQueue,
        PendingView::Refill(_) => request is RandomTracks,
        PendingView::Open(_) => request is OpenForPlayback,
        PendingView::Play => request is PlayReader,
        PendingView::SeekOpen(_) => request is OpenComplete,
        PendingView::Seek(_) => request is SeekReader,
        PendingView::SeekAt(_) => request is PlayReaderAt,
        PendingView::Poll => request is PollSink,
        PendingView::Probe => request is ProbeCache,
        PendingView::OpenNext => request is OpenComplete,
        PendingView::SetNext => request is QueueReader,
    }
}

/// Whether a reply answers what is waited for.
pub open spec fn answers(reply: Reply, pending: PendingView) -> bool {
    match pending {
        PendingView::Nothing => false,
        PendingView::Random => reply is Tracks,
        PendingView::Album => reply is Tracks,
        PendingView::ArtistAlbums => reply is Tracks,
        PendingView::ArtistTracks { tracks, albums } => reply is Tracks,
        PendingView::Mix => reply is Tracks,
        PendingView::Restore => reply is Stored,
        PendingView::Refill(_) => reply is Tracks,
        PendingView::Open(_) => reply is Opened,
        PendingView::Play => reply is Taken,
        PendingView::SeekOpen(_) => reply is Complete,
        PendingView::Seek(_) => reply is Taken,
        PendingView::SeekAt(_) => reply is Placed,
        PendingView::Poll => reply is Polled,
        PendingView::Probe => reply is Probed,
        PendingView::OpenNext => reply is Complete,
        PendingView::SetNext => reply is Taken,
    }
}

/// Whether nothing has been asked for.
pub open spec fn asks_nothing(out: Seq<ActionView>) -> bool {
    forall|i: int| 0 <= i < out.len() ==> !(#[trigger] out[i] is Ask)
}

/// Whether a step ends in a request that is waited for, or asks for nothing and waits for
/// nothing.
pub open spec fn settled(step: Step) -> bool {
    if step.player.pending == PendingView::Nothing {
        asks_nothing(step.out)
    } else {
        &&& step.out.len() > 0
        &&& step.out.last() is Ask
        &&& asks_for(step.out.last()->Ask_0, step.player.pending)
        &&& asks_nothing(step.out.drop_last())
    }
}

/// Whether a state other than `before` has been announced.
pub open spec fn announced(before: State, step: Step) -> bool {
    step.player.state == before || step.out.contains(
        ActionView::Emit(EventView::StateChanged(step.player.state)),
    )
}

/// In the middle of a step: nothing asked for yet, and the state announced.
spec fn under_way(before: State, step: Step) -> bool {
    &&& step.player.pending == PendingView::Nothing
    &&& asks_nothing(step.out)
    &&& announced(before, step)
    &&& step.player.queue.wf()
}

/// At the end of a step.
spec fn done(before: State, step: Step) -> bool {
    settled(step) && announced(before, step)
}

proof fn lemma_act(before: State, step: Step, action: ActionView)
    requires
        under_way(before, step),
        !(action is Ask),
    ensures
        under_way(before, step.act(action)),
        done(before, step.act(action)),
{
    let event = ActionView::Emit(EventView::StateChanged(step.player.state));
    let after = step.act(action);
    if step.player.state != before {
        let i = choose|i: int| 0 <= i < step.out.len() && step.out[i] == event;
        assert(after.out[i] == event);
    }
}

proof fn lemma_ask(before: State, step: Step, request: RequestView, pending: PendingView)
    requires
        under_way(before, step),
        asks_for(request, pending),
    ensures
        done(before, step.ask(request, pending)),
{
    let event = ActionView::Emit(EventView::StateChanged(step.player.state));
    let after = step.ask(request, pending);
    assert(after.out.drop_last() =~= step.out);
    if step.player.state != before {
        let i = choose|i: int| 0 <= i < step.out.len() && step.out[i] == event;
        assert(after.out[i] == event);
    }
}

proof fn lemma_set_state(before: State, step: Step, state: State)
    requires
        under_way(before, step),
    ensures
        under_way(before, step.set_state(state)),
        done(before, step.set_state(state)),
{
    let after = step.set_state(state);
    if step.player.state != state {
        assert(after.out.last() == ActionView::Emit(EventView::StateChanged(state)));
    }
}

proof fn lemma_halt(before: State, step: Step)
    requires
        under_way(before, step),
    ensures
        under_way(before, step.halt()),
{
    lemma_act(before, step, ActionView::SinkStop);
    lemma_set_state(before, step.act(ActionView::SinkStop), State::Stopped);
}

proof fn lemma_fail(before: State, step: Step, message: Seq<char>)
    requires
        under_way(before, step),
    ensures
        done(before, step.fail(message)),
        under_way(before, step.fail(message)),
{
    lemma_act(before, step, ActionView::Emit(EventView::Failed(message)));
}

proof fn lemma_persist(before: State, step: Step)
    requires
        under_way(before, step),
    ensures
        under_way(before, step.persist()),
        done(before, step.persist()),
{
    lemma_act(before, step, ActionView::Persist(step.player.queue.saved()));
}

proof fn lemma_start_current(before: State, step: Step, tries: nat)
    requires
        under_way(before, step),
    ensures
        done(before, step.start_current(tries)),
{
    reveal(Step::start_current);
    if tries == 0 {
        lemma_halt(before, step);
        lemma_fail(
            before,
            step.halt(),
            "too many tracks in a row are missing on the server"@,
        );
    } else {
        match step.player.queue.current() {
            None => lemma_set_state(before, step, State::Stopped),
            Some(item) => {
                let told = step.emit(EventView::Loading(Some(item)));
                lemma_act(before, step, ActionView::Emit(EventView::Loading(Some(item))));
                lemma_ask(
                    before,
                    told,
                    RequestView::OpenForPlayback { id: item.id, ext: model::extension_of(item) },
                    PendingView::Open((tries - 1) as nat),
                );
            },
        }
    }
}

proof fn lemma_start_queue(
    before: State,
    step: Step,
    items: Seq<ItemView>,
    start: int,
    mode: Mode,
)
    requires
        under_way(before, step),
        start >= 0,
    ensures
        done(before, step.start_queue(items, start, mode)),
{
    reveal(Step::start_queue);
    lemma_start_current(
        before,
        step.with_queue(QueueView::of(items, start, mode)),
        MAX_MISSING_SKIPS as nat,
    );
}

proof fn lemma_play_random(before: State, step: Step)
    requires
        under_way(before, step),
    ensures
        done(before, step.play_random()),
{
    reveal(Step::play_random);
    lemma_act(before, step, ActionView::Emit(EventView::Loading(None)));
    lemma_ask(
        before,
        step.emit(EventView::Loading(None)),
        RequestView::RandomTracks(step.player.random_batch),
        PendingView::Random,
    );
}

proof fn lemma_resume_or_random(before: State, step: Step)
    requires
        under_way(before, step),
    ensures
        done(before, step.resume_or_random()),
{
    reveal(Step::resume_or_random);
    lemma_start_current(before, step, MAX_MISSING_SKIPS as nat);
    lemma_play_random(before, step);
}

proof fn lemma_advance_now(before: State, step: Step)
    requires
        under_way(before, step),
    ensures
        done(before, step.advance_now()),
{
    reveal(Step::advance_now);
    if step.player.next() is Some {
        lemma_start_current(
            before,
            step.with_queue(step.player.queue.advanced(step.player.wraps())),
            MAX_MISSING_SKIPS as nat,
        );
    } else {
        lemma_halt(before, step);
        lemma_act(
            before,
            step.halt(),
            ActionView::Emit(EventView::TrackChanged(None)),
        );
    }
}

proof fn lemma_advance(before: State, step: Step)
    requires
        under_way(before, step),
    ensures
        done(before, step.advance()),
{
    reveal(Step::advance);
    let event = EventView::Loading(step.player.next());
    lemma_act(before, step, ActionView::Emit(event));
    if step.player.needs_refill() {
        lemma_ask(
            before,
            step.emit(event),
            RequestView::RandomTracks(step.player.random_batch),
            PendingView::Refill(Refill::Advance),
        );
    } else {
        lemma_advance_now(before, step.emit(event));
    }
}

proof fn lemma_probe_next(before: State, step: Step)
    requires
        under_way(before, step),
    ensures
        done(before, step.probe_next()),
{
    reveal(Step::probe_next);
    if let Some(next) = step.player.next() {
        lemma_ask(
            before,
            step,
            RequestView::ProbeCache { id: next.id, ext: model::extension_of(next) },
            PendingView::Probe,
        );
    }
}

proof fn lemma_queue_next(before: State, step: Step)
    requires
        under_way(before, step),
    ensures
        done(before, step.queue_next()),
{
    reveal(Step::queue_next);
    lemma_probe_next(before, step);
    lemma_ask(
        before,
        step,
        RequestView::RandomTracks(step.player.random_batch),
        PendingView::Refill(Refill::QueueNext),
    );
}

proof fn lemma_probed(before: State, step: Step, cached: bool, reachable: bool, position: Duration)
    requires
        under_way(before, step),
    ensures
        done(before, step.probed(cached, reachable, position)),
{
    reveal(Step::probed);
    if let Some(next) = step.player.next() {
        let ext = model::extension_of(next);
        lemma_ask(
            before,
            step,
            RequestView::OpenComplete { id: next.id, ext },
            PendingView::OpenNext,
        );
        let warm = Step {
            player: PlayerView { warming: Some(next.id), ..step.player },
            ..step
        };
        lemma_act(before, warm, ActionView::Warm { id: next.id, ext });
    }
}

proof fn lemma_set_repeat(before: State, step: Step, repeat: Repeat)
    requires
        under_way(before, step),
    ensures
        done(before, step.set_repeat(repeat)),
{
    reveal(Step::set_repeat);
    let set = Step {
        player: PlayerView { repeat, queued_next: None, ..step.player },
        ..step
    };
    lemma_act(before, set, ActionView::SaveRepeat(repeat));
    lemma_act(
        before,
        set.act(ActionView::SaveRepeat(repeat)),
        ActionView::Emit(EventView::RepeatChanged(repeat)),
    );
}

/// A changed queue, written out and announced.
proof fn lemma_queue_changed(before: State, step: Step)
    requires
        under_way(before, step),
    ensures
        done(before, step.persist().emit(EventView::QueueChanged)),
        under_way(before, step.persist().emit(EventView::QueueChanged)),
{
    lemma_persist(before, step);
    lemma_act(before, step.persist(), ActionView::Emit(EventView::QueueChanged));
}

proof fn lemma_enqueue(before: State, step: Step, items: Seq<ItemView>, next: bool)
    requires
        under_way(before, step),
    ensures
        done(before, step.enqueue(items, next)),
{
    reveal(Step::enqueue);
    let queue = step.player.queue;
    if items.len() > 0 {
        if queue.items.len() == 0 {
            let filled = QueueView::of(items, 0, Mode::Explicit);
            let shown = step.with_queue(filled).with_resume_pending(true);
            let event = EventView::TrackChanged(filled.current());
            lemma_act(before, shown, ActionView::Emit(event));
            lemma_queue_changed(before, shown.emit(event));
        } else {
            let after = if step.player.queued_next is Some {
                queue.cursor + 1
            } else {
                queue.cursor
            };
            lemma_queue_changed(before, step.with_queue(queue.inserted_after(after, items)));
            lemma_queue_changed(before, step.with_queue(queue.appended(items)));
        }
    }
}

proof fn lemma_remove(before: State, step: Step, index: int, id: Seq<char>)
    requires
        under_way(before, step),
    ensures
        done(before, step.remove(index, id)),
{
    reveal(Step::remove);
    lemma_fail(before, step, "that track is playing right now"@);
    lemma_fail(before, step, "that track is already cued up next"@);
    lemma_queue_changed(before, step.with_queue(step.player.queue.without(index)));
}

/// What is left of a queue without a lost track is a queue.
proof fn lemma_after_missing(step: Step, item: ItemView)
    requires
        step.player.queue.wf(),
    ensures
        step.after_missing(item).0.wf(),
        step.after_missing(item).1 ==> step.after_missing(item).0.items.len() > 0,
{
}

proof fn lemma_drop_missing(before: State, step: Step, item: ItemView, tries: nat)
    requires
        under_way(before, step),
    ensures
        done(before, step.drop_missing(item, tries)),
{
    reveal(Step::drop_missing);
    let (queue, stepped) = step.after_missing(item);
    let message = item.name + " is no longer on the server, skipping it"@;
    let told = step.fail(message);
    lemma_fail(before, step, message);
    lemma_after_missing(step, item);
    lemma_queue_changed(before, told.with_queue(queue));
    let dropped = told.with_queue(queue).persist().emit(EventView::QueueChanged);
    lemma_start_current(before, dropped, tries);
    lemma_halt(before, dropped);
    lemma_act(before, dropped.halt(), ActionView::Emit(EventView::TrackChanged(None)));
}

proof fn lemma_stall(before: State, step: Step, message: Seq<char>)
    requires
        under_way(before, step),
    ensures
        done(before, step.stall(message)),
{
    reveal(Step::stall);
    let resumable = step.with_resume_pending(true);
    lemma_halt(before, resumable);
    lemma_fail(before, resumable.halt(), message);
}

proof fn lemma_mixed(before: State, step: Step, tracks: Seq<ItemView>)
    requires
        under_way(before, step),
    ensures
        done(before, step.mixed(tracks)),
{
    reveal(Step::mixed);
    if let Some(seed) = step.player.queue.current() {
        let queue = step.player.queue;
        let mix = model::others(tracks, seed.id);
        let kept = if step.player.queued_next is Some && queue.has_successor() {
            queue.cursor + 2
        } else {
            queue.cursor + 1
        };
        lemma_fail(before, step, "server returned no tracks"@);
        lemma_queue_changed(
            before,
            step.with_queue(
                QueueView {
                    items: queue.items.take(kept) + mix,
                    mode: Mode::Explicit,
                    ..queue
                },
            ),
        );
    }
}

proof fn lemma_started(before: State, step: Step)
    requires
        under_way(before, step),
    ensures
        done(before, step.started()),
{
    reveal(Step::started);
    let cleared = step.with_nothing_ahead().with_resume_pending(false);
    let event = EventView::TrackChanged(step.player.queue.current());
    lemma_act(before, cleared, ActionView::Emit(event));
    lemma_set_state(before, cleared.emit(event), State::Playing);
    lemma_persist(before, cleared.emit(event).set_state(State::Playing));
}

proof fn lemma_refilled(before: State, step: Step, more: Option<Seq<ItemView>>)
    requires
        under_way(before, step),
    ensures
        under_way(before, step.refilled(more)),
{
    reveal(Step::refilled);
    if let Some(items) = more {
        lemma_persist(before, step.with_queue(step.player.queue.appended(items)));
    }
}

proof fn lemma_seek(before: State, step: Step, pos: Duration)
    requires
        under_way(before, step),
    ensures
        done(before, step.seek(pos)),
{
    reveal(Step::seek);
    if let Some(item) = step.player.queue.current() {
        lemma_ask(
            before,
            step,
            RequestView::OpenComplete { id: item.id, ext: model::extension_of(item) },
            PendingView::SeekOpen(pos),
        );
    }
}

proof fn lemma_seek_opened(
    before: State,
    step: Step,
    pos: Duration,
    len: Option<u64>,
    seekable: bool,
)
    requires
        under_way(before, step),
    ensures
        done(before, step.seek_opened(pos, len, seekable)),
{
    reveal(Step::seek_opened);
    lemma_fail(before, step, "this track cannot be seeked"@);
    lemma_ask(before, step, RequestView::SeekReader(pos), PendingView::Seek(pos));
    if let (Some(item), Some(len)) = (step.player.queue.current(), len) {
        if let Some(total) = item.duration() {
            let byte = model::byte_at(pos.nanos as nat, total.nanos as nat, len as nat) as u64;
            lemma_ask(
                before,
                step,
                RequestView::PlayReaderAt { byte, pos },
                PendingView::SeekAt(pos),
            );
        }
    }
}

proof fn lemma_catch_up(before: State, step: Step, advances: nat)
    requires
        under_way(before, step),
    ensures
        under_way(before, step.catch_up(advances)),
    decreases advances,
{
    if advances > 0 {
        let cleared = step.with_nothing_ahead();
        if let Some(item) = step.player.next() {
            let moved = cleared.with_queue(step.player.queue.advanced(step.player.wraps()));
            let event = EventView::TrackChanged(Some(item));
            lemma_act(before, moved, ActionView::Emit(event));
            lemma_catch_up(before, moved.emit(event), (advances - 1) as nat);
        }
    }
}

proof fn lemma_polled(
    before: State,
    step: Step,
    advances: nat,
    finished: bool,
    position: Duration,
)
    requires
        under_way(before, step),
    ensures
        done(before, step.polled(advances, finished, position)),
{
    reveal(Step::polled);
    let caught_up = step.catch_up(advances);
    lemma_catch_up(before, step, advances);
    lemma_persist(before, caught_up);
    let saved = if advances > 0 && step.player.next() is Some {
        caught_up.persist()
    } else {
        caught_up
    };
    lemma_start_current(before, saved, MAX_MISSING_SKIPS as nat);
    lemma_advance(before, saved);
    lemma_act(before, saved, ActionView::Emit(EventView::Position(position)));
    lemma_queue_next(before, saved.emit(EventView::Position(position)));
}

proof fn lemma_collect(before: State, step: Step, tracks: Seq<ItemView>, albums: Seq<ItemView>)
    requires
        under_way(before, step),
    ensures
        done(before, step.collect(tracks, albums)),
{
    reveal(Step::collect);
    lemma_start_queue(before, step, tracks, 0, Mode::Explicit);
    if albums.len() > 0 {
        lemma_ask(
            before,
            step,
            RequestView::AlbumTracks(albums[0].id),
            PendingView::ArtistTracks { tracks, albums },
        );
    }
}

/// A command ends in exactly one request that is then waited for, or in none; and a change of
/// state is announced.
pub proof fn law_a_command_waits_for_what_it_asks(
    player: PlayerView,
    cmd: Command,
    order: Seq<int>,
)
    requires
        player.wf(),
        player.idle(),
    ensures
        settled(Step::start(player).handle(cmd, order)),
        announced(player.state, Step::start(player).handle(cmd, order)),
{
    let before = player.state;
    let step = Step::start(player);
    match cmd {
        Command::PlayRandom => lemma_play_random(before, step),
        Command::PlayAlbum(id) => lemma_ask(
            before,
            step,
            RequestView::AlbumTracks(id@),
            PendingView::Album,
        ),
        Command::PlayArtist(id) => lemma_ask(
            before,
            step,
            RequestView::ArtistAlbums(id@),
            PendingView::ArtistAlbums,
        ),
        Command::PlayItems { items, start } => lemma_start_queue(
            before,
            step,
            models::item_views(items@),
            start as int,
            Mode::Explicit,
        ),
        Command::PlayShuffled { items, first } => lemma_start_queue(
            before,
            step,
            model::shuffled_scope(models::item_views(items@), first as int, order),
            0,
            Mode::Explicit,
        ),
        Command::QueueLast { items } => lemma_enqueue(
            before,
            step,
            models::item_views(items@),
            false,
        ),
        Command::QueueNext { items } => lemma_enqueue(
            before,
            step,
            models::item_views(items@),
            true,
        ),
        Command::SetCacheLimit(bytes) => lemma_act(before, step, ActionView::LimitCache(bytes)),
        Command::CycleRepeat => lemma_set_repeat(before, step, player.repeat.successor()),
        Command::SetRepeat(repeat) => lemma_set_repeat(before, step, repeat),
        Command::Remove { index, id } => lemma_remove(before, step, index as int, id@),
        Command::Next => lemma_advance(before, step),
        Command::Previous => lemma_start_current(
            before,
            step.with_queue(player.queue.stepped_back()),
            MAX_MISSING_SKIPS as nat,
        ),
        Command::Stop => {
            lemma_halt(before, step);
            lemma_act(
                before,
                step.halt(),
                ActionView::Emit(EventView::Position(Duration { nanos: 0 })),
            );
        },
        Command::Seek(pos) => lemma_seek(before, step, pos),
        Command::Restore => lemma_ask(
            before,
            step,
            RequestView::LoadQueue,
            PendingView::Restore,
        ),
        Command::InstantMix { limit } => {
            if let Some(item) = player.queue.current() {
                lemma_ask(
                    before,
                    step,
                    RequestView::InstantMix { id: item.id, limit },
                    PendingView::Mix,
                );
            }
        },
        Command::Shutdown => {
            lemma_act(before, step, ActionView::SinkStop);
            lemma_act(before, step.act(ActionView::SinkStop), ActionView::Quit);
        },
        _ => {
            reveal(Step::pause);
            reveal(Step::resume);
            lemma_resume_or_random(before, step);
            lemma_act(before, step, ActionView::SinkPause);
            lemma_set_state(before, step.act(ActionView::SinkPause), State::Paused);
            lemma_act(before, step, ActionView::SinkResume);
            lemma_set_state(before, step.act(ActionView::SinkResume), State::Playing);
        },
    }
}

/// A tick ends in exactly one request that is then waited for, or in none; and a change of
/// state is announced.
pub proof fn law_a_tick_waits_for_what_it_asks(player: PlayerView, fault: Option<Fault>)
    requires
        player.wf(),
        player.idle(),
    ensures
        settled(Step::start(player).tick(fault)),
        announced(player.state, Step::start(player).tick(fault)),
{
    let before = player.state;
    let step = Step::start(player);
    lemma_ask(before, step, RequestView::PollSink, PendingView::Poll);
    if let Some(fault) = fault {
        lemma_fail(before, step, fault.message@);
        lemma_advance(before, step.fail(fault.message@));
        lemma_ask(before, step.fail(fault.message@), RequestView::PollSink, PendingView::Poll);
    }
}

/// An answer to what was asked for ends in exactly one further request that is then waited for,
/// or in none; and a change of state is announced.
pub proof fn law_an_answer_waits_for_what_it_asks(player: PlayerView, reply: Reply)
    requires
        player.wf(),
        answers(reply, player.pending),
    ensures
        settled(Step::start(player).resume_with(reply)),
        announced(player.state, Step::start(player).resume_with(reply)),
{
    let before = player.state;
    let step = Step::start(PlayerView { pending: PendingView::Nothing, ..player });
    match (player.pending, reply) {
        (PendingView::Random, Reply::Tracks(Ok(tracks))) => {
            lemma_fail(before, step, "server returned no tracks"@);
            lemma_start_queue(before, step, models::item_views(tracks@), 0, Mode::Random);
        },
        (PendingView::Album, Reply::Tracks(Ok(tracks))) => lemma_start_queue(
            before,
            step,
            models::item_views(tracks@),
            0,
            Mode::Explicit,
        ),
        (PendingView::ArtistAlbums, Reply::Tracks(Ok(albums))) => lemma_collect(
            before,
            step,
            Seq::empty(),
            models::item_views(albums@),
        ),
        (PendingView::ArtistTracks { tracks, albums }, Reply::Tracks(Ok(more))) => lemma_collect(
            before,
            step,
            tracks + models::item_views(more@),
            albums.skip(1),
        ),
        (PendingView::Restore, Reply::Stored(stored)) => {
            reveal(Step::restored);
            if let Some(saved) = stored {
                if let Some(queue) = saved@.restored() {
                    lemma_act(
                        before,
                        step.with_queue(queue).with_resume_pending(true),
                        ActionView::Emit(EventView::TrackChanged(queue.current())),
                    );
                }
            }
        },
        (PendingView::Refill(purpose), Reply::Tracks(result)) => {
            let more = match result {
                Ok(more) => Some(models::item_views(more@)),
                Err(_) => None,
            };
            lemma_refilled(before, step, more);
            lemma_advance_now(before, step.refilled(more));
            lemma_probe_next(before, step.refilled(more));
        },
        (PendingView::Open(left), Reply::Opened(Ok(()))) => lemma_ask(
            before,
            step,
            RequestView::PlayReader,
            PendingView::Play,
        ),
        (PendingView::Open(left), Reply::Opened(Err(err))) => {
            let item = player.queue.current().unwrap();
            lemma_drop_missing(before, step, item, left);
            lemma_stall(before, step, model::open_message(err, item));
        },
        (PendingView::Mix, Reply::Tracks(Ok(tracks))) => lemma_mixed(
            before,
            step,
            models::item_views(tracks@),
        ),
        (PendingView::Play, Reply::Taken(Ok(()))) => lemma_started(before, step),
        (
            PendingView::SeekOpen(pos),
            Reply::Complete(Ok((len, seekable))),
        ) => lemma_seek_opened(before, step, pos, len, seekable),
        (PendingView::SeekOpen(pos), Reply::Complete(Err(err))) => lemma_fail(
            before,
            step,
            model::open_message(err, player.queue.current().unwrap()),
        ),
        (PendingView::Seek(pos), Reply::Taken(Ok(()))) => lemma_act(
            before,
            step,
            ActionView::Emit(EventView::Seeked(pos)),
        ),
        (PendingView::SeekAt(pos), Reply::Placed(Ok(()))) => lemma_act(
            before,
            step,
            ActionView::Emit(EventView::Seeked(pos)),
        ),
        (PendingView::Poll, Reply::Polled { advances, finished, position }) => lemma_polled(
            before,
            step,
            advances as nat,
            finished,
            position,
        ),
        (PendingView::Probe, Reply::Probed { cached, reachable, position }) => lemma_probed(
            before,
            step,
            cached,
            reachable,
            position,
        ),
        (PendingView::OpenNext, Reply::Complete(Ok(_))) => lemma_ask(
            before,
            step,
            RequestView::QueueReader,
            PendingView::SetNext,
        ),
        _ => {
            let after = Step::start(player).resume_with(reply);
            if after.out.len() > 0 {
                lemma_fail(before, step, after.out[0]->Emit_0->Failed_0);
            }
        },
    }
}

/// Whether a load that was announced has ended, well or badly.
pub open spec fn load_ended(out: Seq<ActionView>) -> bool {
    exists|i: int|
        0 <= i < out.len() && #[trigger] out[i] is Emit && (out[i]->Emit_0 is TrackChanged
            || out[i]->Emit_0 is Failed)
}

/// Whether a load is announced.
pub open spec fn announces_load(out: Seq<ActionView>) -> bool {
    exists|i: int|
        0 <= i < out.len() && #[trigger] out[i] is Emit && out[i]->Emit_0 is Loading
}

/// Whether what is waited for is part of a load that was announced.
pub open spec fn loading(pending: PendingView) -> bool {
    pending is Random || pending == PendingView::Refill(Refill::Advance) || pending is Open
        || pending is Play
}

/// A load ends when the new track is announced or a failure is: an answer to a step of one
/// brings one of the two, or the next step.
pub proof fn law_a_load_ends_in_a_track_or_a_failure(player: PlayerView, reply: Reply)
    requires
        player.wf(),
        loading(player.pending),
        answers(reply, player.pending),
    ensures
        ({
            let after = Step::start(player).resume_with(reply);
            loading(after.player.pending) || load_ended(after.out)
        }),
{
    reveal(Step::start_queue);
    reveal(Step::start_current);
    reveal(Step::advance_now);
    reveal(Step::refilled);
    reveal(Step::drop_missing);
    reveal(Step::started);
    let after = Step::start(player).resume_with(reply);
    let step = Step::start(PlayerView { pending: PendingView::Nothing, ..player });
    if !loading(after.player.pending) {
        match (player.pending, reply) {
            (PendingView::Play, Reply::Taken(Ok(()))) => {
                assert(after.out[0] is Emit && after.out[0]->Emit_0 is TrackChanged);
            },
            (PendingView::Refill(_), Reply::Tracks(_)) => {
                assert(after.out.last() is Emit && after.out.last()->Emit_0 is TrackChanged);
            },
            (PendingView::Open(left), Reply::Opened(Err(err))) => {
                if model::is_gone(err) {
                    let item = player.queue.current().unwrap();
                    let (queue, stepped) = step.after_missing(item);
                    assert(step.out.len() == 0);
                    assert(after.out[0] == ActionView::Emit(
                        EventView::Failed(
                            item.name + " is no longer on the server, skipping it"@,
                        ),
                    ));
                } else {
                    reveal(Step::stall);
                    assert(after.out.last() is Emit && after.out.last()->Emit_0 is Failed);
                }
            },
            _ => {
                assert(after.out[0] is Emit && after.out[0]->Emit_0 is Failed);
            },
        }
    }
}

/// A command that announces a load goes on with it, or ends it at once.
pub proof fn law_an_announced_load_is_followed_up(
    player: PlayerView,
    cmd: Command,
    order: Seq<int>,
)
    requires
        player.wf(),
        player.idle(),
        announces_load(Step::start(player).handle(cmd, order).out),
    ensures
        ({
            let after = Step::start(player).handle(cmd, order);
            loading(after.player.pending) || load_ended(after.out)
        }),
{
    let after = Step::start(player).handle(cmd, order);
    match cmd {
        Command::PlayItems { items, start } => {
            reveal(Step::start_queue);
            reveal(Step::start_current);
        },
        Command::PlayShuffled { items, first } => {
            reveal(Step::start_queue);
            reveal(Step::start_current);
        },
        Command::Previous => {
            reveal(Step::start_current);
        },
        Command::Next => {
            reveal(Step::advance);
            reveal(Step::advance_now);
            reveal(Step::start_current);
            if !loading(after.player.pending) {
                assert(after.out.last() is Emit && after.out.last()->Emit_0 is TrackChanged);
            }
        },
        Command::QueueLast { items } => {
            reveal(Step::enqueue);
        },
        Command::QueueNext { items } => {
            reveal(Step::enqueue);
        },
        Command::Remove { index, id } => {
            reveal(Step::remove);
        },
        Command::Seek(pos) => {
            reveal(Step::seek);
        },
        Command::CycleRepeat => {
            reveal(Step::set_repeat);
        },
        Command::SetRepeat(repeat) => {
            reveal(Step::set_repeat);
        },
        _ => {
            reveal(Step::pause);
            reveal(Step::resume);
            reveal(Step::play_random);
            reveal(Step::resume_or_random);
            reveal(Step::start_current);
        },
    }
}

/// Skipping tracks that the server has lost comes to an end: each one that is skipped leaves
/// fewer to try, and there are never more than sixteen.
pub proof fn law_skipping_lost_tracks_comes_to_an_end(player: PlayerView, err: OpenError)
    requires
        player.wf(),
        player.pending is Open,
    ensures
        player.pending->Open_0 < MAX_MISSING_SKIPS,
        ({
            let after = Step::start(player).resume_with(Reply::Opened(Err(err))).player;
            after.pending is Nothing || (after.pending is Open && after.pending->Open_0
                < player.pending->Open_0)
        }),
{
    reveal(Step::drop_missing);
    reveal(Step::start_current);
    reveal(Step::stall);
}

/// A track that cannot be fetched is not marched past: the player stops on it, ticks change
/// nothing, and Play tries it again.
pub proof fn law_a_track_that_cannot_be_fetched_is_tried_again(
    player: PlayerView,
    err: OpenError,
    order: Seq<int>,
)
    requires
        player.wf(),
        player.pending is Open,
        !model::is_gone(err),
    ensures
        ({
            let stalled = Step::start(player).resume_with(Reply::Opened(Err(err)));
            let track = player.queue.current().unwrap();
            let retried = Step::start(stalled.player).handle(Command::Play, order);
            &&& stalled.player.queue == player.queue
            &&& stalled.player.state == State::Stopped
            &&& stalled.out.last() == ActionView::Emit(
                EventView::Failed(model::open_message(err, track)),
            )
            &&& Step::start(stalled.player).tick(None) == Step::start(stalled.player)
            &&& retried.out.last() == ActionView::Ask(
                RequestView::OpenForPlayback { id: track.id, ext: model::extension_of(track) },
            )
        }),
{
    reveal(Step::stall);
    reveal(Step::resume_or_random);
    reveal(Step::start_current);
}

/// An instant mix leaves what is playing, and what came before it, alone; it is finite.
pub proof fn law_a_mix_only_changes_what_comes_next(player: PlayerView, tracks: Seq<ItemView>)
    requires
        player.wf(),
        player.idle(),
    ensures
        ({
            let after = Step::start(player).mixed(tracks).player;
            let seed = player.queue.current();
            &&& after.queue.current() == seed
            &&& after.queue.items.take(player.queue.cursor) == player.queue.items.take(
                player.queue.cursor,
            )
            &&& after.state == player.state
            &&& seed is Some && model::others(tracks, seed.unwrap().id).len() > 0
                ==> !after.needs_refill() && after.queue.mode == Mode::Explicit
        }),
{
    reveal(Step::mixed);
    let after = Step::start(player).mixed(tracks).player;
    assert(after.queue.items.take(player.queue.cursor) =~= player.queue.items.take(
        player.queue.cursor,
    ));
}

/// A track that the server has lost leaves the queue in every place it stands in, and no other
/// track does.
pub proof fn law_a_lost_track_leaves_the_queue(player: PlayerView, err: OpenError)
    requires
        player.wf(),
        player.pending is Open,
        model::is_gone(err),
    ensures
        ({
            let lost = player.queue.current().unwrap().id;
            let after = Step::start(player).resume_with(Reply::Opened(Err(err))).player;
            &&& after.queue.items == model::others(player.queue.items, lost)
            &&& forall|i: int|
                0 <= i < after.queue.items.len() ==> #[trigger] after.queue.items[i].id != lost
        }),
{
    reveal(Step::drop_missing);
    reveal(Step::start_current);
    let queue = player.queue;
    let item = queue.current().unwrap();
    let keep = |other: ItemView| other.id != item.id;
    let before = queue.items.take(queue.cursor);
    let behind = queue.items.skip(queue.cursor + 1);
    let one = seq![item];
    assert(queue.items =~= before + one + behind);
    Seq::filter_distributes_over_add(before + one, behind, keep);
    Seq::filter_distributes_over_add(before, one, keep);
    assert(one.filter(keep) =~= Seq::empty()) by {
        reveal(Seq::filter);
        assert(one.drop_last() =~= Seq::empty());
        assert(one.drop_last().filter(keep) =~= Seq::<ItemView>::empty());
    }
    assert(model::others(before, item.id) + model::others(behind, item.id) =~= model::others(
        queue.items,
        item.id,
    ));
    let after = Step::start(player).resume_with(Reply::Opened(Err(err))).player;
    assert forall|i: int| 0 <= i < after.queue.items.len() implies #[trigger] after.queue.items[i].id
        != item.id by {
        queue.items.lemma_filter_pred(keep, i);
    }
}

/// Removing a track never changes which one is playing. A removal that names another track than
/// the one that is there changes nothing at all, and neither does one of the track that is
/// playing or of one that the sink has been handed: those are refused.
pub proof fn law_removing_keeps_what_plays(
    player: PlayerView,
    index: usize,
    id: String,
    order: Seq<int>,
)
    requires
        player.wf(),
        player.idle(),
    ensures
        ({
            let after = Step::start(player).handle(Command::Remove { index, id }, order);
            &&& after.player.queue.current() == player.queue.current()
            &&& after.player.state == player.state
            &&& !(index < player.queue.items.len() && player.queue.items[index as int].id == id@)
                ==> after == Step::start(player)
            &&& index == player.queue.cursor || player.queued_next == Some(id@)
                ==> after.player == player
        }),
{
    reveal(Step::remove);
}

/// Adding tracks to a queue changes neither what is playing nor whether the queue refills
/// itself, and is remembered for the next session.
pub proof fn law_adding_keeps_what_plays(
    player: PlayerView,
    items: Seq<ItemView>,
    next: bool,
)
    requires
        player.wf(),
        player.idle(),
        player.queue.items.len() > 0,
    ensures
        ({
            let after = Step::start(player).enqueue(items, next);
            &&& after.player.queue.current() == player.queue.current()
            &&& after.player.queue.cursor == player.queue.cursor
            &&& after.player.queue.mode == player.queue.mode
            &&& after.player.state == player.state
            &&& items.len() > 0 ==> after.out.contains(
                ActionView::Persist(after.player.queue.saved()),
            )
        }),
{
    reveal(Step::enqueue);
    let after = Step::start(player).enqueue(items, next);
    if items.len() > 0 {
        assert(after.out[0] == ActionView::Persist(after.player.queue.saved()));
    }
}

/// "Play next" plays next: directly behind what is playing, or behind the one track that the
/// sink has already been handed.
pub proof fn law_play_next_comes_next(player: PlayerView, items: Seq<ItemView>)
    requires
        player.wf(),
        player.idle(),
        player.queue.items.len() > 0,
        items.len() > 0,
    ensures
        ({
            let after = Step::start(player).enqueue(items, true).player.queue;
            let at = player.queue.cursor + (if player.queued_next is Some
                && player.queue.has_successor() {
                2int
            } else {
                1int
            });
            &&& after.items.subrange(at, at + items.len()) == items
            &&& after.items.take(at) == player.queue.items.take(at)
            &&& after.items.skip(at + items.len()) == player.queue.items.skip(at)
        }),
{
    reveal(Step::enqueue);
    let after = Step::start(player).enqueue(items, true).player.queue;
    let at = player.queue.cursor + (if player.queued_next is Some && player.queue.has_successor() {
        2int
    } else {
        1int
    });
    assert(after.items.subrange(at, at + items.len()) =~= items);
    assert(after.items.take(at) =~= player.queue.items.take(at));
    assert(after.items.skip(at + items.len()) =~= player.queue.items.skip(at));
}

/// A restored session is shown without being played, and Play picks it up where it was.
pub proof fn law_play_resumes_a_restored_session(
    player: PlayerView,
    saved: crate::player::persist::Saved,
    order: Seq<int>,
)
    requires
        player.wf(),
        player.pending is Restore,
        player.state == State::Stopped,
        saved@.items.len() > 0,
    ensures
        ({
            let restored = Step::start(player).resume_with(Reply::Stored(Some(saved)));
            let track = saved@.restored().unwrap().current().unwrap();
            let playing = Step::start(restored.player).handle(Command::Play, order);
            &&& restored.player.state == State::Stopped
            &&& restored.out == seq![ActionView::Emit(EventView::TrackChanged(Some(track)))]
            &&& playing.out.last() == ActionView::Ask(
                RequestView::OpenForPlayback { id: track.id, ext: model::extension_of(track) },
            )
        }),
{
    reveal(Step::restored);
    reveal(Step::resume_or_random);
    reveal(Step::start_current);
    let restored = Step::start(player).resume_with(Reply::Stored(Some(saved)));
    let track = saved@.restored().unwrap().current().unwrap();
    assert(restored.out =~= seq![ActionView::Emit(EventView::TrackChanged(Some(track)))]);
}

/// Whatever the user has asked for outranks the old session: a restore never replaces a queue.
pub proof fn law_restoring_never_replaces_a_queue(player: PlayerView, order: Seq<int>)
    requires
        player.wf(),
        player.idle(),
        player.queue.items.len() > 0,
    ensures
        Step::start(player).handle(Command::Restore, order) == Step::start(player),
{
}

/// With repeat-one, a track that has run out is opened again.
pub proof fn law_repeat_one_plays_the_same_track_again(player: PlayerView, position: Duration)
    requires
        player.wf(),
        player.pending is Poll,
        player.repeat == Repeat::One,
        player.queue.current() is Some,
    ensures
        ({
            let track = player.queue.current().unwrap();
            let after = Step::start(player).resume_with(
                Reply::Polled { advances: 0, finished: true, position },
            );
            &&& after.player.queue == player.queue
            &&& after.out.last() == ActionView::Ask(
                RequestView::OpenForPlayback { id: track.id, ext: model::extension_of(track) },
            )
        }),
{
    reveal(Step::polled);
    reveal(Step::start_current);
    let idle = Step::start(PlayerView { pending: PendingView::Nothing, ..player });
    assert(idle.catch_up(0) == idle);
}

/// A track that starts is announced, is what plays, and is remembered for the next session.
pub proof fn law_a_started_track_is_announced_and_remembered(player: PlayerView)
    requires
        player.wf(),
        player.pending is Play,
    ensures
        ({
            let after = Step::start(player).resume_with(Reply::Taken(Ok(())));
            &&& after.player.state == State::Playing
            &&& after.player.queue == player.queue
            &&& after.out[0] == ActionView::Emit(
                EventView::TrackChanged(player.queue.current()),
            )
            &&& after.out.last() == ActionView::Persist(player.queue.saved())
        }),
{
    reveal(Step::started);
}

/// A random queue does not run dry while the server has tracks: on its last ones it asks for
/// more, and with them it goes on to the next.
pub proof fn law_a_random_queue_does_not_run_dry(
    player: PlayerView,
    more: Vec<crate::jellyfin::models::Item>,
    order: Seq<int>,
)
    requires
        player.wf(),
        player.idle(),
        player.queue.mode == Mode::Random,
        !player.queue.has_successor(),
        player.queue.items.len() > 0,
        more@.len() > 0,
    ensures
        ({
            let asked = Step::start(player).handle(Command::Next, order);
            let after = Step::start(asked.player).resume_with(Reply::Tracks(Ok(more)));
            &&& asked.out.last() == ActionView::Ask(
                RequestView::RandomTracks(player.random_batch),
            )
            &&& after.player.queue.current() == Some(more@[0]@)
            &&& after.out.last() == ActionView::Ask(
                RequestView::OpenForPlayback {
                    id: more@[0]@.id,
                    ext: model::extension_of(more@[0]@),
                },
            )
        }),
{
    reveal(Step::advance);
    reveal(Step::advance_now);
    reveal(Step::refilled);
    reveal(Step::start_current);
    let asked = Step::start(player).handle(Command::Next, order);
    let topped_up = Step::start(
        PlayerView { pending: PendingView::Nothing, ..asked.player },
    ).refilled(Some(models::item_views(more@)));
    assert(topped_up.player.queue.has_successor());
    assert(topped_up.player.queue.items[player.queue.cursor + 1] == more@[0]@);
}

/// A track that the sink has been handed is not handed over again.
pub proof fn law_a_track_is_handed_over_once(player: PlayerView, position: Duration)
    requires
        player.wf(),
        player.pending is SetNext,
        player.prefetch,
        !player.needs_refill(),
    ensures
        ({
            let after = Step::start(player).resume_with(Reply::Taken(Ok(()))).player;
            let polled = Step::start(PlayerView { pending: PendingView::Poll, ..after });
            &&& after.queued_next == Some(player.next().unwrap().id)
            &&& polled.resume_with(
                Reply::Polled { advances: 0, finished: false, position },
            ).player == after
        }),
{
    reveal(Step::polled);
    reveal(Step::queue_next);
    reveal(Step::probe_next);
    let after = Step::start(player).resume_with(Reply::Taken(Ok(()))).player;
    let idle = Step::start(after);
    assert(idle.catch_up(0) == idle);
}

/// A seek by byte offset stays inside the file, and a later position is never an earlier byte.
pub proof fn law_a_seek_stays_inside_the_file(pos: nat, later: nat, total: nat, len: nat)
    requires
        total > 0,
        pos <= later,
    ensures
        len > 0 ==> model::byte_at(pos, total, len) < len,
        model::byte_at(0, total, len) == 0,
        model::byte_at(pos, total, len) <= model::byte_at(later, total, len),
{
    let cap = len * 99 / 100;
    assert(len > 0 ==> cap < len);
    assert forall|p: nat| p * 100 < total * 99 implies #[trigger] (len * p) / total <= cap by {
        assert((len * p) / total <= (len * 99) / 100) by (nonlinear_arith)
            requires
                total > 0,
                p * 100 < total * 99,
                len >= 0,
        ;
    }
    assert(len * 0 == 0) by (nonlinear_arith);
    assert(0int / (total as int) == 0) by (nonlinear_arith)
        requires
            total > 0,
    ;
    assert(len * pos <= len * later) by (nonlinear_arith)
        requires
            pos <= later,
            len >= 0,
    ;
    assert((len * pos) / total <= (len * later) / total) by (nonlinear_arith)
        requires
            total > 0,
            len * pos <= len * later,
            0 <= len * pos,
    ;
}

/// A shuffled scope starts with the chosen track and holds every track of the scope as often
/// as the scope does.
pub proof fn law_a_shuffle_keeps_every_track(items: Seq<ItemView>, first: int, order: Seq<int>)
    requires
        0 <= first < items.len(),
        order::is_permutation(order, (items.len() - 1) as nat),
    ensures
        model::shuffled_scope(items, first, order)[0] == items[first],
        model::shuffled_scope(items, first, order).to_multiset() == items.to_multiset(),
{
    broadcast use vstd::seq_lib::group_to_multiset_ensures;

    let rest = items.remove(first);
    let behind = order::arranged(rest, order);
    order::lemma_arranged_keeps_items(rest, order);
    let one = seq![items[first]];
    vstd::seq_lib::lemma_multiset_commutative(one, behind);
    assert(one =~= Seq::empty().push(items[first]));
    assert(one.to_multiset() =~= vstd::multiset::Multiset::singleton(items[first]));
    assert((one + behind).to_multiset() =~= items.to_multiset());
}

} // verus!
