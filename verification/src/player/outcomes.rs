//! What each command, tick and answer comes to, told by the tracks, the place in the queue, the
//! state and the list of things to do, for every player there can be.

use vstd::prelude::*;

use crate::config::Repeat;
use crate::jellyfin::models;
use crate::jellyfin::models::{Item, ItemView};
use crate::player::model;
use crate::player::model::{PlayerView, Step};
use crate::player::queue::{Mode, QueueView};
use crate::player::sink::Fault;
use crate::player::{
    ActionView, Command, EventView, OpenError, PendingView, Refill, Reply, RequestView,
    SnapshotView, State,
};
use crate::time::Duration;

verus! {

/// Opening a track to play it.
pub open spec fn opening(item: ItemView) -> ActionView {
    ActionView::Ask(RequestView::OpenForPlayback { id: item.id, ext: model::extension_of(item) })
}

/// Announcing that a track is being opened.
pub open spec fn announcing(item: ItemView) -> ActionView {
    ActionView::Emit(EventView::Loading(Some(item)))
}

/// A player that goes on to the track at `index` of its queue: only its place in the queue
/// changes, and it waits for that track to be opened.
pub open spec fn moved_to(player: PlayerView, index: int, after: Step) -> bool {
    &&& 0 <= index < player.queue.items.len()
    &&& after.player == (PlayerView {
        queue: QueueView { cursor: index, ..player.queue },
        pending: PendingView::Open(15),
        ..player
    })
    &&& after.out.len() > 0
    &&& after.out.last() == opening(player.queue.items[index])
    &&& forall|i: int|
        0 <= i < after.out.len() - 1 ==> #[trigger] after.out[i] == announcing(
            player.queue.items[index],
        )
    &&& after.out.len() > 1
}

/// A player that has come to the end of its queue: it stops, and stays where it is.
pub open spec fn ended(player: PlayerView, after: Step) -> bool {
    &&& after.player == (PlayerView {
        state: State::Stopped,
        pending: PendingView::Nothing,
        ..player
    })
    &&& after.out.contains(ActionView::SinkStop)
    &&& after.out.last() == ActionView::Emit(EventView::TrackChanged(None))
}

/// The extension of a track's file is what its container is called, up to the first comma; it is
/// `bin` where the container is not known.
pub proof fn law_the_extension_is_the_first_container(item: ItemView)
    ensures
        match item.container {
            Some(container) => {
                let ext = model::extension_of(item);
                &&& ext.is_prefix_of(container)
                &&& !ext.contains(',')
                &&& ext.len() < container.len() ==> container[ext.len() as int] == ','
            },
            None => model::extension_of(item) == "bin"@,
        },
{
    if let Some(container) = item.container {
        lemma_find_char(container, ',', 0);
        let n = model::find_char(container, ',', 0);
        let ext = model::extension_of(item);
        assert(ext =~= container.take(n));
        assert forall|i: int| 0 <= i < ext.len() implies ext[i] != ',' by {
            assert(ext[i] == container[i]);
        }
    }
}

proof fn lemma_find_char(s: Seq<char>, c: char, i: int)
    requires
        0 <= i <= s.len(),
    ensures
        i <= model::find_char(s, c, i) <= s.len(),
        forall|k: int| i <= k < model::find_char(s, c, i) ==> s[k] != c,
        model::find_char(s, c, i) < s.len() ==> s[model::find_char(s, c, i)] == c,
    decreases s.len() - i,
{
    if i < s.len() && s[i] != c {
        lemma_find_char(s, c, i + 1);
    }
}

// ---------------------------------------------------------------------------------------
// Transport.
// ---------------------------------------------------------------------------------------

/// Play/pause pauses what plays and goes on with what is paused, and does nothing else; twice, it
/// gives back the player that was there.
pub proof fn law_play_pause_pauses_and_resumes(player: PlayerView, order: Seq<int>)
    requires
        player.wf(),
        player.idle(),
        player.state != State::Stopped,
    ensures
        ({
            let after = Step::start(player).handle(Command::PlayPause, order);
            let again = Step::start(after.player).handle(Command::PlayPause, order);
            &&& player.state == State::Playing ==> after.player == (PlayerView {
                state: State::Paused,
                ..player
            }) && after.out == seq![
                ActionView::SinkPause,
                ActionView::Emit(EventView::StateChanged(State::Paused)),
            ]
            &&& player.state == State::Paused ==> after.player == (PlayerView {
                state: State::Playing,
                ..player
            }) && after.out == seq![
                ActionView::SinkResume,
                ActionView::Emit(EventView::StateChanged(State::Playing)),
            ]
            &&& again.player == player
        }),
{
    reveal(Step::pause);
    reveal(Step::resume);
}

/// Play goes on with what is paused and leaves alone what plays; Pause pauses what plays and
/// leaves alone what does not.
pub proof fn law_play_and_pause_are_one_way(player: PlayerView, order: Seq<int>)
    requires
        player.wf(),
        player.idle(),
    ensures
        player.state == State::Playing ==> Step::start(player).handle(Command::Play, order)
            == Step::start(player),
        player.state == State::Paused ==> ({
            let after = Step::start(player).handle(Command::Play, order);
            &&& after.player == (PlayerView { state: State::Playing, ..player })
            &&& after.out == seq![
                ActionView::SinkResume,
                ActionView::Emit(EventView::StateChanged(State::Playing)),
            ]
        }),
        player.state == State::Playing ==> ({
            let after = Step::start(player).handle(Command::Pause, order);
            &&& after.player == (PlayerView { state: State::Paused, ..player })
            &&& after.out == seq![
                ActionView::SinkPause,
                ActionView::Emit(EventView::StateChanged(State::Paused)),
            ]
        }),
        player.state != State::Playing ==> Step::start(player).handle(Command::Pause, order)
            == Step::start(player),
{
    reveal(Step::pause);
    reveal(Step::resume);
}

/// From a stopped player, Play and play/pause alike open the track at the cursor where something
/// is there to be taken up, and ask for random tracks where not.
pub proof fn law_play_takes_up_or_starts_at_random(player: PlayerView, order: Seq<int>)
    requires
        player.wf(),
        player.idle(),
        player.state == State::Stopped,
    ensures
        ({
            let after = Step::start(player).handle(Command::Play, order);
            &&& after == Step::start(player).handle(Command::PlayPause, order)
            &&& if player.resume_pending && player.queue.items.len() > 0 {
                moved_to(player, player.queue.cursor, after)
            } else {
                after == Step::start(player).handle(Command::PlayRandom, order)
            }
        }),
{
    reveal(Step::resume_or_random);
    reveal(Step::start_current);
}

/// Random play announces that something is coming and asks for as many tracks as are wanted at a
/// time; until they come, the queue and what is heard stay as they are.
pub proof fn law_random_play_asks_for_a_batch(player: PlayerView, order: Seq<int>)
    requires
        player.wf(),
        player.idle(),
    ensures
        ({
            let after = Step::start(player).handle(Command::PlayRandom, order);
            &&& after.player == (PlayerView { pending: PendingView::Random, ..player })
            &&& after.out == seq![
                ActionView::Emit(EventView::Loading(None)),
                ActionView::Ask(RequestView::RandomTracks(player.random_batch)),
            ]
        }),
{
    reveal(Step::play_random);
}

/// Next opens the track behind the current one; at the end of the queue the first one where the
/// whole queue repeats, and it stops where not.
pub proof fn law_next_goes_one_track_on(player: PlayerView, order: Seq<int>)
    requires
        player.wf(),
        player.idle(),
        player.queue.mode == Mode::Random ==> player.queue.items.len() - player.queue.cursor > 5,
    ensures
        ({
            let after = Step::start(player).handle(Command::Next, order);
            let len = player.queue.items.len();
            if player.queue.cursor + 1 < len {
                moved_to(player, player.queue.cursor + 1, after)
            } else if player.repeat == Repeat::All && len > 0 {
                moved_to(player, 0, after)
            } else {
                ended(player, after)
            }
        }),
{
    lemma_advanced(player);
}

proof fn lemma_advanced(player: PlayerView)
    requires
        player.wf(),
        player.idle(),
        player.queue.mode == Mode::Random ==> player.queue.items.len() - player.queue.cursor > 5,
    ensures
        ({
            let after = Step::start(player).advance();
            let len = player.queue.items.len();
            if player.queue.cursor + 1 < len {
                moved_to(player, player.queue.cursor + 1, after)
            } else if player.repeat == Repeat::All && len > 0 {
                moved_to(player, 0, after)
            } else {
                ended(player, after)
            }
        }),
{
    reveal(Step::advance);
    reveal(Step::advance_now);
    reveal(Step::start_current);
    let after = Step::start(player).advance();
    if player.next() is None {
        assert(after.out[1] == ActionView::SinkStop);
    }
}

/// A random queue whose last five tracks have been reached asks for more before it goes on, and
/// announces what it would go on to.
pub proof fn law_next_tops_up_a_random_queue_first(player: PlayerView, order: Seq<int>)
    requires
        player.wf(),
        player.idle(),
        player.queue.mode == Mode::Random,
        player.queue.items.len() - player.queue.cursor <= 5,
    ensures
        ({
            let after = Step::start(player).handle(Command::Next, order);
            &&& after.player == (PlayerView {
                pending: PendingView::Refill(Refill::Advance),
                ..player
            })
            &&& after.out.len() == 2
            &&& after.out[0] is Emit && after.out[0]->Emit_0 is Loading
            &&& after.out[1] == ActionView::Ask(RequestView::RandomTracks(player.random_batch))
        }),
{
    reveal(Step::advance);
}

/// Previous opens the track before the current one, and the first one again from the first; an
/// empty queue has none.
pub proof fn law_previous_goes_one_track_back(player: PlayerView, order: Seq<int>)
    requires
        player.wf(),
        player.idle(),
    ensures
        ({
            let after = Step::start(player).handle(Command::Previous, order);
            if player.queue.items.len() == 0 {
                after == Step::start(player)
            } else if player.queue.cursor == 0 {
                moved_to(player, 0, after)
            } else {
                moved_to(player, player.queue.cursor - 1, after)
            }
        }),
{
    reveal(Step::start_current);
}

/// Previous takes Next back: away from the end of the queue, the two bring the player back to the
/// track it was on.
pub proof fn law_previous_takes_next_back(player: PlayerView, order: Seq<int>)
    requires
        player.wf(),
        player.idle(),
        player.queue.mode == Mode::Explicit,
        player.queue.cursor + 1 < player.queue.items.len(),
    ensures
        ({
            let on = Step::start(player).handle(Command::Next, order).player;
            let idle = PlayerView { pending: PendingView::Nothing, ..on };
            let back = Step::start(idle).handle(Command::Previous, order);
            moved_to(player, player.queue.cursor, back)
        }),
{
    law_next_goes_one_track_on(player, order);
    let on = Step::start(player).handle(Command::Next, order).player;
    let idle = PlayerView { pending: PendingView::Nothing, ..on };
    law_previous_goes_one_track_back(idle, order);
}

/// Stop silences the output, announces that nothing is heard and puts the position back to the
/// start; the queue and the place in it stay.
pub proof fn law_stop_silences_and_keeps_the_queue(player: PlayerView, order: Seq<int>)
    requires
        player.wf(),
        player.idle(),
    ensures
        ({
            let after = Step::start(player).handle(Command::Stop, order);
            let rewound = ActionView::Emit(EventView::Position(Duration { nanos: 0 }));
            &&& after.player == (PlayerView { state: State::Stopped, ..player })
            &&& after.out == if player.state == State::Stopped {
                seq![ActionView::SinkStop, rewound]
            } else {
                seq![
                    ActionView::SinkStop,
                    ActionView::Emit(EventView::StateChanged(State::Stopped)),
                    rewound,
                ]
            }
        }),
{
    let after = Step::start(player).handle(Command::Stop, order);
    let rewound = ActionView::Emit(EventView::Position(Duration { nanos: 0 }));
    if player.state == State::Stopped {
        assert(after.out =~= seq![ActionView::SinkStop, rewound]);
    } else {
        assert(after.out =~= seq![
            ActionView::SinkStop,
            ActionView::Emit(EventView::StateChanged(State::Stopped)),
            rewound,
        ]);
    }
}

/// Shutting down silences the output and quits.
pub proof fn law_shutting_down_silences_and_quits(player: PlayerView, order: Seq<int>)
    ensures
        Step::start(player).handle(Command::Shutdown, order) == (Step {
            player,
            out: seq![ActionView::SinkStop, ActionView::Quit],
        }),
{
    assert(Step::start(player).handle(Command::Shutdown, order).out =~= seq![
        ActionView::SinkStop,
        ActionView::Quit,
    ]);
}

/// Repeat steps from off to the whole queue to this track and back to off, or is set outright; a
/// change is remembered and announced, and what was cued up does not count any more. Setting it
/// to what it is does nothing.
pub proof fn law_repeat_is_set_remembered_and_announced(
    player: PlayerView,
    repeat: Repeat,
    order: Seq<int>,
)
    requires
        player.wf(),
        player.idle(),
    ensures
        ({
            let after = Step::start(player).handle(Command::SetRepeat(repeat), order);
            if repeat == player.repeat {
                after == Step::start(player)
            } else {
                &&& after.player == (PlayerView { repeat, queued_next: None, ..player })
                &&& after.out == seq![
                    ActionView::SaveRepeat(repeat),
                    ActionView::Emit(EventView::RepeatChanged(repeat)),
                ]
            }
        }),
        ({
            let follower = match player.repeat {
                Repeat::Off => Repeat::All,
                Repeat::All => Repeat::One,
                Repeat::One => Repeat::Off,
            };
            Step::start(player).handle(Command::CycleRepeat, order) == Step::start(player).handle(
                Command::SetRepeat(follower),
                order,
            )
        }),
{
    reveal(Step::set_repeat);
    if repeat != player.repeat {
        assert(Step::start(player).handle(Command::SetRepeat(repeat), order).out =~= seq![
            ActionView::SaveRepeat(repeat),
            ActionView::Emit(EventView::RepeatChanged(repeat)),
        ]);
    }
}

// ---------------------------------------------------------------------------------------
// Ticks and what they find.
// ---------------------------------------------------------------------------------------

/// A tick asks how far playback has got while something plays, and does nothing else.
pub proof fn law_a_tick_asks_how_far_playback_has_got(player: PlayerView)
    requires
        player.idle(),
    ensures
        player.state != State::Playing ==> Step::start(player).tick(None) == Step::start(player),
        player.state == State::Playing ==> Step::start(player).tick(None) == (Step {
            player: PlayerView { pending: PendingView::Poll, ..player },
            out: seq![ActionView::Ask(RequestView::PollSink)],
        }),
{
    if player.state == State::Playing {
        assert(Step::start(player).tick(None).out =~= seq![ActionView::Ask(RequestView::PollSink)]);
    }
}

/// A failure of the output is told in every state. Where it is about the track that plays, that
/// track is left as Next leaves it; where not, playback goes on.
pub proof fn law_a_failing_track_is_skipped(player: PlayerView, fault: Fault, order: Seq<int>)
    requires
        player.wf(),
        player.idle(),
    ensures
        ({
            let after = Step::start(player).tick(Some(fault));
            let told = ActionView::Emit(EventView::Failed(fault.message@));
            if player.state != State::Playing {
                after == (Step { player, out: seq![told] })
            } else if fault.affects_current {
                let next = Step::start(player).handle(Command::Next, order);
                after.player == next.player && after.out == seq![told] + next.out
            } else {
                after == (Step {
                    player: PlayerView { pending: PendingView::Poll, ..player },
                    out: seq![told, ActionView::Ask(RequestView::PollSink)],
                })
            }
        }),
{
    reveal(Step::advance);
    reveal(Step::advance_now);
    reveal(Step::start_current);
    let after = Step::start(player).tick(Some(fault));
    let told = ActionView::Emit(EventView::Failed(fault.message@));
    if player.state != State::Playing {
        assert(after.out =~= seq![told]);
    } else if fault.affects_current {
        let next = Step::start(player).handle(Command::Next, order);
        assert(after.out =~= seq![told] + next.out);
    } else {
        assert(after.out =~= seq![told, ActionView::Ask(RequestView::PollSink)]);
    }
}

/// When a track has run out with nothing behind it in the output, and it is not to be repeated by
/// itself, the next one of the queue is opened; at the end of the queue the first one where the
/// whole queue repeats, and playback stops where not.
pub proof fn law_a_track_that_ends_gives_way_to_the_next(player: PlayerView, position: Duration)
    requires
        player.wf(),
        player.pending is Poll,
        player.repeat != Repeat::One,
        player.queue.mode == Mode::Random ==> player.queue.items.len() - player.queue.cursor > 5,
    ensures
        ({
            let after = Step::start(player).resume_with(
                Reply::Polled { advances: 0, finished: true, position },
            );
            let len = player.queue.items.len();
            if player.queue.cursor + 1 < len {
                moved_to(player, player.queue.cursor + 1, after)
            } else if player.repeat == Repeat::All && len > 0 {
                moved_to(player, 0, after)
            } else {
                ended(player, after)
            }
        }),
{
    reveal(Step::polled);
    let idle = PlayerView { pending: PendingView::Nothing, ..player };
    assert(Step::start(idle).catch_up(0) == Step::start(idle));
    lemma_advanced(idle);
}

/// A track that ends is left exactly as Next leaves it, unless it repeats by itself.
pub proof fn law_the_end_of_a_track_is_like_next(
    player: PlayerView,
    position: Duration,
    order: Seq<int>,
)
    requires
        player.wf(),
        player.pending is Poll,
        player.repeat != Repeat::One,
    ensures
        ({
            let idle = PlayerView { pending: PendingView::Nothing, ..player };
            Step::start(player).resume_with(Reply::Polled { advances: 0, finished: true, position })
                == Step::start(idle).handle(Command::Next, order)
        }),
{
    reveal(Step::polled);
    let idle = PlayerView { pending: PendingView::Nothing, ..player };
    assert(Step::start(idle).catch_up(0) == Step::start(idle));
}

/// A track that repeats by itself is opened again when it has run out, and the queue does not
/// move.
pub proof fn law_a_repeated_track_is_opened_again(player: PlayerView, position: Duration)
    requires
        player.wf(),
        player.pending is Poll,
        player.repeat == Repeat::One,
        player.queue.items.len() > 0,
    ensures
        moved_to(
            player,
            player.queue.cursor,
            Step::start(player).resume_with(Reply::Polled { advances: 0, finished: true, position }),
        ),
{
    reveal(Step::polled);
    reveal(Step::start_current);
    let idle = Step::start(PlayerView { pending: PendingView::Nothing, ..player });
    assert(idle.catch_up(0) == idle);
}

/// Where the place in a queue of `len` tracks is after `n` more of them have been played through:
/// further on, and no further than the last; or around, where the whole queue repeats.
pub open spec fn played_through(cursor: int, n: int, len: int, wraps: bool) -> int {
    if wraps {
        (cursor + n) % len
    } else if cursor + n < len {
        cursor + n
    } else {
        len - 1
    }
}

proof fn lemma_followed(step: Step, n: nat)
    requires
        step.player.queue.wf(),
        step.player.queue.items.len() > 0,
    ensures
        ({
            let after = step.catch_up(n).player;
            let queue = step.player.queue;
            let wraps = step.player.repeat == Repeat::All;
            &&& after == (PlayerView {
                queue: QueueView {
                    cursor: played_through(
                        queue.cursor,
                        n as int,
                        queue.items.len() as int,
                        wraps,
                    ),
                    ..queue
                },
                queued_next: if n == 0 {
                    step.player.queued_next
                } else {
                    None
                },
                warming: if n == 0 {
                    step.player.warming
                } else {
                    None
                },
                ..step.player
            })
        }),
    decreases n,
{
    let queue = step.player.queue;
    let len = queue.items.len() as int;
    if n == 0 {
        vstd::arithmetic::div_mod::lemma_small_mod(queue.cursor as nat, len as nat);
    } else if step.player.next() is Some {
        let once = step.with_nothing_ahead().with_queue(
            queue.advanced(step.player.wraps()),
        ).emit(EventView::TrackChanged(step.player.next()));
        lemma_followed(once, (n - 1) as nat);
        let c = queue.cursor;
        if step.player.repeat == Repeat::All && c + 1 == len {
            vstd::arithmetic::div_mod::lemma_mod_add_multiples_vanish(n - 1, len);
            assert((len + (n - 1)) % len == (n - 1) % len);
        }
    }
}

/// The queue follows the output: as many tracks on as the output has moved by itself, to the last
/// one at most where the queue does not repeat, and around where it does. Of the player nothing
/// else changes but that what had been handed to the output counts as used up.
pub proof fn law_the_queue_follows_the_output(
    player: PlayerView,
    advances: usize,
    position: Duration,
)
    requires
        player.wf(),
        player.pending is Poll,
        player.queue.items.len() > 0,
        advances > 0,
    ensures
        ({
            let after = Step::start(player).resume_with(
                Reply::Polled { advances, finished: false, position },
            );
            after.player == (PlayerView {
                queue: QueueView {
                    cursor: played_through(
                        player.queue.cursor,
                        advances as int,
                        player.queue.items.len() as int,
                        player.repeat == Repeat::All,
                    ),
                    ..player.queue
                },
                queued_next: None,
                warming: None,
                pending: after.player.pending,
                ..player
            })
        }),
{
    reveal(Step::polled);
    reveal(Step::queue_next);
    reveal(Step::probe_next);
    let idle = Step::start(PlayerView { pending: PendingView::Nothing, ..player });
    lemma_followed(idle, advances as nat);
}

/// Each track that the output has moved to by itself is announced, the first of them first; then
/// the queue is remembered and the position told.
pub proof fn law_each_track_that_is_reached_is_announced(
    player: PlayerView,
    advances: usize,
    position: Duration,
)
    requires
        player.wf(),
        player.pending is Poll,
        player.queue.items.len() > 0,
        advances > 0,
        player.repeat == Repeat::All || player.queue.cursor + advances
            < player.queue.items.len(),
    ensures
        ({
            let after = Step::start(player).resume_with(
                Reply::Polled { advances, finished: false, position },
            );
            let items = player.queue.items;
            let len = items.len() as int;
            let wraps = player.repeat == Repeat::All;
            &&& after.out.len() >= advances + 2
            &&& forall|i: int|
                0 <= i < advances ==> #[trigger] after.out[i] == ActionView::Emit(
                    EventView::TrackChanged(
                        Some(items[played_through(player.queue.cursor, i + 1, len, wraps)]),
                    ),
                )
            &&& after.out[advances as int] == ActionView::Persist(after.player.queue.saved())
            &&& after.out[advances + 1] == ActionView::Emit(EventView::Position(position))
        }),
{
    reveal(Step::polled);
    reveal(Step::queue_next);
    reveal(Step::probe_next);
    let idle = Step::start(PlayerView { pending: PendingView::Nothing, ..player });
    lemma_followed(idle, advances as nat);
    lemma_follow_announces(idle, advances as nat);
    let after = Step::start(player).resume_with(
        Reply::Polled { advances, finished: false, position },
    );
    let items = player.queue.items;
    let len = items.len() as int;
    let wraps = player.repeat == Repeat::All;
    let followed = idle.catch_up(advances as nat);
    assert forall|i: int| 0 <= i < advances implies #[trigger] after.out[i] == ActionView::Emit(
        EventView::TrackChanged(
            Some(items[played_through(player.queue.cursor, i + 1, len, wraps)]),
        ),
    ) by {
        assert(after.out[i] == followed.out[idle.out.len() + i]);
    }
}

/// Where the output has moved by itself and has then run out, the queue follows it and goes on
/// from there as Next does, or opens the track it has come to again where that one repeats.
pub proof fn law_running_out_after_moving_goes_on_from_there(
    player: PlayerView,
    advances: usize,
    position: Duration,
    order: Seq<int>,
)
    requires
        player.wf(),
        player.pending is Poll,
        player.queue.items.len() > 0,
        advances > 0,
    ensures
        ({
            let after = Step::start(player).resume_with(
                Reply::Polled { advances, finished: true, position },
            );
            let followed = PlayerView {
                queue: QueueView {
                    cursor: played_through(
                        player.queue.cursor,
                        advances as int,
                        player.queue.items.len() as int,
                        player.repeat == Repeat::All,
                    ),
                    ..player.queue
                },
                queued_next: None,
                warming: None,
                pending: PendingView::Nothing,
                ..player
            };
            if player.repeat == Repeat::One {
                &&& after.player == (PlayerView { pending: PendingView::Open(15), ..followed })
                &&& after.out.last() == opening(followed.queue.items[followed.queue.cursor])
            } else {
                let next = Step::start(followed).handle(Command::Next, order);
                &&& after.player == next.player
                &&& after.out.last() == next.out.last()
            }
        }),
{
    reveal(Step::polled);
    reveal(Step::advance);
    reveal(Step::advance_now);
    reveal(Step::start_current);
    let idle = Step::start(PlayerView { pending: PendingView::Nothing, ..player });
    lemma_followed(idle, advances as nat);
    let len = player.queue.items.len() as int;
    vstd::arithmetic::div_mod::lemma_mod_bound(player.queue.cursor + advances, len);
}

proof fn lemma_follow_announces(step: Step, n: nat)
    requires
        step.player.queue.wf(),
        step.player.queue.items.len() > 0,
        step.player.repeat == Repeat::All || step.player.queue.cursor + n
            < step.player.queue.items.len(),
    ensures
        ({
            let after = step.catch_up(n);
            let queue = step.player.queue;
            let len = queue.items.len() as int;
            let wraps = step.player.repeat == Repeat::All;
            &&& after.out.len() == step.out.len() + n
            &&& after.out.take(step.out.len() as int) == step.out
            &&& forall|i: int|
                0 <= i < n ==> #[trigger] after.out[step.out.len() + i] == ActionView::Emit(
                    EventView::TrackChanged(
                        Some(queue.items[played_through(queue.cursor, i + 1, len, wraps)]),
                    ),
                )
        }),
    decreases n,
{
    let queue = step.player.queue;
    let len = queue.items.len() as int;
    let wraps = step.player.repeat == Repeat::All;
    let after = step.catch_up(n);
    if n == 0 {
        assert(after.out.take(step.out.len() as int) =~= step.out);
    } else {
        let once = step.with_nothing_ahead().with_queue(
            queue.advanced(step.player.wraps()),
        ).emit(EventView::TrackChanged(step.player.next()));
        let c = queue.cursor;
        let d = once.player.queue.cursor;
        lemma_follow_announces(once, (n - 1) as nat);
        assert(after == once.catch_up((n - 1) as nat));
        assert(once.out.take(step.out.len() as int) =~= step.out);
        assert(after.out.take(step.out.len() as int) =~= after.out.take(
            once.out.len() as int,
        ).take(step.out.len() as int));
        if c + 1 < len {
            vstd::arithmetic::div_mod::lemma_small_mod((c + 1) as nat, len as nat);
        } else {
            vstd::arithmetic::div_mod::lemma_mod_self_0(len);
        }
        assert forall|i: int| 0 <= i < n implies #[trigger] after.out[step.out.len() + i]
            == ActionView::Emit(
            EventView::TrackChanged(
                Some(queue.items[played_through(c, i + 1, len, wraps)]),
            ),
        ) by {
            if i == 0 {
                assert(after.out[step.out.len() as int] == after.out.take(
                    once.out.len() as int,
                )[step.out.len() as int]);
            } else {
                assert(after.out[once.out.len() + (i - 1)] == ActionView::Emit(
                    EventView::TrackChanged(
                        Some(queue.items[played_through(d, i, len, wraps)]),
                    ),
                ));
                if wraps && c + 1 == len {
                    vstd::arithmetic::div_mod::lemma_mod_add_multiples_vanish(i, len);
                }
            }
        }
    }
}

/// While nothing has moved and nothing has run out, a poll tells the position and leaves the
/// queue alone; with repeat of this track, or without fetching ahead, that is all.
pub proof fn law_a_poll_tells_the_position(player: PlayerView, position: Duration)
    requires
        player.wf(),
        player.pending is Poll,
    ensures
        ({
            let after = Step::start(player).resume_with(
                Reply::Polled { advances: 0, finished: false, position },
            );
            let told = ActionView::Emit(EventView::Position(position));
            let idle = PlayerView { pending: PendingView::Nothing, ..player };
            &&& after.out.len() > 0 && after.out[0] == told
            &&& after.player == (PlayerView { pending: after.player.pending, ..player })
            &&& !player.prefetch || player.repeat == Repeat::One ==> after == (Step {
                player: idle,
                out: seq![told],
            })
        }),
{
    reveal(Step::polled);
    reveal(Step::queue_next);
    reveal(Step::probe_next);
    let idle = Step::start(PlayerView { pending: PendingView::Nothing, ..player });
    assert(idle.catch_up(0) == idle);
    let after = Step::start(player).resume_with(
        Reply::Polled { advances: 0, finished: false, position },
    );
    if !player.prefetch || player.repeat == Repeat::One {
        assert(after.out =~= seq![ActionView::Emit(EventView::Position(position))]);
    }
}

// ---------------------------------------------------------------------------------------
// The track that follows.
// ---------------------------------------------------------------------------------------

/// Position in its queue of the track that plays after the current one.
pub open spec fn follower(player: PlayerView) -> Option<int> {
    let len = player.queue.items.len();
    if player.queue.cursor + 1 < len {
        Some(player.queue.cursor + 1)
    } else if player.repeat == Repeat::All && len > 0 {
        Some(0int)
    } else {
        None
    }
}

/// Every poll looks for the track that follows: whether it is on disk is asked, unless there is
/// none or it has been handed to the output. A random queue that runs low is topped up first.
pub proof fn law_the_following_track_is_looked_for(player: PlayerView, position: Duration)
    requires
        player.wf(),
        player.pending is Poll,
        player.prefetch,
        player.repeat != Repeat::One,
    ensures
        ({
            let after = Step::start(player).resume_with(
                Reply::Polled { advances: 0, finished: false, position },
            );
            let told = ActionView::Emit(EventView::Position(position));
            let low = player.queue.mode == Mode::Random && player.queue.items.len()
                - player.queue.cursor <= 5;
            if low {
                &&& after.out == seq![
                    told,
                    ActionView::Ask(RequestView::RandomTracks(player.random_batch)),
                ]
                &&& after.player.pending == PendingView::Refill(Refill::QueueNext)
            } else {
                match follower(player) {
                    Some(i) => {
                        let next = player.queue.items[i];
                        if player.queued_next == Some(next.id) {
                            after.out == seq![told] && after.player.idle()
                        } else {
                            &&& after.out == seq![
                                told,
                                ActionView::Ask(
                                    RequestView::ProbeCache {
                                        id: next.id,
                                        ext: model::extension_of(next),
                                    },
                                ),
                            ]
                            &&& after.player.pending == PendingView::Probe
                        }
                    },
                    None => after.out == seq![told] && after.player.idle(),
                }
            }
        }),
{
    reveal(Step::polled);
    reveal(Step::queue_next);
    reveal(Step::probe_next);
    let idle = Step::start(PlayerView { pending: PendingView::Nothing, ..player });
    assert(idle.catch_up(0) == idle);
    let after = Step::start(player).resume_with(
        Reply::Polled { advances: 0, finished: false, position },
    );
    let told = ActionView::Emit(EventView::Position(position));
    if after.out.len() == 1 {
        assert(after.out =~= seq![told]);
    } else {
        assert(after.out =~= seq![told, after.out[1]]);
    }
}

/// A track that follows and is not on disk is fetched, once. One that is on disk is opened when
/// the current one has ten seconds left at most, or nobody knows how many, and not before.
pub proof fn law_the_following_track_is_fetched_or_opened(
    player: PlayerView,
    cached: bool,
    reachable: bool,
    position: Duration,
)
    requires
        player.wf(),
        player.pending is Probe,
    ensures
        follower(player) is Some,
        ({
            let after = Step::start(player).resume_with(
                Reply::Probed { cached, reachable, position },
            );
            let idle = PlayerView { pending: PendingView::Nothing, ..player };
            let next = player.queue.items[follower(player).unwrap()];
            let ext = model::extension_of(next);
            let length = player.queue.items[player.queue.cursor].duration();
            if !cached {
                if reachable && player.warming != Some(next.id) {
                    &&& after.player == (PlayerView { warming: Some(next.id), ..idle })
                    &&& after.out == seq![ActionView::Warm { id: next.id, ext }]
                } else {
                    after == Step::start(idle)
                }
            } else if length is Some && length.unwrap().nanos > position.nanos + 10_000_000_000 {
                after == Step::start(idle)
            } else {
                &&& after.player == (PlayerView { pending: PendingView::OpenNext, ..player })
                &&& after.out == seq![
                    ActionView::Ask(RequestView::OpenComplete { id: next.id, ext }),
                ]
            }
        }),
{
    reveal(Step::probed);
    let after = Step::start(player).resume_with(Reply::Probed { cached, reachable, position });
    let next = player.queue.items[follower(player).unwrap()];
    let ext = model::extension_of(next);
    if after.out.len() == 1 {
        assert(after.out =~= seq![after.out[0]]);
    }
}

/// A following track that has been opened is handed to the output, and is remembered as handed
/// over once the output has taken it. Where either fails, nothing changes.
pub proof fn law_the_following_track_is_handed_to_the_output(
    player: PlayerView,
    len: Option<u64>,
    seekable: bool,
    err: OpenError,
    message: String,
)
    requires
        player.wf(),
    ensures
        ({
            let idle = PlayerView { pending: PendingView::Nothing, ..player };
            &&& player.pending is OpenNext ==> {
                &&& Step::start(player).resume_with(Reply::Complete(Ok((len, seekable)))) == (Step {
                    player: PlayerView { pending: PendingView::SetNext, ..player },
                    out: seq![ActionView::Ask(RequestView::QueueReader)],
                })
                &&& Step::start(player).resume_with(Reply::Complete(Err(err))) == Step::start(idle)
            }
            &&& player.pending is SetNext ==> {
                &&& follower(player) is Some
                &&& Step::start(player).resume_with(Reply::Taken(Ok(()))) == Step::start(
                    PlayerView {
                        queued_next: Some(player.queue.items[follower(player).unwrap()].id),
                        ..idle
                    },
                )
                &&& Step::start(player).resume_with(Reply::Taken(Err(message))) == Step::start(idle)
            }
        }),
{
    if player.pending is OpenNext {
        let after = Step::start(player).resume_with(Reply::Complete(Ok((len, seekable))));
        assert(after.out =~= seq![ActionView::Ask(RequestView::QueueReader)]);
    }
}

// ---------------------------------------------------------------------------------------
// Filling the queue.
// ---------------------------------------------------------------------------------------

/// A player whose queue has become these tracks, with the one at `index` being opened.
pub open spec fn plays(
    player: PlayerView,
    items: Seq<ItemView>,
    index: int,
    mode: Mode,
    after: Step,
) -> bool {
    moved_to(
        PlayerView { queue: QueueView { items, cursor: index, mode }, ..player },
        index,
        after,
    )
}

/// A list of tracks becomes the queue as it is and is started where it was chosen, or at its last
/// track; an empty list changes nothing.
pub proof fn law_a_list_is_played_from_where_it_was_chosen(
    player: PlayerView,
    items: Vec<Item>,
    start: usize,
    order: Seq<int>,
)
    requires
        player.wf(),
        player.idle(),
    ensures
        ({
            let after = Step::start(player).handle(Command::PlayItems { items, start }, order);
            let tracks = models::item_views(items@);
            if tracks.len() == 0 {
                after == Step::start(player)
            } else if start < tracks.len() {
                plays(player, tracks, start as int, Mode::Explicit, after)
            } else {
                plays(player, tracks, tracks.len() - 1, Mode::Explicit, after)
            }
        }),
{
    reveal(Step::start_queue);
    reveal(Step::start_current);
}

/// A track that is played out of its scope comes first and is opened; each track of the scope is
/// in the queue as often as it was in the scope.
pub proof fn law_a_chosen_track_leads_its_shuffled_scope(
    player: PlayerView,
    items: Vec<Item>,
    first: usize,
    order: Seq<int>,
)
    requires
        player.wf(),
        player.idle(),
        model::may_shuffle(Command::PlayShuffled { items, first }, order),
    ensures
        ({
            let after = Step::start(player).handle(Command::PlayShuffled { items, first }, order);
            let tracks = models::item_views(items@);
            if first >= tracks.len() {
                after == Step::start(player)
            } else {
                let queue = after.player.queue.items;
                &&& plays(player, queue, 0, Mode::Explicit, after)
                &&& queue.len() == tracks.len()
                &&& queue[0] == tracks[first as int]
                &&& queue.to_multiset() == tracks.to_multiset()
            }
        }),
{
    reveal(Step::start_queue);
    reveal(Step::start_current);
    let tracks = models::item_views(items@);
    if first < tracks.len() {
        crate::player::laws::law_a_shuffle_keeps_every_track(tracks, first as int, order);
    }
}

/// An album is asked for by its id, and so are the albums of an artist; until they are there,
/// nothing else changes.
pub proof fn law_albums_and_artists_are_asked_for(
    player: PlayerView,
    id: String,
    order: Seq<int>,
)
    ensures
        Step::start(player).handle(Command::PlayAlbum(id), order) == (Step {
            player: PlayerView { pending: PendingView::Album, ..player },
            out: seq![ActionView::Ask(RequestView::AlbumTracks(id@))],
        }),
        Step::start(player).handle(Command::PlayArtist(id), order) == (Step {
            player: PlayerView { pending: PendingView::ArtistAlbums, ..player },
            out: seq![ActionView::Ask(RequestView::ArtistAlbums(id@))],
        }),
{
    assert(Step::start(player).handle(Command::PlayAlbum(id), order).out =~= seq![
        ActionView::Ask(RequestView::AlbumTracks(id@)),
    ]);
    assert(Step::start(player).handle(Command::PlayArtist(id), order).out =~= seq![
        ActionView::Ask(RequestView::ArtistAlbums(id@)),
    ]);
}

/// The tracks that come for an album become the queue and are played from the first; those that
/// come for random play too, and the queue then feeds itself. Random play without tracks is a
/// failure, and leaves the queue.
pub proof fn law_tracks_that_come_are_played_from_the_first(player: PlayerView, tracks: Vec<Item>)
    requires
        player.wf(),
    ensures
        ({
            let after = Step::start(player).resume_with(Reply::Tracks(Ok(tracks)));
            let items = models::item_views(tracks@);
            &&& player.pending is Album && items.len() > 0 ==> plays(
                player,
                items,
                0,
                Mode::Explicit,
                after,
            )
            &&& player.pending is Random && items.len() > 0 ==> plays(
                player,
                items,
                0,
                Mode::Random,
                after,
            )
            &&& player.pending is Random && items.len() == 0 ==> after == (Step {
                player: PlayerView { pending: PendingView::Nothing, ..player },
                out: seq![ActionView::Emit(EventView::Failed("server returned no tracks"@))],
            })
        }),
{
    reveal(Step::start_queue);
    reveal(Step::start_current);
    let after = Step::start(player).resume_with(Reply::Tracks(Ok(tracks)));
    if player.pending is Random && tracks@.len() == 0 {
        assert(after.out =~= seq![ActionView::Emit(EventView::Failed("server returned no tracks"@))]);
    }
}

/// An artist is played album by album: each album is asked for in turn, its tracks go behind those
/// that are there, and when the last has come all of them are played from the first.
pub proof fn law_an_artist_is_played_album_by_album(player: PlayerView, more: Vec<Item>)
    requires
        player.wf(),
    ensures
        ({
            let after = Step::start(player).resume_with(Reply::Tracks(Ok(more)));
            let came = models::item_views(more@);
            &&& player.pending is ArtistAlbums && came.len() > 0 ==> after == (Step {
                player: PlayerView {
                    pending: PendingView::ArtistTracks { tracks: Seq::empty(), albums: came },
                    ..player
                },
                out: seq![ActionView::Ask(RequestView::AlbumTracks(came[0].id))],
            })
            &&& player.pending matches PendingView::ArtistTracks { tracks, albums } ==> {
                let all = tracks + came;
                &&& albums.len() > 1 ==> {
                    &&& after.out == seq![
                        ActionView::Ask(RequestView::AlbumTracks(albums[1].id)),
                    ]
                    &&& after.player == (PlayerView {
                        pending: PendingView::ArtistTracks {
                            tracks: all,
                            albums: albums.subrange(1, albums.len() as int),
                        },
                        ..player
                    })
                }
                &&& albums.len() == 1 && all.len() > 0 ==> plays(
                    player,
                    all,
                    0,
                    Mode::Explicit,
                    after,
                )
            }
        }),
{
    reveal(Step::collect);
    reveal(Step::start_queue);
    reveal(Step::start_current);
    let after = Step::start(player).resume_with(Reply::Tracks(Ok(more)));
    let came = models::item_views(more@);
    if player.pending is ArtistAlbums && came.len() > 0 {
        assert(after.out =~= seq![ActionView::Ask(RequestView::AlbumTracks(came[0].id))]);
    }
    if let PendingView::ArtistTracks { tracks, albums } = player.pending {
        assert(albums.skip(1) =~= albums.subrange(1, albums.len() as int));
        if albums.len() > 1 {
            assert(after.out =~= seq![ActionView::Ask(RequestView::AlbumTracks(albums[1].id))]);
        }
    }
}

/// A request for tracks that failed is told, with what was being fetched, and changes nothing.
pub proof fn law_tracks_that_do_not_come_change_nothing(player: PlayerView, message: String)
    requires
        player.wf(),
    ensures
        ({
            let after = Step::start(player).resume_with(Reply::Tracks(Err(message)));
            let prefix = match player.pending {
                PendingView::Random => Some("fetching random tracks"@ + ": "@),
                PendingView::Album => Some("fetching album tracks"@ + ": "@),
                PendingView::ArtistAlbums => Some("fetching artist albums"@ + ": "@),
                PendingView::ArtistTracks { tracks, albums } => Some(Seq::empty()),
                PendingView::Mix => Some("fetching an instant mix"@ + ": "@),
                _ => None,
            };
            prefix is Some ==> after == (Step {
                player: PlayerView { pending: PendingView::Nothing, ..player },
                out: seq![ActionView::Emit(EventView::Failed(prefix.unwrap() + message@))],
            })
        }),
{
    let after = Step::start(player).resume_with(Reply::Tracks(Err(message)));
    assert(Seq::<char>::empty() + message@ =~= message@);
    if after.out.len() == 1 {
        assert(after.out =~= seq![after.out[0]]);
    }
}

/// Adding to the queue puts all the tracks behind everything else, in their order; adding to an
/// empty queue makes them the queue, shown from the first and not started. Nothing is heard
/// differently, and the new queue is remembered and announced. No tracks change nothing.
pub proof fn law_adding_puts_every_track_at_the_end(
    player: PlayerView,
    items: Vec<Item>,
    order: Seq<int>,
)
    requires
        player.wf(),
        player.idle(),
    ensures
        ({
            let after = Step::start(player).handle(Command::QueueLast { items }, order);
            let tracks = models::item_views(items@);
            let queue = after.player.queue;
            if tracks.len() == 0 {
                after == Step::start(player)
            } else if player.queue.items.len() == 0 {
                shown(player, tracks, after)
            } else {
                &&& queue == (QueueView { items: player.queue.items + tracks, ..player.queue })
                &&& added(player, after)
            }
        }),
{
    reveal(Step::enqueue);
    let after = Step::start(player).handle(Command::QueueLast { items }, order);
    lemma_queue_announced(player, after);
    if items@.len() > 0 {
        lemma_shown(player, models::item_views(items@), after);
    }
}

/// Tracks that became the queue without being started.
pub open spec fn shown(player: PlayerView, tracks: Seq<ItemView>, after: Step) -> bool {
    let queue = QueueView { items: tracks, cursor: 0, mode: Mode::Explicit };
    &&& after.player == (PlayerView { queue, resume_pending: true, ..player })
    &&& after.out == seq![
        ActionView::Emit(EventView::TrackChanged(Some(tracks[0]))),
        ActionView::Persist(queue.saved()),
        ActionView::Emit(EventView::QueueChanged),
    ]
}

/// A queue that changed without anything else changing, remembered and announced.
pub open spec fn added(player: PlayerView, after: Step) -> bool {
    &&& after.player == (PlayerView { queue: after.player.queue, ..player })
    &&& after.out == seq![
        ActionView::Persist(after.player.queue.saved()),
        ActionView::Emit(EventView::QueueChanged),
    ]
}

proof fn lemma_queue_announced(player: PlayerView, after: Step)
    ensures
        after == Step::start(player).with_queue(after.player.queue).persist().emit(
            EventView::QueueChanged,
        ) ==> added(player, after),
{
    let whole = Step::start(player).with_queue(after.player.queue).persist().emit(
        EventView::QueueChanged,
    );
    assert(whole.out =~= seq![
        ActionView::Persist(after.player.queue.saved()),
        ActionView::Emit(EventView::QueueChanged),
    ]);
}

proof fn lemma_shown(player: PlayerView, tracks: Seq<ItemView>, after: Step)
    requires
        tracks.len() > 0,
    ensures
        ({
            let queue = QueueView::of(tracks, 0, Mode::Explicit);
            after == Step::start(player).with_queue(queue).with_resume_pending(true).emit(
                EventView::TrackChanged(queue.current()),
            ).persist().emit(EventView::QueueChanged) ==> shown(player, tracks, after)
        }),
{
    let queue = QueueView::of(tracks, 0, Mode::Explicit);
    let whole = Step::start(player).with_queue(queue).with_resume_pending(true).emit(
        EventView::TrackChanged(queue.current()),
    ).persist().emit(EventView::QueueChanged);
    assert(whole.out =~= seq![
        ActionView::Emit(EventView::TrackChanged(Some(tracks[0]))),
        ActionView::Persist(queue.saved()),
        ActionView::Emit(EventView::QueueChanged),
    ]);
}

/// "Play next" puts all the tracks, in their order, directly behind the current one; behind the
/// one after it where the output has been handed that one. Everything that was there keeps its
/// order. Into an empty queue it adds like any other adding.
pub proof fn law_play_next_puts_every_track_behind_the_current(
    player: PlayerView,
    items: Vec<Item>,
    order: Seq<int>,
)
    requires
        player.wf(),
        player.idle(),
    ensures
        ({
            let after = Step::start(player).handle(Command::QueueNext { items }, order);
            let tracks = models::item_views(items@);
            let was = player.queue.items;
            let len = was.len() as int;
            let behind = player.queue.cursor + if player.queued_next is Some {
                2int
            } else {
                1
            };
            let at = if behind < len {
                behind
            } else {
                len
            };
            if tracks.len() == 0 {
                after == Step::start(player)
            } else if len == 0 {
                shown(player, tracks, after)
            } else {
                &&& after.player.queue == (QueueView {
                    items: was.subrange(0, at) + tracks + was.subrange(at, len),
                    ..player.queue
                })
                &&& added(player, after)
            }
        }),
{
    reveal(Step::enqueue);
    let after = Step::start(player).handle(Command::QueueNext { items }, order);
    lemma_queue_announced(player, after);
    if items@.len() > 0 {
        lemma_shown(player, models::item_views(items@), after);
    }
    let was = player.queue.items;
    assert forall|at: int| 0 <= at <= was.len() implies #[trigger] was.take(at) == was.subrange(
        0,
        at,
    ) && was.skip(at) == was.subrange(at, was.len() as int) by {
        assert(was.take(at) =~= was.subrange(0, at));
        assert(was.skip(at) =~= was.subrange(at, was.len() as int));
    }
}

/// Removing takes exactly the named track out of the queue, and the current one stays the current
/// one. The current track, and the one that the output has been handed, are refused with a word of
/// why; a name that does not fit the place changes nothing.
pub proof fn law_removing_takes_out_the_named_track(
    player: PlayerView,
    index: usize,
    id: String,
    order: Seq<int>,
)
    requires
        player.wf(),
        player.idle(),
    ensures
        ({
            let after = Step::start(player).handle(Command::Remove { index, id }, order);
            let was = player.queue.items;
            let at = index as int;
            if !(at < was.len() && was[at].id == id@) {
                after == Step::start(player)
            } else if at == player.queue.cursor {
                after == (Step {
                    player,
                    out: seq![
                        ActionView::Emit(EventView::Failed("that track is playing right now"@)),
                    ],
                })
            } else if player.queued_next == Some(id@) {
                after == (Step {
                    player,
                    out: seq![
                        ActionView::Emit(EventView::Failed("that track is already cued up next"@)),
                    ],
                })
            } else {
                &&& after.player.queue == (QueueView {
                    items: was.subrange(0, at) + was.subrange(at + 1, was.len() as int),
                    cursor: if at < player.queue.cursor {
                        player.queue.cursor - 1
                    } else {
                        player.queue.cursor
                    },
                    ..player.queue
                })
                &&& added(player, after)
            }
        }),
{
    reveal(Step::remove);
    let after = Step::start(player).handle(Command::Remove { index, id }, order);
    let was = player.queue.items;
    let at = index as int;
    lemma_queue_announced(player, after);
    if after.out.len() == 1 {
        assert(after.out =~= seq![after.out[0]]);
    }
    if at < was.len() {
        assert(was.remove(at) =~= was.subrange(0, at) + was.subrange(at + 1, was.len() as int));
    }
}

/// A track that was added to the end can be removed again, and the player is then what it was.
pub proof fn law_removing_takes_adding_back(
    player: PlayerView,
    items: Vec<Item>,
    index: usize,
    id: String,
    order: Seq<int>,
)
    requires
        player.wf(),
        player.idle(),
        player.queue.items.len() > 0,
        items@.len() == 1,
        index == player.queue.items.len(),
        id@ == items@[0]@.id,
        player.queued_next != Some(id@),
    ensures
        ({
            let more = Step::start(player).handle(Command::QueueLast { items }, order).player;
            Step::start(more).handle(Command::Remove { index, id }, order).player == player
        }),
{
    law_adding_puts_every_track_at_the_end(player, items, order);
    let more = Step::start(player).handle(Command::QueueLast { items }, order).player;
    law_removing_takes_out_the_named_track(more, index, id, order);
    let less = Step::start(more).handle(Command::Remove { index, id }, order).player;
    assert(models::item_views(items@)[0] == items@[0]@);
    assert(less.queue.items =~= player.queue.items);
}

/// An instant mix is asked for with the current track; without one it does nothing.
pub proof fn law_a_mix_is_asked_for_with_the_current_track(
    player: PlayerView,
    limit: u32,
    order: Seq<int>,
)
    requires
        player.wf(),
        player.idle(),
    ensures
        ({
            let after = Step::start(player).handle(Command::InstantMix { limit }, order);
            if player.queue.items.len() == 0 {
                after == Step::start(player)
            } else {
                after == (Step {
                    player: PlayerView { pending: PendingView::Mix, ..player },
                    out: seq![
                        ActionView::Ask(
                            RequestView::InstantMix {
                                id: player.queue.items[player.queue.cursor].id,
                                limit,
                            },
                        ),
                    ],
                })
            }
        }),
{
    let after = Step::start(player).handle(Command::InstantMix { limit }, order);
    if player.queue.items.len() > 0 {
        assert(after.out =~= seq![after.out[0]]);
    }
}

/// The tracks of a mix go behind the current one in their order, without the track they were asked
/// for, and in place of everything that was to come; only what the output has been handed stays.
/// The queue does not feed itself any more, and nothing else changes. A mix of nothing else is a
/// failure.
pub proof fn law_a_mix_takes_the_place_of_what_was_to_come(player: PlayerView, tracks: Vec<Item>)
    requires
        player.wf(),
        player.pending is Mix,
        player.queue.items.len() > 0,
    ensures
        ({
            let after = Step::start(player).resume_with(Reply::Tracks(Ok(tracks)));
            let idle = PlayerView { pending: PendingView::Nothing, ..player };
            let was = player.queue.items;
            let seed = was[player.queue.cursor].id;
            let mix = models::item_views(tracks@).filter(|item: ItemView| item.id != seed);
            let kept = if player.queued_next is Some && player.queue.cursor + 1 < was.len() {
                player.queue.cursor + 2
            } else {
                player.queue.cursor + 1
            };
            if mix.len() == 0 {
                after == (Step {
                    player: idle,
                    out: seq![ActionView::Emit(EventView::Failed("server returned no tracks"@))],
                })
            } else {
                &&& after.player.queue == (QueueView {
                    items: was.subrange(0, kept) + mix,
                    cursor: player.queue.cursor,
                    mode: Mode::Explicit,
                })
                &&& added(idle, after)
            }
        }),
{
    reveal(Step::mixed);
    let after = Step::start(player).resume_with(Reply::Tracks(Ok(tracks)));
    let idle = PlayerView { pending: PendingView::Nothing, ..player };
    let was = player.queue.items;
    let seed = was[player.queue.cursor].id;
    let mix = models::item_views(tracks@).filter(|item: ItemView| item.id != seed);
    assert(mix =~= model::others(models::item_views(tracks@), seed));
    lemma_queue_announced(idle, after);
    if after.out.len() == 1 {
        assert(after.out =~= seq![after.out[0]]);
    }
}

/// Tracks that come for a random queue go behind everything else and are remembered, and then the
/// queue goes on to its next track, or looks for the one that follows, as it was about to. Where
/// none come, it goes on with what it has.
pub proof fn law_a_refill_goes_to_the_end(player: PlayerView, result: Result<Vec<Item>, String>)
    requires
        player.wf(),
        player.pending is Refill,
    ensures
        ({
            let after = Step::start(player).resume_with(Reply::Tracks(result));
            let items = match result {
                Ok(more) => player.queue.items + models::item_views(more@),
                Err(_) => player.queue.items,
            };
            let filled = PlayerView {
                queue: QueueView { items, ..player.queue },
                pending: PendingView::Nothing,
                ..player
            };
            let saved = match result {
                Ok(_) => seq![ActionView::Persist(filled.queue.saved())],
                Err(_) => Seq::empty(),
            };
            &&& saved.is_prefix_of(after.out)
            &&& player.pending == PendingView::Refill(Refill::Advance) ==> match follower(filled) {
                Some(i) => {
                    &&& after.player == (PlayerView {
                        queue: QueueView { cursor: i, ..filled.queue },
                        pending: PendingView::Open(15),
                        ..filled
                    })
                    &&& after.out == saved + seq![announcing(items[i]), opening(items[i])]
                },
                None => ended(filled, after),
            }
            &&& player.pending == PendingView::Refill(Refill::QueueNext) ==> match follower(
                filled,
            ) {
                Some(i) => if filled.queued_next == Some(items[i].id) {
                    after == (Step { player: filled, out: saved })
                } else {
                    after == (Step {
                        player: PlayerView { pending: PendingView::Probe, ..filled },
                        out: saved + seq![
                            ActionView::Ask(
                                RequestView::ProbeCache {
                                    id: items[i].id,
                                    ext: model::extension_of(items[i]),
                                },
                            ),
                        ],
                    })
                },
                None => after == (Step { player: filled, out: saved }),
            }
        }),
{
    reveal(Step::refilled);
    reveal(Step::advance_now);
    reveal(Step::probe_next);
    reveal(Step::start_current);
    let after = Step::start(player).resume_with(Reply::Tracks(result));
    let items = match result {
        Ok(more) => player.queue.items + models::item_views(more@),
        Err(_) => player.queue.items,
    };
    let filled = PlayerView {
        queue: QueueView { items, ..player.queue },
        pending: PendingView::Nothing,
        ..player
    };
    let saved = match result {
        Ok(_) => seq![ActionView::Persist(filled.queue.saved())],
        Err(_) => Seq::empty(),
    };
    assert(saved.is_prefix_of(after.out));
    match follower(filled) {
        Some(i) => {
            if player.pending == PendingView::Refill(Refill::Advance) {
                assert(after.out =~= saved + seq![announcing(items[i]), opening(items[i])]);
            } else if filled.queued_next == Some(items[i].id) {
                assert(after.out =~= saved);
            } else {
                assert(after.out =~= saved + seq![
                    ActionView::Ask(
                        RequestView::ProbeCache {
                            id: items[i].id,
                            ext: model::extension_of(items[i]),
                        },
                    ),
                ]);
            }
        },
        None => {
            if player.pending == PendingView::Refill(Refill::Advance) {
                assert(after.out[saved.len() as int] == ActionView::SinkStop);
            } else {
                assert(after.out =~= saved);
            }
        },
    }
}

/// The queue of the last session is asked for only while there is none; what comes is shown at the
/// track it was on, and not started. Nothing usable changes nothing.
pub proof fn law_the_last_session_is_shown_and_not_started(
    player: PlayerView,
    stored: Option<crate::player::persist::Saved>,
    order: Seq<int>,
)
    requires
        player.wf(),
    ensures
        player.idle() && player.queue.items.len() == 0 ==> Step::start(player).handle(
            Command::Restore,
            order,
        ) == (Step {
            player: PlayerView { pending: PendingView::Restore, ..player },
            out: seq![ActionView::Ask(RequestView::LoadQueue)],
        }),
        player.pending is Restore ==> ({
            let after = Step::start(player).resume_with(Reply::Stored(stored));
            let idle = PlayerView { pending: PendingView::Nothing, ..player };
            if stored is None || stored.unwrap()@.items.len() == 0 {
                after == Step::start(idle)
            } else {
                let saved = stored.unwrap()@;
                let cursor = if saved.cursor < saved.items.len() {
                    saved.cursor
                } else {
                    saved.items.len() - 1
                };
                after == (Step {
                    player: PlayerView {
                        queue: QueueView { items: saved.items, cursor, mode: saved.mode },
                        resume_pending: true,
                        ..idle
                    },
                    out: seq![
                        ActionView::Emit(EventView::TrackChanged(Some(saved.items[cursor]))),
                    ],
                })
            }
        }),
{
    reveal(Step::restored);
    if player.idle() && player.queue.items.len() == 0 {
        assert(Step::start(player).handle(Command::Restore, order).out =~= seq![
            ActionView::Ask(RequestView::LoadQueue),
        ]);
    }
    if player.pending is Restore {
        let after = Step::start(player).resume_with(Reply::Stored(stored));
        if after.out.len() == 1 {
            assert(after.out =~= seq![after.out[0]]);
        }
    }
}

/// A snapshot shows the whole queue, the place in it and the repeat setting, and changes nothing;
/// neither does a new limit on the cache, which is passed on.
pub proof fn law_a_snapshot_shows_the_queue_as_it_is(
    player: PlayerView,
    bytes: u64,
    order: Seq<int>,
)
    ensures
        Step::start(player).handle(Command::Snapshot, order) == (Step {
            player,
            out: seq![
                ActionView::Answer(
                    SnapshotView {
                        items: player.queue.items,
                        cursor: player.queue.cursor,
                        repeat: player.repeat,
                    },
                ),
            ],
        }),
        Step::start(player).handle(Command::SetCacheLimit(bytes), order) == (Step {
            player,
            out: seq![ActionView::LimitCache(bytes)],
        }),
{
    let shown = Step::start(player).handle(Command::Snapshot, order);
    assert(shown.out =~= seq![shown.out[0]]);
    assert(Step::start(player).handle(Command::SetCacheLimit(bytes), order).out =~= seq![
        ActionView::LimitCache(bytes),
    ]);
}

// ---------------------------------------------------------------------------------------
// Opening a track.
// ---------------------------------------------------------------------------------------

/// A track that has been opened is given to the output; once the output has it, it is announced as
/// the current one, is what plays, and is remembered. What had been handed over before does not
/// count any more, and neither does a session that was to be taken up.
pub proof fn law_an_opened_track_is_played(player: PlayerView, message: String)
    requires
        player.wf(),
    ensures
        player.pending is Open ==> Step::start(player).resume_with(Reply::Opened(Ok(()))) == (Step {
            player: PlayerView { pending: PendingView::Play, ..player },
            out: seq![ActionView::Ask(RequestView::PlayReader)],
        }),
        player.pending is Play ==> ({
            let after = Step::start(player).resume_with(Reply::Taken(Ok(())));
            let track = player.queue.items[player.queue.cursor];
            &&& after.player == (PlayerView {
                state: State::Playing,
                queued_next: None,
                warming: None,
                resume_pending: false,
                pending: PendingView::Nothing,
                ..player
            })
            &&& after.out[0] == ActionView::Emit(EventView::TrackChanged(Some(track)))
            &&& after.out.last() == ActionView::Persist(player.queue.saved())
            &&& after.out.len() == if player.state == State::Playing {
                2int
            } else {
                3
            }
            &&& player.state != State::Playing ==> after.out[1] == ActionView::Emit(
                EventView::StateChanged(State::Playing),
            )
        }),
        player.pending is Play ==> Step::start(player).resume_with(Reply::Taken(Err(message)))
            == (Step {
            player: PlayerView { pending: PendingView::Nothing, ..player },
            out: seq![
                ActionView::Emit(EventView::Failed("starting playback"@ + ": "@ + message@)),
            ],
        }),
{
    reveal(Step::started);
    if player.pending is Open {
        assert(Step::start(player).resume_with(Reply::Opened(Ok(()))).out =~= seq![
            ActionView::Ask(RequestView::PlayReader),
        ]);
    }
    if player.pending is Play {
        let failed = Step::start(player).resume_with(Reply::Taken(Err(message)));
        assert(failed.out =~= seq![failed.out[0]]);
    }
}

/// A track that cannot be opened, and that the server has not lost, stops the player on it: the
/// output is silenced, the failure is told, the queue stays, and it is there to be taken up.
pub proof fn law_a_track_that_cannot_be_opened_stops_the_player_on_it(
    player: PlayerView,
    err: OpenError,
)
    requires
        player.wf(),
        player.pending is Open,
        err is Stream ==> !err->gone,
    ensures
        ({
            let after = Step::start(player).resume_with(Reply::Opened(Err(err)));
            let name = player.queue.items[player.queue.cursor].name;
            &&& after.player == (PlayerView {
                state: State::Stopped,
                resume_pending: true,
                pending: PendingView::Nothing,
                ..player
            })
            &&& after.out[0] == ActionView::SinkStop
            &&& after.out.last() == ActionView::Emit(
                EventView::Failed(
                    match err {
                        OpenError::Address(message) => message@,
                        OpenError::Stream { message, gone } => "opening stream for "@ + name
                            + ": "@ + message@,
                    },
                ),
            )
        }),
{
    reveal(Step::stall);
}

/// Where the first track with another id stands, at or behind `from`.
pub open spec fn first_other(items: Seq<ItemView>, id: Seq<char>, from: int) -> Option<int>
    decreases items.len() - from,
{
    if from < 0 || from >= items.len() {
        None
    } else if items[from].id != id {
        Some(from)
    } else {
        first_other(items, id, from + 1)
    }
}

proof fn lemma_first_other(items: Seq<ItemView>, id: Seq<char>, from: int)
    requires
        0 <= from <= items.len(),
    ensures
        ({
            let left = items.skip(from).filter(|item: ItemView| item.id != id);
            match first_other(items, id, from) {
                Some(i) => from <= i < items.len() && left.len() > 0 && left[0] == items[i],
                None => left.len() == 0,
            }
        }),
    decreases items.len() - from,
{
    let keep = |item: ItemView| item.id != id;
    let rest = items.skip(from);
    if from < items.len() {
        let head = seq![items[from]];
        let tail = items.skip(from + 1);
        assert(rest =~= head + tail);
        Seq::filter_distributes_over_add(head, tail, keep);
        lemma_first_other(items, id, from + 1);
        reveal(Seq::filter);
        assert(head.drop_last() =~= Seq::<ItemView>::empty());
        assert(head.drop_last().filter(keep) =~= Seq::<ItemView>::empty());
        if items[from].id != id {
            assert(head.filter(keep) =~= head);
        } else {
            assert(head.filter(keep) =~= Seq::<ItemView>::empty());
        }
    } else {
        reveal(Seq::filter);
        assert(rest =~= Seq::<ItemView>::empty());
    }
}

/// A track that the server has lost is told of by its name, leaves the queue, and the first other
/// track behind it is opened, as long as not too many in a row have been lost. Where none is left
/// behind it, the player stops, unless the whole queue repeats.
pub proof fn law_a_lost_track_gives_way_to_the_next(player: PlayerView, message: String)
    requires
        player.wf(),
        player.pending is Open,
    ensures
        ({
            let after = Step::start(player).resume_with(
                Reply::Opened(Err(OpenError::Stream { message, gone: true })),
            );
            let was = player.queue.items;
            let lost = was[player.queue.cursor];
            let left = after.player.queue;
            let behind = first_other(was, lost.id, player.queue.cursor + 1);
            let tries = player.pending->Open_0;
            &&& after.out[0] == ActionView::Emit(
                EventView::Failed(lost.name + " is no longer on the server, skipping it"@),
            )
            &&& after.out[1] == ActionView::Persist(left.saved())
            &&& after.out[2] == ActionView::Emit(EventView::QueueChanged)
            &&& behind is Some ==> left.current() == Some(was[behind.unwrap()])
            &&& behind is Some && tries > 0 ==> {
                &&& after.out.last() == opening(was[behind.unwrap()])
                &&& after.player.pending == PendingView::Open((tries - 1) as nat)
            }
            &&& behind is Some && tries == 0 ==> {
                &&& after.player.state == State::Stopped
                &&& after.player.idle()
                &&& after.out.last() is Emit && after.out.last()->Emit_0 is Failed
            }
            &&& behind is None && player.repeat != Repeat::All ==> {
                &&& after.player.state == State::Stopped
                &&& after.player.idle()
                &&& after.out.contains(ActionView::SinkStop)
                &&& after.out.last() == ActionView::Emit(EventView::TrackChanged(None))
            }
        }),
{
    reveal(Step::drop_missing);
    reveal(Step::start_current);
    let after = Step::start(player).resume_with(
        Reply::Opened(Err(OpenError::Stream { message, gone: true })),
    );
    let queue = player.queue;
    let lost = queue.items[queue.cursor];
    lemma_first_other(queue.items, lost.id, queue.cursor + 1);
    let rest = queue.items.skip(queue.cursor + 1).filter(|item: ItemView| item.id != lost.id);
    assert(rest =~= model::others(queue.items.skip(queue.cursor + 1), lost.id));
    if first_other(queue.items, lost.id, queue.cursor + 1) is None && player.repeat
        != Repeat::All {
        assert(after.out[3] == ActionView::SinkStop);
    }
}

// ---------------------------------------------------------------------------------------
// Seeking.
// ---------------------------------------------------------------------------------------

/// A seek asks for the complete file of the current track and keeps the position it was asked for;
/// without a track it does nothing.
pub proof fn law_a_seek_asks_for_the_whole_file(player: PlayerView, pos: Duration, order: Seq<int>)
    requires
        player.wf(),
        player.idle(),
    ensures
        ({
            let after = Step::start(player).handle(Command::Seek(pos), order);
            let track = player.queue.items[player.queue.cursor];
            if player.queue.items.len() == 0 {
                after == Step::start(player)
            } else {
                after == (Step {
                    player: PlayerView { pending: PendingView::SeekOpen(pos), ..player },
                    out: seq![
                        ActionView::Ask(
                            RequestView::OpenComplete {
                                id: track.id,
                                ext: model::extension_of(track),
                            },
                        ),
                    ],
                })
            }
        }),
{
    reveal(Step::seek);
    let after = Step::start(player).handle(Command::Seek(pos), order);
    if player.queue.items.len() > 0 {
        assert(after.out =~= seq![after.out[0]]);
    }
}

/// With the file there, the demuxer seeks to the position where it can. Where it cannot, playback
/// starts at the byte that is as far into the file as the position is into the track, to the byte
/// below; no further than a hundredth before the end. Where neither length is known, the track
/// cannot be seeked. The queue and what is heard stay until then.
pub proof fn law_a_seek_goes_where_it_was_asked(
    player: PlayerView,
    len: Option<u64>,
    seekable: bool,
)
    requires
        player.wf(),
        player.pending is SeekOpen,
    ensures
        ({
            let after = Step::start(player).resume_with(Reply::Complete(Ok((len, seekable))));
            let pos = player.pending->SeekOpen_0;
            let length = player.queue.items[player.queue.cursor].duration();
            if seekable {
                after == (Step {
                    player: PlayerView { pending: PendingView::Seek(pos), ..player },
                    out: seq![ActionView::Ask(RequestView::SeekReader(pos))],
                })
            } else if len is Some && length is Some && length.unwrap().nanos > 0 {
                let total = length.unwrap().nanos as int;
                let size = len.unwrap() as int;
                &&& after.player == (PlayerView { pending: PendingView::SeekAt(pos), ..player })
                &&& after.out.len() == 1
                &&& after.out[0] is Ask && after.out[0]->Ask_0 is PlayReaderAt
                &&& after.out[0]->Ask_0->PlayReaderAt_pos == pos
                &&& ({
                    let byte = after.out[0]->Ask_0->PlayReaderAt_byte as int;
                    if pos.nanos * 100 >= total * 99 {
                        byte * 100 <= size * 99 < (byte + 1) * 100
                    } else {
                        byte * total <= size * pos.nanos < (byte + 1) * total
                    }
                })
            } else {
                after == (Step {
                    player: PlayerView { pending: PendingView::Nothing, ..player },
                    out: seq![ActionView::Emit(EventView::Failed("this track cannot be seeked"@))],
                })
            }
        }),
{
    reveal(Step::seek_opened);
    let after = Step::start(player).resume_with(Reply::Complete(Ok((len, seekable))));
    let pos = player.pending->SeekOpen_0;
    let length = player.queue.items[player.queue.cursor].duration();
    if after.out.len() == 1 {
        assert(after.out =~= seq![after.out[0]]);
    }
    if !seekable && len is Some && length is Some && length.unwrap().nanos > 0 {
        let total = length.unwrap().nanos as nat;
        let size = len.unwrap() as nat;
        let p = pos.nanos as nat;
        let byte = model::byte_at(p, total, size);
        if p * 100 < total * 99 {
            assert(byte == size * p / total);
            assert(byte * total <= size * p < (byte + 1) * total && byte <= size) by (
                nonlinear_arith)
                requires
                    total > 0,
                    byte == (size * p) / total,
                    p * 100 < total * 99,
            ;
        }
    }
}

/// A seek that was done is announced with the position it was asked for; one that was not is told,
/// with what went wrong. The queue and the state stay in either case.
pub proof fn law_a_seek_is_announced_where_it_went(
    player: PlayerView,
    message: String,
    err: OpenError,
    placed: crate::player::PlaceError,
)
    requires
        player.wf(),
    ensures
        ({
            let idle = PlayerView { pending: PendingView::Nothing, ..player };
            &&& player.pending matches PendingView::Seek(pos) ==> {
                &&& Step::start(player).resume_with(Reply::Taken(Ok(()))) == (Step {
                    player: idle,
                    out: seq![ActionView::Emit(EventView::Seeked(pos))],
                })
                &&& Step::start(player).resume_with(Reply::Taken(Err(message))) == (Step {
                    player: idle,
                    out: seq![ActionView::Emit(EventView::Failed("seeking"@ + ": "@ + message@))],
                })
            }
            &&& player.pending matches PendingView::SeekAt(pos) ==> {
                &&& Step::start(player).resume_with(Reply::Placed(Ok(()))) == (Step {
                    player: idle,
                    out: seq![ActionView::Emit(EventView::Seeked(pos))],
                })
                &&& Step::start(player).resume_with(Reply::Placed(Err(placed))) == (Step {
                    player: idle,
                    out: seq![
                        ActionView::Emit(
                            EventView::Failed(
                                match placed {
                                    crate::player::PlaceError::Positioning(m) =>
                                        "positioning reader"@ + ": "@ + m@,
                                    crate::player::PlaceError::Sink(m) => "seeking"@ + ": "@ + m@,
                                },
                            ),
                        ),
                    ],
                })
            }
            &&& player.pending is SeekOpen ==> Step::start(player).resume_with(
                Reply::Complete(Err(err)),
            ) == (Step {
                player: idle,
                out: seq![
                    ActionView::Emit(
                        EventView::Failed(
                            match err {
                                OpenError::Address(m) => m@,
                                OpenError::Stream { message: m, gone } => "opening stream for "@
                                    + player.queue.items[player.queue.cursor].name + ": "@ + m@,
                            },
                        ),
                    ),
                ],
            })
        }),
{
    let taken = Step::start(player).resume_with(Reply::Taken(Ok(())));
    let refused = Step::start(player).resume_with(Reply::Taken(Err(message)));
    let put = Step::start(player).resume_with(Reply::Placed(Ok(())));
    let misput = Step::start(player).resume_with(Reply::Placed(Err(placed)));
    let closed = Step::start(player).resume_with(Reply::Complete(Err(err)));
    if player.pending is Seek {
        assert(taken.out =~= seq![taken.out[0]]);
        assert(refused.out =~= seq![refused.out[0]]);
    }
    if player.pending is SeekAt {
        assert(put.out =~= seq![put.out[0]]);
        assert(misput.out =~= seq![misput.out[0]]);
    }
    if player.pending is SeekOpen {
        assert(closed.out =~= seq![closed.out[0]]);
    }
}

/// An answer to something else than what was asked for changes nothing.
pub proof fn law_an_answer_to_something_else_changes_nothing(player: PlayerView, reply: Reply)
    requires
        !crate::player::laws::answers(reply, player.pending),
    ensures
        Step::start(player).resume_with(reply) == Step::start(player),
{
}

/// Dropping a track that the server has lost drops every copy of it and no other track, and keeps
/// the rest in order.
pub proof fn law_only_the_lost_track_is_dropped(player: PlayerView, message: String)
    requires
        player.wf(),
        player.pending is Open,
    ensures
        ({
            let after = Step::start(player).resume_with(
                Reply::Opened(Err(OpenError::Stream { message, gone: true })),
            );
            let was = player.queue.items;
            let lost = was[player.queue.cursor];
            &&& after.player.queue.items == was.filter(|item: ItemView| item.id != lost.id)
            &&& after.player.queue.mode == player.queue.mode
            &&& after.player.repeat == player.repeat
        }),
{
    reveal(Step::drop_missing);
    reveal(Step::start_current);
    reveal(Step::stall);
    let was = player.queue.items;
    let at = player.queue.cursor;
    let lost = was[at];
    let kept = |item: ItemView| item.id != lost.id;
    let front = was.take(at + 1);
    let back = was.skip(at + 1);
    assert(was =~= front + back);
    Seq::filter_distributes_over_add(front, back, kept);
    reveal(Seq::filter);
    assert(front.drop_last() =~= was.take(at));
    assert(front.last() == lost);
}

/// In a queue that goes round, a lost track with nothing else behind it gives way to the first one
/// that is left.
pub proof fn law_a_lost_last_track_gives_way_to_the_first(player: PlayerView, message: String)
    requires
        player.wf(),
        player.pending is Open,
        player.repeat == Repeat::All,
        first_other(
            player.queue.items,
            player.queue.items[player.queue.cursor].id,
            player.queue.cursor + 1,
        ) is None,
    ensures
        ({
            let after = Step::start(player).resume_with(
                Reply::Opened(Err(OpenError::Stream { message, gone: true })),
            );
            let left = after.player.queue;
            &&& left.items.len() > 0 ==> left.cursor == 0
            &&& left.items.len() > 0 && player.pending->Open_0 > 0 ==> after.out.last() == opening(
                left.items[0],
            )
            &&& left.items.len() == 0 ==> after.out.last() == ActionView::Emit(
                EventView::TrackChanged(None),
            )
        }),
{
    reveal(Step::drop_missing);
    reveal(Step::start_current);
    reveal(Step::stall);
    let was = player.queue.items;
    let at = player.queue.cursor;
    let lost = was[at];
    let back = was.skip(at + 1);
    lemma_first_other(was, lost.id, at + 1);
    let rest = back.filter(|item: ItemView| item.id != lost.id);
    assert(rest =~= model::others(back, lost.id));
}

/// A track that cannot be opened is named in what is reported of it, before why; where no address
/// could be made of it, only why is told.
pub proof fn law_a_track_that_cannot_be_opened_is_named(item: ItemView, message: String, gone: bool)
    ensures
        model::open_message(OpenError::Stream { message, gone }, item) == "opening stream for "@
            + item.name + ": "@ + message@,
        model::open_message(OpenError::Address(message), item) == message@,
        model::is_gone(OpenError::Stream { message, gone }) == gone,
        !model::is_gone(OpenError::Address(message)),
{
}

/// A player that has just been started has nothing in its queue, plays nothing and waits for
/// nothing, and is set as it was told.
pub proof fn law_a_fresh_player_is_silent(random_batch: u32, prefetch: bool, repeat: Repeat)
    ensures
        ({
            let player = PlayerView::fresh(random_batch, prefetch, repeat);
            &&& player.queue.items.len() == 0
            &&& player.queue.mode == Mode::Explicit
            &&& player.queue.cursor == 0
            &&& player.state == State::Stopped
            &&& player.pending == PendingView::Nothing
            &&& player.queued_next is None
            &&& player.warming is None
            &&& !player.resume_pending
            &&& player.repeat == repeat
            &&& player.random_batch == random_batch
            &&& player.prefetch == prefetch
        }),
{
}

} // verus!
