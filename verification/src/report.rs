//! Playback reporting to the server: what it is told of what is heard, and when.
//!
//! Without this the server has no idea that anything is playing: no play counts, no "last
//! played" dates, and nothing in its dashboard.

use vstd::prelude::*;

use crate::player::{Event, State};
use crate::text;
use crate::text::copy_text;
use crate::time::Duration;

verus! {

/// How often a progress report goes out while a track plays, in nanoseconds.
///
/// The player's own tick is the right rate for a seek bar and absurd for the network.
pub const PROGRESS_INTERVAL_NANOS: u128 = 10_000_000_000;

/// What the server is told.
#[derive(Debug)]
pub enum Report {
    Start { id: String, position: Duration },
    Progress { id: String, position: Duration, paused: bool },
    Stopped { id: String, position: Duration },
}

/// What a [`Report`] says.
pub enum ReportView {
    Start { id: Seq<char>, position: Duration },
    Progress { id: Seq<char>, position: Duration, paused: bool },
    Stopped { id: Seq<char>, position: Duration },
}

impl View for Report {
    type V = ReportView;

    open spec fn view(&self) -> ReportView {
        match *self {
            Report::Start { id, position } => ReportView::Start { id: id@, position },
            Report::Progress { id, position, paused } => ReportView::Progress {
                id: id@,
                position,
                paused,
            },
            Report::Stopped { id, position } => ReportView::Stopped { id: id@, position },
        }
    }
}

/// What a report says, if there is one.
pub open spec fn report_opt(r: Option<Report>) -> Option<ReportView> {
    match r {
        Some(report) => Some(report@),
        None => None,
    }
}

/// What the server has been told, and what it has not.
#[derive(Debug)]
pub struct Reporter {
    /// Id of the track the server has been told about, and therefore the one a progress or stop
    /// report has to name. None means the server currently thinks nothing is playing.
    playing: Option<String>,
    /// The current track as far as the player is concerned, which is not the same thing: a
    /// restored session has one with nothing playing.
    track: Option<String>,
    state: State,
    position: Duration,
    /// When the last report of the running session went out, for the throttle.
    last_progress: Option<u128>,
    /// Whether a start is owed once the stop before it has gone out.
    starting: bool,
}

/// What a [`Reporter`] knows.
#[verifier::ext_equal]
pub struct ReporterView {
    pub playing: Option<Seq<char>>,
    pub track: Option<Seq<char>>,
    pub state: State,
    pub position: Duration,
    pub last_progress: Option<u128>,
    pub starting: bool,
}

impl View for Reporter {
    type V = ReporterView;

    closed spec fn view(&self) -> ReporterView {
        ReporterView {
            playing: text::text_opt(self.playing),
            track: text::text_opt(self.track),
            state: self.state,
            position: self.position,
            last_progress: self.last_progress,
            starting: self.starting,
        }
    }
}

impl ReporterView {
    /// Nothing told, nothing heard.
    pub open spec fn fresh() -> ReporterView {
        ReporterView {
            playing: None,
            track: None,
            state: State::Stopped,
            position: Duration { nanos: 0 },
            last_progress: None,
            starting: false,
        }
    }

    /// A session begins with the current track, if there is one.
    pub open spec fn start(self, now: u128) -> (ReporterView, Option<ReportView>) {
        match self.track {
            Some(id) => (
                ReporterView { playing: Some(id), last_progress: Some(now), ..self },
                Some(ReportView::Start { id, position: self.position }),
            ),
            None => (self, None),
        }
    }

    /// How far the running session has got, if there is one.
    pub open spec fn progress(self, now: u128) -> (ReporterView, Option<ReportView>) {
        match self.playing {
            Some(id) => (
                ReporterView { last_progress: Some(now), ..self },
                Some(
                    ReportView::Progress {
                        id,
                        position: self.position,
                        paused: self.state == State::Paused,
                    },
                ),
            ),
            None => (self, None),
        }
    }

    /// The running session ends, if there is one.
    pub open spec fn stop(self) -> (ReporterView, Option<ReportView>) {
        match self.playing {
            Some(id) => (
                ReporterView { playing: None, last_progress: None, ..self },
                Some(ReportView::Stopped { id, position: self.position }),
            ),
            None => (self, None),
        }
    }

    /// Whether the last report is long enough ago.
    pub open spec fn due(self, now: u128) -> bool {
        match self.last_progress {
            Some(at) => now - at >= PROGRESS_INTERVAL_NANOS,
            None => true,
        }
    }

    /// What becomes of an event, and what the server is told of it.
    pub open spec fn handle(self, event: Event, now: u128) -> (ReporterView, Option<ReportView>) {
        match event {
            Event::TrackChanged(item) => {
                // How far the track that just ended got is what decides whether it counts as
                // played.
                let (stopped, report) = self.stop();
                (
                    ReporterView {
                        position: Duration { nanos: 0 },
                        track: match item {
                            Some(item) => Some(item@.id),
                            None => None,
                        },
                        starting: self.state == State::Playing,
                        ..stopped
                    },
                    report,
                )
            },
            Event::StateChanged(state) => {
                let next = ReporterView { state, ..self };
                match state {
                    State::Playing => if self.playing is None {
                        next.start(now)
                    } else {
                        next.progress(now)
                    },
                    State::Paused => next.progress(now),
                    State::Stopped => next.stop(),
                }
            },
            Event::Position(position) => {
                let next = ReporterView { position, ..self };
                if self.due(now) {
                    next.progress(now)
                } else {
                    (next, None)
                }
            },
            Event::Seeked(position) => ReporterView { position, ..self }.progress(now),
            _ => (self, None),
        }
    }

    /// What is owed after that: the start of the track that follows one that ended.
    pub open spec fn follow_up(self, now: u128) -> (ReporterView, Option<ReportView>) {
        if self.starting {
            ReporterView { starting: false, ..self }.start(now)
        } else {
            (self, None)
        }
    }
}

impl Reporter {
    /// Nothing told, nothing heard.
    pub fn new() -> (r: Self)
        ensures
            r@ == ReporterView::fresh(),
    {
        Reporter {
            playing: None,
            track: None,
            state: State::Stopped,
            position: Duration::zero(),
            last_progress: None,
            starting: false,
        }
    }

    fn start(&mut self, now: u128) -> (r: Option<Report>)
        ensures
            (final(self)@, report_opt(r)) == old(self)@.start(now),
    {
        match copy_text(&self.track) {
            Some(id) => {
                // Recorded even if the request fails: the server treats a progress report for
                // an unknown session as opening one.
                self.playing = Some(id.clone());
                self.last_progress = Some(now);
                Some(Report::Start { id, position: self.position })
            },
            None => None,
        }
    }

    fn progress(&mut self, now: u128) -> (r: Option<Report>)
        ensures
            (final(self)@, report_opt(r)) == old(self)@.progress(now),
    {
        match copy_text(&self.playing) {
            Some(id) => {
                self.last_progress = Some(now);
                let paused = self.state == State::Paused;
                Some(Report::Progress { id, position: self.position, paused })
            },
            None => None,
        }
    }

    /// The session ends, if one is running.
    pub fn stop(&mut self) -> (r: Option<Report>)
        ensures
            (final(self)@, report_opt(r)) == old(self)@.stop(),
    {
        let mut playing: Option<String> = None;
        core::mem::swap(&mut playing, &mut self.playing);
        match playing {
            Some(id) => {
                self.last_progress = None;
                Some(Report::Stopped { id, position: self.position })
            },
            None => None,
        }
    }

    /// An event, at the time `now`, counted in nanoseconds from any fixed moment. What the
    /// server is to be told of it comes before [`Reporter::follow_up`], which is to be asked
    /// next.
    pub fn handle(&mut self, event: &Event, now: u128) -> (r: Option<Report>)
        ensures
            (final(self)@, report_opt(r)) == old(self)@.handle(*event, now),
    {
        match event {
            Event::TrackChanged(item) => {
                let report = self.stop();
                self.position = Duration::zero();
                self.track = match item {
                    Some(item) => Some(item.id.clone()),
                    None => None,
                };
                self.starting = self.state == State::Playing;
                report
            },
            Event::StateChanged(state) => {
                self.state = *state;
                match *state {
                    // A track can start playing without a change of track of its own.
                    State::Playing => if self.playing.is_none() {
                        self.start(now)
                    } else {
                        self.progress(now)
                    },
                    // Worth an immediate report rather than waiting out the throttle.
                    State::Paused => self.progress(now),
                    State::Stopped => self.stop(),
                }
            },
            Event::Position(position) => {
                self.position = *position;
                let due = match self.last_progress {
                    Some(at) => now >= at && now - at >= PROGRESS_INTERVAL_NANOS,
                    None => true,
                };
                if due {
                    self.progress(now)
                } else {
                    None
                }
            },
            // A seek moves the position by more than the throttle would ever notice.
            Event::Seeked(position) => {
                self.position = *position;
                self.progress(now)
            },
            _ => None,
        }
    }

    /// What is owed after an event: the start of the track that follows one that ended.
    pub fn follow_up(&mut self, now: u128) -> (r: Option<Report>)
        ensures
            (final(self)@, report_opt(r)) == old(self)@.follow_up(now),
    {
        if self.starting {
            self.starting = false;
            self.start(now)
        } else {
            None
        }
    }
}

/// Whether a report fits what the server thinks is playing: a start where nothing is, and
/// anything else about what is.
pub open spec fn fits(session: Option<Seq<char>>, report: Option<ReportView>) -> bool {
    match report {
        None => true,
        Some(ReportView::Start { id, position }) => session is None,
        Some(ReportView::Progress { id, position, paused }) => session == Some(id),
        Some(ReportView::Stopped { id, position }) => session == Some(id),
    }
}

/// What the server thinks is playing after a report.
pub open spec fn session_after(
    session: Option<Seq<char>>,
    report: Option<ReportView>,
) -> Option<Seq<char>> {
    match report {
        None => session,
        Some(ReportView::Start { id, position }) => Some(id),
        Some(ReportView::Progress { id, position, paused }) => session,
        Some(ReportView::Stopped { id, position }) => None,
    }
}

/// The server's idea of the session is kept in order: every report fits what it was told before,
/// whatever events come, and the reporter knows what it was told.
pub proof fn law_reports_keep_the_session_in_order(
    reporter: ReporterView,
    event: Event,
    now: u128,
    later: u128,
)
    requires
        !reporter.starting,
    ensures
        ({
            let (handled, first) = reporter.handle(event, now);
            let (after, second) = handled.follow_up(later);
            &&& fits(reporter.playing, first)
            &&& handled.playing == session_after(reporter.playing, first)
            &&& fits(handled.playing, second)
            &&& after.playing == session_after(handled.playing, second)
            &&& !after.starting
        }),
{
}

/// Nothing is reported as started that is not being heard, and a stopped player leaves no
/// session behind.
pub proof fn law_only_what_is_heard_is_reported(
    reporter: ReporterView,
    event: Event,
    now: u128,
    later: u128,
)
    requires
        !reporter.starting,
        reporter.playing is Some ==> reporter.state != State::Stopped,
    ensures
        ({
            let (handled, first) = reporter.handle(event, now);
            let (after, second) = handled.follow_up(later);
            &&& first matches Some(ReportView::Start { id, position }) ==> handled.state
                == State::Playing
            &&& second matches Some(ReportView::Start { id, position }) ==> handled.state
                == State::Playing
            &&& after.playing is Some ==> after.state != State::Stopped
        }),
{
}

/// Positions alone bring at most one report in ten seconds.
pub proof fn law_positions_are_throttled(
    reporter: ReporterView,
    position: Duration,
    now: u128,
)
    requires
        reporter.last_progress is Some,
        reporter.handle(Event::Position(position), now).1 is Some,
    ensures
        now - reporter.last_progress.unwrap() >= PROGRESS_INTERVAL_NANOS,
        reporter.handle(Event::Position(position), now).0.last_progress == Some(now),
{
}

/// A pause, a resume and a seek in a running session are reported at once.
pub proof fn law_pauses_and_jumps_are_reported_at_once(
    reporter: ReporterView,
    state: State,
    position: Duration,
    now: u128,
)
    requires
        reporter.playing is Some,
        state != State::Stopped,
    ensures
        reporter.handle(Event::StateChanged(state), now).1 == Some(
            ReportView::Progress {
                id: reporter.playing.unwrap(),
                position: reporter.position,
                paused: state == State::Paused,
            },
        ),
        reporter.handle(Event::Seeked(position), now).1 == Some(
            ReportView::Progress {
                id: reporter.playing.unwrap(),
                position,
                paused: reporter.state == State::Paused,
            },
        ),
{
}

/// A track that ends is reported with how far it got, and the one after it from its start.
pub proof fn law_a_track_ends_where_it_got_to(
    reporter: ReporterView,
    item: Option<crate::jellyfin::models::Item>,
    now: u128,
    later: u128,
)
    requires
        reporter.playing is Some,
        reporter.state == State::Playing,
        item is Some,
    ensures
        ({
            let (handled, first) = reporter.handle(Event::TrackChanged(item), now);
            let second = handled.follow_up(later).1;
            &&& first == Some(
                ReportView::Stopped {
                    id: reporter.playing.unwrap(),
                    position: reporter.position,
                },
            )
            &&& second == Some(
                ReportView::Start { id: item.unwrap()@.id, position: Duration { nanos: 0 } },
            )
        }),
{
}

/// When playback stops, the running session is reported as ended exactly where it had got to, and
/// is over. Without a session nothing is said.
pub proof fn law_a_session_ends_where_it_got_to(reporter: ReporterView, now: u128)
    ensures
        ({
            let (after, report) = reporter.handle(Event::StateChanged(State::Stopped), now);
            let ended = ReporterView {
                playing: None,
                state: State::Stopped,
                last_progress: after.last_progress,
                ..reporter
            };
            &&& report == (match reporter.playing {
                Some(id) => Some(ReportView::Stopped { id, position: reporter.position }),
                None => None,
            })
            &&& after == ended
            &&& reporter.playing is Some ==> after.last_progress is None
        }),
        ({
            let (after, report) = reporter.stop();
            &&& report == (match reporter.playing {
                Some(id) => Some(ReportView::Stopped { id, position: reporter.position }),
                None => None,
            })
            &&& after.playing is None
            &&& after.position == reporter.position
            &&& after.track == reporter.track
            &&& after.state == reporter.state
        }),
{
}

/// The position that was told last is the one that counts: whatever comes between, a session that
/// is stopped, by a stop or by another track, is reported with it.
pub proof fn law_the_position_told_last_counts(
    reporter: ReporterView,
    position: Duration,
    item: Option<crate::jellyfin::models::Item>,
    seeked: bool,
    now: u128,
    later: u128,
)
    requires
        reporter.playing is Some,
    ensures
        ({
            let told = reporter.handle(
                if seeked {
                    Event::Seeked(position)
                } else {
                    Event::Position(position)
                },
                now,
            ).0;
            let end = Some(ReportView::Stopped { id: reporter.playing.unwrap(), position });
            &&& told.position == position
            &&& told.playing == reporter.playing
            &&& told.track == reporter.track
            &&& told.state == reporter.state
            &&& told.handle(Event::StateChanged(State::Stopped), later).1 == end
            &&& told.handle(Event::TrackChanged(item), later).1 == end
            &&& told.handle(Event::StateChanged(State::Paused), later).0.handle(
                Event::StateChanged(State::Stopped),
                later,
            ).1 == end
        }),
{
}

/// A position is reported as progress once ten seconds have gone by since the last report, and not
/// before; without a session never.
pub proof fn law_progress_is_reported_every_ten_seconds(
    reporter: ReporterView,
    position: Duration,
    now: u128,
)
    ensures
        ({
            let report = reporter.handle(Event::Position(position), now).1;
            let due = match reporter.last_progress {
                Some(at) => now >= at + 10_000_000_000,
                None => true,
            };
            report == (match reporter.playing {
                Some(id) => if due {
                    Some(
                        ReportView::Progress {
                            id,
                            position,
                            paused: reporter.state == State::Paused,
                        },
                    )
                } else {
                    None
                },
                None => None,
            })
        }),
{
}

/// A report of a running session starts the ten seconds anew; one that only tells the position
/// without a report does not.
pub proof fn law_every_report_starts_the_wait_anew(
    reporter: ReporterView,
    event: Event,
    now: u128,
)
    ensures
        ({
            let (after, report) = reporter.handle(event, now);
            &&& report matches Some(ReportView::Progress { id, position, paused })
                ==> after.last_progress == Some(now)
            &&& report matches Some(ReportView::Start { id, position }) ==> after.last_progress
                == Some(now)
            &&& report is None ==> after.last_progress == reporter.last_progress
        }),
        reporter.follow_up(now).1 is Some ==> reporter.follow_up(now).0.last_progress == Some(now),
{
}

/// Playing begins a session with the current track, from where it is, where none is running; with
/// one running it is told that it goes on. Without a track there is nothing to begin.
pub proof fn law_playing_begins_a_session(reporter: ReporterView, now: u128)
    ensures
        ({
            let (after, report) = reporter.handle(Event::StateChanged(State::Playing), now);
            &&& after.state == State::Playing
            &&& after.position == reporter.position
            &&& after.track == reporter.track
            &&& match (reporter.playing, reporter.track) {
                (Some(id), _) => {
                    &&& after.playing == reporter.playing
                    &&& report == Some(
                        ReportView::Progress { id, position: reporter.position, paused: false },
                    )
                },
                (None, Some(id)) => {
                    &&& after.playing == Some(id)
                    &&& report == Some(ReportView::Start { id, position: reporter.position })
                },
                (None, None) => report is None && after.playing is None,
            }
        }),
{
}

/// Pausing tells a running session where it stands and that it is paused, and begins none.
pub proof fn law_pausing_is_told_of_a_running_session(reporter: ReporterView, now: u128)
    ensures
        ({
            let (after, report) = reporter.handle(Event::StateChanged(State::Paused), now);
            &&& after.state == State::Paused
            &&& after.playing == reporter.playing
            &&& after.position == reporter.position
            &&& after.track == reporter.track
            &&& report == (match reporter.playing {
                Some(id) => Some(
                    ReportView::Progress { id, position: reporter.position, paused: true },
                ),
                None => None,
            })
        }),
{
}

/// Another track begins at its start. It is reported as started right after the one before it has
/// ended, where something plays, and not where nothing does; no track at all is never started.
pub proof fn law_another_track_begins_at_its_start(
    reporter: ReporterView,
    item: Option<crate::jellyfin::models::Item>,
    now: u128,
    later: u128,
)
    requires
        !reporter.starting,
    ensures
        ({
            let (handled, first) = reporter.handle(Event::TrackChanged(item), now);
            let (after, second) = handled.follow_up(later);
            let id = match item {
                Some(item) => Some(item@.id),
                None => None,
            };
            &&& first == (match reporter.playing {
                Some(ended) => Some(
                    ReportView::Stopped { id: ended, position: reporter.position },
                ),
                None => None,
            })
            &&& after.track == id
            &&& after.position.nanos == 0
            &&& after.state == reporter.state
            &&& !after.starting
            &&& if reporter.state == State::Playing && id is Some {
                &&& second == Some(
                    ReportView::Start { id: id.unwrap(), position: Duration { nanos: 0 } },
                )
                &&& after.playing == id
            } else {
                second is None && after.playing is None
            }
        }),
{
}

/// What is of no concern to a session is not reported, and changes nothing.
pub proof fn law_other_events_are_not_reported(reporter: ReporterView, event: Event, now: u128)
    requires
        !(event is TrackChanged || event is StateChanged || event is Position || event is Seeked),
    ensures
        reporter.handle(event, now) == (reporter, None::<ReportView>),
{
}

/// A fresh reporter knows of no track, no session and no position, and whatever it hears first but
/// the beginning of playback is not reported.
pub proof fn law_a_fresh_reporter_has_nothing_to_tell(now: u128)
    ensures
        ReporterView::fresh().playing is None,
        ReporterView::fresh().track is None,
        ReporterView::fresh().state == State::Stopped,
        ReporterView::fresh().position.nanos == 0,
        ReporterView::fresh().last_progress is None,
        !ReporterView::fresh().starting,
        ReporterView::fresh().start(now) == (ReporterView::fresh(), None::<ReportView>),
{
}

} // verus!
