//! The audio thread's bookkeeping: what is done to the output for each command, what is
//! published of it, and what the handle on the other side makes of that.

use vstd::prelude::*;

use crate::player::sink::Fault;
use crate::text::cat;
use crate::time::{Duration, NANOS_PER_MILLI};

verus! {

/// How often the audio thread republishes position and queue depth, in milliseconds.
///
/// This also bounds how quickly end-of-track is noticed, which is why it is far shorter than
/// the player's own tick.
pub const POLL_MS: u64 = 50;

/// Up to this, the output's position is taken to describe the source just appended rather than
/// the one it replaced, in nanoseconds.
pub const SETTLED_POS_NANOS: u128 = 500_000_000;

/// Polls to wait for that before trusting the position regardless. A backstop: without it, an
/// output that never reset would freeze the position.
pub const SETTLE_POLLS: u8 = 20;

/// What the audio thread is told. A reader comes along with those that start a source.
#[derive(Debug, Clone, Copy, PartialEq, Eq, Structural)]
pub enum Cmd {
    Play,
    Queue,
    Pause,
    Resume,
    Stop,
    /// Rebuild the source at a position that the demuxer finds.
    Seek(Duration),
    /// Play from wherever the reader already sits, reporting this as the starting position.
    PlayAt(Duration),
}

/// What is done to the output.
#[derive(Debug, Clone, Copy, PartialEq, Eq, Structural)]
pub enum SinkOp {
    /// Drop every source. Leaves the output paused.
    Clear,
    /// Append the source that was just built.
    Append,
    Play,
    Pause,
}

/// What the audio thread knows of the output.
#[derive(Debug)]
pub struct Output {
    last_len: usize,
    /// Added to the output's own position, which restarts at zero when a seek replaces the
    /// source.
    offset: Duration,
    /// Whether the source queued behind the current one can be positioned, applied when the
    /// output crosses into it.
    queued_seekable: Option<bool>,
    /// Polls left to ignore the output's position after a source swap.
    settling: u8,
    /// Whether the queue was changed on purpose since the last poll.
    resync: bool,
    position_ms: u64,
    queued: usize,
    advances: usize,
    seekable: bool,
    fault: Option<Fault>,
}

/// What an [`Output`] says.
#[verifier::ext_equal]
pub struct OutputView {
    pub last_len: usize,
    pub offset: Duration,
    pub queued_seekable: Option<bool>,
    pub settling: u8,
    pub resync: bool,
    /// Position in the track that plays, in milliseconds.
    pub position_ms: u64,
    /// Sources still loaded.
    pub queued: usize,
    /// Count of self-driven track transitions.
    pub advances: usize,
    /// Whether the source now playing can be positioned.
    pub seekable: bool,
    pub fault: Option<(Seq<char>, bool)>,
}

impl View for Output {
    type V = OutputView;

    closed spec fn view(&self) -> OutputView {
        OutputView {
            last_len: self.last_len,
            offset: self.offset,
            queued_seekable: self.queued_seekable,
            settling: self.settling,
            resync: self.resync,
            position_ms: self.position_ms,
            queued: self.queued,
            advances: self.advances,
            seekable: self.seekable,
            fault: match self.fault {
                Some(fault) => Some((fault.message@, fault.affects_current)),
                None => None,
            },
        }
    }
}

/// Whether a command brings a source to be built.
pub open spec fn builds(cmd: Cmd) -> bool {
    cmd is Play || cmd is Queue || cmd is Seek || cmd is PlayAt
}

/// What is done to the output before a source is built.
pub open spec fn ops_before(cmd: Cmd) -> Seq<SinkOp> {
    match cmd {
        Cmd::Play => seq![SinkOp::Clear],
        Cmd::Stop => seq![SinkOp::Clear],
        Cmd::Pause => seq![SinkOp::Pause],
        Cmd::Resume => seq![SinkOp::Play],
        _ => Seq::empty(),
    }
}

/// What is done to the output once a source is built. Where none could be, playback is left
/// untouched.
pub open spec fn ops_after(cmd: Cmd, built: bool) -> Seq<SinkOp> {
    if !built {
        Seq::empty()
    } else {
        match cmd {
            Cmd::Play => seq![SinkOp::Append, SinkOp::Play],
            Cmd::Queue => seq![SinkOp::Append],
            Cmd::Seek(_) => seq![SinkOp::Clear, SinkOp::Append, SinkOp::Play],
            Cmd::PlayAt(_) => seq![SinkOp::Clear, SinkOp::Append, SinkOp::Play],
            _ => Seq::empty(),
        }
    }
}

/// What is said of a source that could not be built.
pub open spec fn failure_of(cmd: Cmd, err: Seq<char>) -> (Seq<char>, bool) {
    match cmd {
        Cmd::Play => ("cannot decode track: "@ + err, true),
        Cmd::Queue => ("cannot decode next track: "@ + err, false),
        _ => ("seek failed: "@ + err, false),
    }
}

/// A number of milliseconds, as far as it fits in sixty-four bits.
pub open spec fn millis_of(nanos: int) -> u64 {
    ((nanos / NANOS_PER_MILLI as int) % 0x1_0000_0000_0000_0000) as u64
}

impl OutputView {
    /// Nothing loaded.
    pub open spec fn silent() -> OutputView {
        OutputView {
            last_len: 0,
            offset: Duration { nanos: 0 },
            queued_seekable: None,
            settling: 0,
            resync: false,
            position_ms: 0,
            queued: 0,
            advances: 0,
            seekable: false,
            fault: None,
        }
    }

    /// A command has been taken, and its source not been built yet.
    pub open spec fn begun(self, cmd: Cmd) -> OutputView {
        if cmd is Stop {
            OutputView { offset: Duration { nanos: 0 }, resync: true, ..self }
        } else {
            self
        }
    }

    /// The source of a command has been built, and can be positioned or not.
    pub open spec fn built(self, cmd: Cmd, seekable: bool) -> OutputView {
        match cmd {
            Cmd::Play => OutputView {
                seekable,
                queued_seekable: None,
                offset: Duration { nanos: 0 },
                resync: true,
                ..self
            },
            Cmd::Queue => OutputView { queued_seekable: Some(seekable), ..self },
            Cmd::Seek(pos) => OutputView { offset: pos, resync: true, ..self },
            Cmd::PlayAt(pos) => OutputView {
                offset: pos,
                queued_seekable: None,
                resync: true,
                ..self
            },
            _ => self,
        }
    }

    /// The source of a command could not be built.
    pub open spec fn not_built(self, cmd: Cmd, err: Seq<char>) -> OutputView {
        let told = OutputView { fault: Some(failure_of(cmd, err)), ..self };
        if cmd is Play {
            OutputView {
                queued_seekable: None,
                offset: Duration { nanos: 0 },
                resync: true,
                ..told
            }
        } else {
            told
        }
    }

    /// How many tracks the output has crossed into by itself. Reaching none at all is the end
    /// of a track, not a transition: there was nothing to cross into.
    pub open spec fn crossed(self, len: usize) -> int {
        if len == 0 {
            self.last_len - 1
        } else {
            self.last_len - len
        }
    }

    /// The output holds `len` sources now.
    pub open spec fn counted(self, len: usize) -> OutputView {
        if self.resync {
            OutputView { last_len: len, settling: SETTLE_POLLS, resync: false, queued: len, ..self }
        } else if len < self.last_len {
            OutputView {
                last_len: len,
                advances: self.advances.wrapping_add(self.crossed(len) as usize),
                offset: Duration { nanos: 0 },
                seekable: match self.queued_seekable {
                    Some(seekable) => seekable,
                    None => self.seekable,
                },
                queued_seekable: None,
                queued: len,
                ..self
            }
        } else {
            OutputView { last_len: len, queued: len, ..self }
        }
    }

    /// The output's own position is `pos`. For a few polls after a swap it still describes the
    /// source that was replaced, and does not count.
    pub open spec fn placed(self, pos: Duration) -> OutputView {
        let settling = if self.settling == 0 || pos.nanos <= SETTLED_POS_NANOS {
            0
        } else {
            (self.settling - 1) as u8
        };
        let nanos = if self.settling == 0 || pos.nanos <= SETTLED_POS_NANOS {
            pos.nanos as int
        } else {
            0
        };
        OutputView { settling, position_ms: millis_of(self.offset.nanos + nanos), ..self }
    }
}

impl Output {
    /// Nothing loaded.
    pub fn new() -> (r: Self)
        ensures
            r@ == OutputView::silent(),
    {
        Output {
            last_len: 0,
            offset: Duration::zero(),
            queued_seekable: None,
            settling: 0,
            resync: false,
            position_ms: 0,
            queued: 0,
            advances: 0,
            seekable: false,
            fault: None,
        }
    }

    fn fail(&mut self, what: &str, err: &str, affects_current: bool)
        ensures
            final(self)@ == (OutputView {
                fault: Some((what@ + err@, affects_current)),
                ..old(self)@
            }),
    {
        self.fault = Some(Fault { message: cat(what, err), affects_current });
    }

    /// A command: what to do to the output before its source, if it brings one, is built.
    pub fn begin(&mut self, cmd: Cmd) -> (r: Vec<SinkOp>)
        ensures
            r@ == ops_before(cmd),
            final(self)@ == old(self)@.begun(cmd),
    {
        let r = match cmd {
            Cmd::Play => vec![SinkOp::Clear],
            Cmd::Stop => {
                self.offset = Duration::zero();
                self.resync = true;
                vec![SinkOp::Clear]
            },
            Cmd::Pause => vec![SinkOp::Pause],
            Cmd::Resume => vec![SinkOp::Play],
            _ => Vec::new(),
        };
        assert(r@ =~= ops_before(cmd));
        r
    }

    /// The source of a command has been built and, for a seek, positioned; or one of the two
    /// failed. What to do to the output.
    ///
    /// A replacement source is positioned before it is handed over, so a failure at any step of
    /// a seek leaves current playback untouched. A start at a byte offset does not touch what is
    /// known of the track's seekability: that describes the file from its start.
    pub fn decoded(&mut self, cmd: Cmd, result: Result<bool, String>) -> (r: Vec<SinkOp>)
        requires
            builds(cmd),
        ensures
            r@ == ops_after(cmd, result is Ok),
            final(self)@ == (match result {
                Ok(seekable) => old(self)@.built(cmd, seekable),
                Err(err) => old(self)@.not_built(cmd, err@),
            }),
    {
        let r = match cmd {
            Cmd::Play => {
                self.queued_seekable = None;
                self.offset = Duration::zero();
                self.resync = true;
                match result {
                    Ok(seekable) => {
                        self.seekable = seekable;
                        // Clearing leaves the output paused.
                        vec![SinkOp::Append, SinkOp::Play]
                    },
                    Err(err) => {
                        self.fail("cannot decode track: ", err.as_str(), true);
                        Vec::new()
                    },
                }
            },
            Cmd::Queue => match result {
                Ok(seekable) => {
                    self.queued_seekable = Some(seekable);
                    vec![SinkOp::Append]
                },
                // Only the queued track is affected; whatever is playing now must keep playing.
                Err(err) => {
                    self.fail("cannot decode next track: ", err.as_str(), false);
                    Vec::new()
                },
            },
            Cmd::Seek(pos) => match result {
                Ok(_) => {
                    self.offset = pos;
                    self.resync = true;
                    vec![SinkOp::Clear, SinkOp::Append, SinkOp::Play]
                },
                Err(err) => {
                    self.fail("seek failed: ", err.as_str(), false);
                    Vec::new()
                },
            },
            Cmd::PlayAt(pos) => match result {
                Ok(_) => {
                    self.offset = pos;
                    self.queued_seekable = None;
                    self.resync = true;
                    vec![SinkOp::Clear, SinkOp::Append, SinkOp::Play]
                },
                Err(err) => {
                    self.fail("seek failed: ", err.as_str(), false);
                    Vec::new()
                },
            },
            _ => Vec::new(),
        };
        assert(r@ =~= ops_after(cmd, result is Ok));
        r
    }

    /// Whether a position of the output can be told from the start of the track.
    pub fn can_place(&self, pos: Duration) -> (r: bool)
        ensures
            r == (self@.offset.nanos + pos.nanos <= u128::MAX),
    {
        pos.nanos <= u128::MAX - self.offset.nanos
    }

    /// At the end of every round: the output holds `len` sources, and its own position is
    /// `pos`.
    pub fn poll(&mut self, len: usize, pos: Duration)
        requires
            old(self)@.offset.nanos + pos.nanos <= u128::MAX,
        ensures
            final(self)@ == old(self)@.counted(len).placed(pos),
    {
        if self.resync {
            self.settling = SETTLE_POLLS;
            self.resync = false;
        } else if len < self.last_len {
            let crossed = if len == 0 {
                self.last_len - 1
            } else {
                self.last_len - len
            };
            self.advances = self.advances.wrapping_add(crossed);
            // The offset belongs to the track that just ended.
            self.offset = Duration::zero();
            if let Some(seekable) = self.queued_seekable {
                self.seekable = seekable;
                self.queued_seekable = None;
            }
        }
        self.last_len = len;
        self.queued = len;

        let mut nanos: u128 = pos.nanos;
        if self.settling > 0 {
            if nanos <= SETTLED_POS_NANOS {
                self.settling = 0;
            } else {
                self.settling = self.settling - 1;
                nanos = 0;
            }
        }
        let millis = (self.offset.nanos + nanos) / NANOS_PER_MILLI;
        self.position_ms = (millis % 0x1_0000_0000_0000_0000) as u64;
    }

    pub fn position_ms(&self) -> (r: u64)
        ensures
            r == self@.position_ms,
    {
        self.position_ms
    }

    /// Whether the source now playing can be positioned.
    pub fn is_seekable(&self) -> (r: bool)
        ensures
            r == self@.seekable,
    {
        self.seekable
    }

    /// Sources still loaded.
    pub fn queued(&self) -> (r: usize)
        ensures
            r == self@.queued,
    {
        self.queued
    }

    /// Count of self-driven track transitions.
    pub fn advances(&self) -> (r: usize)
        ensures
            r == self@.advances,
    {
        self.advances
    }

    /// Last decode or output failure, if any. Consumed by reading.
    pub fn take_fault(&mut self) -> (r: Option<Fault>)
        ensures
            old(self)@.fault == (match r {
                Some(fault) => Some((fault.message@, fault.affects_current)),
                None => None,
            }),
            final(self)@ == (OutputView { fault: None, ..old(self)@ }),
    {
        let mut fault: Option<Fault> = None;
        core::mem::swap(&mut fault, &mut self.fault);
        fault
    }
}

/// The handle's side: what it has seen of the audio thread, and what it waits for.
#[derive(Debug, Clone, Copy, PartialEq, Eq, Structural)]
pub struct RodioSink {
    pub seen_advances: usize,
    /// Set between issuing a start and the thread reporting a loaded source, so the gap is not
    /// mistaken for end-of-track.
    pub pending_start: bool,
}

impl RodioSink {
    pub fn new() -> (r: Self)
        ensures
            r == (RodioSink { seen_advances: 0, pending_start: false }),
    {
        RodioSink { seen_advances: 0, pending_start: false }
    }

    /// A command has been sent to the thread.
    pub fn sent(&mut self, cmd: Cmd)
        ensures
            *final(self) == (RodioSink {
                pending_start: match cmd {
                    Cmd::Play => true,
                    Cmd::PlayAt(_) => true,
                    Cmd::Stop => false,
                    _ => old(self).pending_start,
                },
                ..*old(self)
            }),
    {
        match cmd {
            Cmd::Play => {
                self.pending_start = true;
            },
            Cmd::PlayAt(_) => {
                self.pending_start = true;
            },
            Cmd::Stop => {
                self.pending_start = false;
            },
            _ => {},
        }
    }

    /// True once nothing is playing and nothing is queued, `queued` being how many sources the
    /// thread has loaded.
    pub fn finished(&mut self, queued: usize) -> (r: bool)
        ensures
            r == (queued == 0 && !old(self).pending_start),
            *final(self) == (RodioSink {
                pending_start: old(self).pending_start && queued == 0,
                ..*old(self)
            }),
    {
        if queued > 0 {
            self.pending_start = false;
            return false;
        }
        // Empty, but a start may simply not have been picked up yet.
        !self.pending_start
    }

    /// Number of times the output moved to a queued track by itself since the last call,
    /// `total` being the thread's count. A counter rather than a flag so a caller that polls
    /// slowly cannot miss a transition.
    pub fn take_advances(&mut self, total: usize) -> (r: usize)
        ensures
            r == (if total >= old(self).seen_advances {
                total - old(self).seen_advances
            } else {
                0
            }),
            *final(self) == (RodioSink { seen_advances: total, ..*old(self) }),
    {
        let new = if total >= self.seen_advances {
            total - self.seen_advances
        } else {
            0
        };
        self.seen_advances = total;
        new
    }
}

/// A track that ends with nothing behind it is no transition: the queue is not stepped for it.
pub proof fn law_the_end_of_the_queue_is_no_transition(output: OutputView)
    requires
        !output.resync,
        output.last_len == 1,
    ensures
        output.counted(0).advances == output.advances,
        output.counted(0).queued == 0,
{
}

/// A track that ends with one behind it is one transition, and what was known of the one behind
/// it holds from then on.
pub proof fn law_crossing_into_the_next_track_is_one_transition(output: OutputView, len: usize)
    requires
        !output.resync,
        len > 0,
        output.last_len == len + 1,
        output.advances < usize::MAX,
    ensures
        output.counted(len).advances == output.advances + 1,
        output.counted(len).offset.nanos == 0,
        output.queued_seekable is Some ==> output.counted(len).seekable
            == output.queued_seekable.unwrap(),
{
}

/// A command that changes the queue on purpose is never counted as a transition.
pub proof fn law_a_change_on_purpose_is_no_transition(
    output: OutputView,
    cmd: Cmd,
    seekable: bool,
    len: usize,
)
    requires
        cmd is Play || cmd is Seek || cmd is PlayAt,
    ensures
        output.built(cmd, seekable).counted(len).advances == output.advances,
        output.begun(Cmd::Stop).counted(len).advances == output.advances,
{
}

/// After a seek, whatever the output still says of the source that was replaced, the position
/// starts at the one that was asked for: it never mixes the two.
pub proof fn law_a_seek_reports_where_it_went(
    output: OutputView,
    pos: Duration,
    len: usize,
    old_pos: Duration,
    play_at: bool,
)
    requires
        old_pos.nanos > SETTLED_POS_NANOS,
    ensures
        ({
            let cmd = if play_at {
                Cmd::PlayAt(pos)
            } else {
                Cmd::Seek(pos)
            };
            output.built(cmd, true).counted(len).placed(old_pos).position_ms == millis_of(
                pos.nanos as int,
            )
        }),
{
}

/// The output's own position is trusted again after at most twenty polls.
pub proof fn law_settling_comes_to_an_end(output: OutputView, pos: Duration)
    ensures
        output.settling == 0 ==> output.placed(pos).position_ms == millis_of(
            output.offset.nanos + pos.nanos,
        ),
        output.settling > 0 ==> output.placed(pos).settling < output.settling,
        output.resync ==> output.counted(0).settling == SETTLE_POLLS,
{
}

/// Starting a track drops what was playing, puts the track in and lets it play. A queued track is
/// only put in behind. A seek drops nothing before its source is there, and then lets that play in
/// its place. Pausing, going on and stopping do what they say, and where a source could not be
/// built nothing more is done.
pub proof fn law_commands_do_what_they_say(pos: Duration)
    ensures
        ops_before(Cmd::Play) + ops_after(Cmd::Play, true) == seq![
            SinkOp::Clear,
            SinkOp::Append,
            SinkOp::Play,
        ],
        ops_before(Cmd::Queue) + ops_after(Cmd::Queue, true) == seq![SinkOp::Append],
        ops_before(Cmd::Pause) == seq![SinkOp::Pause],
        ops_before(Cmd::Resume) == seq![SinkOp::Play],
        ops_before(Cmd::Stop) == seq![SinkOp::Clear],
        ops_before(Cmd::Seek(pos)) == Seq::<SinkOp>::empty(),
        ops_before(Cmd::PlayAt(pos)) == Seq::<SinkOp>::empty(),
        ops_after(Cmd::Seek(pos), true) == seq![SinkOp::Clear, SinkOp::Append, SinkOp::Play],
        ops_after(Cmd::PlayAt(pos), true) == seq![SinkOp::Clear, SinkOp::Append, SinkOp::Play],
        forall|cmd: Cmd| #[trigger] ops_after(cmd, false) == Seq::<SinkOp>::empty(),
        forall|cmd: Cmd| #[trigger]
            builds(cmd) <==> !(cmd is Pause || cmd is Resume || cmd is Stop),
{
    assert(ops_before(Cmd::Play) + ops_after(Cmd::Play, true) =~= seq![
        SinkOp::Clear,
        SinkOp::Append,
        SinkOp::Play,
    ]);
    assert(ops_before(Cmd::Queue) + ops_after(Cmd::Queue, true) =~= seq![SinkOp::Append]);
}

/// A track that could not be decoded is told with what it was for, and skipped only where it was to
/// play now: a queued track or a seek that failed leaves alone what plays, and the position told.
pub proof fn law_only_a_failed_start_affects_what_plays(
    output: OutputView,
    cmd: Cmd,
    err: Seq<char>,
)
    requires
        builds(cmd),
    ensures
        ({
            let after = output.not_built(cmd, err);
            &&& after.fault == Some(
                match cmd {
                    Cmd::Play => ("cannot decode track: "@ + err, true),
                    Cmd::Queue => ("cannot decode next track: "@ + err, false),
                    _ => ("seek failed: "@ + err, false),
                },
            )
            &&& !(cmd is Play) ==> after == (OutputView { fault: after.fault, ..output })
            &&& cmd is Play ==> after == (OutputView {
                fault: after.fault,
                queued_seekable: None,
                offset: Duration { nanos: 0 },
                resync: true,
                ..output
            })
        }),
{
}

/// What a source that was built changes: a start begins at zero and can be seeked or not as its
/// file says; a queued one is remembered for later; a seek begins where it went, and says nothing
/// of whether the track can be seeked.
pub proof fn law_a_source_begins_where_it_was_put(
    output: OutputView,
    seekable: bool,
    pos: Duration,
)
    ensures
        output.built(Cmd::Play, seekable) == (OutputView {
            seekable,
            queued_seekable: None,
            offset: Duration { nanos: 0 },
            resync: true,
            ..output
        }),
        output.built(Cmd::Queue, seekable) == (OutputView {
            queued_seekable: Some(seekable),
            ..output
        }),
        output.built(Cmd::Seek(pos), seekable) == (OutputView {
            offset: pos,
            resync: true,
            ..output
        }),
        output.built(Cmd::PlayAt(pos), seekable) == (OutputView {
            offset: pos,
            queued_seekable: None,
            resync: true,
            ..output
        }),
        output.begun(Cmd::Stop) == (OutputView {
            offset: Duration { nanos: 0 },
            resync: true,
            ..output
        }),
        forall|cmd: Cmd| !(cmd is Stop) ==> #[trigger] output.begun(cmd) == output,
{
}

/// Counting: what is loaded is what the output holds; each source that is gone without having been
/// dropped on purpose was crossed out of, but for the last one, which has only ended.
pub proof fn law_every_crossing_is_counted(output: OutputView, len: usize)
    ensures
        ({
            let after = output.counted(len);
            &&& after.queued == len
            &&& after.last_len == len
            &&& !after.resync
            &&& after.position_ms == output.position_ms
            &&& after.fault == output.fault
            &&& output.resync ==> after.advances == output.advances && after.settling == 20
                && after.offset == output.offset && after.seekable == output.seekable
                && after.queued_seekable == output.queued_seekable
            &&& !output.resync && len >= output.last_len ==> after == (OutputView {
                last_len: len,
                queued: len,
                ..output
            })
            &&& !output.resync && len < output.last_len ==> {
                let gone = if len > 0 {
                    output.last_len - len
                } else {
                    output.last_len - 1
                };
                &&& output.advances + gone <= usize::MAX ==> after.advances == output.advances
                    + gone
                &&& after.offset.nanos == 0
                &&& after.queued_seekable is None
                &&& after.settling == output.settling
                &&& output.queued_seekable is None ==> after.seekable == output.seekable
            }
        }),
{
}

/// The position that is told is the output's own one, from where the source began, in whole
/// milliseconds; right after a swap, while the output still speaks of the source that was replaced,
/// it is where the source began.
pub proof fn law_the_position_counts_from_where_the_source_began(
    output: OutputView,
    pos: Duration,
)
    requires
        (output.offset.nanos + pos.nanos) / 1_000_000 <= u64::MAX,
    ensures
        ({
            let after = output.placed(pos);
            let trusted = output.settling == 0 || pos.nanos <= 500_000_000;
            let nanos = output.offset.nanos + if trusted {
                pos.nanos as int
            } else {
                0
            };
            &&& after.position_ms * 1_000_000 <= nanos < (after.position_ms + 1) * 1_000_000
            &&& trusted ==> after.settling == 0
            &&& !trusted ==> after.settling == output.settling - 1
            &&& after == (OutputView {
                settling: after.settling,
                position_ms: after.position_ms,
                ..output
            })
        }),
{
}

} // verus!
