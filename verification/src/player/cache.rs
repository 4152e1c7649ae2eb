//! The on-disk track cache: which download serves whom, how far it has got, what a reader over
//! it may do, and what is dropped when it is full.
//!
//! A partially downloaded file is readable immediately, with reads past the download head
//! waiting until more bytes land. Files are named `<key>.<ext>` when complete and
//! `<key>.<ext>.part` while in flight, so the presence of the final name is itself the "cached"
//! marker.

use vstd::prelude::*;

use crate::jellyfin::client::Unauthorized;
use crate::order;
use crate::order::order_of;
use crate::player::{Event, EventView};
use crate::text;
use crate::text::{cat, chars_of, copy_text, opt_is, str_eq};

verus! {

/// Smallest gap between two progress reports for one download, in bytes.
pub const REPORT_STEP: u64 = 262_144;

/// The server has no file for this item any more.
///
/// Its own type so the player can tell it apart from a network failure and act on it: dropping
/// the track rather than retrying something that cannot succeed.
#[derive(Debug, Clone, Copy, PartialEq, Eq, Structural)]
pub struct Gone;

impl Gone {
    pub fn message(&self) -> (r: String)
        ensures
            r@ == "the server no longer has this track (404)"@,
    {
        "the server no longer has this track (404)".to_owned()
    }
}

// ---------------------------------------------------------------------------------------
// Names.
// ---------------------------------------------------------------------------------------

/// Name of a complete entry.
pub open spec fn final_name_of(key: Seq<char>, ext: Seq<char>) -> Seq<char> {
    key + "."@ + ext
}

/// Name of an entry in flight.
pub open spec fn part_name_of(key: Seq<char>, ext: Seq<char>) -> Seq<char> {
    final_name_of(key, ext) + ".part"@
}

/// Name of a complete entry.
pub fn final_name(key: &str, ext: &str) -> (r: String)
    ensures
        r@ == final_name_of(key@, ext@),
{
    cat(cat(key, ".").as_str(), ext)
}

/// Name of an entry in flight.
pub fn part_name(key: &str, ext: &str) -> (r: String)
    ensures
        r@ == part_name_of(key@, ext@),
{
    cat(final_name(key, ext).as_str(), ".part")
}

/// Whether a file name has the extension of an entry in flight. A name that is nothing but the
/// extension has none.
pub open spec fn is_part(name: Seq<char>) -> bool {
    name.len() > 5 && name.skip(name.len() - 5) == ".part"@
}

/// Whether a file name has the extension of an entry in flight.
pub fn has_part_extension(name: &str) -> (r: bool)
    ensures
        r == is_part(name@),
{
    let chars = chars_of(name);
    proof {
        reveal_strlit(".part");
    }
    if chars.len() <= 5 {
        return false;
    }
    let n = chars.len();
    let r = chars[n - 5] == '.' && chars[n - 4] == 'p' && chars[n - 3] == 'a' && chars[n - 2]
        == 'r' && chars[n - 1] == 't';
    proof {
        let end = name@.skip(n - 5);
        if r {
            assert(end =~= ".part"@);
        } else {
            assert(end[0] == name@[n - 5] && end[1] == name@[n - 4] && end[2] == name@[n - 3]
                && end[3] == name@[n - 2] && end[4] == name@[n - 1]);
        }
    }
    r
}

/// An entry in flight is always told apart by its name.
pub proof fn law_an_entry_in_flight_is_known_by_its_name(key: Seq<char>, ext: Seq<char>)
    ensures
        is_part(part_name_of(key, ext)),
{
    reveal_strlit(".part");
    reveal_strlit(".");
    let name = part_name_of(key, ext);
    assert(name.skip(name.len() - 5) =~= ".part"@);
}

// ---------------------------------------------------------------------------------------
// How far a download has got.
// ---------------------------------------------------------------------------------------

/// How far a download has got. Shared between the task that writes and whoever reads.
#[derive(Debug)]
pub struct Progress {
    pub written: u64,
    pub done: bool,
    pub failed: Option<String>,
}

/// What a reader that wants some bytes learns of a download.
#[derive(Debug, PartialEq, Eq)]
pub enum Wait {
    /// This many bytes are there, and as many as were wanted unless the download is over.
    Ready(u64),
    /// More may come.
    NotYet,
    /// The download failed.
    Failed(String),
}

impl Progress {
    /// A download that has not started.
    pub fn new() -> (r: Self)
        ensures
            r == (Progress { written: 0, done: false, failed: None }),
    {
        Progress { written: 0, done: false, failed: None }
    }

    pub fn publish(&mut self, written: u64)
        ensures
            *final(self) == (Progress { written, ..*old(self) }),
    {
        self.written = written;
    }

    pub fn finish(&mut self)
        ensures
            *final(self) == (Progress { done: true, ..*old(self) }),
    {
        self.done = true;
    }

    pub fn fail(&mut self, message: String)
        ensures
            *final(self) == (Progress { failed: Some(message), done: true, ..*old(self) }),
    {
        self.failed = Some(message);
        self.done = true;
    }

    /// What a reader that wants `want` bytes learns: a failure comes first, and whatever is
    /// there is all there is once the download is over.
    pub fn wait_for(&self, want: u64) -> (r: Wait)
        ensures
            match self.failed {
                Some(message) => r == Wait::Failed(message),
                None => if self.written >= want || self.done {
                    r == Wait::Ready(self.written)
                } else {
                    r == Wait::NotYet
                },
            },
    {
        if let Some(message) = &self.failed {
            return Wait::Failed(message.clone());
        }
        if self.written >= want || self.done {
            return Wait::Ready(self.written);
        }
        Wait::NotYet
    }

    pub fn is_done(&self) -> (r: bool)
        ensures
            r == self.done,
    {
        self.done
    }
}

// ---------------------------------------------------------------------------------------
// Which downloads are running.
// ---------------------------------------------------------------------------------------

/// What a joining reader needs to know about a download already in progress.
#[derive(Debug)]
pub struct Inflight<P> {
    pub key: String,
    /// How to learn how far it has got.
    pub progress: P,
    /// None until the response headers arrive, and for a response with no length at all.
    pub total: Option<u64>,
    /// None likewise. Decides whether the entry can be decoded while it downloads.
    pub content_type: Option<String>,
}

/// Downloads currently running, so a prefetch and a play of the same track share one request
/// instead of racing each other.
#[derive(Debug)]
pub struct Downloads<P> {
    entries: Vec<Inflight<P>>,
}

/// What became of a key that was to be downloaded.
#[derive(Debug, Clone, Copy, PartialEq, Eq, Structural)]
pub enum Claim {
    /// It is being downloaded already, by the entry at this position.
    Joined(usize),
    /// It is reserved for the caller, who has to release it whatever happens.
    Reserved,
}

impl<P> View for Downloads<P> {
    type V = Seq<Inflight<P>>;

    closed spec fn view(&self) -> Seq<Inflight<P>> {
        self.entries@
    }
}

/// Whether a key is being downloaded.
pub open spec fn claimed<P>(entries: Seq<Inflight<P>>, key: Seq<char>) -> bool {
    exists|i: int| 0 <= i < entries.len() && (#[trigger] entries[i]).key@ == key
}

/// Whether each key is downloaded at most once.
pub open spec fn each_once<P>(entries: Seq<Inflight<P>>) -> bool {
    forall|i: int, j: int|
        0 <= i < j < entries.len() ==> (#[trigger] entries[i]).key@ != (#[trigger] entries[j]).key@
}

impl<P> Downloads<P> {
    /// Each key is downloaded at most once.
    pub open spec fn wf(&self) -> bool {
        each_once(self@)
    }

    /// No download at all.
    pub fn new() -> (r: Self)
        ensures
            r.wf(),
            r@ == Seq::<Inflight<P>>::empty(),
    {
        Downloads { entries: Vec::new() }
    }

    /// The download at a position.
    pub fn entry(&self, index: usize) -> (r: &Inflight<P>)
        requires
            index < self@.len(),
        ensures
            *r == self@[index as int],
    {
        &self.entries[index]
    }

    fn find(&self, key: &str) -> (r: Option<usize>)
        ensures
            match r {
                Some(i) => i < self@.len() && self@[i as int].key@ == key@,
                None => !claimed(self@, key@),
            },
    {
        let mut i: usize = 0;
        while i < self.entries.len()
            invariant
                i <= self.entries@.len(),
                forall|j: int| 0 <= j < i ==> (#[trigger] self.entries@[j]).key@ != key@,
            decreases self.entries.len() - i,
        {
            if str_eq(self.entries[i].key.as_str(), key) {
                return Some(i);
            }
            i += 1;
        }
        None
    }

    /// Joins the download of `key`, or reserves the key for one.
    ///
    /// Claimed before the request is sent, not after the response arrives: registering
    /// afterwards would leave the whole round trip in which a second open of the same track
    /// also finds nothing, and both would write the same file.
    pub fn claim(&mut self, key: &str, progress: P) -> (r: Claim)
        requires
            old(self).wf(),
        ensures
            final(self).wf(),
            claimed(final(self)@, key@),
            match r {
                Claim::Joined(i) => {
                    &&& i < old(self)@.len()
                    &&& old(self)@[i as int].key@ == key@
                    &&& final(self)@ == old(self)@
                },
                Claim::Reserved => {
                    &&& !claimed(old(self)@, key@)
                    &&& final(self)@.len() == old(self)@.len() + 1
                    &&& final(self)@.drop_last() == old(self)@
                    &&& final(self)@.last().key@ == key@
                    &&& final(self)@.last().progress == progress
                    &&& final(self)@.last().total is None
                    &&& final(self)@.last().content_type is None
                },
            },
    {
        match self.find(key) {
            Some(i) => Claim::Joined(i),
            None => {
                let ghost before = self@;
                self.entries.push(
                    Inflight { key: key.to_owned(), progress, total: None, content_type: None },
                );
                proof {
                    assert(self@.drop_last() =~= before);
                    assert(self@[before.len() as int].key@ == key@);
                    assert forall|i: int, j: int| 0 <= i < j < self@.len() implies (
                    #[trigger] self@[i]).key@ != (#[trigger] self@[j]).key@ by {
                        assert(before[i].key@ == self@[i].key@);
                    }
                }
                Claim::Reserved
            },
        }
    }

    /// The response headers are in: readers that join from here on learn the length and the
    /// content type. Nothing changes where the key has been released.
    pub fn publish_headers(&mut self, key: &str, total: Option<u64>, content_type: &Option<String>)
        requires
            old(self).wf(),
        ensures
            final(self).wf(),
            final(self)@.len() == old(self)@.len(),
            forall|i: int| 0 <= i < final(self)@.len() ==> {
                let (new, was) = (#[trigger] final(self)@[i], old(self)@[i]);
                &&& new.key@ == was.key@
                &&& new.progress == was.progress
                &&& if was.key@ == key@ {
                    new.total == total && new.content_type == *content_type
                } else {
                    new == was
                }
            },
    {
        if let Some(i) = self.find(key) {
            let ghost before = self@;
            self.entries[i].total = total;
            self.entries[i].content_type = copy_text(content_type);
            proof {
                assert forall|a: int, b: int| 0 <= a < b < self@.len() implies (
                #[trigger] self@[a]).key@ != (#[trigger] self@[b]).key@ by {
                    assert(before[a].key@ != before[b].key@);
                }
                assert forall|j: int| 0 <= j < self@.len() && j != i implies (
                #[trigger] self@[j]).key@ != key@ && self@[j] == before[j] by {
                    if j < i {
                        assert(before[j].key@ != before[i as int].key@);
                    } else {
                        assert(before[i as int].key@ != before[j].key@);
                    }
                }
            }
        }
    }

    /// The download of `key` is over, whatever came of it.
    pub fn release(&mut self, key: &str)
        requires
            old(self).wf(),
        ensures
            final(self).wf(),
            !claimed(final(self)@, key@),
            !claimed(old(self)@, key@) ==> final(self)@ == old(self)@,
            forall|i: int|
                0 <= i < old(self)@.len() && (#[trigger] old(self)@[i]).key@ == key@ ==> (final(self)@
                    == old(self)@.remove(i)),
    {
        match self.find(key) {
            Some(i) => {
                let ghost before = self@;
                let _released = self.entries.remove(i);
                proof {
                    let after = self@;
                    assert(after == before.remove(i as int));
                    assert forall|a: int, b: int| 0 <= a < b < after.len() implies (
                    #[trigger] after[a]).key@ != (#[trigger] after[b]).key@ by {
                        let x = if a < i {
                            a
                        } else {
                            a + 1
                        };
                        let y = if b < i {
                            b
                        } else {
                            b + 1
                        };
                        assert(before[x].key@ != before[y].key@);
                    }
                    assert forall|a: int| 0 <= a < after.len() implies (
                    #[trigger] after[a]).key@ != key@ by {
                        if a < i {
                            assert(before[a].key@ != before[i as int].key@);
                        } else {
                            assert(before[i as int].key@ != before[a + 1].key@);
                        }
                    }
                    assert forall|j: int| 0 <= j < before.len() && (#[trigger] before[j]).key@
                        == key@ implies j == i by {
                        if j < i {
                            assert(before[j].key@ != before[i as int].key@);
                        } else if j > i {
                            assert(before[i as int].key@ != before[j].key@);
                        }
                    }
                }
            },
            None => {},
        }
    }
}

// ---------------------------------------------------------------------------------------
// One download, from the answer of the server to the file.
// ---------------------------------------------------------------------------------------

/// What the status of a stream's response means.
#[derive(Debug, Clone, Copy, PartialEq, Eq, Structural)]
pub enum StreamStatus {
    /// The body is the track.
    Streaming,
    /// The item no longer resolves to a file on the server. Not a transient failure: trying
    /// again accomplishes nothing.
    Gone,
    /// The session has to be recreated.
    Unauthorized,
    /// Any other client or server error.
    Refused,
}

/// What the status of a stream's response means.
pub fn stream_status(status: u16) -> (r: StreamStatus)
    ensures
        r == (if status == 404 {
            StreamStatus::Gone
        } else if status == 401 {
            StreamStatus::Unauthorized
        } else if 400 <= status < 600 {
            StreamStatus::Refused
        } else {
            StreamStatus::Streaming
        }),
{
    if status == 404 {
        StreamStatus::Gone
    } else if status == 401 {
        StreamStatus::Unauthorized
    } else if 400 <= status && status < 600 {
        StreamStatus::Refused
    } else {
        StreamStatus::Streaming
    }
}

/// Throttled progress reporting for one download.
#[derive(Debug)]
pub struct Report {
    /// False where nobody listens.
    pub enabled: bool,
    pub id: String,
    pub total: Option<u64>,
    /// Byte count the next report is due at.
    pub next: u64,
}

/// How far apart two reports of one download are, in bytes: a fiftieth of a known length, and
/// never less than the smallest gap.
pub open spec fn report_step(total: Option<u64>) -> int {
    match total {
        Some(total) => if total / 50 > REPORT_STEP {
            (total / 50) as int
        } else {
            REPORT_STEP as int
        },
        None => REPORT_STEP as int,
    }
}

impl Report {
    /// Whether `got` bytes are worth a report.
    pub open spec fn due(&self, got: u64) -> bool {
        self.enabled && got >= self.next
    }

    /// `got` bytes have arrived. Says what to report of it, if anything.
    pub fn publish(&mut self, got: u64) -> (r: Option<Event>)
        requires
            got + report_step(old(self).total) <= u64::MAX,
        ensures
            final(self).enabled == old(self).enabled,
            final(self).id == old(self).id,
            final(self).total == old(self).total,
            final(self).next == (if old(self).due(got) {
                got + report_step(old(self).total)
            } else {
                old(self).next as int
            }),
            match r {
                Some(event) => old(self).due(got) && event@ == (EventView::Buffering {
                    id: old(self).id@,
                    got,
                    total: old(self).total,
                }),
                None => !old(self).due(got),
            },
    {
        if !self.enabled || got < self.next {
            return None;
        }
        let step = match self.total {
            Some(total) => if total / 50 > REPORT_STEP {
                total / 50
            } else {
                REPORT_STEP
            },
            None => REPORT_STEP,
        };
        self.next = got + step;
        Some(Event::Buffering { id: self.id.clone(), got, total: self.total })
    }
}

/// The body of a response being written to a file.
#[derive(Debug)]
pub struct Transfer {
    pub written: u64,
    pub report: Report,
}

/// What is to become of the file of a download.
#[derive(Debug, PartialEq, Eq)]
pub enum Ending {
    /// It is complete: give it its final name.
    Rename,
    /// It is truncated, and must not be mistaken for a cached track: remove it, and fail with
    /// this message.
    Discard(String),
}

/// What is to become of the progress of a download.
#[derive(Debug, PartialEq, Eq)]
pub enum Closing {
    /// Everything is there: finish, and see that the cache fits in its budget.
    Finish,
    /// Fail with this message.
    Fail(String),
}

impl Transfer {
    /// A download that has just been answered.
    pub fn new(id: &str, total: Option<u64>, enabled: bool) -> (r: Self)
        ensures
            r.written == 0,
            r.report.enabled == enabled,
            r.report.id@ == id@,
            r.report.total == total,
            r.report.next == 0,
    {
        Transfer { written: 0, report: Report { enabled, id: id.to_owned(), total, next: 0 } }
    }

    /// A chunk of `len` bytes has been written and can be read back. Moves the progress on, and
    /// says what to report of it, if anything.
    pub fn chunk(&mut self, len: u64, progress: &mut Progress) -> (r: Option<Event>)
        requires
            old(self).written + len + report_step(old(self).report.total) <= u64::MAX,
        ensures
            final(self).written == old(self).written + len,
            *final(progress) == (Progress { written: final(self).written, ..*old(progress) }),
            final(self).report.enabled == old(self).report.enabled,
            final(self).report.id == old(self).report.id,
            final(self).report.total == old(self).report.total,
            final(self).report.next == (if old(self).report.due(final(self).written) {
                final(self).written + report_step(old(self).report.total)
            } else {
                old(self).report.next as int
            }),
            match r {
                Some(event) => old(self).report.due(final(self).written) && event@
                    == (EventView::Buffering {
                    id: old(self).report.id@,
                    got: final(self).written,
                    total: old(self).report.total,
                }),
                None => !old(self).report.due(final(self).written),
            },
    {
        self.written = self.written + len;
        progress.publish(self.written);
        self.report.publish(self.written)
    }

    /// The stream ended, or broke off with a message.
    ///
    /// A response with no body would otherwise be renamed into place and cached as a
    /// permanently unplayable track.
    pub fn end(&self, broke_off: Option<String>) -> (r: Ending)
        ensures
            match broke_off {
                Some(message) => r is Discard && r->Discard_0@ == message@,
                None => if self.written == 0 {
                    r is Discard && r->Discard_0@ == "server returned an empty body"@
                } else {
                    r == Ending::Rename
                },
            },
    {
        match broke_off {
            Some(message) => Ending::Discard(message),
            None => if self.written == 0 {
                Ending::Discard("server returned an empty body".to_owned())
            } else {
                Ending::Rename
            },
        }
    }
}

/// What to do once a complete file has been given its final name, or could not be.
///
/// Reported as a failure rather than a completion where it could not: whoever waits goes on to
/// open the final name.
pub fn renamed(failure: Option<String>) -> (r: Closing)
    ensures
        match failure {
            Some(message) => r is Fail && r->Fail_0@ == "cannot finalise cache entry: "@
                + message@,
            None => r == Closing::Finish,
        },
{
    match failure {
        Some(message) => Closing::Fail(cat("cannot finalise cache entry: ", message.as_str())),
        None => Closing::Finish,
    }
}

/// What waiting for a whole download failed with.
pub fn wait_message(key: &str, message: &str) -> (r: String)
    ensures
        r@ == "downloading "@ + key@ + ": "@ + message@,
{
    cat(cat(cat("downloading ", key).as_str(), ": ").as_str(), message)
}

/// Two reports of one download are at least a fiftieth of the file apart, and at least the
/// smallest gap.
pub proof fn law_reports_are_spread_out(before: Report, after: Report, got: u64, later: u64)
    requires
        before.due(got),
        after.enabled == before.enabled,
        after.total == before.total,
        after.next == got + report_step(before.total),
        after.due(later),
    ensures
        later - got >= REPORT_STEP,
        before.total is Some ==> later - got >= before.total.unwrap() / 50,
{
}

// ---------------------------------------------------------------------------------------
// Reading.
// ---------------------------------------------------------------------------------------

/// Where to move a reader to.
#[derive(Debug, Clone, Copy, PartialEq, Eq, Structural)]
pub enum SeekFrom {
    Start(u64),
    Current(i64),
    End(i64),
}

/// Why a reader could not be moved.
#[derive(Debug, Clone, Copy, PartialEq, Eq, Structural)]
pub enum SeekError {
    LengthUnknown,
    BeforeStart,
}

impl SeekError {
    pub fn message(&self) -> (r: String)
        ensures
            r@ == (match *self {
                SeekError::LengthUnknown => "length unknown, cannot seek from end"@,
                SeekError::BeforeStart => "seek before start of file"@,
            }),
    {
        match self {
            SeekError::LengthUnknown => "length unknown, cannot seek from end".to_owned(),
            SeekError::BeforeStart => "seek before start of file".to_owned(),
        }
    }
}

/// How many bytes of the file to read next.
#[derive(Debug, PartialEq, Eq)]
pub enum ReadLimit {
    /// At most this many.
    Bytes(usize),
    /// There is nothing left to read.
    End,
    /// More may come: ask again.
    NotYet,
    /// The download failed.
    Failed(String),
}

/// What a read of the file came to.
#[derive(Debug, Clone, Copy, PartialEq, Eq, Structural)]
pub enum ReadOutcome {
    /// This many bytes.
    Read(usize),
    /// There is nothing left to read.
    End,
    /// The writer's count is ahead of what is visible in the file: try again.
    Retry,
}

/// A reader over a cache entry, complete or still downloading.
#[derive(Debug)]
pub struct CacheReader {
    pos: u64,
    total: Option<u64>,
    /// True while the entry is being downloaded.
    live: bool,
    content_type: Option<String>,
}

/// What a [`CacheReader`] knows.
pub struct CacheReaderView {
    pub pos: int,
    pub total: Option<u64>,
    pub live: bool,
    pub content_type: Option<Seq<char>>,
}

impl View for CacheReader {
    type V = CacheReaderView;

    closed spec fn view(&self) -> CacheReaderView {
        CacheReaderView {
            pos: self.pos as int,
            total: self.total,
            live: self.live,
            content_type: text::text_opt(self.content_type),
        }
    }
}

/// A file offset as a signed number. Those past the largest signed one are taken for negative.
pub open spec fn signed(n: u64) -> int {
    if n <= i64::MAX {
        n as int
    } else {
        n - 0x1_0000_0000_0000_0000
    }
}

impl CacheReaderView {
    /// Where a seek goes, if the length of the entry is known where that matters.
    pub open spec fn target(self, from: SeekFrom) -> Option<int> {
        match from {
            SeekFrom::Start(n) => Some(signed(n)),
            SeekFrom::Current(d) => Some(self.pos + d),
            SeekFrom::End(d) => match self.total {
                Some(total) => Some(signed(total) + d),
                None => None,
            },
        }
    }
}

fn to_signed(n: u64) -> (r: i64)
    ensures
        r == signed(n),
{
    if n <= 0x7fff_ffff_ffff_ffff {
        n as i64
    } else {
        (n as i128 - 0x1_0000_0000_0000_0000) as i64
    }
}

impl CacheReader {
    /// The position is a file offset.
    pub open spec fn wf(&self) -> bool {
        0 <= self@.pos <= i64::MAX
    }

    /// A reader over an entry that is on disk, of so many bytes.
    pub fn complete(total: u64) -> (r: Self)
        ensures
            r.wf(),
            r@ == (CacheReaderView { pos: 0, total: Some(total), live: false, content_type: None }),
    {
        CacheReader { pos: 0, total: Some(total), live: false, content_type: None }
    }

    /// A reader over an entry that is being downloaded.
    pub fn downloading(total: Option<u64>, content_type: Option<String>) -> (r: Self)
        ensures
            r.wf(),
            r@ == (CacheReaderView {
                pos: 0,
                total,
                live: true,
                content_type: text::text_opt(content_type),
            }),
    {
        CacheReader { pos: 0, total, live: true, content_type }
    }

    /// Where the next read starts.
    pub fn position(&self) -> (r: u64)
        ensures
            r == self@.pos,
    {
        self.pos
    }

    /// Length of the entry, when known. Complete entries always know it; a still-downloading
    /// one only does if the server said so.
    pub fn byte_len(&self) -> (r: Option<u64>)
        ensures
            r == self@.total,
    {
        self.total
    }

    /// True when the whole entry is on disk, so reads never block and the decoder may seek
    /// anywhere.
    pub fn is_complete(&self) -> (r: bool)
        ensures
            r == !self@.live,
    {
        !self.live
    }

    /// Whether this entry can be decoded before the download finishes.
    ///
    /// Only mp3 qualifies: its demuxer reads the first frame and stops, and the format is
    /// self-synchronising. Other containers probe by seeking, and would fail or stall on a
    /// partial file.
    pub fn can_decode_while_downloading(&self) -> (r: bool)
        ensures
            r == (self@.content_type == Some("audio/mpeg"@) || self@.content_type == Some(
                "audio/mp3"@,
            )),
    {
        opt_is(&self.content_type, "audio/mpeg") || opt_is(&self.content_type, "audio/mp3")
    }

    /// Whether playback can start from this reader, or has to wait for the whole download.
    pub fn can_play_now(&self) -> (r: bool)
        ensures
            r == (!self@.live || self@.content_type == Some("audio/mpeg"@)
                || self@.content_type == Some("audio/mp3"@)),
    {
        self.is_complete() || self.can_decode_while_downloading()
    }

    /// How many bytes to read next into a buffer of `room`, `progress` being how far the
    /// download has got. Nothing blocks once the entry is on disk.
    pub fn limit(&self, progress: &Progress, room: usize) -> (r: ReadLimit)
        requires
            self.wf(),
        ensures
            if !self@.live {
                r == ReadLimit::Bytes(room)
            } else {
                match progress.failed {
                    Some(message) => r == ReadLimit::Failed(message),
                    None => if progress.written > self@.pos {
                        r == ReadLimit::Bytes(
                            if progress.written - self@.pos < room {
                                (progress.written - self@.pos) as usize
                            } else {
                                room
                            },
                        )
                    } else if progress.done {
                        r == ReadLimit::End
                    } else {
                        r == ReadLimit::NotYet
                    },
                }
            },
    {
        if !self.live {
            return ReadLimit::Bytes(room);
        }
        match progress.wait_for(self.pos + 1) {
            Wait::Failed(message) => ReadLimit::Failed(message),
            Wait::NotYet => ReadLimit::NotYet,
            Wait::Ready(available) => {
                if available <= self.pos {
                    ReadLimit::End
                } else if available - self.pos < room as u64 {
                    ReadLimit::Bytes((available - self.pos) as usize)
                } else {
                    ReadLimit::Bytes(room)
                }
            },
        }
    }

    /// A read of the file gave `n` bytes, `done` being whether the download is over.
    ///
    /// None at all, while more may come, means the writer's count is ahead of what is visible
    /// in the file: taking that for the end would look like one to the decoder.
    pub fn read(&mut self, n: usize, done: bool) -> (r: ReadOutcome)
        requires
            old(self).wf(),
            old(self)@.pos + n <= i64::MAX,
        ensures
            final(self).wf(),
            final(self)@ == (CacheReaderView { pos: old(self)@.pos + n, ..old(self)@ }),
            r == (if n > 0 {
                ReadOutcome::Read(n)
            } else if old(self)@.live && !done {
                ReadOutcome::Retry
            } else {
                ReadOutcome::End
            }),
    {
        if n > 0 {
            self.pos = self.pos + n as u64;
            ReadOutcome::Read(n)
        } else if self.live && !done {
            ReadOutcome::Retry
        } else {
            ReadOutcome::End
        }
    }

    /// Moves the reader. Going past the download head is allowed; the next read waits.
    pub fn seek(&mut self, from: SeekFrom) -> (r: Result<u64, SeekError>)
        requires
            old(self).wf(),
            old(self)@.target(from) is Some ==> i64::MIN <= old(self)@.target(from).unwrap()
                <= i64::MAX,
        ensures
            final(self).wf(),
            match old(self)@.target(from) {
                None => r == Err::<u64, SeekError>(SeekError::LengthUnknown) && final(self)@
                    == old(self)@,
                Some(target) => if target < 0 {
                    r == Err::<u64, SeekError>(SeekError::BeforeStart) && final(self)@ == old(
                        self,
                    )@
                } else {
                    r == Ok::<u64, SeekError>(target as u64) && final(self)@ == (CacheReaderView {
                        pos: target,
                        ..old(self)@
                    })
                },
            },
    {
        let target: i64 = match from {
            SeekFrom::Start(n) => to_signed(n),
            SeekFrom::Current(d) => self.pos as i64 + d,
            // Seeking from the end needs a known length.
            SeekFrom::End(d) => match self.total {
                Some(total) => to_signed(total) + d,
                None => return Err(SeekError::LengthUnknown),
            },
        };
        if target < 0 {
            return Err(SeekError::BeforeStart);
        }
        self.pos = target as u64;
        Ok(self.pos)
    }
}

// ---------------------------------------------------------------------------------------
// Keeping to the budget.
// ---------------------------------------------------------------------------------------

/// A file in the cache directory.
#[derive(Debug)]
pub struct Entry {
    pub name: String,
    pub len: u64,
    pub is_file: bool,
    /// When it was last used, counted from any fixed moment.
    pub used: u128,
}

/// What an [`Entry`] says.
pub struct EntryView {
    pub name: Seq<char>,
    pub len: u64,
    pub is_file: bool,
    pub used: u128,
}

impl View for Entry {
    type V = EntryView;

    open spec fn view(&self) -> EntryView {
        EntryView { name: self.name@, len: self.len, is_file: self.is_file, used: self.used }
    }
}

impl Clone for Entry {
    fn clone(&self) -> (r: Self)
        ensures
            r@ == self@,
    {
        Entry {
            name: self.name.clone(),
            len: self.len,
            is_file: self.is_file,
            used: self.used,
        }
    }
}

/// What each entry of a list says.
pub open spec fn entry_views(v: Seq<Entry>) -> Seq<EntryView> {
    v.map_values(|e: Entry| e@)
}

/// Whether an entry counts: a file that is not in flight.
pub open spec fn counts(entry: EntryView) -> bool {
    entry.is_file && !is_part(entry.name)
}

/// The entries that count.
pub open spec fn finished(entries: Seq<EntryView>) -> Seq<EntryView> {
    entries.filter(|e: EntryView| counts(e))
}

/// How many bytes entries hold.
pub open spec fn bytes_of(entries: Seq<EntryView>) -> int
    decreases entries.len(),
{
    if entries.len() == 0 {
        0
    } else {
        bytes_of(entries.drop_last()) + entries.last().len
    }
}

/// When each entry was last used.
pub open spec fn uses_of(entries: Seq<EntryView>) -> Seq<u128> {
    entries.map_values(|e: EntryView| e.used)
}

/// What is left is never negative, and a part never more than the whole.
proof fn lemma_bytes_prefix(entries: Seq<EntryView>, n: int)
    requires
        0 <= n <= entries.len(),
    ensures
        0 <= bytes_of(entries.take(n)) <= bytes_of(entries),
    decreases entries.len(),
{
    if n == entries.len() {
        assert(entries.take(n) =~= entries);
        if n > 0 {
            lemma_bytes_prefix(entries.drop_last(), n - 1);
        }
    } else {
        assert(entries.drop_last().take(n) =~= entries.take(n));
        lemma_bytes_prefix(entries.drop_last(), n);
    }
}

/// Without one entry there are its bytes less.
proof fn lemma_bytes_remove(entries: Seq<EntryView>, i: int)
    requires
        0 <= i < entries.len(),
    ensures
        bytes_of(entries.remove(i)) == bytes_of(entries) - entries[i].len,
    decreases entries.len(),
{
    if i == entries.len() - 1 {
        assert(entries.remove(i) =~= entries.drop_last());
    } else {
        assert(entries.remove(i).drop_last() =~= entries.drop_last().remove(i));
        assert(entries.remove(i).last() == entries.last());
        lemma_bytes_remove(entries.drop_last(), i);
    }
}

/// The order of entries does not matter for how many bytes they hold.
proof fn lemma_bytes_arranged(entries: Seq<EntryView>, order: Seq<int>)
    requires
        order::is_permutation(order, entries.len()),
    ensures
        bytes_of(order::arranged(entries, order)) == bytes_of(entries),
    decreases entries.len(),
{
    let n = entries.len();
    if n == 0 {
        assert(order::arranged(entries, order) =~= entries);
    } else {
        order::lemma_without_last(entries, order);
        let at = order.index_of(n - 1);
        lemma_bytes_arranged(entries.drop_last(), order.remove(at));
        lemma_bytes_remove(order::arranged(entries, order), at);
    }
}

fn finished_of(entries: &Vec<Entry>) -> (r: Vec<Entry>)
    ensures
        entry_views(r@) == finished(entry_views(entries@)),
{
    let mut r: Vec<Entry> = Vec::new();
    let mut i: usize = 0;
    let ghost all = entry_views(entries@);
    proof {
        reveal(Seq::filter);
        assert(entry_views(r@) =~= finished(all.take(0)));
    }
    while i < entries.len()
        invariant
            i <= entries@.len(),
            all == entry_views(entries@),
            entry_views(r@) == finished(all.take(i as int)),
        decreases entries.len() - i,
    {
        let ghost before = entry_views(r@);
        let counted = entries[i].is_file && !has_part_extension(entries[i].name.as_str());
        if counted {
            r.push(entries[i].clone());
        }
        i += 1;
        proof {
            reveal(Seq::filter);
            assert(all.take(i as int).drop_last() =~= all.take(i - 1));
            assert(all.take(i as int).last() == all[i - 1]);
            if counted {
                assert(entry_views(r@) =~= before.push(all[i - 1]));
            }
        }
    }
    assert(all.take(i as int) =~= all);
    r
}

fn sum_of(entries: &Vec<Entry>) -> (r: u64)
    requires
        bytes_of(entry_views(entries@)) <= u64::MAX,
    ensures
        r == bytes_of(entry_views(entries@)),
{
    let mut r: u64 = 0;
    let mut i: usize = 0;
    let ghost all = entry_views(entries@);
    while i < entries.len()
        invariant
            i <= entries@.len(),
            all == entry_views(entries@),
            bytes_of(all) <= u64::MAX,
            r == bytes_of(all.take(i as int)),
        decreases entries.len() - i,
    {
        proof {
            assert(all.take(i + 1).drop_last() =~= all.take(i as int));
            lemma_bytes_prefix(all, i + 1);
        }
        r = r + entries[i].len;
        i += 1;
    }
    assert(all.take(i as int) =~= all);
    r
}

/// Dropping least recently used entries until the cache fits in its budget.
#[derive(Debug)]
pub struct Prune {
    entries: Vec<Entry>,
    at: usize,
    total: u64,
    max_bytes: u64,
}

/// What a [`Prune`] knows.
#[verifier::ext_equal]
pub struct PruneView {
    /// The candidates, least recently used first.
    pub entries: Seq<EntryView>,
    /// How many of them have been tried.
    pub at: int,
    /// Bytes still held.
    pub total: int,
    pub max_bytes: u64,
}

impl View for Prune {
    type V = PruneView;

    closed spec fn view(&self) -> PruneView {
        PruneView {
            entries: entry_views(self.entries@),
            at: self.at as int,
            total: self.total as int,
            max_bytes: self.max_bytes,
        }
    }
}

impl PruneView {
    /// What has not been tried is still held.
    pub open spec fn wf(self) -> bool {
        &&& 0 <= self.at <= self.entries.len()
        &&& self.total >= bytes_of(self.entries.skip(self.at))
    }

    /// What to remove next, if the budget is exceeded.
    pub open spec fn next(self) -> Option<EntryView> {
        if self.total > self.max_bytes && self.at < self.entries.len() {
            Some(self.entries[self.at])
        } else {
            None
        }
    }

    /// After an attempt to remove it. One that failed frees nothing.
    pub open spec fn tried(self, removed: bool) -> PruneView {
        PruneView {
            at: self.at + 1,
            total: if removed {
                self.total - self.entries[self.at].len
            } else {
                self.total
            },
            ..self
        }
    }

    /// After every removal that is needed has worked.
    pub open spec fn run(self) -> PruneView
        decreases self.entries.len() - self.at,
    {
        if self.next() is Some {
            self.tried(true).run()
        } else {
            self
        }
    }
}

/// Whether `sorted` is what counts of `entries`, least recently used first.
pub open spec fn least_recent_first(sorted: Seq<EntryView>, entries: Seq<EntryView>) -> bool {
    exists|order: Seq<int>|
        #[trigger] order::is_order(order, uses_of(finished(entries))) && sorted == order::arranged(
            finished(entries),
            order,
        )
}

/// Without the first entry there are its bytes less.
proof fn lemma_bytes_skip(entries: Seq<EntryView>, at: int)
    requires
        0 <= at < entries.len(),
    ensures
        bytes_of(entries.skip(at)) == entries[at].len + bytes_of(entries.skip(at + 1)),
        bytes_of(entries.skip(at + 1)) >= 0,
{
    let rest = entries.skip(at);
    lemma_bytes_remove(rest, 0);
    assert(rest.remove(0) =~= entries.skip(at + 1));
    lemma_bytes_prefix(entries.skip(at + 1), 0);
}

impl Prune {
    /// What has not been tried is still held.
    pub open spec fn wf(&self) -> bool {
        self@.wf()
    }

    /// What the cache directory holds, and what it may hold.
    pub fn new(entries: &Vec<Entry>, max_bytes: u64) -> (r: Self)
        requires
            bytes_of(finished(entry_views(entries@))) <= u64::MAX,
        ensures
            r.wf(),
            least_recent_first(r@.entries, entry_views(entries@)),
            r@.at == 0,
            r@.total == bytes_of(r@.entries),
            r@.total == bytes_of(finished(entry_views(entries@))),
            r@.max_bytes == max_bytes,
    {
        let candidates = finished_of(entries);
        let ghost all = entry_views(candidates@);
        let total = sum_of(&candidates);
        let mut uses: Vec<u128> = Vec::new();
        let mut i: usize = 0;
        while i < candidates.len()
            invariant
                i <= candidates@.len(),
                all == entry_views(candidates@),
                uses@ == uses_of(all).take(i as int),
            decreases candidates.len() - i,
        {
            uses.push(candidates[i].used);
            i += 1;
            assert(uses_of(all).take(i as int) =~= uses_of(all).take(i - 1).push(
                uses_of(all)[i - 1],
            ));
        }
        assert(uses@ =~= uses_of(all));
        let order = order_of(&uses);
        let ghost positions = order::positions(order@);
        let ghost want = order::arranged(all, positions);
        let mut sorted: Vec<Entry> = Vec::new();
        let mut k: usize = 0;
        assert(entry_views(sorted@) =~= want.take(0));
        while k < order.len()
            invariant
                k <= order@.len(),
                order@.len() == candidates@.len(),
                positions == order::positions(order@),
                order::is_permutation(positions, candidates@.len()),
                all == entry_views(candidates@),
                want == order::arranged(all, positions),
                entry_views(sorted@) == want.take(k as int),
            decreases order.len() - k,
        {
            proof {
                assert(positions[k as int] == order@[k as int]);
            }
            let ghost before = entry_views(sorted@);
            sorted.push(candidates[order[k]].clone());
            k += 1;
            proof {
                assert(entry_views(sorted@) =~= before.push(want[k - 1]));
                assert(want.take(k as int) =~= want.take(k - 1).push(want[k - 1]));
            }
        }
        proof {
            assert(want.take(k as int) =~= want);
            lemma_bytes_arranged(all, positions);
            assert(want.skip(0) =~= want);
        }
        Prune { entries: sorted, at: 0, total, max_bytes }
    }

    /// What to remove next. None once the cache fits, or nothing is left to try.
    pub fn next(&self) -> (r: Option<&Entry>)
        requires
            self.wf(),
        ensures
            self@.next() == (match r {
                Some(entry) => Some(entry@),
                None => None,
            }),
    {
        if self.total > self.max_bytes && self.at < self.entries.len() {
            Some(&self.entries[self.at])
        } else {
            None
        }
    }

    /// What [`Prune::next`] named was removed, or could not be.
    pub fn tried(&mut self, removed: bool)
        requires
            old(self).wf(),
            old(self)@.next() is Some,
        ensures
            final(self).wf(),
            final(self)@ == old(self)@.tried(removed),
    {
        proof {
            lemma_bytes_skip(self@.entries, self@.at);
        }
        if removed {
            self.total = self.total - self.entries[self.at].len;
        }
        let count = self.entries.len();
        assert(self.at < count);
        self.at = self.at + 1;
    }
}

/// Pruning ends within the budget, having removed the least recently used entries and no more
/// of them than it takes.
pub proof fn law_pruning_ends_within_the_budget(prune: PruneView)
    requires
        0 <= prune.at <= prune.entries.len(),
        prune.total == bytes_of(prune.entries.skip(prune.at)),
    ensures
        ({
            let after = prune.run();
            &&& prune.at <= after.at <= after.entries.len()
            &&& after.entries == prune.entries
            &&& after.total == bytes_of(prune.entries.skip(after.at))
            &&& after.total <= prune.max_bytes
            &&& after.at > prune.at ==> bytes_of(prune.entries.skip(after.at - 1))
                > prune.max_bytes
        }),
    decreases prune.entries.len() - prune.at,
{
    if prune.at < prune.entries.len() {
        lemma_bytes_skip(prune.entries, prune.at);
    } else {
        assert(prune.entries.skip(prune.at) =~= Seq::empty());
    }
    if prune.next() is Some {
        law_pruning_ends_within_the_budget(prune.tried(true));
    }
}

/// Partial downloads are never candidates, and of two candidates the one that was used longer
/// ago goes first.
pub proof fn law_only_finished_entries_are_pruned_oldest_first(
    sorted: Seq<EntryView>,
    entries: Seq<EntryView>,
)
    requires
        least_recent_first(sorted, entries),
    ensures
        forall|i: int|
            0 <= i < sorted.len() ==> #[trigger] sorted[i].is_file && !is_part(sorted[i].name)
                && entries.contains(sorted[i]),
        forall|i: int, j: int|
            0 <= i < j < sorted.len() ==> (#[trigger] sorted[i]).used <= (
            #[trigger] sorted[j]).used,
{
    let kept = finished(entries);
    let pred = |e: EntryView| counts(e);
    let order = choose|order: Seq<int>|
        #[trigger] order::is_order(order, uses_of(kept)) && sorted == order::arranged(kept, order);
    assert forall|i: int| 0 <= i < sorted.len() implies #[trigger] sorted[i].is_file && !is_part(
        sorted[i].name,
    ) && entries.contains(sorted[i]) by {
        assert(0 <= order[i] < kept.len());
        entries.lemma_filter_pred(pred, order[i]);
        entries.lemma_filter_contains_rev(pred, kept[order[i]]);
    }
    assert forall|i: int, j: int| 0 <= i < j < sorted.len() implies (#[trigger] sorted[i]).used <= (
    #[trigger] sorted[j]).used by {
        assert(order::precedes(uses_of(kept), order[i], order[j]));
    }
}

// ---------------------------------------------------------------------------------------
// The cache as a whole.
// ---------------------------------------------------------------------------------------

/// The track cache: what it may hold, and which downloads are running into it.
#[derive(Debug)]
pub struct Cache<P> {
    max_bytes: u64,
    downloads: Downloads<P>,
}

/// What a [`Cache`] knows.
pub struct CacheView<P> {
    pub max_bytes: u64,
    pub downloads: Seq<Inflight<P>>,
}

impl<P> View for Cache<P> {
    type V = CacheView<P>;

    closed spec fn view(&self) -> CacheView<P> {
        CacheView { max_bytes: self.max_bytes, downloads: self.downloads@ }
    }
}

/// How an entry is opened.
#[derive(Debug)]
pub enum Opening {
    /// It is on disk, under this name. Opening it counts as a use.
    OnDisk(String),
    /// It is being downloaded into this file, by the download at this position.
    Join { part: String, index: usize, reader: CacheReader },
    /// Create this file, and request the track. The key is reserved until it is released.
    Request(String),
}

/// What came of a request for a track.
#[derive(Debug)]
pub enum Answer {
    /// No response at all, with what went wrong.
    Unreachable(String),
    /// The headers of a response, and what a client says of a status that is an error.
    Response {
        status: u16,
        refusal: String,
        total: Option<u64>,
        content_type: Option<String>,
    },
}

/// What it means that a track is not streamed.
#[derive(Debug, Clone, Copy, PartialEq, Eq, Structural)]
pub enum RefusalKind {
    /// The server has no such file at all.
    Gone,
    /// The session has to be recreated.
    Unauthorized,
    /// Anything else, which may well work next time.
    Other,
}

/// Why a track is not streamed.
#[derive(Debug)]
pub struct Refusal {
    pub message: String,
    pub kind: RefusalKind,
}

/// What is said of an answer that is no stream, and what it means.
pub open spec fn refusal_of(key: Seq<char>, answer: Answer) -> Option<(Seq<char>, RefusalKind)> {
    match answer {
        Answer::Unreachable(message) => Some(
            ("GET "@ + key + ": "@ + message@, RefusalKind::Other),
        ),
        Answer::Response { status, refusal, total, content_type } => if status == 404 {
            Some(
                (
                    "streaming "@ + key + ": "@ + "the server no longer has this track (404)"@,
                    RefusalKind::Gone,
                ),
            )
        } else if status == 401 {
            Some(
                (
                    "streaming "@ + key + ": "@ + "credentials rejected by server (401)"@,
                    RefusalKind::Unauthorized,
                ),
            )
        } else if 400 <= status < 600 {
            Some(("streaming "@ + key + ": "@ + refusal@, RefusalKind::Other))
        } else {
            None
        },
    }
}

impl<P> Cache<P> {
    /// Each key is downloaded at most once.
    pub open spec fn wf(&self) -> bool {
        each_once(self@.downloads)
    }

    /// A cache with no download running.
    pub fn new(max_bytes: u64) -> (r: Self)
        ensures
            r.wf(),
            r@.max_bytes == max_bytes,
            r@.downloads == Seq::<Inflight<P>>::empty(),
    {
        Cache { max_bytes, downloads: Downloads::new() }
    }

    /// Changes the ceiling. The caller prunes if it wants the new one applied now rather than
    /// after the next download.
    pub fn set_max_bytes(&mut self, max_bytes: u64)
        requires
            old(self).wf(),
        ensures
            final(self).wf(),
            final(self)@ == (CacheView { max_bytes, ..old(self)@ }),
    {
        self.max_bytes = max_bytes;
    }

    /// Bytes currently held, counting only finished entries: the same set that pruning
    /// measures, so the two agree about what "full" means.
    pub fn size_of(entries: &Vec<Entry>) -> (r: u64)
        requires
            bytes_of(finished(entry_views(entries@))) <= u64::MAX,
        ensures
            r == bytes_of(finished(entry_views(entries@))),
    {
        sum_of(&finished_of(entries))
    }

    /// What to drop so that the cache fits in its budget. Partial downloads are never
    /// candidates.
    pub fn prune(&self, entries: &Vec<Entry>) -> (r: Prune)
        requires
            bytes_of(finished(entry_views(entries@))) <= u64::MAX,
        ensures
            r.wf(),
            least_recent_first(r@.entries, entry_views(entries@)),
            r@.at == 0,
            r@.total == bytes_of(r@.entries),
            r@.total == bytes_of(finished(entry_views(entries@))),
            r@.max_bytes == self@.max_bytes,
    {
        Prune::new(entries, self.max_bytes)
    }

    /// How to open the entry of `key`, `on_disk` being whether a complete copy exists.
    pub fn open(&mut self, key: &str, ext: &str, on_disk: bool, progress: P) -> (r: Opening)
        requires
            old(self).wf(),
        ensures
            final(self).wf(),
            final(self)@.max_bytes == old(self)@.max_bytes,
            r is OnDisk <==> on_disk,
            r is Join <==> !on_disk && claimed(old(self)@.downloads, key@),
            match r {
                Opening::OnDisk(name) => name@ == final_name_of(key@, ext@) && final(self)@
                    == old(self)@,
                Opening::Join { part, index, reader } => {
                    &&& part@ == part_name_of(key@, ext@)
                    &&& index < old(self)@.downloads.len()
                    &&& old(self)@.downloads[index as int].key@ == key@
                    &&& reader.wf()
                    &&& reader@ == (CacheReaderView {
                        pos: 0,
                        total: old(self)@.downloads[index as int].total,
                        live: true,
                        content_type: text::text_opt(
                            old(self)@.downloads[index as int].content_type,
                        ),
                    })
                    &&& final(self)@ == old(self)@
                },
                Opening::Request(part) => {
                    &&& part@ == part_name_of(key@, ext@)
                    &&& claimed(final(self)@.downloads, key@)
                    &&& final(self)@.downloads.len() == old(self)@.downloads.len() + 1
                    &&& final(self)@.downloads.drop_last() == old(self)@.downloads
                    &&& final(self)@.downloads.last().key@ == key@
                    &&& final(self)@.downloads.last().progress == progress
                    &&& final(self)@.downloads.last().total is None
                    &&& final(self)@.downloads.last().content_type is None
                },
            },
    {
        if on_disk {
            return Opening::OnDisk(final_name(key, ext));
        }
        match self.downloads.claim(key, progress) {
            Claim::Joined(index) => {
                let entry = self.downloads.entry(index);
                let reader = CacheReader::downloading(
                    entry.total,
                    copy_text(&entry.content_type),
                );
                Opening::Join { part: part_name(key, ext), index, reader }
            },
            Claim::Reserved => Opening::Request(part_name(key, ext)),
        }
    }

    /// A running download.
    pub fn download(&self, index: usize) -> (r: &Inflight<P>)
        requires
            index < self@.downloads.len(),
        ensures
            *r == self@.downloads[index as int],
    {
        self.downloads.entry(index)
    }

    /// The request for `key` was answered. Where it is no stream the key is released, so that
    /// later plays of the track do not join a download that is never going to start; the part
    /// file is to be removed and its progress to fail with the message.
    pub fn answered(&mut self, key: &str, answer: Answer) -> (r: Result<CacheReader, Refusal>)
        requires
            old(self).wf(),
        ensures
            final(self).wf(),
            final(self)@.max_bytes == old(self)@.max_bytes,
            claimed(final(self)@.downloads, key@) <==> r is Ok && claimed(
                old(self)@.downloads,
                key@,
            ),
            !claimed(old(self)@.downloads, key@) ==> (final(self)@.downloads
                == old(self)@.downloads),
            match r {
                Ok(reader) => {
                    &&& refusal_of(key@, answer) is None
                    &&& reader.wf()
                    &&& reader@ == (CacheReaderView {
                        pos: 0,
                        total: answer->total,
                        live: true,
                        content_type: text::text_opt(answer->content_type),
                    })
                    &&& final(self)@.downloads.len() == old(self)@.downloads.len()
                    &&& forall|i: int| 0 <= i < final(self)@.downloads.len() ==> {
                        let (new, was) = (
                            #[trigger] final(self)@.downloads[i],
                            old(self)@.downloads[i],
                        );
                        &&& new.key@ == was.key@
                        &&& new.progress == was.progress
                        &&& if was.key@ == key@ {
                            new.total == answer->total && new.content_type
                                == answer->content_type
                        } else {
                            new == was
                        }
                    }
                },
                Err(refusal) => {
                    &&& refusal_of(key@, answer) == Some((refusal.message@, refusal.kind))
                    &&& forall|i: int|
                        0 <= i < old(self)@.downloads.len() && (
                        #[trigger] old(self)@.downloads[i]).key@ == key@ ==> (
                        final(self)@.downloads == old(self)@.downloads.remove(i))
                },
            },
    {
        match answer {
            Answer::Unreachable(message) => {
                self.downloads.release(key);
                let message = cat(cat(cat("GET ", key).as_str(), ": ").as_str(), message.as_str());
                Err(Refusal { message, kind: RefusalKind::Other })
            },
            Answer::Response { status, refusal, total, content_type } => match stream_status(
                status,
            ) {
                StreamStatus::Gone => {
                    self.downloads.release(key);
                    let what = cat(cat("streaming ", key).as_str(), ": ");
                    Err(
                        Refusal {
                            message: cat(what.as_str(), Gone.message().as_str()),
                            kind: RefusalKind::Gone,
                        },
                    )
                },
                StreamStatus::Unauthorized => {
                    self.downloads.release(key);
                    let what = cat(cat("streaming ", key).as_str(), ": ");
                    Err(
                        Refusal {
                            message: cat(what.as_str(), Unauthorized.message().as_str()),
                            kind: RefusalKind::Unauthorized,
                        },
                    )
                },
                StreamStatus::Refused => {
                    self.downloads.release(key);
                    let what = cat(cat("streaming ", key).as_str(), ": ");
                    Err(
                        Refusal {
                            message: cat(what.as_str(), refusal.as_str()),
                            kind: RefusalKind::Other,
                        },
                    )
                },
                StreamStatus::Streaming => {
                    let ghost before = self.downloads@;
                    self.downloads.publish_headers(key, total, &content_type);
                    proof {
                        let after = self.downloads@;
                        if claimed(before, key@) {
                            let i = choose|i: int|
                                0 <= i < before.len() && (#[trigger] before[i]).key@ == key@;
                            assert(after[i].key@ == key@);
                        }
                        if claimed(after, key@) {
                            let i = choose|i: int|
                                0 <= i < after.len() && (#[trigger] after[i]).key@ == key@;
                            assert(before[i].key@ == key@);
                        } else {
                            assert forall|i: int| 0 <= i < after.len() implies after[i]
                                == before[i] by {
                                assert(after[i].key@ == before[i].key@);
                            }
                            assert(after =~= before);
                        }
                    }
                    Ok(CacheReader::downloading(total, content_type))
                },
            },
        }
    }

    /// The download of `key` is over, whatever came of it.
    pub fn release(&mut self, key: &str)
        requires
            old(self).wf(),
        ensures
            final(self).wf(),
            final(self)@.max_bytes == old(self)@.max_bytes,
            !claimed(final(self)@.downloads, key@),
            !claimed(old(self)@.downloads, key@) ==> final(self)@ == old(self)@,
            forall|i: int|
                0 <= i < old(self)@.downloads.len() && (
                #[trigger] old(self)@.downloads[i]).key@ == key@ ==> (final(self)@.downloads
                    == old(self)@.downloads.remove(i)),
    {
        self.downloads.release(key);
    }
}

/// A finished entry is named by its key and extension with a dot between; one in flight has
/// `.part` behind that, so the two are never taken for one another.
pub proof fn law_an_entry_is_named_by_its_key(key: Seq<char>, ext: Seq<char>)
    ensures
        final_name_of(key, ext).len() == key.len() + 1 + ext.len(),
        key.is_prefix_of(final_name_of(key, ext)),
        final_name_of(key, ext)[key.len() as int] == '.',
        final_name_of(key, ext).skip((key.len() + 1) as int) == ext,
        part_name_of(key, ext) == final_name_of(key, ext) + ".part"@,
        part_name_of(key, ext) != final_name_of(key, ext),
{
    reveal_strlit(".");
    reveal_strlit(".part");
    assert(final_name_of(key, ext).skip((key.len() + 1) as int) =~= ext);
    assert(part_name_of(key, ext).len() == final_name_of(key, ext).len() + 5);
}

/// What an answer means: no response and most errors may work next time, a missing file never
/// will, refused credentials ask for a new session, and anything else is the track.
pub proof fn law_an_answer_means_what_its_status_says(key: Seq<char>, answer: Answer)
    ensures
        answer is Unreachable ==> refusal_of(key, answer) is Some && refusal_of(
            key,
            answer,
        ).unwrap().1 == RefusalKind::Other,
        answer matches Answer::Response { status, refusal, total, content_type } ==> {
            let said = refusal_of(key, answer);
            &&& status == 404 ==> said is Some && said.unwrap().1 == RefusalKind::Gone
            &&& status == 401 ==> said is Some && said.unwrap().1 == RefusalKind::Unauthorized
            &&& 400 <= status < 600 && status != 404 && status != 401 ==> said is Some
                && said.unwrap().1 == RefusalKind::Other
            &&& !(400 <= status < 600) ==> said is None
        },
{
}

/// Reports of a download of known length are a fiftieth of it apart, or a quarter of a megabyte
/// where that is more; of one of unknown length a quarter of a megabyte.
pub proof fn law_the_step_between_reports(total: Option<u64>)
    ensures
        total is None ==> report_step(total) == 262_144,
        total is Some && total.unwrap() / 50 <= 262_144 ==> report_step(total) == 262_144,
        total is Some && total.unwrap() / 50 > 262_144 ==> report_step(total) == total.unwrap()
            / 50,
{
}

/// A reader is moved to where it is told: from the start, from where it is, or from the end, which
/// has to be known.
pub proof fn law_a_reader_goes_where_it_is_told(reader: CacheReaderView, n: u64, d: i64)
    requires
        n <= i64::MAX,
    ensures
        reader.target(SeekFrom::Start(n)) == Some(n as int),
        reader.target(SeekFrom::Current(d)) == Some(reader.pos + d),
        reader.total is None ==> reader.target(SeekFrom::End(d)) is None,
        reader.total is Some && reader.total.unwrap() <= i64::MAX ==> reader.target(
            SeekFrom::End(d),
        ) == Some(reader.total.unwrap() + d),
{
}

/// What entries hold adds up: nothing holds nothing, one holds its length, and two lists hold what
/// each of them does.
pub proof fn law_sizes_add_up(a: Seq<EntryView>, b: Seq<EntryView>)
    ensures
        bytes_of(Seq::empty()) == 0,
        a.len() == 1 ==> bytes_of(a) == a[0].len,
        bytes_of(a + b) == bytes_of(a) + bytes_of(b),
    decreases b.len(),
{
    if a.len() == 1 {
        assert(a.drop_last() =~= Seq::<EntryView>::empty());
        assert(bytes_of(a.drop_last()) == 0);
    }
    if b.len() == 0 {
        assert(a + b =~= a);
    } else {
        assert((a + b).drop_last() =~= a + b.drop_last());
        assert((a + b).last() == b.last());
        law_sizes_add_up(a, b.drop_last());
    }
}

/// What counts for the budget is every finished file, once, and nothing else.
pub proof fn law_finished_files_count(entries: Seq<EntryView>, entry: EntryView)
    ensures
        finished(entries).contains(entry) <==> entries.contains(entry) && entry.is_file
            && !is_part(entry.name),
        finished(entries).len() <= entries.len(),
        (forall|i: int|
            0 <= i < entries.len() ==> (#[trigger] entries[i]).is_file && !is_part(
                entries[i].name,
            )) ==> finished(entries) == entries,
    decreases entries.len(),
{
    let pred = |e: EntryView| counts(e);
    reveal(Seq::filter);
    if entries.len() > 0 {
        let front = entries.drop_last();
        law_finished_files_count(front, entry);
        let kept = finished(front);
        assert(entries =~= front.push(entries.last()));
        if front.contains(entry) {
            let i = choose|i: int| 0 <= i < front.len() && front[i] == entry;
            assert(entries[i] == entry);
        }
        if entries.contains(entry) && entry != entries.last() {
            let i = choose|i: int| 0 <= i < entries.len() && entries[i] == entry;
            assert(front[i] == entry);
        }
        if entry == entries.last() {
            assert(entries[entries.len() - 1] == entry);
        }
        if counts(entries.last()) {
            assert(finished(entries) =~= kept.push(entries.last()));
            if kept.contains(entry) {
                let i = choose|i: int| 0 <= i < kept.len() && kept[i] == entry;
                assert(finished(entries)[i] == entry);
            }
            if finished(entries).contains(entry) && entry != entries.last() {
                let i = choose|i: int|
                    0 <= i < finished(entries).len() && finished(entries)[i] == entry;
                assert(kept[i] == entry);
            }
            assert(finished(entries)[kept.len() as int] == entries.last());
        } else {
            assert(finished(entries) =~= kept);
        }
        if forall|i: int|
            0 <= i < entries.len() ==> (#[trigger] entries[i]).is_file && !is_part(
                entries[i].name,
            ) {
            assert forall|i: int| 0 <= i < front.len() implies (#[trigger] front[i]).is_file
                && !is_part(front[i].name) by {
                assert(front[i] == entries[i]);
            }
            assert(counts(entries[entries.len() - 1]));
            assert(finished(entries) =~= entries);
        }
    } else {
        assert(finished(entries) =~= entries);
    }
}

/// Something is removed only while more is held than may be, and it is the next candidate; one that
/// is removed frees its bytes, one that cannot be frees none, and neither is tried again.
pub proof fn law_pruning_removes_one_after_the_other(prune: PruneView, removed: bool)
    requires
        0 <= prune.at < prune.entries.len(),
    ensures
        prune.next() == if prune.total > prune.max_bytes {
            Some(prune.entries[prune.at])
        } else {
            None
        },
        prune.tried(removed) == (PruneView {
            at: prune.at + 1,
            total: prune.total - if removed {
                prune.entries[prune.at].len as int
            } else {
                0
            },
            ..prune
        }),
{
}

/// A report is due from the byte on that was waited for, and never where none is wanted.
pub proof fn law_a_report_is_due_from_its_byte_on(report: Report, got: u64)
    ensures
        report.enabled && got == report.next ==> report.due(got),
        report.enabled && got > report.next ==> report.due(got),
        got < report.next ==> !report.due(got),
        !report.enabled ==> !report.due(got),
{
}

/// A key is being downloaded while one of the downloads is of it, and no longer.
pub proof fn law_a_key_is_claimed_by_its_download<P>(entries: Seq<Inflight<P>>, one: Inflight<P>)
    ensures
        claimed(entries.push(one), one.key@),
        !claimed(Seq::<Inflight<P>>::empty(), one.key@),
        forall|key: Seq<char>|
            key != one.key@ ==> #[trigger] claimed(entries.push(one), key) == claimed(entries, key),
{
    let more = entries.push(one);
    assert(more[more.len() - 1].key@ == one.key@);
    assert forall|key: Seq<char>| key != one.key@ implies #[trigger] claimed(more, key) == claimed(
        entries,
        key,
    ) by {
        if claimed(entries, key) {
            let i = choose|i: int| 0 <= i < entries.len() && (#[trigger] entries[i]).key@ == key;
            assert(more[i].key@ == key);
        }
        if claimed(more, key) {
            let i = choose|i: int| 0 <= i < more.len() && (#[trigger] more[i]).key@ == key;
            assert(entries[i].key@ == key);
        }
    }
}

} // verus!
