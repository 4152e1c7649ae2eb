//! Decoding, packet by packet: which packets count, how many bad ones a track survives, and
//! what a stream says of itself.

use vstd::prelude::*;

use crate::player::cache::CacheReader;
use crate::time::Duration;

verus! {

/// Consecutive decode errors tolerated before a track is abandoned. Individual corrupt packets
/// are common and recoverable; a run of them is not.
pub const MAX_DECODE_ERRORS: usize = 3;

/// Sampling rate assumed of a stream that does not name one.
pub const DEFAULT_RATE: u32 = 44_100;

/// What became of a packet.
#[derive(Debug, Clone, Copy, PartialEq, Eq, Structural)]
pub enum Packet {
    /// It belongs to another track.
    OtherTrack,
    Decoded,
    /// It could not be decoded.
    Corrupt,
    /// The decoder has to be reset before it goes on.
    ResetRequired,
    /// Anything else went wrong.
    Broken,
}

/// What to do next.
#[derive(Debug, Clone, Copy, PartialEq, Eq, Structural)]
pub enum Next {
    /// Read another packet.
    ReadOn,
    /// Reset the decoder, and read another packet.
    Reset,
    /// Hand out the samples of this packet.
    Deliver,
    /// Give up.
    Abandon,
}

/// The search for the next usable packet.
#[derive(Debug, Clone, Copy, PartialEq, Eq, Structural)]
pub struct PacketSearch {
    pub errors: usize,
}

impl PacketSearch {
    pub fn new() -> (r: Self)
        ensures
            r.errors == 0,
    {
        PacketSearch { errors: 0 }
    }

    /// A single bad packet is worth skipping; a run of them is fatal.
    pub fn saw(&mut self, packet: Packet) -> (r: Next)
        requires
            old(self).errors <= MAX_DECODE_ERRORS,
        ensures
            final(self).errors == (if packet == Packet::Corrupt {
                old(self).errors + 1
            } else {
                old(self).errors as int
            }),
            r == (match packet {
                Packet::OtherTrack => Next::ReadOn,
                Packet::Decoded => Next::Deliver,
                Packet::Corrupt => if old(self).errors + 1 > MAX_DECODE_ERRORS {
                    Next::Abandon
                } else {
                    Next::ReadOn
                },
                Packet::ResetRequired => Next::Reset,
                Packet::Broken => Next::Abandon,
            }),
            r != Next::Abandon ==> final(self).errors <= MAX_DECODE_ERRORS,
    {
        match packet {
            Packet::OtherTrack => Next::ReadOn,
            Packet::Decoded => Next::Deliver,
            Packet::Corrupt => {
                self.errors = self.errors + 1;
                if self.errors > MAX_DECODE_ERRORS {
                    Next::Abandon
                } else {
                    Next::ReadOn
                }
            },
            Packet::ResetRequired => Next::Reset,
            Packet::Broken => Next::Abandon,
        }
    }
}

/// The samples of one packet, being handed out.
#[derive(Debug, Clone, Copy, PartialEq, Eq, Structural)]
pub struct Samples {
    pub len: usize,
    /// Index of the next sample to hand out.
    pub position: usize,
}

impl Samples {
    /// None are left that were not there.
    pub open spec fn wf(&self) -> bool {
        self.position <= self.len
    }

    /// The samples of a packet, none handed out yet.
    pub fn of_packet(len: usize) -> (r: Self)
        ensures
            r.wf(),
            r == (Samples { len, position: 0 }),
    {
        Samples { len, position: 0 }
    }

    /// Index of the next sample, or none where another packet is needed.
    pub fn next(&mut self) -> (r: Option<usize>)
        requires
            old(self).wf(),
        ensures
            final(self).wf(),
            old(self).position < old(self).len ==> r == Some(old(self).position)
                && *final(self) == (Samples {
                position: (old(self).position + 1) as usize,
                ..*old(self)
            }),
            old(self).position == old(self).len ==> r is None && *final(self) == *old(self),
    {
        if self.position < self.len {
            let at = self.position;
            self.position = at + 1;
            Some(at)
        } else {
            None
        }
    }

    /// Samples left in the current packet.
    pub fn left(&self) -> (r: usize)
        requires
            self.wf(),
        ensures
            r == self.len - self.position,
    {
        self.len - self.position
    }
}

/// Whether a stream can be positioned.
///
/// Requires a known, non-zero duration: a coarse seek derives a byte position from it. A
/// constant-bitrate mp3 with no header has none, and neither does a streamed transcode.
pub fn is_seekable(total_duration: Option<Duration>) -> (r: bool)
    ensures
        r == (total_duration is Some && total_duration.unwrap().nanos != 0),
{
    match total_duration {
        Some(duration) => !duration.is_zero(),
        None => false,
    }
}

/// The length to tell a demuxer of.
///
/// A still-downloading entry must report itself unseekable, or the probe will seek past the
/// download head and stall.
pub fn source_len(reader: &CacheReader) -> (r: Option<u64>)
    ensures
        r == (if reader@.live {
            None
        } else {
            reader@.total
        }),
{
    if reader.is_complete() {
        reader.byte_len()
    } else {
        None
    }
}

/// The first track with a supported codec, `supported` saying of each track whether it has one.
pub fn pick_track(supported: &Vec<bool>) -> (r: Option<usize>)
    ensures
        match r {
            Some(i) => {
                &&& i < supported@.len()
                &&& supported@[i as int]
                &&& forall|j: int| 0 <= j < i ==> !supported@[j]
            },
            None => forall|j: int| 0 <= j < supported@.len() ==> !supported@[j],
        },
{
    let mut i: usize = 0;
    while i < supported.len()
        invariant
            i <= supported@.len(),
            forall|j: int| 0 <= j < i ==> !supported@[j],
        decreases supported.len() - i,
    {
        if supported[i] {
            return Some(i);
        }
        i += 1;
    }
    None
}

} // verus!
