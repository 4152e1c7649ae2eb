use trayplay::player::cache::CacheReader;
use trayplay::player::decoder::{
    is_seekable, pick_track, source_len, Next, Packet, PacketSearch, Samples,
};
use trayplay::player::rodio_sink::{Cmd, Output, RodioSink, SinkOp};
use trayplay::time::Duration;

fn millis(ms: u64) -> Duration {
    Duration::from_millis(ms)
}

#[test]
fn a_track_plays_and_ends_without_a_transition() {
    let mut out = Output::new();
    assert_eq!(out.begin(Cmd::Play), vec![SinkOp::Clear]);
    assert_eq!(out.decoded(Cmd::Play, Ok(true)), vec![SinkOp::Append, SinkOp::Play]);
    out.poll(1, millis(0));
    assert_eq!(out.queued(), 1);
    assert!(out.is_seekable());
    assert!(out.can_place(millis(1234)));
    out.poll(1, millis(1234));
    assert_eq!(out.position_ms(), 1234);
    out.poll(0, millis(0));
    assert_eq!(out.advances(), 0);
    assert_eq!(out.queued(), 0);
}

#[test]
fn crossing_into_a_queued_track_counts_once() {
    let mut out = Output::new();
    out.begin(Cmd::Play);
    out.decoded(Cmd::Play, Ok(true));
    out.poll(1, millis(0));
    assert!(out.begin(Cmd::Queue).is_empty());
    assert_eq!(out.decoded(Cmd::Queue, Ok(false)), vec![SinkOp::Append]);
    out.poll(2, millis(9000));
    assert!(out.is_seekable());
    out.poll(1, millis(10));
    assert_eq!(out.advances(), 1);
    assert!(!out.is_seekable());
    out.poll(0, millis(0));
    assert_eq!(out.advances(), 1);
}

#[test]
fn a_seek_never_mixes_old_and_new_positions() {
    let mut out = Output::new();
    out.begin(Cmd::Play);
    out.decoded(Cmd::Play, Ok(true));
    out.poll(1, millis(0));
    out.poll(1, millis(90_000));
    let seek = Cmd::Seek(millis(30_000));
    assert!(out.begin(seek).is_empty());
    assert_eq!(
        out.decoded(seek, Ok(true)),
        vec![SinkOp::Clear, SinkOp::Append, SinkOp::Play]
    );
    out.poll(1, millis(90_050));
    assert_eq!(out.position_ms(), 30_000);
    out.poll(1, millis(50));
    assert_eq!(out.position_ms(), 30_050);
    out.poll(1, millis(1000));
    assert_eq!(out.position_ms(), 31_000);
    assert_eq!(out.advances(), 0);
}

#[test]
fn an_output_that_never_settles_is_trusted_in_the_end() {
    let mut out = Output::new();
    let at = Cmd::PlayAt(millis(1000));
    out.begin(at);
    out.decoded(at, Ok(true));
    assert!(!out.is_seekable());
    for _ in 0..20 {
        out.poll(1, millis(70_000));
        assert_eq!(out.position_ms(), 1000);
    }
    out.poll(1, millis(70_000));
    assert_eq!(out.position_ms(), 71_000);
}

#[test]
fn failures_say_what_failed() {
    let mut out = Output::new();
    assert!(out.decoded(Cmd::Play, Err("bad".to_string())).is_empty());
    let fault = out.take_fault().unwrap();
    assert_eq!(fault.message, "cannot decode track: bad");
    assert!(fault.affects_current);
    assert!(out.take_fault().is_none());
    out.decoded(Cmd::Queue, Err("bad".to_string()));
    let fault = out.take_fault().unwrap();
    assert_eq!(fault.message, "cannot decode next track: bad");
    assert!(!fault.affects_current);
    assert!(out.decoded(Cmd::Seek(millis(1)), Err("bad".to_string())).is_empty());
    assert_eq!(out.take_fault().unwrap().message, "seek failed: bad");
    assert_eq!(out.begin(Cmd::Pause), vec![SinkOp::Pause]);
    assert_eq!(out.begin(Cmd::Resume), vec![SinkOp::Play]);
    assert_eq!(out.begin(Cmd::Stop), vec![SinkOp::Clear]);
}

#[test]
fn the_handle_does_not_take_a_start_for_an_end() {
    let mut sink = RodioSink::new();
    assert!(sink.finished(0));
    sink.sent(Cmd::Play);
    assert!(!sink.finished(0));
    assert!(!sink.finished(1));
    assert!(sink.finished(0));
    sink.sent(Cmd::PlayAt(millis(1)));
    sink.sent(Cmd::Stop);
    assert!(sink.finished(0));
    assert_eq!(sink.take_advances(3), 3);
    assert_eq!(sink.take_advances(3), 0);
    assert_eq!(sink.take_advances(1), 0);
}

#[test]
fn a_run_of_corrupt_packets_is_fatal() {
    let mut search = PacketSearch::new();
    assert_eq!(search.saw(Packet::OtherTrack), Next::ReadOn);
    for _ in 0..3 {
        assert_eq!(search.saw(Packet::Corrupt), Next::ReadOn);
    }
    assert_eq!(search.saw(Packet::ResetRequired), Next::Reset);
    assert_eq!(search.saw(Packet::Decoded), Next::Deliver);
    assert_eq!(search.saw(Packet::Corrupt), Next::Abandon);
    assert_eq!(PacketSearch::new().saw(Packet::Broken), Next::Abandon);
}

#[test]
fn samples_are_handed_out_in_order() {
    let mut samples = Samples::of_packet(2);
    assert_eq!(samples.left(), 2);
    assert_eq!(samples.next(), Some(0));
    assert_eq!(samples.next(), Some(1));
    assert_eq!(samples.next(), None);
    assert_eq!(samples.left(), 0);
}

#[test]
fn streams_say_whether_they_can_be_positioned() {
    assert!(is_seekable(Some(millis(1))));
    assert!(!is_seekable(Some(millis(0))));
    assert!(!is_seekable(None));
    assert_eq!(source_len(&CacheReader::complete(9)), Some(9));
    assert_eq!(source_len(&CacheReader::downloading(Some(9), None)), None);
    assert_eq!(pick_track(&vec![false, true, true]), Some(1));
    assert_eq!(pick_track(&vec![false]), None);
}
