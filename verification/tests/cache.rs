use trayplay::player::cache::{
    final_name, has_part_extension, part_name, renamed, stream_status, wait_message, Answer, Cache,
    CacheReader, Closing, Ending, Entry, Gone, Opening, Progress, ReadLimit, ReadOutcome,
    RefusalKind, SeekError, SeekFrom, StreamStatus, Transfer, Wait, REPORT_STEP,
};
use trayplay::player::Event;

fn entry(name: &str, len: u64, used: u128) -> Entry {
    Entry { name: name.to_string(), len, is_file: true, used }
}

#[test]
fn names_tell_finished_and_partial_apart() {
    assert_eq!(final_name("abc", "flac"), "abc.flac");
    assert_eq!(part_name("abc", "flac"), "abc.flac.part");
    assert!(has_part_extension("abc.flac.part"));
    assert!(!has_part_extension("abc.flac"));
    assert!(!has_part_extension(".part"));
    assert!(!has_part_extension("part"));
    assert!(has_part_extension("a.part"));
}

#[test]
fn progress_is_waited_for() {
    let mut progress = Progress::new();
    assert_eq!(progress.wait_for(1), Wait::NotYet);
    progress.publish(10);
    assert_eq!(progress.wait_for(10), Wait::Ready(10));
    assert_eq!(progress.wait_for(11), Wait::NotYet);
    progress.finish();
    assert!(progress.is_done());
    assert_eq!(progress.wait_for(u64::MAX), Wait::Ready(10));
    progress.fail("broken".to_string());
    assert_eq!(progress.wait_for(0), Wait::Failed("broken".to_string()));
}

#[test]
fn two_opens_share_one_download() {
    let mut cache: Cache<u32> = Cache::new(100);
    assert!(matches!(cache.open("k", "mp3", true, 1), Opening::OnDisk(name) if name == "k.mp3"));
    assert!(
        matches!(cache.open("k", "mp3", false, 1), Opening::Request(part) if part == "k.mp3.part")
    );
    match cache.open("k", "mp3", false, 2) {
        Opening::Join { part, index, reader } => {
            assert_eq!(part, "k.mp3.part");
            assert_eq!(cache.download(index).progress, 1);
            assert_eq!(reader.byte_len(), None);
            assert!(!reader.is_complete());
        }
        other => panic!("{other:?}"),
    }
    let reader = cache
        .answered(
            "k",
            Answer::Response {
                status: 200,
                refusal: String::new(),
                total: Some(5000),
                content_type: Some("audio/mpeg".to_string()),
            },
        )
        .unwrap();
    assert!(reader.can_play_now());
    match cache.open("k", "mp3", false, 3) {
        Opening::Join { reader, .. } => {
            assert_eq!(reader.byte_len(), Some(5000));
            assert!(reader.can_decode_while_downloading());
        }
        other => panic!("{other:?}"),
    }
    cache.release("k");
    assert!(matches!(cache.open("k", "mp3", false, 4), Opening::Request(_)));
}

#[test]
fn refused_requests_release_the_key() {
    let refuse = |status: u16| Answer::Response {
        status,
        refusal: "HTTP error".to_string(),
        total: None,
        content_type: None,
    };
    let mut cache: Cache<u32> = Cache::new(100);
    let cases = [
        (refuse(404), "streaming k: the server no longer has this track (404)", RefusalKind::Gone),
        (refuse(401), "streaming k: credentials rejected by server (401)", RefusalKind::Unauthorized),
        (refuse(500), "streaming k: HTTP error", RefusalKind::Other),
        (Answer::Unreachable("dns".to_string()), "GET k: dns", RefusalKind::Other),
    ];
    for (answer, message, kind) in cases {
        assert!(matches!(cache.open("k", "mp3", false, 1), Opening::Request(_)));
        let refusal = cache.answered("k", answer).unwrap_err();
        assert_eq!(refusal.message, message);
        assert_eq!(refusal.kind, kind);
    }
    assert_eq!(Gone.message(), "the server no longer has this track (404)");
    assert_eq!(stream_status(206), StreamStatus::Streaming);
    assert_eq!(stream_status(399), StreamStatus::Streaming);
    assert_eq!(stream_status(599), StreamStatus::Refused);
}

#[test]
fn reports_are_spread_over_the_file() {
    let mut progress = Progress::new();
    let mut transfer = Transfer::new("id", Some(50 * 1_000_000), true);
    let first = transfer.chunk(1000, &mut progress);
    assert!(
        matches!(first, Some(Event::Buffering { id, got: 1000, total: Some(50_000_000) }) if id == "id")
    );
    assert!(transfer.chunk(999_999, &mut progress).is_none());
    assert!(transfer.chunk(1, &mut progress).is_some());
    assert_eq!(progress.written, 1_001_000);

    let mut quiet = Transfer::new("id", None, false);
    assert!(quiet.chunk(1000, &mut progress).is_none());

    let mut unknown = Transfer::new("id", None, true);
    assert!(unknown.chunk(1, &mut progress).is_some());
    assert!(unknown.chunk(REPORT_STEP - 1, &mut progress).is_none());
    assert!(unknown.chunk(1, &mut progress).is_some());
}

#[test]
fn downloads_end_well_or_badly() {
    let mut progress = Progress::new();
    let mut transfer = Transfer::new("id", None, false);
    assert_eq!(transfer.end(None), Ending::Discard("server returned an empty body".to_string()));
    transfer.chunk(5, &mut progress);
    assert_eq!(transfer.end(None), Ending::Rename);
    assert_eq!(
        transfer.end(Some("reset".to_string())),
        Ending::Discard("reset".to_string())
    );
    assert_eq!(renamed(None), Closing::Finish);
    assert_eq!(
        renamed(Some("ENOENT".to_string())),
        Closing::Fail("cannot finalise cache entry: ENOENT".to_string())
    );
    assert_eq!(wait_message("k", "broken"), "downloading k: broken");
}

#[test]
fn readers_wait_for_what_is_not_there_yet() {
    let mut progress = Progress::new();
    let mut reader = CacheReader::downloading(None, None);
    assert!(!reader.can_play_now());
    assert_eq!(reader.limit(&progress, 100), ReadLimit::NotYet);
    progress.publish(40);
    assert_eq!(reader.limit(&progress, 100), ReadLimit::Bytes(40));
    assert_eq!(reader.limit(&progress, 10), ReadLimit::Bytes(10));
    assert_eq!(reader.read(40, false), ReadOutcome::Read(40));
    assert_eq!(reader.read(0, false), ReadOutcome::Retry);
    assert_eq!(reader.read(0, true), ReadOutcome::End);
    progress.finish();
    assert_eq!(reader.limit(&progress, 100), ReadLimit::End);
    progress.fail("cut".to_string());
    assert_eq!(reader.limit(&progress, 100), ReadLimit::Failed("cut".to_string()));
    let on_disk = CacheReader::complete(7);
    assert_eq!(on_disk.limit(&progress, 100), ReadLimit::Bytes(100));
}

#[test]
fn seeks_know_their_bounds() {
    let mut reader = CacheReader::complete(100);
    assert_eq!(reader.seek(SeekFrom::End(-10)), Ok(90));
    assert_eq!(reader.seek(SeekFrom::Current(5)), Ok(95));
    assert_eq!(reader.seek(SeekFrom::Start(500)), Ok(500));
    assert_eq!(reader.position(), 500);
    assert_eq!(reader.seek(SeekFrom::Current(-501)), Err(SeekError::BeforeStart));
    assert_eq!(reader.seek(SeekFrom::Start(u64::MAX)), Err(SeekError::BeforeStart));
    assert_eq!(reader.position(), 500);
    let mut live = CacheReader::downloading(None, None);
    let err = live.seek(SeekFrom::End(0)).unwrap_err();
    assert_eq!(err.message(), "length unknown, cannot seek from end");
    assert_eq!(SeekError::BeforeStart.message(), "seek before start of file");
}

#[test]
fn sizes_count_only_finished_files() {
    let mut entries = vec![entry("a.mp3", 10, 1), entry("b.mp3.part", 90, 2)];
    entries.push(Entry { name: "dir".to_string(), len: 4096, is_file: false, used: 0 });
    assert_eq!(Cache::<u8>::size_of(&entries), 10);
}

#[test]
fn pruning_takes_the_oldest_until_it_fits() {
    let entries = vec![
        entry("new", 40, 9),
        entry("old", 30, 1),
        entry("flying.part", 500, 0),
        entry("middle", 50, 5),
    ];
    let cache: Cache<u8> = Cache::new(60);
    let mut prune = cache.prune(&entries);
    assert_eq!(prune.next().unwrap().name, "old");
    prune.tried(true);
    assert_eq!(prune.next().unwrap().name, "middle");
    prune.tried(true);
    assert!(prune.next().is_none());

    // What cannot be removed frees nothing.
    let mut prune = cache.prune(&entries);
    prune.tried(false);
    prune.tried(true);
    assert_eq!(prune.next().unwrap().name, "new");
    prune.tried(true);
    assert!(prune.next().is_none());

    let mut roomy: Cache<u8> = Cache::new(60);
    roomy.set_max_bytes(120);
    assert!(roomy.prune(&entries).next().is_none());
}
