use trayplay::config::Repeat;
use trayplay::jellyfin::models::Item;
use trayplay::player::actor::{byte_position, extension};
use trayplay::player::persist::Saved;
use trayplay::player::queue::Mode;
use trayplay::player::shuffle::sort_by_keys;
use trayplay::player::sink::Fault;
use trayplay::player::{
    Action, Command, Event, OpenError, PlaceError, Player, Reply, Request, State,
};
use trayplay::time::Duration;

fn song(id: &str) -> Item {
    Item {
        id: id.to_string(),
        name: format!("Song {id}"),
        item_type: Some("Audio".to_string()),
        album: None,
        album_id: None,
        album_artist: None,
        artists: Vec::new(),
        artist_items: Vec::new(),
        run_time_ticks: Some(1_000_000_000),
        index_number: None,
        parent_index_number: None,
        container: Some("flac,ogg".to_string()),
        image_tags: Vec::new(),
        album_primary_image_tag: None,
    }
}

fn songs(ids: &[&str]) -> Vec<Item> {
    ids.iter().map(|id| song(id)).collect()
}

fn player(repeat: Repeat) -> Player {
    Player::new(7, true, repeat)
}

fn playing(ids: &[&str], start: usize, repeat: Repeat) -> Player {
    let mut p = player(repeat);
    p.handle(Command::PlayItems { items: songs(ids), start });
    p.resume_with(Reply::Opened(Ok(())));
    p.resume_with(Reply::Taken(Ok(())));
    assert_eq!(p.state(), State::Playing);
    assert!(!p.is_waiting());
    p
}

fn current(p: &Player) -> String {
    p.queue().current().map(|item| item.id.clone()).unwrap_or_default()
}

fn failures(actions: &[Action]) -> Vec<String> {
    actions
        .iter()
        .filter_map(|a| match a {
            Action::Emit(Event::Failed(message)) => Some(message.clone()),
            _ => None,
        })
        .collect()
}

fn opened(actions: &[Action]) -> Option<String> {
    match actions.last() {
        Some(Action::Ask(Request::OpenForPlayback { id, .. })) => Some(id.clone()),
        _ => None,
    }
}

#[test]
fn playing_items_announces_opens_and_starts() {
    let mut p = player(Repeat::Off);
    let out = p.handle(Command::PlayItems { items: songs(&["a", "b"]), start: 1 });
    assert!(matches!(&out[0], Action::Emit(Event::Loading(Some(item))) if item.id == "b"));
    assert!(
        matches!(&out[1], Action::Ask(Request::OpenForPlayback { id, ext }) if id == "b" && ext == "flac")
    );
    let out = p.resume_with(Reply::Opened(Ok(())));
    assert!(matches!(&out[..], [Action::Ask(Request::PlayReader)]));
    let out = p.resume_with(Reply::Taken(Ok(())));
    assert!(matches!(&out[0], Action::Emit(Event::TrackChanged(Some(item))) if item.id == "b"));
    assert!(matches!(out[1], Action::Emit(Event::StateChanged(State::Playing))));
    assert!(matches!(&out[2], Action::Persist(saved) if saved.cursor == 1));
    assert!(!p.is_waiting());
}

#[test]
fn nothing_to_play_changes_nothing() {
    let mut p = player(Repeat::Off);
    assert!(p.handle(Command::PlayItems { items: Vec::new(), start: 0 }).is_empty());
    assert!(p.handle(Command::PlayShuffled { items: songs(&["a"]), first: 1 }).is_empty());
    assert!(p.handle(Command::Previous).is_empty());
    assert!(p.handle(Command::Seek(Duration { nanos: 5 })).is_empty());
}

#[test]
fn random_play_asks_for_a_batch() {
    let mut p = player(Repeat::Off);
    let out = p.handle(Command::PlayPause);
    assert!(matches!(out[0], Action::Emit(Event::Loading(None))));
    assert!(matches!(out[1], Action::Ask(Request::RandomTracks(7))));
    let out = p.resume_with(Reply::Tracks(Ok(Vec::new())));
    assert_eq!(failures(&out), vec!["server returned no tracks"]);

    p.handle(Command::PlayRandom);
    let out = p.resume_with(Reply::Tracks(Err("timed out".to_string())));
    assert_eq!(failures(&out), vec!["fetching random tracks: timed out"]);

    p.handle(Command::PlayRandom);
    let out = p.resume_with(Reply::Tracks(Ok(songs(&["a"]))));
    assert_eq!(opened(&out), Some("a".to_string()));
    assert_eq!(p.queue().mode(), Mode::Random);
}

#[test]
fn an_artist_plays_album_by_album() {
    let mut p = player(Repeat::Off);
    let out = p.handle(Command::PlayArtist("artist".to_string()));
    assert!(matches!(&out[0], Action::Ask(Request::ArtistAlbums(id)) if id == "artist"));
    let out = p.resume_with(Reply::Tracks(Ok(songs(&["one", "two"]))));
    assert!(matches!(&out[0], Action::Ask(Request::AlbumTracks(id)) if id == "one"));
    let out = p.resume_with(Reply::Tracks(Ok(songs(&["a", "b"]))));
    assert!(matches!(&out[0], Action::Ask(Request::AlbumTracks(id)) if id == "two"));
    let out = p.resume_with(Reply::Tracks(Ok(songs(&["c"]))));
    assert_eq!(opened(&out), Some("a".to_string()));
    assert_eq!(p.queue().len(), 3);

    let mut p = player(Repeat::Off);
    p.handle(Command::PlayArtist("artist".to_string()));
    let out = p.resume_with(Reply::Tracks(Err("down".to_string())));
    assert_eq!(failures(&out), vec!["fetching artist albums: down"]);
    p.handle(Command::PlayArtist("artist".to_string()));
    p.resume_with(Reply::Tracks(Ok(songs(&["one"]))));
    let out = p.resume_with(Reply::Tracks(Err("down".to_string())));
    assert_eq!(failures(&out), vec!["down"]);
    assert!(!p.is_waiting());
}

#[test]
fn an_album_without_tracks_stops() {
    let mut p = playing(&["a"], 0, Repeat::Off);
    p.handle(Command::PlayAlbum("x".to_string()));
    let out = p.resume_with(Reply::Tracks(Ok(Vec::new())));
    assert!(matches!(&out[..], [Action::Emit(Event::StateChanged(State::Stopped))]));
    p.handle(Command::PlayAlbum("x".to_string()));
    let out = p.resume_with(Reply::Tracks(Err("down".to_string())));
    assert_eq!(failures(&out), vec!["fetching album tracks: down"]);
}

#[test]
fn a_shuffle_puts_the_chosen_track_first_and_keeps_the_rest() {
    let all: Vec<String> = (0..40).map(|n| n.to_string()).collect();
    let refs: Vec<&str> = all.iter().map(|s| s.as_str()).collect();
    let mut p = player(Repeat::Off);
    let out = p.handle(Command::PlayShuffled { items: songs(&refs), first: 17 });
    assert_eq!(opened(&out), Some("17".to_string()));
    let order: Vec<String> = p.queue().items().iter().map(|i| i.id.clone()).collect();
    assert_eq!(order[0], "17");
    let mut sorted = order.clone();
    sorted.sort_by_key(|id| id.parse::<u32>().unwrap());
    assert_eq!(sorted, all);
    // Thirty-nine tracks staying in order by chance is not going to happen.
    let mut unshuffled = all.clone();
    unshuffled.remove(17);
    unshuffled.insert(0, "17".to_string());
    assert_ne!(order, unshuffled);
}

#[test]
fn sorting_by_keys_is_stable() {
    let sorted = sort_by_keys(&songs(&["a", "b", "c", "d"]), &vec![5, 1, 5, 0]);
    let ids: Vec<&str> = sorted.iter().map(|i| i.id.as_str()).collect();
    assert_eq!(ids, vec!["d", "b", "a", "c"]);
}

#[test]
fn pausing_and_resuming() {
    let mut p = playing(&["a"], 0, Repeat::Off);
    let out = p.handle(Command::PlayPause);
    assert!(matches!(
        &out[..],
        [Action::SinkPause, Action::Emit(Event::StateChanged(State::Paused))]
    ));
    assert!(p.handle(Command::Pause).is_empty());
    let out = p.handle(Command::Play);
    assert!(matches!(
        &out[..],
        [Action::SinkResume, Action::Emit(Event::StateChanged(State::Playing))]
    ));
    assert!(p.handle(Command::Play).is_empty());
    let out = p.handle(Command::Stop);
    assert!(matches!(out[0], Action::SinkStop));
    assert!(matches!(out[1], Action::Emit(Event::StateChanged(State::Stopped))));
    assert!(matches!(out[2], Action::Emit(Event::Position(Duration { nanos: 0 }))));
}

#[test]
fn the_end_of_the_queue_stops() {
    let mut p = playing(&["a"], 0, Repeat::Off);
    let out = p.handle(Command::Next);
    assert!(matches!(out[0], Action::Emit(Event::Loading(None))));
    assert!(matches!(out[1], Action::SinkStop));
    assert!(matches!(out[2], Action::Emit(Event::StateChanged(State::Stopped))));
    assert!(matches!(out[3], Action::Emit(Event::TrackChanged(None))));
}

#[test]
fn repeat_all_starts_over_and_repeat_one_plays_again() {
    let mut p = playing(&["a", "b"], 1, Repeat::All);
    assert_eq!(opened(&p.handle(Command::Next)), Some("a".to_string()));

    let mut p = playing(&["a", "b"], 0, Repeat::One);
    p.tick(None);
    let out = p.resume_with(Reply::Polled {
        advances: 0,
        finished: true,
        position: Duration { nanos: 0 },
    });
    assert_eq!(opened(&out), Some("a".to_string()));
}

#[test]
fn repeat_cycles_and_is_remembered() {
    let mut p = player(Repeat::Off);
    let out = p.handle(Command::CycleRepeat);
    assert!(matches!(out[0], Action::SaveRepeat(Repeat::All)));
    assert!(matches!(out[1], Action::Emit(Event::RepeatChanged(Repeat::All))));
    assert!(p.handle(Command::SetRepeat(Repeat::All)).is_empty());
    p.handle(Command::CycleRepeat);
    assert_eq!(p.repeat(), Repeat::One);
    p.handle(Command::CycleRepeat);
    assert_eq!(p.repeat(), Repeat::Off);
}

#[test]
fn adding_never_disturbs_what_plays() {
    let mut p = playing(&["a", "b"], 0, Repeat::Off);
    let out = p.handle(Command::QueueNext { items: songs(&["x"]) });
    assert!(matches!(out[0], Action::Persist(_)));
    assert!(matches!(out[1], Action::Emit(Event::QueueChanged)));
    p.handle(Command::QueueLast { items: songs(&["z"]) });
    let ids: Vec<String> = p.queue().items().iter().map(|i| i.id.clone()).collect();
    assert_eq!(ids, vec!["a", "x", "b", "z"]);
    assert_eq!(current(&p), "a");
    assert!(p.handle(Command::QueueLast { items: Vec::new() }).is_empty());
}

#[test]
fn adding_to_an_empty_queue_only_makes_play_do_the_obvious_thing() {
    let mut p = player(Repeat::Off);
    let out = p.handle(Command::QueueLast { items: songs(&["a"]) });
    assert!(matches!(&out[0], Action::Emit(Event::TrackChanged(Some(item))) if item.id == "a"));
    assert_eq!(p.state(), State::Stopped);
    assert_eq!(opened(&p.handle(Command::Play)), Some("a".to_string()));
}

#[test]
fn play_next_goes_behind_a_committed_track() {
    let mut p = playing(&["a", "b", "c"], 0, Repeat::Off);
    commit_next(&mut p);
    p.handle(Command::QueueNext { items: songs(&["x"]) });
    let ids: Vec<String> = p.queue().items().iter().map(|i| i.id.clone()).collect();
    assert_eq!(ids, vec!["a", "b", "x", "c"]);
    let out = p.handle(Command::Remove { index: 1, id: "b".to_string() });
    assert_eq!(failures(&out), vec!["that track is already cued up next"]);
}

fn commit_next(p: &mut Player) {
    p.tick(None);
    let out = p.resume_with(Reply::Polled {
        advances: 0,
        finished: false,
        position: Duration::from_secs(95),
    });
    assert!(matches!(out.last(), Some(Action::Ask(Request::ProbeCache { .. }))));
    let out = p.resume_with(Reply::Probed {
        cached: true,
        reachable: true,
        position: Duration::from_secs(95),
    });
    assert!(matches!(out.last(), Some(Action::Ask(Request::OpenComplete { .. }))));
    let out = p.resume_with(Reply::Complete(Ok((Some(10), true))));
    assert!(matches!(out.last(), Some(Action::Ask(Request::QueueReader))));
    assert!(p.resume_with(Reply::Taken(Ok(()))).is_empty());
}

#[test]
fn a_committed_track_is_not_committed_again() {
    let mut p = playing(&["a", "b"], 0, Repeat::Off);
    commit_next(&mut p);
    p.tick(None);
    let out = p.resume_with(Reply::Polled {
        advances: 0,
        finished: false,
        position: Duration::from_secs(96),
    });
    assert!(matches!(&out[..], [Action::Emit(Event::Position(_))]));
    assert!(!p.is_waiting());
}

#[test]
fn the_next_track_is_fetched_once_and_handed_over_late() {
    let mut p = playing(&["a", "b"], 0, Repeat::Off);
    let far = Duration::from_secs(10);
    let poll = |p: &mut Player| {
        p.tick(None);
        p.resume_with(Reply::Polled { advances: 0, finished: false, position: far });
    };
    poll(&mut p);
    let out = p.resume_with(Reply::Probed { cached: false, reachable: false, position: far });
    assert!(out.is_empty());
    poll(&mut p);
    let out = p.resume_with(Reply::Probed { cached: false, reachable: true, position: far });
    assert!(matches!(&out[..], [Action::Warm { id, ext }] if id == "b" && ext == "flac"));
    poll(&mut p);
    let out = p.resume_with(Reply::Probed { cached: false, reachable: true, position: far });
    assert!(out.is_empty());
    poll(&mut p);
    let out = p.resume_with(Reply::Probed { cached: true, reachable: true, position: far });
    assert!(out.is_empty());
    // Ten seconds from the end of a track of a hundred.
    poll(&mut p);
    let out = p.resume_with(Reply::Probed {
        cached: true,
        reachable: true,
        position: Duration::from_secs(90),
    });
    assert!(matches!(out.last(), Some(Action::Ask(Request::OpenComplete { .. }))));
    // Not fatal: retried the normal way.
    assert!(p
        .resume_with(Reply::Complete(Err(OpenError::Address("no".to_string()))))
        .is_empty());
}

#[test]
fn a_gapless_transition_moves_the_cursor() {
    let mut p = playing(&["a", "b", "c"], 0, Repeat::One);
    p.tick(None);
    let out = p.resume_with(Reply::Polled {
        advances: 2,
        finished: false,
        position: Duration { nanos: 9 },
    });
    assert!(matches!(&out[0], Action::Emit(Event::TrackChanged(Some(item))) if item.id == "b"));
    assert!(matches!(&out[1], Action::Emit(Event::TrackChanged(Some(item))) if item.id == "c"));
    assert!(matches!(&out[2], Action::Persist(saved) if saved.cursor == 2));
    assert!(matches!(out[3], Action::Emit(Event::Position(Duration { nanos: 9 }))));
    p.tick(None);
    p.resume_with(Reply::Polled { advances: 5, finished: false, position: Duration { nanos: 9 } });
    assert_eq!(current(&p), "c");
}

#[test]
fn removals_are_refused_or_stale() {
    let mut p = playing(&["a", "b"], 0, Repeat::Off);
    let out = p.handle(Command::Remove { index: 0, id: "a".to_string() });
    assert_eq!(failures(&out), vec!["that track is playing right now"]);
    assert!(p.handle(Command::Remove { index: 1, id: "z".to_string() }).is_empty());
    assert!(p.handle(Command::Remove { index: 7, id: "b".to_string() }).is_empty());
    let out = p.handle(Command::Remove { index: 1, id: "b".to_string() });
    assert!(matches!(out[1], Action::Emit(Event::QueueChanged)));
    assert_eq!(p.queue().len(), 1);
}

fn gone() -> Reply {
    Reply::Opened(Err(OpenError::Stream { message: "gone".to_string(), gone: true }))
}

#[test]
fn lost_tracks_are_dropped_everywhere_and_skipped() {
    let mut p = player(Repeat::Off);
    p.handle(Command::PlayItems { items: songs(&["x", "a", "x", "b", "x"]), start: 2 });
    let out = p.resume_with(gone());
    assert_eq!(failures(&out), vec!["Song x is no longer on the server, skipping it"]);
    assert_eq!(opened(&out), Some("b".to_string()));
    let ids: Vec<String> = p.queue().items().iter().map(|i| i.id.clone()).collect();
    assert_eq!(ids, vec!["a", "b"]);
    assert_eq!(p.queue().cursor(), 1);

    let out = p.resume_with(gone());
    assert!(matches!(out.last(), Some(Action::Emit(Event::TrackChanged(None)))));
    assert_eq!(current(&p), "a");
    assert_eq!(p.state(), State::Stopped);
}

#[test]
fn repeat_all_wraps_past_a_lost_track() {
    let mut p = player(Repeat::All);
    p.handle(Command::PlayItems { items: songs(&["a", "b", "x"]), start: 2 });
    let out = p.resume_with(gone());
    assert_eq!(opened(&out), Some("a".to_string()));
}

#[test]
fn too_many_lost_tracks_give_up() {
    let all: Vec<String> = (0..20).map(|n| n.to_string()).collect();
    let refs: Vec<&str> = all.iter().map(|s| s.as_str()).collect();
    let mut p = player(Repeat::All);
    p.handle(Command::PlayItems { items: songs(&refs), start: 0 });
    for _ in 0..15 {
        assert!(opened(&p.resume_with(gone())).is_some());
    }
    let out = p.resume_with(gone());
    assert!(failures(&out)
        .contains(&"too many tracks in a row are missing on the server".to_string()));
    assert!(!p.is_waiting());
    assert_eq!(p.queue().len(), 4);
}

#[test]
fn a_track_that_cannot_be_fetched_stops_and_is_tried_again() {
    let mut p = playing(&["a", "b"], 0, Repeat::Off);
    p.handle(Command::Next);
    let out = p.resume_with(Reply::Opened(Err(OpenError::Stream {
        message: "timed out".to_string(),
        gone: false,
    })));
    assert_eq!(failures(&out), vec!["opening stream for Song b: timed out"]);
    assert_eq!(p.state(), State::Stopped);
    assert_eq!(current(&p), "b");
    assert!(p.tick(None).is_empty());
    assert_eq!(opened(&p.handle(Command::Play)), Some("b".to_string()));
    let out = p.resume_with(Reply::Opened(Err(OpenError::Address("not signed in".to_string()))));
    assert_eq!(failures(&out), vec!["not signed in"]);
}

#[test]
fn an_output_that_refuses_a_track_is_reported() {
    let mut p = player(Repeat::Off);
    p.handle(Command::PlayItems { items: songs(&["a"]), start: 0 });
    p.resume_with(Reply::Opened(Ok(())));
    let out = p.resume_with(Reply::Taken(Err("audio thread is gone".to_string())));
    assert_eq!(failures(&out), vec!["starting playback: audio thread is gone"]);
}

#[test]
fn a_random_queue_refills_itself() {
    let mut p = player(Repeat::Off);
    p.handle(Command::PlayRandom);
    p.resume_with(Reply::Tracks(Ok(songs(&["a"]))));
    p.resume_with(Reply::Opened(Ok(())));
    p.resume_with(Reply::Taken(Ok(())));
    let out = p.handle(Command::Next);
    assert!(matches!(out.last(), Some(Action::Ask(Request::RandomTracks(7)))));
    let out = p.resume_with(Reply::Tracks(Ok(songs(&["b", "c"]))));
    assert_eq!(opened(&out), Some("b".to_string()));
    assert_eq!(p.queue().len(), 3);
    p.resume_with(Reply::Opened(Ok(())));
    p.resume_with(Reply::Taken(Ok(())));
    // A refill that fails stops nothing.
    p.handle(Command::Next);
    let out = p.resume_with(Reply::Tracks(Err("down".to_string())));
    assert_eq!(opened(&out), Some("c".to_string()));
}

#[test]
fn faults_are_reported_and_only_the_current_track_is_skipped() {
    let mut p = playing(&["a", "b"], 0, Repeat::Off);
    let out = p.tick(Some(Fault { message: "next is bad".to_string(), affects_current: false }));
    assert_eq!(failures(&out), vec!["next is bad"]);
    assert!(matches!(out.last(), Some(Action::Ask(Request::PollSink))));
    p.resume_with(Reply::Polled {
        advances: 0,
        finished: false,
        position: Duration { nanos: 0 },
    });
    p.resume_with(Reply::Probed {
        cached: false,
        reachable: false,
        position: Duration { nanos: 0 },
    });
    let out = p.tick(Some(Fault { message: "this is bad".to_string(), affects_current: true }));
    assert_eq!(opened(&out), Some("b".to_string()));
    p.resume_with(Reply::Opened(Ok(())));
    p.resume_with(Reply::Taken(Ok(())));
    p.handle(Command::Pause);
    let out = p.tick(Some(Fault { message: "later".to_string(), affects_current: true }));
    assert_eq!(out.len(), 1);
}

#[test]
fn seeking_goes_through_the_demuxer_or_by_byte() {
    let mut p = playing(&["a"], 0, Repeat::Off);
    let pos = Duration::from_secs(25);
    let out = p.handle(Command::Seek(pos));
    assert!(matches!(&out[..], [Action::Ask(Request::OpenComplete { id, .. })] if id == "a"));
    let out = p.resume_with(Reply::Complete(Ok((Some(1000), true))));
    assert!(matches!(&out[..], [Action::Ask(Request::SeekReader(p))] if *p == pos));
    let out = p.resume_with(Reply::Taken(Ok(())));
    assert!(matches!(&out[..], [Action::Emit(Event::Seeked(p))] if *p == pos));

    p.handle(Command::Seek(pos));
    let out = p.resume_with(Reply::Complete(Ok((Some(1000), false))));
    assert!(matches!(&out[..], [Action::Ask(Request::PlayReaderAt { byte: 250, .. })]));
    let out = p.resume_with(Reply::Placed(Err(PlaceError::Positioning("io".to_string()))));
    assert_eq!(failures(&out), vec!["positioning reader: io"]);

    p.handle(Command::Seek(pos));
    p.resume_with(Reply::Complete(Ok((Some(1000), false))));
    let out = p.resume_with(Reply::Placed(Err(PlaceError::Sink("gone".to_string()))));
    assert_eq!(failures(&out), vec!["seeking: gone"]);

    p.handle(Command::Seek(pos));
    let out = p.resume_with(Reply::Complete(Ok((None, false))));
    assert_eq!(failures(&out), vec!["this track cannot be seeked"]);

    p.handle(Command::Seek(pos));
    p.resume_with(Reply::Complete(Ok((None, true))));
    let out = p.resume_with(Reply::Taken(Err("no".to_string())));
    assert_eq!(failures(&out), vec!["seeking: no"]);

    p.handle(Command::Seek(pos));
    let out = p.resume_with(Reply::Complete(Err(OpenError::Stream {
        message: "x".to_string(),
        gone: true,
    })));
    assert_eq!(failures(&out), vec!["opening stream for Song a: x"]);
}

#[test]
fn byte_positions_stay_inside_the_file() {
    let total = Duration::from_secs(200);
    assert_eq!(byte_position(Duration { nanos: 0 }, total, 1_000_000), 0);
    assert_eq!(byte_position(Duration::from_secs(50), total, 1_000_000), 250_000);
    assert_eq!(byte_position(Duration::from_secs(199), total, 1_000_000), 990_000);
    assert_eq!(byte_position(Duration::from_secs(9999), total, 1_000_000), 990_000);
    assert_eq!(byte_position(Duration::from_secs(100), total, u64::MAX), u64::MAX / 2);
    let odd = Duration { nanos: 333_333_333_333 };
    assert_eq!(byte_position(Duration { nanos: 111_111_111_111 }, odd, 999), 333);
}

#[test]
fn extensions_are_the_first_container() {
    let mut item = song("a");
    assert_eq!(extension(&item), "flac");
    item.container = Some("mp3".to_string());
    assert_eq!(extension(&item), "mp3");
    item.container = None;
    assert_eq!(extension(&item), "bin");
}

#[test]
fn a_restored_session_is_shown_but_not_played() {
    let mut p = player(Repeat::Off);
    let out = p.handle(Command::Restore);
    assert!(matches!(&out[..], [Action::Ask(Request::LoadQueue)]));
    let saved = Saved { items: songs(&["a", "b"]), cursor: 1, mode: Mode::Random };
    let out = p.resume_with(Reply::Stored(Some(saved)));
    assert!(
        matches!(&out[..], [Action::Emit(Event::TrackChanged(Some(item)))] if item.id == "b")
    );
    assert_eq!(p.state(), State::Stopped);
    assert_eq!(opened(&p.handle(Command::PlayPause)), Some("b".to_string()));
    p.resume_with(Reply::Opened(Ok(())));
    p.resume_with(Reply::Taken(Ok(())));
    assert!(p.handle(Command::Restore).is_empty());
    p.handle(Command::Stop);
    // Played from by now, so Play starts afresh.
    let out = p.handle(Command::Play);
    assert!(matches!(out.last(), Some(Action::Ask(Request::RandomTracks(7)))));
}

#[test]
fn an_instant_mix_changes_only_what_comes_next() {
    let mut p = playing(&["h", "a", "b"], 1, Repeat::Off);
    let out = p.handle(Command::InstantMix { limit: 30 });
    assert!(
        matches!(&out[..], [Action::Ask(Request::InstantMix { id, limit: 30 })] if id == "a")
    );
    let out = p.resume_with(Reply::Tracks(Ok(songs(&["a", "m", "n"]))));
    assert!(matches!(out.last(), Some(Action::Emit(Event::QueueChanged))));
    let ids: Vec<String> = p.queue().items().iter().map(|i| i.id.clone()).collect();
    assert_eq!(ids, vec!["h", "a", "m", "n"]);
    assert_eq!(current(&p), "a");
    assert_eq!(p.queue().mode(), Mode::Explicit);
    p.handle(Command::InstantMix { limit: 30 });
    let out = p.resume_with(Reply::Tracks(Err("down".to_string())));
    assert_eq!(failures(&out), vec!["fetching an instant mix: down"]);
}

#[test]
fn an_answer_to_nothing_changes_nothing() {
    let mut p = playing(&["a"], 0, Repeat::Off);
    assert!(p.resume_with(Reply::Taken(Ok(()))).is_empty());
    p.handle(Command::Next);
    p.handle(Command::PlayRandom);
    assert!(p.is_waiting());
    assert!(p.resume_with(Reply::Taken(Ok(()))).is_empty());
    assert!(p.is_waiting());
}

#[test]
fn snapshots_limits_and_shutdown() {
    let mut p = playing(&["a", "b"], 1, Repeat::All);
    let out = p.handle(Command::Snapshot);
    assert!(matches!(
        &out[..],
        [Action::Answer(s)] if s.items.len() == 2 && s.cursor == 1 && s.repeat == Repeat::All
    ));
    let out = p.handle(Command::SetCacheLimit(9));
    assert!(matches!(&out[..], [Action::LimitCache(9)]));
    let out = p.handle(Command::Shutdown);
    assert!(matches!(&out[..], [Action::SinkStop, Action::Quit]));
}
