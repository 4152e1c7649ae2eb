use trayplay::jellyfin::models::Item;
use trayplay::player::{Event, State};
use trayplay::report::{Report, Reporter};
use trayplay::time::Duration;

const SECOND: u128 = 1_000_000_000;

fn heard(id: &str) -> Item {
    Item {
        id: id.to_string(),
        name: id.to_string(),
        item_type: None,
        album: None,
        album_id: None,
        album_artist: None,
        artists: Vec::new(),
        artist_items: Vec::new(),
        run_time_ticks: None,
        index_number: None,
        parent_index_number: None,
        container: None,
        image_tags: Vec::new(),
        album_primary_image_tag: None,
    }
}

#[test]
fn a_restored_track_is_not_reported_until_it_is_heard() {
    let mut reporter = Reporter::new();
    assert!(reporter.handle(&Event::TrackChanged(Some(heard("a"))), 0).is_none());
    assert!(reporter.follow_up(0).is_none());
    let report = reporter.handle(&Event::StateChanged(State::Playing), 0);
    assert!(matches!(report, Some(Report::Start { id, .. }) if id == "a"));
}

#[test]
fn one_track_ends_before_the_next_begins() {
    let mut reporter = Reporter::new();
    reporter.handle(&Event::StateChanged(State::Playing), 0);
    reporter.handle(&Event::TrackChanged(Some(heard("a"))), 0);
    assert!(matches!(reporter.follow_up(0), Some(Report::Start { id, .. }) if id == "a"));
    reporter.handle(&Event::Position(Duration::from_secs(3)), SECOND);
    let report = reporter.handle(&Event::TrackChanged(Some(heard("b"))), 2 * SECOND);
    assert!(
        matches!(report, Some(Report::Stopped { id, position }) if id == "a" && position == Duration::from_secs(3))
    );
    let report = reporter.follow_up(2 * SECOND);
    assert!(
        matches!(report, Some(Report::Start { id, position }) if id == "b" && position == Duration::zero())
    );
    assert!(reporter.follow_up(2 * SECOND).is_none());
}

#[test]
fn positions_are_throttled_and_jumps_are_not() {
    let mut reporter = Reporter::new();
    reporter.handle(&Event::TrackChanged(Some(heard("a"))), 0);
    reporter.handle(&Event::StateChanged(State::Playing), 0);
    let at = |s: u64| Event::Position(Duration::from_secs(s));
    assert!(reporter.handle(&at(9), 9 * SECOND).is_none());
    assert!(matches!(
        reporter.handle(&at(10), 10 * SECOND),
        Some(Report::Progress { paused: false, .. })
    ));
    assert!(reporter.handle(&at(11), 11 * SECOND).is_none());
    assert!(matches!(
        reporter.handle(&Event::Seeked(Duration::from_secs(50)), 12 * SECOND),
        Some(Report::Progress { position, .. }) if position == Duration::from_secs(50)
    ));
    assert!(matches!(
        reporter.handle(&Event::StateChanged(State::Paused), 13 * SECOND),
        Some(Report::Progress { paused: true, .. })
    ));
    assert!(matches!(
        reporter.handle(&Event::StateChanged(State::Stopped), 14 * SECOND),
        Some(Report::Stopped { .. })
    ));
    assert!(reporter.handle(&at(60), 60 * SECOND).is_none());
    assert!(reporter.stop().is_none());
    assert!(reporter.handle(&Event::QueueChanged, 0).is_none());
}
