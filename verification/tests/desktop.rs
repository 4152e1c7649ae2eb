use trayplay::config::Repeat;
use trayplay::jellyfin::auth::Credentials;
use trayplay::jellyfin::client::Client;
use trayplay::jellyfin::models::{ImageTag, Item};
use trayplay::mpris::{
    from_loop_status, metadata_for, to_duration, to_loop_status, to_playback_status, to_time,
    track_id, Call, Controls, LoopStatus, PlaybackStatus, Update,
};
use trayplay::player::{Command, Event, Snapshot, State};
use trayplay::time::Duration;
use trayplay::tray::sni::{MenuEntry, Orientation, Tray};
use trayplay::tray::xembed::{input_action, rgba_of, Input, MouseButton};
use trayplay::tray::{
    icon_name_for_state, nothing_playing, scroll_action, track_label, xembed, TrayAction, UiRequest,
    Updater,
};

fn tune(id: &str) -> Item {
    Item {
        id: id.to_string(),
        name: "Tune".to_string(),
        item_type: None,
        album: Some("LP".to_string()),
        album_id: Some("lp".to_string()),
        album_artist: Some("Band".to_string()),
        artists: Vec::new(),
        artist_items: Vec::new(),
        run_time_ticks: Some(30_000_000),
        index_number: Some(4),
        parent_index_number: Some(2),
        container: None,
        image_tags: vec![ImageTag { kind: "Primary".to_string(), tag: "t".to_string() }],
        album_primary_image_tag: None,
    }
}

fn server() -> Client {
    Client::authenticated(
        Credentials {
            server: "https://x".to_string(),
            user_id: "u".to_string(),
            username: "n".to_string(),
            token: "t".to_string(),
        },
        "d".to_string(),
    )
}

#[test]
fn loop_status_round_trips() {
    for repeat in [Repeat::Off, Repeat::All, Repeat::One] {
        assert_eq!(from_loop_status(to_loop_status(repeat)), repeat);
    }
    assert_eq!(to_loop_status(Repeat::All), LoopStatus::Playlist);
    assert_eq!(to_loop_status(Repeat::One), LoopStatus::Track);
    assert_eq!(to_playback_status(State::Paused), PlaybackStatus::Paused);
}

#[test]
fn positions_are_in_microseconds() {
    assert_eq!(to_time(Duration { nanos: 1_999 }), 1);
    assert_eq!(to_duration(5), Duration { nanos: 5_000 });
    assert_eq!(to_duration(-5), Duration::zero());
}

#[test]
fn track_ids_are_object_paths() {
    assert_eq!(track_id("ab12").as_deref(), Some("/dev/trayplay/track/ab12"));
    assert_eq!(track_id("ab-12"), None);
    assert_eq!(track_id(""), None);
    assert_eq!(track_id("a//b"), None);
    assert_eq!(track_id("a/b").as_deref(), Some("/dev/trayplay/track/a/b"));
}

#[test]
fn metadata_names_everything() {
    let md = metadata_for(&tune("a1"), &server());
    assert_eq!(md.track_id.as_deref(), Some("/dev/trayplay/track/a1"));
    assert_eq!(md.title.as_deref(), Some("Tune"));
    assert_eq!(md.length, Some(3_000_000));
    assert_eq!(md.album.as_deref(), Some("LP"));
    assert_eq!(md.album_artist.as_deref(), Some("Band"));
    assert_eq!(md.track_number, Some(4));
    assert_eq!(md.disc_number, Some(2));
    assert_eq!(md.artists, vec!["Band"]);
    assert_eq!(
        md.art_url.as_deref(),
        Some("https://x/Items/a1/Images/Primary?tag=t&maxHeight=512")
    );
    let mut credited = tune("a1");
    credited.artists = vec!["A".to_string(), "B".to_string()];
    assert_eq!(metadata_for(&credited, &server()).artists, vec!["A", "B"]);
}

#[test]
fn positions_are_set_only_in_the_playing_track() {
    let mut controls = Controls::new();
    let set = |id: &str| Call::SetPosition { track_id: id.to_string(), position: 7 };
    assert!(controls.call(set("/dev/trayplay/track/a1")).0.is_none());
    let updates = controls.on_event(&Event::TrackChanged(Some(tune("a1"))), &server());
    assert!(matches!(&updates[..], [Update::Metadata(_)]));
    assert!(matches!(
        controls.call(set("/dev/trayplay/track/a1")).0,
        Some(Command::Seek(Duration { nanos: 7_000 }))
    ));
    assert!(controls.call(set("/dev/trayplay/track/zz")).0.is_none());
    let updates = controls.on_event(&Event::TrackChanged(None), &server());
    assert!(matches!(&updates[..], [Update::Metadata(md)] if md.title.is_none()));
    assert!(controls.current.is_none());
}

#[test]
fn calls_become_commands() {
    let controls = Controls::new();
    assert!(matches!(controls.call(Call::PlayPause), (Some(Command::PlayPause), None)));
    assert!(matches!(
        controls.call(Call::Seek { position: 10, offset: -30 }).0,
        Some(Command::Seek(Duration { nanos: 0 }))
    ));
    assert!(matches!(
        controls.call(Call::SetLoopStatus(LoopStatus::Track)).0,
        Some(Command::SetRepeat(Repeat::One))
    ));
    assert!(matches!(controls.call(Call::Raise), (None, Some(UiRequest::ShowPopup))));
    assert!(matches!(
        controls.call(Call::Quit),
        (Some(Command::Shutdown), Some(UiRequest::Quit))
    ));
}

#[test]
fn events_become_updates() {
    let mut controls = Controls::new();
    let client = server();
    let pos = Duration::from_secs(1);
    assert!(matches!(
        controls.on_event(&Event::StateChanged(State::Playing), &client)[..],
        [Update::Playback(PlaybackStatus::Playing)]
    ));
    assert!(matches!(
        controls.on_event(&Event::Position(pos), &client)[..],
        [Update::Position(1_000_000)]
    ));
    assert!(matches!(
        controls.on_event(&Event::Seeked(pos), &client)[..],
        [Update::Position(1_000_000), Update::Seeked(1_000_000)]
    ));
    assert!(controls.on_event(&Event::QueueChanged, &client).is_empty());
    let snapshot = Snapshot { items: vec![tune("a1")], cursor: 0, repeat: Repeat::All };
    let updates = controls.seed(&snapshot, &client);
    assert!(matches!(&updates[..], [Update::Loop(LoopStatus::Playlist), Update::Metadata(_)]));
    let empty = Snapshot { items: Vec::new(), cursor: 0, repeat: Repeat::Off };
    assert_eq!(controls.seed(&empty, &client).len(), 1);
}

#[test]
fn the_tray_says_what_plays() {
    let mut tray = Tray::new();
    assert_eq!(tray.icon_name(), "multimedia-player");
    assert_eq!(tray.description(), "Nothing playing");
    assert_eq!(nothing_playing(), "Nothing playing");
    assert!(tray.on_event(&Event::TrackChanged(Some(tune("a")))));
    assert_eq!(tray.description(), "Band - Tune");
    assert_eq!(track_label(&tune("a")), "Band - Tune");
    assert!(tray.on_event(&Event::StateChanged(State::Playing)));
    assert_eq!(tray.icon_name(), "media-playback-start");
    assert!(!tray.on_event(&Event::Position(Duration::zero())));
    let labels: Vec<String> = tray
        .menu()
        .iter()
        .map(|entry| match entry {
            MenuEntry::Separator => "-".to_string(),
            MenuEntry::Item { label, .. } => label.clone(),
        })
        .collect();
    assert_eq!(
        labels,
        vec!["Pause", "Next", "Previous", "-", "Random play", "-", "Show/Hide", "Quit"]
    );
    let snapshot = Snapshot { items: vec![tune("b")], cursor: 0, repeat: Repeat::Off };
    let mut seeded = Tray::new();
    seeded.seed(&snapshot);
    assert_eq!(seeded.now_playing.as_deref(), Some("Band - Tune"));
    assert_eq!(icon_name_for_state(State::Paused), "media-playback-pause");
}

#[test]
fn scrolling_up_is_the_next_track() {
    assert_eq!(scroll_action(-1), Some(TrayAction::Next));
    assert_eq!(scroll_action(1), Some(TrayAction::Previous));
    assert_eq!(scroll_action(0), None);
    let tray = Tray::new();
    assert_eq!(tray.scroll(-3, Orientation::Vertical), Some(TrayAction::Next));
    assert_eq!(tray.scroll(-3, Orientation::Horizontal), None);
    assert_eq!(input_action(Input::Scroll { delta: 1 }), Some(TrayAction::Previous));
}

#[test]
fn clicks_count_on_release() {
    let click = |button, released| input_action(Input::Click { button, released });
    assert_eq!(click(MouseButton::Left, true), Some(TrayAction::TogglePopup));
    assert_eq!(click(MouseButton::Right, true), Some(TrayAction::TogglePopup));
    assert_eq!(click(MouseButton::Middle, true), Some(TrayAction::PlayPause));
    assert_eq!(click(MouseButton::Left, false), None);
    assert_eq!(input_action(Input::Other), None);
    assert!(matches!(TrayAction::Quit.command(), Some(Command::Shutdown)));
    assert_eq!(TrayAction::Quit.ui_request(), Some(UiRequest::Quit));
    assert!(TrayAction::TogglePopup.command().is_none());
    assert_eq!(xembed::icon_name_for_state(State::Stopped), "trayplay-music-symbolic");
}

#[test]
fn pixels_are_reordered_and_made_straight() {
    // Two rows of one pixel, four bytes of padding behind each.
    let data = [10, 20, 40, 255, 9, 9, 9, 9, 50, 100, 100, 100, 9, 9, 9, 9];
    assert_eq!(rgba_of(&data, 1, 2, 8), vec![40, 20, 10, 255, 255, 255, 127, 100]);
    assert_eq!(rgba_of(&[1, 2, 3, 0], 1, 1, 4), vec![0, 0, 0, 0]);
    assert!(rgba_of(&[], 0, 0, 0).is_empty());
}

#[test]
fn the_icon_follows_once_both_are_there() {
    let mut updater = Updater::new();
    assert!(!updater.try_start(true, false));
    assert!(!updater.try_start(false, true));
    assert!(updater.try_start(true, true));
    assert!(!updater.try_start(true, true));
}
