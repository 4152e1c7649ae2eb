use trayplay::config::{Anchor, Config, Repeat};
use trayplay::jellyfin::auth::Credentials;
use trayplay::jellyfin::client::Client;
use trayplay::jellyfin::models::{Item, NameId, ServerInfo};
use trayplay::player::{Command, Event, Snapshot, State};
use trayplay::time::Duration;
use trayplay::ui::artists::{artist_strip, can_focus_first};
use trayplay::ui::artwork::{hash, panel_font, panel_hue, ArtBackdrop, TextureChange};
use trayplay::ui::browse;
use trayplay::ui::browse::{
    filter_term, key_action, row_names, row_visible, section_visible, visible_rows, Focus, ListPage,
    Modifiers, RowRef, RowState, SectionRows,
};
use trayplay::ui::library::{
    destination_query, destination_title, lists_albums, search_rows, Destination, Search,
    SearchStep,
};
use trayplay::ui::login::{next_stage, prefill, submit, success_message, Stage};
use trayplay::ui::nowplaying::{
    album_line, format_time, placeholder_text, play_icon, repeat_icon, title_line, AlbumLine, Key,
    KeyAction, Navigate, NowPlaying,
};
use trayplay::ui::popup::{
    enqueue_label, error_message, layer_anchor, loose_tracks, on_event, play_album, play_album_row,
    play_loose, play_search_track, play_shuffled_or_random, resolve_search, route_key,
    send_enqueue, unclaimed_key, Enqueue, HideDecision, KeyRoute, Popup, Resolve, RootUpdate, Scope,
    Toaster, WindowAction, WindowKey,
};
use trayplay::ui::queries::{Query, QueryCache, MAX_CACHED_QUERIES};
use trayplay::ui::queue::{
    activate, concerns_page, current_id, ids_of, kind_label, subtitle, QueuePage, Refresh,
};
use trayplay::ui::{menu_closed, menu_is_open, menu_opened, no_menus};

const SEC: u128 = 1_000_000_000;

fn row(id: &str, kind: &str) -> Item {
    Item {
        id: id.to_string(),
        name: format!("Name {id}"),
        item_type: Some(kind.to_string()),
        album: None,
        album_id: None,
        album_artist: None,
        artists: Vec::new(),
        artist_items: Vec::new(),
        run_time_ticks: Some(2_000_000_000),
        index_number: None,
        parent_index_number: None,
        container: None,
        image_tags: Vec::new(),
        album_primary_image_tag: None,
    }
}

fn audio(ids: &[&str]) -> Vec<Item> {
    ids.iter().map(|id| row(id, "Audio")).collect()
}

fn plain() -> Modifiers {
    Modifiers { control: false, alt: false, shift: false }
}

#[test]
fn menus_are_counted() {
    let mut menus = no_menus();
    menu_opened(&mut menus);
    menu_opened(&mut menus);
    menu_closed(&mut menus);
    assert!(menu_is_open(&menus));
    menu_closed(&mut menus);
    menu_closed(&mut menus);
    assert!(!menu_is_open(&menus));
}

#[test]
fn answers_are_reused_until_they_expire() {
    let mut cache = QueryCache::new(Duration::from_secs(10));
    let album = || Query::AlbumTracks("al".to_string());
    assert!(cache.get(&album(), 0).is_none());
    cache.put(album(), &audio(&["a"]), 0);
    assert_eq!(cache.get(&album(), 10 * SEC - 1).unwrap().len(), 1);
    assert!(cache.get(&album(), 10 * SEC).is_none());
    cache.put(album(), &audio(&["a", "b"]), 5 * SEC);
    assert_eq!(cache.get(&album(), 6 * SEC).unwrap().len(), 2);
    assert!(cache.get(&Query::ArtistTracks("al".to_string()), 6 * SEC).is_none());

    let mut disabled = QueryCache::new(Duration::zero());
    disabled.put(album(), &audio(&["a"]), 0);
    assert!(disabled.get(&album(), 0).is_none());
}

#[test]
fn the_oldest_answers_make_room() {
    let mut cache = QueryCache::new(Duration::from_secs(1000));
    for n in 0..MAX_CACHED_QUERIES as u128 + 1 {
        cache.put(Query::AlbumTracks(n.to_string()), &audio(&["a"]), n);
    }
    assert!(cache.get(&Query::AlbumTracks("0".to_string()), 70).is_none());
    assert!(cache.get(&Query::AlbumTracks("1".to_string()), 70).is_some());
    assert!(cache.get(&Query::AlbumTracks("64".to_string()), 70).is_some());
}

#[test]
fn another_answer_takes_the_place_of_the_one_before() {
    let mut cache = QueryCache::new(Duration::from_secs(1000));
    cache.put(Query::Artists, &audio(&["first"]), 0);
    for n in 0..2 * MAX_CACHED_QUERIES as u128 {
        cache.put(Query::AlbumTracks("al".to_string()), &audio(&["a"]), n);
    }
    cache.put(Query::AlbumTracks("al".to_string()), &audio(&["a", "b"]), 200);
    assert_eq!(cache.get(&Query::AlbumTracks("al".to_string()), 200).unwrap().len(), 2);
    assert!(cache.get(&Query::Artists, 200).is_some());
}

#[test]
fn an_artist_page_needs_both_halves() {
    let mut cache = QueryCache::new(Duration::from_secs(10));
    cache.put(Query::ArtistAlbums("ar".to_string()), &audio(&["al"]), 0);
    assert!(cache.artist_page("ar", 1).is_none());
    cache.put(Query::ArtistTracks("ar".to_string()), &audio(&["t", "u"]), 1);
    let (albums, tracks) = cache.artist_page("ar", 1).unwrap();
    assert_eq!((albums.len(), tracks.len()), (1, 2));
}

fn signed_in() -> Client {
    Client::authenticated(
        Credentials {
            server: "https://x".to_string(),
            user_id: "u".to_string(),
            username: "n".to_string(),
            token: "t".to_string(),
        },
        "d".to_string(),
    )
}

#[test]
fn queries_are_asked_of_the_server() {
    let client = signed_in();
    assert_eq!(Query::Artists.request(&client).unwrap().path, "/Artists");
    let query = Query::AlbumTracks("al".to_string()).request(&client).unwrap();
    assert_eq!(query.params[1], ("parentId".to_string(), "al".to_string()));
    let query = Query::ArtistAlbums("ar".to_string()).request(&client).unwrap();
    assert_eq!(query.params[2].1, "MusicAlbum");
    let query = Query::ArtistTracks("ar".to_string()).request(&client).unwrap();
    assert_eq!(query.params[2].1, "Audio");
    let query = destination_query(Destination::RecentlyAdded, &client, 5).unwrap();
    assert_eq!(query.params[1].1, "MusicAlbum");
    let query = destination_query(Destination::MostPlayed, &client, 5).unwrap();
    assert_eq!(query.params[3].1, "PlayCount");
    let query = destination_query(Destination::RecentlyPlayed, &client, 5).unwrap();
    assert_eq!(query.params[3].1, "DatePlayed");
    assert_eq!(destination_title(Destination::MostPlayed), "Most played");
    assert!(lists_albums(Destination::RecentlyAdded));
    assert!(!lists_albums(Destination::MostPlayed));
}

#[test]
fn rows_say_what_they_are() {
    let mut track = row("t", "Audio");
    assert_eq!(ListPage::track_subtitle(&track).as_deref(), Some("3:20"));
    track.index_number = Some(7);
    assert_eq!(ListPage::track_subtitle(&track).as_deref(), Some("7. 3:20"));
    track.run_time_ticks = None;
    assert_eq!(ListPage::track_subtitle(&track).as_deref(), Some("7."));
    track.index_number = None;
    assert_eq!(ListPage::track_subtitle(&track), None);
    assert_eq!(ListPage::loose_track_subtitle(&track), None);
    assert_eq!(ListPage::album_subtitle(&track), None);
    track.album_artist = Some("Band".to_string());
    assert_eq!(ListPage::album_subtitle(&track).as_deref(), Some("Band"));
    assert_eq!(ListPage::search_subtitle(&track).as_deref(), Some("Band"));
    track.album = Some("LP".to_string());
    assert_eq!(ListPage::search_subtitle(&track).as_deref(), Some("Band · LP"));
    assert_eq!(
        ListPage::search_subtitle(&row("a", "MusicArtist")).as_deref(),
        Some("Artist")
    );
    assert_eq!(ListPage::search_subtitle(&row("a", "MusicAlbum")).as_deref(), Some("Album"));
    assert_eq!(ListPage::search_subtitle(&row("a", "Folder")), None);
}

#[test]
fn the_filter_ignores_case_and_space() {
    let names = row_names(&audio(&["One", "TWO"]));
    assert_eq!(names, vec!["name one", "name two"]);
    let term = filter_term("  ONE ");
    assert_eq!(term, "one");
    assert!(row_visible(&names, 0, &term));
    assert!(!row_visible(&names, 1, &term));
    assert!(row_visible(&names, 9, &term));
    assert!(row_visible(&names, 1, ""));
    assert!(section_visible(&names, &term));
    assert!(!section_visible(&names, "zzz"));
    assert!(section_visible(&Vec::new(), "zzz"));
    assert!(section_visible(&names, ""));
}

#[test]
fn arrows_walk_the_rows() {
    let focus = |row, rows| Focus { in_entry: false, row, rows, has_menu: true };
    let act = |key, f| key_action(key, plain(), f);
    assert_eq!(act(browse::Key::Down, focus(None, 3)), browse::KeyAction::FocusRow(0));
    assert_eq!(act(browse::Key::Up, focus(None, 3)), browse::KeyAction::FocusRow(2));
    assert_eq!(act(browse::Key::Down, focus(Some(2), 3)), browse::KeyAction::FocusRow(2));
    assert_eq!(act(browse::Key::Up, focus(Some(0), 3)), browse::KeyAction::FocusRow(0));
    assert_eq!(act(browse::Key::Down, focus(None, 0)), browse::KeyAction::Swallow);
    assert_eq!(act(browse::Key::Left, focus(None, 0)), browse::KeyAction::Back);
    assert_eq!(act(browse::Key::Right, focus(Some(1), 3)), browse::KeyAction::Activate(1));
    assert_eq!(act(browse::Key::Enter, focus(Some(1), 3)), browse::KeyAction::Proceed);
    let shift = Modifiers { shift: true, ..plain() };
    assert_eq!(
        key_action(browse::Key::Enter, shift, focus(Some(1), 3)),
        browse::KeyAction::RunFirst(1)
    );
    let typing = Focus { in_entry: true, ..focus(Some(1), 3) };
    assert_eq!(act(browse::Key::Down, typing), browse::KeyAction::Proceed);
    let control = Modifiers { control: true, ..plain() };
    assert_eq!(
        key_action(browse::Key::Left, control, focus(Some(1), 3)),
        browse::KeyAction::Proceed
    );
}

#[test]
fn the_queue_page_follows_the_queue() {
    let snapshot = |ids: &[&str], cursor| Snapshot { items: audio(ids), cursor, repeat: Repeat::Off };
    let mut page = QueuePage::new(&snapshot(&["a", "b"], 0));
    assert_eq!(page.refresh(&snapshot(&["a", "b"], 1)), Refresh::Relabel);
    assert_eq!(page.refresh(&snapshot(&["a", "b", "c"], 1)), Refresh::Replace);
    assert!(matches!(page.remove(2), Some(Command::Remove { index: 2, id }) if id == "c"));
    assert!(page.remove(3).is_none());
    assert_eq!(kind_label(1), "1 track");
    assert_eq!(kind_label(12), "12 tracks");
    assert_eq!(current_id(&audio(&["a"]), 0).as_deref(), Some("a"));
    assert_eq!(current_id(&audio(&["a"]), 1), None);
    assert_eq!(ids_of(&audio(&["a", "b"])), vec!["a", "b"]);
    let item = row("a", "Audio");
    assert_eq!(subtitle(&item, &None), "Unknown Artist · 3:20");
    assert_eq!(
        subtitle(&item, &Some("a".to_string())),
        "Now playing · Unknown Artist · 3:20"
    );
    assert!(concerns_page(&Event::QueueChanged));
    assert!(!concerns_page(&Event::Position(Duration::zero())));
    assert!(matches!(activate(&audio(&["a", "b"]), 1), Command::PlayItems { start: 1, .. }));
}

#[test]
fn times_read_as_minutes_and_seconds() {
    assert_eq!(format_time(Duration::zero()), "0:00");
    assert_eq!(format_time(Duration::from_secs(65)), "1:05");
    assert_eq!(format_time(Duration::from_secs(3600)), "60:00");
    assert_eq!(format_time(Duration { nanos: 59_999_999_999 }), "0:59");
}

#[test]
fn the_view_says_what_plays() {
    let mut item = row("t", "Audio");
    assert_eq!(title_line(&None), "Nothing playing");
    assert!(matches!(album_line(&item), AlbumLine::Hidden));
    assert_eq!(placeholder_text(&item), "Name t");
    item.artists = vec!["A".to_string(), "B".to_string()];
    item.artist_items = vec![
        NameId { id: "1".to_string(), name: "A".to_string() },
        NameId { id: "2".to_string(), name: "B".to_string() },
    ];
    assert_eq!(placeholder_text(&item), "A, B");
    item.album = Some("LP".to_string());
    assert_eq!(placeholder_text(&item), "LP");
    assert!(matches!(album_line(&item), AlbumLine::Plain(name) if name == "LP"));
    item.album_id = Some("lp".to_string());
    assert!(matches!(album_line(&item), AlbumLine::Link(name) if name == "LP"));
    assert_eq!(title_line(&Some(item)), "Name t");
    assert_eq!(play_icon(State::Playing), "trayplay-pause-symbolic");
    assert_eq!(play_icon(State::Stopped), "trayplay-play-symbolic");
    assert_eq!(repeat_icon(Repeat::One), ("trayplay-repeat-one-symbolic", "Repeat: this track"));
}

#[test]
fn every_credited_artist_is_listed() {
    let mut item = row("t", "Audio");
    let strip = artist_strip(&item);
    assert_eq!(strip.len(), 1);
    assert_eq!(strip[0].label, "Unknown Artist");
    assert!(!can_focus_first(&strip));
    item.artist_items = vec![
        NameId { id: "1".to_string(), name: "A".to_string() },
        NameId { id: "2".to_string(), name: "B".to_string() },
    ];
    let strip = artist_strip(&item);
    assert_eq!(strip[1].label, "B");
    assert_eq!(strip[1].id.as_deref(), Some("2"));
    assert!(can_focus_first(&strip));
}

#[test]
fn arrows_seek_a_tenth() {
    let mut view = NowPlaying::new();
    let out = view.handle_key(Key::Right, plain(), 0);
    assert!(out.stop && matches!(out.action, KeyAction::Nothing));
    view.set_track(Some(row("t", "Audio")));
    assert!(view.is_sensitive());
    let out = view.handle_key(Key::Right, plain(), 0);
    let KeyAction::Seek { target, generation } = out.action else { panic!() };
    assert_eq!(target, Duration::from_secs(20));
    assert!(view.seek_is_due(generation));
    let out = view.handle_key(Key::Left, plain(), 0);
    let KeyAction::Seek { target, generation: newer } = out.action else { panic!() };
    assert_eq!(target, Duration::zero());
    assert!(!view.seek_is_due(generation));
    assert!(view.seek_is_due(newer));
    let out = view.handle_key(Key::Left, plain(), 0);
    assert!(matches!(out.action, KeyAction::Seek { target: Duration { nanos: 0 }, .. }));
}

#[test]
fn keys_do_what_the_readme_says() {
    let mut view = NowPlaying::new();
    let mut press = |key| view.handle_key(key, plain(), 0).action;
    assert!(matches!(press(Key::Space), KeyAction::Tell(Command::PlayPause)));
    assert!(matches!(press(Key::N), KeyAction::Tell(Command::Next)));
    assert!(matches!(press(Key::P), KeyAction::Tell(Command::Previous)));
    assert!(matches!(press(Key::R), KeyAction::Tell(Command::CycleRepeat)));
    assert!(matches!(press(Key::L), KeyAction::Go(Navigate::Library)));
    assert!(matches!(press(Key::Q), KeyAction::Go(Navigate::Queue)));
    assert!(matches!(press(Key::S), KeyAction::Go(Navigate::Settings)));
    assert!(matches!(press(Key::LowerA), KeyAction::Nothing));
    assert!(matches!(press(Key::UpperA), KeyAction::FocusArtist));
    let control = Modifiers { control: true, ..plain() };
    assert!(!view.handle_key(Key::Q, control, 0).stop);
    assert!(!view.handle_key(Key::Other, plain(), 0).stop);
    let mut item = row("t", "Audio");
    item.album = Some("LP".to_string());
    item.album_id = Some("lp".to_string());
    view.set_track(Some(item));
    let out = view.handle_key(Key::LowerA, plain(), 0);
    assert!(
        matches!(out.action, KeyAction::Go(Navigate::Album { id, name }) if id == "lp" && name == "LP")
    );
}

#[test]
fn artist_focus_takes_the_arrows() {
    let mut view = NowPlaying::new();
    view.set_track(Some(row("t", "Audio")));
    let first = view.artist_focused();
    let out = view.handle_key(Key::Right, plain(), 0);
    let KeyAction::KeepArtistFocus(second) = out.action else { panic!() };
    assert!(!out.stop);
    assert!(!view.artist_timeout(first));
    assert!(view.artist_timeout(second));
    assert!(!view.artist_timeout(second));
    view.artist_focused();
    let out = view.handle_key(Key::Escape, plain(), 0);
    assert!(out.stop && out.clear_focus);
    view.artist_focused();
    let out = view.handle_key(Key::N, plain(), 0);
    assert!(out.clear_focus && matches!(out.action, KeyAction::Tell(Command::Next)));
    view.artist_focused();
    let out = view.handle_key(Key::Enter, plain(), 0);
    assert!(!out.stop && !out.clear_focus);
}

#[test]
fn a_seek_pins_the_slider() {
    let mut view = NowPlaying::new();
    view.set_track(Some(row("t", "Audio")));
    view.request_seek(Duration::from_secs(100), 0);
    view.set_position(Duration::from_secs(5), SEC);
    assert_eq!(view.value(), Duration::from_secs(100));
    view.set_seeked(Duration::from_secs(100), SEC);
    view.set_position(Duration::from_secs(6), 2 * SEC);
    assert_eq!(view.value(), Duration::from_secs(100));
    assert!(view.is_seeking());
    view.set_position(Duration::from_secs(101), 3 * SEC);
    assert_eq!(view.value(), Duration::from_secs(101));
    assert!(!view.is_seeking());

    view.request_seek(Duration::from_secs(50), 10 * SEC);
    view.set_position(Duration::from_secs(7), 15 * SEC);
    assert_eq!(view.value(), Duration::from_secs(7));
    view.request_seek(Duration::from_secs(50), 20 * SEC);
    view.cancel_pending_seek();
    view.set_position(Duration::from_secs(8), 20 * SEC);
    assert_eq!(view.value(), Duration::from_secs(8));
    // A seek from elsewhere is pinned too.
    view.set_seeked(Duration::from_secs(90), 30 * SEC);
    view.set_position(Duration::from_secs(9), 30 * SEC);
    assert_eq!(view.value(), Duration::from_secs(90));
}

#[test]
fn the_slider_goes_no_further_than_its_end() {
    let mut view = NowPlaying::new();
    view.set_position(Duration::from_secs(5), 0);
    assert_eq!(view.value(), Duration::from_secs(1));
    view.set_track(Some(row("t", "Audio")));
    // The server's length is short of the file's.
    view.set_position(Duration::from_secs(216), 0);
    assert_eq!(view.value(), Duration::from_secs(200));
    let out = view.handle_key(Key::Left, plain(), 0);
    let KeyAction::Seek { target, .. } = out.action else { panic!() };
    assert_eq!(target, Duration::from_secs(180));
    assert_eq!(view.value(), Duration::from_secs(180));

    // What is waited for is the position that was asked for, not where the slider stands.
    view.request_seek(Duration::from_secs(216), 10 * SEC);
    assert_eq!(view.value(), Duration::from_secs(200));
    view.set_position(Duration::from_secs(200), 11 * SEC);
    assert!(view.is_seeking());
    view.set_position(Duration::from_secs(216), 12 * SEC);
    assert!(!view.is_seeking());
    assert_eq!(view.value(), Duration::from_secs(200));
    view.set_seeked(Duration::from_secs(300), 20 * SEC);
    assert_eq!(view.value(), Duration::from_secs(200));
}

#[test]
fn a_change_of_track_takes_the_focus_off_artists_only() {
    let mut view = NowPlaying::new();
    assert!(!view.artist_mode());
    assert!(!view.has_track());
    assert!(!view.set_track(Some(row("a", "Audio"))).clear_focus);
    assert!(view.has_track());
    view.artist_focused();
    assert!(view.artist_mode());
    assert!(view.set_track(Some(row("b", "Audio"))).clear_focus);
    assert!(!view.artist_mode());
    assert!(!view.set_track(None).clear_focus);
}

#[test]
fn events_reach_the_root_view() {
    let mut view = NowPlaying::new();
    let RootUpdate::Track(first) =
        on_event(&mut view, Event::TrackChanged(Some(row("t", "Audio"))), 0)
    else {
        panic!()
    };
    assert!(view.cover_is_current(first.art_generation));
    assert!(!first.clear_focus);
    assert_eq!(view.span(), Duration::from_secs(200));
    view.artist_focused();
    let RootUpdate::Track(second) = on_event(&mut view, Event::TrackChanged(None), 0) else {
        panic!()
    };
    assert!(!view.cover_is_current(first.art_generation));
    assert!(view.cover_is_current(second.art_generation));
    assert!(second.clear_focus);
    view.request_seek(Duration::from_secs(1), 0);
    let update = on_event(&mut view, Event::Failed("no".to_string()), 0);
    assert!(matches!(update, RootUpdate::Failed(message) if message == "no"));
    assert!(!view.is_seeking());
    let update = on_event(&mut view, Event::RepeatChanged(Repeat::All), 0);
    assert!(matches!(update, RootUpdate::Repeat(Repeat::All)));
    assert!(matches!(on_event(&mut view, Event::QueueChanged, 0), RootUpdate::Nothing));
}

#[test]
fn hashes_never_change() {
    assert_eq!(hash(b""), 0xcbf2_9ce4_8422_2325);
    assert_eq!(hash(b"a"), 0xaf63_dc4c_8601_ec8c);
    assert_eq!(hash(b"foobar"), 0x8594_4171_f739_67e8);
    assert_eq!(panel_hue("a"), 0xaf63_dc4c_8601_ec8c % 360);
    assert_eq!(panel_font("a", 0), None);
    assert_eq!(panel_font("a", 7), Some((0xaf63_dc4c_8601_ec8cu64 % 7) as usize));
}

#[test]
fn covers_fade_only_into_each_other() {
    let mut art = ArtBackdrop::new();
    assert_eq!(art.set_texture(Some(1)), TextureChange::Land);
    assert_eq!(art.set_texture(Some(1)), TextureChange::Same);
    assert_eq!(art.set_texture(Some(2)), TextureChange::Fade);
    assert!(!art.shows_panel());
    art.fade_done();
    assert_eq!(art.set_texture(None), TextureChange::Land);
    art.set_placeholder(Some("LP".to_string()));
    assert!(art.shows_panel());
}

#[test]
fn the_panel_moves_only_on_screen() {
    let mut art = ArtBackdrop::new();
    art.set_placeholder(Some("LP".to_string()));
    assert!(!art.is_drifting());
    art.set_mapped(true);
    assert!(art.is_drifting());
    art.set_reduce_motion(true);
    assert!(!art.is_drifting());
    art.set_reduce_motion(false);
    assert!(art.is_drifting());
    art.set_placeholder(None);
    assert!(!art.is_drifting());
    art.set_placeholder(Some("EP".to_string()));
    art.set_mapped(false);
    assert!(!art.is_drifting());
}

#[test]
fn a_tray_click_raises_or_hides() {
    let mut popup = Popup::new(true, 40);
    assert_eq!(popup.toggle(false, 0), WindowAction::Show);
    assert_eq!(popup.focus_changed(true, 0), None);
    assert_eq!(popup.toggle(true, 0), WindowAction::Hide);
    assert_eq!(popup.focus_changed(false, 10 * SEC), Some(40));
    assert_eq!(popup.toggle(true, 11 * SEC), WindowAction::Hide);
    assert_eq!(popup.toggle(true, 12 * SEC), WindowAction::Show);
}

#[test]
fn a_blur_hides_unless_a_menu_is_open() {
    let mut popup = Popup::new(true, 0);
    let mut menus = no_menus();
    popup.focus_changed(false, 0);
    menu_opened(&mut menus);
    assert_eq!(popup.hide_due(&menus), HideDecision::Wait);
    menu_closed(&mut menus);
    assert_eq!(popup.hide_due(&menus), HideDecision::Hide);
    popup.focus_changed(true, 0);
    assert_eq!(popup.hide_due(&menus), HideDecision::Keep);
    let mut lasting = Popup::new(false, 0);
    assert_eq!(lasting.focus_changed(false, 0), None);
    assert_eq!(lasting.hide_due(&menus), HideDecision::Keep);
}

#[test]
fn corners_and_messages() {
    assert_eq!(layer_anchor(Anchor::TopRight), (true, false, false, true));
    assert_eq!(layer_anchor(Anchor::BottomLeft), (false, true, true, false));
    let mut toaster = Toaster::new();
    assert!(toaster.show("a"));
    assert!(!toaster.show("a"));
    assert!(toaster.show("b"));
    toaster.dismissed();
    assert!(toaster.show("b"));
    assert_eq!(error_message("Library", "down"), "Library: down");
}

#[test]
fn rows_resolve_by_kind() {
    assert!(matches!(resolve_search(&row("x", "MusicArtist")), Resolve::ArtistTracks(id) if id == "x"));
    assert!(matches!(resolve_search(&row("x", "MusicAlbum")), Resolve::AlbumTracks(id) if id == "x"));
    assert!(matches!(resolve_search(&row("x", "Audio")), Resolve::Itself));
    let (command, message) = send_enqueue(Vec::new(), Enqueue::Last);
    assert!(command.is_none());
    assert_eq!(message, "Nothing to queue");
    let (command, message) = send_enqueue(audio(&["a"]), Enqueue::Last);
    assert!(matches!(command, Some(Command::QueueLast { .. })));
    assert_eq!(message, "1 track added to the queue");
    let (command, message) = send_enqueue(audio(&["a", "b"]), Enqueue::Next);
    assert!(matches!(command, Some(Command::QueueNext { .. })));
    assert_eq!(message, "2 tracks playing next");
    assert_eq!(enqueue_label(Enqueue::Next), "Play next");
}

#[test]
fn a_search_hit_finds_its_scope() {
    let mut hit = row("x", "Audio");
    assert!(matches!(play_search_track(&hit), Scope::Random));
    hit.artist_items = vec![NameId { id: "ar".to_string(), name: "A".to_string() }];
    assert!(matches!(play_search_track(&hit), Scope::Artist(id) if id == "ar"));
    hit.album_id = Some("al".to_string());
    assert!(matches!(play_search_track(&hit), Scope::Album(id) if id == "al"));
    assert!(matches!(play_shuffled_or_random(Vec::new(), &hit), Command::PlayRandom));
    assert!(matches!(
        play_shuffled_or_random(audio(&["a", "x", "x"]), &hit),
        Command::PlayShuffled { first: 1, .. }
    ));
    assert!(matches!(
        play_shuffled_or_random(audio(&["a"]), &hit),
        Command::PlayShuffled { first: 0, .. }
    ));
}

#[test]
fn loose_tracks_play_from_the_whole_catalogue() {
    let mut tracks = audio(&["a", "b", "c"]);
    tracks[0].album_id = Some("al".to_string());
    let loose = loose_tracks(&tracks);
    assert_eq!(loose.len(), 2);
    assert!(matches!(
        play_loose(&tracks, &loose, 1),
        Some(Command::PlayShuffled { first: 2, items }) if items.len() == 3
    ));
    assert!(play_loose(&tracks, &loose, 2).is_none());
    assert!(matches!(play_album_row(&tracks, 2), Command::PlayShuffled { first: 2, .. }));
    assert!(matches!(play_album(&tracks), Command::PlayItems { start: 0, .. }));
}

#[test]
fn guesses_follow_what_was_found() {
    let mut artists = vec![row("k", "MusicArtist"), row("b", "MusicArtist")];
    artists[0].name = "Kimera Candela".to_string();
    artists[1].name = "Bill".to_string();
    let rows = search_rows("kimela", audio(&["t"]), &artists);
    let ids: Vec<&str> = rows.iter().map(|r| r.id.as_str()).collect();
    assert_eq!(ids, vec!["t", "k"]);
    let rows = search_rows("kimera", vec![row("k", "MusicArtist")], &artists);
    assert_eq!(rows.len(), 1);
    assert!(search_rows("kim", Vec::new(), &artists).is_empty());
}

#[test]
fn only_the_newest_search_counts() {
    let mut search = Search::new();
    let SearchStep::AskLater(first) = search.typed("a") else { panic!() };
    assert!(search.is_current(first));
    let SearchStep::AskLater(second) = search.typed("ab") else { panic!() };
    assert!(!search.is_current(first));
    assert_eq!(search.typed(""), SearchStep::ShowArtists);
    assert!(!search.is_current(second));
}

#[test]
fn the_form_is_checked_and_filled() {
    let config = Config { server: Some("file".to_string()), ..Config::default() };
    let stored = Some(Credentials {
        server: "stored".to_string(),
        user_id: "u".to_string(),
        username: "me".to_string(),
        token: "t".to_string(),
    });
    let start = prefill(&config, &stored);
    assert_eq!(start.server.as_deref(), Some("file"));
    assert_eq!(start.username.as_deref(), Some("me"));
    assert!(prefill(&Config::default(), &None).server.is_none());
    assert_eq!(
        submit(" ", "me", "pw").unwrap_err(),
        "Enter the server URL, username and password."
    );
    assert!(submit("x", "me", "").is_err());
    let attempt = submit(" x/ ", " me ", " pw ").unwrap();
    assert_eq!(attempt.url, "https://x");
    assert_eq!(attempt.username, "me");
    assert_eq!(attempt.password, " pw ");
    let mut stage = Stage::Probe;
    let mut stages = vec![stage];
    while stage != Stage::Done {
        stage = next_stage(stage, Ok(())).unwrap();
        stages.push(stage);
    }
    assert_eq!(
        stages,
        vec![Stage::Probe, Stage::Login, Stage::Validate, Stage::Store, Stage::Done]
    );
    let mut info = ServerInfo { server_name: "Box".to_string(), version: "10.9".to_string() };
    assert_eq!(
        success_message(&info, stored.as_ref().unwrap()),
        "Signed in as me on Box (10.9).\n\nRestart trayplay to start playback."
    );
    info.version = String::new();
    assert_eq!(
        success_message(&info, stored.as_ref().unwrap()),
        "Signed in as me on Box.\n\nRestart trayplay to start playback."
    );
}

#[test]
fn a_stage_that_fails_ends_the_attempt() {
    for stage in [Stage::Probe, Stage::Login, Stage::Validate, Stage::Store] {
        let message = format!("{stage:?} refused");
        assert_eq!(next_stage(stage, Err(message.clone())), Err(message));
    }
}

#[test]
fn rows_of_every_section_are_one_list() {
    let shown = RowState { visible: true, sensitive: true };
    let hidden = RowState { visible: false, sensitive: true };
    let placeholder = RowState { visible: true, sensitive: false };
    let rows = visible_rows(&vec![
        SectionRows { visible: true, rows: vec![shown, hidden, shown] },
        SectionRows { visible: false, rows: vec![shown] },
        SectionRows { visible: true, rows: vec![placeholder, shown] },
    ]);
    assert_eq!(
        rows,
        vec![
            RowRef { section: 0, index: 0 },
            RowRef { section: 0, index: 2 },
            RowRef { section: 2, index: 1 },
        ]
    );
}

#[test]
fn keys_are_routed() {
    assert_eq!(route_key(WindowKey::Q, true, true), KeyRoute::Quit);
    assert_eq!(route_key(WindowKey::Q, true, false), KeyRoute::Quit);
    assert_eq!(route_key(WindowKey::Q, false, true), KeyRoute::Root);
    assert_eq!(route_key(WindowKey::Q, false, false), KeyRoute::Focus);
    assert_eq!(unclaimed_key(WindowKey::Escape), Some(WindowAction::Hide));
    assert_eq!(unclaimed_key(WindowKey::Other), None);
}
