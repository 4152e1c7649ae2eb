use trayplay::cli::{count_line, listing, login_message, login_target};
use trayplay::config::{
    cache_dir, config_dir, config_path, join, queue_state_path, settings_path, state_dir,
    user_theme_path, Anchor, Change, ColorScheme, Config, ProjectDirs, Repeat, Settings,
};
use trayplay::jellyfin::auth::Credentials;
use trayplay::jellyfin::models::Item;
use trayplay::theme::concerns_theme;
use trayplay::ui::settings::{cache_subtitle, dark_change, scheme_classes, style_scheme, StyleScheme};
use trayplay::ui::x11::window_type_name;

fn dirs(state: Option<&str>) -> Option<ProjectDirs> {
    Some(ProjectDirs {
        config_dir: "/c".to_string(),
        cache_dir: "/k".to_string(),
        state_dir: state.map(|s| s.to_string()),
        data_local_dir: "/d".to_string(),
    })
}

#[test]
fn defaults_are_what_the_readme_says() {
    let config = Config::default();
    assert_eq!(config.width, 380);
    assert_eq!(config.height, 520);
    assert!(!config.hide_on_focus_loss);
    assert_eq!(config.hide_delay_ms, 0);
    assert_eq!(config.random_batch, 100);
    assert_eq!(config.cache_max_mb, 500);
    assert!(config.prefetch_next);
    assert_eq!(config.library_cache_ttl_secs, 300);
    assert!(config.report_playback);
    assert_eq!(config.x11_window_type.as_deref(), Some("utility"));
    assert_eq!(config.anchor, Anchor::TopRight);
    assert_eq!(config.margin, 8);
    assert_eq!(config.server, None);
}

#[test]
fn loading_trims_the_server() {
    let config = Config { server: Some("https://x//".to_string()), ..Config::default() };
    assert_eq!(Config::load(Some(config)).server.as_deref(), Some("https://x"));
    assert_eq!(Config::load(None).random_batch, 100);
}

#[test]
fn repeat_cycles() {
    assert_eq!(Repeat::Off.next(), Repeat::All);
    assert_eq!(Repeat::All.next(), Repeat::One);
    assert_eq!(Repeat::One.next(), Repeat::Off);
}

#[test]
fn one_change_keeps_the_others() {
    let first = Settings::update(None, Change::Repeat(Repeat::One));
    assert_eq!(first.repeat, Repeat::One);
    let second = Settings::update(Some(first), Change::CacheMaxMb(900));
    assert_eq!(second.repeat, Repeat::One);
    assert_eq!(second.cache_max_mb, Some(900));
    let third = Settings::update(Some(second), dark_change(true));
    assert_eq!(third.color_scheme, Some(ColorScheme::Dark));
    let fourth = Settings::update(Some(third), Change::HideOnFocusLoss(true));
    let fifth = Settings::update(Some(fourth), Change::ReduceMotion(true));
    assert!(fifth.reduce_motion);
    assert_eq!(fifth.hide_on_focus_loss, Some(true));
    assert_eq!(fifth.cache_max_mb, Some(900));
    assert_eq!(Settings::load(None), Settings::default());
}

#[test]
fn stored_settings_win_over_the_file() {
    let config = Config { hide_on_focus_loss: true, ..Config::default() };
    let fresh = Settings::default();
    assert!(fresh.hides_on_focus_loss(&config));
    assert_eq!(fresh.cache_limit_bytes(500), 524_288_000);
    let chosen = Settings::update(
        Some(Settings::update(None, Change::HideOnFocusLoss(false))),
        Change::CacheMaxMb(1),
    );
    assert!(!chosen.hides_on_focus_loss(&config));
    assert_eq!(chosen.cache_limit_bytes(500), 1_048_576);
    assert_eq!(chosen.cache_limit_mb(500), 1);
}

#[test]
fn files_are_where_they_belong() {
    let with_state = dirs(Some("/s"));
    assert_eq!(config_dir(&with_state).unwrap(), "/c");
    assert_eq!(cache_dir(&with_state).unwrap(), "/k");
    assert_eq!(state_dir(&with_state).unwrap(), "/s");
    assert_eq!(config_path(&with_state).unwrap(), "/c/config.toml");
    assert_eq!(settings_path(&with_state).unwrap(), "/s/settings.toml");
    assert_eq!(queue_state_path(&dirs(None)).unwrap(), "/d/queue.json");
    assert_eq!(user_theme_path(&with_state).unwrap(), "/c/theme.css");
    assert_eq!(join("/", "x"), "/x");
    assert_eq!(join("", "x"), "x");
    assert!(config_dir(&None).is_err());
    assert!(queue_state_path(&None).is_err());
}

#[test]
fn the_command_line_wins_over_the_file() {
    let config = Config {
        server: Some("file".to_string()),
        username: Some("fu".to_string()),
        ..Config::default()
    };
    let target = login_target(None, Some("cu".to_string()), &config).unwrap();
    assert_eq!(target.server, "file");
    assert_eq!(target.username.as_deref(), Some("cu"));
    let target = login_target(Some("cli".to_string()), None, &config).unwrap();
    assert_eq!(target.server, "cli");
    assert_eq!(target.username.as_deref(), Some("fu"));
    let nothing = Config::default();
    assert_eq!(
        login_target(None, None, &nothing).unwrap_err(),
        "no server given; pass --server or set `server` in config.toml"
    );
    assert!(login_target(Some("s".to_string()), None, &nothing).unwrap().username.is_none());
}

#[test]
fn listings_line_up() {
    let mut item = Item {
        id: "id".to_string(),
        name: "Name".to_string(),
        item_type: None,
        album: None,
        album_id: None,
        album_artist: Some("Band".to_string()),
        artists: Vec::new(),
        artist_items: Vec::new(),
        run_time_ticks: Some(1_850_000_000),
        index_number: None,
        parent_index_number: None,
        container: None,
        image_tags: Vec::new(),
        album_primary_image_tag: None,
    };
    assert_eq!(listing(&item), "id    3:05  Band - Name [-]");
    item.album = Some("LP".to_string());
    item.run_time_ticks = None;
    assert_eq!(listing(&item), "id    0:00  Band - Name [LP]");
    assert_eq!(count_line(2), "2 tracks");
    let creds = Credentials {
        server: "S".to_string(),
        user_id: "u".to_string(),
        username: "me".to_string(),
        token: "t".to_string(),
    };
    assert_eq!(login_message(&creds), "Logged in as me on S. Token stored (mode 0600).");
}

#[test]
fn the_settings_page_speaks() {
    assert_eq!(style_scheme(None), StyleScheme::Follow);
    assert_eq!(style_scheme(Some(ColorScheme::Dark)), StyleScheme::ForceDark);
    assert_eq!(style_scheme(Some(ColorScheme::Light)), StyleScheme::ForceLight);
    assert_eq!(scheme_classes(true), ("dark", "light"));
    assert_eq!(scheme_classes(false), ("light", "dark"));
    assert_eq!(
        cache_subtitle(Some(3_500_000)),
        "3 MB in use; oldest downloads are pruned first"
    );
    assert_eq!(cache_subtitle(None), "Downloaded tracks, pruned oldest-first");
}

#[test]
fn window_types_and_theme_changes() {
    assert_eq!(window_type_name("utility"), "_NET_WM_WINDOW_TYPE_UTILITY");
    assert!(concerns_theme(&vec!["config.toml".to_string(), "theme.css".to_string()]));
    assert!(!concerns_theme(&vec!["theme.css~".to_string()]));
}
