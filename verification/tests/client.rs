use trayplay::jellyfin::auth::{device_id, password_prompt, Credentials, DeviceId, FileStore, StoreAccess};
use trayplay::jellyfin::client::{
    check_fetch, check_get, check_login, check_post, check_validate, failed, fetched, hostname,
    merge_search, normalize_base, probe, probe_accepts, probe_url, search, user_agent, Client,
    ClientError, Probed, Query, Unauthorized, Value,
};
use trayplay::config::ProjectDirs;
use trayplay::jellyfin::models::{AuthResponse, Item, UserDto};
use trayplay::time::Duration;

fn thing(id: &str, kind: &str) -> Item {
    Item {
        id: id.to_string(),
        name: id.to_string(),
        item_type: Some(kind.to_string()),
        album: None,
        album_id: None,
        album_artist: None,
        artists: Vec::new(),
        artist_items: Vec::new(),
        run_time_ticks: None,
        index_number: None,
        parent_index_number: None,
        container: None,
        image_tags: Vec::new(),
        album_primary_image_tag: None,
    }
}

fn creds() -> Credentials {
    Credentials {
        server: "https://music.example/".to_string(),
        user_id: "us er".to_string(),
        username: "me".to_string(),
        token: "tok".to_string(),
    }
}

fn client() -> Client {
    Client::authenticated(creds(), "dev/1".to_string())
}

fn params(query: &Query) -> Vec<String> {
    query.params.iter().map(|(k, v)| format!("{k}={v}")).collect()
}

#[test]
fn addresses_are_made_whole() {
    assert_eq!(normalize_base("  music.example:8096/ "), "https://music.example:8096");
    assert_eq!(normalize_base("http://music.example//"), "http://music.example");
    assert_eq!(probe_url("music.example"), "https://music.example/System/Info/Public");
    let whole = normalize_base(" music.example// ");
    assert_eq!(Client::new(&whole, "dev".to_string()).base(), whole);
}

#[test]
fn nobody_signed_in_asks_nothing() {
    let client = Client::new("https://music.example//", "dev".to_string());
    assert_eq!(client.base(), "https://music.example");
    for result in [
        client.random_tracks(5),
        client.search_artists("x", 1),
        client.search_items("x", 1),
        client.artists(),
        client.artist_albums("x"),
        client.artist_tracks("x"),
        client.album_tracks("x"),
        client.instant_mix("x", 1),
        client.recent_albums(1),
        client.most_played_tracks(1),
        client.recently_played_tracks(1),
        client.item("x"),
    ] {
        let err = result.unwrap_err();
        assert_eq!(err.message, "not authenticated, run `trayplay login` first");
        assert!(!err.unauthorized);
    }
    assert!(client.stream_url("x").is_err());
    assert!(client.validate_url().is_err());
    assert!(client.user_id().is_err());
    assert!(client.creds_clone().is_none());
}

#[test]
fn queries_carry_their_parameters() {
    let client = client();
    let query = client.random_tracks(20).unwrap();
    assert_eq!(query.path, "/Items");
    assert_eq!(
        params(&query),
        vec![
            "userId=us er",
            "includeItemTypes=Audio",
            "recursive=true",
            "sortBy=Random",
            "limit=20",
            "fields=Container,ArtistItems",
            "enableTotalRecordCount=false"
        ]
    );
    let query = client.most_played_tracks(3).unwrap();
    assert!(params(&query).contains(&"sortBy=PlayCount".to_string()));
    assert!(params(&query).contains(&"filters=IsPlayed".to_string()));
    let query = client.recently_played_tracks(3).unwrap();
    assert!(params(&query).contains(&"sortBy=DatePlayed".to_string()));
    assert_eq!(client.search_artists("bj", 2).unwrap().path, "/Artists");
    assert_eq!(client.artists().unwrap().params.len(), 2);
    assert_eq!(client.album_tracks("al").unwrap().params[1].1, "al");
    assert_eq!(client.artist_albums("ar").unwrap().params[1].1, "ar");
    assert_eq!(client.artist_tracks("ar").unwrap().params[2].1, "Audio");
    assert_eq!(client.recent_albums(9).unwrap().params[3].1, "DateCreated");
    assert_eq!(client.instant_mix("seed", 9).unwrap().path, "/Items/seed/InstantMix");
    assert_eq!(client.item("it").unwrap().path, "/Users/us er/Items/it");
    assert_eq!(client.search_items("bj", 2).unwrap().params[2].1, "MusicAlbum,Audio");
}

#[test]
fn stream_and_image_addresses_are_encoded() {
    let (url, token) = client().stream_url("id1").unwrap();
    assert_eq!(token, "tok");
    assert_eq!(
        url,
        "https://music.example/Audio/id1/universal?userId=us%20er&deviceId=dev%2F1\
         &container=flac,mp3,m4a,aac,wav&audioCodec=mp3&transcodingContainer=mp3\
         &transcodingProtocol=http&maxStreamingBitrate=320000&enableRedirection=true"
    );
    assert_eq!(
        client().image_url("id", "t&g=é", 512),
        "https://music.example/Items/id/Images/Primary?tag=t%26g%3D%C3%A9&maxHeight=512"
    );
}

#[test]
fn the_header_names_the_session() {
    assert_eq!(
        client().auth_header("box"),
        "MediaBrowser Client=\"trayplay\", Device=\"box\", DeviceId=\"dev/1\", Version=\"0.1.0\", Token=\"tok\""
    );
    let anonymous = Client::new("https://x", "d".to_string());
    assert_eq!(
        anonymous.auth_header("box"),
        "MediaBrowser Client=\"trayplay\", Device=\"box\", DeviceId=\"d\", Version=\"0.1.0\""
    );
    assert_eq!(user_agent(), "trayplay/0.1.0");
    assert_eq!(client().url("/x"), "https://music.example/x");
}

#[test]
fn a_login_signs_in() {
    let mut client = Client::new("https://x/", "d".to_string());
    let post = client.login_request("me", " pw ");
    assert_eq!(post.path, "/Users/AuthenticateByName");
    assert!(matches!(&post.fields[1], (name, Value::Text(pw)) if name == "Pw" && pw == " pw "));
    let creds = client.login(AuthResponse {
        user: UserDto { id: "u".to_string(), name: "Me".to_string() },
        access_token: "t".to_string(),
        server_id: "s".to_string(),
    });
    assert_eq!(creds.server, "https://x");
    assert_eq!(creds.username, "Me");
    assert_eq!(client.user_id().unwrap(), "u");
    assert_eq!(
        client.validate_url().unwrap(),
        "https://x/Users/u/Items?limit=1&fields=ProviderIds"
    );
    assert_eq!(client.creds_clone().unwrap().token, "t");
}

#[test]
fn reports_carry_ticks() {
    let post = client().report_playback_progress("it", Duration::from_millis(1500), true);
    assert_eq!(post.path, "/Sessions/Playing/Progress");
    assert!(matches!(&post.fields[0], (n, Value::Text(id)) if n == "ItemId" && id == "it"));
    assert!(matches!(&post.fields[1], (n, Value::Number(15_000_000)) if n == "PositionTicks"));
    assert!(matches!(&post.fields[2], (n, Value::Flag(true)) if n == "IsPaused"));
    let post = client().report_playback_start("it", Duration::zero());
    assert_eq!(post.path, "/Sessions/Playing");
    assert!(matches!(&post.fields[2], (_, Value::Flag(false))));
    let post = client().report_playback_stopped("it", Duration::from_secs(1));
    assert_eq!(post.path, "/Sessions/Playing/Stopped");
    assert_eq!(post.fields.len(), 2);
}

#[test]
fn answers_are_told_apart() {
    let err = check_get("u", 401, "s").unwrap_err();
    assert!(err.unauthorized);
    assert_eq!(
        err.message,
        "token rejected by server, run `trayplay login` again: credentials rejected by server (401)"
    );
    assert_eq!(check_get("u", 500, "boom").unwrap_err().message, "GET u: boom");
    assert!(check_get("u", 200, "").is_ok());
    assert!(check_get("u", 302, "").is_ok());
    assert_eq!(check_post("u", 401, "no").unwrap_err().message, "POST u: no");
    assert!(check_post("u", 204, "").is_ok());
    assert_eq!(check_login(401, "no").unwrap_err().message, "wrong username or password");
    assert_eq!(check_login(503, "no").unwrap_err().message, "login failed: no");
    assert!(check_login(200, "").is_ok());
    assert!(check_validate(401, "no").unwrap_err().unauthorized);
    assert_eq!(check_validate(500, "no").unwrap_err().message, "validate check failed: no");
    assert!(check_validate(200, "").is_ok());
    assert!(check_fetch(401).unwrap_err().unauthorized);
    assert!(check_fetch(404).is_ok());
    assert_eq!(fetched(200, "200 OK", vec![1]).unwrap(), vec![1]);
    assert_eq!(
        fetched(404, "404 Not Found", vec![1]).unwrap_err().message,
        "fetch failed with HTTP 404 Not Found"
    );
    assert_eq!(failed("parsing u", "eof").message, "parsing u: eof");
    assert_eq!(Unauthorized.message(), "credentials rejected by server (401)");
}

#[test]
fn probes_are_told_apart() {
    assert_eq!(probe("u", Probed::Info(7)), Ok(7));
    assert_eq!(
        probe::<u8>("u", Probed::Unreachable("dns".to_string())),
        Err("cannot reach u: dns".to_string())
    );
    assert_eq!(
        probe::<u8>("u", Probed::Status(404, "404 Not Found".to_string())),
        Err("that does not look like a Jellyfin server (HTTP 404 Not Found)".to_string())
    );
    assert_eq!(
        probe::<u8>("u", Probed::Unparsable),
        Err("that does not look like a Jellyfin server".to_string())
    );
    assert!(probe_accepts(200));
    assert!(!probe_accepts(302));
}

#[test]
fn hosts_have_a_name() {
    assert_eq!(hostname(Some("box\n".to_string())), "box");
    assert_eq!(hostname(Some(" \n".to_string())), "unknown");
    assert_eq!(hostname(None), "unknown");
}

fn found(items: Vec<Item>) -> Result<Vec<Item>, ClientError> {
    Ok(items)
}

fn broke(message: &str) -> Result<Vec<Item>, ClientError> {
    Err(ClientError { message: message.to_string(), unauthorized: false })
}

fn listed(items: &[Item]) -> Vec<&str> {
    items.iter().map(|item| item.id.as_str()).collect()
}

#[test]
fn a_search_lists_artists_albums_and_tracks_once() {
    let merged = merge_search(
        vec![thing("ar", "MusicArtist")],
        vec![
            thing("t1", "Audio"),
            thing("al", "MusicAlbum"),
            thing("ar", "MusicArtist"),
            thing("t1", "Audio"),
        ],
    );
    assert_eq!(listed(&merged), vec!["ar", "al", "t1"]);
}

#[test]
fn half_a_search_is_enough() {
    let artists = || vec![thing("ar", "MusicArtist")];
    let items = || vec![thing("t", "Audio"), thing("al", "MusicAlbum")];
    assert_eq!(listed(&search(found(artists()), found(items()), 2).unwrap()), vec!["ar", "al"]);
    assert_eq!(listed(&search(broke("a"), found(items()), 9).unwrap()), vec!["al", "t"]);
    assert_eq!(listed(&search(found(artists()), broke("b"), 9).unwrap()), vec!["ar"]);
    assert_eq!(search(broke("a"), broke("b"), 9).unwrap_err().message, "b");
}

#[test]
fn a_token_that_others_can_see_is_refused() {
    let dirs = Some(ProjectDirs {
        config_dir: "/c".to_string(),
        cache_dir: "/k".to_string(),
        state_dir: None,
        data_local_dir: "/d".to_string(),
    });
    let store = FileStore::new(&dirs).unwrap();
    assert_eq!(store.path(), "/c/credentials.toml");
    assert_eq!(store.access(None), StoreAccess::Absent);
    assert_eq!(store.access(Some(0o100600)), StoreAccess::Read);
    assert_eq!(
        store.access(Some(0o100644)),
        StoreAccess::Refuse(
            "/c/credentials.toml is mode 644, refusing to use it; run: chmod 600 /c/credentials.toml"
                .to_string()
        )
    );
    assert!(FileStore::new(&None).is_err());
}

#[test]
fn a_device_id_is_generated_once() {
    let DeviceId::Fresh(id) = device_id(Some(" \n".to_string())) else { panic!() };
    assert_eq!(id.len(), 36);
    for (i, c) in id.chars().enumerate() {
        if [8, 13, 18, 23].contains(&i) {
            assert_eq!(c, '-');
        } else {
            assert!(c.is_ascii_hexdigit() && !c.is_ascii_uppercase());
        }
    }
    assert_eq!(id.chars().nth(14), Some('4'));
    assert!("89ab".contains(id.chars().nth(19).unwrap()));
    let DeviceId::Known(again) = device_id(Some(format!("{id}\n"))) else { panic!() };
    assert_eq!(again, id);
    let DeviceId::Fresh(other) = device_id(None) else { panic!() };
    assert_ne!(other, id);
    assert_eq!(password_prompt("me"), "Password for me: ");
}
