use trayplay::jellyfin::models::{ticks, ImageTag, Item, Kind, NameId};
use trayplay::order::order_of;
use trayplay::text::{join, pad, trim, words_of, write_decimal, write_numeral, write_signed};
use trayplay::time::Duration;

fn bare(kind: Option<&str>) -> Item {
    Item {
        id: "id".to_string(),
        name: "Name".to_string(),
        item_type: kind.map(|k| k.to_string()),
        album: None,
        album_id: None,
        album_artist: None,
        artists: Vec::new(),
        artist_items: Vec::new(),
        run_time_ticks: None,
        index_number: None,
        parent_index_number: None,
        container: None,
        image_tags: Vec::new(),
        album_primary_image_tag: None,
    }
}

#[test]
fn kinds_are_by_name() {
    assert_eq!(bare(Some("Audio")).kind(), Kind::Track);
    assert_eq!(bare(Some("MusicAlbum")).kind(), Kind::Album);
    assert_eq!(bare(Some("MusicArtist")).kind(), Kind::Artist);
    assert_eq!(bare(Some("Folder")).kind(), Kind::Other);
    assert_eq!(bare(None).kind(), Kind::Other);
}

#[test]
fn ticks_are_tenths_of_microseconds() {
    assert_eq!(ticks(Duration::from_secs(1)), 10_000_000);
    let mut item = bare(None);
    assert_eq!(item.duration(), None);
    item.run_time_ticks = Some(15);
    assert_eq!(item.duration(), Some(Duration { nanos: 1500 }));
    assert_eq!(ticks(item.duration().unwrap()), 15);
}

#[test]
fn artists_are_named() {
    let mut item = bare(None);
    assert_eq!(item.display_artist(), "Unknown Artist");
    item.artists = vec!["A".to_string(), "B".to_string()];
    assert_eq!(item.display_artist(), "A");
    item.album_artist = Some("Band".to_string());
    item.artist_items = vec![
        NameId { id: "1".to_string(), name: "A".to_string() },
        NameId { id: "2".to_string(), name: "B".to_string() },
    ];
    assert_eq!(item.display_artists(), "A, B");
}

#[test]
fn covers_come_from_the_item_or_its_album() {
    let mut item = bare(None);
    assert_eq!(item.cover_source(), None);
    item.album_id = Some("al".to_string());
    item.album_primary_image_tag = Some("at".to_string());
    assert_eq!(item.cover_source(), Some(("al", "at")));
    item.image_tags = vec![
        ImageTag { kind: "Backdrop".to_string(), tag: "b".to_string() },
        ImageTag { kind: "Primary".to_string(), tag: "p".to_string() },
    ];
    assert_eq!(item.cover_source(), Some(("id", "p")));
}

#[test]
fn numbers_and_text_are_written_out() {
    assert_eq!(write_decimal(0), "0");
    assert_eq!(write_decimal(18_446_744_073_709_551_615), "18446744073709551615");
    assert_eq!(write_numeral(0o644, 8), "644");
    assert_eq!(write_signed(-2_147_483_648), "-2147483648");
    assert_eq!(pad("7", 3, ' '), "  7");
    assert_eq!(pad("1234", 3, '0'), "1234");
    assert_eq!(join(&vec!["a".to_string(), "b".to_string()], ", "), "a, b");
    assert_eq!(trim("\u{3000} x \n"), "x");
    let chars: Vec<char> = " a  bc ".chars().collect();
    assert_eq!(words_of(&chars), vec![vec!['a'], vec!['b', 'c']]);
    assert_eq!(order_of(&vec![3, 1, 2]), vec![1, 2, 0]);
}
