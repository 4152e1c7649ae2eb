use trayplay::jellyfin::models::Item;
use trayplay::player::persist::{load, save, Saved};
use trayplay::player::queue::{Mode, Queue};

fn queued(id: &str) -> Item {
    Item {
        id: id.to_string(),
        name: format!("Track {id}"),
        item_type: None,
        album: None,
        album_id: None,
        album_artist: None,
        artists: Vec::new(),
        artist_items: Vec::new(),
        run_time_ticks: None,
        index_number: None,
        parent_index_number: None,
        container: None,
        image_tags: Vec::new(),
        album_primary_image_tag: None,
    }
}

fn queue_of(ids: &[&str], start: usize) -> Queue {
    let mut queue = Queue::new();
    queue.replace(ids.iter().map(|id| queued(id)).collect(), start, Mode::Explicit);
    queue
}

fn ids(queue: &Queue) -> Vec<String> {
    queue.items().iter().map(|item| item.id.clone()).collect()
}

fn now(queue: &Queue) -> Option<String> {
    queue.current().map(|item| item.id.clone())
}

#[test]
fn replacing_clamps_the_start() {
    let queue = queue_of(&["a", "b", "c"], 9);
    assert_eq!(queue.cursor(), 2);
    let empty = queue_of(&[], 9);
    assert_eq!(empty.cursor(), 0);
    assert!(empty.is_empty());
    assert_eq!(now(&empty), None);
}

#[test]
fn peeking_agrees_with_advancing() {
    let mut queue = queue_of(&["a", "b"], 0);
    assert_eq!(queue.peek_next(false).map(|i| i.id.clone()), Some("b".to_string()));
    assert_eq!(queue.advance(false).map(|i| i.id.clone()), Some("b".to_string()));
    assert!(queue.peek_next(false).is_none());
    assert!(queue.advance(false).is_none());
    assert_eq!(queue.cursor(), 1);
    assert_eq!(queue.peek_next(true).map(|i| i.id.clone()), Some("a".to_string()));
    assert_eq!(queue.advance(true).map(|i| i.id.clone()), Some("a".to_string()));
    assert_eq!(queue.cursor(), 0);
}

#[test]
fn stepping_back_stays_at_the_start() {
    let mut queue = queue_of(&["a", "b"], 1);
    assert_eq!(queue.back().map(|i| i.id.clone()), Some("a".to_string()));
    assert_eq!(queue.back().map(|i| i.id.clone()), Some("a".to_string()));
}

#[test]
fn removing_keeps_the_playing_track() {
    let mut queue = queue_of(&["a", "b", "c"], 1);
    assert!(!queue.remove(1));
    assert!(!queue.remove(3));
    assert!(queue.remove(0));
    assert_eq!(now(&queue), Some("b".to_string()));
    assert_eq!(queue.cursor(), 0);
    assert!(queue.remove(1));
    assert_eq!(ids(&queue), vec!["b"]);
}

#[test]
fn removing_the_current_track_lands_on_its_successor() {
    let mut queue = queue_of(&["a", "b", "c"], 1);
    assert!(queue.remove_current());
    assert_eq!(now(&queue), Some("c".to_string()));
    assert!(!queue.remove_current());
    assert_eq!(now(&queue), Some("a".to_string()));
    assert!(!queue.remove_current());
    assert_eq!(now(&queue), None);
    assert!(!queue.remove_current());
}

#[test]
fn inserting_goes_directly_behind() {
    let mut queue = queue_of(&["a", "b"], 0);
    queue.insert_after(0, vec![queued("x"), queued("y")]);
    assert_eq!(ids(&queue), vec!["a", "x", "y", "b"]);
    queue.insert_after(99, vec![queued("z")]);
    assert_eq!(ids(&queue), vec!["a", "x", "y", "b", "z"]);
    queue.append(vec![queued("end")]);
    assert_eq!(queue.len(), 6);
    assert_eq!(now(&queue), Some("a".to_string()));
}

#[test]
fn running_low_counts_the_current_track() {
    let queue = queue_of(&["a", "b", "c"], 1);
    assert!(queue.running_low(2));
    assert!(!queue.running_low(1));
}

#[test]
fn a_short_queue_is_saved_whole() {
    let queue = queue_of(&["a", "b", "c"], 2);
    let saved = save(&queue);
    assert_eq!(saved.items.len(), 3);
    assert_eq!(saved.cursor, 2);
    let (items, cursor, mode) = load(Some(saved)).unwrap();
    assert_eq!(items[cursor].id, "c");
    assert_eq!(mode, Mode::Explicit);
}

#[test]
fn a_long_queue_keeps_its_future() {
    let items: Vec<Item> = (0..3000).map(|n| queued(&n.to_string())).collect();
    let mut queue = Queue::new();
    queue.replace(items, 100, Mode::Random);
    let saved = save(&queue);
    assert_eq!(saved.items.len(), 2000);
    assert_eq!(saved.cursor, 50);
    assert_eq!(saved.items[0].id, "50");
    assert_eq!(saved.items[saved.cursor].id, "100");

    let items: Vec<Item> = (0..3000).map(|n| queued(&n.to_string())).collect();
    queue.replace(items, 2990, Mode::Random);
    let saved = save(&queue);
    assert_eq!(saved.items.len(), 2000);
    assert_eq!(saved.items[0].id, "1000");
    assert_eq!(saved.items[saved.cursor].id, "2990");
    assert_eq!(saved.items[1999].id, "2999");
}

#[test]
fn an_unusable_state_file_restores_nothing() {
    assert!(load(None).is_none());
    assert!(load(Some(Saved { items: Vec::new(), cursor: 4, mode: Mode::Random })).is_none());
    let (_, cursor, _) =
        load(Some(Saved { items: vec![queued("a")], cursor: 4, mode: Mode::Random })).unwrap();
    assert_eq!(cursor, 0);
}
