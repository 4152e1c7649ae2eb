//! The queue as a list page.
//!
//! A row plays from that point, and its menu removes it. The page is live while it is open: it
//! asks for the queue again on every change, so the "Now playing" marker follows the music and
//! tracks that a random refill appended show up.

use vstd::prelude::*;

use crate::jellyfin::models;
use crate::jellyfin::models::{copy_items, Item, ItemView};
use crate::player::{Command, Event, Snapshot};
use crate::text;
use crate::text::{cat, opt_is, str_eq, write_decimal};
use crate::ui::browse;
use crate::ui::browse::length_text;

verus! {

/// Id of the track that is playing.
pub open spec fn playing_id(items: Seq<ItemView>, cursor: int) -> Option<Seq<char>> {
    if 0 <= cursor < items.len() {
        Some(items[cursor].id)
    } else {
        None
    }
}

/// Id of the track that is playing.
pub fn current_id(items: &Vec<Item>, cursor: usize) -> (r: Option<String>)
    ensures
        text::text_opt(r) == playing_id(models::item_views(items@), cursor as int),
{
    if cursor < items.len() {
        Some(items[cursor].id.clone())
    } else {
        None
    }
}

/// The ids of tracks, in order.
pub open spec fn ids(items: Seq<ItemView>) -> Seq<Seq<char>> {
    items.map_values(|item: ItemView| item.id)
}

/// The ids of tracks, in order.
pub fn ids_of(items: &Vec<Item>) -> (r: Vec<String>)
    ensures
        text::texts(r@) == ids(models::item_views(items@)),
{
    let ghost all = ids(models::item_views(items@));
    let mut r: Vec<String> = Vec::new();
    let mut i: usize = 0;
    assert(text::texts(r@) =~= all.take(0));
    while i < items.len()
        invariant
            i <= items@.len(),
            all == ids(models::item_views(items@)),
            text::texts(r@) == all.take(i as int),
        decreases items.len() - i,
    {
        let ghost before = text::texts(r@);
        r.push(items[i].id.clone());
        i += 1;
        proof {
            assert(text::texts(r@) =~= before.push(all[i - 1]));
            assert(all.take(i as int) =~= all.take(i - 1).push(all[i - 1]));
        }
    }
    assert(all.take(i as int) =~= all);
    r
}

/// How many tracks, in words.
pub open spec fn count_of(count: nat) -> Seq<char> {
    if count == 1 {
        "1 track"@
    } else {
        text::decimal(count) + " tracks"@
    }
}

/// How many tracks, in words.
pub fn kind_label(count: usize) -> (r: String)
    ensures
        r@ == count_of(count as nat),
{
    if count == 1 {
        "1 track".to_owned()
    } else {
        cat(write_decimal(count as u64).as_str(), " tracks")
    }
}

/// What a row of the queue says: who it is by, how long it runs, and whether it is the one
/// playing.
pub open spec fn subtitle_of(item: ItemView, current: Option<Seq<char>>) -> Seq<char> {
    let base = match browse::length_of(item) {
        Some(length) => item.display_artists() + " \u{b7} "@ + length,
        None => item.display_artists(),
    };
    if current == Some(item.id) {
        "Now playing \u{b7} "@ + base
    } else {
        base
    }
}

/// What a row of the queue says. A queue holding the same track twice marks both.
pub fn subtitle(item: &Item, current: &Option<String>) -> (r: String)
    ensures
        r@ == subtitle_of(item@, text::text_opt(*current)),
{
    let artist = item.display_artists();
    let base = match length_text(item) {
        Some(length) => cat(cat(artist.as_str(), " \u{b7} ").as_str(), length.as_str()),
        None => artist,
    };
    if opt_is(current, item.id.as_str()) {
        cat("Now playing \u{b7} ", base.as_str())
    } else {
        base
    }
}

/// Whether an event changes what the page shows. A position moves nothing on it.
pub fn concerns_page(event: &Event) -> (r: bool)
    ensures
        r == (*event is TrackChanged || *event is QueueChanged),
{
    match event {
        Event::TrackChanged(_) => true,
        Event::QueueChanged => true,
        _ => false,
    }
}

fn same_texts(a: &Vec<String>, b: &Vec<String>) -> (r: bool)
    ensures
        r == (text::texts(a@) == text::texts(b@)),
{
    let ghost x = text::texts(a@);
    let ghost y = text::texts(b@);
    if a.len() != b.len() {
        assert(x.len() != y.len());
        return false;
    }
    let mut i: usize = 0;
    while i < a.len()
        invariant
            i <= a@.len(),
            a@.len() == b@.len(),
            x == text::texts(a@),
            y == text::texts(b@),
            forall|j: int| 0 <= j < i ==> x[j] == y[j],
        decreases a.len() - i,
    {
        assert(x[i as int] == a@[i as int]@ && y[i as int] == b@[i as int]@);
        if !str_eq(a[i].as_str(), b[i].as_str()) {
            return false;
        }
        i += 1;
    }
    assert(x =~= y);
    true
}

/// How the page follows the queue.
#[derive(Debug, Clone, Copy, PartialEq, Eq, Structural)]
pub enum Refresh {
    /// Only the marker moved, so the rows stay and keep their focus.
    Relabel,
    /// The rows are other ones: each knows its place, and the old place would play the wrong
    /// track.
    Replace,
}

/// The page: the ids of the tracks it last showed.
#[derive(Debug)]
pub struct QueuePage {
    pub shown: Vec<String>,
}

impl QueuePage {
    /// A page over the queue as it stands.
    pub fn new(snapshot: &Snapshot) -> (r: Self)
        ensures
            text::texts(r.shown@) == ids(snapshot@.items),
    {
        QueuePage { shown: ids_of(&snapshot.items) }
    }

    /// The queue as it stands now.
    pub fn refresh(&mut self, snapshot: &Snapshot) -> (r: Refresh)
        ensures
            text::texts(final(self).shown@) == ids(snapshot@.items),
            r == (if text::texts(old(self).shown@) == ids(snapshot@.items) {
                Refresh::Relabel
            } else {
                Refresh::Replace
            }),
    {
        let new_ids = ids_of(&snapshot.items);
        if same_texts(&self.shown, &new_ids) {
            Refresh::Relabel
        } else {
            self.shown = new_ids;
            Refresh::Replace
        }
    }

    /// Removing the row at `index`. The id goes along so that the player can tell a stale
    /// removal from a real one.
    pub fn remove(&self, index: usize) -> (r: Option<Command>)
        ensures
            match r {
                Some(cmd) => index < self.shown@.len() && cmd is Remove && cmd->Remove_index
                    == index && cmd->Remove_id@ == self.shown@[index as int]@,
                None => index >= self.shown@.len(),
            },
    {
        if index < self.shown.len() {
            Some(Command::Remove { index, id: self.shown[index].clone() })
        } else {
            None
        }
    }
}

/// Activating the row at `index` plays the queue from there.
pub fn activate(items: &Vec<Item>, index: usize) -> (r: Command)
    ensures
        r is PlayItems,
        models::item_views(r->PlayItems_items@) == models::item_views(items@),
        r->PlayItems_start == index,
{
    Command::PlayItems { items: copy_items(items), start: index }
}

/// The track that plays is the one at the cursor, and none where the cursor is behind the last.
pub proof fn law_the_track_at_the_cursor_plays(items: Seq<ItemView>, cursor: int)
    requires
        cursor >= 0,
    ensures
        cursor < items.len() ==> playing_id(items, cursor) == Some(items[cursor].id),
        cursor >= items.len() ==> playing_id(items, cursor) is None,
        ids(items).len() == items.len(),
        forall|i: int| 0 <= i < items.len() ==> #[trigger] ids(items)[i] == items[i].id,
{
}

/// One track is one track, and any other number of them is written out before the word.
pub proof fn law_tracks_are_counted(count: nat)
    ensures
        count == 1 ==> count_of(count) == "1 track"@,
        count != 1 ==> text::decimal(count).is_prefix_of(count_of(count)) && count_of(count).skip(
            text::decimal(count).len() as int,
        ) == " tracks"@,
{
    if count != 1 {
        assert(count_of(count).skip(text::decimal(count).len() as int) =~= " tracks"@);
    }
}

/// The track that plays says so in front of what any other says, and a length is told behind who
/// the track is by.
pub proof fn law_the_playing_track_says_so(item: ItemView, current: Option<Seq<char>>)
    ensures
        current == Some(item.id) ==> subtitle_of(item, current) == "Now playing \u{b7} "@
            + subtitle_of(item, None),
        current != Some(item.id) ==> subtitle_of(item, current) == subtitle_of(item, None),
        item.display_artists().is_prefix_of(subtitle_of(item, None)),
        item.duration() is None ==> subtitle_of(item, None) == item.display_artists(),
        browse::length_of(item) is Some ==> subtitle_of(item, None) == item.display_artists()
            + " \u{b7} "@ + browse::length_of(item).unwrap(),
{
}

} // verus!
