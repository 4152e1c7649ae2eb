//! The library page: what can be entered from it, and what its filter finds.

use vstd::prelude::*;

use crate::fuzzy;
use crate::fuzzy::prefix_distance;
use crate::jellyfin::client;
use crate::jellyfin::client::{Client, ClientError};
use crate::jellyfin::models;
use crate::jellyfin::models::{Item, ItemView};
use crate::text;
use crate::text::str_eq;

verus! {

/// A list that the server ranked, above the artists.
#[derive(Debug, Clone, Copy, PartialEq, Eq, Structural)]
pub enum Destination {
    RecentlyAdded,
    MostPlayed,
    RecentlyPlayed,
}

/// What the row of a destination says.
pub fn destination_title(destination: Destination) -> (r: &'static str)
    ensures
        r@ == (match destination {
            Destination::RecentlyAdded => "Recently added"@,
            Destination::MostPlayed => "Most played"@,
            Destination::RecentlyPlayed => "Recently played"@,
        }),
{
    match destination {
        Destination::RecentlyAdded => "Recently added",
        Destination::MostPlayed => "Most played",
        Destination::RecentlyPlayed => "Recently played",
    }
}

/// Whether the rows of a destination are albums: play counts only exist per track.
pub fn lists_albums(destination: Destination) -> (r: bool)
    ensures
        r == (destination == Destination::RecentlyAdded),
{
    match destination {
        Destination::RecentlyAdded => true,
        _ => false,
    }
}

/// What the server is asked when a destination is entered.
pub fn destination_query(
    destination: Destination,
    client: &Client,
    limit: u32,
) -> (r: Result<client::Query, ClientError>)
    ensures
        match destination {
            Destination::RecentlyAdded => client::asks(
                client@,
                r,
                "/Items"@,
                seq![
                    ("userId"@, client@.user()),
                    ("includeItemTypes"@, "MusicAlbum"@),
                    ("recursive"@, "true"@),
                    ("sortBy"@, "DateCreated"@),
                    ("sortOrder"@, "Descending"@),
                    ("limit"@, text::decimal(limit as nat)),
                    ("enableTotalRecordCount"@, "false"@),
                ],
            ),
            Destination::MostPlayed => client::asks(
                client@,
                r,
                "/Items"@,
                played_params(client@.user(), "PlayCount"@, limit),
            ),
            Destination::RecentlyPlayed => client::asks(
                client@,
                r,
                "/Items"@,
                played_params(client@.user(), "DatePlayed"@, limit),
            ),
        },
{
    match destination {
        Destination::RecentlyAdded => client.recent_albums(limit),
        Destination::MostPlayed => client.most_played_tracks(limit),
        Destination::RecentlyPlayed => client.recently_played_tracks(limit),
    }
}

/// The parameters of a query for tracks that have been played.
pub open spec fn played_params(user: Seq<char>, sort_by: Seq<char>, limit: u32) -> Seq<
    (Seq<char>, Seq<char>),
> {
    seq![
        ("userId"@, user),
        ("includeItemTypes"@, "Audio"@),
        ("recursive"@, "true"@),
        ("sortBy"@, sort_by),
        ("sortOrder"@, "Descending"@),
        ("filters"@, "IsPlayed"@),
        ("limit"@, text::decimal(limit as nat)),
        ("fields"@, "Container,ArtistItems"@),
        ("enableTotalRecordCount"@, "false"@),
    ]
}

// ---------------------------------------------------------------------------------------
// The filter.
// ---------------------------------------------------------------------------------------

/// What is typed into the filter, and which search is the newest.
#[derive(Debug, Clone, Copy, PartialEq, Eq, Structural)]
pub struct Search {
    pub generation: u64,
}

/// What becomes of a keystroke.
#[derive(Debug, Clone, Copy, PartialEq, Eq, Structural)]
pub enum SearchStep {
    /// Nothing is looked for: every artist is listed again, at once.
    ShowArtists,
    /// Ask the server once typing has paused, under this number.
    AskLater(u64),
}

impl Search {
    pub fn new() -> (r: Self)
        ensures
            r.generation == 0,
    {
        Search { generation: 0 }
    }

    /// What is typed has changed to `term`.
    pub fn typed(&mut self, term: &str) -> (r: SearchStep)
        ensures
            final(self).generation == old(self).generation.wrapping_add(1),
            r == (if term@.len() == 0 {
                SearchStep::ShowArtists
            } else {
                SearchStep::AskLater(final(self).generation)
            }),
    {
        self.generation = self.generation.wrapping_add(1);
        let empty = term.is_empty();
        if empty {
            SearchStep::ShowArtists
        } else {
            SearchStep::AskLater(self.generation)
        }
    }

    /// Whether the search of this number is still wanted: a slow one must not replace what a
    /// newer one, or an empty filter, has put on screen.
    pub fn is_current(&self, generation: u64) -> (r: bool)
        ensures
            r == (self.generation == generation),
    {
        self.generation == generation
    }
}

/// Whether an artist is within a typing mistake of what was typed.
pub open spec fn guessed(term: Seq<char>, artist: ItemView) -> bool {
    fuzzy::name_match(text::lowercase(text::trimmed(term)), text::lowercase(artist.name)) is Some
}

/// The artists within a typing mistake of what was typed, but for those that were found anyway.
pub open spec fn guesses(
    term: Seq<char>,
    found: Seq<ItemView>,
    artists: Seq<ItemView>,
) -> Seq<ItemView> {
    artists.filter(
        |artist: ItemView| guessed(term, artist) && !client::has_id(found, artist.id),
    )
}

/// What a search shows: what was found first, and then the guesses. Artist names tolerate one
/// edit, and they are all here, so this costs nothing and works with the server unreachable.
pub fn search_rows(term: &str, found: Vec<Item>, artists: &Vec<Item>) -> (r: Vec<Item>)
    ensures
        models::item_views(r@) == models::item_views(found@) + guesses(
            term@,
            models::item_views(found@),
            models::item_views(artists@),
        ),
{
    let ghost hits = models::item_views(found@);
    let ghost all = models::item_views(artists@);
    let count = found.len();
    let mut r = found;
    let mut i: usize = 0;
    proof {
        reveal(Seq::filter);
        assert(models::item_views(r@) =~= hits + guesses(term@, hits, all.take(0)));
    }
    while i < artists.len()
        invariant
            i <= artists@.len(),
            all == models::item_views(artists@),
            count == hits.len(),
            count <= r@.len(),
            models::item_views(r@) == hits + guesses(term@, hits, all.take(i as int)),
        decreases artists.len() - i,
    {
        let ghost before = models::item_views(r@);
        let known = holds_id(&r, count, artists[i].id.as_str());
        proof {
            assert(before.take(count as int) =~= hits);
            reveal(Seq::filter);
            assert(all.take(i + 1).drop_last() =~= all.take(i as int));
            assert(all.take(i + 1).last() == all[i as int]);
        }
        if prefix_distance(term, artists[i].name.as_str()).is_some() && !known {
            r.push(artists[i].clone());
            assert(models::item_views(r@) =~= before.push(all[i as int]));
            assert(hits + guesses(term@, hits, all.take(i as int)).push(all[i as int])
                =~= before.push(all[i as int]));
        }
        i += 1;
    }
    assert(all.take(i as int) =~= all);
    r
}

fn holds_id(items: &Vec<Item>, count: usize, id: &str) -> (r: bool)
    requires
        count <= items@.len(),
    ensures
        r == client::has_id(models::item_views(items@).take(count as int), id@),
{
    let ghost all = models::item_views(items@).take(count as int);
    let mut i: usize = 0;
    while i < count
        invariant
            i <= count <= items@.len(),
            all == models::item_views(items@).take(count as int),
            forall|j: int| 0 <= j < i ==> (#[trigger] all[j]).id != id@,
        decreases count - i,
    {
        assert(all[i as int] == items@[i as int]@);
        if str_eq(items[i].id.as_str(), id) {
            return true;
        }
        i += 1;
    }
    false
}

/// Correct spelling is never pushed down the page by a suggestion: what was found comes first,
/// in its own order, and every guess is an artist that was not found.
pub proof fn law_guesses_follow_what_was_found(
    term: Seq<char>,
    found: Seq<ItemView>,
    artists: Seq<ItemView>,
)
    ensures
        ({
            let rows = found + guesses(term, found, artists);
            &&& found.is_prefix_of(rows)
            &&& forall|i: int|
                found.len() <= i < rows.len() ==> {
                    let row = #[trigger] rows[i];
                    artists.contains(row) && guessed(term, row) && !client::has_id(found, row.id)
                }
        }),
{
    let pred = |artist: ItemView| guessed(term, artist) && !client::has_id(found, artist.id);
    let more = guesses(term, found, artists);
    let rows = found + more;
    assert forall|i: int| found.len() <= i < rows.len() implies {
        let row = #[trigger] rows[i];
        artists.contains(row) && guessed(term, row) && !client::has_id(found, row.id)
    } by {
        let j = i - found.len();
        assert(rows[i] == more[j]);
        artists.lemma_filter_pred(pred, j);
        artists.lemma_filter_contains_rev(pred, more[j]);
    }
}

/// A term of fewer than four characters is never guessed from.
pub proof fn law_short_terms_make_no_guesses(
    term: Seq<char>,
    found: Seq<ItemView>,
    artists: Seq<ItemView>,
)
    requires
        text::lowercase(text::trimmed(term)).len() < fuzzy::MIN_TERM_CHARS,
    ensures
        guesses(term, found, artists).len() == 0,
{
    let pred = |artist: ItemView| guessed(term, artist) && !client::has_id(found, artist.id);
    if guesses(term, found, artists).len() > 0 {
        artists.lemma_filter_pred(pred, 0);
    }
}

/// Every artist that may be meant is guessed, and no other: those whose name is close to what was
/// typed and that were not found already.
pub proof fn law_every_close_name_is_guessed(
    term: Seq<char>,
    found: Seq<ItemView>,
    artists: Seq<ItemView>,
    artist: ItemView,
)
    ensures
        guesses(term, found, artists).contains(artist) <==> {
            &&& artists.contains(artist)
            &&& forall|i: int| 0 <= i < found.len() ==> (#[trigger] found[i]).id != artist.id
            &&& fuzzy::name_match(
                text::lowercase(text::trimmed(term)),
                text::lowercase(artist.name),
            ) is Some
        },
{
    let pred = |a: ItemView| guessed(term, a) && !client::has_id(found, a.id);
    if guesses(term, found, artists).contains(artist) {
        let i = choose|i: int|
            0 <= i < guesses(term, found, artists).len() && guesses(term, found, artists)[i]
                == artist;
        artists.lemma_filter_pred(pred, i);
        artists.lemma_filter_contains_rev(pred, artist);
    }
    if artists.contains(artist) && pred(artist) {
        let i = choose|i: int| 0 <= i < artists.len() && artists[i] == artist;
        artists.lemma_filter_contains(pred, i);
    }
}

/// What was played is asked for by the user's own plays, the latest or most often played first, and
/// no more of it than is wanted.
pub proof fn law_played_tracks_come_latest_first(user: Seq<char>, sort_by: Seq<char>, limit: u32)
    ensures
        ({
            let params = played_params(user, sort_by, limit);
            &&& params.contains(("userId"@, user))
            &&& params.contains(("includeItemTypes"@, "Audio"@))
            &&& params.contains(("recursive"@, "true"@))
            &&& params.contains(("sortBy"@, sort_by))
            &&& params.contains(("sortOrder"@, "Descending"@))
            &&& params.contains(("filters"@, "IsPlayed"@))
            &&& params.contains(("limit"@, text::decimal(limit as nat)))
            &&& params.contains(("fields"@, "Container,ArtistItems"@))
            &&& params.contains(("enableTotalRecordCount"@, "false"@))
            &&& params.len() == 9
        }),
{
    let params = played_params(user, sort_by, limit);
    assert(params[0] == ("userId"@, user));
    assert(params[1] == ("includeItemTypes"@, "Audio"@));
    assert(params[2] == ("recursive"@, "true"@));
    assert(params[3] == ("sortBy"@, sort_by));
    assert(params[4] == ("sortOrder"@, "Descending"@));
    assert(params[5] == ("filters"@, "IsPlayed"@));
    assert(params[6] == ("limit"@, text::decimal(limit as nat)));
    assert(params[7] == ("fields"@, "Container,ArtistItems"@));
    assert(params[8] == ("enableTotalRecordCount"@, "false"@));
}

} // verus!
