//! The strip of artists under the title, one entry per credited artist.

use vstd::prelude::*;

use crate::jellyfin::models::{Item, ItemView, NameIdView};
use crate::text;

verus! {

/// One entry of the strip.
#[derive(Debug)]
pub struct ArtistEntry {
    pub label: String,
    /// Where it leads. None for a name without an id, which shows but does not navigate.
    pub id: Option<String>,
}

/// What an [`ArtistEntry`] says.
pub struct ArtistEntryView {
    pub label: Seq<char>,
    pub id: Option<Seq<char>>,
}

impl View for ArtistEntry {
    type V = ArtistEntryView;

    open spec fn view(&self) -> ArtistEntryView {
        ArtistEntryView { label: self.label@, id: text::text_opt(self.id) }
    }
}

/// What each entry of a strip says.
pub open spec fn entries(v: Seq<ArtistEntry>) -> Seq<ArtistEntryView> {
    v.map_values(|e: ArtistEntry| e@)
}

/// The strip of a track: everyone credited, or a name that leads nowhere.
pub open spec fn strip_of(item: ItemView) -> Seq<ArtistEntryView> {
    if item.artist_items.len() == 0 {
        seq![ArtistEntryView { label: item.display_artist(), id: None }]
    } else {
        item.artist_items.map_values(
            |a: NameIdView| ArtistEntryView { label: a.name, id: Some(a.id) },
        )
    }
}

/// The strip of a track.
pub fn artist_strip(item: &Item) -> (r: Vec<ArtistEntry>)
    ensures
        entries(r@) == strip_of(item@),
{
    let mut r: Vec<ArtistEntry> = Vec::new();
    if item.artist_items.len() == 0 {
        r.push(ArtistEntry { label: item.display_artist().to_owned(), id: None });
        assert(entries(r@) =~= strip_of(item@));
        return r;
    }
    let ghost want = strip_of(item@);
    let mut i: usize = 0;
    assert(entries(r@) =~= want.take(0));
    while i < item.artist_items.len()
        invariant
            i <= item.artist_items@.len(),
            item.artist_items@.len() > 0,
            want == strip_of(item@),
            entries(r@) == want.take(i as int),
        decreases item.artist_items.len() - i,
    {
        let ghost before = entries(r@);
        let artist = &item.artist_items[i];
        r.push(ArtistEntry { label: artist.name.clone(), id: Some(artist.id.clone()) });
        i += 1;
        proof {
            assert(item@.artist_items[i - 1] == item.artist_items@[i - 1]@);
            assert(entries(r@) =~= before.push(want[i - 1]));
            assert(want.take(i as int) =~= want.take(i - 1).push(want[i - 1]));
        }
    }
    assert(want.take(i as int) =~= want);
    r
}

/// Whether the first entry can have the focus: it leads somewhere.
pub fn can_focus_first(strip: &Vec<ArtistEntry>) -> (r: bool)
    ensures
        r == (strip@.len() > 0 && strip@[0].id is Some),
{
    strip.len() > 0 && strip[0].id.is_some()
}

/// Everyone credited is shown once, in the order of the credits, under the name and with the page
/// they have; where nobody is, the one artist that is told is shown without a page.
pub proof fn law_everyone_credited_is_shown(item: ItemView, i: int)
    ensures
        item.artist_items.len() > 0 ==> strip_of(item).len() == item.artist_items.len(),
        0 <= i < item.artist_items.len() ==> strip_of(item)[i].label == item.artist_items[i].name,
        0 <= i < item.artist_items.len() ==> strip_of(item)[i].id == Some(item.artist_items[i].id),
        item.artist_items.len() == 0 ==> strip_of(item).len() == 1 && strip_of(item)[0].id is None
            && strip_of(item)[0].label == item.display_artist(),
{
}

} // verus!
