//! The part of Jellyfin's data model that the player reads.

use vstd::prelude::*;

use crate::text;
use crate::text::{copy_text, copy_texts, opt_is, str_eq};
use crate::time::Duration;

verus! {

/// Nanoseconds in one of Jellyfin's ticks.
pub const NANOS_PER_TICK: u128 = 100;

/// The ticks of a position, as far as a report can carry them.
pub open spec fn ticks_of(nanos: nat) -> nat {
    if nanos / NANOS_PER_TICK as nat <= i64::MAX {
        nanos / NANOS_PER_TICK as nat
    } else {
        i64::MAX as nat
    }
}

/// A position expressed the way Jellyfin wants it in playback reports: in units of a hundred
/// nanoseconds.
pub fn ticks(position: Duration) -> (r: i64)
    ensures
        r == ticks_of(position.nanos as nat),
{
    let whole: u128 = position.nanos / NANOS_PER_TICK;
    if whole <= i64::MAX as u128 {
        whole as i64
    } else {
        i64::MAX
    }
}

/// The reply to a login.
#[derive(Debug)]
pub struct AuthResponse {
    pub user: UserDto,
    pub access_token: String,
    /// Names the server a token belongs to.
    pub server_id: String,
}

/// The account a login was for.
#[derive(Debug)]
pub struct UserDto {
    pub id: String,
    pub name: String,
}

/// What a server says of itself to anyone.
#[derive(Debug)]
pub struct ServerInfo {
    pub server_name: String,
    pub version: String,
}

/// The reply to a query for items.
#[derive(Debug)]
pub struct ItemsResponse {
    pub items: Vec<Item>,
    /// Only meaningful when a query asks for it.
    pub total_record_count: i64,
}

/// What an item actually is.
#[derive(Debug, Clone, Copy, PartialEq, Eq, Structural)]
pub enum Kind {
    Track,
    Album,
    Artist,
    Other,
}

/// A credited artist, with the id that leads to their page.
#[derive(Debug)]
pub struct NameId {
    pub id: String,
    pub name: String,
}

/// The tag of one image of an item, by the kind of image ("Primary", "Backdrop", ...).
#[derive(Debug)]
pub struct ImageTag {
    pub kind: String,
    pub tag: String,
}

/// A track, an album or an artist. Everything past the id is optional: the server omits what
/// does not apply.
#[derive(Debug)]
pub struct Item {
    pub id: String,
    pub name: String,
    /// Jellyfin's name for what the item is.
    pub item_type: Option<String>,
    pub album: Option<String>,
    pub album_id: Option<String>,
    pub album_artist: Option<String>,
    pub artists: Vec<String>,
    pub artist_items: Vec<NameId>,
    pub run_time_ticks: Option<i64>,
    /// Track number within a disc.
    pub index_number: Option<i32>,
    /// Disc number.
    pub parent_index_number: Option<i32>,
    pub container: Option<String>,
    pub image_tags: Vec<ImageTag>,
    /// Set on tracks whose own album carries the cover art.
    pub album_primary_image_tag: Option<String>,
}

/// What a [`NameId`] says.
pub struct NameIdView {
    pub id: Seq<char>,
    pub name: Seq<char>,
}

/// What an [`ImageTag`] says.
pub struct ImageTagView {
    pub kind: Seq<char>,
    pub tag: Seq<char>,
}

/// What an [`Item`] says.
#[verifier::ext_equal]
pub struct ItemView {
    pub id: Seq<char>,
    pub name: Seq<char>,
    pub item_type: Option<Seq<char>>,
    pub album: Option<Seq<char>>,
    pub album_id: Option<Seq<char>>,
    pub album_artist: Option<Seq<char>>,
    pub artists: Seq<Seq<char>>,
    pub artist_items: Seq<NameIdView>,
    pub run_time_ticks: Option<i64>,
    pub index_number: Option<i32>,
    pub parent_index_number: Option<i32>,
    pub container: Option<Seq<char>>,
    pub image_tags: Seq<ImageTagView>,
    pub album_primary_image_tag: Option<Seq<char>>,
}

impl View for NameId {
    type V = NameIdView;

    open spec fn view(&self) -> NameIdView {
        NameIdView { id: self.id@, name: self.name@ }
    }
}

impl View for ImageTag {
    type V = ImageTagView;

    open spec fn view(&self) -> ImageTagView {
        ImageTagView { kind: self.kind@, tag: self.tag@ }
    }
}

/// What a list of credited artists says.
pub open spec fn name_ids(v: Seq<NameId>) -> Seq<NameIdView> {
    v.map_values(|a: NameId| a@)
}

/// What a list of image tags says.
pub open spec fn image_tags_of(v: Seq<ImageTag>) -> Seq<ImageTagView> {
    v.map_values(|t: ImageTag| t@)
}

/// What a list of items says.
pub open spec fn item_views(v: Seq<Item>) -> Seq<ItemView> {
    v.map_values(|i: Item| i@)
}

/// What an optional item says.
pub open spec fn item_opt(v: Option<Item>) -> Option<ItemView> {
    match v {
        Some(i) => Some(i@),
        None => None,
    }
}

impl View for Item {
    type V = ItemView;

    open spec fn view(&self) -> ItemView {
        ItemView {
            id: self.id@,
            name: self.name@,
            item_type: text::text_opt(self.item_type),
            album: text::text_opt(self.album),
            album_id: text::text_opt(self.album_id),
            album_artist: text::text_opt(self.album_artist),
            artists: text::texts(self.artists@),
            artist_items: name_ids(self.artist_items@),
            run_time_ticks: self.run_time_ticks,
            index_number: self.index_number,
            parent_index_number: self.parent_index_number,
            container: text::text_opt(self.container),
            image_tags: image_tags_of(self.image_tags@),
            album_primary_image_tag: text::text_opt(self.album_primary_image_tag),
        }
    }
}

impl Clone for NameId {
    fn clone(&self) -> (r: Self)
        ensures
            r@ == self@,
    {
        NameId { id: self.id.clone(), name: self.name.clone() }
    }
}

impl Clone for ImageTag {
    fn clone(&self) -> (r: Self)
        ensures
            r@ == self@,
    {
        ImageTag { kind: self.kind.clone(), tag: self.tag.clone() }
    }
}

impl Clone for Item {
    fn clone(&self) -> (r: Self)
        ensures
            r@ == self@,
    {
        let artist_items = self.artist_items.clone();
        let image_tags = self.image_tags.clone();
        assert(name_ids(artist_items@) =~= name_ids(self.artist_items@));
        assert(image_tags_of(image_tags@) =~= image_tags_of(self.image_tags@));
        Item {
            id: self.id.clone(),
            name: self.name.clone(),
            item_type: copy_text(&self.item_type),
            album: copy_text(&self.album),
            album_id: copy_text(&self.album_id),
            album_artist: copy_text(&self.album_artist),
            artists: copy_texts(&self.artists),
            artist_items,
            run_time_ticks: self.run_time_ticks,
            index_number: self.index_number,
            parent_index_number: self.parent_index_number,
            container: copy_text(&self.container),
            image_tags,
            album_primary_image_tag: copy_text(&self.album_primary_image_tag),
        }
    }
}

/// A copy of a list of items.
pub fn copy_items(v: &Vec<Item>) -> (r: Vec<Item>)
    ensures
        item_views(r@) == item_views(v@),
{
    let r = v.clone();
    assert(item_views(r@) =~= item_views(v@));
    r
}

/// A copy of an item, if there is one.
pub fn copy_item_opt(item: &Option<Item>) -> (r: Option<Item>)
    ensures
        item_opt(r) == item_opt(*item),
{
    match item {
        Some(item) => Some(item.clone()),
        None => None,
    }
}

impl ItemView {
    /// What the item is, by the name that Jellyfin gives it.
    pub open spec fn kind(self) -> Kind {
        if self.item_type == Some("Audio"@) {
            Kind::Track
        } else if self.item_type == Some("MusicAlbum"@) {
            Kind::Album
        } else if self.item_type == Some("MusicArtist"@) {
            Kind::Artist
        } else {
            Kind::Other
        }
    }

    /// How long the item plays, where the server gave a usable length.
    pub open spec fn duration(self) -> Option<Duration> {
        match self.run_time_ticks {
            Some(ticks) if ticks > 0 => Some(
                Duration { nanos: (ticks * NANOS_PER_TICK) as u128 },
            ),
            _ => None,
        }
    }

    /// The one artist to show for the item: the album artist, so compilations stay coherent,
    /// else the first credited one.
    pub open spec fn display_artist(self) -> Seq<char> {
        match self.album_artist {
            Some(artist) => artist,
            None => if self.artists.len() > 0 {
                self.artists[0]
            } else if self.artist_items.len() > 0 {
                self.artist_items[0].name
            } else {
                "Unknown Artist"@
            },
        }
    }

    /// The names of the credited artists.
    pub open spec fn artist_names(self) -> Seq<Seq<char>> {
        self.artist_items.map_values(|a: NameIdView| a.name)
    }

    /// Every credited artist, joined for display.
    pub open spec fn display_artists(self) -> Seq<char> {
        if self.artist_items.len() > 0 {
            text::joined(self.artist_names(), ", "@)
        } else if self.artists.len() > 0 {
            text::joined(self.artists, ", "@)
        } else {
            self.display_artist()
        }
    }

    /// The tag of the item's own primary image.
    pub open spec fn primary_tag(self) -> Option<Seq<char>> {
        first_tag(self.image_tags, "Primary"@)
    }

    /// The item whose primary image is the cover art, and the tag of that image: the item
    /// itself, or its album where it has no artwork of its own.
    pub open spec fn cover_source(self) -> Option<(Seq<char>, Seq<char>)> {
        match self.primary_tag() {
            Some(tag) => Some((self.id, tag)),
            None => match (self.album_id, self.album_primary_image_tag) {
                (Some(id), Some(tag)) => Some((id, tag)),
                _ => None,
            },
        }
    }
}

/// The tag of the first image of a kind.
pub open spec fn first_tag(tags: Seq<ImageTagView>, kind: Seq<char>) -> Option<Seq<char>>
    decreases tags.len(),
{
    if tags.len() == 0 {
        None
    } else if tags[0].kind == kind {
        Some(tags[0].tag)
    } else {
        first_tag(tags.drop_first(), kind)
    }
}

impl Item {
    /// What the item is.
    pub fn kind(&self) -> (r: Kind)
        ensures
            r == self@.kind(),
    {
        if opt_is(&self.item_type, "Audio") {
            Kind::Track
        } else if opt_is(&self.item_type, "MusicAlbum") {
            Kind::Album
        } else if opt_is(&self.item_type, "MusicArtist") {
            Kind::Artist
        } else {
            Kind::Other
        }
    }

    /// How long the item plays. None where the server gave no length, or a useless one.
    pub fn duration(&self) -> (r: Option<Duration>)
        ensures
            r == self@.duration(),
    {
        match self.run_time_ticks {
            Some(ticks) => if ticks <= 0 {
                None
            } else {
                Some(Duration { nanos: ticks as u128 * NANOS_PER_TICK })
            },
            None => None,
        }
    }

    /// Display artist, preferring the album artist so compilations stay coherent.
    pub fn display_artist(&self) -> (r: &str)
        ensures
            r@ == self@.display_artist(),
    {
        match &self.album_artist {
            Some(artist) => artist.as_str(),
            None => if self.artists.len() > 0 {
                self.artists[0].as_str()
            } else if self.artist_items.len() > 0 {
                self.artist_items[0].name.as_str()
            } else {
                "Unknown Artist"
            },
        }
    }

    /// Every credited artist, joined for display.
    ///
    /// Does not prefer the album artist the way `display_artist` does: a queue row is about
    /// one track, so an album artist of "Various Artists" would hide whoever is actually
    /// credited on it.
    pub fn display_artists(&self) -> (r: String)
        ensures
            r@ == self@.display_artists(),
    {
        if self.artist_items.len() > 0 {
            let mut names: Vec<String> = Vec::new();
            let mut i: usize = 0;
            while i < self.artist_items.len()
                invariant
                    i <= self.artist_items.len(),
                    text::texts(names@) == self@.artist_names().take(i as int),
                decreases self.artist_items.len() - i,
            {
                let ghost before = text::texts(names@);
                names.push(self.artist_items[i].name.clone());
                i += 1;
                proof {
                    let all = self@.artist_names();
                    assert(all[i - 1] == self.artist_items@[i - 1]@.name);
                    assert(text::texts(names@) =~= before.push(all[i - 1]));
                    assert(all.take(i as int) =~= all.take(i - 1).push(all[i - 1]));
                }
            }
            assert(self@.artist_names().take(i as int) =~= self@.artist_names());
            return text::join(&names, ", ");
        }
        if self.artists.len() > 0 {
            return text::join(&self.artists, ", ");
        }
        self.display_artist().to_owned()
    }

    /// Item whose primary image should be used as cover art: the album if the track itself
    /// has no artwork of its own.
    pub fn cover_source(&self) -> (r: Option<(&str, &str)>)
        ensures
            match r {
                Some((id, tag)) => self@.cover_source() == Some((id@, tag@)),
                None => self@.cover_source() == None::<(Seq<char>, Seq<char>)>,
            },
    {
        let mut i: usize = 0;
        let ghost tags = self@.image_tags;
        assert(tags.skip(0) =~= tags);
        while i < self.image_tags.len()
            invariant
                i <= self.image_tags.len(),
                tags == image_tags_of(self.image_tags@),
                first_tag(tags.skip(i as int), "Primary"@) == first_tag(tags, "Primary"@),
            decreases self.image_tags.len() - i,
        {
            assert(tags.skip(i as int)[0] == self.image_tags@[i as int]@);
            if str_eq(self.image_tags[i].kind.as_str(), "Primary") {
                return Some((self.id.as_str(), self.image_tags[i].tag.as_str()));
            }
            assert(tags.skip(i as int).drop_first() =~= tags.skip(i + 1));
            i += 1;
        }
        match (&self.album_id, &self.album_primary_image_tag) {
            (Some(id), Some(tag)) => Some((id.as_str(), tag.as_str())),
            _ => None,
        }
    }
}

/// A length that the server gave comes back from a report unchanged: `ticks` undoes
/// `duration`.
pub proof fn law_ticks_undo_duration(item: ItemView)
    requires
        item.run_time_ticks matches Some(t) && t > 0,
    ensures
        item.duration() is Some,
        ticks_of(item.duration().unwrap().nanos as nat) == item.run_time_ticks.unwrap(),
{
    let t = item.run_time_ticks.unwrap();
    assert(t * NANOS_PER_TICK <= u128::MAX);
    assert((t * NANOS_PER_TICK) / (NANOS_PER_TICK as int) == t) by (nonlinear_arith);
}

/// A length is a hundred nanoseconds for every tick, and is known where there is at least one.
pub proof fn law_a_tick_is_a_hundred_nanoseconds(item: ItemView)
    ensures
        item.duration() is Some <==> item.run_time_ticks is Some && item.run_time_ticks.unwrap()
            > 0,
        item.duration() is Some ==> item.duration().unwrap().nanos
            == item.run_time_ticks.unwrap() * 100,
{
}

/// A span of time is as many ticks as whole hundreds of nanoseconds go into it, as far as they fit
/// in a signed number.
pub proof fn law_ticks_are_whole(nanos: nat)
    ensures
        nanos / 100 <= 0x7fff_ffff_ffff_ffff ==> ticks_of(nanos) * 100 <= nanos < ticks_of(nanos)
            * 100 + 100,
        nanos / 100 > 0x7fff_ffff_ffff_ffff ==> ticks_of(nanos) == 0x7fff_ffff_ffff_ffff,
{
}

/// What a row stands for is what the server calls it, and nothing else is taken for music.
pub proof fn law_kinds_are_what_the_server_calls_them(item: ItemView)
    ensures
        item.kind() == Kind::Track <==> item.item_type == Some("Audio"@),
        item.kind() == Kind::Album <==> item.item_type == Some("MusicAlbum"@),
        item.kind() == Kind::Artist <==> item.item_type == Some("MusicArtist"@),
{
    reveal_strlit("Audio");
    reveal_strlit("MusicAlbum");
    reveal_strlit("MusicArtist");
    assert("Audio"@.len() == 5 && "MusicAlbum"@.len() == 10 && "MusicArtist"@.len() == 11);
}

/// One artist is shown by the album's, failing that by the first that is credited, by name or by
/// entry; somebody is always shown.
pub proof fn law_the_album_artist_comes_first(item: ItemView)
    ensures
        item.album_artist is Some ==> item.display_artist() == item.album_artist.unwrap(),
        item.album_artist is None && item.artists.len() > 0 ==> item.display_artist()
            == item.artists[0],
        item.album_artist is None && item.artists.len() == 0 && item.artist_items.len() > 0
            ==> item.display_artist() == item.artist_items[0].name,
        item.album_artist is None && item.artists.len() == 0 && item.artist_items.len() == 0
            ==> item.display_artist() == "Unknown Artist"@,
{
}

/// Everyone who is credited is shown, in order and with commas between: by entry where there are
/// entries, else by name; where nobody is, the one artist is shown.
pub proof fn law_everyone_credited_is_shown(item: ItemView)
    ensures
        item.artist_items.len() > 0 ==> {
            &&& item.display_artists() == text::joined(item.artist_names(), ", "@)
            &&& item.artist_names().len() == item.artist_items.len()
            &&& forall|i: int|
                0 <= i < item.artist_items.len() ==> #[trigger] item.artist_names()[i]
                    == item.artist_items[i].name
        },
        item.artist_items.len() == 0 && item.artists.len() > 0 ==> item.display_artists()
            == text::joined(item.artists, ", "@),
        item.artist_items.len() == 0 && item.artists.len() == 0 ==> item.display_artists()
            == item.display_artist(),
{
}

/// The first image of a kind is the one whose tag is taken.
pub proof fn law_the_first_image_of_a_kind_is_taken(tags: Seq<ImageTagView>, kind: Seq<char>)
    ensures
        match first_tag(tags, kind) {
            Some(tag) => exists|i: int|
                {
                    &&& 0 <= i < tags.len()
                    &&& (#[trigger] tags[i]).kind == kind
                    &&& tags[i].tag == tag
                    &&& forall|j: int| 0 <= j < i ==> (#[trigger] tags[j]).kind != kind
                },
            None => forall|i: int| 0 <= i < tags.len() ==> (#[trigger] tags[i]).kind != kind,
        },
    decreases tags.len(),
{
    if tags.len() > 0 && tags[0].kind != kind {
        let rest = tags.drop_first();
        law_the_first_image_of_a_kind_is_taken(rest, kind);
        match first_tag(rest, kind) {
            Some(tag) => {
                let i = choose|i: int|
                    {
                        &&& 0 <= i < rest.len()
                        &&& (#[trigger] rest[i]).kind == kind
                        &&& rest[i].tag == tag
                        &&& forall|j: int| 0 <= j < i ==> (#[trigger] rest[j]).kind != kind
                    };
                assert(tags[i + 1] == rest[i]);
                assert forall|j: int| 0 <= j < i + 1 implies (#[trigger] tags[j]).kind != kind by {
                    if j > 0 {
                        assert(tags[j] == rest[j - 1]);
                    }
                }
            },
            None => {
                assert forall|i: int| 0 <= i < tags.len() implies (#[trigger] tags[i]).kind
                    != kind by {
                    if i > 0 {
                        assert(tags[i] == rest[i - 1]);
                    }
                }
            },
        }
    } else if tags.len() > 0 {
        assert(tags[0].tag == first_tag(tags, kind).unwrap());
    }
}

/// A cover is the item's own where it has one, else its album's, where both the album and its
/// image are known.
pub proof fn law_its_own_cover_comes_first(item: ItemView)
    ensures
        ({
            let own = first_tag(item.image_tags, "Primary"@);
            &&& own is Some ==> item.cover_source() == Some((item.id, own.unwrap()))
            &&& own is None && item.album_id is Some && item.album_primary_image_tag is Some
                ==> item.cover_source() == Some(
                (item.album_id.unwrap(), item.album_primary_image_tag.unwrap()),
            )
            &&& own is None && (item.album_id is None || item.album_primary_image_tag is None)
                ==> item.cover_source() is None
        }),
{
}

/// Each item of a list is told by what it says, in the same order.
pub proof fn law_a_list_is_told_item_by_item(v: Seq<Item>)
    ensures
        item_views(v).len() == v.len(),
        forall|i: int| 0 <= i < v.len() ==> #[trigger] item_views(v)[i] == v[i]@,
{
}

} // verus!
