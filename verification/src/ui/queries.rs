//! Library queries, and their results for as long as they are worth reusing.

use vstd::prelude::*;

use crate::jellyfin::client;
use crate::jellyfin::client::{Client, ClientError};
use crate::jellyfin::models;
use crate::jellyfin::models::{copy_items, Item, ItemView};
use crate::text::str_eq;
use crate::time::Duration;

verus! {

/// One library query.
///
/// Named by what was asked for rather than by address: an artist's page and a fallback to their
/// tracks ask the server the same question, so they share an entry.
#[derive(Debug)]
pub enum Query {
    Artists,
    ArtistAlbums(String),
    ArtistTracks(String),
    AlbumTracks(String),
}

/// What a [`Query`] says.
pub enum QueryView {
    Artists,
    ArtistAlbums(Seq<char>),
    ArtistTracks(Seq<char>),
    AlbumTracks(Seq<char>),
}

impl View for Query {
    type V = QueryView;

    open spec fn view(&self) -> QueryView {
        match *self {
            Query::Artists => QueryView::Artists,
            Query::ArtistAlbums(id) => QueryView::ArtistAlbums(id@),
            Query::ArtistTracks(id) => QueryView::ArtistTracks(id@),
            Query::AlbumTracks(id) => QueryView::AlbumTracks(id@),
        }
    }
}

impl Query {
    fn same(&self, other: &Query) -> (r: bool)
        ensures
            r == (self@ == other@),
    {
        match (self, other) {
            (Query::Artists, Query::Artists) => true,
            (Query::ArtistAlbums(a), Query::ArtistAlbums(b)) => str_eq(a.as_str(), b.as_str()),
            (Query::ArtistTracks(a), Query::ArtistTracks(b)) => str_eq(a.as_str(), b.as_str()),
            (Query::AlbumTracks(a), Query::AlbumTracks(b)) => str_eq(a.as_str(), b.as_str()),
            _ => false,
        }
    }

    /// What the server is asked.
    pub fn request(&self, client: &Client) -> (r: Result<client::Query, ClientError>)
        ensures
            match self@ {
                QueryView::Artists => client::asks(
                    client@,
                    r,
                    "/Artists"@,
                    seq![("userId"@, client@.user()), ("sortBy"@, "SortName"@)],
                ),
                QueryView::ArtistAlbums(id) => client::asks(
                    client@,
                    r,
                    "/Items"@,
                    seq![
                        ("userId"@, client@.user()),
                        ("artistIds"@, id),
                        ("includeItemTypes"@, "MusicAlbum"@),
                        ("recursive"@, "true"@),
                        ("sortBy"@, "PremiereDate,SortName"@),
                    ],
                ),
                QueryView::ArtistTracks(id) => client::asks(
                    client@,
                    r,
                    "/Items"@,
                    seq![
                        ("userId"@, client@.user()),
                        ("artistIds"@, id),
                        ("includeItemTypes"@, "Audio"@),
                        ("recursive"@, "true"@),
                        ("sortBy"@, "SortName"@),
                        ("fields"@, "Container,ArtistItems"@),
                        ("enableTotalRecordCount"@, "false"@),
                    ],
                ),
                QueryView::AlbumTracks(id) => client::asks(
                    client@,
                    r,
                    "/Items"@,
                    seq![
                        ("userId"@, client@.user()),
                        ("parentId"@, id),
                        ("sortBy"@, "ParentIndexNumber,IndexNumber,SortName"@),
                        ("fields"@, "Container,ArtistItems"@),
                    ],
                ),
            },
    {
        match self {
            Query::Artists => client.artists(),
            Query::ArtistAlbums(id) => client.artist_albums(id.as_str()),
            Query::ArtistTracks(id) => client.artist_tracks(id.as_str()),
            Query::AlbumTracks(id) => client.album_tracks(id.as_str()),
        }
    }
}

/// Most distinct queries kept at once.
///
/// A browse session touches a handful of artists; this only exists so that walking a large
/// library for an hour cannot grow the cache without bound.
pub const MAX_CACHED_QUERIES: usize = 64;

/// A query, when it was answered, and what with.
#[derive(Debug)]
pub struct Answered {
    pub query: Query,
    /// Counted in nanoseconds from any fixed moment.
    pub at: u128,
    pub items: Vec<Item>,
}

/// What an [`Answered`] says.
pub struct AnsweredView {
    pub query: QueryView,
    pub at: u128,
    pub items: Seq<ItemView>,
}

impl View for Answered {
    type V = AnsweredView;

    open spec fn view(&self) -> AnsweredView {
        AnsweredView { query: self.query@, at: self.at, items: models::item_views(self.items@) }
    }
}

/// What each answer of a list says.
pub open spec fn answers(v: Seq<Answered>) -> Seq<AnsweredView> {
    v.map_values(|a: Answered| a@)
}

/// Results of library queries, reused for a while after they land.
#[derive(Debug)]
pub struct QueryCache {
    entries: Vec<Answered>,
    ttl: Duration,
}

/// What a [`QueryCache`] holds.
pub struct QueryCacheView {
    pub entries: Seq<AnsweredView>,
    pub ttl: Duration,
}

impl View for QueryCache {
    type V = QueryCacheView;

    closed spec fn view(&self) -> QueryCacheView {
        QueryCacheView { entries: answers(self.entries@), ttl: self.ttl }
    }
}

/// Position of the answer to a query.
pub open spec fn position(entries: Seq<AnsweredView>, query: QueryView) -> Option<int>
    decreases entries.len(),
{
    if entries.len() == 0 {
        None
    } else if entries.last().query == query {
        Some(entries.len() - 1)
    } else {
        position(entries.drop_last(), query)
    }
}

/// Whether an answer is still worth reusing.
pub open spec fn is_fresh(entry: AnsweredView, now: u128, ttl: Duration) -> bool {
    now - entry.at < ttl.nanos
}

/// The answers that are still worth reusing.
pub open spec fn fresh(entries: Seq<AnsweredView>, now: u128, ttl: Duration) -> Seq<AnsweredView> {
    entries.filter(|e: AnsweredView| is_fresh(e, now, ttl))
}

/// Position of the oldest answer, the first of them where there are several.
pub open spec fn oldest(entries: Seq<AnsweredView>) -> int
    decreases entries.len(),
{
    if entries.len() <= 1 {
        0
    } else {
        let before = oldest(entries.drop_last());
        if entries.last().at < entries[before].at {
            entries.len() - 1
        } else {
            before
        }
    }
}

/// The answers without the oldest ones, so that there is room for another.
pub open spec fn with_room(entries: Seq<AnsweredView>) -> Seq<AnsweredView>
    decreases entries.len(),
{
    if entries.len() >= MAX_CACHED_QUERIES && 0 <= oldest(entries) < entries.len() {
        with_room(entries.remove(oldest(entries)))
    } else {
        entries
    }
}

/// The answers to other queries.
pub open spec fn others(entries: Seq<AnsweredView>, query: QueryView) -> Seq<AnsweredView> {
    entries.filter(|e: AnsweredView| e.query != query)
}

/// Whether no query is answered twice.
pub open spec fn queries_differ(entries: Seq<AnsweredView>) -> bool {
    forall|i: int, j: int|
        0 <= i < j < entries.len() ==> (#[trigger] entries[i]).query != (
        #[trigger] entries[j]).query
}

impl QueryCacheView {
    /// A query has one answer at most.
    pub open spec fn wf(self) -> bool {
        queries_differ(self.entries)
    }

    /// What a query was answered with, if that is still worth reusing.
    pub open spec fn lookup(self, query: QueryView, now: u128) -> Option<Seq<ItemView>> {
        match position(self.entries, query) {
            Some(i) => if self.ttl.nanos > 0 && is_fresh(self.entries[i], now, self.ttl) {
                Some(self.entries[i].items)
            } else {
                None
            },
            None => None,
        }
    }

    /// With one more answer.
    pub open spec fn with(self, query: QueryView, items: Seq<ItemView>, now: u128) -> Self {
        if self.ttl.nanos == 0 {
            self
        } else {
            let room = with_room(fresh(self.entries, now, self.ttl));
            QueryCacheView {
                entries: others(room, query).push(AnsweredView { query, at: now, items }),
                ..self
            }
        }
    }
}

proof fn lemma_oldest(entries: Seq<AnsweredView>)
    requires
        entries.len() > 0,
    ensures
        0 <= oldest(entries) < entries.len(),
        forall|i: int| 0 <= i < entries.len() ==> entries[oldest(entries)].at <= (
        #[trigger] entries[i]).at,
    decreases entries.len(),
{
    if entries.len() > 1 {
        let front = entries.drop_last();
        lemma_oldest(front);
        assert forall|i: int| 0 <= i < entries.len() implies entries[oldest(entries)].at <= (
        #[trigger] entries[i]).at by {
            if i < front.len() {
                assert(front[i].at == entries[i].at);
            }
        }
    }
}

proof fn lemma_room(entries: Seq<AnsweredView>)
    ensures
        with_room(entries).len() < MAX_CACHED_QUERIES,
    decreases entries.len(),
{
    if entries.len() >= MAX_CACHED_QUERIES {
        lemma_oldest(entries);
        lemma_room(entries.remove(oldest(entries)));
    }
}

proof fn lemma_filter_keeps_queries_apart(
    entries: Seq<AnsweredView>,
    pred: spec_fn(AnsweredView) -> bool,
)
    requires
        queries_differ(entries),
    ensures
        queries_differ(entries.filter(pred)),
        forall|i: int|
            0 <= i < entries.filter(pred).len() ==> pred(#[trigger] entries.filter(pred)[i])
                && entries.contains(entries.filter(pred)[i]),
    decreases entries.len(),
{
    reveal(Seq::filter);
    if entries.len() > 0 {
        let front = entries.drop_last();
        let kept = front.filter(pred);
        assert(queries_differ(front)) by {
            assert forall|i: int, j: int| 0 <= i < j < front.len() implies (
            #[trigger] front[i]).query != (#[trigger] front[j]).query by {
                assert(entries[i].query != entries[j].query);
            }
        }
        lemma_filter_keeps_queries_apart(front, pred);
        assert forall|i: int| 0 <= i < kept.len() implies entries.contains(#[trigger] kept[i])
            && kept[i].query != entries.last().query by {
            let k = choose|k: int| 0 <= k < front.len() && front[k] == kept[i];
            assert(entries[k] == kept[i]);
            assert(entries[k].query != entries[entries.len() - 1].query);
        }
        assert(entries.contains(entries[entries.len() - 1]));
    }
}

proof fn lemma_room_keeps_queries_apart(entries: Seq<AnsweredView>)
    requires
        queries_differ(entries),
    ensures
        queries_differ(with_room(entries)),
    decreases entries.len(),
{
    let i = oldest(entries);
    if entries.len() >= MAX_CACHED_QUERIES && 0 <= i < entries.len() {
        let rest = entries.remove(i);
        assert forall|a: int, b: int| 0 <= a < b < rest.len() implies (
        #[trigger] rest[a]).query != (#[trigger] rest[b]).query by {
            let x = if a < i { a } else { a + 1 };
            let y = if b < i { b } else { b + 1 };
            assert(entries[x].query != entries[y].query);
        }
        lemma_room_keeps_queries_apart(rest);
    }
}

impl QueryCache {
    /// An empty cache whose answers are reused for `ttl`. None at all disables it.
    pub fn new(ttl: Duration) -> (r: Self)
        ensures
            r@.entries == Seq::<AnsweredView>::empty(),
            r@.ttl == ttl,
            r@.wf(),
    {
        let r = QueryCache { entries: Vec::new(), ttl };
        assert(answers(r.entries@) =~= Seq::empty());
        r
    }

    /// What a query was answered with, if that is still worth reusing at the time `now`.
    pub fn get(&self, query: &Query, now: u128) -> (r: Option<Vec<Item>>)
        ensures
            self@.lookup(query@, now) == (match r {
                Some(items) => Some(models::item_views(items@)),
                None => None,
            }),
    {
        let ghost all = answers(self.entries@);
        let mut i: usize = self.entries.len();
        assert(all.take(i as int) =~= all);
        while i > 0
            invariant
                i <= self.entries@.len(),
                all == answers(self.entries@),
                position(all, query@) == position(all.take(i as int), query@),
            decreases i,
        {
            proof {
                assert(all.take(i as int).drop_last() =~= all.take(i - 1));
                assert(all[i - 1] == self.entries@[i - 1]@);
            }
            i -= 1;
            if self.entries[i].query.same(query) {
                let at = self.entries[i].at;
                let young = at > now || now - at < self.ttl.nanos;
                if !self.ttl.is_zero() && young {
                    return Some(copy_items(&self.entries[i].items));
                }
                return None;
            }
        }
        None
    }

    fn drop_stale(&mut self, now: u128)
        requires
            old(self)@.ttl.nanos > 0,
        ensures
            final(self)@ == (QueryCacheView {
                entries: fresh(old(self)@.entries, now, old(self)@.ttl),
                ..old(self)@
            }),
    {
        let ghost all = answers(self.entries@);
        let ttl = self.ttl;
        let ghost mut k: int = 0;
        let mut i: usize = 0;
        proof {
            reveal(Seq::filter);
            assert(answers(self.entries@) =~= fresh(all.take(0), now, ttl) + all.skip(0));
        }
        while i < self.entries.len()
            invariant
                0 <= k <= all.len(),
                self.ttl == ttl,
                ttl.nanos > 0,
                i == fresh(all.take(k), now, ttl).len(),
                answers(self.entries@) == fresh(all.take(k), now, ttl) + all.skip(k),
            decreases all.len() - k,
        {
            let ghost kept = fresh(all.take(k), now, ttl);
            let at = self.entries[i].at;
            let young = at > now || now - at < ttl.nanos;
            proof {
                reveal(Seq::filter);
                assert(answers(self.entries@)[i as int] == self.entries@[i as int]@);
                assert(all.skip(k)[0] == all[k]);
                assert(all.take(k + 1).drop_last() =~= all.take(k));
                assert(all.take(k + 1).last() == all[k]);
                assert(all.skip(k).skip(1) =~= all.skip(k + 1));
            }
            if young {
                i += 1;
                proof {
                    assert(kept.push(all[k]) + all.skip(k + 1) =~= kept + all.skip(k));
                }
            } else {
                let ghost before = answers(self.entries@);
                let _stale = self.entries.remove(i);
                proof {
                    assert(answers(self.entries@) =~= before.remove(i as int));
                    assert(before.remove(i as int) =~= kept + all.skip(k + 1));
                }
            }
            proof {
                k = k + 1;
            }
        }
        proof {
            assert(all.skip(k).len() == 0);
            assert(all.take(k) =~= all);
            assert(answers(self.entries@) =~= fresh(all, now, ttl));
        }
    }

    fn make_room(&mut self)
        ensures
            final(self)@ == (QueryCacheView {
                entries: with_room(old(self)@.entries),
                ..old(self)@
            }),
    {
        let ghost goal = with_room(self@.entries);
        let ghost ttl = self.ttl;
        while self.entries.len() >= MAX_CACHED_QUERIES
            invariant
                with_room(self@.entries) == goal,
                self.ttl == ttl,
            decreases self.entries.len(),
        {
            let ghost all = answers(self.entries@);
            let mut found: usize = 0;
            let mut i: usize = 1;
            proof {
                assert(all.take(1).drop_last().len() == 0);
            }
            while i < self.entries.len()
                invariant
                    1 <= i <= self.entries@.len(),
                    all == answers(self.entries@),
                    found < i,
                    found == oldest(all.take(i as int)),
                decreases self.entries.len() - i,
            {
                proof {
                    assert(all.take(i + 1).drop_last() =~= all.take(i as int));
                    assert(all[i as int] == self.entries@[i as int]@);
                    assert(all[found as int] == self.entries@[found as int]@);
                }
                if self.entries[i].at < self.entries[found].at {
                    found = i;
                }
                i += 1;
            }
            proof {
                assert(all.take(i as int) =~= all);
            }
            let _oldest = self.entries.remove(found);
            assert(answers(self.entries@) =~= all.remove(found as int));
        }
    }

    fn drop_query(&mut self, query: &Query)
        ensures
            final(self)@ == (QueryCacheView {
                entries: others(old(self)@.entries, query@),
                ..old(self)@
            }),
    {
        let ghost all = answers(self.entries@);
        let ghost ttl = self.ttl;
        let ghost mut k: int = 0;
        let mut i: usize = 0;
        proof {
            reveal(Seq::filter);
            assert(answers(self.entries@) =~= others(all.take(0), query@) + all.skip(0));
        }
        while i < self.entries.len()
            invariant
                0 <= k <= all.len(),
                self.ttl == ttl,
                i == others(all.take(k), query@).len(),
                answers(self.entries@) == others(all.take(k), query@) + all.skip(k),
            decreases all.len() - k,
        {
            let ghost kept = others(all.take(k), query@);
            let same = self.entries[i].query.same(query);
            proof {
                reveal(Seq::filter);
                assert(answers(self.entries@)[i as int] == self.entries@[i as int]@);
                assert(all.skip(k)[0] == all[k]);
                assert(all.take(k + 1).drop_last() =~= all.take(k));
                assert(all.take(k + 1).last() == all[k]);
                assert(all.skip(k).skip(1) =~= all.skip(k + 1));
            }
            if !same {
                i += 1;
                proof {
                    assert(kept.push(all[k]) + all.skip(k + 1) =~= kept + all.skip(k));
                }
            } else {
                let ghost before = answers(self.entries@);
                let _replaced = self.entries.remove(i);
                proof {
                    assert(answers(self.entries@) =~= before.remove(i as int));
                    assert(before.remove(i as int) =~= kept + all.skip(k + 1));
                }
            }
            proof {
                k = k + 1;
            }
        }
        proof {
            assert(all.skip(k).len() == 0);
            assert(all.take(k) =~= all);
            assert(answers(self.entries@) =~= others(all, query@));
        }
    }

    /// Remembers what a query was answered with at the time `now`. Whatever is stale goes, and
    /// the oldest answers where there are too many.
    pub fn put(&mut self, query: Query, items: &Vec<Item>, now: u128)
        ensures
            final(self)@ == old(self)@.with(query@, models::item_views(items@), now),
            old(self)@.wf() ==> final(self)@.wf(),
    {
        proof {
            if self@.wf() {
                law_a_query_has_one_answer(self@, query@, models::item_views(items@), now);
            }
        }
        if self.ttl.is_zero() {
            return;
        }
        self.drop_stale(now);
        self.make_room();
        self.drop_query(&query);
        let ghost before = self@.entries;
        let ghost new = AnsweredView {
            query: query@,
            at: now,
            items: models::item_views(items@),
        };
        self.entries.push(Answered { query, at: now, items: copy_items(items) });
        assert(answers(self.entries@) =~= before.push(new));
    }

    /// Everything an artist's page needs, if all of it is still worth reusing: their albums and
    /// all their tracks. Both halves or neither, since either alone would cost the round trip
    /// that is being waited for.
    pub fn artist_page(&self, artist_id: &str, now: u128) -> (r: Option<(Vec<Item>, Vec<Item>)>)
        ensures
            match (
                self@.lookup(QueryView::ArtistAlbums(artist_id@), now),
                self@.lookup(QueryView::ArtistTracks(artist_id@), now),
            ) {
                (Some(albums), Some(tracks)) => {
                    &&& r is Some
                    &&& models::item_views(r.unwrap().0@) == albums
                    &&& models::item_views(r.unwrap().1@) == tracks
                },
                _ => r is None,
            },
    {
        let albums = self.get(&Query::ArtistAlbums(artist_id.to_owned()), now);
        let tracks = self.get(&Query::ArtistTracks(artist_id.to_owned()), now);
        match (albums, tracks) {
            (Some(albums), Some(tracks)) => Some((albums, tracks)),
            _ => None,
        }
    }
}

/// An answer is reused until it expires, and not after.
pub proof fn law_an_answer_is_reused_until_it_expires(
    cache: QueryCacheView,
    query: QueryView,
    items: Seq<ItemView>,
    now: u128,
    later: u128,
)
    ensures
        cache.with(query, items, now).lookup(query, later) == (if cache.ttl.nanos == 0 {
            None
        } else if later - now < cache.ttl.nanos {
            Some(items)
        } else {
            None
        }),
{
}

/// A query is answered once at most: another answer takes the place of the one before.
pub proof fn law_a_query_has_one_answer(
    cache: QueryCacheView,
    query: QueryView,
    items: Seq<ItemView>,
    now: u128,
)
    requires
        cache.wf(),
    ensures
        cache.with(query, items, now).wf(),
{
    if cache.ttl.nanos > 0 {
        lemma_filter_keeps_queries_apart(
            cache.entries,
            |e: AnsweredView| is_fresh(e, now, cache.ttl),
        );
        lemma_room_keeps_queries_apart(fresh(cache.entries, now, cache.ttl));
        lemma_filter_keeps_queries_apart(
            with_room(fresh(cache.entries, now, cache.ttl)),
            |e: AnsweredView| e.query != query,
        );
    }
}

/// However many queries are made, only so many are kept.
pub proof fn law_the_cache_is_bounded(
    cache: QueryCacheView,
    query: QueryView,
    items: Seq<ItemView>,
    now: u128,
)
    ensures
        cache.ttl.nanos > 0 ==> cache.with(query, items, now).entries.len()
            <= MAX_CACHED_QUERIES,
{
    let room = with_room(fresh(cache.entries, now, cache.ttl));
    lemma_room(fresh(cache.entries, now, cache.ttl));
    lemma_filter_len(room, query);
}

proof fn lemma_filter_len(entries: Seq<AnsweredView>, query: QueryView)
    ensures
        others(entries, query).len() <= entries.len(),
    decreases entries.len(),
{
    reveal(Seq::filter);
    if entries.len() > 0 {
        lemma_filter_len(entries.drop_last(), query);
    }
}

/// What is reused is what that very query was answered with, and only while the answer is younger
/// than it may be. Every such answer is reused.
pub proof fn law_what_is_reused_answered_that_query(
    cache: QueryCacheView,
    query: QueryView,
    now: u128,
    i: int,
)
    requires
        cache.wf(),
        0 <= i < cache.entries.len(),
        cache.entries[i].query == query,
    ensures
        cache.lookup(query, now) == if cache.ttl.nanos > 0 && now < cache.entries[i].at
            + cache.ttl.nanos {
            Some(cache.entries[i].items)
        } else {
            None
        },
{
    lemma_position_of_the_answer(cache.entries, query, i);
}

/// A query that was not answered has nothing to reuse.
pub proof fn law_nothing_is_reused_for_another_query(
    cache: QueryCacheView,
    query: QueryView,
    now: u128,
)
    requires
        forall|i: int| 0 <= i < cache.entries.len() ==> (#[trigger] cache.entries[i]).query != query,
    ensures
        cache.lookup(query, now) is None,
{
    lemma_no_position(cache.entries, query);
}

/// With room left, keeping an answer loses no other that could still be reused.
pub proof fn law_keeping_an_answer_loses_no_other(
    cache: QueryCacheView,
    query: QueryView,
    items: Seq<ItemView>,
    now: u128,
    i: int,
)
    requires
        cache.ttl.nanos > 0,
        cache.entries.len() < 64,
        0 <= i < cache.entries.len(),
        cache.entries[i].query != query,
        now < cache.entries[i].at + cache.ttl.nanos,
    ensures
        cache.with(query, items, now).entries.contains(cache.entries[i]),
        cache.with(query, items, now).entries.contains((AnsweredView { query, at: now, items })),
        cache.with(query, items, now).ttl == cache.ttl,
{
    let kept = |e: AnsweredView| is_fresh(e, now, cache.ttl);
    let other = |e: AnsweredView| e.query != query;
    let young = cache.entries.filter(kept);
    cache.entries.lemma_filter_len(kept);
    cache.entries.lemma_filter_contains(kept, i);
    let k = choose|k: int| 0 <= k < young.len() && young[k] == cache.entries[i];
    young.lemma_filter_contains(other, k);
    let rest = young.filter(other);
    let m = choose|m: int| 0 <= m < rest.len() && rest[m] == cache.entries[i];
    let after = cache.with(query, items, now).entries;
    assert(after[m] == cache.entries[i]);
    assert(after.last() == (AnsweredView { query, at: now, items }));
    assert(after[after.len() - 1] == after.last());
}

/// Where there is no room, the answer that makes it is no younger than any that stays.
pub proof fn law_the_oldest_answer_makes_room(entries: Seq<AnsweredView>)
    requires
        entries.len() == 64,
    ensures
        with_room(entries).len() == 63,
        exists|i: int| #![trigger entries.remove(i)]
            {
                &&& 0 <= i < entries.len()
                &&& with_room(entries) == entries.remove(i)
                &&& forall|j: int|
                    0 <= j < entries.len() ==> entries[i].at <= (#[trigger] entries[j]).at
            },
{
    lemma_oldest(entries);
    let i = oldest(entries);
    assert(with_room(entries) == with_room(entries.remove(i)));
    assert(with_room(entries.remove(i)) == entries.remove(i));
}

proof fn lemma_position_of_the_answer(entries: Seq<AnsweredView>, query: QueryView, i: int)
    requires
        queries_differ(entries),
        0 <= i < entries.len(),
        entries[i].query == query,
    ensures
        position(entries, query) == Some(i),
    decreases entries.len(),
{
    if i < entries.len() - 1 {
        let front = entries.drop_last();
        assert(entries[i].query != entries[entries.len() - 1].query);
        assert forall|a: int, b: int| 0 <= a < b < front.len() implies (
        #[trigger] front[a]).query != (#[trigger] front[b]).query by {
            assert(entries[a].query != entries[b].query);
        }
        lemma_position_of_the_answer(front, query, i);
    }
}

proof fn lemma_no_position(entries: Seq<AnsweredView>, query: QueryView)
    requires
        forall|i: int| 0 <= i < entries.len() ==> (#[trigger] entries[i]).query != query,
    ensures
        position(entries, query) is None,
    decreases entries.len(),
{
    if entries.len() > 0 {
        let front = entries.drop_last();
        assert(entries[entries.len() - 1].query != query);
        assert forall|i: int| 0 <= i < front.len() implies (#[trigger] front[i]).query != query by {
            assert(entries[i].query != query);
        }
        lemma_no_position(front, query);
    }
}

} // verus!
