//! The queue: a list of tracks and the one that is playing.

use vstd::prelude::*;

use crate::jellyfin::models;
use crate::jellyfin::models::{Item, ItemView};

verus! {

/// How the current queue was built. Random queues refill themselves as they run down;
/// explicit ones (an album, an artist) simply end.
#[derive(Debug, Clone, Copy, PartialEq, Eq, Structural)]
pub enum Mode {
    Random,
    Explicit,
}

/// Tracks in play order, with a cursor on the one that is playing.
#[derive(Debug)]
pub struct Queue {
    items: Vec<Item>,
    cursor: usize,
    pub mode: Mode,
}

/// What a [`Queue`] holds.
#[verifier::ext_equal]
pub struct QueueView {
    pub items: Seq<ItemView>,
    pub cursor: int,
    pub mode: Mode,
}

impl View for Queue {
    type V = QueueView;

    closed spec fn view(&self) -> QueueView {
        QueueView {
            items: models::item_views(self.items@),
            cursor: self.cursor as int,
            mode: self.mode,
        }
    }
}

/// What a borrowed item says, if there is one.
pub open spec fn item_ref(item: Option<&Item>) -> Option<ItemView> {
    match item {
        Some(i) => Some(i@),
        None => None,
    }
}

impl QueueView {
    /// The cursor is on a track, or at zero while there is none.
    pub open spec fn wf(self) -> bool {
        if self.items.len() == 0 {
            self.cursor == 0
        } else {
            0 <= self.cursor < self.items.len()
        }
    }

    /// The track at the cursor.
    pub open spec fn current(self) -> Option<ItemView> {
        if 0 <= self.cursor < self.items.len() {
            Some(self.items[self.cursor])
        } else {
            None
        }
    }

    /// A queue of `items`, starting at `start` or at the last track where that is too far.
    pub open spec fn of(items: Seq<ItemView>, start: int, mode: Mode) -> QueueView {
        QueueView {
            items,
            cursor: if start < items.len() {
                start
            } else if items.len() > 0 {
                items.len() - 1
            } else {
                0
            },
            mode,
        }
    }

    /// The queue with `items` behind everything else.
    pub open spec fn appended(self, items: Seq<ItemView>) -> QueueView {
        QueueView { items: self.items + items, ..self }
    }

    /// The queue with `items` directly behind position `index`, or at its end.
    pub open spec fn inserted_after(self, index: int, items: Seq<ItemView>) -> QueueView {
        let at = if index + 1 < self.items.len() {
            index + 1
        } else {
            self.items.len() as int
        };
        QueueView { items: self.items.take(at) + items + self.items.skip(at), ..self }
    }

    /// Whether a track follows the one at the cursor.
    pub open spec fn has_successor(self) -> bool {
        self.cursor + 1 < self.items.len()
    }

    /// The queue without the track at the cursor. The cursor lands on the track that followed
    /// it, or on the last one left.
    pub open spec fn without_current(self) -> QueueView {
        if self.cursor >= self.items.len() {
            self
        } else {
            QueueView {
                items: self.items.remove(self.cursor),
                cursor: if self.has_successor() || self.cursor == 0 {
                    self.cursor
                } else {
                    self.cursor - 1
                },
                ..self
            }
        }
    }

    /// Whether the track at `index` may be dropped: there is one, and it is not playing.
    pub open spec fn removable(self, index: int) -> bool {
        0 <= index < self.items.len() && index != self.cursor
    }

    /// The queue without the track at `index`; the cursor follows its own track.
    pub open spec fn without(self, index: int) -> QueueView {
        if self.removable(index) {
            QueueView {
                items: self.items.remove(index),
                cursor: if index < self.cursor {
                    self.cursor - 1
                } else {
                    self.cursor
                },
                ..self
            }
        } else {
            self
        }
    }

    /// The position that follows the cursor, `wrap` meaning that the queue starts over.
    pub open spec fn next_cursor(self, wrap: bool) -> Option<int> {
        if self.has_successor() {
            Some(self.cursor + 1)
        } else if wrap && self.items.len() > 0 {
            Some(0int)
        } else {
            None
        }
    }

    /// The track that follows the one at the cursor.
    pub open spec fn next(self, wrap: bool) -> Option<ItemView> {
        match self.next_cursor(wrap) {
            Some(i) => Some(self.items[i]),
            None => None,
        }
    }

    /// The queue one track on, or unchanged where it is exhausted.
    pub open spec fn advanced(self, wrap: bool) -> QueueView {
        match self.next_cursor(wrap) {
            Some(i) => QueueView { cursor: i, ..self },
            None => self,
        }
    }

    /// The queue one track back, or unchanged at its start.
    pub open spec fn stepped_back(self) -> QueueView {
        QueueView {
            cursor: if self.cursor > 0 {
                self.cursor - 1
            } else {
                0
            },
            ..self
        }
    }
}

impl Queue {
    /// The cursor is on a track, or at zero while there is none.
    pub open spec fn wf(&self) -> bool {
        self@.wf()
    }

    /// An empty queue.
    pub fn new() -> (r: Self)
        ensures
            r.wf(),
            r@ == QueueView::of(Seq::empty(), 0, Mode::Explicit),
    {
        let r = Self { items: Vec::new(), cursor: 0, mode: Mode::Explicit };
        assert(models::item_views(r.items@) =~= Seq::empty());
        r
    }

    /// Puts `items` in place of everything, starting at `start`.
    pub fn replace(&mut self, items: Vec<Item>, start: usize, mode: Mode)
        ensures
            final(self).wf(),
            final(self)@ == QueueView::of(models::item_views(items@), start as int, mode),
    {
        self.cursor = if start < items.len() {
            start
        } else if items.len() > 0 {
            items.len() - 1
        } else {
            0
        };
        self.items = items;
        self.mode = mode;
    }

    /// Puts `items` at the end.
    pub fn append(&mut self, items: Vec<Item>)
        requires
            old(self).wf(),
        ensures
            final(self).wf(),
            final(self)@ == old(self)@.appended(models::item_views(items@)),
    {
        let mut items = items;
        let ghost all = self.items@ + items@;
        let ghost was = self@;
        let ghost new = models::item_views(items@);
        self.items.append(&mut items);
        assert(models::item_views(all) =~= was.items + new);
    }

    /// Inserts directly after `index`, which is how "Play next" puts tracks between what is
    /// playing and the rest of the queue.
    pub fn insert_after(&mut self, index: usize, items: Vec<Item>)
        requires
            old(self).wf(),
        ensures
            final(self).wf(),
            final(self)@ == old(self)@.inserted_after(
                index as int,
                models::item_views(items@),
            ),
    {
        let ghost was = self@;
        let ghost new = models::item_views(items@);
        let at = if index < self.items.len() {
            index + 1
        } else {
            self.items.len()
        };
        let ghost head = self.items@.take(at as int);
        let ghost back = self.items@.skip(at as int);
        let mut items = items;
        let mut tail = self.items.split_off(at);
        assert(self.items@ =~= head);
        assert(tail@ =~= back);
        let ghost middle = items@;
        self.items.append(&mut items);
        self.items.append(&mut tail);
        proof {
            assert(self.items@ =~= head + middle + back);
            assert(models::item_views(self.items@) =~= was.items.take(at as int) + new
                + was.items.skip(at as int));
        }
    }

    /// Drops the track at the cursor, which [`Queue::remove`] refuses to touch.
    ///
    /// Only for a track that cannot be played at all. Returns whether the cursor now points
    /// at a track that followed it: removing shifts the tail down, so the cursor lands on the
    /// successor for free. False means there was none, and the cursor has been clamped back
    /// into range.
    pub fn remove_current(&mut self) -> (r: bool)
        requires
            old(self).wf(),
        ensures
            final(self).wf(),
            r == old(self)@.has_successor(),
            final(self)@ == old(self)@.without_current(),
    {
        if self.cursor >= self.items.len() {
            return false;
        }
        let ghost was = self@;
        let had_successor = self.items.len() - self.cursor > 1;
        let ghost after = self.items@.remove(self.cursor as int);
        let _dropped = self.items.remove(self.cursor);
        assert(models::item_views(after) =~= was.items.remove(was.cursor));
        if !had_successor {
            self.cursor = if self.items.len() > 0 {
                self.items.len() - 1
            } else {
                0
            };
        }
        had_successor
    }

    /// Drops one track. False when there is nothing at `index`, or when it is the track
    /// playing right now.
    ///
    /// The cursor follows its own track rather than staying on a number, so removing
    /// something above it shifts it down.
    pub fn remove(&mut self, index: usize) -> (r: bool)
        requires
            old(self).wf(),
        ensures
            final(self).wf(),
            r == old(self)@.removable(index as int),
            final(self)@ == old(self)@.without(index as int),
    {
        if index >= self.items.len() || index == self.cursor {
            return false;
        }
        let ghost was = self@;
        let ghost after = self.items@.remove(index as int);
        let _dropped = self.items.remove(index);
        assert(models::item_views(after) =~= was.items.remove(index as int));
        if index < self.cursor {
            self.cursor -= 1;
        }
        true
    }

    /// The track at the cursor.
    pub fn current(&self) -> (r: Option<&Item>)
        ensures
            item_ref(r) == self@.current(),
    {
        if self.cursor < self.items.len() {
            Some(&self.items[self.cursor])
        } else {
            None
        }
    }

    /// Every track, in play order.
    pub fn items(&self) -> (r: &Vec<Item>)
        ensures
            models::item_views(r@) == self@.items,
    {
        &self.items
    }

    /// How the queue is fed.
    pub fn mode(&self) -> (r: Mode)
        ensures
            r == self@.mode,
    {
        self.mode
    }

    /// Position of the track that is playing.
    pub fn cursor(&self) -> (r: usize)
        ensures
            r == self@.cursor,
    {
        self.cursor
    }

    /// The track the sink should cross into, `wrap` being repeat-all as in
    /// [`Queue::advance`].
    pub fn peek_next(&self, wrap: bool) -> (r: Option<&Item>)
        requires
            self.wf(),
        ensures
            item_ref(r) == self@.next(wrap),
    {
        if self.cursor < self.items.len() && self.items.len() - self.cursor > 1 {
            Some(&self.items[self.cursor + 1])
        } else if wrap && self.items.len() > 0 {
            Some(&self.items[0])
        } else {
            None
        }
    }

    /// Advances one track. None means the queue is exhausted.
    ///
    /// `wrap` is repeat-all: the queue starts over instead of running out.
    pub fn advance(&mut self, wrap: bool) -> (r: Option<&Item>)
        requires
            old(self).wf(),
        ensures
            final(self).wf(),
            final(self)@ == old(self)@.advanced(wrap),
            item_ref(r) == old(self)@.next(wrap),
    {
        if self.cursor >= self.items.len() || self.items.len() - self.cursor == 1 {
            if !wrap || self.items.len() == 0 {
                return None;
            }
            self.cursor = 0;
            return self.current();
        }
        self.cursor += 1;
        self.current()
    }

    /// Steps back one track, staying put at the start of the queue.
    pub fn back(&mut self) -> (r: Option<&Item>)
        requires
            old(self).wf(),
        ensures
            final(self).wf(),
            final(self)@ == old(self)@.stepped_back(),
            item_ref(r) == old(self)@.stepped_back().current(),
    {
        if self.cursor > 0 {
            self.cursor -= 1;
        }
        self.current()
    }

    /// True when no more than `slack` tracks remain, counting the one at the cursor.
    pub fn running_low(&self, slack: usize) -> (r: bool)
        requires
            self.wf(),
        ensures
            r == (self@.items.len() - self@.cursor <= slack),
    {
        if self.items.len() >= self.cursor {
            self.items.len() - self.cursor <= slack
        } else {
            true
        }
    }

    /// How many tracks there are.
    pub fn len(&self) -> (r: usize)
        ensures
            r == self@.items.len(),
    {
        self.items.len()
    }

    /// Whether there is no track at all.
    pub fn is_empty(&self) -> (r: bool)
        ensures
            r == (self@.items.len() == 0),
    {
        self.items.len() == 0
    }
}

/// What `peek_next` shows is what `advance` moves to: the two agree about the end of a queue.
pub proof fn law_peek_agrees_with_advance(queue: QueueView, wrap: bool)
    requires
        queue.wf(),
    ensures
        queue.next(wrap) is Some ==> queue.advanced(wrap).current() == queue.next(wrap),
        queue.next(wrap) is None ==> queue.advanced(wrap) == queue,
{
}

/// Every operation keeps the cursor on a track, or at zero while there is none.
pub proof fn law_cursor_stays_in_range(
    queue: QueueView,
    items: Seq<ItemView>,
    index: int,
    mode: Mode,
    wrap: bool,
)
    requires
        queue.wf(),
        index >= 0,
    ensures
        QueueView::of(items, index, mode).wf(),
        queue.appended(items).wf(),
        queue.inserted_after(index, items).wf(),
        queue.without(index).wf(),
        queue.without_current().wf(),
        queue.advanced(wrap).wf(),
        queue.stepped_back().wf(),
{
}

/// Removing a track never changes which track is playing.
pub proof fn law_remove_keeps_the_current_track(queue: QueueView, index: int)
    requires
        queue.wf(),
    ensures
        queue.without(index).current() == queue.current(),
{
}

/// Adding tracks, at the end or anywhere behind the cursor, changes neither the track that is
/// playing nor the history behind it.
pub proof fn law_adding_keeps_the_current_track(
    queue: QueueView,
    items: Seq<ItemView>,
    index: int,
)
    requires
        queue.wf(),
        queue.items.len() > 0,
        index >= queue.cursor,
    ensures
        queue.appended(items).current() == queue.current(),
        queue.appended(items).items.take(queue.cursor) == queue.items.take(queue.cursor),
        queue.inserted_after(index, items).current() == queue.current(),
        queue.inserted_after(index, items).items.take(queue.cursor) == queue.items.take(
            queue.cursor,
        ),
{
    assert(queue.appended(items).items.take(queue.cursor) =~= queue.items.take(queue.cursor));
    assert(queue.inserted_after(index, items).items.take(queue.cursor) =~= queue.items.take(
        queue.cursor,
    ));
}

/// Tracks put behind the one that is playing are what plays next.
pub proof fn law_play_next_plays_next(queue: QueueView, items: Seq<ItemView>, wrap: bool)
    requires
        queue.wf(),
        queue.items.len() > 0,
        items.len() > 0,
    ensures
        queue.inserted_after(queue.cursor, items).next(wrap) == Some(items[0]),
{
}

/// Stepping back undoes stepping on, but for the step that starts the queue over.
pub proof fn law_back_undoes_advance(queue: QueueView, wrap: bool)
    requires
        queue.wf(),
        queue.has_successor(),
    ensures
        queue.advanced(wrap).stepped_back() == queue,
{
}

/// Dropping the track at the cursor lands on the one that followed it.
pub proof fn law_dropping_the_current_track_lands_on_its_successor(queue: QueueView)
    requires
        queue.wf(),
        queue.has_successor(),
    ensures
        queue.without_current().current() == queue.next(false),
{
}

/// A new queue holds the tracks as they come and is on the one that was chosen, or on the last
/// where there are not so many.
pub proof fn law_a_new_queue_is_on_the_chosen_track(items: Seq<ItemView>, start: int, mode: Mode)
    requires
        start >= 0,
        items.len() > 0,
    ensures
        QueueView::of(items, start, mode).items == items,
        QueueView::of(items, start, mode).mode == mode,
        QueueView::of(items, start, mode).current() == Some(
            items[if start < items.len() {
                start
            } else {
                items.len() - 1
            }],
        ),
{
}

/// Stepping on moves to the track that stands behind the current one, and from the last to the
/// first where the queue starts over; stepping back to the one before it. The tracks stay.
pub proof fn law_steps_are_of_one_track(queue: QueueView, wrap: bool)
    requires
        queue.wf(),
    ensures
        queue.advanced(wrap) == (QueueView {
            cursor: if queue.cursor + 1 < queue.items.len() {
                queue.cursor + 1
            } else if wrap {
                0
            } else {
                queue.cursor
            },
            ..queue
        }),
        queue.next(wrap) is None <==> queue.items.len() == 0 || (!wrap && queue.cursor + 1
            == queue.items.len()),
        queue.stepped_back() == (QueueView {
            cursor: if queue.cursor == 0 {
                0
            } else {
                queue.cursor - 1
            },
            ..queue
        }),
        queue.items.len() > 0 ==> queue.current() == Some(queue.items[queue.cursor]),
{
}

/// From the last track of a queue that starts over the first one follows.
pub proof fn law_a_queue_that_starts_over_goes_round(queue: QueueView)
    requires
        queue.wf(),
        queue.cursor + 1 == queue.items.len(),
    ensures
        queue.next(true) == Some(queue.items[0]),
        queue.advanced(true).cursor == 0,
{
}

/// Adding at the end keeps every track where it is and puts all the new ones behind them, in
/// their order.
pub proof fn law_adding_loses_nothing(queue: QueueView, items: Seq<ItemView>)
    ensures
        ({
            let after = queue.appended(items);
            let n = queue.items.len();
            &&& after.items.len() == n + items.len()
            &&& forall|i: int| 0 <= i < n ==> #[trigger] after.items[i] == queue.items[i]
            &&& forall|i: int| 0 <= i < items.len() ==> after.items[n + i] == #[trigger] items[i]
            &&& after.cursor == queue.cursor
            &&& after.mode == queue.mode
        }),
{
}

/// Inserting behind a track keeps what stands up to it where it is, puts all the new tracks behind
/// it in their order, and the rest behind those.
pub proof fn law_inserting_loses_nothing(queue: QueueView, index: int, items: Seq<ItemView>)
    requires
        0 <= index < queue.items.len(),
    ensures
        ({
            let after = queue.inserted_after(index, items);
            let n = queue.items.len();
            &&& after.items.len() == n + items.len()
            &&& forall|i: int| 0 <= i <= index ==> #[trigger] after.items[i] == queue.items[i]
            &&& forall|i: int|
                0 <= i < items.len() ==> after.items[index + 1 + i] == #[trigger] items[i]
            &&& forall|i: int|
                index < i < n ==> after.items[items.len() + i] == #[trigger] queue.items[i]
            &&& after.cursor == queue.cursor
            &&& after.mode == queue.mode
        }),
{
}

/// Removing takes out the one track and closes the gap. The current one cannot be removed, and
/// neither can one that is not there.
pub proof fn law_removing_takes_one_track(queue: QueueView, index: int)
    requires
        queue.wf(),
    ensures
        ({
            let after = queue.without(index);
            let n = queue.items.len();
            if index < 0 || index >= n || index == queue.cursor {
                after == queue
            } else {
                &&& after.items.len() == n - 1
                &&& forall|i: int| 0 <= i < index ==> #[trigger] after.items[i] == queue.items[i]
                &&& forall|i: int|
                    index < i < n ==> after.items[i - 1] == #[trigger] queue.items[i]
                &&& after.mode == queue.mode
            }
        }),
        queue.removable(index) <==> 0 <= index < queue.items.len() && index != queue.cursor,
{
}

/// Dropping the current track closes the gap, and the last one that is left is current where none
/// followed it.
pub proof fn law_dropping_takes_the_current_track(queue: QueueView)
    requires
        queue.wf(),
        queue.items.len() > 0,
    ensures
        ({
            let after = queue.without_current();
            &&& after.items == queue.items.remove(queue.cursor)
            &&& after.mode == queue.mode
            &&& queue.cursor + 1 == queue.items.len() && queue.cursor > 0 ==> after.current()
                == Some(queue.items[queue.cursor - 1])
        }),
{
}

} // verus!
