//! The queue as a state file, so a restart resumes where the last session left off.
//!
//! Whole tracks are stored, not ids: rebuilding them would leave the popup empty whenever the
//! server is unreachable, which is exactly when having the old queue still matters.

use vstd::prelude::*;

use crate::jellyfin::models;
use crate::jellyfin::models::{Item, ItemView};
use crate::player::queue::{Mode, Queue, QueueView};

verus! {

/// Bounds the state file. Generous: what gets saved has to include everything the user queued
/// by hand, and those go to the end of a queue that a random refill has already grown.
pub const MAX_ITEMS: usize = 2000;

/// How much already-played queue is kept when the cap bites.
pub const KEPT_HISTORY: usize = 50;

/// The part of a queue that is written out.
#[derive(Debug)]
pub struct Saved {
    pub items: Vec<Item>,
    pub cursor: usize,
    pub mode: Mode,
}

/// What a [`Saved`] says.
pub struct SavedView {
    pub items: Seq<ItemView>,
    pub cursor: int,
    pub mode: Mode,
}

impl View for Saved {
    type V = SavedView;

    open spec fn view(&self) -> SavedView {
        SavedView {
            items: models::item_views(self.items@),
            cursor: self.cursor as int,
            mode: self.mode,
        }
    }
}

/// Where the saved window of a queue starts: fifty tracks before the cursor, or further back
/// where the window still reaches the end of the queue.
pub open spec fn window_start(len: int, cursor: int) -> int {
    let from_history = if cursor > KEPT_HISTORY {
        cursor - KEPT_HISTORY
    } else {
        0
    };
    let from_end = if len > MAX_ITEMS {
        len - MAX_ITEMS
    } else {
        0
    };
    if from_history <= from_end {
        from_history
    } else {
        from_end
    }
}

/// Where the saved window of a queue ends.
pub open spec fn window_end(len: int, cursor: int) -> int {
    let end = window_start(len, cursor) + MAX_ITEMS;
    if end <= len {
        end
    } else {
        len
    }
}

impl QueueView {
    /// The part of the queue that is written out: a window around the cursor.
    pub open spec fn saved(self) -> SavedView {
        let len = self.items.len() as int;
        SavedView {
            items: self.items.subrange(
                window_start(len, self.cursor),
                window_end(len, self.cursor),
            ),
            cursor: self.cursor - window_start(len, self.cursor),
            mode: self.mode,
        }
    }
}

impl SavedView {
    /// The queue that is restored, if there is anything usable to restore.
    pub open spec fn restored(self) -> Option<QueueView> {
        if self.items.len() > 0 {
            Some(QueueView::of(self.items, self.cursor, self.mode))
        } else {
            None
        }
    }
}

/// What to write out for a queue: a window around the cursor, not the front of the queue.
///
/// Keeping the first tracks would throw away the future of a long random queue, anything just
/// added by hand included, and clamp the cursor into the middle of the session's history. The
/// window reaches as far back as it can while still reaching the end of the queue, so a short
/// future is padded with extra history rather than saving less than the cap allows.
pub fn save(queue: &Queue) -> (r: Saved)
    requires
        queue.wf(),
    ensures
        r@ == queue@.saved(),
{
    let items = queue.items();
    let cursor = queue.cursor();
    let len = items.len();
    let from_history = if cursor > KEPT_HISTORY {
        cursor - KEPT_HISTORY
    } else {
        0
    };
    let from_end = if len > MAX_ITEMS {
        len - MAX_ITEMS
    } else {
        0
    };
    let start = if from_history <= from_end {
        from_history
    } else {
        from_end
    };
    let end = if len - start > MAX_ITEMS {
        start + MAX_ITEMS
    } else {
        len
    };
    let ghost window = queue@.items.subrange(start as int, end as int);
    let mut kept: Vec<Item> = Vec::new();
    let mut i: usize = start;
    assert(models::item_views(kept@) =~= window.take(0));
    while i < end
        invariant
            start <= i <= end <= items@.len(),
            models::item_views(items@) == queue@.items,
            window == queue@.items.subrange(start as int, end as int),
            models::item_views(kept@) == window.take(i - start),
        decreases end - i,
    {
        let ghost before = models::item_views(kept@);
        kept.push(items[i].clone());
        i += 1;
        proof {
            assert(queue@.items[i - 1] == items@[i - 1]@);
            assert(models::item_views(kept@) =~= before.push(window[i - 1 - start]));
            assert(window.take(i - start) =~= window.take(i - 1 - start).push(
                window[i - 1 - start],
            ));
        }
    }
    assert(window.take(i - start) =~= window);
    Saved { items: kept, cursor: cursor - start, mode: queue.mode() }
}

/// What to restore from a state file. None when there is nothing usable in it.
pub fn load(saved: Option<Saved>) -> (r: Option<(Vec<Item>, usize, Mode)>)
    ensures
        match r {
            Some((items, cursor, mode)) => {
                &&& saved is Some
                &&& saved.unwrap()@.items.len() > 0
                &&& cursor < items@.len()
                &&& saved.unwrap()@.restored() == Some(
                    (QueueView { items: models::item_views(items@), cursor: cursor as int, mode }),
                )
            },
            None => saved is None || saved.unwrap()@.restored() is None,
        },
{
    match saved {
        Some(saved) => {
            if saved.items.len() == 0 {
                None
            } else {
                let cursor = if saved.cursor < saved.items.len() {
                    saved.cursor
                } else {
                    saved.items.len() - 1
                };
                Some((saved.items, cursor, saved.mode))
            }
        },
        None => None,
    }
}

/// A restart resumes on the track that was playing, in the same mode.
pub proof fn law_restart_resumes_on_the_same_track(queue: QueueView)
    requires
        queue.wf(),
        queue.items.len() > 0,
    ensures
        queue.saved().restored() is Some,
        queue.saved().restored().unwrap().wf(),
        queue.saved().restored().unwrap().current() == queue.current(),
        queue.saved().restored().unwrap().mode == queue.mode,
{
}

/// The state file never holds more than the cap, and holds a queue within the cap whole.
pub proof fn law_saved_queue_is_bounded(queue: QueueView)
    requires
        queue.wf(),
    ensures
        queue.saved().items.len() <= MAX_ITEMS,
        queue.items.len() >= MAX_ITEMS ==> queue.saved().items.len() == MAX_ITEMS,
        queue.items.len() <= MAX_ITEMS ==> queue.saved().items == queue.items
            && queue.saved().cursor == queue.cursor,
{
    if queue.items.len() <= MAX_ITEMS {
        assert(queue.saved().items =~= queue.items);
    }
}

/// What is to come is what the window keeps: all of it where it fits beside the kept history,
/// and never less than the cap allows.
pub proof fn law_saved_queue_keeps_the_future(queue: QueueView)
    requires
        queue.wf(),
        queue.items.len() > 0,
    ensures
        ({
            let saved = queue.saved();
            let future = queue.items.skip(queue.cursor);
            let kept = saved.items.skip(saved.cursor);
            &&& kept.is_prefix_of(future)
            &&& kept.len() >= MAX_ITEMS - KEPT_HISTORY || kept == future
            &&& saved.cursor >= KEPT_HISTORY || saved.cursor == queue.cursor
        }),
{
    let saved = queue.saved();
    let future = queue.items.skip(queue.cursor);
    let kept = saved.items.skip(saved.cursor);
    if kept.len() < MAX_ITEMS - KEPT_HISTORY {
        assert(kept =~= future);
    }
}

/// What is written out is one stretch of the queue, around the current track.
pub proof fn law_saved_queue_is_a_stretch_of_the_queue(queue: QueueView)
    requires
        queue.wf(),
    ensures
        ({
            let saved = queue.saved();
            let from = queue.cursor - saved.cursor;
            &&& 0 <= from && from + saved.items.len() <= queue.items.len()
            &&& forall|i: int|
                0 <= i < saved.items.len() ==> #[trigger] saved.items[i] == queue.items[from + i]
        }),
{
}

/// A queue within the cap comes back from a restart as it was, and what was written out comes back
/// whole in any case.
pub proof fn law_a_restart_gives_the_queue_back(queue: QueueView)
    requires
        queue.wf(),
        queue.items.len() > 0,
    ensures
        queue.items.len() <= MAX_ITEMS ==> queue.saved().restored() == Some(queue),
        queue.saved().restored().unwrap().items == queue.saved().items,
        queue.saved().restored().unwrap().cursor == queue.saved().cursor,
{
    law_saved_queue_is_bounded(queue);
}

/// A stored place beyond the end of the stored queue is taken for its last track; an empty queue is
/// nothing to restore.
pub proof fn law_a_stored_place_is_kept_in_the_queue(saved: SavedView)
    requires
        saved.cursor >= 0,
    ensures
        saved.restored() is Some <==> saved.items.len() > 0,
        saved.restored() is Some ==> saved.restored().unwrap() == (QueueView {
            items: saved.items,
            cursor: if saved.cursor < saved.items.len() {
                saved.cursor
            } else {
                saved.items.len() - 1
            },
            mode: saved.mode,
        }),
{
}

} // verus!
