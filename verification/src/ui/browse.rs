//! List pages: what a row says, which rows the filter leaves, and where the arrow keys go.

use vstd::prelude::*;

use crate::jellyfin::models;
use crate::jellyfin::models::{Item, ItemView, Kind};
use crate::text;
use crate::text::{cat, contains_text, copy_text, to_lowercase, trim, write_signed};
use crate::ui::nowplaying;
use crate::ui::nowplaying::format_time;

verus! {

// ---------------------------------------------------------------------------------------
// What a row says.
// ---------------------------------------------------------------------------------------

/// How long a track runs, if that is known.
pub open spec fn length_of(item: ItemView) -> Option<Seq<char>> {
    match item.duration() {
        Some(d) => Some(nowplaying::clock_of(d)),
        None => None,
    }
}

/// How long a track runs, if that is known.
pub fn length_text(item: &Item) -> (r: Option<String>)
    ensures
        text::text_opt(r) == length_of(item@),
{
    match item.duration() {
        Some(d) => Some(format_time(d)),
        None => None,
    }
}

/// A list page.
#[derive(Debug, Clone, Copy, PartialEq, Eq, Structural)]
pub struct ListPage;

impl ListPage {
    /// Subtitle for an album row: who it is by.
    pub fn album_subtitle(item: &Item) -> (r: Option<String>)
        ensures
            text::text_opt(r) == item@.album_artist,
    {
        copy_text(&item.album_artist)
    }

    /// Subtitle for a track row: track number and length.
    pub fn track_subtitle(item: &Item) -> (r: Option<String>)
        ensures
            text::text_opt(r) == (match (item@.index_number, length_of(item@)) {
                (Some(n), Some(len)) => Some(text::signed_decimal(n as int) + ". "@ + len),
                (Some(n), None) => Some(text::signed_decimal(n as int) + "."@),
                (None, Some(len)) => Some(len),
                (None, None) => None,
            }),
    {
        match (item.index_number, length_text(item)) {
            (Some(n), Some(len)) => Some(
                cat(cat(write_signed(n).as_str(), ". ").as_str(), len.as_str()),
            ),
            (Some(n), None) => Some(cat(write_signed(n).as_str(), ".")),
            (None, Some(len)) => Some(len),
            (None, None) => None,
        }
    }

    /// Subtitle for a standalone track, which has no album to sit under.
    pub fn loose_track_subtitle(item: &Item) -> (r: Option<String>)
        ensures
            text::text_opt(r) == length_of(item@),
    {
        length_text(item)
    }

    /// Subtitle for a search hit: results mix artists, albums and tracks with nothing else on
    /// the row to tell them apart.
    pub fn search_subtitle(item: &Item) -> (r: Option<String>)
        ensures
            text::text_opt(r) == (match item@.kind() {
                Kind::Artist => Some("Artist"@),
                Kind::Album => Some(
                    match item@.album_artist {
                        Some(artist) => artist,
                        None => "Album"@,
                    },
                ),
                Kind::Track => Some(
                    match item@.album {
                        Some(album) => if album.len() > 0 {
                            item@.display_artist() + " \u{b7} "@ + album
                        } else {
                            item@.display_artist()
                        },
                        None => item@.display_artist(),
                    },
                ),
                Kind::Other => None,
            }),
    {
        match item.kind() {
            Kind::Artist => Some("Artist".to_owned()),
            Kind::Album => match &item.album_artist {
                Some(artist) => Some(artist.clone()),
                None => Some("Album".to_owned()),
            },
            Kind::Track => {
                let artist = item.display_artist();
                match &item.album {
                    Some(album) => {
                        let empty = album.as_str().is_empty();
                        if empty {
                            Some(artist.to_owned())
                        } else {
                            Some(cat(cat(artist, " \u{b7} ").as_str(), album.as_str()))
                        }
                    },
                    None => Some(artist.to_owned()),
                }
            },
            Kind::Other => None,
        }
    }
}

// ---------------------------------------------------------------------------------------
// The filter.
// ---------------------------------------------------------------------------------------

/// What is looked for, of what was typed.
pub open spec fn term_of(typed: Seq<char>) -> Seq<char> {
    text::lowercase(text::trimmed(typed))
}

/// What is looked for, of what was typed: without white space around it, in lower case.
pub fn filter_term(typed: &str) -> (r: String)
    ensures
        r@ == term_of(typed@),
{
    to_lowercase(trim(typed).as_str())
}

/// The names of a section's rows, in lower case.
pub open spec fn names_of(items: Seq<ItemView>) -> Seq<Seq<char>> {
    items.map_values(|item: ItemView| text::lowercase(item.name))
}

/// The names of a section's rows, in lower case, to be looked through.
pub fn row_names(items: &Vec<Item>) -> (r: Vec<String>)
    ensures
        text::texts(r@) == names_of(models::item_views(items@)),
{
    let ghost all = models::item_views(items@);
    let mut r: Vec<String> = Vec::new();
    let mut i: usize = 0;
    assert(text::texts(r@) =~= names_of(all).take(0));
    while i < items.len()
        invariant
            i <= items@.len(),
            all == models::item_views(items@),
            text::texts(r@) == names_of(all).take(i as int),
        decreases items.len() - i,
    {
        let ghost before = text::texts(r@);
        r.push(to_lowercase(items[i].name.as_str()));
        i += 1;
        proof {
            assert(text::texts(r@) =~= before.push(names_of(all)[i - 1]));
            assert(names_of(all).take(i as int) =~= names_of(all).take(i - 1).push(
                names_of(all)[i - 1],
            ));
        }
    }
    assert(names_of(all).take(i as int) =~= names_of(all));
    r
}

/// Whether the filter leaves the row at `index`. A row without a name, such as the one that says
/// there is nothing, always stays.
pub open spec fn row_matches(names: Seq<Seq<char>>, index: int, term: Seq<char>) -> bool {
    term.len() == 0 || !(0 <= index < names.len()) || text::contains(names[index], term)
}

/// Whether the filter leaves any row of a section. One that never had any stays.
pub open spec fn section_matches(names: Seq<Seq<char>>, term: Seq<char>) -> bool {
    ||| term.len() == 0
    ||| names.len() == 0
    ||| exists|i: int| 0 <= i < names.len() && text::contains(#[trigger] names[i], term)
}

/// Whether the filter leaves the row at `index`.
pub fn row_visible(names: &Vec<String>, index: usize, term: &str) -> (r: bool)
    ensures
        r == row_matches(text::texts(names@), index as int, term@),
{
    let empty = term.is_empty();
    if empty || index >= names.len() {
        return true;
    }
    contains_text(names[index].as_str(), term)
}

/// Whether a section and its heading are shown: a stray heading must not sit above an empty
/// list.
pub fn section_visible(names: &Vec<String>, term: &str) -> (r: bool)
    ensures
        r == section_matches(text::texts(names@), term@),
{
    let ghost all = text::texts(names@);
    let empty = term.is_empty();
    if empty || names.len() == 0 {
        return true;
    }
    let mut i: usize = 0;
    while i < names.len()
        invariant
            i <= names@.len(),
            all == text::texts(names@),
            forall|j: int| 0 <= j < i ==> !text::contains(#[trigger] all[j], term@),
        decreases names.len() - i,
    {
        assert(all[i as int] == names@[i as int]@);
        if contains_text(names[i].as_str(), term) {
            return true;
        }
        i += 1;
    }
    false
}

/// A section with rows is shown exactly where one of its rows is.
pub proof fn law_a_section_is_shown_with_its_rows(names: Seq<Seq<char>>, term: Seq<char>)
    requires
        names.len() > 0,
    ensures
        section_matches(names, term) == (exists|i: int|
            0 <= i < names.len() && #[trigger] row_matches(names, i, term)),
{
    if section_matches(names, term) {
        if term.len() == 0 {
            assert(row_matches(names, 0, term));
        } else {
            let i = choose|i: int| 0 <= i < names.len() && text::contains(#[trigger] names[i], term);
            assert(row_matches(names, i, term));
        }
    }
    if exists|i: int| 0 <= i < names.len() && #[trigger] row_matches(names, i, term) {
        let i = choose|i: int| 0 <= i < names.len() && #[trigger] row_matches(names, i, term);
        if term.len() > 0 {
            assert(text::contains(names[i], term));
        }
    }
}

// ---------------------------------------------------------------------------------------
// Keys.
// ---------------------------------------------------------------------------------------

/// A key on a list page.
#[derive(Debug, Clone, Copy, PartialEq, Eq, Structural)]
pub enum Key {
    Left,
    Right,
    Up,
    Down,
    Enter,
    Other,
}

/// What is held down along with a key.
#[derive(Debug, Clone, Copy, PartialEq, Eq, Structural)]
pub struct Modifiers {
    pub control: bool,
    pub alt: bool,
    pub shift: bool,
}

/// A row as it is on screen.
#[derive(Debug, Clone, Copy, PartialEq, Eq, Structural)]
pub struct RowState {
    /// Whether the filter left it.
    pub visible: bool,
    /// Whether it can be activated, unlike the one that says there is nothing.
    pub sensitive: bool,
}

/// The rows of one section as they are on screen.
#[derive(Debug)]
pub struct SectionRows {
    pub visible: bool,
    pub rows: Vec<RowState>,
}

/// A row by its section and its place in it.
#[derive(Debug, Clone, Copy, PartialEq, Eq, Structural)]
pub struct RowRef {
    pub section: usize,
    pub index: usize,
}

/// The rows of a section that can have the focus, up to place `n`.
pub open spec fn rows_upto(rows: Seq<RowState>, section: usize, n: nat) -> Seq<RowRef>
    decreases n,
{
    if n == 0 {
        Seq::empty()
    } else {
        let before = rows_upto(rows, section, (n - 1) as nat);
        if rows[n - 1].visible && rows[n - 1].sensitive {
            before.push(RowRef { section, index: (n - 1) as usize })
        } else {
            before
        }
    }
}

/// The rows of the first `n` sections that can have the focus, as one list.
pub open spec fn all_rows(sections: Seq<SectionRows>, n: nat) -> Seq<RowRef>
    decreases n,
{
    if n == 0 {
        Seq::empty()
    } else {
        let before = all_rows(sections, (n - 1) as nat);
        let section = sections[n - 1];
        if section.visible {
            before + rows_upto(section.rows@, (n - 1) as usize, section.rows@.len())
        } else {
            before
        }
    }
}

/// The rows of every section in display order, without those the filter hid and those that
/// cannot be activated.
pub fn visible_rows(sections: &Vec<SectionRows>) -> (r: Vec<RowRef>)
    ensures
        r@ == all_rows(sections@, sections@.len()),
{
    let mut r: Vec<RowRef> = Vec::new();
    let mut s: usize = 0;
    while s < sections.len()
        invariant
            s <= sections@.len(),
            r@ == all_rows(sections@, s as nat),
        decreases sections.len() - s,
    {
        let section = &sections[s];
        if section.visible {
            let ghost before = r@;
            let mut i: usize = 0;
            assert(r@ =~= before + rows_upto(section.rows@, s, 0));
            while i < section.rows.len()
                invariant
                    i <= section.rows@.len(),
                    r@ == before + rows_upto(section.rows@, s, i as nat),
                decreases section.rows.len() - i,
            {
                if section.rows[i].visible && section.rows[i].sensitive {
                    r.push(RowRef { section: s, index: i });
                }
                i += 1;
                assert(r@ =~= before + rows_upto(section.rows@, s, i as nat));
            }
        }
        s += 1;
    }
    r
}

/// Every row that the arrows can reach is on screen and can be activated, and every such row
/// can be reached.
pub proof fn law_arrows_reach_what_can_be_activated(sections: Seq<SectionRows>, row: RowRef)
    requires
        sections.len() <= usize::MAX,
        forall|s: int| 0 <= s < sections.len() ==> (#[trigger] sections[s]).rows@.len()
            <= usize::MAX,
    ensures
        all_rows(sections, sections.len()).contains(row) == {
            &&& row.section < sections.len()
            &&& sections[row.section as int].visible
            &&& row.index < sections[row.section as int].rows@.len()
            &&& sections[row.section as int].rows@[row.index as int].visible
            &&& sections[row.section as int].rows@[row.index as int].sensitive
        },
{
    lemma_all_rows(sections, sections.len(), row);
}

proof fn lemma_rows_upto(rows: Seq<RowState>, section: usize, n: nat, row: RowRef)
    requires
        n <= rows.len(),
        rows.len() <= usize::MAX,
    ensures
        rows_upto(rows, section, n).contains(row) == (row.section == section && row.index < n
            && rows[row.index as int].visible && rows[row.index as int].sensitive),
    decreases n,
{
    if n > 0 {
        lemma_rows_upto(rows, section, (n - 1) as nat, row);
        let before = rows_upto(rows, section, (n - 1) as nat);
        let new = RowRef { section, index: (n - 1) as usize };
        let after = rows_upto(rows, section, n);
        if rows[n - 1].visible && rows[n - 1].sensitive {
            assert(after.last() == new);
            if before.contains(row) {
                let i = choose|i: int| 0 <= i < before.len() && before[i] == row;
                assert(after[i] == row);
            }
            if after.contains(row) && row != new {
                let i = choose|i: int| 0 <= i < after.len() && after[i] == row;
                assert(before[i] == row);
            }
        }
    }
}

proof fn lemma_all_rows(sections: Seq<SectionRows>, n: nat, row: RowRef)
    requires
        n <= sections.len(),
        sections.len() <= usize::MAX,
        forall|s: int| 0 <= s < sections.len() ==> (#[trigger] sections[s]).rows@.len()
            <= usize::MAX,
    ensures
        all_rows(sections, n).contains(row) == {
            &&& row.section < n
            &&& sections[row.section as int].visible
            &&& row.index < sections[row.section as int].rows@.len()
            &&& sections[row.section as int].rows@[row.index as int].visible
            &&& sections[row.section as int].rows@[row.index as int].sensitive
        },
    decreases n,
{
    if n > 0 {
        let last = (n - 1) as usize;
        let before = all_rows(sections, (n - 1) as nat);
        let section = sections[n - 1];
        lemma_all_rows(sections, (n - 1) as nat, row);
        if section.visible {
            let own = rows_upto(section.rows@, last, section.rows@.len());
            lemma_rows_upto(section.rows@, last, section.rows@.len(), row);
            let all = before + own;
            if before.contains(row) {
                let i = choose|i: int| 0 <= i < before.len() && before[i] == row;
                assert(all[i] == row);
            }
            if own.contains(row) {
                let i = choose|i: int| 0 <= i < own.len() && own[i] == row;
                assert(all[before.len() + i] == row);
            }
            if all.contains(row) {
                let i = choose|i: int| 0 <= i < all.len() && all[i] == row;
                if i < before.len() {
                    assert(before[i] == row);
                } else {
                    assert(own[i - before.len()] == row);
                }
            }
        }
    }
}

/// What has the focus on a list page.
#[derive(Debug, Clone, Copy, PartialEq, Eq, Structural)]
pub struct Focus {
    /// Whether text is being typed, so that the arrows move the caret.
    pub in_entry: bool,
    /// Position of the focused row among the rows that are shown, over all sections.
    pub row: Option<usize>,
    /// How many rows are shown, over all sections.
    pub rows: usize,
    /// Whether the focused row has a menu.
    pub has_menu: bool,
}

/// What a key does.
#[derive(Debug, Clone, Copy, PartialEq, Eq, Structural)]
pub enum KeyAction {
    /// It is left to whatever has the focus.
    Proceed,
    /// Nothing, but it goes no further.
    Swallow,
    /// One page back.
    Back,
    /// Activate the focused row.
    Activate(usize),
    /// The first entry of the focused row's menu.
    RunFirst(usize),
    /// Move the focus to this row.
    FocusRow(usize),
}

/// The row that an arrow leads to. Stops at both ends rather than wrapping; with nothing focused
/// yet, enters the list from the near end.
pub open spec fn arrow_target(row: Option<usize>, rows: usize, forward: bool) -> int {
    match row {
        Some(i) => if forward {
            if i + 1 < rows {
                i + 1
            } else {
                rows - 1
            }
        } else if i > 0 {
            i - 1
        } else {
            0
        },
        None => if forward {
            0
        } else {
            rows - 1
        },
    }
}

/// What a key does on a list page. Up and down walk the rows of every section as one list, right
/// activates the focused row and left goes back, so a whole browse can be done with one hand.
pub fn key_action(key: Key, modifiers: Modifiers, focus: Focus) -> (r: KeyAction)
    requires
        focus.row is Some ==> focus.row.unwrap() < focus.rows,
    ensures
        r == (if modifiers.control || modifiers.alt || focus.in_entry {
            KeyAction::Proceed
        } else {
            match key {
                Key::Left => KeyAction::Back,
                Key::Right => match focus.row {
                    Some(row) => KeyAction::Activate(row),
                    None => KeyAction::Swallow,
                },
                Key::Enter => match focus.row {
                    Some(row) => if modifiers.shift && focus.has_menu {
                        KeyAction::RunFirst(row)
                    } else {
                        KeyAction::Proceed
                    },
                    None => KeyAction::Proceed,
                },
                Key::Up => if focus.rows == 0 {
                    KeyAction::Swallow
                } else {
                    KeyAction::FocusRow(arrow_target(focus.row, focus.rows, false) as usize)
                },
                Key::Down => if focus.rows == 0 {
                    KeyAction::Swallow
                } else {
                    KeyAction::FocusRow(arrow_target(focus.row, focus.rows, true) as usize)
                },
                Key::Other => KeyAction::Proceed,
            }
        }),
{
    if modifiers.control || modifiers.alt || focus.in_entry {
        return KeyAction::Proceed;
    }
    match key {
        Key::Left => KeyAction::Back,
        Key::Right => match focus.row {
            Some(row) => KeyAction::Activate(row),
            None => KeyAction::Swallow,
        },
        Key::Enter => match focus.row {
            Some(row) => if modifiers.shift && focus.has_menu {
                KeyAction::RunFirst(row)
            } else {
                KeyAction::Proceed
            },
            None => KeyAction::Proceed,
        },
        Key::Up => {
            if focus.rows == 0 {
                return KeyAction::Swallow;
            }
            match focus.row {
                Some(i) => KeyAction::FocusRow(
                    if i > 0 {
                        i - 1
                    } else {
                        0
                    },
                ),
                None => KeyAction::FocusRow(focus.rows - 1),
            }
        },
        Key::Down => {
            if focus.rows == 0 {
                return KeyAction::Swallow;
            }
            match focus.row {
                Some(i) => KeyAction::FocusRow(
                    if i < focus.rows - 1 {
                        i + 1
                    } else {
                        focus.rows - 1
                    },
                ),
                None => KeyAction::FocusRow(0),
            }
        },
        Key::Other => KeyAction::Proceed,
    }
}

/// The arrows never leave the list, and one undoes the other away from its ends.
pub proof fn law_arrows_stay_in_the_list(row: usize, rows: usize)
    requires
        row < rows,
    ensures
        0 <= arrow_target(Some(row), rows, true) < rows,
        0 <= arrow_target(Some(row), rows, false) < rows,
        0 <= arrow_target(None, rows, true) < rows,
        0 <= arrow_target(None, rows, false) < rows,
        row + 1 < rows ==> arrow_target(Some((row + 1) as usize), rows, false) == row,
        row > 0 ==> arrow_target(Some((row - 1) as usize), rows, true) == row,
{
}

/// Down goes to the row below and Up to the row above, as far as there is one; without a row, Down
/// goes to the first and Up to the last.
pub proof fn law_arrows_move_by_one_row(row: usize, rows: usize)
    requires
        row < rows,
    ensures
        row + 1 < rows ==> arrow_target(Some(row), rows, true) == row + 1,
        row + 1 == rows ==> arrow_target(Some(row), rows, true) == row,
        row > 0 ==> arrow_target(Some(row), rows, false) == row - 1,
        row == 0 ==> arrow_target(Some(row), rows, false) == 0,
        arrow_target(None, rows, true) == 0,
        arrow_target(None, rows, false) == rows - 1,
{
}

/// The arrows go through the rows as they stand on screen: section by section, and from the top of
/// each to its bottom.
pub proof fn law_arrows_go_from_top_to_bottom(sections: Seq<SectionRows>, n: nat)
    requires
        n <= sections.len(),
        sections.len() <= usize::MAX,
        forall|s: int| 0 <= s < sections.len() ==> (#[trigger] sections[s]).rows@.len()
            <= usize::MAX,
    ensures
        forall|i: int, j: int|
            0 <= i < j < all_rows(sections, n).len() ==> {
                let (a, b) = (#[trigger] all_rows(sections, n)[i], #[trigger] all_rows(
                    sections,
                    n,
                )[j]);
                a.section < b.section || (a.section == b.section && a.index < b.index)
            },
        forall|i: int|
            0 <= i < all_rows(sections, n).len() ==> (#[trigger] all_rows(
                sections,
                n,
            )[i]).section < n,
    decreases n,
{
    if n > 0 {
        law_arrows_go_from_top_to_bottom(sections, (n - 1) as nat);
        let before = all_rows(sections, (n - 1) as nat);
        let section = sections[n - 1];
        let rows = rows_upto(section.rows@, (n - 1) as usize, section.rows@.len());
        lemma_rows_ascend(section.rows@, (n - 1) as usize, section.rows@.len());
        let all = all_rows(sections, n);
        assert forall|i: int| 0 <= i < all.len() implies (#[trigger] all[i]).section < n by {
            if i < before.len() {
                assert(all[i] == before[i]);
            } else {
                assert(all[i] == rows[i - before.len()]);
            }
        }
        assert forall|i: int, j: int| 0 <= i < j < all.len() implies {
            let (a, b) = (#[trigger] all[i], #[trigger] all[j]);
            a.section < b.section || (a.section == b.section && a.index < b.index)
        } by {
            if i < before.len() {
                assert(all[i] == before[i]);
            } else {
                assert(all[i] == rows[i - before.len()]);
            }
            if j < before.len() {
                assert(all[j] == before[j]);
            } else {
                assert(all[j] == rows[j - before.len()]);
            }
        }
    }
}

proof fn lemma_rows_ascend(rows: Seq<RowState>, section: usize, n: nat)
    requires
        n <= rows.len(),
        rows.len() <= usize::MAX,
    ensures
        forall|i: int|
            0 <= i < rows_upto(rows, section, n).len() ==> (#[trigger] rows_upto(
                rows,
                section,
                n,
            )[i]).section == section && rows_upto(rows, section, n)[i].index < n,
        forall|i: int, j: int|
            0 <= i < j < rows_upto(rows, section, n).len() ==> (#[trigger] rows_upto(
                rows,
                section,
                n,
            )[i]).index < (#[trigger] rows_upto(rows, section, n)[j]).index,
    decreases n,
{
    if n > 0 {
        lemma_rows_ascend(rows, section, (n - 1) as nat);
        let before = rows_upto(rows, section, (n - 1) as nat);
        let after = rows_upto(rows, section, n);
        assert forall|i: int| 0 <= i < after.len() implies (#[trigger] after[i]).section == section
            && after[i].index < n by {
            if i < before.len() {
                assert(after[i] == before[i]);
            }
        }
        assert forall|i: int, j: int| 0 <= i < j < after.len() implies (
        #[trigger] after[i]).index < (#[trigger] after[j]).index by {
            assert(after[i] == before[i]);
            if j < before.len() {
                assert(after[j] == before[j]);
            }
        }
    }
}

/// A filter leaves the rows whose name holds what was typed, and all of them where nothing was
/// typed; a row without a name is always left. What more is typed never brings a row back.
pub proof fn law_a_filter_leaves_what_holds_the_term(
    names: Seq<Seq<char>>,
    index: int,
    term: Seq<char>,
    more: Seq<char>,
)
    ensures
        term.len() == 0 ==> row_matches(names, index, term),
        !(0 <= index < names.len()) ==> row_matches(names, index, term),
        0 <= index < names.len() && term.len() > 0 ==> row_matches(names, index, term) == exists|
            at: int,
        | #![trigger names[index].subrange(at, at + term.len())]
            {
                &&& 0 <= at && at + term.len() <= names[index].len()
                &&& names[index].subrange(at, at + term.len()) == term
            },
        row_matches(names, index, term + more) && term.len() > 0 ==> row_matches(
            names,
            index,
            term,
        ),
{
    if 0 <= index < names.len() && term.len() > 0 {
        let name = names[index];
        if text::contains(name, term) {
            let at = choose|at: int| #[trigger] text::stands_at(name, term, at);
            assert(name.subrange(at, at + term.len()) == term);
        }
        if exists|at: int| #![trigger name.subrange(at, at + term.len())]
            {
                &&& 0 <= at && at + term.len() <= name.len()
                &&& name.subrange(at, at + term.len()) == term
            } {
            let at = choose|at: int| #![trigger name.subrange(at, at + term.len())]
                {
                    &&& 0 <= at && at + term.len() <= name.len()
                    &&& name.subrange(at, at + term.len()) == term
                };
            assert(text::stands_at(name, term, at));
        }
        let longer = term + more;
        if row_matches(names, index, longer) {
            let at = choose|at: int| #[trigger] text::stands_at(name, longer, at);
            assert(name.subrange(at, at + term.len()) =~= name.subrange(
                at,
                at + longer.len(),
            ).take(term.len() as int));
            assert(longer.take(term.len() as int) =~= term);
            assert(text::stands_at(name, term, at));
        }
    }
}

/// What is filtered by is what was typed without the white space around it, in lower case, and so
/// are the names it is held against.
pub proof fn law_case_and_space_around_do_not_count(
    typed: Seq<char>,
    items: Seq<ItemView>,
    i: int,
)
    requires
        0 <= i < items.len(),
    ensures
        term_of(typed) == text::lowercase(text::trimmed(typed)),
        names_of(items).len() == items.len(),
        names_of(items)[i] == text::lowercase(items[i].name),
{
}

/// The rows that the arrows reach in a section are those that are shown and can be used, each once.
pub proof fn law_arrows_reach_every_usable_row(rows: Seq<RowState>, section: usize, n: nat, i: int)
    requires
        n <= rows.len(),
        rows.len() <= usize::MAX,
        0 <= i < n,
    ensures
        rows_upto(rows, section, n).contains((RowRef { section, index: i as usize })) <==> rows[i].visible
            && rows[i].sensitive,
    decreases n,
{
    let last = RowRef { section, index: i as usize };
    let before = rows_upto(rows, section, (n - 1) as nat);
    let all = rows_upto(rows, section, n);
    lemma_rows_ascend(rows, section, (n - 1) as nat);
    lemma_rows_ascend(rows, section, n);
    if i < n - 1 {
        law_arrows_reach_every_usable_row(rows, section, (n - 1) as nat, i);
        if before.contains(last) {
            let k = choose|k: int| 0 <= k < before.len() && before[k] == last;
            assert(all[k] == last);
        }
        if all.contains(last) {
            let k = choose|k: int| 0 <= k < all.len() && all[k] == last;
            assert(before[k] == last);
        }
    } else {
        if rows[i].visible && rows[i].sensitive {
            assert(all[all.len() - 1] == last);
        } else if all.contains(last) {
            let k = choose|k: int| 0 <= k < all.len() && all[k] == last;
            assert(before[k].index < n - 1);
        }
    }
}

/// A section stays while one of its rows does, while nothing is typed, and where it never had any.
pub proof fn law_a_section_stays_with_its_rows(names: Seq<Seq<char>>, term: Seq<char>)
    ensures
        term.len() == 0 ==> section_matches(names, term),
        names.len() == 0 ==> section_matches(names, term),
        names.len() > 0 ==> (section_matches(names, term) <==> exists|i: int|
            0 <= i < names.len() && #[trigger] row_matches(names, i, term)),
{
    if names.len() > 0 {
        if term.len() == 0 {
            assert(row_matches(names, 0, term));
        } else if section_matches(names, term) {
            let i = choose|i: int|
                0 <= i < names.len() && text::contains(#[trigger] names[i], term);
            assert(row_matches(names, i, term));
        }
        if exists|i: int| 0 <= i < names.len() && #[trigger] row_matches(names, i, term) {
            let i = choose|i: int| 0 <= i < names.len() && #[trigger] row_matches(names, i, term);
            if term.len() > 0 {
                assert(text::contains(names[i], term));
            }
        }
    }
}

} // verus!
