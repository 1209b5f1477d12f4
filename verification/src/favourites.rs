//! The favourites list on the main page.
//!
//! The MIDI files of a folder are listed with one row highlighted. Arrow keys
//! move the highlight and load that song on the spot; clicking a row does the
//! same, and double-clicking one starts it straight away. The list scrolls within
//! the space it has, and moving the highlight with the arrow keys scrolls it back
//! into view.
//!
//! Lengths are in thousandths of a logical pixel, times in nanoseconds.
use vstd::prelude::*;
use vstd::string::*;

use crate::names::{
    is_midi_extension, listed_before, lists, lowercase, lowercased, midi_extension, precedes,
    sort_names, texts,
};
use crate::text::{decimal, push_decimal};

verus! {

pub const ROW_H: i32 = 30_000;

pub const ROW_GAP: i32 = 4_000;

/// Pitch of one row: what the scroll offset advances by per entry.
pub const ROW_PITCH: i32 = 34_000;

pub const CAPTION_H: i32 = 18_000;

/// Kept clear on the right of each row so that text never runs under the scroll
/// bar.
pub const SCROLLBAR_W: i32 = 14_000;

/// How close together two clicks on the same row have to be to count as a
/// double-click and start the song.
pub const DOUBLE_CLICK: u64 = 400_000_000;

/// Space kept free for the bottom bar.
pub const BOTTOM_RESERVED: i32 = 92_000;

/// A file of the folder: its name and its extension, as far as they are text.
#[derive(Debug)]
pub struct FolderFile {
    pub name: Option<String>,
    pub extension: Option<String>,
}

impl FolderFile {
    /// Whether the file is a song.
    pub open spec fn is_song(self) -> bool {
        match self.extension {
            Some(extension) => midi_extension(extension@),
            None => false,
        }
    }

    /// What the file is listed by: its name without regard to capitals.
    pub open spec fn key(self) -> Seq<char> {
        match self.name {
            Some(name) => lowercased(name@),
            None => Seq::empty(),
        }
    }
}

/// What the files of a folder are listed by.
pub open spec fn keys_of_files(files: Seq<FolderFile>) -> Seq<Seq<char>> {
    Seq::new(files.len(), |i: int| files[i].key())
}

/// Whether `order` lists the songs of a folder, each once, in alphabetical order.
pub open spec fn lists_songs(order: Seq<usize>, files: Seq<FolderFile>) -> bool {
    &&& forall|m: int|
        0 <= m < order.len() ==> #[trigger] order[m] < files.len() && files[order[m] as int].is_song()
    &&& forall|i: usize| i < files.len() && files[i as int].is_song() ==> #[trigger] order.contains(i)
    &&& forall|m: int, k: int|
        0 <= m < k < order.len() ==> listed_before(
            keys_of_files(files),
            #[trigger] order[m] as int,
            #[trigger] order[k] as int,
        )
}

/// Collects the MIDI files of a folder and sorts them alphabetically.
pub fn scan_favourites(files: &[FolderFile]) -> (order: Vec<usize>)
    ensures
        lists_songs(order@, files@),
{
    let mut picked: Vec<usize> = Vec::new();
    let mut keys: Vec<String> = Vec::new();
    let mut i: usize = 0;
    while i < files.len()
        invariant
            i <= files@.len(),
            picked@.len() == keys@.len(),
            forall|m: int|
                0 <= m < picked@.len() ==> #[trigger] picked@[m] < i
                    && files@[picked@[m] as int].is_song() && keys@[m]@
                    == files@[picked@[m] as int].key(),
            forall|m: int, k: int|
                0 <= m < k < picked@.len() ==> #[trigger] picked@[m] < #[trigger] picked@[k],
            forall|j: usize| j < i && files@[j as int].is_song() ==> #[trigger] picked@.contains(j),
        decreases files@.len() - i,
    {
        let midi = match &files[i].extension {
            Some(extension) => is_midi_extension(extension.as_str()),
            None => false,
        };
        if midi {
            let key: String = match &files[i].name {
                Some(name) => lowercase(name.as_str()),
                None => String::new(),
            };
            let ghost earlier = picked@;
            picked.push(i);
            keys.push(key);
            proof {
                assert(keys@[earlier.len() as int]@ =~= files@[i as int].key());
                assert forall|j: usize| j < i + 1 && files@[j as int].is_song() implies #[trigger] picked@.contains(
                j) by {
                    if j == i {
                        assert(picked@[earlier.len() as int] == j);
                    } else {
                        assert(earlier.contains(j));
                        let m = choose|m: int| 0 <= m < earlier.len() && earlier[m] == j;
                        assert(picked@[m] == j);
                    }
                }
            }
        }
        i = i + 1;
    }
    let sorted: Vec<usize> = sort_names(&keys);
    let mut order: Vec<usize> = Vec::new();
    let mut m: usize = 0;
    while m < sorted.len()
        invariant
            m <= sorted@.len(),
            lists(sorted@, texts(keys@), keys@.len() as int),
            picked@.len() == keys@.len(),
            order@.len() == m,
            forall|k: int| 0 <= k < m ==> #[trigger] order@[k] == picked@[sorted@[k] as int],
        decreases sorted@.len() - m,
    {
        order.push(picked[sorted[m]]);
        m = m + 1;
    }
    proof {
        assert forall|k: int| 0 <= k < order@.len() implies #[trigger] order@[k] < files@.len()
            && files@[order@[k] as int].is_song() by {
            assert(sorted@[k] < picked@.len());
        }
        assert forall|j: usize| j < files@.len() && files@[j as int].is_song() implies #[trigger] order@.contains(
        j) by {
            assert(picked@.contains(j));
            let p = choose|p: int| 0 <= p < picked@.len() && picked@[p] == j;
            assert(sorted@.contains(p as usize));
            let k = choose|k: int| 0 <= k < sorted@.len() && sorted@[k] == p as usize;
            assert(order@[k] == j);
        }
        assert forall|a: int, b: int| 0 <= a < b < order@.len() implies listed_before(
            keys_of_files(files@),
            #[trigger] order@[a] as int,
            #[trigger] order@[b] as int,
        ) by {
            assert(listed_before(texts(keys@), sorted@[a] as int, sorted@[b] as int));
            assert(texts(keys@)[sorted@[a] as int] == files@[order@[a] as int].key());
            assert(texts(keys@)[sorted@[b] as int] == files@[order@[b] as int].key());
        }
    }
    order
}

/// Where the list is drawn, and the window it is drawn in.
#[derive(Debug, Clone, Copy, PartialEq, Eq, Structural)]
pub struct ListArea {
    pub x: i32,
    pub top: i32,
    pub w: i32,
    pub win_w: i32,
    pub win_h: i32,
}

/// What the list shows of itself.
#[derive(Debug, Clone, Copy, PartialEq, Eq, Structural)]
pub struct Viewport {
    pub top: i64,
    pub h: i64,
    /// How far it scrolls.
    pub scroll_max: i128,
    pub row_w: i64,
}

impl ListArea {
    /// Where the rows begin.
    pub open spec fn view_top(self) -> int {
        self.top + CAPTION_H
    }

    /// The list gets everything between the caption and the bottom bar.
    pub open spec fn view_h(self) -> int {
        self.win_h - BOTTOM_RESERVED - self.view_top()
    }

    /// Whether the window has room for at least one row of the list.
    pub open spec fn has_room(self) -> bool {
        &&& self.view_h() >= ROW_H
        &&& self.view_top() >= 0
        &&& self.x >= 0
        &&& self.x + self.w <= self.win_w
    }
}

/// What a click on a row asks for.
#[derive(Debug, Clone, Copy, PartialEq, Eq, Structural)]
pub struct Click {
    pub load: bool,
    pub play: bool,
}

/// The favourites list: how many songs there are, and which one is highlighted.
#[derive(Debug, Clone, Copy, PartialEq, Eq)]
pub struct Favourites {
    pub count: usize,
    pub selected: usize,
    /// Asks the next layout to scroll the highlight back into view.
    pub reveal: bool,
    /// Row and time of the last click, for double-click detection.
    pub last_click: Option<(usize, u64)>,
}

/// The words above the list.
pub open spec fn caption_of(count: nat) -> Seq<char> {
    if count == 0 {
        "FAVOURITES — none in ~/Music/MIDI/Favourites"@
    } else {
        "FAVOURITES — "@ + decimal(count) + " songs · arrows + Enter · double-click to play"@
    }
}

/// How long after `then` it is `now`.
pub open spec fn elapsed(now: u64, then: u64) -> int {
    if now >= then {
        now - then
    } else {
        0
    }
}

/// Where a list is scrolled to so that a row shows: no further than needed.
pub open spec fn revealed(row: int, scroll: int, view_h: int) -> int {
    let row_top = row * ROW_PITCH;
    let up = if row_top < scroll {
        row_top
    } else {
        scroll
    };
    if row_top + ROW_H - view_h > up {
        row_top + ROW_H - view_h
    } else {
        up
    }
}

impl Favourites {
    /// Whether the highlight is in the list.
    pub open spec fn wf(self) -> bool {
        self.count > 0 ==> self.selected < self.count
    }

    /// Whether a click on `row` at `now` is the second of a pair.
    pub open spec fn is_double(self, row: usize, now: u64) -> bool {
        match self.last_click {
            Some(last) => last.0 == row && elapsed(now, last.1) <= DOUBLE_CLICK,
            None => false,
        }
    }

    /// The list after a click on `row` at `now`.
    pub open spec fn after_click(self, row: usize, now: u64, loaded: bool) -> Favourites {
        Favourites {
            selected: if row != self.selected || !loaded {
                row
            } else {
                self.selected
            },
            last_click: if self.is_double(row, now) {
                None
            } else {
                Some((row, now))
            },
            ..self
        }
    }

    /// Where the highlight goes when it is moved by `delta`: it stops at either
    /// end.
    pub open spec fn moved(self, delta: int) -> int {
        let to = self.selected + delta;
        if to < 0 {
            0
        } else if to > self.count - 1 {
            self.count - 1
        } else {
            to
        }
    }

    /// A list of `count` songs with the song that was opened last highlighted, or
    /// the first one. It can be anywhere in the list, so the first layout scrolls
    /// it into view.
    pub fn new(count: usize, last_opened: Option<usize>) -> (list: Self)
        requires
            last_opened is Some ==> last_opened->0 < count,
        ensures
            list == (Favourites {
                count,
                selected: match last_opened {
                    Some(row) => row,
                    None => 0,
                },
                reveal: true,
                last_click: None,
            }),
            list.wf(),
    {
        let selected: usize = match last_opened {
            Some(row) => row,
            None => 0,
        };
        Favourites { count, selected, reveal: true, last_click: None }
    }

    /// Whether the highlighted song is to be loaded when the menu opens: only
    /// when none is loaded yet.
    pub fn loads_on_open(&self, song_loaded: bool) -> (load: bool)
        ensures
            load == (!song_loaded && self.count > 0),
    {
        !song_loaded && self.count > 0
    }

    pub fn caption(&self) -> (caption: String)
        ensures
            caption@ == caption_of(self.count as nat),
    {
        if self.count == 0 {
            return String::from_str("FAVOURITES — none in ~/Music/MIDI/Favourites");
        }
        let mut caption = String::from_str("FAVOURITES — ");
        push_decimal(&mut caption, self.count as u64);
        caption.append(" songs · arrows + Enter · double-click to play");
        caption
    }

    /// Lays the list out: brings the highlight into the list, and measures the
    /// part of it that shows. Without songs, or in a window too small to hold one
    /// row of it, nothing is drawn.
    ///
    /// Anything past the viewport is reachable by scrolling, so rows make way for
    /// the scroll bar only when there is something to scroll to.
    pub fn favourites_list_ui(&mut self, area: ListArea) -> (viewport: Option<Viewport>)
        ensures
            final(self).wf(),
            final(self).count == old(self).count,
            final(self).reveal == old(self).reveal,
            final(self).last_click == old(self).last_click,
            final(self).selected == (if 0 < old(self).count && old(self).count
                <= old(self).selected {
                old(self).count - 1
            } else {
                old(self).selected as int
            }),
            viewport is Some <==> old(self).count > 0 && area.has_room(),
            viewport is Some ==> ({
                let view = viewport->0;
                let content = old(self).count * ROW_PITCH;
                &&& view.top == area.view_top()
                &&& view.h == area.view_h()
                &&& view.scroll_max == (if content > view.h {
                    content - view.h
                } else {
                    0
                })
                &&& view.row_w == (if content > view.h {
                    area.w - SCROLLBAR_W
                } else {
                    area.w as int
                })
            }),
    {
        if self.count == 0 {
            return None;
        }
        if self.selected >= self.count {
            self.selected = self.count - 1;
        }
        let top: i64 = area.top as i64 + CAPTION_H as i64;
        let h: i64 = area.win_h as i64 - BOTTOM_RESERVED as i64 - top;
        if h < ROW_H as i64 || top < 0 || area.x < 0 || area.x as i64 + area.w as i64
            > area.win_w as i64 {
            return None;
        }
        let content: i128 = self.count as i128 * ROW_PITCH as i128;
        if content > h as i128 {
            let row_w: i64 = area.w as i64 - SCROLLBAR_W as i64;
            Some(Viewport { top, h, scroll_max: content - h as i128, row_w })
        } else {
            Some(Viewport { top, h, scroll_max: 0, row_w: area.w as i64 })
        }
    }

    /// Where the list is scrolled to, now that the height that shows is known: a
    /// pending move of the highlight is brought into view.
    pub fn reveal_selected(&mut self, scroll: i128, view_h: i64) -> (to: i128)
        ensures
            *final(self) == (Favourites { reveal: false, ..*old(self) }),
            to == (if old(self).reveal {
                revealed(old(self).selected as int, scroll as int, view_h as int)
            } else {
                scroll as int
            }),
    {
        if !self.reveal {
            return scroll;
        }
        self.reveal = false;
        let row_top: i128 = self.selected as i128 * ROW_PITCH as i128;
        let up: i128 = if row_top < scroll {
            row_top
        } else {
            scroll
        };
        let down: i128 = row_top + ROW_H as i128 - view_h as i128;
        if down > up {
            down
        } else {
            up
        }
    }

    /// The rows that show when the list is scrolled by `scroll`: from the first up
    /// to but not including the second.
    pub fn visible_rows(&self, scroll: i128, view_h: i64) -> (rows: (usize, usize))
        requires
            i128::MIN <= scroll + view_h <= i128::MAX,
        ensures
            rows.0 <= self.count,
            rows.1 <= self.count,
            forall|row: int|
                0 <= row < self.count ==> (rows.0 <= row < rows.1 <==> #[trigger] overlaps(
                    row,
                    scroll as int,
                    view_h as int,
                )),
    {
        let pitch: i128 = ROW_PITCH as i128;
        let count: i128 = self.count as i128;
        let first: usize = if scroll < 0 {
            0
        } else if scroll / pitch > count {
            self.count
        } else {
            (scroll / pitch) as usize
        };
        let end: i128 = scroll + view_h as i128;
        let last: usize = if end <= 0 {
            0
        } else if (end - 1) / pitch >= count {
            self.count
        } else {
            ((end - 1) / pitch + 1) as usize
        };
        assert forall|row: int| 0 <= row < self.count implies (first <= row < last
            <==> #[trigger] overlaps(row, scroll as int, view_h as int)) by {
            if end > 0 {
                assert(row <= (end - 1) / 34_000 <==> row * 34_000 < end);
            }
            if scroll >= 0 {
                assert(scroll / 34_000 <= row <==> scroll < (row + 1) * 34_000);
            }
        }
        (first, last)
    }

    /// A row was clicked.
    pub fn click(&mut self, row: usize, now: u64, song_loaded: bool) -> (click: Click)
        ensures
            *final(self) == old(self).after_click(row, now, song_loaded),
            click == (Click {
                load: row != old(self).selected || !song_loaded,
                play: old(self).is_double(row, now),
            }),
    {
        let double = match self.last_click {
            Some((last, at)) => last == row && (now < at || now - at <= DOUBLE_CLICK),
            None => false,
        };
        let load = row != self.selected || !song_loaded;
        if load {
            self.selected = row;
        }
        self.last_click = if double {
            None
        } else {
            Some((row, now))
        };
        Click { load, play: double }
    }

    /// Arrow-key navigation: moves the highlight. Returns whether that song is to
    /// be loaded.
    ///
    /// The highlight is scrolled back into view even when it did not move:
    /// otherwise an arrow press after wheeling away appears to do nothing.
    pub fn favourites_move(&mut self, delta: i32, song_loaded: bool) -> (load: bool)
        ensures
            load == (old(self).count > 0 && (old(self).moved(delta as int) != old(self).selected
                || !song_loaded)),
            *final(self) == (if old(self).count == 0 {
                *old(self)
            } else {
                Favourites {
                    selected: old(self).moved(delta as int) as usize,
                    reveal: true,
                    ..*old(self)
                }
            }),
    {
        if self.count == 0 {
            return false;
        }
        let to: i128 = self.selected as i128 + delta as i128;
        let next: usize = if to < 0 {
            0
        } else if to > self.count as i128 - 1 {
            self.count - 1
        } else {
            to as usize
        };
        self.reveal = true;
        let load = next != self.selected || !song_loaded;
        self.selected = next;
        load
    }
}

/// Whether a row, with the gap below it, shows in a list that is scrolled by
/// `scroll`.
pub open spec fn overlaps(row: int, scroll: int, view_h: int) -> bool {
    row * ROW_PITCH < scroll + view_h && scroll < (row + 1) * ROW_PITCH
}

/// How a row looks; the alpha is in hundredths.
#[derive(Debug, Clone, Copy, PartialEq, Eq)]
pub struct RowLook {
    pub background: (u8, u8, u8),
    pub alpha: u8,
    /// The highlighted row has a mark on its left.
    pub mark: bool,
    pub text: (u8, u8, u8),
}

/// How a row looks.
pub fn favourite_row_look(selected: bool, hovered: bool) -> (look: RowLook)
    ensures
        look == (if selected {
            RowLook { background: (56, 145, 255), alpha: 85, mark: true, text: (255, 255, 255) }
        } else if hovered {
            RowLook { background: (60, 60, 60), alpha: 60, mark: false, text: (205, 205, 205) }
        } else {
            RowLook { background: (17, 17, 17), alpha: 55, mark: false, text: (205, 205, 205) }
        }),
{
    if selected {
        RowLook { background: (56, 145, 255), alpha: 85, mark: true, text: (255, 255, 255) }
    } else if hovered {
        RowLook { background: (60, 60, 60), alpha: 60, mark: false, text: (205, 205, 205) }
    } else {
        RowLook { background: (17, 17, 17), alpha: 55, mark: false, text: (205, 205, 205) }
    }
}

/// What a row reads.
pub fn favourite_row_name(stem: Option<&str>) -> (name: String)
    ensures
        name@ == (match stem {
            Some(stem) => stem@,
            None => "(unreadable name)"@,
        }),
{
    match stem {
        Some(stem) => String::from_str(stem),
        None => String::from_str("(unreadable name)"),
    }
}

/// The highlight stays in the list, wherever it is moved and whichever row is
/// clicked.
pub proof fn law_highlight_stays_in_the_list(
    list: Favourites,
    delta: int,
    row: usize,
    now: u64,
    loaded: bool,
)
    requires
        list.wf(),
        row < list.count,
    ensures
        0 <= list.moved(delta) < list.count,
        list.after_click(row, now, loaded).wf(),
{
}

/// A click right after a double-click starts a fresh pair rather than counting as
/// another double.
pub proof fn law_third_click_is_not_double(
    list: Favourites,
    row: usize,
    first: u64,
    second: u64,
    third: u64,
    loaded: bool,
)
    requires
        list.last_click is None,
        elapsed(second, first) <= DOUBLE_CLICK,
    ensures
        ({
            let once = list.after_click(row, first, loaded);
            let twice = once.after_click(row, second, loaded);
            !list.is_double(row, first) && once.is_double(row, second) && !twice.is_double(
                row,
                third,
            )
        }),
{
}

/// Once the highlight was brought into view, its whole row shows, in any list
/// that is tall enough for a row.
pub proof fn law_revealed_row_shows(selected: int, scroll: int, view_h: int)
    requires
        view_h >= ROW_H,
    ensures
        ({
            let to = revealed(selected, scroll, view_h);
            &&& to <= selected * ROW_PITCH
            &&& selected * ROW_PITCH + ROW_H <= to + view_h
            &&& overlaps(selected, to, view_h)
        }),
{
}

/// Two clicks on one row at most 400 ms apart are a double-click; on two rows, or further
/// apart, they are not.
pub proof fn law_when_two_clicks_are_one(
    list: Favourites,
    row: usize,
    then: u64,
    clicked: usize,
    now: u64,
)
    requires
        list.last_click == Some((row, then)),
        then <= now,
    ensures
        list.is_double(clicked, now) <==> clicked == row && now - then <= 400_000_000,
        !(Favourites { last_click: None, ..list }).is_double(clicked, now),
{
}

/// A click highlights its row and changes nothing else of the list; a double-click is
/// forgotten, any other remembered.
pub proof fn law_a_click_highlights_its_row(
    list: Favourites,
    row: usize,
    now: u64,
    loaded: bool,
)
    ensures
        list.after_click(row, now, loaded).selected == row,
        list.after_click(row, now, loaded).count == list.count,
        list.after_click(row, now, loaded).reveal == list.reveal,
        list.is_double(row, now) ==> list.after_click(row, now, loaded).last_click is None,
        !list.is_double(row, now) ==> list.after_click(row, now, loaded).last_click == Some(
            (row, now),
        ),
{
}

/// The highlight moves by as many rows as asked, up to the ends of the list.
pub proof fn law_the_highlight_moves_as_asked(list: Favourites, delta: int)
    requires
        list.wf(),
        list.count > 0,
    ensures
        0 <= list.selected + delta < list.count ==> list.moved(delta) == list.selected + delta,
        list.selected + delta < 0 ==> list.moved(delta) == 0,
        list.selected + delta >= list.count ==> list.moved(delta) == list.count - 1,
{
}

/// A list is scrolled no further than needed to show a row: not at all where the row
/// shows already, else until it is the first or the last to show. A row is 30 pixels high
/// and they come every 34.
pub proof fn law_scrolling_no_further_than_needed(row: int, scroll: int, view_h: int)
    requires
        view_h >= 30_000,
    ensures
        ({
            let top = 34_000 * row;
            let to = revealed(row, scroll, view_h);
            &&& scroll <= top && top + 30_000 <= scroll + view_h ==> to == scroll
            &&& top < scroll ==> to == top
            &&& top + 30_000 > scroll + view_h ==> to + view_h == top + 30_000
        }),
{
}

/// A row shows when any of the 34 pixels that it takes up does.
pub proof fn law_which_rows_show(row: int, scroll: int, view_h: int, y: int)
    requires
        0 <= y < view_h,
    ensures
        34_000 * row <= scroll + y < 34_000 * (row + 1) ==> overlaps(row, scroll, view_h),
        overlaps(row, scroll, view_h) ==> 34_000 * row < scroll + view_h && scroll < 34_000 * (row
            + 1),
{
}

/// The rows have the space from 18 pixels under the top of the list, where its caption is,
/// to 92 pixels above the bottom of the window; the list shows where one row fits there
/// and the window is wide enough.
pub proof fn law_the_room_for_the_rows(area: ListArea)
    ensures
        area.view_top() == area.top + 18_000,
        area.view_top() + area.view_h() + 92_000 == area.win_h,
        area.has_room() <==> area.view_h() >= 30_000 && area.view_top() >= 0 && area.x >= 0
            && area.x + area.w <= area.win_w,
{
}

/// The words above the list: how many songs there are, or where to put some.
pub proof fn law_the_caption_counts_the_songs(count: nat)
    ensures
        caption_of(0) == "FAVOURITES — none in ~/Music/MIDI/Favourites"@,
        count > 0 ==> caption_of(count) == "FAVOURITES — "@ + decimal(count)
            + " songs · arrows + Enter · double-click to play"@,
{
}

/// Songs are listed once each, in alphabetical order without regard to capitals.
pub proof fn law_songs_are_listed_in_order(order: Seq<usize>, files: Seq<FolderFile>, m: int, k: int)
    requires
        lists_songs(order, files),
        0 <= m < k < order.len(),
    ensures
        order[m] != order[k],
        files[order[m] as int].is_song(),
        files[order[m] as int].extension is Some,
        !precedes(
            files[order[k] as int].key(),
            files[order[m] as int].key(),
        ),
{
    let keys = keys_of_files(files);
    assert(listed_before(keys, order[m] as int, order[k] as int));
    lemma_before_is_not_after(
        files[order[m] as int].key(),
        files[order[k] as int].key(),
    );
}

proof fn lemma_before_is_not_after(a: Seq<char>, b: Seq<char>)
    ensures
        !(precedes(a, b) && precedes(b, a)),
        !precedes(a, a),
    decreases a.len(),
{
    if a.len() > 0 {
        lemma_before_is_not_after(a.skip(1), if b.len() > 0 {
            b.skip(1)
        } else {
            b
        });
    }
}

/// A file of a folder is listed exactly when it is a song.
pub proof fn law_only_songs_are_listed(order: Seq<usize>, files: Seq<FolderFile>, i: usize)
    requires
        lists_songs(order, files),
    ensures
        order.contains(i) <==> i < files.len() && files[i as int].is_song(),
{
}

/// A file is a song by its extension, and is sorted by its name in small letters.
pub proof fn law_what_a_song_is(file: FolderFile)
    ensures
        file.extension is None ==> !file.is_song(),
        file.extension is Some ==> (file.is_song() <==> midi_extension(file.extension->0@)),
        file.name is Some ==> file.key() == lowercased(file.name->0@),
        file.name is None ==> file.key().len() == 0,
{
}

} // verus!
