//! The main menu: its pages, what keys and buttons do, and how the main page is
//! laid out.
use vstd::prelude::*;

verus! {

/// A selector that is open over a page.
#[derive(Debug, Clone, Copy, PartialEq, Eq, Structural)]
pub enum Popup {
    Closed,
    OutputSelector,
    InputSelector,
}

impl Default for Popup {
    fn default() -> (popup: Self)
        ensures
            popup == Popup::Closed,
    {
        Popup::Closed
    }
}

impl Popup {
    /// Opens a selector, or closes it when it is the one that is open.
    pub fn toggle(&mut self, new: Self)
        ensures
            *final(self) == (if *old(self) == new {
                Popup::Closed
            } else {
                new
            }),
    {
        *self = if *self == new {
            Popup::Closed
        } else {
            new
        };
    }

    pub fn close(&mut self)
        ensures
            *final(self) == Popup::Closed,
    {
        *self = Popup::Closed;
    }
}

#[derive(Debug, Clone, Copy, PartialEq, Eq, Structural)]
pub enum Page {
    Exit,
    Main,
    Settings,
}

/// What is on screen.
#[derive(Debug, Clone, Copy, PartialEq, Eq, Structural)]
pub enum MenuView {
    /// A file is being read; nothing else shows.
    Loading,
    Page(Page),
}

/// The keys that mean something in the menu.
#[derive(Debug, Clone, Copy, PartialEq, Eq, Structural)]
pub enum MenuKey {
    Enter,
    Escape,
    Tab,
    ArrowUp,
    ArrowDown,
    Character(char),
}

/// What happens to the window.
#[derive(Debug, Clone, Copy, PartialEq, Eq, Structural)]
pub enum MenuEvent {
    CursorMoved,
    LeftPressed,
    LeftReleased,
    BackPressed,
    KeyPressed(MenuKey),
    Other,
}

/// What the menu does.
#[derive(Debug, Clone, Copy, PartialEq, Eq, Structural)]
pub enum MenuAction {
    /// Hand the pointer on to the widgets.
    MouseMove,
    MouseDown,
    MouseUp,
    GoBack,
    GoTo(Page),
    OpenFilePicker,
    MoveHighlight(i32),
    Play,
    Freeplay,
    Exit,
}

/// What a key does on a page.
pub open spec fn key_action(page: Page, key: MenuKey) -> Option<MenuAction> {
    match page {
        Page::Exit => match key {
            MenuKey::Enter => Some(MenuAction::Exit),
            MenuKey::Escape => Some(MenuAction::GoBack),
            _ => None,
        },
        Page::Main => match key {
            MenuKey::Tab => Some(MenuAction::OpenFilePicker),
            MenuKey::ArrowUp => Some(MenuAction::MoveHighlight((-1) as i32)),
            MenuKey::ArrowDown => Some(MenuAction::MoveHighlight(1)),
            MenuKey::Enter => Some(MenuAction::Play),
            MenuKey::Escape => Some(MenuAction::GoBack),
            MenuKey::Character(c) => if c == 's' {
                Some(MenuAction::GoTo(Page::Settings))
            } else if c == 'f' {
                Some(MenuAction::Freeplay)
            } else {
                None
            },
        },
        Page::Settings => match key {
            MenuKey::Escape => Some(MenuAction::GoBack),
            _ => None,
        },
    }
}

/// What the menu does about an event.
pub open spec fn event_action(page: Page, event: MenuEvent) -> Option<MenuAction> {
    match event {
        MenuEvent::CursorMoved => Some(MenuAction::MouseMove),
        MenuEvent::LeftPressed => Some(MenuAction::MouseDown),
        MenuEvent::LeftReleased => Some(MenuAction::MouseUp),
        MenuEvent::BackPressed => Some(MenuAction::GoBack),
        MenuEvent::KeyPressed(key) => key_action(page, key),
        MenuEvent::Other => None,
    }
}

fn press(page: Page, key: MenuKey) -> (action: Option<MenuAction>)
    ensures
        action == key_action(page, key),
{
    match page {
        Page::Exit => match key {
            MenuKey::Enter => Some(MenuAction::Exit),
            MenuKey::Escape => Some(MenuAction::GoBack),
            _ => None,
        },
        Page::Main => match key {
            MenuKey::Tab => Some(MenuAction::OpenFilePicker),
            MenuKey::ArrowUp => Some(MenuAction::MoveHighlight(-1)),
            MenuKey::ArrowDown => Some(MenuAction::MoveHighlight(1)),
            MenuKey::Enter => Some(MenuAction::Play),
            MenuKey::Escape => Some(MenuAction::GoBack),
            MenuKey::Character(c) => if c == 's' {
                Some(MenuAction::GoTo(Page::Settings))
            } else if c == 'f' {
                Some(MenuAction::Freeplay)
            } else {
                None
            },
        },
        Page::Settings => match key {
            MenuKey::Escape => Some(MenuAction::GoBack),
            _ => None,
        },
    }
}

/// What the menu does about an event, on the page that is shown.
pub fn window_event(page: Page, event: MenuEvent) -> (action: Option<MenuAction>)
    ensures
        action == event_action(page, event),
{
    match event {
        MenuEvent::CursorMoved => Some(MenuAction::MouseMove),
        MenuEvent::LeftPressed => Some(MenuAction::MouseDown),
        MenuEvent::LeftReleased => Some(MenuAction::MouseUp),
        MenuEvent::BackPressed => Some(MenuAction::GoBack),
        MenuEvent::KeyPressed(key) => press(page, key),
        MenuEvent::Other => None,
    }
}

/// What the mouse wheel scrolls.
#[derive(Debug, Clone, Copy, PartialEq, Eq, Structural)]
pub enum WheelTarget {
    Favourites,
    Settings,
}

/// The wheel scrolls the favourites while the pointer is over them on the main
/// page, and the settings otherwise: one list at a time.
pub fn wheel_target(page: Page, over_favourites: bool) -> (target: WheelTarget)
    ensures
        target == (if page == Page::Main && over_favourites {
            WheelTarget::Favourites
        } else {
            WheelTarget::Settings
        }),
{
    if page == Page::Main && over_favourites {
        WheelTarget::Favourites
    } else {
        WheelTarget::Settings
    }
}

/// What is on screen.
pub fn main_ui(loading: bool, page: Page) -> (view: MenuView)
    ensures
        view == (if loading {
            MenuView::Loading
        } else {
            MenuView::Page(page)
        }),
{
    if loading {
        MenuView::Loading
    } else {
        MenuView::Page(page)
    }
}

/// "Do you want to exit?": no goes back, yes exits.
pub fn exit_page_ui(no: bool, yes: bool) -> (actions: Vec<MenuAction>)
    ensures
        actions@ == (if no {
            seq![MenuAction::GoBack]
        } else {
            Seq::empty()
        }) + (if yes {
            seq![MenuAction::Exit]
        } else {
            Seq::empty()
        }),
{
    let mut actions: Vec<MenuAction> = Vec::new();
    if no {
        actions.push(MenuAction::GoBack);
    }
    if yes {
        actions.push(MenuAction::Exit);
    }
    assert(actions@ =~= (if no {
        seq![MenuAction::GoBack]
    } else {
        Seq::empty()
    }) + (if yes {
        seq![MenuAction::Exit]
    } else {
        Seq::empty()
    }));
    actions
}

/// How the column of the main page is laid out, in thousandths of a logical
/// pixel below the logo.
#[derive(Debug, Clone, Copy, PartialEq, Eq, Structural)]
pub struct MainColumn {
    /// The height of the favourites list.
    pub list_h: i64,
    pub tracks_y: i64,
    pub select_file_y: i64,
    pub settings_y: i64,
    pub exit_y: i64,
}

pub const BUTTON_H: i64 = 56_000;

pub const BUTTON_GAP: i64 = 10_000;

pub const LIST_GAP: i64 = 16_000;

pub const TRACKS_GAP: i64 = 14_000;

/// Space kept free for the bottom bar.
pub const BOTTOM_RESERVED: i64 = 92_000;

/// Room kept under the track rows, when there are any.
pub open spec fn tracks_gap(tracks_h: int) -> int {
    if tracks_h > 0 {
        TRACKS_GAP as int
    } else {
        0
    }
}

/// The room that is left for the favourites list when everything else has its
/// own.
pub open spec fn list_room(win_h: int, list_top: int, tracks_h: int) -> int {
    win_h - BOTTOM_RESERVED - (3 * BUTTON_H + 2 * BUTTON_GAP) - LIST_GAP - list_top - tracks_h
        - tracks_gap(tracks_h)
}

/// The height of the favourites list: what it asks for, as far as there is room.
pub open spec fn list_height(preferred_h: int, room: int) -> int {
    let most = if room < 0 {
        0
    } else {
        room
    };
    if preferred_h < most {
        preferred_h
    } else {
        most
    }
}

impl MainColumn {
    /// Whether this is the column for a window of height `win_h` in which the
    /// list begins at `list_top`.
    pub open spec fn fits(self, win_h: int, list_top: int, preferred_h: int, tracks_h: int) -> bool {
        &&& self.list_h == list_height(preferred_h, list_room(win_h, list_top, tracks_h))
        &&& self.tracks_y == self.list_h + LIST_GAP
        &&& self.select_file_y == self.tracks_y + tracks_h + tracks_gap(tracks_h)
        &&& self.settings_y == self.select_file_y + BUTTON_H + BUTTON_GAP
        &&& self.exit_y == self.settings_y + BUTTON_H + BUTTON_GAP
    }
}

/// Lays out the main page: favourites, track rows and three buttons.
///
/// The favourites take only the room they need, capped at what is left once the
/// others have theirs, so that a long folder scrolls rather than pushing the menu
/// off screen. The track rows have first claim on the room.
pub fn main_column(win_h: i32, list_top: i32, preferred_h: i32, tracks_h: i32) -> (column:
    MainColumn)
    ensures
        column.fits(win_h as int, list_top as int, preferred_h as int, tracks_h as int),
{
    let gap: i64 = if tracks_h > 0 {
        TRACKS_GAP
    } else {
        0
    };
    let buttons_h: i64 = 3 * BUTTON_H + 2 * BUTTON_GAP;
    let room: i64 = win_h as i64 - BOTTOM_RESERVED - buttons_h - LIST_GAP - list_top as i64
        - tracks_h as i64 - gap;
    let most: i64 = if room < 0 {
        0
    } else {
        room
    };
    let list_h: i64 = if (preferred_h as i64) < most {
        preferred_h as i64
    } else {
        most
    };
    let tracks_y: i64 = list_h + LIST_GAP;
    let select_file_y: i64 = tracks_y + tracks_h as i64 + gap;
    let settings_y: i64 = select_file_y + BUTTON_H + BUTTON_GAP;
    MainColumn {
        list_h,
        tracks_y,
        select_file_y,
        settings_y,
        exit_y: settings_y + BUTTON_H + BUTTON_GAP,
    }
}

/// The buttons of the main page that were clicked.
#[derive(Debug, Clone, Copy, PartialEq, Eq, Structural)]
pub struct MainClicks {
    pub select_file: bool,
    pub settings: bool,
    pub exit: bool,
    pub freeplay: bool,
    pub play: bool,
}

/// One action, where it is asked for.
pub open spec fn when(asked: bool, action: MenuAction) -> Seq<MenuAction> {
    if asked {
        seq![action]
    } else {
        Seq::empty()
    }
}

/// What the buttons of the main page do. Without a song there is no play button.
pub open spec fn main_actions(clicks: MainClicks, song_loaded: bool) -> Seq<MenuAction> {
    when(clicks.select_file, MenuAction::OpenFilePicker) + when(
        clicks.settings,
        MenuAction::GoTo(Page::Settings),
    ) + when(clicks.exit, MenuAction::GoBack) + when(clicks.freeplay, MenuAction::Freeplay) + when(
        clicks.play && song_loaded,
        MenuAction::Play,
    )
}

fn push_when(actions: &mut Vec<MenuAction>, asked: bool, action: MenuAction)
    ensures
        final(actions)@ == old(actions)@ + when(asked, action),
{
    if asked {
        actions.push(action);
    }
    assert(final(actions)@ =~= old(actions)@ + when(asked, action));
}

/// What the buttons of the main page do.
pub fn main_page_ui(clicks: MainClicks, song_loaded: bool) -> (actions: Vec<MenuAction>)
    ensures
        actions@ == main_actions(clicks, song_loaded),
{
    let mut actions: Vec<MenuAction> = Vec::new();
    push_when(&mut actions, clicks.select_file, MenuAction::OpenFilePicker);
    push_when(&mut actions, clicks.settings, MenuAction::GoTo(Page::Settings));
    push_when(&mut actions, clicks.exit, MenuAction::GoBack);
    push_when(&mut actions, clicks.freeplay, MenuAction::Freeplay);
    push_when(&mut actions, clicks.play && song_loaded, MenuAction::Play);
    assert(actions@ =~= main_actions(clicks, song_loaded));
    actions
}

/// Wherever the three buttons have room beside the bottom bar, the favourites do
/// not push the last of them into it.
pub proof fn law_buttons_stay_above_the_bottom_bar(
    column: MainColumn,
    win_h: int,
    list_top: int,
    preferred_h: int,
    tracks_h: int,
)
    requires
        column.fits(win_h, list_top, preferred_h, tracks_h),
        list_room(win_h, list_top, tracks_h) >= 0,
    ensures
        list_top + column.exit_y + BUTTON_H <= win_h - BOTTOM_RESERVED,
{
}

/// Escape goes back, on every page.
pub proof fn law_escape_goes_back(page: Page)
    ensures
        key_action(page, MenuKey::Escape) == Some(MenuAction::GoBack),
{
}

/// What the keys do on the main page: the arrows move the highlight by a row, Enter plays,
/// Tab opens a file, S the settings and F free play; on the exit page Enter leaves the
/// program; and nothing but Escape does anything on the settings page.
pub proof fn law_what_the_keys_do_in_the_menu(key: MenuKey)
    ensures
        key_action(Page::Main, MenuKey::ArrowUp) == Some(MenuAction::MoveHighlight((-1) as i32)),
        key_action(Page::Main, MenuKey::ArrowDown) == Some(MenuAction::MoveHighlight(1)),
        key_action(Page::Main, MenuKey::Enter) == Some(MenuAction::Play),
        key_action(Page::Main, MenuKey::Tab) == Some(MenuAction::OpenFilePicker),
        key_action(Page::Main, MenuKey::Character('s')) == Some(MenuAction::GoTo(Page::Settings)),
        key_action(Page::Main, MenuKey::Character('f')) == Some(MenuAction::Freeplay),
        forall|c: char|
            c != 's' && c != 'f' ==> #[trigger] key_action(Page::Main, MenuKey::Character(c))
                is None,
        key_action(Page::Exit, MenuKey::Enter) == Some(MenuAction::Exit),
        key != MenuKey::Enter && key != MenuKey::Escape ==> key_action(Page::Exit, key) is None,
        key != MenuKey::Escape ==> key_action(Page::Settings, key) is None,
{
}

/// The pointer is handed on, and the back button goes back, on every page.
pub proof fn law_the_pointer_is_handed_on(page: Page, key: MenuKey)
    ensures
        event_action(page, MenuEvent::CursorMoved) == Some(MenuAction::MouseMove),
        event_action(page, MenuEvent::LeftPressed) == Some(MenuAction::MouseDown),
        event_action(page, MenuEvent::LeftReleased) == Some(MenuAction::MouseUp),
        event_action(page, MenuEvent::BackPressed) == Some(MenuAction::GoBack),
        event_action(page, MenuEvent::KeyPressed(key)) == key_action(page, key),
        event_action(page, MenuEvent::Other) is None,
{
}

/// The parts of the main page stand under each other without overlapping, 16 pixels under
/// the list, 14 under the track rows where there are any, and 10 between the buttons,
/// which are 56 high. The list is as high as it asks to be, as long as the last button
/// stays 92 pixels above the bottom, and takes up the room exactly where it does not.
pub proof fn law_how_the_main_page_is_laid_out(
    column: MainColumn,
    win_h: int,
    list_top: int,
    preferred_h: int,
    tracks_h: int,
)
    requires
        column.fits(win_h, list_top, preferred_h, tracks_h),
        preferred_h >= 0,
        tracks_h >= 0,
    ensures
        column.tracks_y == column.list_h + 16_000,
        tracks_h > 0 ==> column.select_file_y == column.tracks_y + tracks_h + 14_000,
        tracks_h == 0 ==> column.select_file_y == column.tracks_y,
        column.settings_y == column.select_file_y + 66_000,
        column.exit_y == column.settings_y + 66_000,
        0 <= column.list_h <= preferred_h,
        column.list_h < preferred_h && column.list_h > 0 ==> list_top + column.exit_y + 56_000
            == win_h - 92_000,
        column.list_h == 0 && preferred_h > 0 ==> list_top + column.exit_y + 56_000 >= win_h
            - 92_000,
{
}

/// What the buttons of the main page ask for, in order; without a song nothing plays.
pub proof fn law_what_the_buttons_ask_for(clicks: MainClicks, song_loaded: bool)
    ensures
        ({
            let actions = main_actions(clicks, song_loaded);
            &&& actions.contains(MenuAction::OpenFilePicker) <==> clicks.select_file
            &&& actions.contains(MenuAction::GoTo(Page::Settings)) <==> clicks.settings
            &&& actions.contains(MenuAction::GoBack) <==> clicks.exit
            &&& actions.contains(MenuAction::Freeplay) <==> clicks.freeplay
            &&& actions.contains(MenuAction::Play) <==> clicks.play && song_loaded
        }),
{
    let a = when(clicks.select_file, MenuAction::OpenFilePicker);
    let b = when(clicks.settings, MenuAction::GoTo(Page::Settings));
    let c = when(clicks.exit, MenuAction::GoBack);
    let d = when(clicks.freeplay, MenuAction::Freeplay);
    let e = when(clicks.play && song_loaded, MenuAction::Play);
    let actions = main_actions(clicks, song_loaded);
    assert(actions == a + b + c + d + e);
    if clicks.select_file {
        assert(actions[0] == MenuAction::OpenFilePicker);
    }
    if clicks.settings {
        assert(actions[a.len() as int] == MenuAction::GoTo(Page::Settings));
    }
    if clicks.exit {
        assert(actions[(a.len() + b.len()) as int] == MenuAction::GoBack);
    }
    if clicks.freeplay {
        assert(actions[(a.len() + b.len() + c.len()) as int] == MenuAction::Freeplay);
    }
    if clicks.play && song_loaded {
        assert(actions[(a.len() + b.len() + c.len() + d.len()) as int] == MenuAction::Play);
    }
    assert forall|k: int| 0 <= k < actions.len() implies {
        let it = #[trigger] actions[k];
        ||| (clicks.select_file && it == MenuAction::OpenFilePicker)
        ||| (clicks.settings && it == MenuAction::GoTo(Page::Settings))
        ||| (clicks.exit && it == MenuAction::GoBack)
        ||| (clicks.freeplay && it == MenuAction::Freeplay)
        ||| (clicks.play && song_loaded && it == MenuAction::Play)
    } by {
        if k < a.len() {
            assert(actions[k] == a[k]);
        } else if k < a.len() + b.len() {
            assert(actions[k] == b[k - a.len()]);
        } else if k < a.len() + b.len() + c.len() {
            assert(actions[k] == c[k - a.len() - b.len()]);
        } else if k < a.len() + b.len() + c.len() + d.len() {
            assert(actions[k] == d[k - a.len() - b.len() - c.len()]);
        } else {
            assert(actions[k] == e[k - a.len() - b.len() - c.len() - d.len()]);
        }
    }
}

} // verus!
