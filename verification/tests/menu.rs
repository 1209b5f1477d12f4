use keyboard_hero::favourites::{
    favourite_row_look, favourite_row_name, scan_favourites, Click, Favourites, FolderFile,
    ListArea,
};
use keyboard_hero::menu::{
    exit_page_ui, main_column, main_page_ui, main_ui, wheel_target, window_event, MainClicks,
    MenuAction, MenuEvent, MenuKey, MenuView, Page, Popup, WheelTarget,
};
use keyboard_hero::midi_file::{MidiFile, MidiNote, MidiTrack, TimeSignature};
use keyboard_hero::sfx::{CrowdCue, CrowdTracks};
use keyboard_hero::song::{PlayerConfig, Song, TrackConfig};
use keyboard_hero::tracks::{
    apply_row_event, listed_tracks, mic_row, more_tracks, parts_height, rows_event, track_row,
    track_rows, track_rows_height, truncate, RowClicks, RowEvent,
};

const MS: u64 = 1_000_000;

fn folder(names: &[&str]) -> Vec<FolderFile> {
    names
        .iter()
        .map(|name| FolderFile {
            name: Some(name.to_string()),
            extension: name.rsplit_once('.').map(|(_, ext)| ext.to_string()),
        })
        .collect()
}

#[test]
fn favourites_are_listed_alphabetically_whatever_their_case() {
    let files = folder(&["beta.mid", "ALPHA.MIDI", "notes.txt", "Gamma.Mid", "plain"]);
    assert_eq!(scan_favourites(&files), vec![1, 0, 3]);
    // Capital letters beyond ASCII count as letters too.
    let files = folder(&["Édith.mid", "éa.mid", "z.mid"]);
    assert_eq!(scan_favourites(&files), vec![2, 1, 0]);
}

#[test]
fn a_name_that_is_no_text_comes_first() {
    let files = vec![
        FolderFile {
            name: Some("a.mid".to_string()),
            extension: Some("mid".to_string()),
        },
        FolderFile {
            name: None,
            extension: Some("mid".to_string()),
        },
    ];
    assert_eq!(scan_favourites(&files), vec![1, 0]);
    assert_eq!(favourite_row_name(None), "(unreadable name)");
    assert_eq!(favourite_row_name(Some("Für Elise")), "Für Elise");
}

#[test]
fn the_highlight_stops_at_either_end() {
    let mut list = Favourites::new(3, Some(1));
    assert!(list.favourites_move(1, true));
    assert_eq!(list.selected, 2);
    assert!(!list.favourites_move(1, true));
    assert!(list.favourites_move(1, false), "nothing is loaded yet");
    assert!(list.favourites_move(-5, true));
    assert_eq!(list.selected, 0);
    assert!(list.reveal);
    let mut empty = Favourites::new(0, None);
    assert!(!empty.favourites_move(1, false));
    assert!(!empty.loads_on_open(false));
    assert!(list.loads_on_open(false));
    assert!(!list.loads_on_open(true));
}

#[test]
fn a_double_click_plays_and_a_third_does_not() {
    let mut list = Favourites::new(5, None);
    assert_eq!(
        list.click(2, 1_000 * MS, true),
        Click {
            load: true,
            play: false
        }
    );
    assert_eq!(
        list.click(2, 1_400 * MS, true),
        Click {
            load: false,
            play: true
        }
    );
    assert!(!list.click(2, 1_500 * MS, true).play);
    assert!(!list.click(2, 1_901 * MS, true).play, "too slow");
    assert!(!list.click(3, 1_902 * MS, true).play, "another row");
}

#[test]
fn the_caption_counts_songs() {
    assert_eq!(
        Favourites::new(0, None).caption(),
        "FAVOURITES — none in ~/Music/MIDI/Favourites"
    );
    assert_eq!(
        Favourites::new(12, None).caption(),
        "FAVOURITES — 12 songs · arrows + Enter · double-click to play"
    );
}

const AREA: ListArea = ListArea {
    x: 100_000,
    top: 200_000,
    w: 450_000,
    win_w: 1_000_000,
    win_h: 600_000,
};

#[test]
fn rows_make_way_for_a_scroll_bar_only_when_there_is_one() {
    let mut list = Favourites::new(5, None);
    let view = list.favourites_list_ui(AREA).unwrap();
    assert_eq!(view.top, 218_000);
    assert_eq!(view.h, 290_000);
    assert_eq!((view.scroll_max, view.row_w), (0, 450_000));
    let mut list = Favourites::new(100, None);
    let view = list.favourites_list_ui(AREA).unwrap();
    assert_eq!((view.scroll_max, view.row_w), (3_110_000, 436_000));
}

#[test]
fn a_list_without_room_is_not_drawn() {
    let mut list = Favourites::new(5, None);
    list.selected = 9;
    let small = ListArea {
        win_h: 339_000,
        ..AREA
    };
    assert!(list.favourites_list_ui(small).is_none());
    assert_eq!(list.selected, 4, "the highlight is brought into the list");
    let narrow = ListArea {
        win_w: 549_000,
        ..AREA
    };
    assert!(list.favourites_list_ui(narrow).is_none());
    assert!(Favourites::new(0, None).favourites_list_ui(AREA).is_none());
}

#[test]
fn a_move_scrolls_the_highlight_into_view() {
    let mut list = Favourites::new(100, Some(50));
    let view_h = 290_000;
    let to = list.reveal_selected(0, view_h);
    assert_eq!(to, 50 * 34_000 + 30_000 - 290_000);
    assert_eq!(list.visible_rows(to, view_h), (42, 51));
    // Once shown it stays where the wheel puts it.
    assert_eq!(list.reveal_selected(7, view_h), 7);
    list.reveal = true;
    assert_eq!(list.reveal_selected(3_000_000, view_h), 50 * 34_000);
    assert_eq!(list.visible_rows(-500_000, view_h), (0, 0));
    assert_eq!(list.visible_rows(34_000, 34_000), (1, 2));
}

#[test]
fn the_highlighted_row_stands_out() {
    let look = favourite_row_look(true, false);
    assert!(look.mark);
    assert_eq!(look.background, (56, 145, 255));
    assert_eq!(favourite_row_look(false, true).background, (60, 60, 60));
    assert_eq!(favourite_row_look(false, false).alpha, 55);
}

#[test]
fn a_popup_toggles() {
    let mut popup = Popup::default();
    popup.toggle(Popup::OutputSelector);
    assert_eq!(popup, Popup::OutputSelector);
    popup.toggle(Popup::InputSelector);
    assert_eq!(popup, Popup::InputSelector);
    popup.toggle(Popup::InputSelector);
    assert_eq!(popup, Popup::Closed);
    popup.toggle(Popup::OutputSelector);
    popup.close();
    assert_eq!(popup, Popup::Closed);
}

#[test]
fn keys_mean_what_their_page_says() {
    let press = |page, key| window_event(page, MenuEvent::KeyPressed(key));
    assert_eq!(press(Page::Exit, MenuKey::Enter), Some(MenuAction::Exit));
    assert_eq!(press(Page::Main, MenuKey::Enter), Some(MenuAction::Play));
    assert_eq!(press(Page::Settings, MenuKey::Enter), None);
    assert_eq!(
        press(Page::Main, MenuKey::ArrowUp),
        Some(MenuAction::MoveHighlight(-1))
    );
    assert_eq!(
        press(Page::Main, MenuKey::ArrowDown),
        Some(MenuAction::MoveHighlight(1))
    );
    assert_eq!(
        press(Page::Main, MenuKey::Character('s')),
        Some(MenuAction::GoTo(Page::Settings))
    );
    assert_eq!(
        press(Page::Main, MenuKey::Character('f')),
        Some(MenuAction::Freeplay)
    );
    assert_eq!(press(Page::Main, MenuKey::Character('x')), None);
    assert_eq!(
        press(Page::Main, MenuKey::Tab),
        Some(MenuAction::OpenFilePicker)
    );
    for page in [Page::Exit, Page::Main, Page::Settings] {
        assert_eq!(press(page, MenuKey::Escape), Some(MenuAction::GoBack));
        assert_eq!(
            window_event(page, MenuEvent::BackPressed),
            Some(MenuAction::GoBack)
        );
    }
    assert_eq!(
        window_event(Page::Main, MenuEvent::CursorMoved),
        Some(MenuAction::MouseMove)
    );
}

#[test]
fn the_wheel_scrolls_one_list_at_a_time() {
    assert_eq!(wheel_target(Page::Main, true), WheelTarget::Favourites);
    assert_eq!(wheel_target(Page::Main, false), WheelTarget::Settings);
    assert_eq!(wheel_target(Page::Settings, true), WheelTarget::Settings);
}

#[test]
fn loading_hides_the_page() {
    assert_eq!(main_ui(true, Page::Main), MenuView::Loading);
    assert_eq!(main_ui(false, Page::Exit), MenuView::Page(Page::Exit));
    assert_eq!(exit_page_ui(true, false), vec![MenuAction::GoBack]);
    assert_eq!(exit_page_ui(false, true), vec![MenuAction::Exit]);
}

#[test]
fn the_main_page_acts_on_its_buttons() {
    let clicks = MainClicks {
        select_file: true,
        settings: false,
        exit: false,
        freeplay: false,
        play: true,
    };
    assert_eq!(
        main_page_ui(clicks, true),
        vec![MenuAction::OpenFilePicker, MenuAction::Play]
    );
    assert_eq!(
        main_page_ui(clicks, false),
        vec![MenuAction::OpenFilePicker],
        "without a song there is nothing to play"
    );
}

#[test]
fn a_long_folder_scrolls_rather_than_pushing_the_menu_off_screen() {
    let column = main_column(800_000, 250_000, 9_000_000, 100_000);
    assert_eq!(column.list_h, 140_000);
    assert_eq!(250_000 + column.exit_y + 56_000, 800_000 - 92_000);
    let short = main_column(800_000, 250_000, 50_000, 0);
    assert_eq!(short.list_h, 50_000);
    assert_eq!(short.select_file_y, 66_000);
    let cramped = main_column(300_000, 250_000, 50_000, 0);
    assert_eq!(cramped.list_h, 0);
}

fn track(id: usize, notes: usize, drums: bool) -> MidiTrack {
    let note = MidiNote {
        start: 0,
        end: 1,
        duration: 1,
        note: 60,
        velocity: 1,
        channel: 0,
        track_id: id,
        track_color_id: id,
    };
    MidiTrack {
        notes: vec![note; notes],
        events: vec![],
        track_id: id,
        track_color_id: id,
        programs: vec![0, 1],
        has_drums: drums,
        has_other_than_drums: !drums,
    }
}

fn instruments() -> Vec<String> {
    vec!["Acoustic Grand Piano".to_string(), "Bright Piano".to_string()]
}

#[test]
fn a_row_says_what_its_track_is() {
    let schema = [(1, 2, 3), (4, 5, 6)];
    let config = TrackConfig {
        track_id: 3,
        player: PlayerConfig::Auto,
        visible: true,
    };
    let row = track_row(&track(3, 1931, false), &config, &schema, &instruments());
    assert_eq!(row.text, "Bright Piano · 1931 notes");
    assert_eq!(row.dot, (4, 5, 6));
    assert_eq!(row.auto.color, (70, 110, 190));
    assert_eq!(row.mute.color, (58, 54, 68));
    let muted = TrackConfig {
        player: PlayerConfig::Mute,
        visible: false,
        ..config
    };
    let row = track_row(&track(3, 2, true), &muted, &schema, &[]);
    assert_eq!(row.text, "Percussion · 2 notes");
    assert_eq!(row.dot, (102, 102, 102));
    assert_eq!(row.text_color, (120, 120, 120));
    assert_eq!(row.mute.color, (150, 60, 60));
}

#[test]
fn six_rows_are_listed_and_the_rest_counted() {
    let tracks: Vec<MidiTrack> = (0..9).map(|i| track(i, i % 4, false)).collect();
    let file = MidiFile {
        name: "x".to_string(),
        tracks,
        measures: vec![],
        time_signature: TimeSignature::default(),
    };
    let song = Song::new_all_auto(file);
    let listed = listed_tracks(&song.file.tracks);
    assert_eq!(listed, 6);
    let rows = track_rows(&song, &[(9, 9, 9)], &instruments());
    let ids: Vec<usize> = rows.iter().map(|row| row.track_id).collect();
    assert_eq!(ids, vec![1, 2, 3, 5, 6, 7]);
    assert_eq!(more_tracks(6), None);
    assert_eq!(more_tracks(9), Some("+3 more tracks".to_string()));
    assert_eq!(track_rows_height(0), 0);
    assert_eq!(track_rows_height(1), 38);
    assert_eq!(track_rows_height(6), 258);
    assert_eq!(track_rows_height(7), 282);
    assert_eq!(parts_height(0), 0);
    assert_eq!(parts_height(1), 72);
}

#[test]
fn one_click_hands_a_part_over_and_another_takes_it_back() {
    let file = MidiFile {
        name: "x".to_string(),
        tracks: vec![track(0, 1, false)],
        measures: vec![],
        time_signature: TimeSignature::default(),
    };
    let mut config = Song::new_all_auto(file).config;
    apply_row_event(&mut config, 0, RowEvent::ToggleAuto);
    assert_eq!(config.tracks[0].player, PlayerConfig::Human);
    apply_row_event(&mut config, 0, RowEvent::ToggleMute);
    assert_eq!(config.tracks[0].player, PlayerConfig::Mute);
    apply_row_event(&mut config, 0, RowEvent::ToggleMute);
    assert_eq!(config.tracks[0].player, PlayerConfig::Human);
    apply_row_event(&mut config, 0, RowEvent::ToggleVisible);
    assert!(!config.tracks[0].visible);
}

#[test]
fn the_lowest_row_that_was_clicked_counts() {
    let none = RowClicks {
        dot: false,
        auto: false,
        mute: false,
    };
    let dot = RowClicks { dot: true, ..none };
    let both = RowClicks {
        auto: true,
        mute: true,
        ..none
    };
    assert_eq!(rows_event(&[none, none]), None);
    assert_eq!(
        rows_event(&[dot, both, none]),
        Some((1, RowEvent::ToggleMute))
    );
    assert_eq!(rows_event(&[dot, none]), Some((0, RowEvent::ToggleVisible)));
}

#[test]
fn long_reasons_are_cut_at_characters() {
    assert_eq!(truncate("abc", 3), "abc");
    assert_eq!(truncate("äbcd", 3), "äb…");
    assert_eq!(truncate("abc", 1), "…");
    assert_eq!(truncate("abc", 0), "");
    assert_eq!(truncate("", 0), "");
}

#[test]
fn the_microphone_row_says_what_it_is_doing() {
    let row = mic_row(true, None);
    assert_eq!(row.title, "Microphone passthrough");
    assert_eq!(row.status, "ON");
    assert!(row.meter);
    let row = mic_row(false, Some("the device is in use by somebody else"));
    assert_eq!(
        row.title,
        "Microphone passthrough · the device is in use by somebody …"
    );
    assert_eq!(row.status, "UNAVAILABLE");
    assert_eq!(mic_row(false, None).status, "OFF");
}

fn stems(names: &[&str]) -> Vec<Option<String>> {
    names.iter().map(|name| Some(name.to_string())).collect()
}

#[test]
fn crowd_scan_maps_suffixes_to_bands() {
    let files = stems(&["boo_F", "cheer_A", "wild_A", "claps_B", "song_AB", "A", "hum_D"]);
    let tracks = CrowdTracks::scan(&files);
    let mut answered = 0;
    for band in ["A", "B", "C", "D", "F"] {
        if let CrowdCue::Play(file) = tracks.crowd(band) {
            let stem = files[file].as_ref().unwrap();
            assert!(
                stem.ends_with(&format!("_{band}")),
                "{stem:?} mapped to band {band}"
            );
            answered += 1;
        }
    }
    assert_eq!(answered, 4);
}

#[test]
fn the_crowd_answers_by_suffix() {
    let mut files = stems(&["boo_F", "cheer_A", "wild_A", "claps_B", "song_AB", "A"]);
    files.insert(0, None);
    let tracks = CrowdTracks::scan(&files);
    assert_eq!(tracks.crowd("A++"), CrowdCue::Play(2));
    assert_eq!(tracks.crowd("B-"), CrowdCue::Play(4));
    assert_eq!(tracks.crowd("F"), CrowdCue::Play(1));
    assert_eq!(tracks.crowd("C"), CrowdCue::NoTrack('C'));
    assert_eq!(tracks.crowd("E"), CrowdCue::NoTrack('E'));
    assert_eq!(tracks.crowd(""), CrowdCue::Silent);
}
