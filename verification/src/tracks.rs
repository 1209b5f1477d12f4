//! The parts of a song on the main menu, and the microphone row under them.
//!
//! Hand a part to **Auto** and the app performs it while you keep the rest,
//! **Mute** it to silence it, or click its colour to stop it being drawn. A row
//! with neither button lit is yours to play.
use vstd::prelude::*;
use vstd::string::*;

use crate::midi_file::MidiTrack;
use crate::song::{PlayerConfig, Song, SongConfig, TrackConfig};
use crate::text::{decimal, push_decimal};

verus! {

/// One track's row, and what lies around the rows, in logical pixels.
pub const ROW_H: u32 = 38;

pub const ROW_GAP: u32 = 6;

/// Rows listed, so that a long arrangement cannot run off the screen. The rest
/// are counted in a line underneath.
pub const MAX_ROWS: usize = 6;

/// The line that counts the rest.
pub const MORE_H: u32 = 18;

/// Caption above the rows.
pub const CAPTION_H: u32 = 20;

/// Between the parts and the microphone row under them.
pub const SECTION_GAP: u32 = 14;

/// A colour.
pub type Rgb = (u8, u8, u8);

/// The tracks worth listing among the first `n`: the ones with notes in them.
pub open spec fn listed(tracks: Seq<MidiTrack>, n: int) -> Seq<int>
    decreases n,
{
    if n <= 0 {
        Seq::empty()
    } else if tracks[n - 1].notes@.len() > 0 {
        listed(tracks, n - 1).push(n - 1)
    } else {
        listed(tracks, n - 1)
    }
}

/// The tracks that have a row of their own.
pub open spec fn shown(tracks: Seq<MidiTrack>) -> Seq<int> {
    let all = listed(tracks, tracks.len() as int);
    if all.len() > MAX_ROWS {
        all.take(MAX_ROWS as int)
    } else {
        all
    }
}

proof fn lemma_listed(tracks: Seq<MidiTrack>, n: int)
    requires
        0 <= n <= tracks.len(),
    ensures
        listed(tracks, n).len() <= n,
        forall|k: int|
            0 <= k < listed(tracks, n).len() ==> 0 <= #[trigger] listed(tracks, n)[k] < n
                && tracks[listed(tracks, n)[k]].notes@.len() > 0,
    decreases n,
{
    if n > 0 {
        lemma_listed(tracks, n - 1);
    }
}

/// Shown rows stay as they are when more tracks are looked at.
proof fn lemma_listed_grows(tracks: Seq<MidiTrack>, n: int, m: int)
    requires
        0 <= n <= m <= tracks.len(),
    ensures
        listed(tracks, n).len() <= listed(tracks, m).len(),
        listed(tracks, m).take(listed(tracks, n).len() as int) == listed(tracks, n),
    decreases m - n,
{
    if n < m {
        lemma_listed_grows(tracks, n, m - 1);
        let size = listed(tracks, n).len() as int;
        assert(listed(tracks, m).take(size) =~= listed(tracks, m - 1).take(size));
    } else {
        assert(listed(tracks, m).take(listed(tracks, n).len() as int) =~= listed(tracks, n));
    }
}

/// How many tracks are worth listing.
pub fn listed_tracks(tracks: &[MidiTrack]) -> (count: usize)
    ensures
        count == listed(tracks@, tracks@.len() as int).len(),
{
    let mut count: usize = 0;
    let mut n: usize = 0;
    while n < tracks.len()
        invariant
            n <= tracks@.len(),
            count <= n,
            count == listed(tracks@, n as int).len(),
        decreases tracks@.len() - n,
    {
        if tracks[n].notes.len() > 0 {
            count = count + 1;
        }
        n = n + 1;
    }
    count
}

/// How tall the rows come out.
pub open spec fn rows_height(count: int) -> int {
    if count == 0 {
        0
    } else if count > MAX_ROWS {
        MAX_ROWS * (ROW_H + ROW_GAP) + MORE_H
    } else {
        (count - 1) * (ROW_H + ROW_GAP) + ROW_H
    }
}

/// How tall the rows come out, so that what sits under them knows where to start:
/// rows on a pitch, and the line that counts the rest where one more row would
/// go.
pub fn track_rows_height(count: usize) -> (height: u32)
    ensures
        height == rows_height(count as int),
{
    if count == 0 {
        0
    } else if count > MAX_ROWS {
        MAX_ROWS as u32 * (ROW_H + ROW_GAP) + MORE_H
    } else {
        (count - 1) as u32 * (ROW_H + ROW_GAP) + ROW_H
    }
}

/// Where the microphone section starts. With no parts to list it rides up to the
/// top in their place.
pub fn parts_height(count: usize) -> (height: u32)
    ensures
        height == (if count > 0 {
            CAPTION_H + rows_height(count as int) + SECTION_GAP
        } else {
            0
        }),
{
    if count > 0 {
        CAPTION_H + track_rows_height(count) + SECTION_GAP
    } else {
        0
    }
}

/// Says what is not being shown, rather than quietly cutting it off.
pub fn more_tracks(count: usize) -> (line: Option<String>)
    ensures
        line is Some <==> count > MAX_ROWS,
        line is Some ==> line->0@ == "+"@ + decimal((count - MAX_ROWS) as nat) + " more tracks"@,
{
    if count <= MAX_ROWS {
        return None;
    }
    let mut line = String::from_str("+");
    push_decimal(&mut line, (count - MAX_ROWS) as u64);
    line.append(" more tracks");
    Some(line)
}

/// What is asked of a row.
#[derive(Debug, Clone, Copy, PartialEq, Eq, Structural)]
pub enum RowEvent {
    ToggleVisible,
    ToggleAuto,
    ToggleMute,
}

/// What was clicked in a row.
#[derive(Debug, Clone, Copy, PartialEq, Eq, Structural)]
pub struct RowClicks {
    pub dot: bool,
    pub auto: bool,
    pub mute: bool,
}

impl RowClicks {
    /// What the clicks ask for; the button further right goes before.
    pub open spec fn asks(self) -> Option<RowEvent> {
        if self.mute {
            Some(RowEvent::ToggleMute)
        } else if self.auto {
            Some(RowEvent::ToggleAuto)
        } else if self.dot {
            Some(RowEvent::ToggleVisible)
        } else {
            None
        }
    }

    pub fn event(&self) -> (event: Option<RowEvent>)
        ensures
            event == self.asks(),
    {
        if self.mute {
            Some(RowEvent::ToggleMute)
        } else if self.auto {
            Some(RowEvent::ToggleAuto)
        } else if self.dot {
            Some(RowEvent::ToggleVisible)
        } else {
            None
        }
    }
}

/// The lowest row of which something is asked, and what.
pub fn rows_event(rows: &[RowClicks]) -> (event: Option<(usize, RowEvent)>)
    ensures
        match event {
            Some((row, asked)) => {
                &&& row < rows@.len()
                &&& rows@[row as int].asks() == Some(asked)
                &&& forall|r: int| row < r < rows@.len() ==> (#[trigger] rows@[r]).asks() is None
            },
            None => forall|r: int| 0 <= r < rows@.len() ==> (#[trigger] rows@[r]).asks() is None,
        },
{
    let mut n: usize = rows.len();
    while n > 0
        invariant
            n <= rows@.len(),
            forall|r: int| n <= r < rows@.len() ==> (#[trigger] rows@[r]).asks() is None,
        decreases n,
    {
        n = n - 1;
        if let Some(asked) = rows[n].event() {
            return Some((n, asked));
        }
    }
    None
}

/// A track after something was asked of its row. Both buttons toggle back to
/// "mine", so that one click hands a part over and another takes it back.
pub open spec fn after_event(config: TrackConfig, event: RowEvent) -> TrackConfig {
    match event {
        RowEvent::ToggleVisible => TrackConfig { visible: !config.visible, ..config },
        RowEvent::ToggleAuto => TrackConfig {
            player: if config.player == PlayerConfig::Auto {
                PlayerConfig::Human
            } else {
                PlayerConfig::Auto
            },
            ..config
        },
        RowEvent::ToggleMute => TrackConfig {
            player: if config.player == PlayerConfig::Mute {
                PlayerConfig::Human
            } else {
                PlayerConfig::Mute
            },
            ..config
        },
    }
}

/// Does what was asked of the row of a track.
pub fn apply_row_event(config: &mut SongConfig, track_id: usize, event: RowEvent)
    requires
        track_id < old(config).tracks@.len(),
    ensures
        final(config).tracks@ == old(config).tracks@.update(
            track_id as int,
            after_event(old(config).tracks@[track_id as int], event),
        ),
{
    let track = config.tracks[track_id];
    config.tracks[track_id] = match event {
        RowEvent::ToggleVisible => TrackConfig { visible: !track.visible, ..track },
        RowEvent::ToggleAuto => TrackConfig {
            player: if track.player == PlayerConfig::Auto {
                PlayerConfig::Human
            } else {
                PlayerConfig::Auto
            },
            ..track
        },
        RowEvent::ToggleMute => TrackConfig {
            player: if track.player == PlayerConfig::Mute {
                PlayerConfig::Human
            } else {
                PlayerConfig::Mute
            },
            ..track
        },
    };
}

/// A button: its colour, and the one it takes under the pointer. A plain slot
/// when off; lit when its state is doing something.
#[derive(Debug, Clone, Copy, PartialEq, Eq)]
pub struct ButtonLook {
    pub color: Rgb,
    pub hover: Rgb,
}

pub open spec fn idle_button() -> ButtonLook {
    ButtonLook { color: (58, 54, 68), hover: (78, 73, 92) }
}

/// How a track's row looks.
#[derive(Debug)]
pub struct TrackRow {
    pub track_id: usize,
    /// The coloured dot that shows and toggles whether the track is drawn.
    pub dot: Rgb,
    /// Its instrument and note count; the count tells two tracks of the same
    /// instrument apart.
    pub text: String,
    pub text_color: Rgb,
    pub auto: ButtonLook,
    pub mute: ButtonLook,
}

/// The instrument of a track: the one it asked for last.
pub open spec fn instrument(track: MidiTrack) -> int {
    if track.programs@.len() == 0 {
        0
    } else {
        track.programs@.last() as int
    }
}

/// What a track is called.
pub open spec fn track_title(track: MidiTrack, instruments: Seq<String>) -> Seq<char> {
    if track.only_drums() {
        "Percussion"@
    } else {
        instruments[instrument(track)]@
    }
}

/// Whether `row` is how a track is shown.
pub open spec fn shows(
    row: TrackRow,
    track: MidiTrack,
    config: TrackConfig,
    schema: Seq<Rgb>,
    instruments: Seq<String>,
) -> bool {
    let muted = config.player == PlayerConfig::Mute;
    let auto = config.player == PlayerConfig::Auto;
    &&& row.track_id == track.track_id
    &&& row.dot == (if !config.visible {
        (102u8, 102u8, 102u8)
    } else {
        schema[track.track_color_id as int % schema.len() as int]
    })
    &&& row.text@ == track_title(track, instruments) + " · "@ + decimal(track.notes@.len())
        + " notes"@
    &&& row.text_color == (if muted {
        (120u8, 120u8, 120u8)
    } else {
        (235u8, 235u8, 235u8)
    })
    &&& row.auto == (if auto {
        ButtonLook { color: (70, 110, 190), hover: (90, 133, 220) }
    } else {
        idle_button()
    })
    &&& row.mute == (if muted {
        ButtonLook { color: (150, 60, 60), hover: (175, 75, 75) }
    } else {
        idle_button()
    })
}

/// One track's row. `schema` are the track colours, `instruments` the names of
/// the instruments.
pub fn track_row(
    track: &MidiTrack,
    config: &TrackConfig,
    schema: &[Rgb],
    instruments: &[String],
) -> (row: TrackRow)
    requires
        schema@.len() > 0,
        track.only_drums() || instrument(*track) < instruments@.len(),
    ensures
        shows(row, *track, *config, schema@, instruments@),
{
    let muted = config.player == PlayerConfig::Mute;
    let auto = config.player == PlayerConfig::Auto;
    let idle = ButtonLook { color: (58, 54, 68), hover: (78, 73, 92) };
    let dot: Rgb = if !config.visible {
        (102, 102, 102)
    } else {
        schema[track.track_color_id % schema.len()]
    };
    let mut text: String = if track.is_drums() {
        String::from_str("Percussion")
    } else {
        let n: usize = track.programs.len();
        let program: usize = if n == 0 {
            0
        } else {
            track.programs[n - 1] as usize
        };
        instruments[program].clone()
    };
    text.append(" · ");
    push_decimal(&mut text, track.notes.len() as u64);
    text.append(" notes");
    TrackRow {
        track_id: track.track_id,
        dot,
        text,
        text_color: if muted {
            (120, 120, 120)
        } else {
            (235, 235, 235)
        },
        auto: if auto {
            ButtonLook { color: (70, 110, 190), hover: (90, 133, 220) }
        } else {
            idle
        },
        mute: if muted {
            ButtonLook { color: (150, 60, 60), hover: (175, 75, 75) }
        } else {
            idle
        },
    }
}

/// The rows of a song's parts.
pub fn track_rows(song: &Song, schema: &[Rgb], instruments: &[String]) -> (rows: Vec<TrackRow>)
    requires
        schema@.len() > 0,
        forall|i: int|
            0 <= i < song.file.tracks@.len() && (#[trigger] song.file.tracks@[i]).notes@.len() > 0
                ==> song.file.tracks@[i].track_id < song.config.tracks@.len() && (
            song.file.tracks@[i].only_drums() || instrument(song.file.tracks@[i])
                < instruments@.len()),
    ensures
        rows@.len() == shown(song.file.tracks@).len(),
        forall|k: int|
            0 <= k < rows@.len() ==> shows(
                #[trigger] rows@[k],
                song.file.tracks@[shown(song.file.tracks@)[k]],
                song.config.tracks@[song.file.tracks@[shown(song.file.tracks@)[k]].track_id as int],
                schema@,
                instruments@,
            ),
{
    let ghost tracks = song.file.tracks@;
    let mut rows: Vec<TrackRow> = Vec::new();
    let mut n: usize = 0;
    while n < song.file.tracks.len() && rows.len() < MAX_ROWS
        invariant
            tracks == song.file.tracks@,
            n <= tracks.len(),
            schema@.len() > 0,
            forall|i: int|
                0 <= i < tracks.len() && (#[trigger] tracks[i]).notes@.len() > 0
                    ==> tracks[i].track_id < song.config.tracks@.len() && (tracks[i].only_drums()
                    || instrument(tracks[i]) < instruments@.len()),
            rows@.len() <= MAX_ROWS,
            rows@.len() == listed(tracks, n as int).len(),
            forall|k: int|
                0 <= k < rows@.len() ==> shows(
                    #[trigger] rows@[k],
                    tracks[listed(tracks, n as int)[k]],
                    song.config.tracks@[tracks[listed(tracks, n as int)[k]].track_id as int],
                    schema@,
                    instruments@,
                ),
        decreases tracks.len() - n,
    {
        let track = &song.file.tracks[n];
        let ghost earlier = rows@;
        if track.notes.len() > 0 {
            assert(tracks[n as int].notes@.len() > 0);
            rows.push(track_row(track, &song.config.tracks[track.track_id], schema, instruments));
            proof {
                assert forall|k: int| 0 <= k < rows@.len() implies shows(
                    #[trigger] rows@[k],
                    tracks[listed(tracks, n + 1)[k]],
                    song.config.tracks@[tracks[listed(tracks, n + 1)[k]].track_id as int],
                    schema@,
                    instruments@,
                ) by {
                    if k < earlier.len() {
                        assert(rows@[k] == earlier[k]);
                        assert(listed(tracks, n + 1)[k] == listed(tracks, n as int)[k]);
                    }
                }
            }
        }
        n = n + 1;
    }
    proof {
        let all = listed(tracks, tracks.len() as int);
        lemma_listed_grows(tracks, n as int, tracks.len() as int);
        if rows@.len() == MAX_ROWS {
            assert(all.take(MAX_ROWS as int) == listed(tracks, n as int));
            assert(shown(tracks) =~= listed(tracks, n as int));
        } else {
            assert(shown(tracks) =~= listed(tracks, n as int));
        }
    }
    rows
}

/// The first characters of a text, with an ellipsis in the last of `max` places,
/// unless all of it fits; nothing where there are no places.
pub open spec fn truncated(text: Seq<char>, max: int) -> Seq<char> {
    if text.len() <= max {
        text
    } else if max <= 0 {
        Seq::empty()
    } else {
        text.take(max - 1) + "…"@
    }
}

/// Cuts to `max` characters, counted as characters rather than bytes, so that a
/// device name with anything non-ASCII in it cannot land mid-codepoint.
pub fn truncate(text: &str, max: usize) -> (cut: String)
    ensures
        cut@ == truncated(text@, max as int),
        cut@.len() <= max,
{
    if text.unicode_len() <= max {
        return String::from_str(text);
    }
    if max == 0 {
        let empty = String::new();
        assert(empty@ =~= Seq::<char>::empty());
        return empty;
    }
    let mut cut = String::from_str(text.substring_char(0, max - 1));
    assert(cut@ =~= text@.take(max - 1));
    proof {
        reveal_strlit("…");
    }
    cut.append("…");
    cut
}

/// How the microphone row looks.
#[derive(Debug)]
pub struct MicRow {
    /// Lit while the microphone is live.
    pub dot: Rgb,
    pub title: String,
    pub title_color: Rgb,
    /// Only while it is live: an empty meter with the microphone off would read
    /// as "nothing is getting through", which is not what off means.
    pub meter: bool,
    pub status: &'static str,
    pub status_color: Rgb,
}

/// Microphone passthrough as one wide toggle. A failure is said out loud in the
/// row itself: switched on and silent is otherwise indistinguishable from a
/// microphone nobody is singing into.
pub fn mic_row(on: bool, error: Option<&str>) -> (row: MicRow)
    ensures
        row.title@ == (match error {
            Some(error) => "Microphone passthrough · "@ + truncated(error@, 34),
            None => "Microphone passthrough"@,
        }),
        row.meter == on,
        row.status@ == (if on {
            "ON"@
        } else if error is Some {
            "UNAVAILABLE"@
        } else {
            "OFF"@
        }),
        row.status_color == (if on {
            (120u8, 220u8, 150u8)
        } else if error is Some {
            (200u8, 110u8, 110u8)
        } else {
            (130u8, 130u8, 130u8)
        }),
        row.dot == (if on {
            (80u8, 200u8, 120u8)
        } else {
            (78u8, 73u8, 92u8)
        }),
        row.title_color == (if on {
            (235u8, 235u8, 235u8)
        } else {
            (170u8, 170u8, 170u8)
        }),
{
    let title: String = match error {
        Some(error) => {
            let mut title = String::from_str("Microphone passthrough · ");
            let reason = truncate(error, 34);
            title.append(reason.as_str());
            title
        },
        None => String::from_str("Microphone passthrough"),
    };
    let (status, status_color): (&'static str, Rgb) = if on {
        ("ON", (120, 220, 150))
    } else if error.is_some() {
        ("UNAVAILABLE", (200, 110, 110))
    } else {
        ("OFF", (130, 130, 130))
    };
    let dot: Rgb = if on {
        (80, 200, 120)
    } else {
        (78, 73, 92)
    };
    let title_color: Rgb = if on {
        (235, 235, 235)
    } else {
        (170, 170, 170)
    };
    MicRow { dot, title, title_color, meter: on, status, status_color }
}

/// One click hands a part over and another takes it back; showing and hiding
/// undo each other.
pub proof fn law_second_click_takes_back(config: TrackConfig)
    ensures
        config.player == PlayerConfig::Human ==> after_event(
            after_event(config, RowEvent::ToggleAuto),
            RowEvent::ToggleAuto,
        ) == config,
        config.player == PlayerConfig::Human ==> after_event(
            after_event(config, RowEvent::ToggleMute),
            RowEvent::ToggleMute,
        ) == config,
        after_event(after_event(config, RowEvent::ToggleVisible), RowEvent::ToggleVisible)
            == config,
{
}

/// The rows that are shown are tracks with notes, at most six of them, and
/// together with the counted rest they are all there are.
pub proof fn law_every_listed_track_is_accounted_for(tracks: Seq<MidiTrack>)
    ensures
        ({
            let all = listed(tracks, tracks.len() as int);
            let rows = shown(tracks);
            &&& rows.len() <= MAX_ROWS
            &&& all.len() > MAX_ROWS ==> rows.len() + (all.len() - MAX_ROWS) == all.len()
            &&& all.len() <= MAX_ROWS ==> rows == all
            &&& forall|k: int|
                0 <= k < rows.len() ==> 0 <= #[trigger] rows[k] < tracks.len()
                    && tracks[rows[k]].notes@.len() > 0
        }),
{
    lemma_listed(tracks, tracks.len() as int);
    let all = listed(tracks, tracks.len() as int);
    assert forall|k: int| 0 <= k < shown(tracks).len() implies 0 <= #[trigger] shown(tracks)[k]
        < tracks.len() && tracks[shown(tracks)[k]].notes@.len() > 0 by {
        assert(shown(tracks)[k] == all[k]);
    }
}

/// A track is listed exactly when it has notes, and the tracks are listed in order.
pub proof fn law_which_tracks_are_listed(tracks: Seq<MidiTrack>, n: int, k: int)
    requires
        0 <= n <= tracks.len(),
        0 <= k < n,
    ensures
        listed(tracks, n).contains(k) <==> tracks[k].notes@.len() > 0,
        forall|a: int, b: int|
            0 <= a < b < listed(tracks, n).len() ==> #[trigger] listed(tracks, n)[a]
                < #[trigger] listed(tracks, n)[b],
    decreases n,
{
    let all = listed(tracks, n);
    let rest = listed(tracks, n - 1);
    lemma_listed(tracks, n - 1);
    if n > 1 {
        law_which_tracks_are_listed(tracks, n - 1, if k < n - 1 {
            k
        } else {
            0
        });
    }
    if rest.contains(k) {
        let m = choose|m: int| 0 <= m < rest.len() && rest[m] == k;
        assert(all[m] == k);
    }
    if all.contains(k) {
        let m = choose|m: int| 0 <= m < all.len() && all[m] == k;
        if m < rest.len() {
            assert(rest[m] == k);
        }
    }
    if k == n - 1 && tracks[k].notes@.len() > 0 {
        assert(all[rest.len() as int] == k);
    }
}

/// No more than six tracks have a row, the first ones. The rows are 38 pixels high with 6
/// between them, and the line for the rest is 18 high.
pub proof fn law_how_tall_the_rows_are(tracks: Seq<MidiTrack>, count: int)
    requires
        count >= 0,
    ensures
        shown(tracks).len() <= 6,
        shown(tracks) == listed(tracks, tracks.len() as int).take(shown(tracks).len() as int),
        shown(tracks).len() < 6 ==> shown(tracks) == listed(tracks, tracks.len() as int),
        rows_height(0) == 0,
        rows_height(1) == 38,
        1 <= count < 6 ==> rows_height(count + 1) == rows_height(count) + 44,
        count > 6 ==> rows_height(count) == rows_height(6) + 6 + 18,
{
    let all = listed(tracks, tracks.len() as int);
    assert(all.take(all.len() as int) =~= all);
}

/// What a click on a row asks for: where two buttons are clicked at once, mute goes before
/// auto and both before the dot.
pub proof fn law_what_a_row_is_asked(clicks: RowClicks)
    ensures
        clicks.asks() == Some(RowEvent::ToggleMute) <==> clicks.mute,
        clicks.asks() == Some(RowEvent::ToggleAuto) <==> clicks.auto && !clicks.mute,
        clicks.asks() == Some(RowEvent::ToggleVisible) <==> clicks.dot && !clicks.auto
            && !clicks.mute,
{
}

/// What the buttons of a row do: the dot shows or hides the track, and leaves who plays
/// it; the others say who plays it, and leave whether it shows. The one that is lit gives
/// the part back, and the other takes it over.
pub proof fn law_what_a_row_does(config: TrackConfig)
    ensures
        after_event(config, RowEvent::ToggleVisible).visible == !config.visible,
        after_event(config, RowEvent::ToggleVisible).player == config.player,
        after_event(config, RowEvent::ToggleAuto).visible == config.visible,
        after_event(config, RowEvent::ToggleMute).visible == config.visible,
        after_event(config, RowEvent::ToggleAuto).player == PlayerConfig::Human <==> config.player
            == PlayerConfig::Auto,
        after_event(config, RowEvent::ToggleAuto).player == PlayerConfig::Auto <==> config.player
            != PlayerConfig::Auto,
        after_event(config, RowEvent::ToggleMute).player == PlayerConfig::Human <==> config.player
            == PlayerConfig::Mute,
        after_event(config, RowEvent::ToggleMute).player == PlayerConfig::Mute <==> config.player
            != PlayerConfig::Mute,
        forall|event: RowEvent| (#[trigger] after_event(config, event)).track_id == config.track_id,
{
}

/// What a row shows: the track's colour or grey where it is hidden, what it is called and
/// how many notes it has; the button of the one who plays it is lit, and no other.
pub proof fn law_what_a_row_shows(
    row: TrackRow,
    track: MidiTrack,
    config: TrackConfig,
    schema: Seq<Rgb>,
    instruments: Seq<String>,
)
    requires
        shows(row, track, config, schema, instruments),
        0 < schema.len(),
    ensures
        row.track_id == track.track_id,
        config.visible && track.track_color_id < schema.len() ==> row.dot
            == schema[track.track_color_id as int],
        !config.visible ==> row.dot == (102u8, 102u8, 102u8),
        track.only_drums() ==> row.text@ == "Percussion"@ + " · "@ + decimal(track.notes@.len())
            + " notes"@,
        !track.only_drums() && track.programs@.len() > 0 ==> row.text@
            == instruments[track.programs@.last() as int]@ + " · "@ + decimal(track.notes@.len())
            + " notes"@,
        !track.only_drums() && track.programs@.len() == 0 ==> row.text@ == instruments[0]@
            + " · "@ + decimal(track.notes@.len()) + " notes"@,
        config.player == PlayerConfig::Auto <==> row.auto.color == (70u8, 110u8, 190u8),
        config.player == PlayerConfig::Auto <==> row.auto.hover == (90u8, 133u8, 220u8),
        config.player == PlayerConfig::Mute <==> row.mute.color == (150u8, 60u8, 60u8),
        config.player == PlayerConfig::Mute <==> row.mute.hover == (175u8, 75u8, 75u8),
        config.player != PlayerConfig::Auto <==> row.auto.color == (58u8, 54u8, 68u8),
        config.player != PlayerConfig::Auto <==> row.auto.hover == (78u8, 73u8, 92u8),
        config.player != PlayerConfig::Mute <==> row.mute.color == (58u8, 54u8, 68u8),
        config.player != PlayerConfig::Mute <==> row.mute.hover == (78u8, 73u8, 92u8),
        config.player == PlayerConfig::Mute <==> row.text_color == (120u8, 120u8, 120u8),
        config.player != PlayerConfig::Mute <==> row.text_color == (235u8, 235u8, 235u8),
{
    if config.visible && track.track_color_id < schema.len() {
        assert(track.track_color_id as int % schema.len() as int == track.track_color_id)
            by (nonlinear_arith)
            requires
                0 <= track.track_color_id < schema.len(),
        ;
    }
}

/// A text that fits stays as it is; any other is cut to exactly the room there is, with
/// its own beginning and an ellipsis at the end.
pub proof fn law_a_long_text_is_cut_to_its_room(text: Seq<char>, max: int, n: int)
    requires
        max >= 0,
    ensures
        text.len() <= max ==> truncated(text, max) == text,
        text.len() > max ==> truncated(text, max).len() == max,
        text.len() > max && 0 <= n < max - 1 ==> truncated(text, max)[n] == text[n],
        text.len() > max > 0 ==> truncated(text, max).last() == '…',
{
    reveal_strlit("…");
}

} // verus!
