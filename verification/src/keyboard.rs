//! The piano keyboard under the falling notes.
use vstd::prelude::*;

use crate::effects::note_color;

verus! {

/// The keys of a keyboard, from `start` up to but not including `end`.
#[derive(Debug, Clone, Copy, PartialEq, Eq, Structural)]
pub struct KeyboardRange {
    pub start: u8,
    pub end: u8,
}

impl KeyboardRange {
    /// Whether a note is on the keyboard.
    pub open spec fn has(self, note: u8) -> bool {
        self.start <= note < self.end
    }

    /// The 88 keys of a concert grand, from A0 to C8.
    pub fn standard_88_keys() -> (range: Self)
        ensures
            range == (KeyboardRange { start: 21, end: 109 }),
    {
        KeyboardRange { start: 21, end: 109 }
    }

    pub fn contains(&self, note: u8) -> (contained: bool)
        ensures
            contained == self.has(note),
    {
        self.start <= note && note < self.end
    }
}

/// The colour of the note-guide square on a white key: a rainbow from a red C to
/// a pink B. Black keys have none.
pub open spec fn guide_color(note_id: u8) -> Option<(u8, u8, u8)> {
    if note_id == 0 {
        Some((230, 30, 30))
    } else if note_id == 2 {
        Some((255, 140, 0))
    } else if note_id == 4 {
        Some((255, 215, 0))
    } else if note_id == 5 {
        Some((40, 190, 60))
    } else if note_id == 7 {
        Some((40, 90, 230))
    } else if note_id == 9 {
        Some((150, 60, 210))
    } else if note_id == 11 {
        Some((255, 105, 180))
    } else {
        None
    }
}

/// The note name drawn on a black key.
pub open spec fn black_name(note_id: u8) -> Option<Seq<char>> {
    if note_id == 1 {
        Some("C#"@)
    } else if note_id == 3 {
        Some("D#"@)
    } else if note_id == 6 {
        Some("F#"@)
    } else if note_id == 8 {
        Some("G#"@)
    } else if note_id == 10 {
        Some("A#"@)
    } else {
        None
    }
}

/// The note letter drawn on a white key.
pub open spec fn white_letter(note_id: u8) -> Option<Seq<char>> {
    if note_id == 0 {
        Some("C"@)
    } else if note_id == 2 {
        Some("D"@)
    } else if note_id == 4 {
        Some("E"@)
    } else if note_id == 5 {
        Some("F"@)
    } else if note_id == 7 {
        Some("G"@)
    } else if note_id == 9 {
        Some("A"@)
    } else if note_id == 11 {
        Some("B"@)
    } else {
        None
    }
}

/// Note-guide square colour for a white key, by its note within the octave;
/// `None` for notes that do not get a square.
pub fn rainbow_color(note_id: u8) -> (color: Option<(u8, u8, u8)>)
    ensures
        color == guide_color(note_id),
{
    match note_id {
        0 => Some((230, 30, 30)),
        2 => Some((255, 140, 0)),
        4 => Some((255, 215, 0)),
        5 => Some((40, 190, 60)),
        7 => Some((40, 90, 230)),
        9 => Some((150, 60, 210)),
        11 => Some((255, 105, 180)),
        _ => None,
    }
}

/// The note name drawn on a black key, or `None` for white keys.
pub fn sharp_name(note_id: u8) -> (name: Option<&'static str>)
    ensures
        name is Some <==> black_name(note_id) is Some,
        name is Some ==> black_name(note_id) == Some(name->0@),
{
    match note_id {
        1 => Some("C#"),
        3 => Some("D#"),
        6 => Some("F#"),
        8 => Some("G#"),
        10 => Some("A#"),
        _ => None,
    }
}

/// The note letter drawn inside the square, or `None` for keys without one.
pub fn rainbow_letter(note_id: u8) -> (letter: Option<&'static str>)
    ensures
        letter is Some <==> white_letter(note_id) is Some,
        letter is Some ==> white_letter(note_id) == Some(letter->0@),
{
    match note_id {
        0 => Some("C"),
        2 => Some("D"),
        4 => Some("E"),
        5 => Some("F"),
        7 => Some("G"),
        9 => Some("A"),
        11 => Some("B"),
        _ => None,
    }
}

/// Whether a square's letter is dark: it is on the light yellow of E and the pink
/// of B, white elsewhere.
pub open spec fn dark_letter(note_id: u8) -> bool {
    note_id == 4 || note_id == 11
}

/// The colour of a square's letter.
pub fn letter_color(note_id: u8) -> (color: (u8, u8, u8, u8))
    ensures
        color == (if dark_letter(note_id) {
            (20u8, 20u8, 20u8, 255u8)
        } else {
            (255u8, 255u8, 255u8, 255u8)
        }),
{
    match note_id {
        4 | 11 => (20, 20, 20, 255),
        _ => (255, 255, 255, 255),
    }
}

/// A key of the layout: its note within the octave, and whether it is black.
#[derive(Debug, Clone, Copy, PartialEq, Eq, Structural)]
pub struct KeyInfo {
    pub note_id: u8,
    pub sharp: bool,
}

/// One piece of the keyboard picture; keys are given by their place in the
/// layout.
#[derive(Debug, Clone, Copy, PartialEq, Eq, Structural)]
pub enum KeyboardQuad {
    /// The red rule above the keys.
    Rule,
    /// The black behind the keys.
    Background,
    Key(usize),
    /// The note-guide square on a white key.
    Square(usize),
}

/// The white or the black keys among the first `n`, in order.
pub open spec fn keys_of(keys: Seq<KeyInfo>, sharp: bool, n: int) -> Seq<KeyboardQuad>
    decreases n,
{
    if n <= 0 {
        Seq::empty()
    } else if keys[n - 1].sharp == sharp {
        keys_of(keys, sharp, n - 1).push(KeyboardQuad::Key((n - 1) as usize))
    } else {
        keys_of(keys, sharp, n - 1)
    }
}

/// The note-guide squares of the white keys among the first `n`, in order.
pub open spec fn squares_of(keys: Seq<KeyInfo>, n: int) -> Seq<KeyboardQuad>
    decreases n,
{
    if n <= 0 {
        Seq::empty()
    } else if !keys[n - 1].sharp && guide_color(keys[n - 1].note_id) is Some {
        squares_of(keys, n - 1).push(KeyboardQuad::Square((n - 1) as usize))
    } else {
        squares_of(keys, n - 1)
    }
}

/// The picture of a keyboard, from back to front: rule and background, white
/// keys, their squares, and the black keys over them.
pub open spec fn keyboard_picture(keys: Seq<KeyInfo>) -> Seq<KeyboardQuad> {
    let n = keys.len() as int;
    seq![KeyboardQuad::Rule, KeyboardQuad::Background] + keys_of(keys, false, n) + squares_of(
        keys,
        n,
    ) + keys_of(keys, true, n)
}

fn push_keys(keys: &[KeyInfo], sharp: bool, quads: &mut Vec<KeyboardQuad>)
    ensures
        final(quads)@ == old(quads)@ + keys_of(keys@, sharp, keys@.len() as int),
{
    let mut n: usize = 0;
    proof {
        assert(old(quads)@ + Seq::<KeyboardQuad>::empty() =~= old(quads)@);
    }
    while n < keys.len()
        invariant
            n <= keys@.len(),
            quads@ == old(quads)@ + keys_of(keys@, sharp, n as int),
        decreases keys@.len() - n,
    {
        if keys[n].sharp == sharp {
            quads.push(KeyboardQuad::Key(n));
            assert(quads@ =~= old(quads)@ + keys_of(keys@, sharp, n + 1));
        }
        n = n + 1;
    }
}

/// Plans the picture of a keyboard.
pub fn plan_quads(keys: &[KeyInfo]) -> (quads: Vec<KeyboardQuad>)
    ensures
        quads@ == keyboard_picture(keys@),
{
    let mut quads: Vec<KeyboardQuad> = Vec::new();
    quads.push(KeyboardQuad::Rule);
    quads.push(KeyboardQuad::Background);
    assert(quads@ =~= seq![KeyboardQuad::Rule, KeyboardQuad::Background]);
    push_keys(keys, false, &mut quads);
    let ghost whites = quads@;
    let mut n: usize = 0;
    proof {
        assert(whites + Seq::<KeyboardQuad>::empty() =~= whites);
    }
    while n < keys.len()
        invariant
            n <= keys@.len(),
            quads@ == whites + squares_of(keys@, n as int),
        decreases keys@.len() - n,
    {
        if !keys[n].sharp && rainbow_color(keys[n].note_id).is_some() {
            quads.push(KeyboardQuad::Square(n));
            assert(quads@ =~= whites + squares_of(keys@, n + 1));
        }
        n = n + 1;
    }
    push_keys(keys, true, &mut quads);
    assert(quads@ =~= keyboard_picture(keys@));
    quads
}

/// A name drawn on a key.
#[derive(Debug, Clone, Copy)]
pub struct KeyLabel {
    pub key: usize,
    pub text: &'static str,
    pub color: (u8, u8, u8, u8),
}

/// Whether `label` is the name on key `k`.
pub open spec fn labels_key(label: KeyLabel, keys: Seq<KeyInfo>, k: int) -> bool {
    let key = keys[k];
    &&& label.key == k
    &&& key.sharp ==> black_name(key.note_id) == Some(label.text@) && label.color == (
        255u8,
        255u8,
        255u8,
        225u8,
    )
    &&& !key.sharp ==> white_letter(key.note_id) == Some(label.text@) && label.color == (
    if dark_letter(key.note_id) {
        (20u8, 20u8, 20u8, 255u8)
    } else {
        (255u8, 255u8, 255u8, 255u8)
    })
}

/// The keys of one colour among the first `n` that have a name, in order.
pub open spec fn named_keys(keys: Seq<KeyInfo>, sharp: bool, n: int) -> Seq<int>
    decreases n,
{
    if n <= 0 {
        Seq::empty()
    } else if keys[n - 1].sharp == sharp && (if sharp {
        black_name(keys[n - 1].note_id) is Some
    } else {
        white_letter(keys[n - 1].note_id) is Some
    }) {
        named_keys(keys, sharp, n - 1).push(n - 1)
    } else {
        named_keys(keys, sharp, n - 1)
    }
}

/// Whether `labels` are the names on the keys: those of the black keys, then the
/// letters in the squares of the white ones.
pub open spec fn names_keys(labels: Seq<KeyLabel>, keys: Seq<KeyInfo>) -> bool {
    let n = keys.len() as int;
    let order = named_keys(keys, true, n) + named_keys(keys, false, n);
    &&& labels.len() == order.len()
    &&& forall|m: int| 0 <= m < labels.len() ==> labels_key(#[trigger] labels[m], keys, order[m])
}

/// Plans the names on the keys: those of the black keys, then the letters in the
/// squares of the white ones.
pub fn plan_labels(keys: &[KeyInfo]) -> (labels: Vec<KeyLabel>)
    ensures
        names_keys(labels@, keys@),
{
    let mut labels: Vec<KeyLabel> = Vec::new();
    let mut n: usize = 0;
    while n < keys.len()
        invariant
            n <= keys@.len(),
            labels@.len() == named_keys(keys@, true, n as int).len(),
            forall|m: int|
                0 <= m < labels@.len() ==> labels_key(
                    #[trigger] labels@[m],
                    keys@,
                    named_keys(keys@, true, n as int)[m],
                ),
        decreases keys@.len() - n,
    {
        if keys[n].sharp {
            if let Some(text) = sharp_name(keys[n].note_id) {
                labels.push(KeyLabel { key: n, text, color: (255, 255, 255, 225) });
            }
        }
        n = n + 1;
    }
    let ghost blacks = named_keys(keys@, true, keys@.len() as int);
    let mut k: usize = 0;
    proof {
        assert(blacks + named_keys(keys@, false, 0) =~= blacks);
    }
    while k < keys.len()
        invariant
            k <= keys@.len(),
            labels@.len() == (blacks + named_keys(keys@, false, k as int)).len(),
            forall|m: int|
                0 <= m < labels@.len() ==> labels_key(
                    #[trigger] labels@[m],
                    keys@,
                    (blacks + named_keys(keys@, false, k as int))[m],
                ),
        decreases keys@.len() - k,
    {
        let ghost earlier = labels@;
        let ghost order = blacks + named_keys(keys@, false, k as int);
        if !keys[k].sharp {
            if let Some(text) = rainbow_letter(keys[k].note_id) {
                labels.push(KeyLabel { key: k, text, color: letter_color(keys[k].note_id) });
                proof {
                    assert(blacks + named_keys(keys@, false, k + 1) =~= order.push(k as int));
                    assert forall|m: int| 0 <= m < labels@.len() implies labels_key(
                        #[trigger] labels@[m],
                        keys@,
                        order.push(k as int)[m],
                    ) by {
                        if m < earlier.len() {
                            assert(labels@[m] == earlier[m]);
                            assert(labels_key(earlier[m], keys@, order[m]));
                        }
                    }
                }
            }
        }
        k = k + 1;
    }
    labels
}

/// The keyboard on screen, drawn once and kept until something changes.
pub struct KeyboardRenderer {
    pub layout: Vec<KeyInfo>,
    /// Where the keyboard is, as two bit patterns.
    pub pos: (u32, u32),
    /// Which keys the song holds down.
    pub pressed_by_file: Vec<bool>,
    pub cache: Vec<KeyboardQuad>,
    pub text_cache: Vec<KeyLabel>,
}

impl KeyboardRenderer {
    /// What is kept is what would be drawn.
    pub open spec fn wf(self) -> bool {
        &&& self.cache@.len() > 0 ==> self.cache@ == keyboard_picture(self.layout@)
        &&& self.text_cache@.len() > 0 ==> names_keys(self.text_cache@, self.layout@)
    }

    /// A keyboard with no key held down and nothing drawn yet.
    pub fn new(layout: Vec<KeyInfo>) -> (keyboard: Self)
        ensures
            keyboard.wf(),
            keyboard.layout@ == layout@,
            keyboard.pos == (0u32, 0u32),
            keyboard.pressed_by_file@ == Seq::new(layout@.len(), |k: int| false),
            keyboard.cache@.len() == 0,
            keyboard.text_cache@.len() == 0,
    {
        let mut pressed_by_file: Vec<bool> = Vec::new();
        let mut k: usize = 0;
        while k < layout.len()
            invariant
                k <= layout@.len(),
                pressed_by_file@ == Seq::new(k as nat, |j: int| false),
            decreases layout@.len() - k,
        {
            pressed_by_file.push(false);
            assert(pressed_by_file@ =~= Seq::new((k + 1) as nat, |j: int| false));
            k = k + 1;
        }
        KeyboardRenderer {
            layout,
            pos: (0, 0),
            pressed_by_file,
            cache: Vec::new(),
            text_cache: Vec::new(),
        }
    }

    /// Lets go of every key that the song holds down.
    pub fn reset_notes(&mut self)
        ensures
            final(self).wf(),
            final(self).cache@.len() == 0,
            final(self).text_cache@.len() == 0,
            final(self).layout == old(self).layout,
            final(self).pos == old(self).pos,
            final(self).pressed_by_file@ == Seq::new(
                old(self).pressed_by_file@.len(),
                |k: int| false,
            ),
    {
        let mut k: usize = 0;
        while k < self.pressed_by_file.len()
            invariant
                k <= self.pressed_by_file@.len(),
                self.pressed_by_file@.len() == old(self).pressed_by_file@.len(),
                self.layout == old(self).layout,
                self.pos == old(self).pos,
                forall|j: int| 0 <= j < k ==> !(#[trigger] self.pressed_by_file@[j]),
            decreases self.pressed_by_file@.len() - k,
        {
            self.pressed_by_file[k] = false;
            k = k + 1;
        }
        assert(self.pressed_by_file@ =~= Seq::new(
            old(self).pressed_by_file@.len(),
            |j: int| false,
        ));
        self.invalidate_cache();
    }

    pub fn layout(&self) -> (layout: &Vec<KeyInfo>)
        ensures
            *layout == self.layout,
    {
        &self.layout
    }

    pub fn pos(&self) -> (pos: (u32, u32))
        ensures
            pos == self.pos,
    {
        self.pos
    }

    pub fn set_pos(&mut self, pos: (u32, u32))
        ensures
            final(self).wf(),
            final(self).cache@.len() == 0,
            final(self).text_cache@.len() == 0,
            final(self).layout == old(self).layout,
            final(self).pos == pos,
            final(self).pressed_by_file == old(self).pressed_by_file,
    {
        self.pos = pos;
        self.invalidate_cache();
    }

    pub fn set_layout(&mut self, layout: Vec<KeyInfo>)
        ensures
            final(self).wf(),
            final(self).cache@.len() == 0,
            final(self).text_cache@.len() == 0,
            final(self).layout == layout,
            final(self).pos == old(self).pos,
            final(self).pressed_by_file == old(self).pressed_by_file,
    {
        self.layout = layout;
        self.invalidate_cache();
    }

    /// Has everything drawn anew.
    pub fn invalidate_cache(&mut self)
        ensures
            final(self).wf(),
            final(self).cache@.len() == 0,
            final(self).text_cache@.len() == 0,
            final(self).layout == old(self).layout,
            final(self).pos == old(self).pos,
            final(self).pressed_by_file == old(self).pressed_by_file,
    {
        self.cache = Vec::new();
        self.text_cache = Vec::new();
    }

    /// What is drawn: always the keyboard as it is now, whatever was kept.
    pub fn update(&mut self) -> (picture: (&Vec<KeyboardQuad>, &Vec<KeyLabel>))
        requires
            old(self).wf(),
        ensures
            final(self).wf(),
            final(self).layout == old(self).layout,
            final(self).pos == old(self).pos,
            final(self).pressed_by_file == old(self).pressed_by_file,
            picture.0@ == keyboard_picture(old(self).layout@),
            names_keys(picture.1@, old(self).layout@),
    {
        if self.cache.len() == 0 {
            self.cache = plan_quads(self.layout.as_slice());
        }
        if self.text_cache.len() == 0 {
            self.text_cache = plan_labels(self.layout.as_slice());
        }
        (&self.cache, &self.text_cache)
    }
}

/// A note has a letter exactly when it has a square, and a sharp's name exactly
/// when it has neither: together they name every note of the octave once.
pub proof fn law_every_note_has_one_name(note_id: u8)
    requires
        note_id < 12,
    ensures
        white_letter(note_id) is Some <==> guide_color(note_id) is Some,
        white_letter(note_id) is Some <==> black_name(note_id) is None,
{
}

/// The white keys are lettered from C to B, each in its own colour of the rainbow, and a
/// black key is named after the white key to its left, with a sharp sign.
pub proof fn law_how_the_keys_are_named(note_id: u8)
    requires
        note_id < 12,
    ensures
        white_letter(0) == Some("C"@) && white_letter(2) == Some("D"@) && white_letter(4) == Some(
            "E"@,
        ) && white_letter(5) == Some("F"@) && white_letter(7) == Some("G"@) && white_letter(9)
            == Some("A"@) && white_letter(11) == Some("B"@),
        black_name(note_id) is Some ==> note_id > 0 && white_letter((note_id - 1) as u8) is Some
            && black_name(note_id)->0 == white_letter((note_id - 1) as u8)->0 + "#"@,
        guide_color(note_id) is Some ==> guide_color(note_id)->0 == note_color(note_id),
        dark_letter(note_id) <==> note_id == 4 || note_id == 11,
{
    reveal_strlit("C");
    reveal_strlit("D");
    reveal_strlit("F");
    reveal_strlit("G");
    reveal_strlit("A");
    reveal_strlit("#");
    reveal_strlit("C#");
    reveal_strlit("D#");
    reveal_strlit("F#");
    reveal_strlit("G#");
    reveal_strlit("A#");
    assert("C#"@ =~= "C"@ + "#"@);
    assert("D#"@ =~= "D"@ + "#"@);
    assert("F#"@ =~= "F"@ + "#"@);
    assert("G#"@ =~= "G"@ + "#"@);
    assert("A#"@ =~= "A"@ + "#"@);
}

/// A keyboard holds the keys from its first up to its last.
pub proof fn law_which_notes_are_on_a_keyboard(range: KeyboardRange, note: u8)
    ensures
        range.has(note) <==> range.start <= note && note < range.end,
{
}

/// Every key is drawn once, each white key under the squares, and the squares under the
/// black keys; a white key that has a letter has a square, and a black key has none.
pub proof fn law_how_the_keyboard_is_drawn(keys: Seq<KeyInfo>, k: int)
    requires
        0 <= k < keys.len() <= usize::MAX,
    ensures
        keyboard_picture(keys)[0] == KeyboardQuad::Rule,
        keyboard_picture(keys)[1] == KeyboardQuad::Background,
        keys_of(keys, false, keys.len() as int).contains(KeyboardQuad::Key(k as usize))
            <==> !keys[k].sharp,
        keys_of(keys, true, keys.len() as int).contains(KeyboardQuad::Key(k as usize))
            <==> keys[k].sharp,
        squares_of(keys, keys.len() as int).contains(KeyboardQuad::Square(k as usize))
            <==> !keys[k].sharp && guide_color(keys[k].note_id) is Some,
        ({
            let (white, square, black) = (
                keys_of(keys, false, keys.len() as int),
                squares_of(keys, keys.len() as int),
                keys_of(keys, true, keys.len() as int),
            );
            keyboard_picture(keys).skip(2) == white + square + black
        }),
{
    let n = keys.len() as int;
    lemma_keys_of(keys, false, n, k);
    lemma_keys_of(keys, true, n, k);
    lemma_squares_of(keys, n, k);
    assert(keyboard_picture(keys).skip(2) =~= keys_of(keys, false, n) + squares_of(keys, n)
        + keys_of(keys, true, n));
}

proof fn lemma_keys_of(keys: Seq<KeyInfo>, sharp: bool, n: int, k: int)
    requires
        0 <= n <= keys.len() <= usize::MAX,
        0 <= k < keys.len(),
    ensures
        keys_of(keys, sharp, n).contains(KeyboardQuad::Key(k as usize)) <==> k < n && keys[k].sharp
            == sharp,
    decreases n,
{
    if n > 0 {
        lemma_keys_of(keys, sharp, n - 1, k);
        let rest = keys_of(keys, sharp, n - 1);
        let all = keys_of(keys, sharp, n);
        let it = KeyboardQuad::Key(k as usize);
        if rest.contains(it) {
            let m = choose|m: int| 0 <= m < rest.len() && rest[m] == it;
            assert(all[m] == it);
        }
        if all.contains(it) {
            let m = choose|m: int| 0 <= m < all.len() && all[m] == it;
            if m < rest.len() {
                assert(rest[m] == it);
            }
        }
        if k == n - 1 && keys[k].sharp == sharp {
            assert(all[rest.len() as int] == it);
        }
    }
}

proof fn lemma_squares_of(keys: Seq<KeyInfo>, n: int, k: int)
    requires
        0 <= n <= keys.len() <= usize::MAX,
        0 <= k < keys.len(),
    ensures
        squares_of(keys, n).contains(KeyboardQuad::Square(k as usize)) <==> k < n && !keys[k].sharp
            && guide_color(keys[k].note_id) is Some,
    decreases n,
{
    if n > 0 {
        lemma_squares_of(keys, n - 1, k);
        let rest = squares_of(keys, n - 1);
        let all = squares_of(keys, n);
        let it = KeyboardQuad::Square(k as usize);
        if rest.contains(it) {
            let m = choose|m: int| 0 <= m < rest.len() && rest[m] == it;
            assert(all[m] == it);
        }
        if all.contains(it) {
            let m = choose|m: int| 0 <= m < all.len() && all[m] == it;
            if m < rest.len() {
                assert(rest[m] == it);
            }
        }
        if k == n - 1 && !keys[k].sharp && guide_color(keys[k].note_id) is Some {
            assert(all[rest.len() as int] == it);
        }
    }
}

/// Every key that has a name is labelled, once, with that name.
pub proof fn law_every_named_key_is_labelled(labels: Seq<KeyLabel>, keys: Seq<KeyInfo>, k: int)
    requires
        names_keys(labels, keys),
        0 <= k < keys.len(),
        keys[k].sharp ==> black_name(keys[k].note_id) is Some,
        !keys[k].sharp ==> white_letter(keys[k].note_id) is Some,
    ensures
        exists|m: int|
            0 <= m < labels.len() && (#[trigger] labels[m]).key == k && (if keys[k].sharp {
                labels[m].text@ == black_name(keys[k].note_id)->0 && labels[m].color == (
                    255u8,
                    255u8,
                    255u8,
                    225u8,
                )
            } else {
                labels[m].text@ == white_letter(keys[k].note_id)->0 && labels[m].color == (
                if keys[k].note_id == 4 || keys[k].note_id == 11 {
                    (20u8, 20u8, 20u8, 255u8)
                } else {
                    (255u8, 255u8, 255u8, 255u8)
                })
            }),
{
    let n = keys.len() as int;
    let (black, white) = (named_keys(keys, true, n), named_keys(keys, false, n));
    let order = black + white;
    lemma_named_keys(keys, keys[k].sharp, n, k);
    if keys[k].sharp {
        let m = choose|m: int| 0 <= m < black.len() && black[m] == k;
        assert(order[m] == k);
        assert(labels_key(labels[m], keys, order[m]));
    } else {
        let m = choose|m: int| 0 <= m < white.len() && white[m] == k;
        assert(order[black.len() + m] == k);
        assert(labels_key(labels[black.len() + m], keys, order[black.len() + m]));
    }
}

proof fn lemma_named_keys(keys: Seq<KeyInfo>, sharp: bool, n: int, k: int)
    requires
        0 <= k < n <= keys.len(),
        keys[k].sharp == sharp,
        sharp ==> black_name(keys[k].note_id) is Some,
        !sharp ==> white_letter(keys[k].note_id) is Some,
    ensures
        named_keys(keys, sharp, n).contains(k),
    decreases n,
{
    let rest = named_keys(keys, sharp, n - 1);
    let all = named_keys(keys, sharp, n);
    if k < n - 1 {
        lemma_named_keys(keys, sharp, n - 1, k);
        let m = choose|m: int| 0 <= m < rest.len() && rest[m] == k;
        assert(all[m] == k);
    } else {
        assert(all[rest.len() as int] == k);
    }
}

} // verus!
