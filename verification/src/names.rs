//! File names: which ones are songs, how they are listed, and how they read.
use vstd::prelude::*;
use vstd::string::*;

verus! {

/// Whether a letter is `lower` or its capital.
pub open spec fn is_letter(c: char, lower: char, upper: char) -> bool {
    c == lower || c == upper
}

/// Whether an extension is that of a MIDI file: "mid" or "midi", in capitals or
/// not.
pub open spec fn midi_extension(extension: Seq<char>) -> bool {
    &&& extension.len() == 3 || (extension.len() == 4 && is_letter(extension[3], 'i', 'I'))
    &&& is_letter(extension[0], 'm', 'M')
    &&& is_letter(extension[1], 'i', 'I')
    &&& is_letter(extension[2], 'd', 'D')
}

/// Whether the text from `from` on is the extension of a MIDI file.
fn midi_from(text: &str, from: usize) -> (midi: bool)
    requires
        from <= text@.len(),
    ensures
        midi == midi_extension(text@.skip(from as int)),
{
    let len: usize = text.unicode_len() - from;
    if len != 3 && len != 4 {
        return false;
    }
    let first: char = text.get_char(from);
    let second: char = text.get_char(from + 1);
    let third: char = text.get_char(from + 2);
    if len == 4 {
        let fourth: char = text.get_char(from + 3);
        if fourth != 'i' && fourth != 'I' {
            return false;
        }
    }
    (first == 'm' || first == 'M') && (second == 'i' || second == 'I') && (third == 'd' || third
        == 'D')
}

/// Is this the extension of a MIDI file?
pub fn is_midi_extension(extension: &str) -> (midi: bool)
    ensures
        midi == midi_extension(extension@),
{
    assert(extension@.skip(0) =~= extension@);
    midi_from(extension, 0)
}

/// Whether a character is white space, by the Unicode property of that name.
pub open spec fn white_space(c: char) -> bool {
    let code = c as int;
    ||| 0x09 <= code <= 0x0d
    ||| code == 0x20
    ||| code == 0x85
    ||| code == 0xa0
    ||| code == 0x1680
    ||| 0x2000 <= code <= 0x200a
    ||| code == 0x2028
    ||| code == 0x2029
    ||| code == 0x202f
    ||| code == 0x205f
    ||| code == 0x3000
}

/// The text without the white space it begins with.
pub open spec fn trimmed_start(text: Seq<char>) -> Seq<char>
    decreases text.len(),
{
    if text.len() > 0 && white_space(text[0]) {
        trimmed_start(text.skip(1))
    } else {
        text
    }
}

/// The text without the white space it ends in.
pub open spec fn trimmed_end(text: Seq<char>) -> Seq<char>
    decreases text.len(),
{
    if text.len() > 0 && white_space(text.last()) {
        trimmed_end(text.drop_last())
    } else {
        text
    }
}

/// A space for every underscore.
pub open spec fn spaced_char(c: char) -> char {
    if c == '_' {
        ' '
    } else {
        c
    }
}

/// The text with a space for every underscore.
pub open spec fn spaced(text: Seq<char>) -> Seq<char> {
    Seq::new(text.len(), |i: int| spaced_char(text[i]))
}

/// Where the last dot among the first `n` characters is.
pub open spec fn last_dot(text: Seq<char>, n: int) -> Option<int>
    decreases n,
{
    if n <= 0 {
        None
    } else if text[n - 1] == '.' {
        Some(n - 1)
    } else {
        last_dot(text, n - 1)
    }
}

/// A file name without the extension of a MIDI file. A name that is nothing but
/// such an extension keeps it, and so does one with another extension.
pub open spec fn stem_of(name: Seq<char>) -> Seq<char> {
    match last_dot(name, name.len() as int) {
        Some(dot) => if dot > 0 && midi_extension(name.skip(dot + 1)) {
            name.take(dot)
        } else {
            name
        },
        None => name,
    }
}

/// How a file name reads as the title of a song.
pub open spec fn title_of(name: Seq<char>) -> Seq<char> {
    trimmed_end(trimmed_start(spaced(stem_of(name))))
}

/// Does a space or an underscore, or other white space, stand here?
fn is_blank(c: char) -> (blank: bool)
    ensures
        blank == white_space(spaced_char(c)),
{
    let code: u32 = c as u32;
    c == '_' || (0x09 <= code && code <= 0x0d) || code == 0x20 || code == 0x85 || code == 0xa0
        || code == 0x1680 || (0x2000 <= code && code <= 0x200a) || code == 0x2028 || code == 0x2029
        || code == 0x202f || code == 0x205f || code == 0x3000
}

/// The length of the name without the extension of a MIDI file.
fn stem_length(name: &str) -> (length: usize)
    ensures
        length <= name@.len(),
        name@.take(length as int) == stem_of(name@),
{
    let len: usize = name.unicode_len();
    let mut n: usize = len;
    while n > 0
        invariant
            n <= len == name@.len(),
            last_dot(name@, len as int) == last_dot(name@, n as int),
        decreases n,
    {
        if name.get_char(n - 1) == '.' {
            if n > 1 && midi_from(name, n) {
                return n - 1;
            }
            assert(name@.take(len as int) =~= name@);
            return len;
        }
        n = n - 1;
    }
    assert(name@.take(len as int) =~= name@);
    len
}

/// Appends the characters from `from` up to `to`, with a space for every
/// underscore.
fn push_spaced(out: &mut String, name: &str, from: usize, to: usize)
    requires
        from <= to <= name@.len(),
    ensures
        final(out)@ == old(out)@ + spaced(name@).subrange(from as int, to as int),
{
    let mut i: usize = from;
    proof {
        reveal_strlit(" ");
        assert(old(out)@ + spaced(name@).subrange(from as int, from as int) =~= old(out)@);
    }
    while i < to
        invariant
            from <= i <= to <= name@.len(),
            " "@ =~= seq![' '],
            out@ == old(out)@ + spaced(name@).subrange(from as int, i as int),
        decreases to - i,
    {
        let c: char = name.get_char(i);
        if c == '_' {
            out.append(" ");
        } else {
            out.append(name.substring_char(i, i + 1));
        }
        assert(out@ =~= old(out)@ + spaced(name@).subrange(from as int, i + 1));
        i = i + 1;
    }
}

/// Turns a MIDI file name into something worth reading: drops the extension, and
/// lets underscores stand in for the spaces they usually are.
pub fn song_title(file_name: &str) -> (title: String)
    ensures
        title@ == title_of(file_name@),
{
    let length: usize = stem_length(file_name);
    let ghost wide = spaced(stem_of(file_name@));
    let mut from: usize = 0;
    assert(wide.skip(0) =~= wide);
    while from < length && is_blank(file_name.get_char(from))
        invariant
            from <= length <= file_name@.len(),
            file_name@.take(length as int) == stem_of(file_name@),
            wide == spaced(stem_of(file_name@)),
            wide.len() == length,
            trimmed_start(wide) == trimmed_start(wide.skip(from as int)),
        decreases length - from,
    {
        assert(wide.skip(from as int)[0] == wide[from as int]);
        assert(wide.skip(from as int).skip(1) =~= wide.skip(from + 1));
        from = from + 1;
    }
    assert(from < length ==> wide.skip(from as int)[0] == spaced_char(file_name@[from as int]));
    assert(trimmed_start(wide) == wide.skip(from as int));
    let mut to: usize = length;
    assert(wide.subrange(from as int, to as int) =~= wide.skip(from as int));
    while to > from && is_blank(file_name.get_char(to - 1))
        invariant
            from <= to <= length <= file_name@.len(),
            file_name@.take(length as int) == stem_of(file_name@),
            wide == spaced(stem_of(file_name@)),
            wide.len() == length,
            trimmed_end(wide.skip(from as int)) == trimmed_end(
                wide.subrange(from as int, to as int),
            ),
        decreases to,
    {
        assert(wide.subrange(from as int, to as int).last() == wide[to - 1]);
        assert(wide.subrange(from as int, to as int).drop_last() =~= wide.subrange(
            from as int,
            to - 1,
        ));
        to = to - 1;
    }
    assert(to > from ==> wide.subrange(from as int, to as int).last() == spaced_char(
        file_name@[to - 1],
    ));
    let mut title = String::new();
    push_spaced(&mut title, file_name, from, to);
    assert(title@ =~= wide.subrange(from as int, to as int));
    title
}

/// What `str::to_lowercase` makes of a text.
pub uninterp spec fn lowercased(text: Seq<char>) -> Seq<char>;

/// `str::to_lowercase`: a text with its letters in lower case, which depends on
/// the text alone. What it makes of each letter is not stated.
#[verifier::external_body]
pub(crate) fn lowercase(text: &str) -> (lower: String)
    ensures
        lower@ == lowercased(text@),
{
    text.to_lowercase()
}

/// Whether one text comes before another in order of code points.
pub open spec fn precedes(a: Seq<char>, b: Seq<char>) -> bool
    decreases a.len(),
{
    if b.len() == 0 {
        false
    } else if a.len() == 0 {
        true
    } else if a[0] != b[0] {
        (a[0] as int) < (b[0] as int)
    } else {
        precedes(a.skip(1), b.skip(1))
    }
}

proof fn lemma_precedes_not_both(a: Seq<char>, b: Seq<char>)
    ensures
        !(precedes(a, b) && precedes(b, a)),
        precedes(a, b) || precedes(b, a) || a == b,
    decreases a.len(),
{
    if a.len() > 0 && b.len() > 0 && a[0] == b[0] {
        lemma_precedes_not_both(a.skip(1), b.skip(1));
        if a.skip(1) == b.skip(1) {
            assert(a =~= seq![a[0]] + a.skip(1));
            assert(b =~= seq![b[0]] + b.skip(1));
        }
    } else if a.len() == 0 && b.len() == 0 {
        assert(a =~= b);
    }
}

proof fn lemma_precedes_transitive(a: Seq<char>, b: Seq<char>, c: Seq<char>)
    requires
        precedes(a, b),
        precedes(b, c),
    ensures
        precedes(a, c),
    decreases a.len(),
{
    if a.len() > 0 && a[0] == b[0] && b[0] == c[0] {
        lemma_precedes_transitive(a.skip(1), b.skip(1), c.skip(1));
    }
}

/// Does one text come before another?
fn comes_before(a: &str, b: &str) -> (first: bool)
    ensures
        first == precedes(a@, b@),
{
    let (n, m): (usize, usize) = (a.unicode_len(), b.unicode_len());
    let mut i: usize = 0;
    assert(a@.skip(0) =~= a@);
    assert(b@.skip(0) =~= b@);
    while i < n && i < m
        invariant
            i <= n == a@.len(),
            i <= m == b@.len(),
            precedes(a@, b@) == precedes(a@.skip(i as int), b@.skip(i as int)),
        decreases n - i,
    {
        let (c, d): (char, char) = (a.get_char(i), b.get_char(i));
        assert(a@.skip(i as int)[0] == c && b@.skip(i as int)[0] == d);
        if c != d {
            return (c as u32) < (d as u32);
        }
        assert(a@.skip(i as int).skip(1) =~= a@.skip(i + 1));
        assert(b@.skip(i as int).skip(1) =~= b@.skip(i + 1));
        i = i + 1;
    }
    n < m
}

/// The texts of a list.
pub open spec fn texts(list: Seq<String>) -> Seq<Seq<char>> {
    Seq::new(list.len(), |i: int| list[i]@)
}

/// Whether position `i` is listed before position `j`: by its key, and positions
/// with the same key as they came.
pub open spec fn listed_before(keys: Seq<Seq<char>>, i: int, j: int) -> bool {
    precedes(keys[i], keys[j]) || (keys[i] == keys[j] && i < j)
}

/// Whether `order` lists each position below `n` once, in order of the keys.
pub open spec fn lists(order: Seq<usize>, keys: Seq<Seq<char>>, n: int) -> bool {
    &&& forall|p: usize| p < n ==> #[trigger] order.contains(p)
    &&& forall|m: int| 0 <= m < order.len() ==> #[trigger] order[m] < n
    &&& forall|m: int, k: int|
        0 <= m < k < order.len() ==> listed_before(
            keys,
            #[trigger] order[m] as int,
            #[trigger] order[k] as int,
        )
}

/// Where position `n` goes among those listed already: after every key that does
/// not follow its own.
fn place_for(order: &Vec<usize>, keys: &Vec<String>, n: usize) -> (at: usize)
    requires
        n < keys@.len(),
        lists(order@, texts(keys@), n as int),
    ensures
        at <= order@.len(),
        forall|m: int|
            0 <= m < at ==> listed_before(texts(keys@), #[trigger] order@[m] as int, n as int),
        forall|m: int|
            at <= m < order@.len() ==> listed_before(
                texts(keys@),
                n as int,
                #[trigger] order@[m] as int,
            ),
{
    let ghost all = texts(keys@);
    let mut at: usize = order.len();
    while at > 0 && comes_before(keys[n].as_str(), keys[order[at - 1]].as_str())
        invariant
            at <= order@.len(),
            n < keys@.len(),
            all == texts(keys@),
            lists(order@, all, n as int),
            forall|m: int|
                at <= m < order@.len() ==> listed_before(
                    all,
                    n as int,
                    #[trigger] order@[m] as int,
                ),
        decreases at,
    {
        at = at - 1;
    }
    proof {
        assert forall|m: int| 0 <= m < at implies listed_before(
            all,
            #[trigger] order@[m] as int,
            n as int,
        ) by {
            let last = order@[at - 1] as int;
            lemma_precedes_not_both(all[last], all[n as int]);
            if m < at - 1 {
                assert(listed_before(all, order@[m] as int, last));
                let here = all[order@[m] as int];
                if precedes(here, all[last]) && precedes(all[last], all[n as int]) {
                    lemma_precedes_transitive(here, all[last], all[n as int]);
                }
            }
        }
    }
    at
}

/// Lists positions in order of their keys; equal keys stay as they came.
pub fn sort_names(keys: &Vec<String>) -> (order: Vec<usize>)
    ensures
        lists(order@, texts(keys@), keys@.len() as int),
{
    let mut order: Vec<usize> = Vec::new();
    let mut n: usize = 0;
    while n < keys.len()
        invariant
            n <= keys@.len(),
            lists(order@, texts(keys@), n as int),
        decreases keys@.len() - n,
    {
        let at: usize = place_for(&order, keys, n);
        let ghost earlier = order@;
        order.insert(at, n);
        proof {
            assert forall|p: usize| p < n + 1 implies #[trigger] order@.contains(p) by {
                if p == n {
                    assert(order@[at as int] == p);
                } else {
                    assert(earlier.contains(p));
                    let m = choose|m: int| 0 <= m < earlier.len() && earlier[m] == p;
                    if m < at {
                        assert(order@[m] == p);
                    } else {
                        assert(order@[m + 1] == p);
                    }
                }
            }
            assert forall|m: int, k: int| 0 <= m < k < order@.len() implies listed_before(
                texts(keys@),
                #[trigger] order@[m] as int,
                #[trigger] order@[k] as int,
            ) by {
                let (a, b) = (
                    if m < at {
                        m
                    } else {
                        m - 1
                    },
                    if k < at {
                        k
                    } else {
                        k - 1
                    },
                );
                if m != at && k != at {
                    assert(listed_before(texts(keys@), earlier[a] as int, earlier[b] as int));
                } else if m == at {
                    assert(order@[k] == earlier[k - 1]);
                } else {
                    assert(order@[m] == earlier[m]);
                }
            }
        }
        n = n + 1;
    }
    order
}

/// A title neither begins nor ends in white space, and has no underscore.
pub proof fn law_title_is_tidy(name: Seq<char>)
    ensures
        ({
            let title = title_of(name);
            &&& title.len() > 0 ==> !white_space(title[0]) && !white_space(title.last())
            &&& !title.contains('_')
        }),
{
    let wide = spaced(stem_of(name));
    let start = trimmed_start(wide);
    assert(!wide.contains('_'));
    lemma_trimmed_start(wide);
    lemma_trimmed_end(start);
}

proof fn lemma_trimmed_start(text: Seq<char>)
    ensures
        trimmed_start(text).len() > 0 ==> !white_space(trimmed_start(text)[0]),
        forall|c: char| trimmed_start(text).contains(c) ==> text.contains(c),
    decreases text.len(),
{
    if text.len() > 0 && white_space(text[0]) {
        lemma_trimmed_start(text.skip(1));
        assert forall|c: char| trimmed_start(text).contains(c) implies text.contains(c) by {
            assert(text.skip(1).contains(c));
            let i = choose|i: int| 0 <= i < text.skip(1).len() && text.skip(1)[i] == c;
            assert(text[i + 1] == c);
        }
    }
}

proof fn lemma_trimmed_end(text: Seq<char>)
    requires
        text.len() > 0 ==> !white_space(text[0]),
    ensures
        trimmed_end(text).len() > 0 ==> !white_space(trimmed_end(text).last())
            && trimmed_end(text)[0] == text[0],
        forall|c: char| trimmed_end(text).contains(c) ==> text.contains(c),
    decreases text.len(),
{
    if text.len() > 0 && white_space(text.last()) {
        lemma_trimmed_end(text.drop_last());
        assert forall|c: char| trimmed_end(text).contains(c) implies text.contains(c) by {
            assert(text.drop_last().contains(c));
            let i = choose|i: int| 0 <= i < text.drop_last().len() && text.drop_last()[i] == c;
            assert(text[i] == c);
        }
    }
}

/// A capital of the Latin alphabet as its small letter; anything else as it is.
pub open spec fn small(c: char) -> char {
    if 'A' <= c <= 'Z' {
        (c as int + 32) as char
    } else {
        c
    }
}

/// An extension is that of a MIDI file exactly when it reads "mid" or "midi" once its
/// capitals are made small.
pub proof fn law_midi_extensions_ignore_capitals(extension: Seq<char>)
    ensures
        midi_extension(extension) <==> Seq::new(extension.len(), |i: int| small(extension[i]))
            == seq!['m', 'i', 'd'] || Seq::new(extension.len(), |i: int| small(extension[i]))
            == seq!['m', 'i', 'd', 'i'],
{
    let lower = Seq::new(extension.len(), |i: int| small(extension[i]));
    if midi_extension(extension) {
        if extension.len() == 3 {
            assert(lower =~= seq!['m', 'i', 'd']);
        } else {
            assert(lower =~= seq!['m', 'i', 'd', 'i']);
        }
    }
    let (three, four) = (seq!['m', 'i', 'd'], seq!['m', 'i', 'd', 'i']);
    if lower == three || lower == four {
        assert(three.len() == 3 && four.len() == 4 && lower.len() == extension.len());
        assert(lower[0] == 'm' && lower[1] == 'i' && lower[2] == 'd');
        assert(lower[0] == small(extension[0]) && lower[1] == small(extension[1]) && lower[2]
            == small(extension[2]));
        if extension.len() == 4 {
            assert(lower[3] == 'i' && lower[3] == small(extension[3]));
        }
    }
}

/// A name loses the extension of a MIDI file, and only that: a name with another
/// extension, or with none, or that is nothing but an extension, stays.
pub proof fn law_a_name_loses_its_extension(base: Seq<char>, extension: Seq<char>)
    requires
        !extension.contains('.'),
    ensures
        base.len() > 0 && midi_extension(extension) ==> stem_of(base.push('.') + extension) == base,
        base.len() == 0 || !midi_extension(extension) ==> stem_of(base.push('.') + extension)
            == base.push('.') + extension,
        stem_of(extension) == extension,
{
    let name = base.push('.') + extension;
    lemma_no_dot(name, base.len() as int + 1, name.len() as int);
    assert(last_dot(name, name.len() as int) == Some(base.len() as int));
    assert(name.skip(base.len() as int + 1) =~= extension);
    assert(name.take(base.len() as int) =~= base);
    lemma_no_dot(extension, 0, extension.len() as int);
}

proof fn lemma_no_dot(text: Seq<char>, from: int, to: int)
    requires
        0 <= from <= to <= text.len(),
        forall|i: int| from <= i < to ==> #[trigger] text[i] != '.',
    ensures
        last_dot(text, to) == last_dot(text, from),
    decreases to - from,
{
    if from < to {
        assert(text[to - 1] != '.');
        lemma_no_dot(text, from, to - 1);
    }
}

/// A title is the name without its extension, with a space for every underscore, and
/// without the white space at its ends: nothing inside is left out.
pub proof fn law_a_title_keeps_what_is_inside(name: Seq<char>)
    ensures
        exists|from: int, to: int|
            0 <= from <= to <= stem_of(name).len() && title_of(name) == #[trigger] spaced(
                stem_of(name),
            ).subrange(from, to) && (forall|i: int|
                0 <= i < stem_of(name).len() && !(from <= i < to) ==> stem_of(name)[i] == '_'
                    || #[trigger] white_space(stem_of(name)[i])),
        forall|i: int|
            0 <= i < stem_of(name).len() ==> #[trigger] spaced(stem_of(name))[i] == (
            if stem_of(name)[i] == '_' {
                ' '
            } else {
                stem_of(name)[i]
            }),
{
    let stem = stem_of(name);
    let wide = spaced(stem);
    let from = lemma_cut_start(wide);
    let to = lemma_cut_end(wide.skip(from)) + from;
    assert(title_of(name) =~= wide.subrange(from, to)) by {
        assert(wide.skip(from).take(to - from) =~= wide.subrange(from, to));
    }
    assert forall|i: int| 0 <= i < stem.len() && !(from <= i < to) implies stem[i] == '_'
        || #[trigger] white_space(stem[i]) by {
        if i < from {
            assert(white_space(wide[i]));
        } else {
            assert(white_space(wide.skip(from)[i - from]));
        }
        assert(wide[i] == spaced_char(stem[i]));
    }
}

proof fn lemma_cut_start(text: Seq<char>) -> (from: int)
    ensures
        0 <= from <= text.len(),
        trimmed_start(text) == text.skip(from),
        forall|i: int| 0 <= i < from ==> white_space(#[trigger] text[i]),
    decreases text.len(),
{
    if text.len() > 0 && white_space(text[0]) {
        let rest = lemma_cut_start(text.skip(1));
        assert(text.skip(1).skip(rest) =~= text.skip(rest + 1));
        assert forall|i: int| 0 <= i < rest + 1 implies white_space(#[trigger] text[i]) by {
            if i > 0 {
                assert(text.skip(1)[i - 1] == text[i]);
            }
        }
        rest + 1
    } else {
        assert(text.skip(0) =~= text);
        0
    }
}

proof fn lemma_cut_end(text: Seq<char>) -> (to: int)
    ensures
        0 <= to <= text.len(),
        trimmed_end(text) == text.take(to),
        forall|i: int| to <= i < text.len() ==> white_space(#[trigger] text[i]),
    decreases text.len(),
{
    if text.len() > 0 && white_space(text.last()) {
        let to = lemma_cut_end(text.drop_last());
        assert(text.drop_last().take(to) =~= text.take(to));
        assert forall|i: int| to <= i < text.len() implies white_space(#[trigger] text[i]) by {
            if i < text.len() - 1 {
                assert(text.drop_last()[i] == text[i]);
            }
        }
        to
    } else {
        assert(text.take(text.len() as int) =~= text);
        text.len() as int
    }
}

/// White space is tab to carriage return, space, next line, and the spaces and line ends
/// of the other scripts; no letter, digit or sign is.
pub proof fn law_what_white_space_is(c: char)
    ensures
        c as int == 0x20 || 0x09 <= c as int <= 0x0d || c as int == 0x85 || c as int == 0xa0
            ==> white_space(c),
        0x2000 <= c as int <= 0x200a || c as int == 0x2028 || c as int == 0x2029 || c as int
            == 0x202f || c as int == 0x205f || c as int == 0x3000 || c as int == 0x1680
            ==> white_space(c),
        0x21 <= c as int <= 0x84 ==> !white_space(c),
        0xa1 <= c as int <= 0x167f ==> !white_space(c),
        c as int > 0x3000 ==> !white_space(c),
        (c as int) < 0x09 ==> !white_space(c),
{
}

/// Names are in order of their first different character, and a name that another begins
/// with comes before it; no name comes before itself.
pub proof fn law_names_go_by_their_first_difference(a: Seq<char>, b: Seq<char>, k: int)
    requires
        0 <= k <= a.len(),
        k <= b.len(),
        a.take(k) == b.take(k),
    ensures
        k < a.len() && k < b.len() && a[k] != b[k] ==> (precedes(a, b) <==> (a[k] as int) < (
        b[k] as int)),
        k == a.len() && k < b.len() ==> precedes(a, b) && !precedes(b, a),
        k == a.len() && k == b.len() ==> !precedes(a, b),
    decreases k,
{
    if k > 0 {
        assert(a[0] == a.take(k)[0] && b[0] == b.take(k)[0]);
        assert(a.skip(1).take(k - 1) =~= a.take(k).skip(1));
        assert(b.skip(1).take(k - 1) =~= b.take(k).skip(1));
        law_names_go_by_their_first_difference(a.skip(1), b.skip(1), k - 1);
        if k < a.len() && k < b.len() {
            assert(a.skip(1)[k - 1] == a[k] && b.skip(1)[k - 1] == b[k]);
        }
    }
}

/// Of two places in a sorted list the one with the earlier name comes first, and of two
/// with the same name the one that came first; no place is listed twice.
pub proof fn law_sorted_names_are_in_order(
    order: Seq<usize>,
    keys: Seq<Seq<char>>,
    n: int,
    m: int,
    k: int,
)
    requires
        lists(order, keys, n),
        0 <= m < k < order.len(),
        0 <= n <= usize::MAX,
    ensures
        order[m] != order[k],
        !precedes(keys[order[k] as int], keys[order[m] as int]),
        keys[order[k] as int] == keys[order[m] as int] ==> order[m] < order[k],
{
    assert(listed_before(keys, order[m] as int, order[k] as int));
    lemma_precedes_not_both(keys[order[m] as int], keys[order[k] as int]);
    lemma_precedes_not_both(keys[order[m] as int], keys[order[m] as int]);
}

/// Every place is listed, and nothing else.
pub proof fn law_sorted_names_are_all_there(
    order: Seq<usize>,
    keys: Seq<Seq<char>>,
    n: int,
    place: usize,
)
    requires
        lists(order, keys, n),
    ensures
        order.contains(place) <==> place < n,
{
}

} // verus!
