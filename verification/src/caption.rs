//! Captions of the icon grid: how wide a tile is, how many columns a name
//! takes, and how a name that is too long is shortened without losing the
//! parts that tell files apart.

use crate::text;
use vstd::prelude::*;
use vstd::string::*;

verus! {

/// Icons never render larger than this in the details list; a 96px row would
/// fit three files on screen.
pub const LIST_ICON_MAX: i32 = 32;

/// Characters of the stem's tail kept before the extension.
pub const STEM_TAIL: usize = 4;

// ── tile geometry ──────────────────────────────────────────────────────────

/// The width of a tile for an icon.
pub open spec fn tile_width(icon_size: int) -> int {
    if icon_size + 56 >= 96 {
        icon_size + 56
    } else {
        96
    }
}

/// Width of one grid tile, and therefore of its caption.
///
/// Kept close to the icon so the slack lands *between* tiles as spacing rather
/// than inside them as padding, but wide enough that a caption has somewhere to
/// go.
pub fn tile_width_for(icon_size: i32) -> (w: i32)
    requires
        icon_size <= i32::MAX - 56,
    ensures
        w == tile_width(icon_size as int),
{
    if icon_size + 56 >= 96 {
        icon_size + 56
    } else {
        96
    }
}

/// How many characters a caption line of a tile holds. The quotient is that of
/// a width that is not negative.
pub open spec fn caption_chars(tile_width: int) -> int {
    if tile_width >= 56 {
        tile_width / 7
    } else {
        8
    }
}

/// Roughly how many characters fit on one caption line at `tile_width`.
///
/// Seven pixels is an average advance for the caption font. It only has to be
/// close: [`elide_name`] uses it to pick a length, and the label's own
/// ellipsis catches anything wider than the average.
pub fn caption_chars_for(tile_width: i32) -> (n: i32)
    ensures
        n == caption_chars(tile_width as int),
        8 <= n,
{
    if tile_width < 56 {
        8
    } else {
        tile_width / 7
    }
}

/// Two lines' worth of columns, less a little slack: word-boundary wrapping
/// rarely fills a line exactly, so budgeting the full two lines would let a
/// name spill onto a third.
pub fn name_budget_for(caption_chars: i32) -> (n: usize)
    requires
        0 <= caption_chars,
    ensures
        n == (if 2 * caption_chars - 4 >= 8 {
            2 * caption_chars - 4
        } else {
            8
        }),
{
    let chars: usize = caption_chars as usize;
    if chars < 6 {
        8
    } else {
        (chars - 2) + (chars - 2)
    }
}

/// The icon size of the details list.
pub fn list_icon_size(icon_size: i32) -> (n: i32)
    ensures
        n == (if icon_size <= LIST_ICON_MAX {
            icon_size
        } else {
            LIST_ICON_MAX
        }),
{
    if icon_size <= LIST_ICON_MAX {
        icon_size
    } else {
        LIST_ICON_MAX
    }
}

// ── columns ────────────────────────────────────────────────────────────────

/// Whether a code point is an East Asian wide or fullwidth form.
pub open spec fn east_asian_wide(c: u32) -> bool {
    ||| 0x1100 <= c <= 0x115F
    ||| 0x2329 <= c <= 0x232A
    ||| 0x2E80 <= c <= 0x303E
    ||| 0x3041 <= c <= 0x33FF
    ||| 0x3400 <= c <= 0x4DBF
    ||| 0x4E00 <= c <= 0x9FFF
    ||| 0xA000 <= c <= 0xA4CF
    ||| 0xA960 <= c <= 0xA97F
    ||| 0xAC00 <= c <= 0xD7A3
    ||| 0xF900 <= c <= 0xFAFF
    ||| 0xFE10 <= c <= 0xFE19
    ||| 0xFE30 <= c <= 0xFE6F
    ||| 0xFF00 <= c <= 0xFF60
    ||| 0xFFE0 <= c <= 0xFFE6
    ||| 0x16FE0 <= c <= 0x18DFF
    ||| 0x1AFF0 <= c <= 0x1B2FF
    ||| 0x1F200 <= c <= 0x1F2FF
    ||| 0x20000 <= c <= 0x3FFFD
}

/// Whether a code point is an emoji: one that is drawn as a picture unless a
/// variation selector asks for text, or that stands in a block of pictographs.
pub open spec fn emoji(c: u32) -> bool {
    ||| 0x231A <= c <= 0x231B
    ||| 0x23E9 <= c <= 0x23EC
    ||| c == 0x23F0
    ||| c == 0x23F3
    ||| 0x25FD <= c <= 0x25FE
    ||| 0x2614 <= c <= 0x2615
    ||| 0x2648 <= c <= 0x2653
    ||| c == 0x267F
    ||| c == 0x2693
    ||| c == 0x26A1
    ||| 0x26AA <= c <= 0x26AB
    ||| 0x26BD <= c <= 0x26BE
    ||| 0x26C4 <= c <= 0x26C5
    ||| c == 0x26CE
    ||| c == 0x26D4
    ||| c == 0x26EA
    ||| 0x26F2 <= c <= 0x26F3
    ||| c == 0x26F5
    ||| c == 0x26FA
    ||| c == 0x26FD
    ||| c == 0x2705
    ||| 0x270A <= c <= 0x270B
    ||| c == 0x2728
    ||| c == 0x274C
    ||| c == 0x274E
    ||| 0x2753 <= c <= 0x2755
    ||| c == 0x2757
    ||| 0x2795 <= c <= 0x2797
    ||| c == 0x27B0
    ||| c == 0x27BF
    ||| 0x2B1B <= c <= 0x2B1C
    ||| c == 0x2B50
    ||| c == 0x2B55
    ||| c == 0x1F004
    ||| c == 0x1F0CF
    ||| c == 0x1F18E
    ||| 0x1F191 <= c <= 0x1F19A
    ||| 0x1F1E6 <= c <= 0x1F1FF
    ||| 0x1F300 <= c <= 0x1F64F
    ||| 0x1F680 <= c <= 0x1F6FF
    ||| 0x1F7E0 <= c <= 0x1F7EB
    ||| c == 0x1F7F0
    ||| 0x1F900 <= c <= 0x1F9FF
    ||| 0x1FA70 <= c <= 0x1FAFF
}

/// Whether a code point is an East Asian wide or fullwidth form or an emoji.
pub open spec fn wide(c: u32) -> bool {
    east_asian_wide(c) || emoji(c)
}

/// The columns a character occupies.
pub open spec fn columns_of(c: char) -> nat {
    if wide(c as u32) {
        2
    } else {
        1
    }
}

/// The columns a text occupies.
pub open spec fn text_columns(s: Seq<char>) -> nat
    decreases s.len(),
{
    if s.len() == 0 {
        0
    } else {
        text_columns(s.drop_last()) + columns_of(s.last())
    }
}

/// Whether a code point is an East Asian wide or fullwidth form.
fn is_east_asian_wide(c: u32) -> (r: bool)
    ensures
        r == east_asian_wide(c),
{
    (0x1100 <= c && c <= 0x115F)  // Hangul Jamo
     || (0x2329 <= c && c <= 0x232A)  // angle brackets
     || (0x2E80 <= c && c <= 0x303E)  // CJK radicals, Kangxi, CJK symbols
     || (0x3041 <= c && c <= 0x33FF)  // kana, Bopomofo, CJK compatibility
     || (0x3400 <= c && c <= 0x4DBF)  // CJK extension A
     || (0x4E00 <= c && c <= 0x9FFF)  // CJK unified ideographs
     || (0xA000 <= c && c <= 0xA4CF)  // Yi
     || (0xA960 <= c && c <= 0xA97F)  // Hangul Jamo extended A
     || (0xAC00 <= c && c <= 0xD7A3)  // Hangul syllables
     || (0xF900 <= c && c <= 0xFAFF)  // CJK compatibility ideographs
     || (0xFE10 <= c && c <= 0xFE19)  // vertical forms
     || (0xFE30 <= c && c <= 0xFE6F)  // CJK compatibility forms
     || (0xFF00 <= c && c <= 0xFF60)  // fullwidth forms
     || (0xFFE0 <= c && c <= 0xFFE6)  // fullwidth signs
     || (0x16FE0 <= c && c <= 0x18DFF)  // Tangut, Khitan
     || (0x1AFF0 <= c && c <= 0x1B2FF)  // kana supplements, Nushu
     || (0x1F200 <= c && c <= 0x1F2FF)  // enclosed ideographs
     || (0x20000 <= c && c <= 0x3FFFD)  // CJK extensions B and beyond
}

/// Whether a code point is an emoji.
fn is_emoji(c: u32) -> (r: bool)
    ensures
        r == emoji(c),
{
    (0x231A <= c && c <= 0x231B)  // watch, hourglass
     || (0x23E9 <= c && c <= 0x23EC)  // media buttons
     || c == 0x23F0  // alarm clock
     || c == 0x23F3  // hourglass with flowing sand
     || (0x25FD <= c && c <= 0x25FE)  // medium small squares
     || (0x2614 <= c && c <= 0x2615)  // umbrella, hot beverage
     || (0x2648 <= c && c <= 0x2653)  // zodiac
     || c == 0x267F  // wheelchair
     || c == 0x2693  // anchor
     || c == 0x26A1  // high voltage
     || (0x26AA <= c && c <= 0x26AB)  // medium circles
     || (0x26BD <= c && c <= 0x26BE)  // football, baseball
     || (0x26C4 <= c && c <= 0x26C5)  // snowman, sun behind cloud
     || c == 0x26CE  // Ophiuchus
     || c == 0x26D4  // no entry
     || c == 0x26EA  // church
     || (0x26F2 <= c && c <= 0x26F3)  // fountain, flag in hole
     || c == 0x26F5  // sailing boat
     || c == 0x26FA  // tent
     || c == 0x26FD  // fuel pump
     || c == 0x2705  // check mark button
     || (0x270A <= c && c <= 0x270B)  // raised fist, raised hand
     || c == 0x2728  // sparkles
     || c == 0x274C  // cross mark
     || c == 0x274E  // cross mark button
     || (0x2753 <= c && c <= 0x2755)  // question and exclamation marks
     || c == 0x2757  // red exclamation mark
     || (0x2795 <= c && c <= 0x2797)  // plus, minus, divide
     || c == 0x27B0  // curly loop
     || c == 0x27BF  // double curly loop
     || (0x2B1B <= c && c <= 0x2B1C)  // large squares
     || c == 0x2B50  // star
     || c == 0x2B55  // hollow circle
     || c == 0x1F004  // Mahjong red dragon
     || c == 0x1F0CF  // joker
     || c == 0x1F18E  // AB button
     || (0x1F191 <= c && c <= 0x1F19A)  // squared words
     || (0x1F1E6 <= c && c <= 0x1F1FF)  // regional indicators, which make flags
     || (0x1F300 <= c && c <= 0x1F64F)  // pictographs, emoticons
     || (0x1F680 <= c && c <= 0x1F6FF)  // transport and map symbols
     || (0x1F7E0 <= c && c <= 0x1F7EB)  // large coloured circles and squares
     || c == 0x1F7F0  // heavy equals sign
     || (0x1F900 <= c && c <= 0x1F9FF)  // supplemental pictographs
     || (0x1FA70 <= c && c <= 0x1FAFF)  // pictographs extended A
}

/// Columns a character occupies in a monospaced-ish sense: 2 for East Asian
/// wide and fullwidth forms and for emoji, 1 for everything else.
///
/// The caption budget is a column count, not a character count. A name in
/// Japanese or Chinese is half as many characters for the same width, so
/// counting characters would let those names run past the edge of their tile.
pub fn char_columns(c: char) -> (n: usize)
    ensures
        n == columns_of(c),
{
    let u: u32 = c as u32;
    if is_east_asian_wide(u) || is_emoji(u) {
        2
    } else {
        1
    }
}

/// Columns add up when texts are put in a row.
proof fn lemma_columns_add(a: Seq<char>, b: Seq<char>)
    ensures
        text_columns(a + b) == text_columns(a) + text_columns(b),
    decreases b.len(),
{
    if b.len() == 0 {
        assert(a + b =~= a);
    } else {
        lemma_columns_add(a, b.drop_last());
        assert((a + b).drop_last() =~= a + b.drop_last());
    }
}

/// The columns of a prefix are at most those of the text.
proof fn lemma_columns_monotone(s: Seq<char>, m: int, n: int)
    requires
        0 <= m <= n <= s.len(),
    ensures
        text_columns(s.take(m)) <= text_columns(s.take(n)),
        m < n ==> text_columns(s.take(m)) < text_columns(s.take(n)),
{
    assert(s.take(n) =~= s.take(m) + s.subrange(m, n));
    lemma_columns_add(s.take(m), s.subrange(m, n));
    if m < n {
        assert(text_columns(s.subrange(m, n)) > 0);
    }
}

/// The columns of the characters.
fn columns_of_chars(chars: &[char]) -> (n: usize)
    requires
        text_columns(chars@) <= usize::MAX,
    ensures
        n == text_columns(chars@),
{
    let mut used: usize = 0;
    let mut i: usize = 0;
    while i < chars.len()
        invariant
            i <= chars@.len(),
            text_columns(chars@) <= usize::MAX,
            used == text_columns(chars@.take(i as int)),
        decreases chars@.len() - i,
    {
        assert(chars@.take(i as int + 1).drop_last() =~= chars@.take(i as int));
        assert(chars@.take(chars@.len() as int) =~= chars@);
        proof {
            lemma_columns_monotone(chars@, i as int + 1, chars@.len() as int);
        }
        used = used + char_columns(chars[i]);
        i = i + 1;
    }
    assert(chars@.take(chars@.len() as int) =~= chars@);
    used
}

/// The columns a text occupies.
pub fn display_columns(s: &str) -> (n: usize)
    requires
        text_columns(s@) <= usize::MAX,
    ensures
        n == text_columns(s@),
{
    columns_of_chars(&text::chars_of(s))
}

/// How many characters the longest prefix of `s` within `columns` has.
pub open spec fn prefix_len(s: Seq<char>, columns: nat) -> nat
    decreases s.len(),
{
    if text_columns(s) <= columns {
        s.len()
    } else if s.len() == 0 {
        0
    } else {
        prefix_len(s.drop_last(), columns)
    }
}

/// How many characters the longest suffix of `s` within `columns` has.
pub open spec fn suffix_len(s: Seq<char>, columns: nat) -> nat
    decreases s.len(),
{
    if text_columns(s) <= columns {
        s.len()
    } else if s.len() == 0 {
        0
    } else {
        suffix_len(s.skip(1), columns)
    }
}

/// The longest prefix within `columns`, without trailing white space.
pub open spec fn head_within(s: Seq<char>, columns: nat) -> Seq<char> {
    text::trimmed_end(s.take(prefix_len(s, columns) as int))
}

/// The longest suffix within `columns`.
pub open spec fn tail_within(s: Seq<char>, columns: nat) -> Seq<char> {
    s.skip(s.len() - suffix_len(s, columns))
}

/// The prefix length is the largest one that fits.
pub proof fn law_prefix_is_longest(s: Seq<char>, columns: nat)
    ensures
        prefix_len(s, columns) <= s.len(),
        text_columns(s.take(prefix_len(s, columns) as int)) <= columns,
        forall|n: int|
            prefix_len(s, columns) < n <= s.len() ==> text_columns(#[trigger] s.take(n)) > columns,
    decreases s.len(),
{
    assert(s.take(s.len() as int) =~= s);
    if text_columns(s) > columns && s.len() > 0 {
        let d = s.drop_last();
        law_prefix_is_longest(d, columns);
        let k = prefix_len(d, columns) as int;
        assert(d.take(k) =~= s.take(k));
        assert forall|n: int| k < n <= s.len() implies text_columns(#[trigger] s.take(n))
            > columns by {
            if n < s.len() {
                assert(d.take(n) =~= s.take(n));
            }
        }
    }
}

/// The suffix length is the largest one that fits.
pub proof fn law_suffix_is_longest(s: Seq<char>, columns: nat)
    ensures
        suffix_len(s, columns) <= s.len(),
        text_columns(s.skip(s.len() - suffix_len(s, columns))) <= columns,
        forall|n: int|
            suffix_len(s, columns) < n <= s.len() ==> text_columns(#[trigger] s.skip(s.len() - n))
                > columns,
    decreases s.len(),
{
    assert(s.skip(0) =~= s);
    if text_columns(s) > columns && s.len() > 0 {
        let d = s.skip(1);
        law_suffix_is_longest(d, columns);
        let k = suffix_len(d, columns) as int;
        assert(d.skip(d.len() - k) =~= s.skip(s.len() - k));
        assert forall|n: int| k < n <= s.len() implies text_columns(#[trigger] s.skip(s.len() - n))
            > columns by {
            if n < s.len() {
                assert(d.skip(d.len() - n) =~= s.skip(s.len() - n));
            }
        }
    }
}

/// Dropping white space at the end keeps a prefix.
proof fn lemma_trimmed_end_prefix(s: Seq<char>)
    ensures
        text::trimmed_end(s).is_prefix_of(s),
        text_columns(text::trimmed_end(s)) <= text_columns(s),
        text::trimmed_end(s).len() > 0 ==> !text::white_space(text::trimmed_end(s).last()),
    decreases s.len(),
{
    if s.len() > 0 && text::white_space(s.last()) {
        lemma_trimmed_end_prefix(s.drop_last());
        let t = text::trimmed_end(s.drop_last());
        assert(t =~= s.take(t.len() as int));
    }
}

/// The number of characters of the longest prefix that fits in `columns`.
fn longest_prefix(chars: &[char], columns: usize) -> (n: usize)
    ensures
        n == prefix_len(chars@, columns as nat),
        n <= chars@.len(),
{
    let mut left: usize = columns;
    let mut n: usize = 0;
    proof {
        law_prefix_is_longest(chars@, columns as nat);
    }
    while n < chars.len() && char_columns(chars[n]) <= left
        invariant
            n <= chars@.len(),
            text_columns(chars@.take(n as int)) + left == columns,
        decreases chars@.len() - n,
    {
        assert(chars@.take(n as int + 1).drop_last() =~= chars@.take(n as int));
        left = left - char_columns(chars[n]);
        n = n + 1;
    }
    proof {
        let k = prefix_len(chars@, columns as nat) as int;
        if n < chars@.len() {
            assert(chars@.take(n as int + 1).drop_last() =~= chars@.take(n as int));
            if k > n {
                lemma_columns_monotone(chars@, n as int + 1, k);
            }
        }
        if k < n {
            assert(text_columns(chars@.take(n as int)) > columns);
        }
    }
    n
}

/// The number of characters of the longest suffix that fits in `columns`.
fn longest_suffix(chars: &[char], columns: usize) -> (n: usize)
    ensures
        n == suffix_len(chars@, columns as nat),
        n <= chars@.len(),
{
    let mut left: usize = columns;
    let mut n: usize = 0;
    let len: usize = chars.len();
    proof {
        law_suffix_is_longest(chars@, columns as nat);
    }
    assert(chars@.skip(len as int) =~= Seq::<char>::empty());
    while n < len && char_columns(chars[len - 1 - n]) <= left
        invariant
            n <= len,
            len == chars@.len(),
            text_columns(chars@.skip(len - n)) + left == columns,
        decreases len - n,
    {
        proof {
            lemma_columns_skip(chars@, len - 1 - n);
        }
        left = left - char_columns(chars[len - 1 - n]);
        n = n + 1;
    }
    proof {
        let k = suffix_len(chars@, columns as nat) as int;
        if n < len && k > n {
            lemma_columns_skip(chars@, len - 1 - n);
            let a = chars@.subrange(len - k, len - 1 - n);
            let b = chars@.skip(len - 1 - n);
            assert(chars@.skip(len - k) =~= a + b);
            lemma_columns_add(a, b);
        }
        if k < n {
            assert(text_columns(chars@.skip(chars@.len() - n)) > columns);
        }
    }
    n
}

/// One character more at the front of a suffix.
proof fn lemma_columns_skip(s: Seq<char>, i: int)
    requires
        0 <= i < s.len(),
    ensures
        text_columns(s.skip(i)) == columns_of(s[i]) + text_columns(s.skip(i + 1)),
{
    let one = seq![s[i]];
    assert(s.skip(i) =~= one + s.skip(i + 1));
    lemma_columns_add(one, s.skip(i + 1));
    assert(one.drop_last() =~= Seq::<char>::empty());
    reveal_with_fuel(text_columns, 2);
}

/// The longest prefix of the characters that fits in `columns`, without
/// trailing white space.
fn head_chars(chars: &[char], columns: usize) -> (r: Vec<char>)
    ensures
        r@ == head_within(chars@, columns as nat),
{
    let n = longest_prefix(chars, columns);
    let taken = text::slice_of(chars, 0, n);
    assert(taken@ =~= chars@.take(n as int));
    let kept = text::trim_end_len(&taken);
    let r = text::slice_of(&taken, 0, kept);
    assert(r@ =~= taken@.take(kept as int));
    r
}

/// The longest prefix of `s` that fits in `columns`.
///
/// Trailing whitespace is dropped, because a cut that lands after a space would
/// otherwise render as `A Folder With A Fairly …` with a gap before the
/// ellipsis.
pub fn take_columns(s: &str, columns: usize) -> (r: String)
    ensures
        r@ == head_within(s@, columns as nat),
{
    text::string_of(&head_chars(&text::chars_of(s), columns))
}

/// The longest suffix of `s` that fits in `columns`.
pub fn take_columns_from_end(s: &str, columns: usize) -> (r: String)
    ensures
        r@ == tail_within(s@, columns as nat),
{
    let chars = text::chars_of(s);
    let n = longest_suffix(&chars, columns);
    let kept = text::slice_of(&chars, chars.len() - n, chars.len());
    assert(kept@ =~= tail_within(s@, columns as nat));
    text::string_of(&kept)
}

// ── extensions ─────────────────────────────────────────────────────────────

/// The position of the last occurrence of a character.
pub open spec fn last_of(s: Seq<char>, c: char) -> Option<nat>
    decreases s.len(),
{
    if s.len() == 0 {
        None
    } else if s.last() == c {
        Some((s.len() - 1) as nat)
    } else {
        last_of(s.drop_last(), c)
    }
}

/// The position of the last occurrence of a character before `end`.
pub fn find_last(chars: &[char], end: usize, c: char) -> (r: Option<usize>)
    requires
        end <= chars@.len(),
    ensures
        match (r, last_of(chars@.take(end as int), c)) {
            (Some(i), Some(j)) => i == j && i < end && chars@[i as int] == c,
            (None, None) => true,
            _ => false,
        },
{
    let mut n: usize = end;
    while n > 0
        invariant
            n <= end <= chars@.len(),
            last_of(chars@.take(end as int), c) == last_of(chars@.take(n as int), c),
        decreases n,
    {
        if chars[n - 1] == c {
            return Some(n - 1);
        }
        assert(chars@.take(n as int).drop_last() =~= chars@.take(n - 1));
        n = n - 1;
    }
    None
}

/// An ASCII letter or digit.
pub open spec fn ascii_alphanumeric(c: char) -> bool {
    '0' <= c <= '9' || 'A' <= c <= 'Z' || 'a' <= c <= 'z'
}

/// Short and made of letters and digits alone, like `tar` or `min`.
pub open spec fn wordlike(s: Seq<char>) -> bool {
    1 <= s.len() <= 4 && forall|i: int| 0 <= i < s.len() ==> ascii_alphanumeric(s[i])
}

/// Where the extension of a name begins: at its last dot, or at the one before
/// that when only a short word stands between them. A dot at the very start of
/// the name begins no extension.
pub open spec fn extension_start(name: Seq<char>) -> Option<nat> {
    match last_of(name, '.') {
        Some(last) if last > 0 => match last_of(name.take(last as int), '.') {
            Some(prev) if prev > 0 && wordlike(name.subrange(prev as int + 1, last as int)) => Some(
                prev,
            ),
            _ => Some(last),
        },
        _ => None,
    }
}

/// The extension worth protecting: at least a dot and a character, at most ten
/// characters.
pub open spec fn extension(name: Seq<char>) -> Option<Seq<char>> {
    match extension_start(name) {
        Some(start) => if 2 <= name.len() - start <= 10 {
            Some(name.skip(start as int))
        } else {
            None
        },
        None => None,
    }
}

/// Whether a run of characters is short and made of letters and digits alone.
fn is_wordlike(chars: &[char]) -> (r: bool)
    ensures
        r == wordlike(chars@),
{
    if chars.len() < 1 || chars.len() > 4 {
        return false;
    }
    let mut i: usize = 0;
    while i < chars.len()
        invariant
            i <= chars@.len(),
            forall|j: int| 0 <= j < i ==> ascii_alphanumeric(chars@[j]),
        decreases chars@.len() - i,
    {
        let c = chars[i];
        let ok = ('0' <= c && c <= '9') || ('A' <= c && c <= 'Z') || ('a' <= c && c <= 'z');
        if !ok {
            assert(!ascii_alphanumeric(chars@[i as int]));
            return false;
        }
        i = i + 1;
    }
    true
}

/// Where the extension worth protecting begins.
fn find_extension(chars: &[char]) -> (r: Option<usize>)
    ensures
        match (r, extension(chars@)) {
            (Some(start), Some(e)) => start < chars@.len() && e == chars@.skip(start as int)
                && e.len() <= 10,
            (None, None) => true,
            _ => false,
        },
{
    assert(chars@.take(chars@.len() as int) =~= chars@);
    let last: usize = match find_last(chars, chars.len(), '.') {
        Some(dot) if dot > 0 => dot,
        _ => return None,
    };
    let start: usize = match find_last(chars, last, '.') {
        Some(prev) if prev > 0 => {
            let middle = text::slice_of(chars, prev + 1, last);
            if is_wordlike(&middle) {
                prev
            } else {
                last
            }
        },
        _ => last,
    };
    let length: usize = chars.len() - start;
    if 2 <= length && length <= 10 {
        Some(start)
    } else {
        None
    }
}

/// The trailing extension worth protecting, including a compound one.
///
/// The last dot alone is not enough: it turns `backup.tar.gz` into `.gz` and
/// throws away the part that says it is a tarball. So when the segment before
/// the final dot is itself short and wordlike — `tar`, `min`, `user` — it is
/// taken as part of the extension, which covers `.tar.gz`, `.tar.xz`,
/// `.tar.zst` and friends without a list of them to keep up to date.
///
/// Returns `None` for a dotfile (`.bashrc`, where the dot starts the name) and
/// for anything too long to be an extension.
pub fn extension_of(name: &str) -> (r: Option<String>)
    ensures
        match (r, extension(name@)) {
            (Some(s), Some(e)) => s@ == e,
            (None, None) => true,
            _ => false,
        },
{
    let chars = text::chars_of(name);
    match find_extension(&chars) {
        Some(start) => {
            let kept = text::slice_of(&chars, start, chars.len());
            assert(kept@ =~= chars@.skip(start as int));
            Some(text::string_of(&kept))
        },
        None => None,
    }
}

// ── shortening ─────────────────────────────────────────────────────────────

/// The horizontal ellipsis.
pub const ELLIPSIS: char = '\u{2026}';

/// A name cut at the end.
pub open spec fn plain_cut(name: Seq<char>, budget: nat) -> Seq<char> {
    head_within(name, if budget >= 1 { (budget - 1) as nat } else { 0 }).push(ELLIPSIS)
}

/// The stem of a name with that extension.
pub open spec fn stem_of(name: Seq<char>, ext: Seq<char>) -> Seq<char> {
    name.take(name.len() - ext.len())
}

/// The columns left for the stem when the extension and the ellipsis have
/// theirs.
pub open spec fn stem_columns(budget: nat, ext: Seq<char>) -> nat {
    (budget - text_columns(ext) - 1) as nat
}

/// The columns for the end of the stem: up to four, but never more than a third
/// of what is left for the stem.
pub open spec fn tail_room(available: nat) -> nat {
    if available / 3 <= STEM_TAIL {
        available / 3
    } else {
        STEM_TAIL as nat
    }
}

/// The characters at the end of a stem that fit in `room` columns, or its last
/// character alone where not even that one fits.
pub open spec fn stem_end(stem: Seq<char>, room: nat) -> Seq<char> {
    if suffix_len(stem, room) == 0 && stem.len() > 0 {
        seq![stem.last()]
    } else {
        tail_within(stem, room)
    }
}

/// The end of the stem that is kept: what its room holds and at least the last
/// character, without dots at the front, which would join the ellipsis.
pub open spec fn stem_tail(stem: Seq<char>, available: nat) -> Seq<char> {
    text::without_leading(stem_end(stem, tail_room(available)), '.')
}

/// Whether a name that is too wide is cut in its middle: it has an extension
/// which leaves room for the stem, and the end of the stem has something to show
/// between the ellipsis and the extension's dot.
pub open spec fn cut_in_the_middle(name: Seq<char>, budget: nat) -> bool {
    match extension(name) {
        Some(ext) => budget > text_columns(ext) + 4 && stem_tail(
            stem_of(name, ext),
            stem_columns(budget, ext),
        ).len() > 0,
        None => false,
    }
}

/// The name as a caption of at most `budget` columns shows it.
pub open spec fn elided(name: Seq<char>, budget: nat) -> Seq<char> {
    if text_columns(name) <= budget {
        name
    } else if cut_in_the_middle(name, budget) {
        let ext = extension(name)->0;
        let stem = stem_of(name, ext);
        let available = stem_columns(budget, ext);
        let tail = stem_tail(stem, available);
        let head = head_within(stem, (available - text_columns(tail)) as nat);
        head + seq![ELLIPSIS] + tail + ext
    } else {
        plain_cut(name, budget)
    }
}

/// Whether the characters fit in `budget` columns.
fn fits(chars: &[char], budget: usize) -> (r: bool)
    ensures
        r == (text_columns(chars@) <= budget),
{
    let n = longest_prefix(chars, budget);
    proof {
        law_prefix_is_longest(chars@, budget as nat);
        assert(chars@.take(chars@.len() as int) =~= chars@);
    }
    n == chars.len()
}

/// A name cut at the end.
fn cut_at_end(chars: &[char], budget: usize) -> (r: String)
    ensures
        r@ == plain_cut(chars@, budget as nat),
{
    let room: usize = if budget >= 1 {
        budget - 1
    } else {
        0
    };
    let mut out = text::string_of(&head_chars(chars, room));
    out.push(ELLIPSIS);
    out
}

/// Each character takes at most two columns.
proof fn lemma_columns_bound(s: Seq<char>)
    ensures
        s.len() <= text_columns(s) <= 2 * s.len(),
    decreases s.len(),
{
    if s.len() > 0 {
        lemma_columns_bound(s.drop_last());
    }
}

/// Dropping characters at the front keeps a suffix, which begins with another
/// character and is not wider.
proof fn lemma_without_leading(s: Seq<char>, c: char)
    ensures
        text::without_leading(s, c).is_suffix_of(s),
        text_columns(text::without_leading(s, c)) <= text_columns(s),
        text::without_leading(s, c).len() > 0 ==> text::without_leading(s, c)[0] != c,
        s.len() > 0 && s.last() != c ==> text::without_leading(s, c).len() > 0,
    decreases s.len(),
{
    if s.len() > 0 && s[0] == c {
        lemma_without_leading(s.skip(1), c);
        assert(s.skip(0) =~= s);
        lemma_columns_skip(s, 0);
        let t = text::without_leading(s.skip(1), c);
        assert(s.skip(1).subrange(s.skip(1).len() - t.len(), s.skip(1).len() as int) =~= s.subrange(
            s.len() - t.len(),
            s.len() as int,
        ));
    } else {
        assert(s.subrange(0, s.len() as int) =~= s);
    }
}

/// The kept end of a stem ends the stem, fits in its columns, and does not begin
/// with a dot; there is one unless the stem ends in a dot.
proof fn lemma_stem_tail(stem: Seq<char>, available: nat)
    requires
        available >= 2,
    ensures
        stem_tail(stem, available).is_suffix_of(stem),
        text_columns(stem_tail(stem, available)) <= available,
        text_columns(stem_tail(stem, available)) <= STEM_TAIL,
        stem_tail(stem, available).len() > 0 ==> stem_tail(stem, available)[0] != '.',
        stem.len() > 0 && stem.last() != '.' ==> stem_tail(stem, available).len() > 0,
{
    let room = tail_room(available);
    let end = stem_end(stem, room);
    law_suffix_is_longest(stem, room);
    lemma_without_leading(end, '.');
    if suffix_len(stem, room) == 0 && stem.len() > 0 {
        lemma_columns_bound(end);
    }
    assert(end =~= stem.subrange(stem.len() - end.len(), stem.len() as int));
    let tail = stem_tail(stem, available);
    assert(tail =~= stem.subrange(stem.len() - tail.len(), stem.len() as int));
}

/// The end of the stem that is kept.
fn tail_of_stem(stem: &[char], available: usize) -> (r: Vec<char>)
    ensures
        r@ == stem_tail(stem@, available as nat),
{
    // A tail worth showing, but never more than a third of what is left: the
    // front of the name is still what the eye reads first.
    let room: usize = if available / 3 <= STEM_TAIL {
        available / 3
    } else {
        STEM_TAIL
    };
    let fitting = longest_suffix(stem, room);
    let n: usize = if fitting == 0 && stem.len() > 0 {
        1
    } else {
        fitting
    };
    let end = text::slice_of(stem, stem.len() - n, stem.len());
    assert(end@ =~= stem_end(stem@, room as nat));
    let dots = text::leading_len(&end, '.');
    let kept = text::slice_of(&end, dots, end.len());
    assert(kept@ =~= end@.skip(dots as int));
    kept
}

/// Shortens `name` to about `budget` characters, keeping the extension.
///
/// Truncating a filename from the end is the worst thing to do to it: files in
/// one folder tend to share a prefix and differ at the tail, and the extension
/// — the thing that says what the file *is* — is the first casualty.
///
/// So the cut is taken out of the middle of the stem, keeping its last few
/// characters as well as the extension: `2026-08-30_backup_…l_v2.tar.gz`. Those
/// few characters are worth their width twice over. They are usually the
/// version or date that distinguishes one file from its neighbours, and they
/// keep the ellipsis from butting up against the extension's dot. For that the
/// last of them is kept even where it is wider than the room for them, and a
/// name whose stem ends in dots alone is cut at its end.
pub fn elide_name(name: &str, budget: usize) -> (r: String)
    ensures
        r@ == elided(name@, budget as nat),
{
    let chars = text::chars_of(name);
    if fits(&chars, budget) {
        return text::copied(name);
    }
    let start: usize = match find_extension(&chars) {
        Some(start) => start,
        // Nothing to protect at the end, so a plain trailing cut is both the
        // clearest and the one that keeps the most of what identifies the file.
        None => return cut_at_end(&chars, budget),
    };
    let ext = text::slice_of(&chars, start, chars.len());
    assert(ext@ =~= chars@.skip(start as int));
    proof {
        lemma_columns_bound(ext@);
    }
    let ext_columns: usize = columns_of_chars(&ext);
    // Keeping the extension has to still leave a useful amount of the stem,
    // otherwise the name would be almost entirely ellipsis and suffix.
    if budget <= ext_columns + 4 {
        return cut_at_end(&chars, budget);
    }
    let stem = text::slice_of(&chars, 0, start);
    assert(stem@ =~= name@.take(name@.len() - ext@.len()));
    let available: usize = budget - ext_columns - 1;
    let tail = tail_of_stem(&stem, available);
    proof {
        lemma_stem_tail(stem@, available as nat);
    }
    // With dots alone before the extension nothing would part it from the
    // ellipsis.
    if tail.len() == 0 {
        return cut_at_end(&chars, budget);
    }
    let tail_columns: usize = columns_of_chars(&tail);
    let head = head_chars(&stem, available - tail_columns);

    let mut out = text::string_of(&head);
    out.push(ELLIPSIS);
    out.append(text::string_of(&tail).as_str());
    out.append(text::string_of(&ext).as_str());
    assert(out@ =~= head@ + seq![ELLIPSIS] + tail@ + ext@);
    out
}

// ── laws ───────────────────────────────────────────────────────────────────

/// A name within the budget is left alone.
pub proof fn law_short_names_are_left_alone(name: Seq<char>, budget: nat)
    requires
        text_columns(name) <= budget,
    ensures
        elided(name, budget) == name,
{
}

/// A caption fits its budget. No name fits in no columns, where the ellipsis
/// alone is shown.
pub proof fn law_captions_fit(name: Seq<char>, budget: nat)
    requires
        budget >= 1,
    ensures
        text_columns(elided(name, budget)) <= budget,
{
    if text_columns(name) > budget {
        let dots = seq![ELLIPSIS];
        assert(dots.drop_last() =~= Seq::<char>::empty());
        reveal_with_fuel(text_columns, 2);
        if cut_in_the_middle(name, budget) {
            let ext = extension(name)->0;
            let stem = stem_of(name, ext);
            let available = stem_columns(budget, ext);
            let tail = stem_tail(stem, available);
            lemma_stem_tail(stem, available);
            let left = (available - text_columns(tail)) as nat;
            let head = head_within(stem, left);
            law_prefix_is_longest(stem, left);
            lemma_trimmed_end_prefix(stem.take(prefix_len(stem, left) as int));
            lemma_columns_add(head, dots);
            lemma_columns_add(head + dots, tail);
            lemma_columns_add(head + dots + tail, ext);
        } else {
            let room = (budget - 1) as nat;
            law_prefix_is_longest(name, room);
            lemma_trimmed_end_prefix(name.take(prefix_len(name, room) as int));
            lemma_columns_add(head_within(name, room), dots);
            assert(head_within(name, room) + dots =~= plain_cut(name, budget));
        }
    }
}

/// Where there is room for the extension and something of the stem, the
/// extension survives, and with it the end of the stem. That is so for every
/// name whose stem does not itself end in a dot, and wherever the kept end of
/// the stem is not made of dots alone.
pub proof fn law_the_extension_survives(name: Seq<char>, budget: nat)
    requires
        extension(name) is Some,
        budget > text_columns(extension(name)->0) + 4,
        stem_of(name, extension(name)->0).last() != '.' || cut_in_the_middle(name, budget),
    ensures
        extension(name)->0.is_suffix_of(elided(name, budget)),
        text_columns(name) > budget ==> {
            let ext = extension(name)->0;
            let stem = stem_of(name, ext);
            (stem_tail(stem, stem_columns(budget, ext)) + ext).is_suffix_of(elided(name, budget))
        },
{
    let ext = extension(name)->0;
    let out = elided(name, budget);
    lemma_extension_leaves_a_stem(name);
    lemma_stem_tail(stem_of(name, ext), stem_columns(budget, ext));
    if text_columns(name) <= budget {
        assert(name.subrange(name.len() - ext.len(), name.len() as int) =~= ext);
    } else {
        let stem = stem_of(name, ext);
        let tail = stem_tail(stem, stem_columns(budget, ext));
        assert(out.subrange(out.len() - ext.len(), out.len() as int) =~= ext);
        assert(out.subrange(out.len() - (tail + ext).len(), out.len() as int) =~= tail + ext);
    }
}

/// A shortened name is the front of the name, an ellipsis, and the end of the
/// name; the front does not end in white space, and the end does not begin with
/// a dot. No room is wasted: if more of the front fits, it is white space.
#[verifier::spinoff_prover]
#[verifier::rlimit(80)]
pub proof fn law_a_cut_keeps_both_ends(name: Seq<char>, budget: nat) -> (parts: (
    Seq<char>,
    Seq<char>,
))
    requires
        text_columns(name) > budget,
    ensures
        elided(name, budget) == parts.0 + seq![ELLIPSIS] + parts.1,
        parts.0.is_prefix_of(name),
        parts.0.len() > 0 ==> !text::white_space(parts.0.last()),
        parts.1.is_suffix_of(name),
        parts.1.len() > 0 ==> parts.1[0] != '.',
        forall|k: int|
            parts.0.len() < k <= name.len() - parts.1.len() && text_columns(#[trigger] name.take(k))
                + 1 + text_columns(parts.1) <= budget ==> text::white_space(name[k - 1]),
        parts.1 == (if cut_in_the_middle(name, budget) {
            let ext = extension(name)->0;
            stem_tail(stem_of(name, ext), stem_columns(budget, ext)) + ext
        } else {
            Seq::<char>::empty()
        }),
{
    if cut_in_the_middle(name, budget) {
        let ext = extension(name)->0;
        let stem = stem_of(name, ext);
        let available = stem_columns(budget, ext);
        let tail = stem_tail(stem, available);
        lemma_stem_tail(stem, available);
        let left = (available - text_columns(tail)) as nat;
        let head = head_within(stem, left);
        law_prefix_is_longest(stem, left);
        lemma_trimmed_end_prefix(stem.take(prefix_len(stem, left) as int));
        let end = tail + ext;
        assert(head + seq![ELLIPSIS] + tail + ext =~= head + seq![ELLIPSIS] + end);
        assert(name.subrange(name.len() - end.len(), name.len() as int) =~= end);
        assert(name.take(head.len() as int) =~= head);
        lemma_columns_add(tail, ext);
        assert forall|k: int|
            head.len() < k <= name.len() - end.len() && text_columns(#[trigger] name.take(k)) + 1
                + text_columns(end) <= budget implies text::white_space(name[k - 1]) by {
            assert(name.take(k) =~= stem.take(k));
            lemma_only_white_space_is_dropped(stem, left, k);
        }
        (head, end)
    } else {
        let room = if budget >= 1 {
            (budget - 1) as nat
        } else {
            0
        };
        let head = head_within(name, room);
        law_prefix_is_longest(name, room);
        lemma_trimmed_end_prefix(name.take(prefix_len(name, room) as int));
        assert(name.take(head.len() as int) =~= head);
        let end = Seq::<char>::empty();
        assert(head + seq![ELLIPSIS] + end =~= plain_cut(name, budget));
        assert(name.subrange(name.len() - end.len(), name.len() as int) =~= end);
        assert forall|k: int|
            head.len() < k <= name.len() - end.len() && text_columns(#[trigger] name.take(k)) + 1
                + text_columns(end) <= budget implies text::white_space(name[k - 1]) by {
            lemma_only_white_space_is_dropped(name, room, k);
        }
        (head, end)
    }
}

/// Beyond the head, what fits is white space.
proof fn lemma_only_white_space_is_dropped(s: Seq<char>, columns: nat, k: int)
    requires
        head_within(s, columns).len() < k <= s.len(),
        text_columns(s.take(k)) <= columns,
    ensures
        text::white_space(s[k - 1]),
{
    law_prefix_is_longest(s, columns);
    let n = prefix_len(s, columns) as int;
    if k > n {
        assert(text_columns(s.take(k)) > columns);
    }
    text::lemma_trimmed_end(s.take(n));
    assert(s.take(n)[k - 1] == s[k - 1]);
}

/// Whether an ellipsis stands straight before a dot.
pub open spec fn ellipsis_before_dot(s: Seq<char>) -> bool {
    exists|i: int| 0 <= i < s.len() - 1 && #[trigger] s[i] == ELLIPSIS && s[i + 1] == '.'
}

/// In a name without an ellipsis of its own, shortened or not, no ellipsis lands
/// straight before a dot, where it would read as a run of four.
pub proof fn law_the_ellipsis_is_not_followed_by_a_dot(name: Seq<char>, budget: nat)
    requires
        !name.contains(ELLIPSIS),
    ensures
        !ellipsis_before_dot(elided(name, budget)),
{
    let out = elided(name, budget);
    if text_columns(name) <= budget {
        assert forall|i: int| 0 <= i < out.len() - 1 implies #[trigger] out[i] != ELLIPSIS by {
            assert(name.contains(name[i]));
        }
    } else {
        let parts = law_a_cut_keeps_both_ends(name, budget);
        let head = parts.0;
        let end = parts.1;
        assert forall|i: int|
            0 <= i < out.len() && #[trigger] out[i] == ELLIPSIS implies i == head.len() by {
            if i < head.len() {
                assert(out[i] == name[i]);
                assert(name.contains(name[i]));
            } else if i > head.len() {
                let j = i - head.len() - 1;
                assert(out[i] == end[j]);
                assert(end[j] == name[name.len() - end.len() + j]);
                assert(name.contains(name[name.len() - end.len() + j]));
            }
        }
        if cut_in_the_middle(name, budget) {
            let ext = extension(name)->0;
            let stem = stem_of(name, ext);
            let tail = stem_tail(stem, stem_columns(budget, ext));
            lemma_stem_tail(stem, stem_columns(budget, ext));
            assert(end[0] == tail[0]);
            assert(out[head.len() as int + 1] == tail[0]);
        }
    }
}

/// Something stands before an extension.
proof fn lemma_extension_leaves_a_stem(name: Seq<char>)
    ensures
        extension(name) matches Some(ext) ==> stem_of(name, ext).len() > 0,
{
}

/// A tile at least holds its icon and 28 pixels on either side, and its caption
/// has usable width: as many average characters of seven pixels as it holds. It
/// is no wider than it has to be.
pub proof fn law_tiles_leave_room(icon_size: int)
    ensures
        tile_width(icon_size) >= icon_size + 56,
        tile_width(icon_size) >= 96,
        tile_width(icon_size) == icon_size + 56 || tile_width(icon_size) == 96,
        caption_chars(tile_width(icon_size)) >= 13,
        7 * caption_chars(tile_width(icon_size)) <= tile_width(icon_size),
        tile_width(icon_size) < 7 * (caption_chars(tile_width(icon_size)) + 1),
{
}

/// A text is as wide as its parts together.
pub proof fn law_columns_add_up(a: Seq<char>, b: Seq<char>)
    ensures
        text_columns(a + b) == text_columns(a) + text_columns(b),
        text_columns(Seq::<char>::empty()) == 0,
{
    lemma_columns_add(a, b);
}

/// Letters of the alphabets up to Georgian, digits and ASCII signs take one
/// column; Hangul, kana, ideographs, fullwidth forms, faces, pictures and flags
/// take two, and nothing takes any other width.
pub proof fn law_wide_glyphs_take_two_columns(c: char)
    ensures
        text_columns(seq![c]) == 1 || text_columns(seq![c]) == 2,
        (c as u32) < 0x1100 ==> text_columns(seq![c]) == 1,
        0x1100 <= c as u32 <= 0x115F ==> text_columns(seq![c]) == 2,
        0x2E80 <= c as u32 <= 0x303E ==> text_columns(seq![c]) == 2,
        0x3041 <= c as u32 <= 0xA4CF && !(0x4DC0 <= c as u32 <= 0x4DFF) ==> text_columns(seq![c])
            == 2,
        0xAC00 <= c as u32 <= 0xD7A3 ==> text_columns(seq![c]) == 2,
        0xF900 <= c as u32 <= 0xFAFF ==> text_columns(seq![c]) == 2,
        0xFE30 <= c as u32 <= 0xFE6F ==> text_columns(seq![c]) == 2,
        0xFF00 <= c as u32 <= 0xFF60 ==> text_columns(seq![c]) == 2,
        0xFFE0 <= c as u32 <= 0xFFE6 ==> text_columns(seq![c]) == 2,
        0x1F300 <= c as u32 <= 0x1F64F ==> text_columns(seq![c]) == 2,
        0x1F680 <= c as u32 <= 0x1F6FF ==> text_columns(seq![c]) == 2,
        0x1F1E6 <= c as u32 <= 0x1F1FF ==> text_columns(seq![c]) == 2,
        0x1F900 <= c as u32 <= 0x1F9FF ==> text_columns(seq![c]) == 2,
        0x1FA70 <= c as u32 <= 0x1FAFF ==> text_columns(seq![c]) == 2,
        0x20000 <= c as u32 <= 0x3FFFD ==> text_columns(seq![c]) == 2,
{
    reveal_with_fuel(text_columns, 2);
    assert(seq![c].drop_last() =~= Seq::<char>::empty());
    assert(seq![c].last() == c);
}

/// Where the last occurrence of a character is.
pub proof fn lemma_last_of(a: Seq<char>, c: char, b: Seq<char>)
    requires
        !b.contains(c),
    ensures
        last_of(a + seq![c] + b, c) == Some(a.len()),
    decreases b.len(),
{
    let s = a + seq![c] + b;
    if b.len() == 0 {
        assert(s.last() == c);
    } else {
        assert(s.last() == b.last());
        assert(b.contains(b.last()));
        assert(s.drop_last() =~= a + seq![c] + b.drop_last());
        assert forall|x: char| b.drop_last().contains(x) implies b.contains(x) by {
            let i = choose|i: int| 0 <= i < b.drop_last().len() && b.drop_last()[i] == x;
            assert(b[i] == x);
        }
        lemma_last_of(a, c, b.drop_last());
    }
}

/// A character that does not occur has no last occurrence.
pub proof fn lemma_last_of_none(s: Seq<char>, c: char)
    requires
        !s.contains(c),
    ensures
        last_of(s, c) is None,
    decreases s.len(),
{
    if s.len() > 0 {
        assert(s.contains(s.last()));
        assert forall|x: char| s.drop_last().contains(x) implies s.contains(x) by {
            let i = choose|i: int| 0 <= i < s.drop_last().len() && s.drop_last()[i] == x;
            assert(s[i] == x);
        }
        lemma_last_of_none(s.drop_last(), c);
    }
}

/// In a name with one dot that does not begin it, the extension is what begins
/// at the dot, where one to nine characters follow; it is none otherwise.
pub proof fn law_an_extension_begins_at_the_dot(stem: Seq<char>, word: Seq<char>)
    requires
        stem.len() > 0,
        !stem.contains('.'),
        !word.contains('.'),
    ensures
        extension(stem + seq!['.'] + word) == (if 1 <= word.len() <= 9 {
            Some(seq!['.'] + word)
        } else {
            None
        }),
{
    let name = stem + seq!['.'] + word;
    lemma_last_of(stem, '.', word);
    assert(name.take(stem.len() as int) =~= stem);
    lemma_last_of_none(stem, '.');
    assert(name.skip(stem.len() as int) =~= seq!['.'] + word);
}

/// A name without a dot has no extension, and neither has one whose only dot
/// begins it.
pub proof fn law_dotfiles_have_no_extension(word: Seq<char>)
    requires
        !word.contains('.'),
    ensures
        extension(word) is None,
        extension(seq!['.'] + word) is None,
{
    lemma_last_of_none(word, '.');
    lemma_last_of(Seq::empty(), '.', word);
    assert(Seq::<char>::empty() + seq!['.'] + word =~= seq!['.'] + word);
}

/// A short word of ASCII letters and digits between the last two dots belongs to
/// the extension, like `tar` in `backup.tar.gz`, unless the first of these dots
/// begins the name; anything else between them does not.
#[verifier::spinoff_prover]
#[verifier::rlimit(80)]
pub proof fn law_compound_extensions(before: Seq<char>, middle: Seq<char>, word: Seq<char>)
    requires
        !middle.contains('.'),
        !word.contains('.'),
    ensures
        extension(before + seq!['.'] + middle + seq!['.'] + word) == (if before.len() > 0 && 1
            <= middle.len() <= 4 && (forall|i: int|
            0 <= i < middle.len() ==> ('0' <= #[trigger] middle[i] <= '9' || 'A' <= middle[i]
                <= 'Z' || 'a' <= middle[i] <= 'z')) {
            if middle.len() + word.len() <= 8 {
                Some(seq!['.'] + middle + seq!['.'] + word)
            } else {
                None
            }
        } else if 1 <= word.len() <= 9 {
            Some(seq!['.'] + word)
        } else {
            None
        }),
{
    let front = before + seq!['.'] + middle;
    let name = front + seq!['.'] + word;
    assert(name =~= before + seq!['.'] + middle + seq!['.'] + word);
    lemma_last_of(front, '.', word);
    assert(name.take(front.len() as int) =~= front);
    lemma_last_of(before, '.', middle);
    assert(name.subrange(before.len() as int + 1, front.len() as int) =~= middle);
    assert(name.skip(front.len() as int) =~= seq!['.'] + word);
    assert(name.skip(before.len() as int) =~= seq!['.'] + middle + seq!['.'] + word);
    assert(wordlike(middle) <==> 1 <= middle.len() <= 4 && (forall|i: int|
        0 <= i < middle.len() ==> ('0' <= #[trigger] middle[i] <= '9' || 'A' <= middle[i] <= 'Z'
            || 'a' <= middle[i] <= 'z')));
}

/// The caption of a name with one dot ends in its extension for every budget
/// more than four columns above it, whatever the stem. Where the name is cut,
/// the last character of the stem stands before the extension, and so does
/// every end of the stem of up to four columns that is no wider than a third of
/// what the extension and the ellipsis leave.
#[verifier::spinoff_prover]
#[verifier::rlimit(80)]
pub proof fn law_the_end_of_a_name_is_kept(
    stem: Seq<char>,
    word: Seq<char>,
    budget: nat,
    n: nat,
)
    requires
        stem.len() > 0,
        !stem.contains('.'),
        !word.contains('.'),
        1 <= word.len() <= 9,
        budget > text_columns(seq!['.'] + word) + 4,
    ensures
        (seq!['.'] + word).is_suffix_of(elided(stem + seq!['.'] + word, budget)),
        seq![stem.last(), '.'].add(word).is_suffix_of(elided(stem + seq!['.'] + word, budget)),
        n <= stem.len() && text_columns(stem.skip(stem.len() - n)) <= 4 && 3 * text_columns(
            stem.skip(stem.len() - n),
        ) + text_columns(seq!['.'] + word) + 1 <= budget ==> (stem.skip(stem.len() - n) + seq!['.']
            + word).is_suffix_of(elided(stem + seq!['.'] + word, budget)),
{
    let ext = seq!['.'] + word;
    let name = stem + seq!['.'] + word;
    law_an_extension_begins_at_the_dot(stem, word);
    assert(name =~= stem + ext);
    assert(stem_of(name, ext) =~= stem);
    assert(stem.contains(stem.last()));
    law_the_extension_survives(name, budget);
    let out = elided(name, budget);
    let last = seq![stem.last(), '.'].add(word);
    let end = stem.skip(stem.len() - n) + seq!['.'] + word;
    if text_columns(name) <= budget {
        assert(out.subrange(out.len() - last.len(), out.len() as int) =~= last);
        if n <= stem.len() {
            assert(out.subrange(out.len() - end.len(), out.len() as int) =~= end);
        }
    } else {
        let available = stem_columns(budget, ext);
        let room = tail_room(available);
        let tail = stem_tail(stem, available);
        lemma_stem_tail(stem, available);
        law_suffix_is_longest(stem, room);
        let kept = stem_end(stem, room);
        assert(kept =~= stem.subrange(stem.len() - kept.len(), stem.len() as int));
        lemma_no_dots_to_drop(stem, kept);
        let whole = tail + ext;
        assert(whole.is_suffix_of(out));
        assert(tail.last() == stem.last());
        assert(last =~= whole.subrange(whole.len() - last.len(), whole.len() as int));
        lemma_suffix_of_suffix(last, whole, out);
        if n <= stem.len() && text_columns(stem.skip(stem.len() - n)) <= 4 && 3 * text_columns(
            stem.skip(stem.len() - n),
        ) + text_columns(ext) + 1 <= budget {
            assert(text_columns(stem.skip(stem.len() - n)) <= room);
            assert(n <= suffix_len(stem, room));
            assert(end =~= whole.subrange(whole.len() - end.len(), whole.len() as int));
            lemma_suffix_of_suffix(end, whole, out);
        }
    }
}

/// The end of an end is an end.
proof fn lemma_suffix_of_suffix(a: Seq<char>, b: Seq<char>, c: Seq<char>)
    requires
        a.is_suffix_of(b),
        b.is_suffix_of(c),
    ensures
        a.is_suffix_of(c),
{
    assert(a =~= c.subrange(c.len() - a.len(), c.len() as int)) by {
        assert forall|i: int| 0 <= i < a.len() implies a[i] == c[c.len() - a.len() + i] by {
            assert(a[i] == b[b.len() - a.len() + i]);
        }
    }
}

/// An end of a text without dots has none in front.
proof fn lemma_no_dots_to_drop(stem: Seq<char>, end: Seq<char>)
    requires
        !stem.contains('.'),
        end.is_suffix_of(stem),
    ensures
        text::without_leading(end, '.') == end,
{
    if end.len() > 0 {
        assert(end[0] == stem[stem.len() - end.len()]);
        assert(stem.contains(end[0]));
    }
}

/// What is kept of the stem before the extension takes at most four columns, and
/// at most a third of what the extension and the ellipsis leave, unless it is
/// one character: the front of the name is what the eye reads first.
#[verifier::spinoff_prover]
#[verifier::rlimit(80)]
pub proof fn law_the_front_comes_first(stem: Seq<char>, word: Seq<char>, budget: nat) -> (parts: (
    Seq<char>,
    Seq<char>,
))
    requires
        stem.len() > 0,
        !stem.contains('.'),
        !word.contains('.'),
        1 <= word.len() <= 9,
        budget > text_columns(seq!['.'] + word) + 4,
        text_columns(stem + seq!['.'] + word) > budget,
    ensures
        elided(stem + seq!['.'] + word, budget) == parts.0 + seq!['\u{2026}'] + parts.1 + seq!['.']
            + word,
        parts.0.is_prefix_of(stem),
        parts.1.is_suffix_of(stem),
        text_columns(parts.1) <= 4,
        parts.1.len() == 1 || 3 * text_columns(parts.1) + text_columns(seq!['.'] + word) + 1
            <= budget,
{
    let ext = seq!['.'] + word;
    let name = stem + seq!['.'] + word;
    law_an_extension_begins_at_the_dot(stem, word);
    assert(name =~= stem + ext);
    assert(stem_of(name, ext) =~= stem);
    assert(stem.contains(stem.last()));
    let available = stem_columns(budget, ext);
    let room = tail_room(available);
    let tail = stem_tail(stem, available);
    lemma_stem_tail(stem, available);
    law_suffix_is_longest(stem, room);
    let kept = stem_end(stem, room);
    assert(kept =~= stem.subrange(stem.len() - kept.len(), stem.len() as int));
    lemma_no_dots_to_drop(stem, kept);
    let left = (available - text_columns(tail)) as nat;
    let head = head_within(stem, left);
    law_prefix_is_longest(stem, left);
    lemma_trimmed_end_prefix(stem.take(prefix_len(stem, left) as int));
    assert(stem.take(head.len() as int) =~= head);
    assert(head + seq![ELLIPSIS] + tail + ext =~= head + seq!['\u{2026}'] + tail + seq!['.'] + word);
    (head, tail)
}

/// The signs that are drawn as pictures wherever they stand take two columns
/// too, and so do the rarer wide scripts; signs that are text unless asked
/// otherwise, arrows, box drawings and mathematical signs take one.
pub proof fn law_pictures_among_signs_take_two_columns(c: char)
    ensures
        (c == '\u{231A}' || c == '\u{23F0}' || c == '\u{2614}' || c == '\u{2648}' || c
            == '\u{267F}' || c == '\u{2693}' || c == '\u{26A1}' || c == '\u{26BD}' || c
            == '\u{26D4}' || c == '\u{26F5}' || c == '\u{2705}' || c == '\u{2728}' || c
            == '\u{274C}' || c == '\u{2753}' || c == '\u{2757}' || c == '\u{2795}' || c
            == '\u{2B1B}' || c == '\u{2B50}' || c == '\u{2B55}' || c == '\u{1F004}' || c
            == '\u{1F0CF}' || c == '\u{1F7E0}') ==> text_columns(seq![c]) == 2,
        0xA960 <= c as u32 <= 0xA97F ==> text_columns(seq![c]) == 2,
        0xFE10 <= c as u32 <= 0xFE19 ==> text_columns(seq![c]) == 2,
        0x16FE0 <= c as u32 <= 0x18DFF ==> text_columns(seq![c]) == 2,
        0x1AFF0 <= c as u32 <= 0x1B2FF ==> text_columns(seq![c]) == 2,
        0x1F200 <= c as u32 <= 0x1F2FF ==> text_columns(seq![c]) == 2,
        c == '\u{2764}' || c == '\u{2713}' || c == '\u{2026}' ==> text_columns(seq![c]) == 1,
        0x1160 <= c as u32 <= 0x2319 ==> text_columns(seq![c]) == 1,
        0x2400 <= c as u32 <= 0x25FC ==> text_columns(seq![c]) == 1,
        0xD7A4 <= c as u32 <= 0xF8FF ==> text_columns(seq![c]) == 1,
        0x1F650 <= c as u32 <= 0x1F67F ==> text_columns(seq![c]) == 1,
{
    reveal_with_fuel(text_columns, 2);
    assert(seq![c].drop_last() =~= Seq::<char>::empty());
    assert(seq![c].last() == c);
}

} // verus!
