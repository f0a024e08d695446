//! The user's accent colour.
//!
//! One colour drives selection, focus rings and the capacity meters. The two
//! accent definitions are substituted into the stylesheet text before it is
//! parsed, so that what the toolkit sees is a stylesheet that only ever named
//! one accent.

use crate::text;
use vstd::prelude::*;
use vstd::string::*;

verus! {

/// Shipped default: the red the app has used since the identity settled.
pub const DEFAULT: &'static str = "#E04434";

/// Presets offered in Settings, chosen to stay legible against both the light
/// and dark surfaces at the alpha values the stylesheet uses.
pub const PRESETS: [(&'static str, &'static str); 8] = [
    ("Red", "#E04434"),
    ("Orange", "#E8760F"),
    ("Amber", "#C79000"),
    ("Green", "#2E9E4F"),
    ("Teal", "#0F9B8E"),
    ("Blue", "#3584E4"),
    ("Purple", "#8B5CF6"),
    ("Pink", "#D63384"),
];

/// The value of a hexadecimal digit.
pub open spec fn hex_value(c: char) -> Option<u8> {
    if '0' <= c <= '9' {
        Some((c as u8 - 48) as u8)
    } else if 'A' <= c <= 'F' {
        Some((c as u8 - 55) as u8)
    } else if 'a' <= c <= 'f' {
        Some((c as u8 - 87) as u8)
    } else {
        None
    }
}

/// The value of a hexadecimal digit.
fn hex_digit(c: char) -> (r: Option<u8>)
    ensures
        r == hex_value(c),
        r matches Some(v) ==> v < 16,
{
    if '0' <= c && c <= '9' {
        Some(c as u8 - 48)
    } else if 'A' <= c && c <= 'F' {
        Some(c as u8 - 55)
    } else if 'a' <= c && c <= 'f' {
        Some(c as u8 - 87)
    } else {
        None
    }
}

/// The byte that two hexadecimal digits spell.
pub open spec fn hex_byte(high: char, low: char) -> Option<u8> {
    match (hex_value(high), hex_value(low)) {
        (Some(h), Some(l)) => Some((h * 16 + l) as u8),
        _ => None,
    }
}

/// The byte that two hexadecimal digits spell.
fn hex_pair(high: char, low: char) -> (r: Option<u8>)
    ensures
        r == hex_byte(high, low),
{
    match (hex_digit(high), hex_digit(low)) {
        (Some(h), Some(l)) => Some(h * 16 + l),
        _ => None,
    }
}

/// The components of a colour spelled `#RRGGBB` or `RRGGBB`, with white space
/// around it and any number of leading hashes.
pub open spec fn parsed(hex: Seq<char>) -> Option<(u8, u8, u8)> {
    let digits = text::without_leading(text::trimmed(hex), '#');
    if digits.len() == 6 {
        match (
            hex_byte(digits[0], digits[1]),
            hex_byte(digits[2], digits[3]),
            hex_byte(digits[4], digits[5]),
        ) {
            (Some(r), Some(g), Some(b)) => Some((r, g, b)),
            _ => None,
        }
    } else {
        None
    }
}

/// Parses `#RRGGBB` (or `RRGGBB`) into components.
pub fn parse(hex: &str) -> (r: Option<(u8, u8, u8)>)
    ensures
        r == parsed(hex@),
{
    let chars = text::trim_chars(hex);
    let hashes = text::leading_len(&chars, '#');
    let digits = text::slice_of(&chars, hashes, chars.len());
    assert(digits@ =~= text::without_leading(text::trimmed(hex@), '#'));
    if digits.len() != 6 {
        return None;
    }
    match (
        hex_pair(digits[0], digits[1]),
        hex_pair(digits[2], digits[3]),
        hex_pair(digits[4], digits[5]),
    ) {
        (Some(r), Some(g), Some(b)) => Some((r, g, b)),
        _ => None,
    }
}

/// Two hexadecimal digits for a byte.
pub open spec fn hex_digits(b: u8) -> Seq<char> {
    seq![text::digit(b as nat / 16), text::digit(b as nat % 16)]
}

/// The spelling `#RRGGBB` of a colour.
pub open spec fn hex_color(r: u8, g: u8, b: u8) -> Seq<char> {
    seq!['#'] + hex_digits(r) + hex_digits(g) + hex_digits(b)
}

/// The spelling `#RRGGBB` of a colour.
fn hex_color_of(r: u8, g: u8, b: u8) -> (s: String)
    ensures
        s@ == hex_color(r, g, b),
{
    let mut out = String::new();
    out.push('#');
    out.push(text::digit_char(r / 16));
    out.push(text::digit_char(r % 16));
    out.push(text::digit_char(g / 16));
    out.push(text::digit_char(g % 16));
    out.push(text::digit_char(b / 16));
    out.push(text::digit_char(b % 16));
    assert(out@ =~= hex_color(r, g, b));
    out
}

/// A colour spelled `#RRGGBB`, or the default for what is no colour.
pub open spec fn normalised(hex: Seq<char>) -> Seq<char> {
    match parsed(hex) {
        Some((r, g, b)) => hex_color(r, g, b),
        None => DEFAULT@,
    }
}

/// Normalises any accepted spelling to `#RRGGBB`, or the default if it is not
/// a colour at all: a hand-edited config should not leave the app unstyled.
pub fn normalise(hex: &str) -> (s: String)
    ensures
        s@ == normalised(hex@),
{
    match parse(hex) {
        Some((r, g, b)) => hex_color_of(r, g, b),
        None => text::copied(DEFAULT),
    }
}

/// A channel a third of the way to white.
pub open spec fn lifted(c: u8) -> u8 {
    (c + (255 - c) / 3) as u8
}

/// A channel a third of the way to white.
fn lift(c: u8) -> (r: u8)
    ensures
        r == lifted(c),
        r == c + (255 - c) / 3,
{
    c + (255 - c) / 3
}

/// The lighter partner of a colour; that of the default red for what is no
/// colour.
pub open spec fn brightened(hex: Seq<char>) -> Seq<char> {
    let (r, g, b) = match parsed(hex) {
        Some(color) => color,
        None => (224u8, 68u8, 52u8),
    };
    hex_color(lifted(r), lifted(g), lifted(b))
}

/// A lighter partner for the accent, used where the flat colour would be too
/// heavy: the bright end of the capacity ring, hover states.
///
/// Derived rather than configured: asking someone to pick two colours that
/// look related is asking them to do the computer's job.
pub fn brighten(hex: &str) -> (s: String)
    ensures
        s@ == brightened(hex@),
{
    let (r, g, b) = match parse(hex) {
        Some(color) => color,
        None => (224u8, 68u8, 52u8),
    };
    // A third of the way to white keeps the hue and lifts the value enough to
    // read as a highlight against the base colour.
    hex_color_of(lift(r), lift(g), lift(b))
}

/// The accent definitions the stylesheet ships with.
pub const PLACEHOLDER: &'static str =
    "@define-color fm_accent #E04434;\n@define-color fm_accent_bright #E9705F;";

/// What stands between the stylesheet and the swatch rules.
pub const SWATCH_HEADING: &'static str = "\n/* Generated: one class per preset swatch. */\n";

/// The accent definitions for a colour and its partner.
pub open spec fn definitions(accent: Seq<char>, bright: Seq<char>) -> Seq<char> {
    "@define-color fm_accent "@ + accent + ";\n@define-color fm_accent_bright "@ + bright + ";"@
}

/// The class of the preset with the given index.
pub open spec fn swatch_name(index: nat) -> Seq<char> {
    "accent-swatch-"@ + text::decimal(index)
}

/// The rule that paints one preset swatch.
pub open spec fn swatch_rule(index: nat) -> Seq<char> {
    "."@ + swatch_name(index) + " { background-image: none; background-color: "@
        + PRESETS@[index as int].1@ + "; }\n"@
}

/// The rules for the first `count` presets.
pub open spec fn swatch_rules(count: nat) -> Seq<char>
    decreases count,
{
    if count == 0 {
        Seq::empty()
    } else {
        swatch_rules((count - 1) as nat) + swatch_rule((count - 1) as nat)
    }
}

/// The stylesheet for an accent.
pub open spec fn styled(css: Seq<char>, hex: Seq<char>) -> Seq<char> {
    text::replaced(
        css,
        PLACEHOLDER@,
        definitions(normalised(hex), brightened(normalised(hex))),
    ) + SWATCH_HEADING@ + swatch_rules(PRESETS@.len())
}

/// The stylesheet with the accent definitions replaced by `hex`, plus one rule
/// per preset swatch.
///
/// Emitting the swatches as ordinary classes keeps every colour the app draws
/// in one stylesheet.
pub fn apply(css: &str, hex: &str) -> (s: String)
    ensures
        s@ == styled(css@, hex@),
{
    let accent = normalise(hex);
    let bright = brighten(accent.as_str());
    let defined = text::copied("@define-color fm_accent ").concat(accent.as_str()).concat(
        ";\n@define-color fm_accent_bright ",
    ).concat(bright.as_str()).concat(";");
    proof {
        reveal_strlit(
            "@define-color fm_accent #E04434;\n@define-color fm_accent_bright #E9705F;",
        );
    }
    let mut out = text::replace(css, PLACEHOLDER, defined.as_str());
    out.append(SWATCH_HEADING);

    let ghost head = out@;
    let mut index: usize = 0;
    assert(head + swatch_rules(0) =~= head);
    while index < PRESETS.len()
        invariant
            index <= PRESETS@.len(),
            out@ == head + swatch_rules(index as nat),
        decreases PRESETS@.len() - index,
    {
        let ghost before = out@;
        out.append(".");
        out.append(swatch_class(index).as_str());
        out.append(" { background-image: none; background-color: ");
        out.append(PRESETS[index].1);
        out.append("; }\n");
        assert(out@ =~= before + swatch_rule(index as nat));
        assert(before + swatch_rule(index as nat) =~= head + swatch_rules(index as nat + 1));
        index = index + 1;
    }
    out
}

/// The CSS class carrying a preset's colour.
pub fn swatch_class(index: usize) -> (s: String)
    ensures
        s@ == swatch_name(index as nat),
{
    text::copied("accent-swatch-").concat(text::decimal_of(index as u64).as_str())
}

// ── laws ───────────────────────────────────────────────────────────────────

/// What a colour spells reads back as the same colour.
pub proof fn law_spelling_reads_back(r: u8, g: u8, b: u8)
    ensures
        parsed(hex_color(r, g, b)) == Some((r, g, b)),
{
    let s = hex_color(r, g, b);
    assert(s.len() == 7);
    assert(text::trimmed(s) == s);
    assert(s.skip(1)[0] != '#');
    assert(text::without_leading(s, '#') == s.skip(1)) by {
        reveal_with_fuel(text::without_leading, 2);
    }
}

/// Normalising always yields a colour, and the same one that was read.
pub proof fn law_normalised_is_a_colour(hex: Seq<char>)
    ensures
        parsed(normalised(hex)) is Some,
        parsed(hex) is Some ==> parsed(normalised(hex)) == parsed(hex),
        parsed(hex) is None ==> parsed(normalised(hex)) == Some((224u8, 68u8, 52u8)),
{
    match parsed(hex) {
        Some((r, g, b)) => law_spelling_reads_back(r, g, b),
        None => {
            law_spelling_reads_back(224, 68, 52);
            reveal_strlit("#E04434");
            assert(DEFAULT@ =~= hex_color(224, 68, 52));
        },
    }
}

/// Normalising twice is normalising once.
pub proof fn law_normalise_is_idempotent(hex: Seq<char>)
    ensures
        normalised(normalised(hex)) == normalised(hex),
{
    law_normalised_is_a_colour(hex);
    if parsed(hex) is None {
        reveal_strlit("#E04434");
        assert(DEFAULT@ =~= hex_color(224, 68, 52));
    }
}

/// The bright partner is a colour and never darker than the accent; it is
/// lighter in every channel that is more than two steps from white.
pub proof fn law_brighten_never_darkens(hex: Seq<char>)
    requires
        parsed(hex) is Some,
    ensures
        parsed(brightened(hex)) matches Some((br, bg, bb)) && {
            let (r, g, b) = parsed(hex)->0;
            &&& br >= r && bg >= g && bb >= b
            &&& (br > r <==> r <= 252) && (bg > g <==> g <= 252) && (bb > b <==> b <= 252)
        },
{
    let (r, g, b) = parsed(hex)->0;
    law_spelling_reads_back(lifted(r), lifted(g), lifted(b));
}

/// The order of the channels, which is what carries the hue, survives
/// brightening. Two channels one step apart can meet: they do when the lower
/// one is a multiple of three steps from white.
pub proof fn law_brighten_keeps_the_hue(x: u8, y: u8)
    requires
        !(y == x + 1 && (255 - x) % 3 == 0),
        !(x == y + 1 && (255 - y) % 3 == 0),
    ensures
        x < y <==> lifted(x) < lifted(y),
        x == y <==> lifted(x) == lifted(y),
{
}

/// Every preset is a colour.
pub proof fn law_presets_are_colours(i: int)
    requires
        0 <= i < PRESETS@.len(),
    ensures
        parsed(PRESETS@[i].1@) is Some,
{
    reveal_strlit("#E04434");
    reveal_strlit("#E8760F");
    reveal_strlit("#C79000");
    reveal_strlit("#2E9E4F");
    reveal_strlit("#0F9B8E");
    reveal_strlit("#3584E4");
    reveal_strlit("#8B5CF6");
    reveal_strlit("#D63384");
    let s = PRESETS@[i].1@;
    assert(text::trimmed(s) == s);
    assert(text::without_leading(s, '#') == s.skip(1)) by {
        reveal_with_fuel(text::without_leading, 2);
    }
}

/// A stylesheet that holds the shipped definitions once comes out with the
/// chosen ones in their place and the rest of it untouched.
pub proof fn law_apply_replaces_the_definitions(before: Seq<char>, after: Seq<char>, hex: Seq<char>)
    requires
        forall|i: int|
            text::stands_at(before + PLACEHOLDER@ + after, PLACEHOLDER@, i) ==> i == before.len(),
    ensures
        styled(before + PLACEHOLDER@ + after, hex) == before + definitions(
            normalised(hex),
            brightened(normalised(hex)),
        ) + after + SWATCH_HEADING@ + swatch_rules(PRESETS@.len()),
{
    reveal_strlit(
        "@define-color fm_accent #E04434;\n@define-color fm_accent_bright #E9705F;",
    );
    let to = definitions(normalised(hex), brightened(normalised(hex)));
    text::lemma_replaced_once(before, PLACEHOLDER@, after, to);
}

/// A colour is read in upper and lower case, with white space around it and with
/// hashes in front of it or none.
pub proof fn law_colours_are_read_in_any_spelling(
    before: Seq<char>,
    digits: Seq<char>,
    behind: Seq<char>,
)
    requires
        forall|i: int| 0 <= i < before.len() ==> text::white_space(#[trigger] before[i]),
        forall|i: int| 0 <= i < behind.len() ==> text::white_space(#[trigger] behind[i]),
        digits.len() == 6,
        forall|i: int|
            0 <= i < 6 ==> ('0' <= #[trigger] digits[i] <= '9' || 'A' <= digits[i] <= 'F' || 'a'
                <= digits[i] <= 'f'),
    ensures
        parsed(before + digits + behind) is Some,
        parsed(before + digits + behind) == parsed(digits),
        parsed(before + (seq!['#'] + digits) + behind) == parsed(digits),
{
    let hashed = seq!['#'] + digits;
    assert(!text::white_space(digits[0]) && !text::white_space(digits[5]));
    assert(digits.last() == digits[5]);
    assert(hashed.last() == digits[5]);
    text::law_trimming_takes_white_space_only(before, digits, behind);
    text::law_trimming_takes_white_space_only(before, hashed, behind);
    text::law_trimming_takes_white_space_only(Seq::empty(), digits, Seq::empty());
    assert(Seq::<char>::empty() + digits + Seq::<char>::empty() =~= digits);
    assert(digits[0] != '#');
    assert(hashed.skip(1) =~= digits);
    reveal_with_fuel(text::without_leading, 2);
    assert(text::without_leading(hashed, '#') == digits);
    assert(text::without_leading(digits, '#') == digits);
}

/// A digit counts for its place: the first of each pair sixteen times as much as
/// the second.
pub proof fn law_hexadecimal_digits(h: u8, l: u8)
    requires
        h < 16,
        l < 16,
    ensures
        hex_value('0') == Some(0u8) && hex_value('9') == Some(9u8),
        hex_value('A') == Some(10u8) && hex_value('a') == Some(10u8),
        hex_value('F') == Some(15u8) && hex_value('f') == Some(15u8),
        hex_value('G') is None && hex_value('g') is None && hex_value(' ') is None,
        hex_byte(text::digit(h as nat), text::digit(l as nat)) == Some((16 * h + l) as u8),
        hex_digits((16 * h + l) as u8) == seq![text::digit(h as nat), text::digit(l as nat)],
{
    let b = (16 * h + l) as u8;
    assert(b / 16 == h && b % 16 == l);
    assert(h as int * 16 == 16 * h as int);
}

/// What is no colour of six digits is none, and is shown in the default red.
pub proof fn law_other_texts_are_no_colours(s: Seq<char>)
    requires
        text::without_leading(text::trimmed(s), '#').len() != 6,
    ensures
        parsed(s) is None,
        normalised(s) == DEFAULT@,
{
}

/// Each channel of the partner is a third of the way to white.
pub proof fn law_the_partner_is_a_third_lighter(c: u8)
    ensures
        3 * (lifted(c) - c) <= 255 - c,
        255 - c < 3 * (lifted(c) - c) + 3,
{
}

/// Every preset has a rule that paints its swatch in its own colour.
pub proof fn law_every_preset_has_a_swatch(count: nat)
    ensures
        swatch_rules(0) == Seq::<char>::empty(),
        swatch_rules(count + 1) == swatch_rules(count) + ("."@ + "accent-swatch-"@ + text::decimal(
            count,
        ) + " { background-image: none; background-color: "@ + PRESETS@[count as int].1@
            + "; }\n"@),
{
    assert("."@ + ("accent-swatch-"@ + text::decimal(count)) =~= "."@ + "accent-swatch-"@
        + text::decimal(count));
}

} // verus!
