//! Text building blocks: characters in and out of strings, trimming,
//! searching, replacing, joining and numbers in decimal, octal and hexadecimal.

use vstd::prelude::*;
use vstd::string::*;

verus! {

// ── characters and strings ─────────────────────────────────────────────────

/// The characters of a text.
pub fn chars_of(text: &str) -> (r: Vec<char>)
    ensures
        r@ == text@,
{
    let mut out: Vec<char> = Vec::new();
    for c in it: text.chars()
        invariant
            out@ == text@.take(it.index() as int),
            it.seq() == text@,
    {
        assert(text@.take(it.index() as int).push(c) =~= text@.take(it.index() as int + 1));
        out.push(c);
    }
    assert(text@.take(text@.len() as int) =~= text@);
    out
}

/// The text made of some characters.
pub fn string_of(chars: &[char]) -> (r: String)
    ensures
        r@ == chars@,
{
    let mut out = String::new();
    let mut i: usize = 0;
    while i < chars.len()
        invariant
            i <= chars@.len(),
            out@ == chars@.take(i as int),
        decreases chars@.len() - i,
    {
        assert(chars@.take(i as int).push(chars@[i as int]) =~= chars@.take(i as int + 1));
        out.push(chars[i]);
        i = i + 1;
    }
    assert(chars@.take(chars@.len() as int) =~= chars@);
    out
}

/// A copy of a text.
pub fn copied(text: &str) -> (r: String)
    ensures
        r@ == text@,
{
    text.to_owned()
}

/// Whether two texts are the same, character by character.
pub fn same(a: &str, b: &str) -> (r: bool)
    ensures
        r == (a@ == b@),
{
    same_chars(&chars_of(a), &chars_of(b))
}

/// Whether two runs of characters are the same.
pub fn same_chars(a: &[char], b: &[char]) -> (r: bool)
    ensures
        r == (a@ == b@),
{
    if a.len() != b.len() {
        return false;
    }
    let mut i: usize = 0;
    while i < a.len()
        invariant
            i <= a@.len(),
            a@.len() == b@.len(),
            a@.take(i as int) == b@.take(i as int),
        decreases a@.len() - i,
    {
        if a[i] != b[i] {
            assert(a@[i as int] != b@[i as int]);
            return false;
        }
        assert(a@.take(i as int + 1) =~= a@.take(i as int).push(a@[i as int]));
        assert(b@.take(i as int + 1) =~= b@.take(i as int).push(b@[i as int]));
        i = i + 1;
    }
    assert(a@.take(a@.len() as int) =~= a@);
    assert(b@.take(b@.len() as int) =~= b@);
    true
}

/// The characters from `from` up to but not including `to`.
pub fn slice_of(chars: &[char], from: usize, to: usize) -> (r: Vec<char>)
    requires
        from <= to <= chars@.len(),
    ensures
        r@ == chars@.subrange(from as int, to as int),
{
    let mut out: Vec<char> = Vec::new();
    let mut i: usize = from;
    while i < to
        invariant
            from <= i <= to <= chars@.len(),
            out@ == chars@.subrange(from as int, i as int),
        decreases to - i,
    {
        assert(chars@.subrange(from as int, i as int).push(chars@[i as int]) =~= chars@.subrange(
            from as int,
            i as int + 1,
        ));
        out.push(chars[i]);
        i = i + 1;
    }
    out
}

// ── white space ────────────────────────────────────────────────────────────

/// The characters with the Unicode property White_Space.
pub open spec fn white_space(c: char) -> bool {
    let u = c as u32;
    ||| 0x9 <= u <= 0xD
    ||| u == 0x20
    ||| u == 0x85
    ||| u == 0xA0
    ||| u == 0x1680
    ||| 0x2000 <= u <= 0x200A
    ||| u == 0x2028
    ||| u == 0x2029
    ||| u == 0x202F
    ||| u == 0x205F
    ||| u == 0x3000
}

/// Whether a character is white space.
pub fn is_white_space(c: char) -> (r: bool)
    ensures
        r == white_space(c),
{
    let u: u32 = c as u32;
    (0x9 <= u && u <= 0xD) || u == 0x20 || u == 0x85 || u == 0xA0 || u == 0x1680 || (0x2000 <= u
        && u <= 0x200A) || u == 0x2028 || u == 0x2029 || u == 0x202F || u == 0x205F || u == 0x3000
}

/// A text without its leading white space.
pub open spec fn trimmed_start(s: Seq<char>) -> Seq<char>
    decreases s.len(),
{
    if s.len() > 0 && white_space(s[0]) {
        trimmed_start(s.skip(1))
    } else {
        s
    }
}

/// A text without its trailing white space.
pub open spec fn trimmed_end(s: Seq<char>) -> Seq<char>
    decreases s.len(),
{
    if s.len() > 0 && white_space(s.last()) {
        trimmed_end(s.drop_last())
    } else {
        s
    }
}

/// Dropping white space at the end leaves a front that does not end in white
/// space, and what is dropped is white space.
pub proof fn lemma_trimmed_end(s: Seq<char>)
    ensures
        trimmed_end(s).is_prefix_of(s),
        trimmed_end(s).len() > 0 ==> !white_space(trimmed_end(s).last()),
        forall|i: int| trimmed_end(s).len() <= i < s.len() ==> white_space(#[trigger] s[i]),
    decreases s.len(),
{
    if s.len() > 0 && white_space(s.last()) {
        lemma_trimmed_end(s.drop_last());
        let t = trimmed_end(s.drop_last());
        assert(t =~= s.take(t.len() as int));
        assert forall|i: int| t.len() <= i < s.len() implies white_space(#[trigger] s[i]) by {
            if i < s.len() - 1 {
                assert(s.drop_last()[i] == s[i]);
            }
        }
    }
}

/// Dropping white space at the start leaves an end that does not begin with
/// white space, and what is dropped is white space.
pub proof fn lemma_trimmed_start(s: Seq<char>)
    ensures
        trimmed_start(s).is_suffix_of(s),
        trimmed_start(s).len() > 0 ==> !white_space(trimmed_start(s)[0]),
        forall|i: int|
            0 <= i < s.len() - trimmed_start(s).len() ==> white_space(#[trigger] s[i]),
    decreases s.len(),
{
    if s.len() > 0 && white_space(s[0]) {
        lemma_trimmed_start(s.skip(1));
        let t = trimmed_start(s.skip(1));
        assert(t =~= s.subrange(s.len() - t.len(), s.len() as int));
        assert forall|i: int| 0 <= i < s.len() - t.len() implies white_space(#[trigger] s[i]) by {
            if i > 0 {
                assert(s.skip(1)[i - 1] == s[i]);
            }
        }
    } else {
        assert(s =~= s.subrange(0, s.len() as int));
    }
}

/// Trimming a text takes the white space around it and nothing else: of a text
/// between two runs of white space that neither begins nor ends with one, it is
/// that text.
pub proof fn law_trimming_takes_white_space_only(before: Seq<char>, s: Seq<char>, behind: Seq<char>)
    requires
        forall|i: int| 0 <= i < before.len() ==> white_space(#[trigger] before[i]),
        forall|i: int| 0 <= i < behind.len() ==> white_space(#[trigger] behind[i]),
        s.len() > 0 ==> !white_space(s[0]) && !white_space(s.last()),
    ensures
        trimmed(before + s + behind) == s,
        trimmed_end(s + behind) == s,
{
    let all = before + s + behind;
    let from = trimmed_start(all);
    lemma_trimmed_start(all);
    assert(from =~= all.subrange(all.len() - from.len(), all.len() as int));
    let cut = all.len() - from.len();
    if s.len() > 0 {
        assert(all[before.len() as int] == s[0]);
        assert(cut <= before.len());
        if cut < before.len() {
            assert(from[0] == before[cut as int]);
        }
        assert(from =~= s + behind);
    } else if from.len() > 0 {
        assert(from[0] == all[cut as int]);
        if cut < before.len() {
            assert(all[cut as int] == before[cut as int]);
        } else {
            assert(all[cut as int] == behind[cut - before.len()]);
        }
    }
    lemma_trimmed_end_of(s, behind);
    if s.len() == 0 {
        assert(from =~= Seq::<char>::empty());
        assert(s =~= Seq::<char>::empty());
    }
}

/// A text in front of white space is what is left of both.
proof fn lemma_trimmed_end_of(s: Seq<char>, behind: Seq<char>)
    requires
        forall|i: int| 0 <= i < behind.len() ==> white_space(#[trigger] behind[i]),
        s.len() > 0 ==> !white_space(s.last()),
    ensures
        trimmed_end(s + behind) == s,
    decreases behind.len(),
{
    let all = s + behind;
    if behind.len() == 0 {
        assert(all =~= s);
    } else {
        assert(all.last() == behind[behind.len() - 1]);
        assert(all.drop_last() =~= s + behind.drop_last());
        lemma_trimmed_end_of(s, behind.drop_last());
    }
}

/// The white space of ASCII is white space, and so are the no-break and the
/// ideographic space; no letter, digit or sign of ASCII is.
pub proof fn law_white_space_of_ascii(c: char)
    ensures
        (c as u32) < 0x80 ==> (white_space(c) <==> (c == ' ' || c == '\t' || c == '\n' || c == '\r'
            || c as u32 == 0xB || c as u32 == 0xC)),
        c as u32 == 0xA0 || c as u32 == 0x3000 ==> white_space(c),
{
}

/// A text without the white space around it.
pub open spec fn trimmed(s: Seq<char>) -> Seq<char> {
    trimmed_end(trimmed_start(s))
}

/// How many leading characters of `chars` are not part of its trailing white
/// space.
pub fn trim_end_len(chars: &[char]) -> (n: usize)
    ensures
        n <= chars@.len(),
        trimmed_end(chars@) == chars@.take(n as int),
        n > 0 ==> !white_space(chars@[n - 1]),
{
    let mut n: usize = chars.len();
    assert(chars@.take(n as int) =~= chars@);
    while n > 0 && is_white_space(chars[n - 1])
        invariant
            n <= chars@.len(),
            trimmed_end(chars@) == trimmed_end(chars@.take(n as int)),
        decreases n,
    {
        assert(chars@.take(n as int).drop_last() =~= chars@.take(n - 1));
        n = n - 1;
    }
    n
}

/// How many leading characters of `chars` are white space.
pub fn trim_start_len(chars: &[char]) -> (n: usize)
    ensures
        n <= chars@.len(),
        trimmed_start(chars@) == chars@.skip(n as int),
{
    let mut n: usize = 0;
    assert(chars@.skip(0) =~= chars@);
    while n < chars.len() && is_white_space(chars[n])
        invariant
            n <= chars@.len(),
            trimmed_start(chars@) == trimmed_start(chars@.skip(n as int)),
        decreases chars@.len() - n,
    {
        assert(chars@.skip(n as int).skip(1) =~= chars@.skip(n as int + 1));
        n = n + 1;
    }
    n
}

/// The characters of a text without the white space around it.
pub fn trim_chars(text: &str) -> (r: Vec<char>)
    ensures
        r@ == trimmed(text@),
{
    let chars = chars_of(text);
    let start = trim_start_len(&chars);
    let rest = slice_of(&chars, start, chars.len());
    assert(rest@ =~= trimmed_start(text@));
    let end = trim_end_len(&rest);
    let out = slice_of(&rest, 0, end);
    assert(out@ =~= rest@.take(end as int));
    out
}

/// A text without the white space around it.
pub fn trim(text: &str) -> (r: String)
    ensures
        r@ == trimmed(text@),
{
    string_of(&trim_chars(text))
}

/// A text without its trailing white space.
pub fn trim_end(text: &str) -> (r: String)
    ensures
        r@ == trimmed_end(text@),
{
    let chars = chars_of(text);
    let n = trim_end_len(&chars);
    let kept = slice_of(&chars, 0, n);
    assert(kept@ =~= chars@.take(n as int));
    string_of(&kept)
}

/// A text without the leading run of one character.
pub open spec fn without_leading(s: Seq<char>, c: char) -> Seq<char>
    decreases s.len(),
{
    if s.len() > 0 && s[0] == c {
        without_leading(s.skip(1), c)
    } else {
        s
    }
}

/// How many leading characters of `chars` are `c`.
pub fn leading_len(chars: &[char], c: char) -> (n: usize)
    ensures
        n <= chars@.len(),
        without_leading(chars@, c) == chars@.skip(n as int),
{
    let mut n: usize = 0;
    assert(chars@.skip(0) =~= chars@);
    while n < chars.len() && chars[n] == c
        invariant
            n <= chars@.len(),
            without_leading(chars@, c) == without_leading(chars@.skip(n as int), c),
        decreases chars@.len() - n,
    {
        assert(chars@.skip(n as int).skip(1) =~= chars@.skip(n as int + 1));
        n = n + 1;
    }
    n
}

// ── searching and replacing ────────────────────────────────────────────────

/// Whether `needle` stands in `hay` at position `i`.
pub open spec fn stands_at(hay: Seq<char>, needle: Seq<char>, i: int) -> bool {
    0 <= i && i + needle.len() <= hay.len() && hay.subrange(i, i + needle.len()) == needle
}

/// Whether `needle` stands anywhere in `hay`.
pub open spec fn contains_text(hay: Seq<char>, needle: Seq<char>) -> bool {
    exists|i: int| stands_at(hay, needle, i)
}

/// Whether `needle` stands in `hay` at position `i`.
pub fn matches_at(hay: &[char], needle: &[char], i: usize) -> (r: bool)
    requires
        i <= hay@.len(),
    ensures
        r == stands_at(hay@, needle@, i as int),
{
    if hay.len() - i < needle.len() {
        return false;
    }
    let here = slice_of(hay, i, i + needle.len());
    same_chars(&here, needle)
}

/// Whether `needle` stands anywhere in `hay`.
pub fn contains(hay: &str, needle: &str) -> (r: bool)
    ensures
        r == contains_text(hay@, needle@),
{
    let chars = chars_of(hay);
    let pattern = chars_of(needle);
    let mut i: usize = 0;
    while i < chars.len()
        invariant
            i <= chars@.len(),
            chars@ == hay@,
            pattern@ == needle@,
            forall|j: int| 0 <= j < i ==> !stands_at(hay@, needle@, j),
        decreases chars@.len() - i,
    {
        if matches_at(&chars, &pattern, i) {
            assert(stands_at(hay@, needle@, i as int));
            return true;
        }
        i = i + 1;
    }
    let r = matches_at(&chars, &pattern, i);
    assert(r == stands_at(hay@, needle@, i as int));
    r
}

/// Whether a text begins with another.
pub fn starts_with(text: &str, prefix: &str) -> (r: bool)
    ensures
        r == prefix@.is_prefix_of(text@),
{
    let hay = chars_of(text);
    let needle = chars_of(prefix);
    let r = matches_at(&hay, &needle, 0);
    assert(needle@.len() <= hay@.len() ==> hay@.subrange(0, needle@.len() as int) =~= hay@.take(
        needle@.len() as int,
    ));
    r
}

/// `s` with every occurrence of `from` replaced by `to`: from left to right,
/// and none of them overlapping.
pub open spec fn replaced(s: Seq<char>, from: Seq<char>, to: Seq<char>) -> Seq<char>
    decreases s.len(),
{
    if from.len() == 0 || s.len() == 0 {
        s
    } else if stands_at(s, from, 0) {
        to + replaced(s.skip(from.len() as int), from, to)
    } else {
        seq![s[0]] + replaced(s.skip(1), from, to)
    }
}

/// `text` with every occurrence of `from` replaced by `to`.
pub fn replace(text: &str, from: &str, to: &str) -> (r: String)
    requires
        from@.len() > 0,
    ensures
        r@ == replaced(text@, from@, to@),
{
    let chars = chars_of(text);
    let pattern = chars_of(from);
    let mut out = String::new();
    let mut i: usize = 0;
    assert(chars@.skip(0) =~= chars@);
    while i < chars.len()
        invariant
            i <= chars@.len(),
            pattern@ == from@,
            from@.len() > 0,
            out@ + replaced(chars@.skip(i as int), from@, to@) == replaced(chars@, from@, to@),
        decreases chars@.len() - i,
    {
        let ghost rest = chars@.skip(i as int);
        let ghost before = out@;
        assert(i + from@.len() <= chars@.len() ==> rest.subrange(0, from@.len() as int)
            =~= chars@.subrange(i as int, i + from@.len()));
        if matches_at(&chars, &pattern, i) {
            out.append(to);
            assert(rest.skip(from@.len() as int) =~= chars@.skip(i + from@.len()));
            assert(before + (to@ + replaced(chars@.skip(i + from@.len()), from@, to@)) =~= out@
                + replaced(chars@.skip(i + from@.len()), from@, to@));
            i = i + pattern.len();
        } else {
            out.push(chars[i]);
            assert(rest.skip(1) =~= chars@.skip(i + 1));
            assert(before + (seq![rest[0]] + replaced(chars@.skip(i + 1), from@, to@)) =~= out@
                + replaced(chars@.skip(i + 1), from@, to@));
            i = i + 1;
        }
    }
    assert(out@ + replaced(chars@.skip(i as int), from@, to@) =~= out@);
    out
}

/// A text in which `from` does not stand is left alone.
pub proof fn lemma_replaced_nowhere(s: Seq<char>, from: Seq<char>, to: Seq<char>)
    requires
        !contains_text(s, from),
    ensures
        replaced(s, from, to) == s,
    decreases s.len(),
{
    if from.len() > 0 && s.len() > 0 {
        assert(!stands_at(s, from, 0));
        assert forall|i: int| !stands_at(s.skip(1), from, i) by {
            if stands_at(s.skip(1), from, i) {
                assert(s.subrange(i + 1, i + 1 + from.len()) =~= s.skip(1).subrange(
                    i,
                    i + from.len(),
                ));
                assert(stands_at(s, from, i + 1));
            }
        }
        lemma_replaced_nowhere(s.skip(1), from, to);
        assert(seq![s[0]] + s.skip(1) =~= s);
    }
}

/// A text in which `from` stands at one place only is changed at that place
/// only.
pub proof fn lemma_replaced_once(
    before: Seq<char>,
    from: Seq<char>,
    after: Seq<char>,
    to: Seq<char>,
)
    requires
        from.len() > 0,
        forall|i: int| stands_at(before + from + after, from, i) ==> i == before.len(),
    ensures
        replaced(before + from + after, from, to) == before + to + after,
    decreases before.len(),
{
    let s = before + from + after;
    assert(s.subrange(before.len() as int, before.len() as int + from.len()) =~= from);
    assert(stands_at(s, from, before.len() as int));
    if before.len() == 0 {
        assert(s.skip(from.len() as int) =~= after);
        assert forall|i: int| !stands_at(after, from, i) by {
            if stands_at(after, from, i) {
                let j = i + from.len();
                assert(s.subrange(j, j + from.len()) =~= after.subrange(i, i + from.len()));
                assert(stands_at(s, from, j));
            }
        }
        lemma_replaced_nowhere(after, from, to);
        assert(before + to + after =~= to + after);
    } else {
        let rest = before.skip(1);
        assert(s.skip(1) =~= rest + from + after);
        assert forall|i: int| stands_at(rest + from + after, from, i) implies i == rest.len() by {
            let j = i + 1;
            assert(s.subrange(j, j + from.len()) =~= s.skip(1).subrange(i, i + from.len()));
            assert(stands_at(s, from, j));
        }
        lemma_replaced_once(rest, from, after, to);
        assert(!stands_at(s, from, 0));
        assert(seq![s[0]] + (rest + to + after) =~= before + to + after);
    }
}

// ── joining ────────────────────────────────────────────────────────────────

/// The texts of a list of strings.
pub open spec fn views(parts: Seq<String>) -> Seq<Seq<char>> {
    Seq::new(parts.len(), |i: int| parts[i]@)
}

/// Some texts in a row with `separator` between them.
pub open spec fn joined(parts: Seq<Seq<char>>, separator: Seq<char>) -> Seq<char>
    decreases parts.len(),
{
    if parts.len() == 0 {
        Seq::empty()
    } else if parts.len() == 1 {
        parts[0]
    } else {
        joined(parts.drop_last(), separator) + separator + parts.last()
    }
}

/// Some texts in a row with `separator` between them.
pub fn join(parts: &[String], separator: &str) -> (r: String)
    ensures
        r@ == joined(views(parts@), separator@),
{
    let mut out = String::new();
    let mut i: usize = 0;
    while i < parts.len()
        invariant
            i <= parts@.len(),
            out@ == joined(views(parts@.take(i as int)), separator@),
        decreases parts@.len() - i,
    {
        let ghost done = views(parts@.take(i as int));
        let ghost next = views(parts@.take(i as int + 1));
        assert(next.drop_last() =~= done);
        if i > 0 {
            out.append(separator);
        }
        out.append(parts[i].as_str());
        assert(out@ =~= joined(next, separator@));
        i = i + 1;
    }
    assert(parts@.take(parts@.len() as int) =~= parts@);
    out
}

// ── numbers ────────────────────────────────────────────────────────────────

/// The digit for `d` in the numerals up to base sixteen.
pub open spec fn digit(d: nat) -> char {
    if d < 10 {
        (48 + d) as char
    } else {
        (55 + d) as char
    }
}

/// The numeral for `n` in the given base, without leading zeros.
pub open spec fn numeral(n: nat, base: nat) -> Seq<char>
    decreases n,
{
    if base < 2 || n < base {
        seq![digit(n)]
    } else {
        proof {
            assert(n / base < n) by (nonlinear_arith)
                requires
                    2 <= base <= n,
            ;
        }
        numeral(n / base, base).push(digit(n % base))
    }
}

/// The decimal numeral for `n`.
pub open spec fn decimal(n: nat) -> Seq<char> {
    numeral(n, 10)
}

/// The digit for `d` in the numerals up to base sixteen.
pub fn digit_char(d: u8) -> (c: char)
    requires
        d < 16,
    ensures
        c == digit(d as nat),
{
    if d < 10 {
        (48u8 + d) as char
    } else {
        (55u8 + d) as char
    }
}

/// The numeral for `n` in the given base.
pub fn numeral_of(n: u64, base: u64) -> (r: String)
    requires
        2 <= base <= 16,
    ensures
        r@ == numeral(n as nat, base as nat),
    decreases n,
{
    if n < base {
        let mut out = String::new();
        out.push(digit_char(n as u8));
        assert(out@ =~= seq![digit(n as nat)]);
        out
    } else {
        assert(n / base < n) by (nonlinear_arith)
            requires
                2 <= base <= n,
        ;
        assert(n % base < base) by (nonlinear_arith)
            requires
                2 <= base,
        ;
        let mut out = numeral_of(n / base, base);
        out.push(digit_char((n % base) as u8));
        out
    }
}

/// The decimal numeral for `n`.
pub fn decimal_of(n: u64) -> (r: String)
    ensures
        r@ == decimal(n as nat),
{
    numeral_of(n, 10)
}

/// The plural ending for a count.
pub open spec fn plural_ending(n: nat) -> Seq<char> {
    if n == 1 {
        ""@
    } else {
        "s"@
    }
}

/// The ending a noun takes after `n`: nothing for one, `s` for any other
/// count.
pub fn plural(n: u64) -> (r: &'static str)
    ensures
        r@ == plural_ending(n as nat),
{
    if n == 1 {
        ""
    } else {
        "s"
    }
}

// ── signed numbers ─────────────────────────────────────────────────────────

/// The decimal numeral for a number that may be negative.
pub open spec fn signed_decimal(n: int) -> Seq<char> {
    if n < 0 {
        seq!['-'] + decimal((-n) as nat)
    } else {
        decimal(n as nat)
    }
}

/// The decimal numeral for `n`.
pub fn signed_decimal_of(n: i64) -> (r: String)
    ensures
        r@ == signed_decimal(n as int),
{
    if n >= 0 {
        return decimal_of(n as u64);
    }
    let size: u64 = if n == i64::MIN {
        0x8000_0000_0000_0000
    } else {
        (-n) as u64
    };
    let mut out = String::new();
    out.push('-');
    out.append(decimal_of(size).as_str());
    assert(out@ =~= signed_decimal(n as int));
    out
}

/// Whether a text is made of decimal digits alone, at least one.
pub open spec fn all_digits(s: Seq<char>) -> bool {
    s.len() > 0 && forall|i: int| 0 <= i < s.len() ==> '0' <= #[trigger] s[i] <= '9'
}

/// The number that a text of decimal digits stands for.
pub open spec fn digits_value(s: Seq<char>) -> int
    decreases s.len(),
{
    if s.len() == 0 {
        0
    } else {
        10 * digits_value(s.drop_last()) + (s.last() as u32 - 48)
    }
}

/// The digits of a text that may begin with a sign.
pub open spec fn unsigned_part(s: Seq<char>) -> Seq<char> {
    if s.len() > 0 && (s[0] == '-' || s[0] == '+') {
        s.skip(1)
    } else {
        s
    }
}

/// The number that a text with an optional sign stands for, where it is one
/// that fits in 64 bits.
pub open spec fn parsed_i64(s: Seq<char>) -> Option<i64> {
    let body = unsigned_part(s);
    let n = if s.len() > 0 && s[0] == '-' {
        -digits_value(body)
    } else {
        digits_value(body)
    };
    if all_digits(body) && i64::MIN <= n <= i64::MAX {
        Some(n as i64)
    } else {
        None
    }
}

/// Reads a number with an optional sign.
pub fn parse_i64(text: &str) -> (r: Option<i64>)
    ensures
        r == parsed_i64(text@),
{
    let chars = chars_of(text);
    let negative = chars.len() > 0 && chars[0] == '-';
    let start: usize = if negative || (chars.len() > 0 && chars[0] == '+') {
        1
    } else {
        0
    };
    let ghost body = unsigned_part(text@);
    assert(body =~= text@.skip(start as int));
    if start == chars.len() {
        return None;
    }
    let mut value: u128 = 0;
    let mut over = false;
    let mut i: usize = start;
    assert(body.take(0) =~= Seq::<char>::empty());
    while i < chars.len()
        invariant
            start <= i <= chars@.len(),
            chars@ == text@,
            body == unsigned_part(text@),
            body == text@.skip(start as int),
            body.len() == text@.len() - start,
            forall|j: int| 0 <= j < i - start ==> '0' <= #[trigger] body[j] <= '9',
            value <= 0x1_0000_0000_0000_0000,
            over ==> digits_value(body.take(i - start)) > 0x1_0000_0000_0000_0000,
            !over ==> value == digits_value(body.take(i - start)),
        decreases chars@.len() - i,
    {
        let c = chars[i];
        assert(body[i - start] == c);
        if c < '0' || c > '9' {
            return None;
        }
        let ghost before = body.take(i - start);
        let ghost after = body.take(i - start + 1);
        assert(after.drop_last() =~= before);
        let next: u128 = value * 10 + ((c as u32 - 48) as u128);
        if over || next > 0x1_0000_0000_0000_0000 {
            over = true;
        } else {
            value = next;
        }
        i = i + 1;
    }
    assert(body.take(i - start) =~= body);
    if over {
        return None;
    }
    if negative {
        if value <= 0x7FFF_FFFF_FFFF_FFFF {
            Some(-(value as i64))
        } else if value == 0x8000_0000_0000_0000 {
            Some(i64::MIN)
        } else {
            None
        }
    } else if value <= 0x7FFF_FFFF_FFFF_FFFF {
        Some(value as i64)
    } else {
        None
    }
}

/// A decimal numeral is made of digits and stands for its number.
proof fn lemma_decimal_reads_back(n: nat)
    ensures
        all_digits(decimal(n)),
        digits_value(decimal(n)) == n,
    decreases n,
{
    let s = decimal(n);
    if n < 10 {
        assert(s =~= seq![digit(n)]);
        assert(s.drop_last() =~= Seq::<char>::empty());
        reveal_with_fuel(digits_value, 2);
    } else {
        lemma_decimal_reads_back(n / 10);
        assert(s.drop_last() =~= decimal(n / 10));
        assert(s.last() == digit(n % 10));
        assert forall|i: int| 0 <= i < s.len() implies '0' <= #[trigger] s[i] <= '9' by {
            if i < s.len() - 1 {
                assert(s[i] == decimal(n / 10)[i]);
            }
        }
    }
}

/// Reading back the numeral of a number gives the number.
pub proof fn law_numbers_read_back(n: i64)
    ensures
        parsed_i64(signed_decimal(n as int)) == Some(n),
{
    let s = signed_decimal(n as int);
    if n < 0 {
        lemma_decimal_reads_back((-n) as nat);
        assert(s.skip(1) =~= decimal((-n) as nat));
    } else {
        lemma_decimal_reads_back(n as nat);
        assert('0' <= s[0] <= '9');
    }
}

/// Joined texts stand one behind the other with the separator between each two.
pub proof fn law_joining_parts(parts: Seq<Seq<char>>, part: Seq<char>, separator: Seq<char>)
    ensures
        joined(Seq::empty(), separator) == Seq::<char>::empty(),
        joined(seq![part], separator) == part,
        parts.len() > 0 ==> joined(parts.push(part), separator) == joined(parts, separator)
            + separator + part,
{
    let all = parts.push(part);
    assert(all.drop_last() =~= parts);
    assert(all.last() == part);
    reveal_with_fuel(joined, 2);
}

/// One of a thing takes no ending, and any other number takes an `s`.
pub proof fn law_one_is_singular(n: nat)
    ensures
        plural_ending(1) == Seq::<char>::empty(),
        n != 1 ==> plural_ending(n) == seq!['s'],
{
    reveal_strlit("");
    reveal_strlit("s");
    assert(plural_ending(1) =~= Seq::<char>::empty());
    if n != 1 {
        assert(plural_ending(n) =~= seq!['s']);
    }
}

/// A number is written with its last digit behind the rest of it, and a single
/// digit stands for itself.
pub proof fn law_decimals_grow_by_a_digit(n: nat, d: nat)
    requires
        d < 10,
    ensures
        decimal(d) == seq![(('0' as u32 + d) as u32) as char],
        n > 0 ==> decimal(10 * n + d) == decimal(n) + decimal(d),
{
    assert((10 * n + d) / 10 == n);
    assert((10 * n + d) % 10 == d);
    reveal_with_fuel(numeral, 2);
    assert(decimal(d) =~= seq![digit(d)]);
    if n > 0 {
        assert(decimal(10 * n + d) =~= decimal(n) + decimal(d));
    }
}

/// A text holds each text that stands between two others in it, and only what
/// stands there.
pub proof fn law_one_text_holds_another(a: Seq<char>, b: Seq<char>, c: Seq<char>)
    ensures
        contains_text(a + b + c, b),
        contains_text(a, b) ==> exists|x: Seq<char>, y: Seq<char>| a == #[trigger] (x + b + y),
{
    assert((a + b + c).subrange(a.len() as int, a.len() as int + b.len()) =~= b);
    assert(stands_at(a + b + c, b, a.len() as int));
    if contains_text(a, b) {
        let i = choose|i: int| stands_at(a, b, i);
        let x = a.take(i);
        let y = a.skip(i + b.len());
        assert(a =~= x + b + y);
    }
}

/// In every base a number is written with its last digit behind the rest of it.
pub proof fn law_numerals_grow_by_a_digit(n: nat, d: nat, base: nat)
    requires
        2 <= base <= 16,
        d < base,
        n > 0,
    ensures
        numeral(base * n + d, base) == numeral(n, base).push(digit(d)),
        numeral(d, base) == seq![digit(d)],
{
    assert(base * n == n * base) by (nonlinear_arith);
    vstd::arithmetic::div_mod::lemma_fundamental_div_mod_converse(
        (base * n + d) as int,
        base as int,
        n as int,
        d as int,
    );
    assert(base * n + d >= base) by (nonlinear_arith)
        requires
            n > 0,
            base > 0,
            d >= 0,
    ;
}

/// A number below zero has a minus sign in front.
pub proof fn law_negative_numbers_have_a_sign(n: nat)
    ensures
        signed_decimal(n as int) == decimal(n),
        n > 0 ==> signed_decimal(-(n as int)) == seq!['-'] + decimal(n),
{
}

/// A text of digits reads as the number they spell, with a sign or without one;
/// anything else is no number.
pub proof fn law_numbers_are_digits(s: Seq<char>, i: int)
    ensures
        parsed_i64(Seq::empty()) is None,
        0 <= i < s.len() && !('0' <= s[i] <= '9') && !(i == 0 && (s[0] == '-' || s[0] == '+'))
            ==> parsed_i64(s) is None,
{
    if 0 <= i < s.len() {
        let body = unsigned_part(s);
        if body.len() < s.len() {
            if i > 0 {
                assert(body[i - 1] == s[i]);
            }
        } else {
            assert(body[i] == s[i]);
        }
    }
}


/// Every occurrence is replaced, each where the one before it ends: of an
/// occurrence and what follows it, the occurrence is replaced and the rest is
/// gone through in the same way; what holds none stays.
pub proof fn law_every_occurrence_is_replaced(from: Seq<char>, rest: Seq<char>, to: Seq<char>)
    requires
        from.len() > 0,
    ensures
        replaced(from + rest, from, to) == to + replaced(rest, from, to),
        !contains_text(rest, from) ==> replaced(rest, from, to) == rest,
{
    let s = from + rest;
    assert(s.subrange(0, from.len() as int) =~= from);
    assert(stands_at(s, from, 0));
    assert(s.skip(from.len() as int) =~= rest);
    if !contains_text(rest, from) {
        lemma_replaced_nowhere(rest, from, to);
    }
}

} // verus!
