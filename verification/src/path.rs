//! File system paths as the bytes that name them, with the component rules of
//! Unix: `/` separates, empty and `.` parts do not count, a `.` at the very
//! start does, and two paths are the same when their components are.

use crate::outside;
use vstd::prelude::*;
use vstd::string::*;
use vstd::utf8::*;

verus! {

/// The byte that separates components.
pub const SLASH: u8 = 0x2F;

/// The full stop.
pub const DOT: u8 = 0x2E;

// ── bytes ──────────────────────────────────────────────────────────────────

/// The bytes from `from` up to but not including `to`.
pub fn bytes_between(bytes: &[u8], from: usize, to: usize) -> (r: Vec<u8>)
    requires
        from <= to <= bytes@.len(),
    ensures
        r@ == bytes@.subrange(from as int, to as int),
{
    let mut out: Vec<u8> = Vec::new();
    let mut i: usize = from;
    while i < to
        invariant
            from <= i <= to <= bytes@.len(),
            out@ == bytes@.subrange(from as int, i as int),
        decreases to - i,
    {
        assert(bytes@.subrange(from as int, i as int).push(bytes@[i as int]) =~= bytes@.subrange(
            from as int,
            i as int + 1,
        ));
        out.push(bytes[i]);
        i = i + 1;
    }
    out
}

/// Whether two runs of bytes are the same.
pub fn same_bytes(a: &[u8], b: &[u8]) -> (r: bool)
    ensures
        r == (a@ == b@),
{
    if a.len() != b.len() {
        return false;
    }
    let mut i: usize = 0;
    while i < a.len()
        invariant
            a@.len() == b@.len(),
            i <= a@.len(),
            forall|j: int| 0 <= j < i ==> a@[j] == b@[j],
        decreases a@.len() - i,
    {
        if a[i] != b[i] {
            return false;
        }
        i = i + 1;
    }
    assert(a@ =~= b@);
    true
}

/// The contents of a list of byte strings.
pub open spec fn contents(parts: Seq<Vec<u8>>) -> Seq<Seq<u8>> {
    parts.map_values(|part: Vec<u8>| part@)
}

/// Where the last separator stands.
pub open spec fn last_slash(s: Seq<u8>) -> Option<nat>
    decreases s.len(),
{
    if s.len() == 0 {
        None
    } else if s.last() == SLASH {
        Some((s.len() - 1) as nat)
    } else {
        last_slash(s.drop_last())
    }
}

/// Nothing after the last separator is one.
pub proof fn lemma_last_slash(s: Seq<u8>)
    ensures
        match last_slash(s) {
            Some(c) => c < s.len() && s[c as int] == SLASH && forall|i: int|
                c < i < s.len() ==> s[i] != SLASH,
            None => forall|i: int| 0 <= i < s.len() ==> s[i] != SLASH,
        },
    decreases s.len(),
{
    if s.len() > 0 && s.last() != SLASH {
        lemma_last_slash(s.drop_last());
        assert forall|i: int| 0 <= i < s.len() - 1 implies s[i] == s.drop_last()[i] by {}
        match last_slash(s) {
            Some(c) => {
                assert forall|i: int| c < i < s.len() implies s[i] != SLASH by {
                    if i < s.len() - 1 {
                        assert(s.drop_last()[i] != SLASH);
                    }
                }
            },
            None => {
                assert forall|i: int| 0 <= i < s.len() implies s[i] != SLASH by {
                    if i < s.len() - 1 {
                        assert(s.drop_last()[i] != SLASH);
                    }
                }
            },
        }
    }
}

/// A separator followed by none is the last one.
proof fn lemma_last_slash_at(s: Seq<u8>, c: int)
    requires
        -1 <= c < s.len(),
        c >= 0 ==> s[c] == SLASH,
        forall|i: int| c < i < s.len() ==> s[i] != SLASH,
    ensures
        c >= 0 ==> last_slash(s) == Some(c as nat),
        c < 0 ==> last_slash(s) is None,
{
    lemma_last_slash(s);
}

// ── components ─────────────────────────────────────────────────────────────

/// Whether a part between separators counts for nothing.
pub open spec fn skipped(part: Seq<u8>) -> bool {
    part.len() == 0 || part == seq![DOT]
}

/// A part, unless it counts for nothing.
pub open spec fn kept(part: Seq<u8>) -> Seq<Seq<u8>> {
    if skipped(part) {
        Seq::empty()
    } else {
        seq![part]
    }
}

/// The component that stands for the root.
pub open spec fn root() -> Seq<u8> {
    seq![SLASH]
}

/// The component that stands for the parent directory.
pub open spec fn up() -> Seq<u8> {
    seq![DOT, DOT]
}

/// The components of a path. The root is the component `/`, which no name can
/// be.
pub open spec fn components(s: Seq<u8>) -> Seq<Seq<u8>>
    decreases s.len(),
{
    match last_slash(s) {
        None => if s.len() == 0 {
            Seq::empty()
        } else {
            seq![s]
        },
        Some(c) => if c == 0 {
            seq![root()] + kept(s.skip(1))
        } else if c < s.len() {
            components(s.take(c as int)) + kept(s.skip(c as int + 1))
        } else {
            Seq::empty()
        },
    }
}

/// Whether a component names something: it is not the root, `.` or `..`.
pub open spec fn names(part: Seq<u8>) -> bool {
    part != root() && part != seq![DOT] && part != up()
}

/// A name: not empty, without a separator, and neither `.` nor `..`.
pub open spec fn is_name(part: Seq<u8>) -> bool {
    part.len() > 0 && !part.contains(SLASH) && part != seq![DOT] && part != up()
}

/// The last component, where it is a name.
pub open spec fn file_name(s: Seq<u8>) -> Option<Seq<u8>> {
    let parts = components(s);
    if parts.len() > 0 && names(parts.last()) {
        Some(parts.last())
    } else {
        None
    }
}

/// The path without what counts for nothing at its end.
pub open spec fn without_tail(s: Seq<u8>) -> Seq<u8>
    decreases s.len(),
{
    match last_slash(s) {
        None => s,
        Some(c) => if !skipped(s.skip(c as int + 1)) {
            s
        } else if c == 0 {
            root()
        } else if c < s.len() {
            without_tail(s.take(c as int))
        } else {
            s
        },
    }
}

/// The path without its last component. There is none for the root and for the
/// empty path.
pub open spec fn parent(s: Seq<u8>) -> Option<Seq<u8>>
    decreases s.len(),
{
    match last_slash(s) {
        None => if s.len() == 0 {
            None
        } else {
            Some(Seq::empty())
        },
        Some(c) => if c == 0 {
            if skipped(s.skip(1)) {
                None
            } else {
                Some(root())
            }
        } else if c < s.len() {
            if skipped(s.skip(c as int + 1)) {
                parent(s.take(c as int))
            } else {
                Some(without_tail(s.take(c as int)))
            }
        } else {
            None
        },
    }
}

/// Whether a path begins at the root.
pub open spec fn absolute(s: Seq<u8>) -> bool {
    s.len() > 0 && s[0] == SLASH
}

/// One path seen from another: an absolute one replaces it, any other is put
/// behind it with a separator between them.
pub open spec fn joined(base: Seq<u8>, other: Seq<u8>) -> Seq<u8> {
    if absolute(other) {
        other
    } else if base.len() == 0 || base.last() == SLASH {
        base + other
    } else {
        base.push(SLASH) + other
    }
}

/// Where the last dot of a name stands.
pub open spec fn last_dot(s: Seq<u8>) -> Option<nat>
    decreases s.len(),
{
    if s.len() == 0 {
        None
    } else if s.last() == DOT {
        Some((s.len() - 1) as nat)
    } else {
        last_dot(s.drop_last())
    }
}

/// A name without its extension: what stands before the last dot, unless that
/// dot begins the name.
pub open spec fn stem_of_name(name: Seq<u8>) -> Seq<u8> {
    match last_dot(name) {
        Some(d) if d > 0 => name.take(d as int),
        _ => name,
    }
}

/// The last component without its extension, where it is a name.
pub open spec fn file_stem(s: Seq<u8>) -> Option<Seq<u8>> {
    match file_name(s) {
        Some(name) => Some(stem_of_name(name)),
        None => None,
    }
}

// ── the type ───────────────────────────────────────────────────────────────

/// A path. Its view is its bytes.
#[derive(Debug)]
pub struct FilePath {
    /// The bytes.
    pub bytes: Vec<u8>,
}

impl View for FilePath {
    type V = Seq<u8>;

    open spec fn view(&self) -> Seq<u8> {
        self.bytes@
    }
}

impl FilePath {
    /// The path that a text names.
    pub fn new(text: &str) -> (r: FilePath)
        ensures
            r@ == encode_utf8(text@),
    {
        FilePath { bytes: text.as_bytes_vec() }
    }

    /// The path of some bytes.
    pub fn from_bytes(bytes: Vec<u8>) -> (r: FilePath)
        ensures
            r@ == bytes@,
    {
        FilePath { bytes }
    }

    /// The root directory.
    pub fn root() -> (r: FilePath)
        ensures
            r@ == root(),
    {
        let mut bytes: Vec<u8> = Vec::new();
        bytes.push(SLASH);
        assert(bytes@ =~= root());
        FilePath { bytes }
    }

    /// A copy of the path.
    pub fn copy(&self) -> (r: FilePath)
        ensures
            r@ == self@,
    {
        FilePath { bytes: bytes_between(&self.bytes, 0, self.bytes.len()) }
    }

    /// The path as text, with U+FFFD in place of what is not valid UTF-8.
    pub fn display(&self) -> (r: String)
        ensures
            r@ == outside::lossy(self@),
    {
        outside::from_utf8_lossy(&self.bytes)
    }

    /// Whether the path begins at the root.
    pub fn is_absolute(&self) -> (r: bool)
        ensures
            r == absolute(self@),
    {
        self.bytes.len() > 0 && self.bytes[0] == SLASH
    }

    /// The components of the path, the root as `/`.
    pub fn components(&self) -> (r: Vec<Vec<u8>>)
        ensures
            contents(r@) == components(self@),
    {
        let bytes = &self.bytes;
        let mut out: Vec<Vec<u8>> = Vec::new();
        let mut start: usize = 0;
        let mut i: usize = 0;
        while i < bytes.len()
            invariant
                start <= i <= bytes@.len(),
                bytes@ == self@,
                start > 0 ==> bytes@[start - 1] == SLASH,
                forall|j: int| start <= j < i ==> bytes@[j] != SLASH,
                contents(out@) == components(bytes@.take(start as int)),
            decreases bytes@.len() - i,
        {
            if bytes[i] == SLASH {
                let ghost before = contents(out@);
                let part = bytes_between(bytes, start, i);
                proof {
                    lemma_components_step(bytes@, start as int, i as int);
                }
                if i == 0 {
                    let mut first: Vec<u8> = Vec::new();
                    first.push(SLASH);
                    out.push(first);
                    assert(first@ =~= root());
                    assert(contents(out@) =~= before.push(root()));
                } else {
                    push_kept(&mut out, part, start == 0);
                }
                start = i + 1;
            }
            i = i + 1;
        }
        if start < bytes.len() {
            let part = bytes_between(bytes, start, bytes.len());
            proof {
                lemma_components_end(bytes@, start as int);
            }
            push_kept(&mut out, part, start == 0);
        } else {
            assert(bytes@.take(start as int) =~= bytes@);
        }
        out
    }

    /// The last component, where it is a name.
    pub fn file_name(&self) -> (r: Option<Vec<u8>>)
        ensures
            match (r, file_name(self@)) {
                (Some(name), Some(n)) => name@ == n,
                (None, None) => true,
                _ => false,
            },
    {
        let mut parts = self.components();
        let ghost all = parts@;
        match parts.pop() {
            Some(part) => {
                assert(contents(all).last() == part@);
                if is_naming(&part) {
                    Some(part)
                } else {
                    None
                }
            },
            None => None,
        }
    }

    /// The last component as text, where it is a name.
    pub fn file_name_text(&self) -> (r: Option<String>)
        ensures
            match (r, file_name(self@)) {
                (Some(name), Some(n)) => name@ == outside::lossy(n),
                (None, None) => true,
                _ => false,
            },
    {
        match self.file_name() {
            Some(name) => Some(outside::from_utf8_lossy(&name)),
            None => None,
        }
    }

    /// The last component without its extension as text, where it is a name.
    pub fn file_stem_text(&self) -> (r: Option<String>)
        ensures
            match (r, file_stem(self@)) {
                (Some(stem), Some(n)) => stem@ == outside::lossy(n),
                (None, None) => true,
                _ => false,
            },
    {
        match self.file_name() {
            Some(name) => {
                let n: usize = stem_len(&name);
                let stem = bytes_between(&name, 0, n);
                assert(stem@ =~= stem_of_name(name@));
                Some(outside::from_utf8_lossy(&stem))
            },
            None => None,
        }
    }

    /// The path without its last component.
    pub fn parent(&self) -> (r: Option<FilePath>)
        ensures
            match (r, parent(self@)) {
                (Some(p), Some(q)) => p@ == q,
                (None, None) => true,
                _ => false,
            },
    {
        let mut end: usize = self.bytes.len();
        assert(self.bytes@.take(end as int) =~= self@);
        loop
            invariant
                end <= self.bytes@.len(),
                parent(self@) == parent(self.bytes@.take(end as int)),
            decreases end,
        {
            let ghost s = self.bytes@.take(end as int);
            let c: Option<usize> = find_slash(&self.bytes, end);
            match c {
                None => {
                    if end == 0 {
                        return None;
                    }
                    let none: Vec<u8> = Vec::new();
                    assert(none@ =~= Seq::<u8>::empty());
                    return Some(FilePath { bytes: none });
                },
                Some(cut) => {
                    assert(s.skip(cut as int + 1) =~= self.bytes@.subrange(
                        cut as int + 1,
                        end as int,
                    ));
                    let skip = is_skipped(&self.bytes, cut + 1, end);
                    if cut == 0 {
                        return if skip {
                            None
                        } else {
                            Some(FilePath::root())
                        };
                    }
                    assert(s.take(cut as int) =~= self.bytes@.take(cut as int));
                    if !skip {
                        return Some(self.trimmed(cut));
                    }
                    end = cut;
                },
            }
        }
    }

    /// The first `end` bytes without what counts for nothing at their end.
    fn trimmed(&self, end: usize) -> (r: FilePath)
        requires
            end <= self.bytes@.len(),
        ensures
            r@ == without_tail(self@.take(end as int)),
    {
        let mut n: usize = end;
        loop
            invariant
                n <= end <= self.bytes@.len(),
                without_tail(self@.take(end as int)) == without_tail(self.bytes@.take(n as int)),
            decreases n,
        {
            let ghost s = self.bytes@.take(n as int);
            match find_slash(&self.bytes, n) {
                None => {
                    let bytes = bytes_between(&self.bytes, 0, n);
                    assert(bytes@ =~= s);
                    return FilePath { bytes };
                },
                Some(cut) => {
                    assert(s.skip(cut as int + 1) =~= self.bytes@.subrange(
                        cut as int + 1,
                        n as int,
                    ));
                    if !is_skipped(&self.bytes, cut + 1, n) {
                        let bytes = bytes_between(&self.bytes, 0, n);
                        assert(bytes@ =~= s);
                        return FilePath { bytes };
                    }
                    if cut == 0 {
                        return FilePath::root();
                    }
                    assert(s.take(cut as int) =~= self.bytes@.take(cut as int));
                    n = cut;
                },
            }
        }
    }

    /// `other` seen from this path.
    pub fn join(&self, other: &FilePath) -> (r: FilePath)
        ensures
            r@ == joined(self@, other@),
    {
        if other.is_absolute() {
            return other.copy();
        }
        let mut out = self.copy();
        if out.bytes.len() > 0 && out.bytes[out.bytes.len() - 1] != SLASH {
            out.bytes.push(SLASH);
        }
        let mut tail = other.copy();
        out.bytes.append(&mut tail.bytes);
        out
    }

    /// The path of an entry of this directory.
    pub fn join_text(&self, name: &str) -> (r: FilePath)
        ensures
            r@ == joined(self@, encode_utf8(name@)),
    {
        self.join(&FilePath::new(name))
    }

    /// Whether two paths are the same, component by component.
    pub fn same_as(&self, other: &FilePath) -> (r: bool)
        ensures
            r == (components(self@) == components(other@)),
    {
        let a = self.components();
        let b = other.components();
        assert(contents(a@).len() == a@.len() && contents(b@).len() == b@.len());
        a.len() == b.len() && first_parts_agree(&a, &b)
    }

    /// Whether the components of `base` begin those of this path.
    pub fn starts_with(&self, base: &FilePath) -> (r: bool)
        ensures
            r == components(base@).is_prefix_of(components(self@)),
    {
        let a = base.components();
        let b = self.components();
        assert(contents(a@).len() == a@.len() && contents(b@).len() == b@.len());
        a.len() <= b.len() && first_parts_agree(&a, &b)
    }
}

/// Whether each part of `a` is the part of `b` at the same place.
fn first_parts_agree(a: &Vec<Vec<u8>>, b: &Vec<Vec<u8>>) -> (r: bool)
    requires
        a@.len() <= b@.len(),
    ensures
        r == contents(a@).is_prefix_of(contents(b@)),
        a@.len() == b@.len() ==> r == (contents(a@) == contents(b@)),
{
    let mut i: usize = 0;
    while i < a.len()
        invariant
            a@.len() <= b@.len(),
            i <= a@.len(),
            forall|j: int| 0 <= j < i ==> contents(a@)[j] == contents(b@)[j],
        decreases a@.len() - i,
    {
        if !same_bytes(&a[i], &b[i]) {
            assert(contents(a@)[i as int] != contents(b@)[i as int]);
            proof {
                if contents(a@).is_prefix_of(contents(b@)) {
                    assert(contents(a@)[i as int] == contents(b@).subrange(
                        0,
                        a@.len() as int,
                    )[i as int]);
                }
            }
            return false;
        }
        assert(contents(a@)[i as int] == contents(b@)[i as int]);
        i = i + 1;
    }
    assert(contents(a@) =~= contents(b@).subrange(0, a@.len() as int));
    if a.len() == b.len() {
        assert(contents(a@) =~= contents(b@));
    }
    true
}

/// Puts a part behind the others unless it counts for nothing; a part at the
/// very start of a path always counts.
fn push_kept(out: &mut Vec<Vec<u8>>, part: Vec<u8>, first: bool)
    requires
        first ==> part@.len() > 0,
    ensures
        contents(final(out)@) == contents(old(out)@) + (if first {
            seq![part@]
        } else {
            kept(part@)
        }),
{
    let ghost before = contents(out@);
    if first || !is_skipped(&part, 0, part.len()) {
        assert(part@.subrange(0, part@.len() as int) =~= part@);
        out.push(part);
        assert(contents(out@) =~= before + seq![part@]);
    } else {
        assert(part@.subrange(0, part@.len() as int) =~= part@);
        assert(contents(out@) =~= before + kept(part@));
    }
}

/// Where the last separator before `end` stands.
fn find_slash(bytes: &[u8], end: usize) -> (r: Option<usize>)
    requires
        end <= bytes@.len(),
    ensures
        match (r, last_slash(bytes@.take(end as int))) {
            (Some(i), Some(j)) => i == j && i < end,
            (None, None) => true,
            _ => false,
        },
{
    let mut n: usize = end;
    while n > 0
        invariant
            n <= end <= bytes@.len(),
            last_slash(bytes@.take(end as int)) == last_slash(bytes@.take(n as int)),
        decreases n,
    {
        if bytes[n - 1] == SLASH {
            return Some(n - 1);
        }
        assert(bytes@.take(n as int).drop_last() =~= bytes@.take(n - 1));
        n = n - 1;
    }
    None
}

/// Whether the bytes from `from` up to `to` count for nothing as a part.
fn is_skipped(bytes: &[u8], from: usize, to: usize) -> (r: bool)
    requires
        from <= to <= bytes@.len(),
    ensures
        r == skipped(bytes@.subrange(from as int, to as int)),
{
    let ghost part = bytes@.subrange(from as int, to as int);
    if from == to {
        return true;
    }
    let r = to - from == 1 && bytes[from] == DOT;
    proof {
        if r {
            assert(part =~= seq![DOT]);
        } else if part == seq![DOT] {
            assert(part.len() == 1 && part[0] == DOT);
            assert(part[0] == bytes@[from as int]);
        }
    }
    r
}

/// Whether a component names something.
pub fn is_naming(part: &Vec<u8>) -> (r: bool)
    ensures
        r == names(part@),
{
    let mut slash: Vec<u8> = Vec::new();
    slash.push(SLASH);
    let mut dot: Vec<u8> = Vec::new();
    dot.push(DOT);
    let mut dots: Vec<u8> = Vec::new();
    dots.push(DOT);
    dots.push(DOT);
    assert(slash@ =~= root());
    assert(dot@ =~= seq![DOT]);
    assert(dots@ =~= up());
    !same_bytes(part, &slash) && !same_bytes(part, &dot) && !same_bytes(part, &dots)
}

/// How many bytes of a name stand before its extension.
fn stem_len(name: &[u8]) -> (n: usize)
    ensures
        n <= name@.len(),
        name@.take(n as int) == stem_of_name(name@),
{
    let mut n: usize = name.len();
    assert(name@.take(name@.len() as int) =~= name@);
    while n > 0
        invariant
            n <= name@.len(),
            last_dot(name@) == last_dot(name@.take(n as int)),
            name@.take(name@.len() as int) == name@,
        decreases n,
    {
        if name[n - 1] == DOT {
            return if n > 1 {
                n - 1
            } else {
                name.len()
            };
        }
        assert(name@.take(n as int).drop_last() =~= name@.take(n - 1));
        n = n - 1;
    }
    name.len()
}

/// The components up to and including a separator.
proof fn lemma_components_step(s: Seq<u8>, start: int, i: int)
    requires
        0 <= start <= i < s.len(),
        s[i] == SLASH,
        start > 0 ==> s[start - 1] == SLASH,
        forall|j: int| start <= j < i ==> s[j] != SLASH,
    ensures
        i == 0 ==> components(s.take(i + 1)) == components(s.take(start)).push(root()),
        i > 0 ==> components(s.take(i + 1)) == components(s.take(start)) + (if start == 0 {
            seq![s.subrange(start, i)]
        } else {
            kept(s.subrange(start, i))
        }),
{
    let t = s.take(i + 1);
    lemma_last_slash_at(t, i);
    assert(t.skip(i + 1) =~= Seq::<u8>::empty());
    assert(t.take(i) =~= s.take(i));
    assert(s.take(0) =~= Seq::<u8>::empty());
    lemma_last_slash(s.take(0));
    if i == 0 {
        assert(t.skip(1) =~= Seq::<u8>::empty());
        assert(components(t) =~= components(s.take(start)).push(root()));
    } else {
        assert(components(t) =~= components(s.take(i)));
        lemma_components_end(s.take(i), start);
        assert(s.take(i).take(start) =~= s.take(start));
        assert(s.take(i).subrange(start, i) =~= s.subrange(start, i));
        if start == i {
            assert(s.subrange(start, i) =~= Seq::<u8>::empty());
            assert(components(s.take(start)) + kept(s.subrange(start, i)) =~= components(
                s.take(start),
            ));
        }
    }
}

/// The components of a path whose last part begins at `start`.
proof fn lemma_components_end(s: Seq<u8>, start: int)
    requires
        0 <= start <= s.len(),
        0 < s.len(),
        start > 0 ==> s[start - 1] == SLASH,
        forall|j: int| start <= j < s.len() ==> s[j] != SLASH,
    ensures
        components(s) == components(s.take(start)) + (if start == 0 {
            seq![s.subrange(start, s.len() as int)]
        } else {
            kept(s.subrange(start, s.len() as int))
        }),
{
    let part = s.subrange(start, s.len() as int);
    lemma_last_slash_at(s, start - 1);
    if start == 0 {
        assert(part =~= s);
        lemma_last_slash(s.take(0));
        assert(s.take(0) =~= Seq::<u8>::empty());
        assert(components(s) =~= components(s.take(0)) + seq![part]);
    } else {
        let t = s.take(start);
        lemma_last_slash_at(t, start - 1);
        assert(s.skip(start) =~= part);
        assert(t.skip(start) =~= Seq::<u8>::empty());
        if start == 1 {
            assert(components(t) =~= seq![root()]);
        } else {
            assert(s.take(start - 1) =~= t.take(start - 1));
            assert(components(t) =~= components(t.take(start - 1)));
        }
        assert(components(s) =~= components(t) + kept(part));
    }
}

// ── laws ───────────────────────────────────────────────────────────────────

/// What counts for nothing at the end of a path is not among its components.
proof fn lemma_without_tail(s: Seq<u8>)
    ensures
        components(without_tail(s)) == components(s),
    decreases s.len(),
{
    lemma_last_slash(s);
    match last_slash(s) {
        None => {},
        Some(c) => {
            let part = s.skip(c as int + 1);
            if skipped(part) {
                if c == 0 {
                    lemma_last_slash_at(root(), 0);
                    assert(root().skip(1) =~= Seq::<u8>::empty());
                    assert(components(root()) =~= components(s));
                } else {
                    lemma_without_tail(s.take(c as int));
                    assert(components(s) =~= components(s.take(c as int)));
                }
            }
        },
    }
}

/// The parent has the components of the path but for the last one. The root
/// and the empty path have no parent, and no other path is without one.
pub proof fn law_parent_drops_the_last_component(s: Seq<u8>)
    ensures
        parent(s) is None <==> components(s).len() == 0 || components(s) == seq![root()],
        parent(s) is Some ==> components(parent(s)->0) == components(s).drop_last(),
    decreases s.len(),
{
    lemma_last_slash(s);
    let none = Seq::<u8>::empty();
    lemma_last_slash(none);
    match last_slash(s) {
        None => {
            if s.len() > 0 {
                assert(components(s).drop_last() =~= components(none));
                if components(s) == seq![root()] {
                    assert(components(s)[0] == root());
                    assert(s[0] == SLASH);
                }
            }
        },
        Some(c) => {
            let part = s.skip(c as int + 1);
            if c == 0 {
                lemma_last_slash_at(root(), 0);
                assert(root().skip(1) =~= none);
                assert(components(root()) =~= seq![root()]);
                if skipped(part) {
                    assert(components(s) =~= seq![root()]);
                } else {
                    assert(components(s).drop_last() =~= seq![root()]);
                    assert(components(s).len() == 2);
                }
            } else {
                let front = s.take(c as int);
                if skipped(part) {
                    assert(components(s) =~= components(front));
                    law_parent_drops_the_last_component(front);
                } else {
                    lemma_without_tail(front);
                    assert(components(s).drop_last() =~= components(front));
                    lemma_some_components(front);
                    assert(components(s).len() >= 2);
                }
            }
        },
    }
}

/// A path that is not empty has components.
proof fn lemma_some_components(s: Seq<u8>)
    requires
        s.len() > 0,
    ensures
        components(s).len() > 0,
    decreases s.len(),
{
    lemma_last_slash(s);
    match last_slash(s) {
        Some(c) if c > 0 => lemma_some_components(s.take(c as int)),
        _ => {},
    }
}

/// An entry of a directory has the directory's components and its own name.
pub proof fn law_join_appends_a_name(dir: Seq<u8>, name: Seq<u8>)
    requires
        is_name(name),
    ensures
        components(joined(dir, name)) == components(dir).push(name),
        file_name(joined(dir, name)) == Some(name),
{
    assert(!absolute(name)) by {
        if absolute(name) {
            assert(name.contains(name[0]));
        }
    }
    let s = joined(dir, name);
    let start = s.len() - name.len();
    assert forall|j: int| start <= j < s.len() implies s[j] != SLASH by {
        assert(s[j] == name[j - start]);
        assert(name.contains(name[j - start]));
    }
    lemma_components_end(s, start);
    assert(s.subrange(start, s.len() as int) =~= name);
    if dir.len() == 0 {
        assert(s.take(start) =~= dir);
        assert(components(s) =~= components(dir).push(name));
    } else {
        let t = s.take(start);
        if dir.last() == SLASH {
            assert(t =~= dir);
        } else {
            assert(t =~= dir.push(SLASH));
            lemma_last_slash_at(t, start - 1);
            assert(t.skip(start) =~= Seq::<u8>::empty());
            assert(t.take(start - 1) =~= dir);
            assert(components(t) =~= components(dir));
        }
        assert(components(s) =~= components(dir).push(name));
    }
    assert(names(name)) by {
        if name == root() {
            assert(name[0] == SLASH);
            assert(name.contains(name[0]));
        }
    }
}

/// The parent of an entry is its directory.
pub proof fn law_parent_of_an_entry(dir: Seq<u8>, name: Seq<u8>)
    requires
        is_name(name),
    ensures
        parent(joined(dir, name)) is Some,
        components(parent(joined(dir, name))->0) == components(dir),
{
    law_join_appends_a_name(dir, name);
    law_parent_drops_the_last_component(joined(dir, name));
    let s = joined(dir, name);
    assert(components(s).drop_last() =~= components(dir));
    if components(s) == seq![root()] {
        assert(components(s).last() == root());
        assert(name.contains(name[0]));
    }
}

/// A separator ends a component: behind it stands one more, unless that is empty
/// or `.`. A path that begins with a separator begins at the root.
pub proof fn law_separators_part_components(front: Seq<u8>, part: Seq<u8>)
    requires
        !part.contains(47u8),
    ensures
        components(Seq::empty()) == Seq::<Seq<u8>>::empty(),
        part.len() > 0 ==> components(part) == seq![part],
        components(seq![47u8] + part) == seq![seq![47u8]] + (if part.len() == 0 || part
            == seq![46u8] {
            Seq::empty()
        } else {
            seq![part]
        }),
        front.len() > 0 ==> components(front + seq![47u8] + part) == components(front) + (if
            part.len() == 0 || part == seq![46u8] {
            Seq::empty()
        } else {
            seq![part]
        }),
{
    let none = Seq::<u8>::empty();
    lemma_last_slash(none);
    assert forall|i: int| 0 <= i < part.len() implies part[i] != SLASH by {
        assert(part.contains(part[i]));
    }
    lemma_last_slash_at(part, -1);
    let s = seq![47u8] + part;
    assert forall|i: int| 0 < i < s.len() implies s[i] != SLASH by {
        assert(s[i] == part[i - 1]);
    }
    lemma_last_slash_at(s, 0);
    assert(s.skip(1) =~= part);
    if front.len() > 0 {
        let t = front + seq![47u8] + part;
        let c = front.len() as int;
        assert forall|i: int| c < i < t.len() implies t[i] != SLASH by {
            assert(t[i] == part[i - c - 1]);
        }
        lemma_last_slash_at(t, c);
        assert(t.take(c) =~= front);
        assert(t.skip(c + 1) =~= part);
    }
}

/// The name of an entry is what stands behind the last separator, unless that is
/// `..`; a separator at the end does not count, and the root has no name.
pub proof fn law_the_name_stands_last(front: Seq<u8>, part: Seq<u8>)
    requires
        !part.contains(47u8),
        part.len() > 0,
        part != seq![46u8],
    ensures
        file_name(front + seq![47u8] + part) == (if part == seq![46u8, 46u8] {
            None
        } else {
            Some(part)
        }),
        file_name(front + seq![47u8] + part + seq![47u8]) == file_name(front + seq![47u8] + part),
        file_name(part) == file_name(front + seq![47u8] + part),
        file_name(seq![47u8]) is None,
        file_name(Seq::empty()) is None,
{
    law_separators_part_components(front, part);
    let s = front + seq![47u8] + part;
    let none = Seq::<u8>::empty();
    assert(!none.contains(47u8));
    law_separators_part_components(s, none);
    assert(s + seq![47u8] + none =~= s + seq![47u8]);
    assert(components(s) + Seq::<Seq<u8>>::empty() =~= components(s));
    law_separators_part_components(front, none);
    assert(seq![47u8] + none =~= seq![47u8]);
    assert(seq![seq![47u8]] + Seq::<Seq<u8>>::empty() =~= seq![seq![47u8]]);
    if front.len() == 0 {
        assert(s =~= seq![47u8] + part);
    }
    assert(components(s).last() == part);
    assert(part != root()) by {
        if part == root() {
            assert(part[0] == 47u8);
            assert(part.contains(part[0]));
        }
    }
    assert(up() =~= seq![46u8, 46u8]);
}

/// The parent of an entry is the directory it was put in, letter for letter,
/// where that is the root or an entry itself.
pub proof fn law_the_parent_is_the_directory(dir: Seq<u8>, sub: Seq<u8>, name: Seq<u8>)
    requires
        is_name(sub),
        is_name(name),
    ensures
        parent(root() + name) == Some(root()),
        parent(joined(joined(dir, sub), name)) == Some(joined(dir, sub)),
{
    lemma_name_has_no_slash(name);
    lemma_name_has_no_slash(sub);
    let s = root() + name;
    assert forall|i: int| 0 < i < s.len() implies s[i] != SLASH by {
        assert(s[i] == name[i - 1]);
    }
    lemma_last_slash_at(s, 0);
    assert(s.skip(1) =~= name);
    let d = joined(dir, sub);
    assert(d.last() == sub.last());
    let t = joined(d, name);
    let c = d.len() as int;
    assert(t =~= d + seq![SLASH] + name);
    assert forall|i: int| c < i < t.len() implies t[i] != SLASH by {
        assert(t[i] == name[i - c - 1]);
    }
    lemma_last_slash_at(t, c);
    assert(t.take(c) =~= d);
    assert(t.skip(c + 1) =~= name);
    let start = d.len() - sub.len();
    assert forall|i: int| start <= i < d.len() implies d[i] != SLASH by {
        assert(d[i] == sub[i - start]);
    }
    if start > 0 {
        assert(d[start - 1] == SLASH);
        lemma_last_slash_at(d, start - 1);
        assert(d.skip(start) =~= sub);
    } else {
        lemma_last_slash_at(d, -1);
    }
    assert(without_tail(d) == d);
}

/// No byte of a name is a separator.
proof fn lemma_name_has_no_slash(name: Seq<u8>)
    requires
        is_name(name),
    ensures
        forall|i: int| 0 <= i < name.len() ==> name[i] != SLASH,
        !absolute(name),
{
    assert forall|i: int| 0 <= i < name.len() implies name[i] != SLASH by {
        assert(name.contains(name[i]));
    }
}

/// An absolute path is what it is from everywhere; any other is put behind the
/// directory with one separator between them.
pub proof fn law_joining_puts_one_separator(base: Seq<u8>, other: Seq<u8>)
    ensures
        other.len() > 0 && other[0] == 47u8 ==> joined(base, other) == other,
        !(other.len() > 0 && other[0] == 47u8) && base.len() > 0 && base.last() != 47u8 ==> joined(
            base,
            other,
        ) == base + seq![47u8] + other,
        !(other.len() > 0 && other[0] == 47u8) && base.len() > 0 && base.last() == 47u8 ==> joined(
            base,
            other,
        ) == base + other,
        base.len() == 0 ==> joined(base, other) == other,
{
    assert(base.push(47u8) + other =~= base + seq![47u8] + other);
    assert(Seq::<u8>::empty() + other =~= other);
    if base.len() == 0 {
        assert(base + other =~= other);
    }
}

/// The stem of a name is what stands before its last dot; a name without a dot,
/// or whose only dot begins it, is its own stem.
pub proof fn law_the_stem_ends_at_the_last_dot(stem: Seq<u8>, word: Seq<u8>)
    requires
        !word.contains(46u8),
    ensures
        stem.len() > 0 ==> stem_of_name(stem + seq![46u8] + word) == stem,
        stem_of_name(seq![46u8] + word) == seq![46u8] + word,
        stem_of_name(word) == word,
{
    lemma_last_dot(stem, word);
    assert((stem + seq![46u8] + word).take(stem.len() as int) =~= stem);
    lemma_last_dot(Seq::empty(), word);
    assert(Seq::<u8>::empty() + seq![46u8] + word =~= seq![46u8] + word);
    lemma_no_last_dot(word);
}

/// Where the last dot is.
proof fn lemma_last_dot(a: Seq<u8>, b: Seq<u8>)
    requires
        !b.contains(DOT),
    ensures
        last_dot(a + seq![DOT] + b) == Some(a.len()),
    decreases b.len(),
{
    let s = a + seq![DOT] + b;
    if b.len() == 0 {
        assert(s.last() == DOT);
    } else {
        assert(s.last() == b.last());
        assert(b.contains(b.last()));
        assert(s.drop_last() =~= a + seq![DOT] + b.drop_last());
        assert(!b.drop_last().contains(DOT)) by {
            if b.drop_last().contains(DOT) {
                let i = choose|i: int| 0 <= i < b.drop_last().len() && b.drop_last()[i] == DOT;
                assert(b[i] == DOT);
            }
        }
        lemma_last_dot(a, b.drop_last());
    }
}

/// Without a dot there is no last one.
proof fn lemma_no_last_dot(b: Seq<u8>)
    requires
        !b.contains(DOT),
    ensures
        last_dot(b) is None,
    decreases b.len(),
{
    if b.len() > 0 {
        assert(b.contains(b.last()));
        assert(!b.drop_last().contains(DOT)) by {
            if b.drop_last().contains(DOT) {
                let i = choose|i: int| 0 <= i < b.drop_last().len() && b.drop_last()[i] == DOT;
                assert(b[i] == DOT);
            }
        }
        lemma_no_last_dot(b.drop_last());
    }
}

} // verus!
