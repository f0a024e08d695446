//! The location bar: breadcrumbs that turn into an editable path on click.
//!
//! Two presentations of one location. Breadcrumbs are for navigating with the
//! mouse; the entry is for typing, pasting, or copying the literal path — which
//! is why clicking the bar's empty space (or Ctrl+L) reveals it pre-selected.

use crate::caption;
use crate::outside;
use crate::path;
use crate::path::FilePath;
use crate::text;
use vstd::prelude::*;
use vstd::string::*;
use vstd::utf8::*;

verus! {

/// Longest crumb rendered in full before it is middle-ellipsized.
pub const MAX_CRUMB_CHARS: usize = 24;

/// The icon of the Home crumb.
pub const HOME_ICON: &'static str = "user-home-symbolic";

/// The icon of the root crumb.
pub const ROOT_ICON: &'static str = "drive-harddisk-symbolic";

// ── environment variables ──────────────────────────────────────────────────

/// The name and the value of each variable.
pub open spec fn variables(env: Seq<(String, String)>) -> Seq<(Seq<char>, Seq<char>)> {
    env.map_values(|pair: (String, String)| (pair.0@, pair.1@))
}

/// The value of the first variable of that name. Nothing has the empty name.
pub open spec fn lookup(env: Seq<(Seq<char>, Seq<char>)>, name: Seq<char>) -> Option<Seq<char>>
    decreases env.len(),
{
    if env.len() == 0 || name.len() == 0 {
        None
    } else if env[0].0 == name {
        Some(env[0].1)
    } else {
        lookup(env.skip(1), name)
    }
}

/// Whether a character can stand in the name of a variable.
pub open spec fn name_char(c: char) -> bool {
    caption::ascii_alphanumeric(c) || c == '_' || (c as u32 >= 0x80
        && outside::unicode_alphanumeric(c))
}

/// How many characters at the front of `s` can stand in a name.
pub open spec fn name_len(s: Seq<char>) -> nat
    decreases s.len(),
{
    if s.len() > 0 && name_char(s[0]) {
        1 + name_len(s.skip(1))
    } else {
        0
    }
}

/// Where the name begins behind a `$` at the front of `s`.
pub open spec fn name_start(s: Seq<char>) -> nat {
    if s.len() > 1 && s[1] == '{' {
        2
    } else {
        1
    }
}

/// The name behind a `$` at the front of `s`.
pub open spec fn name_at(s: Seq<char>) -> Seq<char> {
    let start = name_start(s) as int;
    s.skip(start).take(name_len(s.skip(start)) as int)
}

/// How many characters the occurrence at the front of `s` has: the `$`, the
/// opening brace, the name and what closes it.
pub open spec fn occurrence_len(s: Seq<char>) -> nat {
    let end = name_start(s) + name_at(s).len();
    if name_start(s) == 2 && end < s.len() {
        end + 1
    } else {
        end
    }
}

/// The text with the values of the variables it names.
pub open spec fn expanded(s: Seq<char>, env: Seq<(Seq<char>, Seq<char>)>) -> Seq<char>
    decreases s.len(),
{
    if s.len() == 0 {
        s
    } else if s[0] != '$' {
        seq![s[0]] + expanded(s.skip(1), env)
    } else {
        let n = occurrence_len(s) as int;
        let value = match lookup(env, name_at(s)) {
            Some(value) => value,
            None => s.take(n),
        };
        value + (if 0 < n <= s.len() {
            expanded(s.skip(n), env)
        } else {
            Seq::empty()
        })
    }
}

/// Whether a character can stand in the name of a variable.
fn is_name_char(c: char) -> (r: bool)
    ensures
        r == name_char(c),
{
    if (c as u32) < 0x80 {
        ('0' <= c && c <= '9') || ('A' <= c && c <= 'Z') || ('a' <= c && c <= 'z') || c == '_'
    } else {
        outside::is_alphanumeric(c)
    }
}

/// A name is no longer than the text it is taken from.
proof fn lemma_name_len(s: Seq<char>)
    ensures
        name_len(s) <= s.len(),
    decreases s.len(),
{
    if s.len() > 0 && name_char(s[0]) {
        lemma_name_len(s.skip(1));
    }
}

/// The value of the first variable of that name.
fn find_variable(env: &[(String, String)], name: &str) -> (r: Option<String>)
    ensures
        match (r, lookup(variables(env@), name@)) {
            (Some(a), Some(b)) => a@ == b,
            (None, None) => true,
            _ => false,
        },
{
    let chars = text::chars_of(name);
    if chars.len() == 0 {
        return None;
    }
    let ghost all = variables(env@);
    assert(all.skip(0) =~= all);
    let mut i: usize = 0;
    while i < env.len()
        invariant
            i <= env@.len(),
            name@.len() > 0,
            all == variables(env@),
            lookup(all, name@) == lookup(all.skip(i as int), name@),
        decreases env@.len() - i,
    {
        assert(all.skip(i as int)[0] == (env@[i as int].0@, env@[i as int].1@));
        assert(all.skip(i as int).skip(1) =~= all.skip(i as int + 1));
        if text::same(env[i].0.as_str(), name) {
            return Some(text::copied(env[i].1.as_str()));
        }
        i = i + 1;
    }
    None
}

/// Where the name that begins at `start` ends.
fn name_end(chars: &Vec<char>, start: usize) -> (end: usize)
    requires
        start <= chars@.len(),
    ensures
        start <= end <= chars@.len(),
        end - start == name_len(chars@.skip(start as int)),
{
    let ghost tail = chars@.skip(start as int);
    assert(tail.skip(0) =~= tail);
    let mut end: usize = start;
    while end < chars.len() && is_name_char(chars[end])
        invariant
            start <= end <= chars@.len(),
            tail == chars@.skip(start as int),
            name_len(tail) == (end - start) + name_len(tail.skip(end - start)),
        decreases chars@.len() - end,
    {
        assert(tail.skip(end - start).skip(1) =~= tail.skip(end - start + 1));
        assert(tail.skip(end - start)[0] == chars@[end as int]);
        end = end + 1;
    }
    proof {
        if end < chars@.len() {
            assert(tail.skip(end - start)[0] == chars@[end as int]);
        }
    }
    end
}

/// Expands `$VAR` and `${VAR}` occurrences, leaving unknown names untouched.
pub fn expand_env(input: &str, env: &[(String, String)]) -> (r: String)
    ensures
        r@ == expanded(input@, variables(env@)),
{
    let chars = text::chars_of(input);
    let ghost vars = variables(env@);
    let mut out = String::new();
    let mut i: usize = 0;
    assert(input@.skip(0) =~= input@);
    assert(out@ + expanded(input@.skip(0), vars) =~= expanded(input@, vars));
    while i < chars.len()
        invariant
            i <= chars@.len(),
            chars@ == input@,
            vars == variables(env@),
            expanded(input@, vars) == out@ + expanded(input@.skip(i as int), vars),
        decreases chars@.len() - i,
    {
        let ghost s = input@.skip(i as int);
        let ghost before = out@;
        if chars[i] != '$' {
            out.push(chars[i]);
            assert(s.skip(1) =~= input@.skip(i as int + 1));
            assert(before + (seq![s[0]] + expanded(s.skip(1), vars)) =~= out@ + expanded(
                s.skip(1),
                vars,
            ));
            i = i + 1;
            continue;
        }
        let braced = i + 1 < chars.len() && chars[i + 1] == '{';
        let start: usize = if braced {
            i + 2
        } else {
            i + 1
        };
        let end: usize = name_end(&chars, start);
        assert(s.skip(name_start(s) as int) =~= input@.skip(start as int));
        let name_chars = text::slice_of(&chars, start, end);
        assert(name_chars@ =~= name_at(s));
        let name = text::string_of(&name_chars);
        let stop: usize = if braced && end < chars.len() {
            end + 1
        } else {
            end
        };
        assert(stop - i == occurrence_len(s));
        match find_variable(env, name.as_str()) {
            Some(value) => {
                out.append(value.as_str());
            },
            None => {
                let raw = text::slice_of(&chars, i, stop);
                assert(raw@ =~= s.take(stop - i));
                out.append(text::string_of(&raw).as_str());
            },
        }
        assert(s.skip(stop - i) =~= input@.skip(stop as int));
        proof {
            let value = match lookup(vars, name_at(s)) {
                Some(value) => value,
                None => s.take(stop - i),
            };
            assert(before + (value + expanded(s.skip(stop - i), vars)) =~= (before + value)
                + expanded(s.skip(stop - i), vars));
        }
        i = stop;
    }
    assert(input@.skip(i as int) =~= Seq::<char>::empty());
    out
}

/// Where no variable is set, a text is left as it is.
pub proof fn law_unknown_names_stay(s: Seq<char>)
    ensures
        expanded(s, Seq::<(Seq<char>, Seq<char>)>::empty()) == s,
    decreases s.len(),
{
    let env = Seq::<(Seq<char>, Seq<char>)>::empty();
    if s.len() > 0 {
        if s[0] != '$' {
            law_unknown_names_stay(s.skip(1));
            assert(seq![s[0]] + s.skip(1) =~= s);
        } else {
            let n = occurrence_len(s) as int;
            lemma_name_len(s.skip(name_start(s) as int));
            law_unknown_names_stay(s.skip(n));
            assert(s.take(n) + s.skip(n) =~= s);
        }
    }
}

/// A text without a `$` is left as it is, whatever is set.
pub proof fn law_plain_text_stays(s: Seq<char>, env: Seq<(Seq<char>, Seq<char>)>)
    requires
        !s.contains('$'),
    ensures
        expanded(s, env) == s,
    decreases s.len(),
{
    if s.len() > 0 {
        assert(s.contains(s[0]));
        let rest = s.skip(1);
        assert(!rest.contains('$')) by {
            if rest.contains('$') {
                let i = choose|i: int| 0 <= i < rest.len() && rest[i] == '$';
                assert(s[i + 1] == '$');
            }
        }
        law_plain_text_stays(rest, env);
        assert(seq![s[0]] + rest =~= s);
    }
}

// ── normalising ────────────────────────────────────────────────────────────

/// The components after `.` and `..` have been resolved. There is nothing
/// above the root, and nothing above the start of a relative path.
pub open spec fn resolved(parts: Seq<Seq<u8>>) -> Seq<Seq<u8>>
    decreases parts.len(),
{
    if parts.len() == 0 {
        parts
    } else {
        let front = resolved(parts.drop_last());
        let part = parts.last();
        if part == path::up() {
            if front.len() > 0 && front.last() != path::root() {
                front.drop_last()
            } else {
                front
            }
        } else if part == seq![path::DOT] {
            front
        } else {
            front.push(part)
        }
    }
}

/// The path made of some components.
pub open spec fn built(parts: Seq<Seq<u8>>) -> Seq<u8>
    decreases parts.len(),
{
    if parts.len() == 0 {
        Seq::empty()
    } else {
        path::joined(built(parts.drop_last()), parts.last())
    }
}

/// The path with `.` and `..` resolved in its text.
pub open spec fn normalized(s: Seq<u8>) -> Seq<u8> {
    let parts = resolved(path::components(s));
    if parts.len() == 0 {
        path::root()
    } else {
        built(parts)
    }
}

/// Resolves `.` and `..` textually, without touching the filesystem.
pub fn normalize(path: &FilePath) -> (r: FilePath)
    ensures
        r@ == normalized(path@),
{
    let parts = path.components();
    let ghost all = path::components(path@);
    assert(all.len() == parts@.len());
    let mut stack: Vec<FilePath> = Vec::new();
    let mut root: Vec<u8> = Vec::new();
    root.push(path::SLASH);
    let mut dot: Vec<u8> = Vec::new();
    dot.push(path::DOT);
    let mut dots: Vec<u8> = Vec::new();
    dots.push(path::DOT);
    dots.push(path::DOT);
    assert(root@ =~= path::root());
    assert(dot@ =~= seq![path::DOT]);
    assert(dots@ =~= path::up());
    let mut i: usize = 0;
    assert(path_views(stack@) =~= resolved(all.take(0)));
    while i < parts.len()
        invariant
            i <= parts@.len(),
            all == path::contents(parts@),
            all.len() == parts@.len(),
            root@ == path::root(),
            dot@ == seq![path::DOT],
            dots@ == path::up(),
            path_views(stack@) == resolved(all.take(i as int)),
        decreases parts@.len() - i,
    {
        let ghost before = path_views(stack@);
        assert(all.take(i as int + 1).drop_last() =~= all.take(i as int));
        assert(all.take(i as int + 1).last() == parts@[i as int]@);
        assert(before.len() == stack@.len());
        if path::same_bytes(&parts[i], &dots) {
            if stack.len() > 0 && !path::same_bytes(&stack[stack.len() - 1].bytes, &root) {
                stack.pop();
                assert(path_views(stack@) =~= before.drop_last());
            }
        } else if !path::same_bytes(&parts[i], &dot) {
            let part = path::bytes_between(&parts[i], 0, parts[i].len());
            assert(part@ =~= parts@[i as int]@);
            stack.push(FilePath { bytes: part });
            assert(path_views(stack@) =~= before.push(part@));
        }
        i = i + 1;
    }
    assert(all.take(i as int) =~= all);
    assert(path_views(stack@).len() == stack@.len());
    if stack.len() == 0 {
        return FilePath::root();
    }
    let ghost kept = path_views(stack@);
    let mut out = FilePath { bytes: Vec::new() };
    let mut k: usize = 0;
    assert(out@ =~= built(kept.take(0)));
    while k < stack.len()
        invariant
            k <= stack@.len(),
            kept == path_views(stack@),
            kept.len() == stack@.len(),
            out@ == built(kept.take(k as int)),
        decreases stack@.len() - k,
    {
        assert(kept.take(k as int + 1).drop_last() =~= kept.take(k as int));
        out = out.join(&stack[k]);
        k = k + 1;
    }
    assert(kept.take(k as int) =~= kept);
    out
}

/// The bytes of some paths.
pub open spec fn path_views(paths: Seq<FilePath>) -> Seq<Seq<u8>> {
    paths.map_values(|p: FilePath| p@)
}

/// Components of which the first may be the root and each other one is a name.
pub open spec fn clean(parts: Seq<Seq<u8>>) -> bool {
    forall|i: int|
        0 <= i < parts.len() ==> (i == 0 && parts[i] == path::root()) || path::is_name(
            #[trigger] parts[i],
        )
}

/// Each component is the root or `.` at the front, `..`, or a name.
proof fn lemma_components_are_parts(s: Seq<u8>)
    ensures
        forall|i: int|
            0 <= i < path::components(s).len() ==> {
                let part = #[trigger] path::components(s)[i];
                (i == 0 && part == path::root()) || part == seq![path::DOT] || part == path::up()
                    || path::is_name(part)
            },
    decreases s.len(),
{
    path::lemma_last_slash(s);
    let all = path::components(s);
    match path::last_slash(s) {
        None => {
            assert(!s.contains(path::SLASH));
            if s.len() > 0 {
                assert(all[0] == s);
            }
        },
        Some(c) => {
            let part = s.skip(c as int + 1);
            let front = path::components(s.take(c as int));
            assert(!part.contains(path::SLASH)) by {
                if part.contains(path::SLASH) {
                    let i = choose|i: int| 0 <= i < part.len() && part[i] == path::SLASH;
                    assert(s[i + c + 1] == path::SLASH);
                }
            }
            if c > 0 {
                lemma_components_are_parts(s.take(c as int));
                assert forall|i: int| 0 <= i < all.len() implies {
                    let p = #[trigger] all[i];
                    (i == 0 && p == path::root()) || p == seq![path::DOT] || p == path::up()
                        || path::is_name(p)
                } by {
                    if i < front.len() {
                        assert(all[i] == front[i]);
                    } else {
                        assert(all[i] == part);
                    }
                }
            } else {
                assert(all[0] == path::root());
                if all.len() > 1 {
                    assert(all[1] == part);
                }
            }
        },
    }
}

/// Resolved components hold neither `.` nor `..`.
proof fn lemma_resolved_is_clean(s: Seq<u8>, n: int)
    requires
        0 <= n <= path::components(s).len(),
    ensures
        clean(resolved(path::components(s).take(n))),
        n > 0 && path::components(s)[0] == path::root() ==> {
            let r = resolved(path::components(s).take(n));
            r.len() > 0 && r[0] == path::root()
        },
    decreases n,
{
    let all = path::components(s);
    if n > 0 {
        lemma_resolved_is_clean(s, n - 1);
        lemma_components_are_parts(s);
        let front = resolved(all.take(n - 1));
        assert(all.take(n).drop_last() =~= all.take(n - 1));
        assert(all.take(n).last() == all[n - 1]);
        let r = resolved(all.take(n));
        assert(path::root().len() == 1 && path::root()[0] == path::SLASH);
        assert(path::up().len() == 2);
        assert(seq![path::DOT][0] == path::DOT);
        if n == 1 {
            assert(all.take(0) =~= Seq::<Seq<u8>>::empty());
        }
        assert forall|i: int| 0 <= i < r.len() implies (i == 0 && r[i] == path::root())
            || path::is_name(#[trigger] r[i]) by {
            if i < front.len() {
                assert(r[i] == front[i]);
            } else if n == 1 {
                assert(all.take(0) =~= Seq::<Seq<u8>>::empty());
            }
        }
    }
}

/// Clean components are those of the path made of them.
proof fn lemma_components_of_built(parts: Seq<Seq<u8>>)
    requires
        clean(parts),
    ensures
        path::components(built(parts)) == parts,
    decreases parts.len(),
{
    if parts.len() == 0 {
        path::lemma_last_slash(Seq::<u8>::empty());
        assert(path::components(Seq::<u8>::empty()) =~= parts);
    } else {
        let front = parts.drop_last();
        assert(clean(front)) by {
            assert forall|i: int| 0 <= i < front.len() implies (i == 0 && front[i] == path::root())
                || path::is_name(#[trigger] front[i]) by {
                assert(front[i] == parts[i]);
            }
        }
        lemma_components_of_built(front);
        let part = parts.last();
        if path::is_name(part) {
            path::law_join_appends_a_name(built(front), part);
            assert(front.push(part) =~= parts);
        } else {
            assert(parts.len() == 1);
            let r = path::root();
            path::lemma_last_slash(r);
            assert(r[0] == path::SLASH);
            assert(r.skip(1) =~= Seq::<u8>::empty());
            assert(path::components(r) =~= seq![r]);
            assert(parts =~= seq![r]);
        }
    }
}

/// The components of a normalised path are the resolved ones, or the root
/// where nothing is left of them.
pub proof fn law_normalized_components(s: Seq<u8>)
    ensures
        path::components(normalized(s)) == (if resolved(path::components(s)).len() == 0 {
            seq![path::root()]
        } else {
            resolved(path::components(s))
        }),
        clean(path::components(normalized(s))),
{
    let all = path::components(s);
    lemma_resolved_is_clean(s, all.len() as int);
    assert(all.take(all.len() as int) =~= all);
    lemma_components_of_built(resolved(all));
    let r = path::root();
    path::lemma_last_slash(r);
    assert(r[0] == path::SLASH);
    assert(r.skip(1) =~= Seq::<u8>::empty());
    assert(path::components(r) =~= seq![r]);
}

/// Clean components have nothing left to resolve.
proof fn lemma_resolved_of_clean(parts: Seq<Seq<u8>>)
    requires
        clean(parts),
    ensures
        resolved(parts) == parts,
    decreases parts.len(),
{
    if parts.len() > 0 {
        let front = parts.drop_last();
        assert(clean(front)) by {
            assert forall|i: int| 0 <= i < front.len() implies (i == 0 && front[i] == path::root())
                || path::is_name(#[trigger] front[i]) by {
                assert(front[i] == parts[i]);
            }
        }
        lemma_resolved_of_clean(front);
        let part = parts[parts.len() - 1];
        assert(part.len() > 0);
        if !path::is_name(part) {
            assert(part == path::root());
            assert(part[0] == path::SLASH);
            assert(path::up()[0] == path::DOT);
            assert(seq![path::DOT][0] == path::DOT);
        }
        assert(resolved(parts) =~= parts);
    }
}

/// Normalising twice is normalising once.
pub proof fn law_normalize_is_idempotent(s: Seq<u8>)
    ensures
        normalized(normalized(s)) == normalized(s),
{
    law_normalized_components(s);
    let parts = path::components(normalized(s));
    lemma_resolved_of_clean(parts);
    let all = resolved(path::components(s));
    if all.len() == 0 {
        assert(parts =~= seq![path::root()]);
        assert(parts.drop_last() =~= Seq::<Seq<u8>>::empty());
        reveal_with_fuel(built, 2);
        assert(path::root()[0] == path::SLASH);
        assert(built(parts) == path::root());
    }
}

/// A normalised path is absolute when the path was.
pub proof fn law_normalize_keeps_the_root(s: Seq<u8>)
    requires
        path::absolute(s),
    ensures
        path::absolute(normalized(s)),
{
    law_normalized_components(s);
    lemma_absolute_components(s);
    let all = path::components(s);
    lemma_resolved_is_clean(s, all.len() as int);
    assert(all.take(all.len() as int) =~= all);
    lemma_absolute_components(normalized(s));
}

/// A path is absolute exactly when its first component is the root.
proof fn lemma_absolute_components(s: Seq<u8>)
    ensures
        path::absolute(s) <==> path::components(s).len() > 0 && path::components(s)[0]
            == path::root(),
        path::components(s).len() == 0 ==> s.len() == 0,
    decreases s.len(),
{
    path::lemma_last_slash(s);
    match path::last_slash(s) {
        None => {
            if s.len() > 0 {
                assert(path::components(s)[0] == s);
                if s == path::root() {
                    assert(s[0] == path::SLASH);
                }
            }
        },
        Some(c) => {
            if c > 0 {
                lemma_absolute_components(s.take(c as int));
            }
        },
    }
}

// ── crumbs ─────────────────────────────────────────────────────────────────

/// One crumb of the trail.
#[derive(Debug)]
pub struct Crumb {
    /// Whether a separator stands before it.
    pub separated: bool,
    /// Its icon.
    pub icon: Option<String>,
    /// Its text; the root crumb has none.
    pub label: String,
    /// Whether its text is shortened in the middle.
    pub ellipsized: bool,
    /// Its tooltip: the path it leads to.
    pub tooltip: String,
    /// Where it leads.
    pub target: FilePath,
    /// Whether it is the place shown.
    pub current: bool,
}

impl Crumb {
    /// Whether the crumb shows the given things.
    pub open spec fn shows(
        &self,
        separated: bool,
        icon: Option<Seq<char>>,
        label: Seq<char>,
        target: Seq<u8>,
        current: bool,
    ) -> bool {
        &&& self.separated == separated
        &&& match (self.icon, icon) {
            (Some(a), Some(b)) => a@ == b,
            (None, None) => true,
            _ => false,
        }
        &&& self.label@ == label
        &&& self.ellipsized == (label.len() > MAX_CRUMB_CHARS)
        &&& self.tooltip@ == outside::lossy(target)
        &&& self.target@ == target
        &&& self.current == current
    }
}

/// Whether a path is the home directory or inside it.
pub open spec fn inside(s: Seq<u8>, home: Option<Seq<u8>>) -> bool {
    home is Some && path::components(home->0).is_prefix_of(path::components(s))
}

/// The names that get crumbs of their own: those below the home directory for
/// a path inside it, else all of the path's.
pub open spec fn trail(s: Seq<u8>, home: Option<Seq<u8>>) -> Seq<Seq<u8>> {
    let parts = if inside(s, home) {
        path::components(s).skip(path::components(home->0).len() as int)
    } else {
        path::components(s)
    };
    named(parts)
}

/// The components that are names.
pub open spec fn named(parts: Seq<Seq<u8>>) -> Seq<Seq<u8>>
    decreases parts.len(),
{
    if parts.len() == 0 {
        parts
    } else if path::names(parts.last()) {
        named(parts.drop_last()).push(parts.last())
    } else {
        named(parts.drop_last())
    }
}

/// Where the crumb of the `n`th name leads, counted from one.
pub open spec fn crumb_target(base: Seq<u8>, names: Seq<Seq<u8>>, n: nat) -> Seq<u8>
    decreases n,
{
    if n == 0 {
        base
    } else {
        path::joined(
            crumb_target(base, names, (n - 1) as nat),
            encode_utf8(outside::lossy(names[n - 1])),
        )
    }
}

/// Where the first crumb leads.
pub open spec fn trail_base(s: Seq<u8>, home: Option<Seq<u8>>) -> Seq<u8> {
    if inside(s, home) {
        home->0
    } else {
        path::root()
    }
}

/// Whether some crumbs are the trail of a path: a Home crumb, or the root's
/// icon alone, and one crumb for each name below it.
pub open spec fn is_trail(crumbs: Seq<Crumb>, s: Seq<u8>, home: Option<Seq<u8>>) -> bool {
    let names = trail(s, home);
    let base = trail_base(s, home);
    &&& crumbs.len() == names.len() + 1
    &&& if inside(s, home) {
        crumbs[0].shows(false, Some(HOME_ICON@), "Home"@, base, names.len() == 0)
    } else {
        crumbs[0].shows(false, Some(ROOT_ICON@), ""@, base, names.len() == 0)
    }
    &&& forall|i: int|
        0 <= i < names.len() ==> (#[trigger] crumbs[i + 1]).shows(
            true,
            None,
            outside::lossy(names[i]),
            crumb_target(base, names, (i + 1) as nat),
            i == names.len() - 1,
        )
}

/// Puts a crumb at the end of the trail.
fn push_crumb(
    crumbs: &mut Vec<Crumb>,
    label: &str,
    target: FilePath,
    current: bool,
    icon: Option<&str>,
)
    ensures
        final(crumbs)@.len() == old(crumbs)@.len() + 1,
        final(crumbs)@.drop_last() == old(crumbs)@,
        final(crumbs)@.last().shows(
            old(crumbs)@.len() > 0,
            (match icon {
                Some(name) => Some(name@),
                None => None,
            }),
            label@,
            target@,
            current,
        ),
{
    let separated = crumbs.len() > 0;
    let chars = text::chars_of(label);
    let crumb = Crumb {
        separated,
        icon: match icon {
            Some(name) => Some(text::copied(name)),
            None => None,
        },
        label: text::copied(label),
        ellipsized: chars.len() > MAX_CRUMB_CHARS,
        tooltip: target.display(),
        target,
        current,
    };
    crumbs.push(crumb);
    assert(crumbs@.drop_last() =~= old(crumbs)@);
}

/// The names that get crumbs of their own.
fn trail_names(path: &FilePath, home: Option<&FilePath>) -> (r: Vec<Vec<u8>>)
    ensures
        path::contents(r@) == trail(path@, home_view(home)),
{
    let parts = path.components();
    let ghost all = path::components(path@);
    assert(all.len() == parts@.len());
    let mut from: usize = 0;
    match home {
        Some(h) => {
            if path.starts_with(h) {
                let inner = h.components();
                assert(path::components(h@).len() == inner@.len());
                from = inner.len();
            }
        },
        None => {},
    }
    let ghost rest = all.skip(from as int);
    assert(all.skip(0) =~= all);
    let mut out: Vec<Vec<u8>> = Vec::new();
    let mut i: usize = from;
    assert(path::contents(out@) =~= named(rest.take(0)));
    while i < parts.len()
        invariant
            from <= i <= parts@.len(),
            all == path::contents(parts@),
            all.len() == parts@.len(),
            rest == all.skip(from as int),
            path::contents(out@) == named(rest.take(i - from)),
        decreases parts@.len() - i,
    {
        let ghost before = path::contents(out@);
        assert(rest.take(i - from + 1).drop_last() =~= rest.take(i - from));
        assert(rest.take(i - from + 1).last() == parts@[i as int]@);
        if path::is_naming(&parts[i]) {
            let part = path::bytes_between(&parts[i], 0, parts[i].len());
            assert(part@ =~= parts@[i as int]@);
            out.push(part);
            assert(path::contents(out@) =~= before.push(part@));
        }
        i = i + 1;
    }
    assert(rest.take(i - from) =~= rest);
    out
}

/// The bytes of the home directory.
pub open spec fn home_view(home: Option<&FilePath>) -> Option<Seq<u8>> {
    match home {
        Some(h) => Some(h@),
        None => None,
    }
}

/// The trail for `path`.
pub fn crumbs_for(path: &FilePath, home: Option<&FilePath>) -> (r: Vec<Crumb>)
    ensures
        is_trail(r@, path@, home_view(home)),
{
    let names = trail_names(path, home);
    let ghost all = trail(path@, home_view(home));
    assert(all.len() == names@.len());
    let ghost base = trail_base(path@, home_view(home));
    let mut crumbs: Vec<Crumb> = Vec::new();
    let at_home: bool = match home {
        Some(h) => path.starts_with(h),
        None => false,
    };
    // Inside the home directory, root the trail at a Home crumb instead of
    // spelling out /home/<user>, which is noise on every single path.
    let mut prefix: FilePath = FilePath::root();
    match home {
        Some(h) if at_home => {
            push_crumb(&mut crumbs, "Home", h.copy(), names.len() == 0, Some(HOME_ICON));
            prefix = h.copy();
        },
        _ => {
            // The root crumb is the icon alone: labelling it "/" would render
            // as "/ / tmp / …" once a separator is added after it.
            push_crumb(&mut crumbs, "", FilePath::root(), names.len() == 0, Some(ROOT_ICON));
        },
    }
    let ghost first = crumbs@[0];
    let mut i: usize = 0;
    while i < names.len()
        invariant
            i <= names@.len(),
            all == path::contents(names@),
            all.len() == names@.len(),
            crumbs@.len() == i + 1,
            crumbs@[0] == first,
            prefix@ == crumb_target(base, all, i as nat),
            forall|j: int|
                0 <= j < i ==> (#[trigger] crumbs@[j + 1]).shows(
                    true,
                    None,
                    outside::lossy(all[j]),
                    crumb_target(base, all, (j + 1) as nat),
                    j == all.len() - 1,
                ),
        decreases names@.len() - i,
    {
        let ghost before = crumbs@;
        let name = outside::from_utf8_lossy(&names[i]);
        prefix = prefix.join_text(name.as_str());
        push_crumb(&mut crumbs, name.as_str(), prefix.copy(), i == names.len() - 1, None);
        assert forall|j: int| 0 <= j < i implies #[trigger] crumbs@[j + 1] == before[j + 1] by {
            assert(crumbs@.drop_last()[j + 1] == before[j + 1]);
        }
        assert(crumbs@.drop_last()[0] == before[0]);
        i = i + 1;
    }
    crumbs
}

// ── the bar ────────────────────────────────────────────────────────────────

/// Which of the two presentations is shown.
#[derive(Clone, Copy, Debug, PartialEq, Eq, Structural)]
pub enum Page {
    /// The breadcrumbs.
    Crumbs,
    /// The editable path.
    Entry,
}

/// The location bar.
#[derive(Debug)]
pub struct PathBar {
    /// The place that relative paths are seen from.
    pub current: FilePath,
    /// The trail.
    pub crumbs: Vec<Crumb>,
    /// Which presentation is shown.
    pub page: Page,
    /// The text of the entry.
    pub entry: String,
    /// Whether all of the entry's text is selected and the entry has the focus.
    pub selected: bool,
    /// Whether the entry is marked as wrong.
    pub error: bool,
    /// Guards the entry's change handler while its text is rewritten, so
    /// inline completion doesn't recurse.
    pub updating: bool,
}

/// What the entry is to show: the completed text, and the character from which
/// on it is selected.
#[derive(Debug)]
pub struct Completion {
    /// The completed text.
    pub text: String,
    /// Where the selection starts.
    pub select_from: usize,
}

/// A directory to look for completions in, and what they begin with.
#[derive(Debug)]
pub struct CompletionRequest {
    /// The directory.
    pub dir: FilePath,
    /// The front of the name.
    pub prefix: String,
}

/// The part of a text behind its prefix.
pub open spec fn after(s: Seq<char>, prefix: Seq<char>) -> Seq<char> {
    s.skip(prefix.len() as int)
}

/// The text that a typed path stands for, before it is made absolute.
pub open spec fn typed(
    s: Seq<char>,
    home: Option<Seq<u8>>,
    env: Seq<(Seq<char>, Seq<char>)>,
) -> Option<Seq<u8>> {
    if "file://"@.is_prefix_of(s) {
        let bytes = outside::percent_decoded(encode_utf8(after(s, "file://"@)));
        if valid_utf8(bytes) {
            Some(bytes)
        } else {
            None
        }
    } else if s == "~"@ {
        match home {
            Some(h) => Some(encode_utf8(outside::lossy(h))),
            None => None,
        }
    } else if "~/"@.is_prefix_of(s) {
        match home {
            Some(h) => Some(
                encode_utf8(outside::lossy(path::joined(h, encode_utf8(after(s, "~/"@))))),
            ),
            None => None,
        }
    } else {
        Some(encode_utf8(expanded(s, env)))
    }
}

/// The path that a typed text stands for: nothing for a text of white space
/// alone, for a `file://` URI that does not decode to text, and for `~` where
/// there is no home directory.
pub open spec fn candidate(
    current: Seq<u8>,
    text: Seq<char>,
    home: Option<Seq<u8>>,
    env: Seq<(Seq<char>, Seq<char>)>,
) -> Option<Seq<u8>> {
    let s = text::trimmed(text);
    if s.len() == 0 {
        None
    } else {
        match typed(s, home, env) {
            Some(p) => Some(normalized(path::joined(current, p))),
            None => None,
        }
    }
}

/// The text behind a prefix, where it has that prefix.
fn strip_prefix(text: &str, prefix: &str) -> (r: Option<String>)
    ensures
        r is Some <==> prefix@.is_prefix_of(text@),
        r matches Some(rest) ==> rest@ == after(text@, prefix@),
{
    if !text::starts_with(text, prefix) {
        return None;
    }
    let chars = text::chars_of(text);
    let n: usize = text::chars_of(prefix).len();
    assert(prefix@.len() <= text@.len());
    let rest = text::slice_of(&chars, n, chars.len());
    assert(rest@ =~= after(text@, prefix@));
    Some(text::string_of(&rest))
}

/// The path that a typed text stands for, seen from `current`, with the home
/// directory and the environment it may speak of.
///
/// Accepts `~`, `file://` URIs, environment variables and paths relative to
/// the current directory, because all four turn up in things people paste.
pub fn resolve_from(
    current: &FilePath,
    text: &str,
    home: Option<&FilePath>,
    env: &[(String, String)],
) -> (r: Option<FilePath>)
    ensures
        match (r, candidate(current@, text@, home_view(home), variables(env@))) {
            (Some(p), Some(q)) => p@ == q,
            (None, None) => true,
            _ => false,
        },
{
    let trimmed = text::trim(text);
    if text::chars_of(trimmed.as_str()).len() == 0 {
        return None;
    }
    let path: FilePath = match strip_prefix(trimmed.as_str(), "file://") {
        Some(rest) => match outside::percent_decode(rest.as_str()) {
            Ok(decoded) => {
                proof {
                    decode_utf8_encode_utf8(
                        outside::percent_decoded(encode_utf8(after(trimmed@, "file://"@))),
                    );
                }
                FilePath::new(decoded.as_str())
            },
            Err(_) => return None,
        },
        None => if text::same(trimmed.as_str(), "~") {
            match home {
                Some(h) => FilePath::new(h.display().as_str()),
                None => return None,
            }
        } else {
            match strip_prefix(trimmed.as_str(), "~/") {
                Some(rest) => match home {
                    Some(h) => FilePath::new(h.join_text(rest.as_str()).display().as_str()),
                    None => return None,
                },
                None => FilePath::new(expand_env(trimmed.as_str(), env).as_str()),
            }
        },
    };
    // Normalising here means `..` in a typed path works even when the
    // intermediate directory is a symlink the user didn't intend to follow.
    Some(normalize(&current.join(&path)))
}

/// Whether there can be that home directory: none, or a path that is not empty.
pub open spec fn is_home(home: Option<Seq<u8>>) -> bool {
    home matches Some(h) ==> h.len() > 0
}

/// The home directory, where there is one. It is never the empty path, which
/// every path lies below and which would turn each trail into one from Home.
pub fn home_dir() -> (r: Option<FilePath>)
    ensures
        r matches Some(home) ==> home@.len() > 0,
{
    match outside::home_dir_bytes() {
        Some(bytes) => Some(FilePath { bytes }),
        None => None,
    }
}

/// The last `/` of a text splits it in two.
pub open spec fn split_at_last_slash(s: Seq<char>) -> Option<(Seq<char>, Seq<char>)> {
    match caption::last_of(s, '/') {
        Some(c) => Some((s.take(c as int), s.skip(c as int + 1))),
        None => None,
    }
}

/// The directory that holds the last segment of a typed text.
pub open spec fn segment_dir(
    current: Seq<u8>,
    dir_part: Seq<char>,
    home: Option<Seq<u8>>,
) -> Option<Seq<u8>> {
    if dir_part.len() == 0 {
        Some(path::root())
    } else if "~"@.is_prefix_of(dir_part) {
        match home {
            Some(h) => Some(
                path::joined(
                    current,
                    path::joined(
                        h,
                        encode_utf8(text::without_leading(after(dir_part, "~"@), '/')),
                    ),
                ),
            ),
            None => None,
        }
    } else {
        Some(path::joined(current, encode_utf8(dir_part)))
    }
}

/// Where to look for completions of a text: nowhere unless the cursor stands at
/// its end, it has a `/` and does not end in one.
pub open spec fn completion_place(
    current: Seq<u8>,
    s: Seq<char>,
    cursor: int,
    home: Option<Seq<u8>>,
) -> Option<(Seq<u8>, Seq<char>)> {
    match split_at_last_slash(s) {
        Some((dir_part, prefix)) => if cursor == s.len() && prefix.len() > 0 {
            match segment_dir(current, dir_part, home) {
                Some(dir) => Some((dir, prefix)),
                None => None,
            }
        } else {
            None
        },
        None => None,
    }
}

/// The directories among the entries whose names begin with `prefix`.
pub open spec fn completions(entries: Seq<(String, bool)>, prefix: Seq<char>) -> Seq<Seq<char>>
    decreases entries.len(),
{
    if entries.len() == 0 {
        Seq::empty()
    } else {
        let front = completions(entries.drop_last(), prefix);
        if entries.last().1 && prefix.is_prefix_of(entries.last().0@) {
            front.push(entries.last().0@)
        } else {
            front
        }
    }
}

/// The text completed by the only directory whose name begins with the last
/// segment, with the added part selected.
///
/// Ambiguous prefixes are left alone: silently picking one of several
/// candidates would send the user somewhere they didn't ask for.
pub fn complete(text: &str, prefix: &str, entries: &[(String, bool)]) -> (r: Option<Completion>)
    ensures
        r is Some <==> completions(entries@, prefix@).len() == 1,
        r matches Some(c) ==> c.text@ == text@ + after(
            completions(entries@, prefix@)[0],
            prefix@,
        ) && c.select_from == text@.len(),
{
    let mut found: Option<String> = None;
    let mut i: usize = 0;
    while i < entries.len()
        invariant
            i <= entries@.len(),
            match found {
                Some(rest) => {
                    let all = completions(entries@.take(i as int), prefix@);
                    all.len() == 1 && rest@ == after(all[0], prefix@)
                },
                None => completions(entries@.take(i as int), prefix@).len() == 0,
            },
        decreases entries@.len() - i,
    {
        assert(entries@.take(i as int + 1).drop_last() =~= entries@.take(i as int));
        if entries[i].1 {
            match strip_prefix(entries[i].0.as_str(), prefix) {
                Some(rest) => {
                    if found.is_some() {
                        proof {
                            lemma_completions_grow(entries@, prefix@, i as int + 1);
                        }
                        return None;
                    }
                    found = Some(rest);
                },
                None => {},
            }
        }
        i = i + 1;
    }
    assert(entries@.take(entries@.len() as int) =~= entries@);
    match found {
        Some(rest) => {
            let mut completed = text::copied(text);
            completed.append(rest.as_str());
            Some(Completion { text: completed, select_from: text::chars_of(text).len() })
        },
        None => None,
    }
}

/// More entries give no fewer completions.
proof fn lemma_completions_grow(entries: Seq<(String, bool)>, prefix: Seq<char>, n: int)
    requires
        0 <= n <= entries.len(),
    ensures
        completions(entries.take(n), prefix).len() <= completions(entries, prefix).len(),
    decreases entries.len(),
{
    if n == entries.len() {
        assert(entries.take(n) =~= entries);
    } else {
        let front = entries.drop_last();
        lemma_completions_grow(front, prefix, n);
        assert(front.take(n) =~= entries.take(n));
    }
}

impl PathBar {
    /// A bar that shows its crumbs, at the root, with no trail yet.
    pub fn new() -> (r: PathBar)
        ensures
            r.current@ == path::root(),
            r.crumbs@.len() == 0,
            r.page == Page::Crumbs,
            r.entry@ == ""@,
            !r.selected && !r.error && !r.updating,
    {
        PathBar {
            current: FilePath::root(),
            crumbs: Vec::new(),
            page: Page::Crumbs,
            entry: text::copied(""),
            selected: false,
            error: false,
            updating: false,
        }
    }

    /// Switches to the editable path, selected so typing replaces it.
    pub fn start_editing(&mut self)
        ensures
            final(self).current == old(self).current,
            final(self).crumbs == old(self).crumbs,
            final(self).page == Page::Entry,
            final(self).entry@ == outside::lossy(old(self).current@),
            final(self).selected,
            final(self).error == old(self).error,
            !final(self).updating,
    {
        self.entry = self.current.display();
        self.updating = false;
        self.page = Page::Entry;
        self.selected = true;
    }

    /// Shows the breadcrumbs.
    pub fn show_crumbs(&mut self)
        ensures
            *final(self) == (PathBar { page: Page::Crumbs, ..*old(self) }),
    {
        self.page = Page::Crumbs;
    }

    /// Shows a single non-navigable crumb for a place that has no real path,
    /// such as the Trash. Editing is still available and still resolves paths.
    pub fn set_virtual(&mut self, label: &str, icon: &str)
        ensures
            final(self).crumbs@.len() == 1,
            final(self).crumbs@[0].shows(false, Some(icon@), label@, path::root(), true),
            final(self).page == old(self).page,
            final(self).entry == old(self).entry,
            final(self).selected == old(self).selected,
            final(self).error == old(self).error,
            final(self).updating == old(self).updating,
            exists|home: Option<Seq<u8>>|
                is_home(home) && final(self).current@ == (#[trigger] virtual_place(home)),
    {
        let home = home_dir();
        self.set_virtual_from(label, icon, home.as_ref());
    }

    /// Shows a single crumb for a place that has no real path. Paths typed
    /// there are seen from the home directory, or from the root without one.
    pub fn set_virtual_from(&mut self, label: &str, icon: &str, home: Option<&FilePath>)
        ensures
            final(self).crumbs@.len() == 1,
            final(self).crumbs@[0].shows(false, Some(icon@), label@, path::root(), true),
            final(self).page == old(self).page,
            final(self).entry == old(self).entry,
            final(self).selected == old(self).selected,
            final(self).error == old(self).error,
            final(self).updating == old(self).updating,
            final(self).current@ == virtual_place(home_view(home)),
    {
        self.current = match home {
            Some(h) => h.copy(),
            None => FilePath::root(),
        };
        let mut crumbs: Vec<Crumb> = Vec::new();
        push_crumb(&mut crumbs, label, FilePath::root(), true, Some(icon));
        self.crumbs = crumbs;
    }

    /// Rebuilds the breadcrumb strip for `path`.
    pub fn set_path(&mut self, path: &FilePath)
        ensures
            final(self).current@ == path@,
            final(self).page == old(self).page,
            final(self).entry == old(self).entry,
            final(self).selected == old(self).selected,
            final(self).error == old(self).error,
            final(self).updating == old(self).updating,
            exists|home: Option<Seq<u8>>|
                is_home(home) && #[trigger] is_trail(final(self).crumbs@, path@, home),
    {
        let home = home_dir();
        self.set_path_from(path, home.as_ref());
    }

    /// Rebuilds the breadcrumb strip for `path`, with the given home directory.
    pub fn set_path_from(&mut self, path: &FilePath, home: Option<&FilePath>)
        ensures
            final(self).current@ == path@,
            final(self).page == old(self).page,
            final(self).entry == old(self).entry,
            final(self).selected == old(self).selected,
            final(self).error == old(self).error,
            final(self).updating == old(self).updating,
            is_trail(final(self).crumbs@, path@, home_view(home)),
    {
        self.current = path.copy();
        self.crumbs = crumbs_for(path, home);
    }

    /// Turns typed text into the path it stands for. It is a place to go only
    /// if something exists there.
    pub fn resolve(&self, text: &str, env: &[(String, String)]) -> (r: Option<FilePath>)
        ensures
            text::trimmed(text@).len() == 0 ==> r is None,
            exists|home: Option<Seq<u8>>|
                is_home(home) && match (
                    r,
                    #[trigger] candidate(self.current@, text@, home, variables(env@)),
                ) {
                    (Some(p), Some(q)) => p@ == q,
                    (None, None) => true,
                    _ => false,
                },
    {
        let home = home_dir();
        resolve_from(&self.current, text, home.as_ref(), env)
    }

    /// The entry has been committed. `found` is the path its text stands for,
    /// where there is one and something exists there: the bar goes back to its
    /// crumbs and the window goes to that place. Otherwise the text is left in
    /// place and marked, so that the user can fix a typo rather than retyping
    /// the whole path.
    pub fn commit(&mut self, found: Option<FilePath>) -> (r: Option<FilePath>)
        ensures
            r == found,
            found is Some ==> *final(self) == (PathBar { page: Page::Crumbs, ..*old(self) }),
            found is None ==> *final(self) == (PathBar { error: true, ..*old(self) }),
    {
        match found {
            Some(path) => {
                self.show_crumbs();
                Some(path)
            },
            None => {
                self.error = true;
                None
            },
        }
    }

    /// The entry's text has changed: the mark goes, and unless the bar itself
    /// rewrote the text, the place to look for completions is returned.
    ///
    /// Only the end of the line is completed; completing mid-edit fights the
    /// user's cursor.
    pub fn changed(&mut self, text: &str, cursor: usize, home: Option<&FilePath>) -> (r: Option<
        CompletionRequest,
    >)
        ensures
            final(self).entry@ == text@,
            final(self).current == old(self).current,
            final(self).crumbs == old(self).crumbs,
            final(self).page == old(self).page,
            final(self).selected == old(self).selected,
            final(self).updating == old(self).updating,
            !final(self).error,
            match (
                r,
                completion_place(old(self).current@, text@, cursor as int, home_view(home)),
            ) {
                (Some(request), Some((dir, prefix))) => !old(self).updating && request.dir@ == dir
                    && request.prefix@ == prefix,
                (None, None) => true,
                (None, Some(_)) => old(self).updating,
                (Some(_), None) => false,
            },
    {
        self.error = false;
        self.entry = text::copied(text);
        if self.updating {
            return None;
        }
        let chars = text::chars_of(text);
        if cursor != chars.len() {
            return None;
        }
        assert(chars@.take(chars@.len() as int) =~= text@);
        let slash: usize = match caption::find_last(&chars, chars.len(), '/') {
            Some(slash) => slash,
            None => return None,
        };
        let prefix = text::slice_of(&chars, slash + 1, chars.len());
        assert(prefix@ =~= text@.skip(slash as int + 1));
        if prefix.len() == 0 {
            return None;
        }
        let dir_chars = text::slice_of(&chars, 0, slash);
        assert(dir_chars@ =~= text@.take(slash as int));
        let dir_part = text::string_of(&dir_chars);
        let dir: FilePath = if dir_chars.len() == 0 {
            FilePath::root()
        } else {
            match strip_prefix(dir_part.as_str(), "~") {
                Some(rest) => match home {
                    Some(h) => {
                        let rest_chars = text::chars_of(rest.as_str());
                        let n: usize = text::leading_len(&rest_chars, '/');
                        let kept = text::slice_of(&rest_chars, n, rest_chars.len());
                        assert(kept@ =~= text::without_leading(rest@, '/'));
                        let inner = h.join_text(text::string_of(&kept).as_str());
                        self.current.join(&inner)
                    },
                    None => return None,
                },
                None => self.current.join(&FilePath::new(dir_part.as_str())),
            }
        };
        Some(CompletionRequest { dir, prefix: text::string_of(&prefix) })
    }

    /// The entry shows a completion: its text is replaced without that counting
    /// as typing.
    pub fn show_completion(&mut self, completion: &Completion)
        ensures
            final(self).entry@ == completion.text@,
            final(self).current == old(self).current,
            final(self).crumbs == old(self).crumbs,
            final(self).page == old(self).page,
            !final(self).selected && !final(self).updating,
            final(self).error == old(self).error,
    {
        self.entry = text::copied(completion.text.as_str());
        self.selected = false;
        self.updating = false;
    }

    /// A key has been pressed in the entry. Escape abandons editing; the result
    /// says whether the key has been dealt with.
    pub fn key_pressed(&mut self, escape: bool) -> (r: bool)
        ensures
            r == escape,
            *final(self) == (if escape {
                PathBar { page: Page::Crumbs, ..*old(self) }
            } else {
                *old(self)
            }),
    {
        if escape {
            self.show_crumbs();
        }
        escape
    }
}

/// The place that paths typed at a virtual place are seen from.
pub open spec fn virtual_place(home: Option<Seq<u8>>) -> Seq<u8> {
    match home {
        Some(h) => h,
        None => path::root(),
    }
}

/// A text that stands for an absolute path leads to the same place from
/// everywhere.
pub proof fn law_absolute_paths_do_not_depend_on_the_place(
    a: Seq<u8>,
    b: Seq<u8>,
    text: Seq<char>,
    home: Option<Seq<u8>>,
    env: Seq<(Seq<char>, Seq<char>)>,
)
    requires
        typed(text::trimmed(text), home, env) is Some ==> path::absolute(
            typed(text::trimmed(text), home, env)->0,
        ),
    ensures
        candidate(a, text, home, env) == candidate(b, text, home, env),
{
}

/// What a typed text leads to has neither `.` nor `..` in it.
pub proof fn law_candidates_are_normalised(
    current: Seq<u8>,
    text: Seq<char>,
    home: Option<Seq<u8>>,
    env: Seq<(Seq<char>, Seq<char>)>,
)
    ensures
        candidate(current, text, home, env) matches Some(p) ==> clean(path::components(p))
            && normalized(p) == p,
{
    let s = text::trimmed(text);
    if s.len() > 0 {
        match typed(s, home, env) {
            Some(p) => {
                law_normalized_components(path::joined(current, p));
                law_normalize_is_idempotent(path::joined(current, p));
            },
            None => {},
        }
    }
}

/// One more `..` takes exactly one more component off what a path resolves to;
/// there is nothing above the root, nor above the start of a relative path.
pub proof fn law_each_up_takes_one_component(parts: Seq<Seq<u8>>)
    ensures
        resolved(parts.push(seq![46u8, 46u8])) == (if resolved(parts).len() == 0 || resolved(
            parts,
        ).last() == seq![47u8] {
            resolved(parts)
        } else {
            resolved(parts).drop_last()
        }),
{
    let all = parts.push(seq![46u8, 46u8]);
    assert(all.drop_last() =~= parts);
    assert(all.last() =~= path::up());
    assert(path::root() =~= seq![47u8]);
}

/// Names followed by as many `..` lead back to where they began.
pub proof fn law_names_are_undone(parts: Seq<Seq<u8>>, names: Seq<Seq<u8>>)
    requires
        forall|i: int|
            0 <= i < names.len() ==> (#[trigger] names[i]).len() > 0 && !names[i].contains(47u8)
                && names[i] != seq![46u8] && names[i] != seq![46u8, 46u8],
    ensures
        resolved(parts + names) == resolved(parts) + names,
        resolved(parts + names + Seq::new(names.len(), |i: int| seq![46u8, 46u8])) == resolved(
            parts,
        ),
    decreases names.len(),
{
    let ups = Seq::new(names.len(), |i: int| seq![46u8, 46u8]);
    if names.len() == 0 {
        assert(parts + names =~= parts);
        assert(resolved(parts) + names =~= resolved(parts));
        assert(parts + names + ups =~= parts);
    } else {
        let n = names.len() - 1;
        let front = names.drop_last();
        let last = names[n];
        assert forall|i: int| 0 <= i < front.len() implies (#[trigger] front[i]).len() > 0
            && !front[i].contains(47u8) && front[i] != seq![46u8] && front[i] != seq![
            46u8,
            46u8,
        ] by {
            assert(front[i] == names[i]);
        }
        law_names_are_undone(parts, front);
        assert((parts + names).drop_last() =~= parts + front);
        assert((parts + names).last() == last);
        assert(path::up() =~= seq![46u8, 46u8]);
        assert(resolved(parts + names) =~= resolved(parts) + names);
        lemma_ups_take_as_many(parts, names, names.len());
    }
}

/// Some `..` behind names take as many of them off.
proof fn lemma_ups_take_as_many(parts: Seq<Seq<u8>>, names: Seq<Seq<u8>>, n: nat)
    requires
        n <= names.len(),
        resolved(parts + names) == resolved(parts) + names,
        forall|i: int|
            0 <= i < names.len() ==> (#[trigger] names[i]).len() > 0 && !names[i].contains(47u8)
                && names[i] != seq![46u8] && names[i] != seq![46u8, 46u8],
    ensures
        resolved(parts + names + Seq::new(n, |i: int| seq![46u8, 46u8])) == resolved(parts)
            + names.take(names.len() - n),
        n == names.len() ==> resolved(parts + names + Seq::new(n, |i: int| seq![46u8, 46u8]))
            == resolved(parts),
    decreases n,
{
    let ups = Seq::new(n, |i: int| seq![46u8, 46u8]);
    if n == 0 {
        assert(parts + names + ups =~= parts + names);
        assert(names.take(names.len() as int) =~= names);
    } else {
        let m = (n - 1) as nat;
        let fewer = Seq::new(m, |i: int| seq![46u8, 46u8]);
        lemma_ups_take_as_many(parts, names, m);
        let before = parts + names + fewer;
        assert(parts + names + ups =~= before.push(seq![46u8, 46u8]));
        law_each_up_takes_one_component(before);
        let left = names.take(names.len() - m);
        assert(left.last() == names[names.len() - m - 1]);
        assert(!left.last().contains(47u8));
        if left.last() == seq![47u8] {
            assert(left.last()[0] == 47u8);
        }
        assert((resolved(parts) + left).drop_last() =~= resolved(parts) + names.take(
            names.len() - n,
        ));
    }
    if n == names.len() {
        assert(resolved(parts) + names.take(0) =~= resolved(parts));
    }
}

/// An absolute path is normalised part by part: a name is added behind one
/// separator, an empty part and `.` change nothing, a name and `..` behind it
/// change nothing, and `..` takes one component off until the root is left.
#[verifier::spinoff_prover]
#[verifier::rlimit(80)]
pub proof fn law_normalize_part_by_part(s: Seq<u8>, name: Seq<u8>)
    requires
        s.len() > 0,
        s[0] == 47u8,
        name.len() > 0,
        !name.contains(47u8),
        name != seq![46u8],
        name != seq![46u8, 46u8],
    ensures
        normalized(seq![47u8]) == seq![47u8],
        normalized(s + seq![47u8] + name) == (if normalized(s) == seq![47u8] {
            seq![47u8] + name
        } else {
            normalized(s) + seq![47u8] + name
        }),
        normalized(s + seq![47u8]) == normalized(s),
        normalized(s + seq![47u8, 46u8]) == normalized(s),
        normalized(s + seq![47u8] + name + seq![47u8, 46u8, 46u8]) == normalized(s),
        path::components(normalized(s + seq![47u8, 46u8, 46u8])) == (if path::components(
            normalized(s),
        ).len() > 1 {
            path::components(normalized(s)).drop_last()
        } else {
            path::components(normalized(s))
        }),
{
    let none = Seq::<u8>::empty();
    let dot = seq![46u8];
    let dots = seq![46u8, 46u8];
    let all = path::components(s);
    let r = resolved(all);
    lemma_absolute_components(s);
    lemma_resolved_is_clean(s, all.len() as int);
    assert(all.take(all.len() as int) =~= all);
    assert(r.len() > 0 && r[0] == path::root());
    assert(path::root() =~= seq![47u8]);
    assert(path::up() =~= dots);
    assert(seq![path::DOT] =~= dot);
    assert forall|i: int| 0 <= i < dots.len() implies dots[i] != 47u8 by {}
    path::law_separators_part_components(s, name);
    path::law_separators_part_components(s, none);
    path::law_separators_part_components(s, dot);
    path::law_separators_part_components(s, dots);
    // The root.
    assert(seq![47u8] + none =~= seq![47u8]);
    let one = seq![seq![47u8]];
    assert(one + Seq::<Seq<u8>>::empty() =~= one);
    assert(one.drop_last() =~= Seq::<Seq<u8>>::empty());
    reveal_with_fuel(resolved, 2);
    reveal_with_fuel(built, 2);
    assert(Seq::<Seq<u8>>::empty().push(seq![47u8]) =~= one);
    assert(one.last()[0] == 47u8);
    assert(normalized(seq![47u8]) =~= seq![47u8]);
    // A name.
    let t = s + seq![47u8] + name;
    assert(path::components(t) =~= all.push(name));
    assert(all.push(name).drop_last() =~= all);
    assert(resolved(all.push(name)) == r.push(name));
    assert(r.push(name).drop_last() =~= r);
    assert(normalized(t) == path::joined(normalized(s), name));
    assert(name[0] != 47u8) by {
        assert(name.contains(name[0]));
    }
    lemma_built_ends_in_a_name(r);
    path::law_joining_puts_one_separator(normalized(s), name);
    // What counts for nothing.
    assert(s + seq![47u8] + none =~= s + seq![47u8]);
    assert(all + Seq::<Seq<u8>>::empty() =~= all);
    assert(s + seq![47u8] + dot =~= s + seq![47u8, 46u8]);
    // Upwards.
    assert(s + seq![47u8] + dots =~= s + seq![47u8, 46u8, 46u8]);
    assert(dots.len() == 2 && dots != dot);
    assert(all + seq![dots] =~= all.push(dots));
    law_each_up_takes_one_component(all);
    law_normalized_components(s);
    law_normalized_components(s + seq![47u8, 46u8, 46u8]);
    if r.len() > 1 {
        assert(clean(r));
        assert(path::is_name(r[r.len() - 1]));
        if r.last() == seq![47u8] {
            assert(r.last()[0] == 47u8);
            assert(r.last().contains(47u8));
        }
    } else {
        assert(r.last() == seq![47u8]);
    }
    // There and back.
    path::law_separators_part_components(t, dots);
    assert(t + seq![47u8] + dots =~= t + seq![47u8, 46u8, 46u8]);
    assert(all.push(name) + seq![dots] =~= all.push(name).push(dots));
    law_each_up_takes_one_component(all.push(name));
    if name == seq![47u8] {
        assert(name[0] == 47u8);
    }
}

/// What is built from the root and names ends in a name, or is the root.
proof fn lemma_built_ends_in_a_name(parts: Seq<Seq<u8>>)
    requires
        clean(parts),
        parts.len() > 0,
        parts[0] == path::root(),
    ensures
        built(parts).len() > 0,
        parts.len() == 1 ==> built(parts) == seq![47u8],
        parts.len() > 1 ==> built(parts).last() != 47u8,
        built(parts) == seq![47u8] || built(parts).last() != 47u8,
{
    reveal_with_fuel(built, 2);
    assert(path::root() =~= seq![47u8]);
    if parts.len() == 1 {
        assert(parts.drop_last() =~= Seq::<Seq<u8>>::empty());
        assert(parts.last()[0] == 47u8);
        assert(built(parts) =~= seq![47u8]);
    } else {
        let last = parts[parts.len() - 1];
        assert(path::is_name(last));
        assert(last.contains(last[0]));
        assert(last.contains(last.last()));
        assert(built(parts).last() == last.last());
    }
}

/// A text in front of which no variable stands is left as it is.
proof fn lemma_expanded_front(front: Seq<char>, s: Seq<char>, env: Seq<(Seq<char>, Seq<char>)>)
    requires
        !front.contains('$'),
    ensures
        expanded(front + s, env) == front + expanded(s, env),
    decreases front.len(),
{
    if front.len() == 0 {
        assert(front + s =~= s);
        assert(front + expanded(s, env) =~= expanded(s, env));
    } else {
        let rest = front.skip(1);
        assert(front.contains(front[0]));
        assert(!rest.contains('$')) by {
            if rest.contains('$') {
                let i = choose|i: int| 0 <= i < rest.len() && rest[i] == '$';
                assert(front[i + 1] == '$');
            }
        }
        lemma_expanded_front(rest, s, env);
        assert((front + s).skip(1) =~= rest + s);
        assert(seq![front[0]] + (rest + expanded(s, env)) =~= front + expanded(s, env));
    }
}

/// A name is as long as its characters go on.
proof fn lemma_name_len_of(name: Seq<char>, rest: Seq<char>)
    requires
        forall|i: int| 0 <= i < name.len() ==> name_char(#[trigger] name[i]),
        rest.len() > 0 ==> !name_char(rest[0]),
    ensures
        name_len(name + rest) == name.len(),
    decreases name.len(),
{
    if name.len() == 0 {
        assert(name + rest =~= rest);
    } else {
        assert((name + rest)[0] == name[0]);
        assert((name + rest).skip(1) =~= name.skip(1) + rest);
        lemma_name_len_of(name.skip(1), rest);
    }
}

/// The first variable of a name is the one that is found.
proof fn lemma_lookup(env: Seq<(Seq<char>, Seq<char>)>, name: Seq<char>, i: int)
    requires
        name.len() > 0,
        forall|j: int| 0 <= j < i && j < env.len() ==> (#[trigger] env[j]).0 != name,
    ensures
        0 <= i < env.len() && env[i].0 == name ==> lookup(env, name) == Some(env[i].1),
        i >= env.len() ==> lookup(env, name) is None,
    decreases env.len(),
{
    if env.len() > 0 && i > 0 {
        assert(env[0].0 != name);
        let rest = env.skip(1);
        assert forall|j: int| 0 <= j < i - 1 && j < rest.len() implies (#[trigger] rest[j]).0
            != name by {
            assert(rest[j] == env[j + 1]);
        }
        lemma_lookup(rest, name, i - 1);
        if i < env.len() {
            assert(rest[i - 1] == env[i]);
        }
    }
}

/// A variable of letters, digits and underscores is replaced by its value where
/// it is set, the first of its name counting, and is left as it is written where
/// it is not; what stands around it stays, and the rest of the text is expanded
/// in the same way. Braces around the name set it off from letters behind it.
#[verifier::spinoff_prover]
#[verifier::rlimit(80)]
pub proof fn law_variables_are_replaced(
    front: Seq<char>,
    name: Seq<char>,
    rest: Seq<char>,
    env: Seq<(Seq<char>, Seq<char>)>,
    i: int,
)
    requires
        !front.contains('$'),
        name.len() > 0,
        forall|k: int|
            0 <= k < name.len() ==> ('0' <= #[trigger] name[k] <= '9' || 'A' <= name[k] <= 'Z'
                || 'a' <= name[k] <= 'z' || name[k] == '_'),
        i >= 0,
        forall|j: int| 0 <= j < i && j < env.len() ==> (#[trigger] env[j]).0 != name,
        i < env.len() ==> env[i].0 == name,
    ensures
        (rest.len() == 0 || ((rest[0] as u32) < 0x80 && !('0' <= rest[0] <= '9' || 'A' <= rest[0]
            <= 'Z' || 'a' <= rest[0] <= 'z' || rest[0] == '_'))) ==> expanded(
            front + seq!['$'] + name + rest,
            env,
        ) == front + (if i < env.len() {
            env[i].1
        } else {
            seq!['$'] + name
        }) + expanded(rest, env),
        expanded(front + seq!['$', '{'] + name + seq!['}'] + rest, env) == front + (if i
            < env.len() {
            env[i].1
        } else {
            seq!['$', '{'] + name + seq!['}']
        }) + expanded(rest, env),
{
    lemma_lookup(env, name, i);
    assert forall|k: int| 0 <= k < name.len() implies name_char(#[trigger] name[k]) by {}
    assert(name[0] != '{');
    if rest.len() == 0 || ((rest[0] as u32) < 0x80 && !('0' <= rest[0] <= '9' || 'A' <= rest[0]
        <= 'Z' || 'a' <= rest[0] <= 'z' || rest[0] == '_')) {
        let s = seq!['$'] + name + rest;
        let value = if i < env.len() {
            env[i].1
        } else {
            seq!['$'] + name
        };
        lemma_expanded_front(front, s, env);
        lemma_bare_variable(name, rest, env);
        assert(front + s =~= front + seq!['$'] + name + rest);
        assert(front + (value + expanded(rest, env)) =~= front + value + expanded(rest, env));
    }
    let s = seq!['$', '{'] + name + seq!['}'] + rest;
    let value = if i < env.len() {
        env[i].1
    } else {
        seq!['$', '{'] + name + seq!['}']
    };
    lemma_expanded_front(front, s, env);
    lemma_braced_variable(name, rest, env);
    assert(front + s =~= front + seq!['$', '{'] + name + seq!['}'] + rest);
    assert(front + (value + expanded(rest, env)) =~= front + value + expanded(rest, env));
}

/// A variable at the front of a text, up to where its name ends.
proof fn lemma_bare_variable(
    name: Seq<char>,
    rest: Seq<char>,
    env: Seq<(Seq<char>, Seq<char>)>,
)
    requires
        name.len() > 0,
        name[0] != '{',
        forall|i: int| 0 <= i < name.len() ==> name_char(#[trigger] name[i]),
        rest.len() > 0 ==> !name_char(rest[0]),
    ensures
        expanded(seq!['$'] + name + rest, env) == (match lookup(env, name) {
            Some(value) => value,
            None => seq!['$'] + name,
        }) + expanded(rest, env),
{
    let s = seq!['$'] + name + rest;
    assert(s[0] == '$');
    assert(s[1] == name[0]);
    assert(s.skip(1) =~= name + rest);
    lemma_name_len_of(name, rest);
    assert((name + rest).take(name.len() as int) =~= name);
    assert(name_at(s) == name);
    let n = occurrence_len(s) as int;
    assert(n == 1 + name.len());
    assert(s.take(n) =~= seq!['$'] + name);
    assert(s.skip(n) =~= rest);
}

/// A variable in braces at the front of a text.
proof fn lemma_braced_variable(
    name: Seq<char>,
    rest: Seq<char>,
    env: Seq<(Seq<char>, Seq<char>)>,
)
    requires
        name.len() > 0,
        forall|i: int| 0 <= i < name.len() ==> name_char(#[trigger] name[i]),
    ensures
        expanded(seq!['$', '{'] + name + seq!['}'] + rest, env) == (match lookup(env, name) {
            Some(value) => value,
            None => seq!['$', '{'] + name + seq!['}'],
        }) + expanded(rest, env),
{
    let close = seq!['}'] + rest;
    let s = seq!['$', '{'] + name + seq!['}'] + rest;
    assert(s[0] == '$');
    assert(s[1] == '{');
    assert(s.skip(2) =~= name + close);
    assert(close[0] == '}');
    lemma_name_len_of(name, close);
    assert((name + close).take(name.len() as int) =~= name);
    assert(name_at(s) == name);
    let n = occurrence_len(s) as int;
    assert(n == 3 + name.len());
    assert(s.take(n) =~= seq!['$', '{'] + name + seq!['}']);
    assert(s.skip(n) =~= rest);
}

/// Bytes without a percent sign stand for themselves.
proof fn lemma_plain_bytes_stay(bytes: Seq<u8>)
    requires
        !bytes.contains(0x25u8),
    ensures
        outside::percent_decoded(bytes) == bytes,
    decreases bytes.len(),
{
    if bytes.len() > 0 {
        assert(bytes.contains(bytes[0]));
        let rest = bytes.skip(1);
        assert(!rest.contains(0x25u8)) by {
            if rest.contains(0x25u8) {
                let i = choose|i: int| 0 <= i < rest.len() && rest[i] == 0x25u8;
                assert(bytes[i + 1] == 0x25u8);
            }
        }
        lemma_plain_bytes_stay(rest);
        assert(seq![bytes[0]] + rest =~= bytes);
    }
}

/// What is typed leads where it says, white space around it apart. A plain text
/// is a path seen from the current place, with the values of the variables it
/// names; `~` is the home directory and `~/` begins a path in it; a `file://`
/// address is the path behind it, decoded where that is text.
#[verifier::spinoff_prover]
#[verifier::rlimit(80)]
pub proof fn law_typed_paths_lead_where_they_say(
    current: Seq<u8>,
    before: Seq<char>,
    s: Seq<char>,
    behind: Seq<char>,
    home: Seq<u8>,
    any: Option<Seq<u8>>,
    env: Seq<(Seq<char>, Seq<char>)>,
)
    requires
        forall|i: int| 0 <= i < before.len() ==> text::white_space(#[trigger] before[i]),
        forall|i: int| 0 <= i < behind.len() ==> text::white_space(#[trigger] behind[i]),
        s.len() > 0,
        !text::white_space(s[0]),
        !text::white_space(s.last()),
    ensures
        s[0] != '~' && !s.contains('$') && !"file://"@.is_prefix_of(s) ==> candidate(
            current,
            before + s + behind,
            any,
            env,
        ) == Some(normalized(path::joined(current, encode_utf8(s)))),
        s[0] != '~' && !"file://"@.is_prefix_of(s) ==> candidate(
            current,
            before + s + behind,
            any,
            env,
        ) == Some(normalized(path::joined(current, encode_utf8(expanded(s, env))))),
        candidate(current, before + "~"@ + behind, Some(home), env) == Some(
            normalized(path::joined(current, encode_utf8(outside::lossy(home)))),
        ),
        candidate(current, before + "~"@ + behind, None, env) is None,
        candidate(current, before + ("~/"@ + s) + behind, Some(home), env) == Some(
            normalized(
                path::joined(
                    current,
                    encode_utf8(outside::lossy(path::joined(home, encode_utf8(s)))),
                ),
            ),
        ),
        candidate(current, before + ("~/"@ + s) + behind, None, env) is None,
        !encode_utf8(s).contains(0x25u8) ==> candidate(
            current,
            before + ("file://"@ + s) + behind,
            any,
            env,
        ) == Some(normalized(path::joined(current, encode_utf8(s)))),
        valid_utf8(outside::percent_decoded(encode_utf8(s))) ==> candidate(
            current,
            before + ("file://"@ + s) + behind,
            any,
            env,
        ) == Some(
            normalized(path::joined(current, outside::percent_decoded(encode_utf8(s)))),
        ),
        !valid_utf8(outside::percent_decoded(encode_utf8(s))) ==> candidate(
            current,
            before + ("file://"@ + s) + behind,
            any,
            env,
        ) is None,
        candidate(current, before, any, env) is None,
{
    reveal_strlit("~");
    reveal_strlit("~/");
    reveal_strlit("file://");
    text::law_trimming_takes_white_space_only(before, s, behind);
    text::law_trimming_takes_white_space_only(before, "~"@, behind);
    text::law_trimming_takes_white_space_only(before, "~/"@ + s, behind);
    text::law_trimming_takes_white_space_only(before, "file://"@ + s, behind);
    text::law_trimming_takes_white_space_only(before, Seq::empty(), Seq::empty());
    assert(before + Seq::<char>::empty() + Seq::<char>::empty() =~= before);
    assert("~"@[0] == '~' && "~/"@[0] == '~' && "file://"@[0] == 'f');
    // A plain text.
    if s[0] != '~' && !"file://"@.is_prefix_of(s) {
        if !s.contains('$') {
            law_plain_text_stays(s, env);
        }
        if "~/"@.is_prefix_of(s) {
            assert(s[0] == '~');
        }
        assert(typed(s, any, env) == Some(encode_utf8(expanded(s, env))));
    }
    // The home directory.
    if "file://"@.is_prefix_of("~"@) {
        assert("~"@[0] == 'f');
    }
    // A path in it.
    let t = "~/"@ + s;
    assert(t[0] == '~' && t.len() > 1);
    if "file://"@.is_prefix_of(t) {
        assert(t[0] == 'f');
    }
    assert("~/"@ =~= t.subrange(0, 2));
    assert(after(t, "~/"@) =~= s);
    // An address.
    let u = "file://"@ + s;
    assert("file://"@ =~= u.subrange(0, 7));
    assert(after(u, "file://"@) =~= s);
    if !encode_utf8(s).contains(0x25u8) {
        lemma_plain_bytes_stay(encode_utf8(s));
        encode_utf8_valid_utf8(s);
    }
}

/// A percent sign and two hexadecimal digits stand for the byte they spell.
pub proof fn law_percent_signs_spell_bytes(h: u8, l: u8, rest: Seq<u8>)
    requires
        h < 10,
        l < 10,
    ensures
        outside::percent_decoded(seq![0x25u8, (0x30 + h) as u8, (0x30 + l) as u8] + rest) == seq![
            (16 * h + l) as u8,
        ] + outside::percent_decoded(rest),
        outside::percent_decoded(seq![0x25u8, (0x30 + h) as u8, 0x41u8] + rest) == seq![
            (16 * h + 10) as u8,
        ] + outside::percent_decoded(rest),
{
    let a = seq![0x25u8, (0x30 + h) as u8, (0x30 + l) as u8] + rest;
    let b = seq![0x25u8, (0x30 + h) as u8, 0x41u8] + rest;
    assert(a.skip(3) =~= rest);
    assert(b.skip(3) =~= rest);
}

/// A folder in a place has the crumbs of the place and one of its own behind
/// them, from the same first crumb, unless it is the home directory itself.
pub proof fn law_the_trail_grows_by_a_crumb(s: Seq<u8>, name: Seq<u8>, home: Option<Seq<u8>>)
    requires
        path::is_name(name),
        home matches Some(h) ==> path::components(h) != path::components(path::joined(s, name)),
    ensures
        trail(path::joined(s, name), home) == trail(s, home).push(name),
        trail_base(path::joined(s, name), home) == trail_base(s, home),
        inside(path::joined(s, name), home) == inside(s, home),
{
    path::law_join_appends_a_name(s, name);
    let a = path::components(s);
    let b = path::components(path::joined(s, name));
    assert(b == a.push(name));
    assert(path::names(name)) by {
        if name == path::root() {
            assert(name[0] == path::SLASH);
            assert(name.contains(name[0]));
        }
    }
    match home {
        Some(h) => {
            let p = path::components(h);
            if p.is_prefix_of(a) {
                assert(p =~= b.subrange(0, p.len() as int));
                assert(b.skip(p.len() as int) =~= a.skip(p.len() as int).push(name));
                let rest = a.skip(p.len() as int);
                assert(rest.push(name).drop_last() =~= rest);
            } else {
                if p.is_prefix_of(b) {
                    if p.len() == b.len() {
                        assert(p =~= b);
                    } else {
                        assert(p =~= a.subrange(0, p.len() as int));
                    }
                }
                assert(b.drop_last() =~= a);
            }
        },
        None => {
            assert(b.drop_last() =~= a);
        },
    }
}

/// The home directory is one crumb, and so is the root; a path is inside the
/// home directory where it begins with all of its components.
pub proof fn law_the_trail_begins_at_home_or_at_the_root(h: Seq<u8>, s: Seq<u8>)
    ensures
        inside(h, Some(h)),
        trail(h, Some(h)).len() == 0,
        trail_base(h, Some(h)) == h,
        trail(seq![47u8], None).len() == 0,
        trail_base(s, None) == seq![47u8],
        !inside(s, None),
        inside(s, Some(h)) <==> path::components(h).is_prefix_of(path::components(s)),
{
    let p = path::components(h);
    assert(p =~= p.subrange(0, p.len() as int));
    assert(p.skip(p.len() as int) =~= Seq::<Seq<u8>>::empty());
    let none = Seq::<u8>::empty();
    assert(!none.contains(47u8));
    path::law_separators_part_components(none, none);
    assert(seq![47u8] + none =~= seq![47u8]);
    let one = seq![seq![47u8]];
    assert(one + Seq::<Seq<u8>>::empty() =~= one);
    assert(path::root() =~= seq![47u8]);
    assert(one.drop_last() =~= Seq::<Seq<u8>>::empty());
    reveal_with_fuel(named, 2);
}

/// Each crumb leads one component further, so that the crumb of a name leads to
/// what stands in front of the names behind it; the names here are text.
pub proof fn law_crumbs_lead_one_step_further(base: Seq<u8>, names: Seq<Seq<u8>>, n: nat)
    requires
        n <= names.len(),
        forall|i: int|
            0 <= i < names.len() ==> path::is_name(#[trigger] names[i]) && encode_utf8(
                outside::lossy(names[i]),
            ) == names[i],
    ensures
        path::components(crumb_target(base, names, n)) == path::components(base) + names.take(
            n as int,
        ),
    decreases n,
{
    if n == 0 {
        assert(path::components(base) + names.take(0) =~= path::components(base));
    } else {
        law_crumbs_lead_one_step_further(base, names, (n - 1) as nat);
        let prev = crumb_target(base, names, (n - 1) as nat);
        assert(path::is_name(names[n - 1]));
        path::law_join_appends_a_name(prev, names[n - 1]);
        assert(path::components(base) + names.take(n as int) =~= (path::components(base)
            + names.take(n - 1)).push(names[n - 1]));
    }
}

/// A trail shows the home directory or the root first and then each name, and
/// marks the last crumb alone as the place shown.
pub proof fn law_crumbs_show_their_names(
    crumbs: Seq<Crumb>,
    s: Seq<u8>,
    home: Option<Seq<u8>>,
    i: int,
)
    requires
        is_trail(crumbs, s, home),
        0 <= i < crumbs.len(),
    ensures
        crumbs.len() == trail(s, home).len() + 1,
        crumbs[i].current <==> i == crumbs.len() - 1,
        crumbs[i].separated <==> i > 0,
        i > 0 ==> crumbs[i].label@ == outside::lossy(trail(s, home)[i - 1]),
        i > 0 ==> crumbs[i].icon is None,
        i > 0 ==> crumbs[i].target@ == crumb_target(trail_base(s, home), trail(s, home), i as nat),
        crumbs[0].target@ == trail_base(s, home),
        crumbs[0].icon is Some,
        inside(s, home) ==> crumbs[0].label@ == "Home"@,
        !inside(s, home) ==> crumbs[0].label@ == ""@,
        crumbs[i].tooltip@ == outside::lossy(crumbs[i].target@),
{
    if i > 0 {
        let k = i - 1;
        assert(crumbs[k + 1] == crumbs[i]);
    }
}

/// A name that is the only folder beginning with what was typed completes it;
/// where several folders begin with it, or none does, nothing is completed.
#[verifier::spinoff_prover]
#[verifier::rlimit(80)]
pub proof fn law_only_one_folder_completes(
    entries: Seq<(String, bool)>,
    prefix: Seq<char>,
    i: int,
    j: int,
)
    ensures
        0 <= i < entries.len() && entries[i].1 && prefix.is_prefix_of(entries[i].0@) && (forall|
            k: int,
        |
            0 <= k < entries.len() && k != i ==> !((#[trigger] entries[k]).1 && prefix.is_prefix_of(
                entries[k].0@,
            ))) ==> completions(entries, prefix) == seq![entries[i].0@],
        0 <= i < j < entries.len() && entries[i].1 && prefix.is_prefix_of(entries[i].0@)
            && entries[j].1 && prefix.is_prefix_of(entries[j].0@) ==> completions(
            entries,
            prefix,
        ).len() >= 2,
        0 <= i < entries.len() && entries[i].1 && prefix.is_prefix_of(entries[i].0@)
            ==> completions(entries, prefix).len() >= 1,
        (forall|k: int|
            0 <= k < entries.len() ==> !((#[trigger] entries[k]).1 && prefix.is_prefix_of(
                entries[k].0@,
            ))) ==> completions(entries, prefix).len() == 0,
    decreases entries.len(),
{
    if entries.len() > 0 {
        let n = entries.len() - 1;
        let front = entries.drop_last();
        assert forall|k: int| 0 <= k < n implies #[trigger] front[k] == entries[k] by {}
        assert(entries.last() == entries[n]);
        law_only_one_folder_completes(front, prefix, i, j);
        if 0 <= i < n {
            assert(front[i] == entries[i]);
        }
        if 0 <= j < n {
            assert(front[j] == entries[j]);
        }
        if i == n && (forall|k: int|
            0 <= k < entries.len() && k != i ==> !((#[trigger] entries[k]).1 && prefix.is_prefix_of(
                entries[k].0@,
            ))) {
            assert forall|k: int| 0 <= k < front.len() implies !((#[trigger] front[k]).1
                && prefix.is_prefix_of(front[k].0@)) by {
                assert(front[k] == entries[k]);
            }
            assert(completions(front, prefix) =~= Seq::<Seq<char>>::empty());
            if entries[i].1 && prefix.is_prefix_of(entries[i].0@) {
                assert(completions(entries, prefix) =~= seq![entries[i].0@]);
            }
        }
        if 0 <= i < n && (forall|k: int|
            0 <= k < entries.len() && k != i ==> !((#[trigger] entries[k]).1 && prefix.is_prefix_of(
                entries[k].0@,
            ))) {
            assert(!(entries[n].1 && prefix.is_prefix_of(entries[n].0@)));
        }
        if forall|k: int|
            0 <= k < entries.len() ==> !((#[trigger] entries[k]).1 && prefix.is_prefix_of(
                entries[k].0@,
            )) {
            assert(!(entries[n].1 && prefix.is_prefix_of(entries[n].0@)));
        }
        if j == n && 0 <= i < n {
            law_only_one_folder_completes(front, prefix, i, i);
        }
    } else {
        assert(completions(entries, prefix) =~= Seq::<Seq<char>>::empty());
    }
}

/// The last segment of what was typed is completed in the directory before it:
/// in the root, in a path seen from the current place, or in the home directory;
/// nothing is completed in the middle of a text, without a slash, or behind one.
#[verifier::spinoff_prover]
#[verifier::rlimit(80)]
pub proof fn law_the_last_segment_is_completed(
    current: Seq<u8>,
    dir: Seq<char>,
    prefix: Seq<char>,
    home: Seq<u8>,
    cursor: int,
)
    requires
        !prefix.contains('/'),
        prefix.len() > 0,
    ensures
        ({
            let s = dir + seq!['/'] + prefix;
            let end = s.len() as int;
            &&& dir.len() == 0 ==> completion_place(current, s, end, Some(home)) == Some(
                (seq![47u8], prefix),
            )
            &&& dir.len() > 0 && dir[0] != '~' ==> completion_place(current, s, end, Some(home))
                == Some((path::joined(current, encode_utf8(dir)), prefix))
            &&& cursor != end ==> completion_place(current, s, cursor, Some(home)) is None
        }),
        completion_place(current, seq!['~', '/'] + prefix, prefix.len() as int + 2, Some(home))
            == Some((path::joined(current, path::joined(home, Seq::empty())), prefix)),
        completion_place(current, seq!['~', '/'] + prefix, prefix.len() as int + 2, None) is None,
        dir.len() > 0 && dir[0] != '/' ==> completion_place(
            current,
            seq!['~', '/'] + dir + seq!['/'] + prefix,
            dir.len() + prefix.len() as int + 3,
            Some(home),
        ) == Some((path::joined(current, path::joined(home, encode_utf8(dir))), prefix)),
        completion_place(current, prefix, prefix.len() as int, Some(home)) is None,
        completion_place(current, dir + seq!['/'], dir.len() as int + 1, Some(home)) is None,
{
    reveal_strlit("~");
    let s = dir + seq!['/'] + prefix;
    caption::lemma_last_of(dir, '/', prefix);
    assert(s.take(dir.len() as int) =~= dir);
    assert(s.skip(dir.len() as int + 1) =~= prefix);
    assert(path::root() =~= seq![47u8]);
    if dir.len() > 0 && dir[0] != '~' {
        if "~"@.is_prefix_of(dir) {
            assert("~"@[0] == dir[0]);
        }
    }
    let tilde = seq!['~'];
    caption::lemma_last_of(tilde, '/', prefix);
    let t = tilde + seq!['/'] + prefix;
    assert(t =~= seq!['~', '/'] + prefix);
    assert(t.take(1) =~= tilde);
    assert(t.skip(2) =~= prefix);
    assert("~"@ =~= tilde);
    assert("~"@ =~= tilde.subrange(0, 1));
    assert(after(tilde, "~"@) =~= Seq::<char>::empty());
    if dir.len() > 0 && dir[0] != '/' {
        let long = seq!['~', '/'] + dir;
        let v = long + seq!['/'] + prefix;
        caption::lemma_last_of(long, '/', prefix);
        assert(v.take(long.len() as int) =~= long);
        assert(v.skip(long.len() as int + 1) =~= prefix);
        assert("~"@ =~= long.subrange(0, 1));
        let inner = after(long, "~"@);
        assert(inner =~= seq!['/'] + dir);
        assert(inner.skip(1) =~= dir);
        reveal_with_fuel(text::without_leading, 2);
        assert(text::without_leading(inner, '/') == dir);
    }
    caption::lemma_last_of_none(prefix, '/');
    let none = Seq::<char>::empty();
    assert(!none.contains('/'));
    caption::lemma_last_of(dir, '/', none);
    let u = dir + seq!['/'];
    assert(dir + seq!['/'] + none =~= u);
    assert(u.skip(dir.len() as int + 1) =~= none);
}

/// Paths typed at a place without one are seen from the home directory, or from
/// the root where there is none.
pub proof fn law_virtual_places_are_at_home(home: Seq<u8>)
    ensures
        virtual_place(Some(home)) == home,
        virtual_place(None) == seq![47u8],
{
    assert(path::root() =~= seq![47u8]);
}

} // verus!
