//! Image thumbnails for the icon view.
//!
//! Three things keep this off the critical path:
//!
//! 1. The **shared freedesktop thumbnail cache** is consulted first. Other file
//!    managers populate `~/.cache/thumbnails`, so most images in a typical
//!    folder already have a thumbnail on disk and never need decoding.
//! 2. Decoding is **concurrency-limited**. A folder of 25 MB photos would
//!    otherwise queue forty simultaneous full-resolution decodes the moment it
//!    opened.
//! 3. A queued request is **re-checked after it acquires a permit**. Rows are
//!    recycled as you scroll, so most queued work is stale by the time it could
//!    run and is dropped instead of decoded.
//!
//! Anything generated is written back to the shared cache, so the cost is paid
//! once per image for the whole desktop rather than once per launch.

use crate::outside;
use crate::path;
use crate::path::FilePath;
use crate::text;
use vstd::prelude::*;
use vstd::string::*;
use vstd::utf8::*;

verus! {

// ── keys ───────────────────────────────────────────────────────────────────

/// What a thumbnail is kept under: the path plus the modification time and the
/// requested size, so an edited image or a zoom change re-renders instead of
/// showing a stale bitmap.
#[derive(Debug)]
pub struct CacheKey {
    /// The image.
    pub path: FilePath,
    /// When it was last modified.
    pub mtime: i64,
    /// The size on the screen.
    pub size: i32,
}

/// What a key stands for. Two paths with the same components are the same.
pub type KeyView = (Seq<Seq<u8>>, i64, i32);

impl View for CacheKey {
    type V = KeyView;

    open spec fn view(&self) -> KeyView {
        (path::components(self.path@), self.mtime, self.size)
    }
}

impl CacheKey {
    /// The key of an image at a size.
    pub fn new(path: &FilePath, mtime: i64, size: i32) -> (r: CacheKey)
        ensures
            r.path@ == path@,
            r.mtime == mtime,
            r.size == size,
            r@ == (path::components(path@), mtime, size),
    {
        CacheKey { path: path.copy(), mtime, size }
    }

    /// A copy of the key.
    pub fn copy(&self) -> (r: CacheKey)
        ensures
            r@ == self@,
    {
        CacheKey::new(&self.path, self.mtime, self.size)
    }

    /// Whether two keys stand for the same thumbnail.
    pub fn same_as(&self, other: &CacheKey) -> (r: bool)
        ensures
            r == (self@ == other@),
    {
        self.mtime == other.mtime && self.size == other.size && self.path.same_as(&other.path)
    }
}

/// Keyed values as what their keys stand for.
pub open spec fn keyed<V>(entries: Seq<(CacheKey, V)>) -> Seq<(KeyView, V)> {
    entries.map_values(|e: (CacheKey, V)| (e.0@, e.1))
}

/// No key occurs twice.
pub open spec fn distinct<V>(entries: Seq<(KeyView, V)>) -> bool {
    forall|i: int, j: int|
        0 <= i < j < entries.len() ==> (#[trigger] entries[i]).0 != (#[trigger] entries[j]).0
}

/// The value under a key.
pub open spec fn value_of<V>(entries: Seq<(KeyView, V)>, key: KeyView) -> Option<V>
    decreases entries.len(),
{
    if entries.len() == 0 {
        None
    } else if entries.last().0 == key {
        Some(entries.last().1)
    } else {
        value_of(entries.drop_last(), key)
    }
}

/// Where a key stands.
fn find<V>(entries: &Vec<(CacheKey, V)>, key: &CacheKey) -> (r: Option<usize>)
    ensures
        match r {
            Some(i) => i < entries@.len() && keyed(entries@)[i as int].0 == key@ && value_of(
                keyed(entries@),
                key@,
            ) == Some(entries@[i as int].1),
            None => value_of(keyed(entries@), key@) is None && forall|j: int|
                0 <= j < entries@.len() ==> (#[trigger] keyed(entries@)[j]).0 != key@,
        },
{
    let ghost all = keyed(entries@);
    let mut n: usize = entries.len();
    assert(all.take(n as int) =~= all);
    while n > 0
        invariant
            n <= entries@.len(),
            all == keyed(entries@),
            all.len() == entries@.len(),
            value_of(all, key@) == value_of(all.take(n as int), key@),
            forall|j: int| n <= j < entries@.len() ==> (#[trigger] all[j]).0 != key@,
        decreases n,
    {
        assert(all.take(n as int).drop_last() =~= all.take(n - 1));
        assert(all[n - 1] == (entries@[n - 1].0@, entries@[n - 1].1));
        if entries[n - 1].0.same_as(key) {
            return Some(n - 1);
        }
        n = n - 1;
    }
    None
}

/// Where a key occurs, its value is found there.
proof fn lemma_value_at<V>(entries: Seq<(KeyView, V)>, i: int)
    requires
        distinct(entries),
        0 <= i < entries.len(),
    ensures
        value_of(entries, entries[i].0) == Some(entries[i].1),
    decreases entries.len(),
{
    if i < entries.len() - 1 {
        let front = entries.drop_last();
        assert(distinct(front)) by {
            assert forall|a: int, b: int| 0 <= a < b < front.len() implies (#[trigger] front[a]).0
                != (#[trigger] front[b]).0 by {
                assert(entries[a].0 != entries[b].0);
            }
        }
        lemma_value_at(front, i);
        assert(entries[i].0 != entries[entries.len() - 1].0);
    }
}

/// Nothing is found under a key that does not occur.
proof fn lemma_no_value<V>(entries: Seq<(KeyView, V)>, key: KeyView)
    requires
        forall|j: int| 0 <= j < entries.len() ==> (#[trigger] entries[j]).0 != key,
    ensures
        value_of(entries, key) is None,
    decreases entries.len(),
{
    if entries.len() > 0 {
        let front = entries.drop_last();
        assert forall|j: int| 0 <= j < front.len() implies (#[trigger] front[j]).0 != key by {
            assert(front[j] == entries[j]);
        }
        assert(entries[entries.len() - 1].0 != key);
        lemma_no_value(front, key);
    }
}

// ── the cache in memory ────────────────────────────────────────────────────

/// Upper bound on cached textures. A 128px RGBA thumbnail is ~65 KB, so this
/// caps the in-memory cache at roughly 30 MB.
pub const MAX_CACHED: usize = 512;

/// Textures in the order in which they were first put in.
#[derive(Debug)]
pub struct ThumbCache<T> {
    /// The keys and the textures.
    pub entries: Vec<(CacheKey, T)>,
}

impl<T> View for ThumbCache<T> {
    type V = Seq<(KeyView, T)>;

    open spec fn view(&self) -> Seq<(KeyView, T)> {
        keyed(self.entries@)
    }
}

/// The cache with a texture put in: in the place of the one it had under that
/// key, or at the end.
pub open spec fn inserted<T>(entries: Seq<(KeyView, T)>, key: KeyView, texture: T) -> Seq<
    (KeyView, T),
> {
    if exists|i: int| 0 <= i < entries.len() && (#[trigger] entries[i]).0 == key {
        entries.map_values(
            |e: (KeyView, T)|
                if e.0 == key {
                    (key, texture)
                } else {
                    e
                },
        )
    } else {
        entries.push((key, texture))
    }
}

/// A cache that has grown past its bound loses the oldest quarter, so that this
/// doesn't happen on every insert once the cache is warm.
pub open spec fn evicted<T>(entries: Seq<(KeyView, T)>) -> Seq<(KeyView, T)> {
    if entries.len() > MAX_CACHED {
        entries.skip((entries.len() / 4) as int)
    } else {
        entries
    }
}

impl<T> ThumbCache<T> {
    /// No key occurs twice, and the bound is kept.
    pub open spec fn valid(&self) -> bool {
        distinct(self@) && self@.len() <= MAX_CACHED
    }

    /// An empty cache.
    pub fn new() -> (r: ThumbCache<T>)
        ensures
            r.valid(),
            r@.len() == 0,
    {
        ThumbCache { entries: Vec::new() }
    }

    /// The texture under a key.
    pub fn get(&self, key: &CacheKey) -> (r: Option<&T>)
        ensures
            match (r, value_of(self@, key@)) {
                (Some(a), Some(b)) => *a == b,
                (None, None) => true,
                _ => false,
            },
    {
        match find(&self.entries, key) {
            Some(i) => Some(&self.entries[i].1),
            None => None,
        }
    }

    /// Puts a texture in, and drops the oldest quarter when the cache has grown
    /// past its bound.
    pub fn insert(&mut self, key: CacheKey, texture: T)
        requires
            old(self).valid(),
        ensures
            final(self).valid(),
            final(self)@ == evicted(inserted(old(self)@, key@, texture)),
    {
        let ghost before = self@;
        let ghost k = key@;
        match find(&self.entries, &key) {
            Some(i) => {
                self.entries[i] = (key, texture);
                assert(self@ =~= inserted(before, k, texture)) by {
                    assert(before[i as int].0 == k);
                    assert forall|j: int| 0 <= j < before.len() && j != i implies before[j].0
                        != k by {
                        if j < i {
                            assert(before[j].0 != before[i as int].0);
                        } else {
                            assert(before[i as int].0 != before[j].0);
                        }
                    }
                }
                assert(distinct(self@)) by {
                    assert forall|a: int, b: int| 0 <= a < b < self@.len() implies (
                    #[trigger] self@[a]).0 != (#[trigger] self@[b]).0 by {
                        assert(self@[a].0 == before[a].0);
                        assert(self@[b].0 == before[b].0);
                    }
                }
            },
            None => {
                self.entries.push((key, texture));
                assert(self@ =~= before.push((k, texture)));
                assert(self@ =~= inserted(before, k, texture));
                assert(distinct(self@)) by {
                    assert forall|a: int, b: int| 0 <= a < b < self@.len() implies (
                    #[trigger] self@[a]).0 != (#[trigger] self@[b]).0 by {
                        assert(self@[a].0 == before[a].0);
                        if b < before.len() {
                            assert(self@[b].0 == before[b].0);
                        }
                    }
                }
            },
        }
        if self.entries.len() > MAX_CACHED {
            let ghost full = self@;
            let drop_count: usize = self.entries.len() / 4;
            let kept = self.entries.split_off(drop_count);
            self.entries = kept;
            assert(self@ =~= full.skip(drop_count as int));
            assert forall|a: int, b: int| 0 <= a < b < self@.len() implies (#[trigger] self@[a]).0
                != (#[trigger] self@[b]).0 by {
                assert(self@[a] == full[a + drop_count]);
                assert(self@[b] == full[b + drop_count]);
            }
        }
    }
}

/// The texture of an image at a size, where the cache has it.
pub fn cached<'a, T>(cache: &'a ThumbCache<T>, path: &FilePath, mtime: i64, size: i32) -> (r: Option<
    &'a T,
>)
    ensures
        match (r, value_of(cache@, (path::components(path@), mtime, size))) {
            (Some(a), Some(b)) => *a == b,
            (None, None) => true,
            _ => false,
        },
{
    cache.get(&CacheKey::new(path, mtime, size))
}

/// Drops every cached texture, e.g. when the icon size changes wholesale.
pub fn clear<T>(cache: &mut ThumbCache<T>)
    ensures
        final(cache)@.len() == 0,
        final(cache).valid(),
{
    cache.entries.clear();
}

/// What has been put in is found.
pub proof fn law_insert_is_found<T>(entries: Seq<(KeyView, T)>, key: KeyView, texture: T)
    requires
        distinct(entries),
        entries.len() <= MAX_CACHED,
    ensures
        value_of(evicted(inserted(entries, key, texture)), key) == Some(texture),
{
    let all = inserted(entries, key, texture);
    if exists|i: int| 0 <= i < entries.len() && (#[trigger] entries[i]).0 == key {
        let i = choose|i: int| 0 <= i < entries.len() && (#[trigger] entries[i]).0 == key;
        assert(all[i] == (key, texture));
        assert forall|a: int, b: int| 0 <= a < b < all.len() implies (#[trigger] all[a]).0 != (
        #[trigger] all[b]).0 by {
            assert(entries[a].0 != entries[b].0);
        }
        lemma_value_at(all, i);
    } else {
        let kept = evicted(all);
        assert(kept.last() == (key, texture));
    }
}

/// Putting in one texture leaves those under other keys alone, as long as the
/// bound is not passed: a key that is held already takes no further place.
pub proof fn law_insert_keeps_the_others<T>(
    entries: Seq<(KeyView, T)>,
    key: KeyView,
    texture: T,
    other: KeyView,
)
    requires
        distinct(entries),
        entries.len() <= MAX_CACHED,
        value_of(entries, key) is None ==> entries.len() < MAX_CACHED,
        other != key,
    ensures
        value_of(evicted(inserted(entries, key, texture)), other) == value_of(entries, other),
{
    let all = inserted(entries, key, texture);
    if exists|i: int| 0 <= i < entries.len() && (#[trigger] entries[i]).0 == key {
        lemma_replaced_others(entries, all, key, other);
    } else {
        lemma_no_value(entries, key);
        assert(all.drop_last() =~= entries);
    }
}

/// Replacing what stands under one key leaves the others alone.
proof fn lemma_replaced_others<T>(
    entries: Seq<(KeyView, T)>,
    replaced: Seq<(KeyView, T)>,
    key: KeyView,
    other: KeyView,
)
    requires
        other != key,
        replaced.len() == entries.len(),
        forall|i: int|
            0 <= i < entries.len() ==> if entries[i].0 == key {
                (#[trigger] replaced[i]).0 == key
            } else {
                replaced[i] == entries[i]
            },
    ensures
        value_of(replaced, other) == value_of(entries, other),
    decreases entries.len(),
{
    if entries.len() > 0 {
        let front = entries.drop_last();
        let after = replaced.drop_last();
        assert forall|i: int| 0 <= i < front.len() implies if front[i].0 == key {
            (#[trigger] after[i]).0 == key
        } else {
            after[i] == front[i]
        } by {
            assert(after[i] == replaced[i]);
        }
        lemma_replaced_others(front, after, key, other);
        assert(replaced[entries.len() - 1] == replaced.last());
    }
}

/// Only the oldest textures are dropped: each of the newer three quarters is
/// still found.
pub proof fn law_the_newest_stay<T>(entries: Seq<(KeyView, T)>, i: int)
    requires
        distinct(entries),
        entries.len() / 4 <= i < entries.len(),
    ensures
        value_of(evicted(entries), entries[i].0) == Some(entries[i].1),
{
    let kept = evicted(entries);
    let n = entries.len() - kept.len();
    assert forall|a: int, b: int| 0 <= a < b < kept.len() implies (#[trigger] kept[a]).0 != (
    #[trigger] kept[b]).0 by {
        assert(kept[a] == entries[a + n]);
        assert(kept[b] == entries[b + n]);
    }
    assert(kept[i - n] == entries[i]);
    lemma_value_at(kept, i - n);
}

// ── requests in flight ─────────────────────────────────────────────────────

/// Requests currently being served, so N rows wanting the same file cause one
/// decode rather than N. Each holds those that wait for it, in order.
#[derive(Debug)]
pub struct InFlight<W> {
    /// The keys and who waits.
    pub requests: Vec<(CacheKey, Vec<W>)>,
}

impl<W> InFlight<W> {
    /// Who waits for the thumbnail under a key, where it is being produced.
    pub open spec fn waiting(&self, key: KeyView) -> Option<Seq<W>> {
        match value_of(keyed(self.requests@), key) {
            Some(waiters) => Some(waiters@),
            None => None,
        }
    }

    /// No thumbnail is being produced twice.
    pub open spec fn valid(&self) -> bool {
        distinct(keyed(self.requests@))
    }

    /// Nothing is in flight.
    pub fn new() -> (r: InFlight<W>)
        ensures
            r.valid(),
            forall|k: KeyView| r.waiting(k) is None,
    {
        let r = InFlight { requests: Vec::<(CacheKey, Vec<W>)>::new() };
        assert forall|k: KeyView| r.waiting(k) is None by {
            lemma_no_value(keyed(r.requests@), k);
        }
        r
    }

    /// Registers interest in `key`.
    ///
    /// Returns `true` if a request is already running — `waiter` has been
    /// queued behind it — or `false` if this caller is now the one responsible
    /// for producing the thumbnail.
    pub fn join_in_flight(&mut self, key: &CacheKey, waiter: W) -> (r: bool)
        requires
            old(self).valid(),
        ensures
            final(self).valid(),
            r == (old(self).waiting(key@) is Some),
            r ==> final(self).waiting(key@) == Some(old(self).waiting(key@)->0.push(waiter)),
            !r ==> final(self).waiting(key@) == Some(Seq::<W>::empty()),
            forall|k: KeyView|
                k != key@ ==> #[trigger] final(self).waiting(k) == old(self).waiting(k),
    {
        let ghost before = keyed(self.requests@);
        match find(&self.requests, key) {
            Some(i) => {
                let ghost waiters = self.requests@[i as int].1@;
                let (own_key, mut queue) = self.requests.remove(i);
                let ghost own = own_key@;
                queue.push(waiter);
                self.requests.insert(i, (own_key, queue));
                let ghost after = keyed(self.requests@);
                proof {
                    assert(after =~= before.update(i as int, (own, queue)));
                    lemma_update_one(before, i as int, queue);
                    assert forall|k: KeyView| k != key@ implies #[trigger] self.waiting(k)
                        == old(self).waiting(k) by {
                        lemma_update_others(before, i as int, queue, k);
                    }
                }
                true
            },
            None => {
                self.requests.push((key.copy(), Vec::new()));
                let ghost after = keyed(self.requests@);
                proof {
                    assert(after.drop_last() =~= before);
                    assert forall|a: int, b: int| 0 <= a < b < after.len() implies (
                    #[trigger] after[a]).0 != (#[trigger] after[b]).0 by {
                        assert(after[a] == before[a]);
                        if b < before.len() {
                            assert(after[b] == before[b]);
                        }
                    }
                    assert(after.last().1@ =~= Seq::<W>::empty());
                }
                false
            },
        }
    }

    /// Whether anyone else is waiting on this request.
    pub fn has_waiters(&self, key: &CacheKey) -> (r: bool)
        ensures
            r == (self.waiting(key@) matches Some(waiters) && waiters.len() > 0),
    {
        match find(&self.requests, key) {
            Some(i) => self.requests[i].1.len() > 0,
            None => false,
        }
    }

    /// The request is over: returns everyone who queued behind it, in order.
    pub fn finish_in_flight(&mut self, key: &CacheKey) -> (r: Vec<W>)
        requires
            old(self).valid(),
        ensures
            final(self).valid(),
            r@ == (match old(self).waiting(key@) {
                Some(waiters) => waiters,
                None => Seq::<W>::empty(),
            }),
            final(self).waiting(key@) is None,
            forall|k: KeyView|
                k != key@ ==> #[trigger] final(self).waiting(k) == old(self).waiting(k),
    {
        let ghost before = keyed(self.requests@);
        match find(&self.requests, key) {
            Some(i) => {
                let (_, waiters) = self.requests.remove(i);
                let ghost after = keyed(self.requests@);
                proof {
                    assert(after =~= before.remove(i as int));
                    assert forall|a: int, b: int| 0 <= a < b < after.len() implies (
                    #[trigger] after[a]).0 != (#[trigger] after[b]).0 by {
                        let a2 = if a < i { a } else { a + 1 };
                        let b2 = if b < i { b } else { b + 1 };
                        assert(after[a] == before[a2]);
                        assert(after[b] == before[b2]);
                    }
                    assert forall|j: int| 0 <= j < after.len() implies (#[trigger] after[j]).0
                        != key@ by {
                        let j2 = if j < i { j } else { j + 1 };
                        assert(after[j] == before[j2]);
                        if j2 < i {
                            assert(before[j2].0 != before[i as int].0);
                        } else {
                            assert(before[i as int].0 != before[j2].0);
                        }
                    }
                    lemma_no_value(after, key@);
                    assert forall|k: KeyView| k != key@ implies #[trigger] self.waiting(k)
                        == old(self).waiting(k) by {
                        lemma_removed_others(before, i as int, k);
                    }
                }
                waiters
            },
            None => {
                let none: Vec<W> = Vec::new();
                assert(none@ =~= Seq::<W>::empty());
                none
            },
        }
    }
}

/// Replacing one value keeps the keys apart and is found.
proof fn lemma_update_one<V>(entries: Seq<(KeyView, V)>, i: int, value: V)
    requires
        distinct(entries),
        0 <= i < entries.len(),
    ensures
        distinct(entries.update(i, (entries[i].0, value))),
        value_of(entries.update(i, (entries[i].0, value)), entries[i].0) == Some(value),
{
    let after = entries.update(i, (entries[i].0, value));
    assert forall|a: int, b: int| 0 <= a < b < after.len() implies (#[trigger] after[a]).0 != (
    #[trigger] after[b]).0 by {
        assert(after[a].0 == entries[a].0);
        assert(after[b].0 == entries[b].0);
    }
    lemma_value_at(after, i);
}

/// Replacing one value leaves those under other keys alone.
proof fn lemma_update_others<V>(entries: Seq<(KeyView, V)>, i: int, value: V, key: KeyView)
    requires
        0 <= i < entries.len(),
        key != entries[i].0,
    ensures
        value_of(entries.update(i, (entries[i].0, value)), key) == value_of(entries, key),
    decreases entries.len(),
{
    let after = entries.update(i, (entries[i].0, value));
    if i == entries.len() - 1 {
        assert(after.drop_last() =~= entries.drop_last());
    } else {
        lemma_update_others(entries.drop_last(), i, value, key);
        assert(after.drop_last() =~= entries.drop_last().update(i, (entries[i].0, value)));
    }
}

/// Taking one entry out leaves those under other keys alone.
proof fn lemma_removed_others<V>(entries: Seq<(KeyView, V)>, i: int, key: KeyView)
    requires
        0 <= i < entries.len(),
        key != entries[i].0,
    ensures
        value_of(entries.remove(i), key) == value_of(entries, key),
    decreases entries.len(),
{
    let after = entries.remove(i);
    if i == entries.len() - 1 {
        assert(after =~= entries.drop_last());
    } else {
        lemma_removed_others(entries.drop_last(), i, key);
        assert(after.drop_last() =~= entries.drop_last().remove(i));
        assert(after.last() == entries.last());
    }
}

// ── loading ────────────────────────────────────────────────────────────────

/// How a request for a thumbnail begins.
#[derive(Debug)]
pub enum Load<'a, T> {
    /// The cache has it.
    Hit(&'a T),
    /// Someone is already producing exactly this thumbnail; the caller waits
    /// for theirs instead of starting a second identical decode.
    Wait,
    /// The caller is to produce it.
    Produce,
}

/// Begins a request for a thumbnail.
pub fn load<'a, T, W>(
    cache: &'a ThumbCache<T>,
    in_flight: &mut InFlight<W>,
    key: &CacheKey,
    waiter: W,
) -> (r: Load<'a, T>)
    requires
        old(in_flight).valid(),
    ensures
        final(in_flight).valid(),
        match value_of(cache@, key@) {
            Some(texture) => r == Load::Hit(&texture) && *final(in_flight) == *old(in_flight),
            None => match old(in_flight).waiting(key@) {
                Some(waiters) => r is Wait && final(in_flight).waiting(key@) == Some(
                    waiters.push(waiter),
                ),
                None => r is Produce && final(in_flight).waiting(key@) == Some(Seq::<W>::empty()),
            },
        },
        forall|k: KeyView|
            k != key@ ==> #[trigger] final(in_flight).waiting(k) == old(in_flight).waiting(k),
{
    match cache.get(key) {
        Some(hit) => Load::Hit(hit),
        None => if in_flight.join_in_flight(key, waiter) {
            Load::Wait
        } else {
            Load::Produce
        },
    }
}

/// Ends a request: a thumbnail that could be produced goes into the cache, and
/// everyone who queued behind the request is returned, to be handed the same.
pub fn loaded<T, W>(
    cache: &mut ThumbCache<T>,
    in_flight: &mut InFlight<W>,
    key: &CacheKey,
    texture: Option<T>,
) -> (waiters: Vec<W>)
    requires
        old(cache).valid(),
        old(in_flight).valid(),
    ensures
        final(cache).valid(),
        final(in_flight).valid(),
        final(cache)@ == (match texture {
            Some(t) => evicted(inserted(old(cache)@, key@, t)),
            None => old(cache)@,
        }),
        waiters@ == (match old(in_flight).waiting(key@) {
            Some(w) => w,
            None => Seq::<W>::empty(),
        }),
        final(in_flight).waiting(key@) is None,
        forall|k: KeyView|
            k != key@ ==> #[trigger] final(in_flight).waiting(k) == old(in_flight).waiting(k),
{
    match texture {
        Some(t) => cache.insert(key.copy(), t),
        None => {},
    }
    in_flight.finish_in_flight(key)
}

// ── producing ──────────────────────────────────────────────────────────────

/// How far the production of a thumbnail has come.
#[derive(Clone, Copy, Debug, PartialEq, Eq, Structural)]
pub enum Stage {
    /// Looking for a marker of an earlier failure.
    Start,
    /// Looking in the shared cache.
    Shared,
    /// Waiting for a permit.
    Queued,
    /// Decoding, with a permit.
    Decoding,
    /// Over.
    Done,
}

/// What has come of the last action.
#[derive(Clone, Copy, Debug, PartialEq, Eq, Structural)]
pub enum Event {
    /// Whether some thumbnailer has recorded that the file cannot be rendered.
    Checked { failed: bool },
    /// Whether the shared cache has a current thumbnail.
    Looked { found: bool },
    /// Whether a permit was given, whether the row still shows the file, and
    /// whether other rows have queued behind this request.
    Permit { granted: bool, still_wanted: bool, has_waiters: bool },
    /// Whether the file could be decoded.
    Decoded { ok: bool },
}

/// What is to be done next.
#[derive(Clone, Copy, Debug, PartialEq, Eq, Structural)]
pub enum Action {
    /// Look in the shared cache.
    LookInSharedCache,
    /// Show what the shared cache had.
    ShowShared,
    /// Wait for a permit.
    AwaitPermit,
    /// Decode at the given size.
    Decode { target: i32 },
    /// Return the permit, hand the result to the rest of the desktop and show
    /// it.
    StoreAndShow,
    /// Return the permit; there is no thumbnail.
    ReturnPermit,
    /// There is no thumbnail.
    GiveUp,
}

/// The next stage and the next action. The events that do not belong to a stage
/// end the production.
pub open spec fn produced(stage: Stage, event: Event, size: int) -> (Stage, Action) {
    match (stage, event) {
        (Stage::Start, Event::Checked { failed }) => if failed {
            (Stage::Done, Action::GiveUp)
        } else {
            (Stage::Shared, Action::LookInSharedCache)
        },
        (Stage::Shared, Event::Looked { found }) => if found {
            (Stage::Done, Action::ShowShared)
        } else {
            (Stage::Queued, Action::AwaitPermit)
        },
        (Stage::Queued, Event::Permit { granted, still_wanted, has_waiters }) => if !granted {
            (Stage::Done, Action::GiveUp)
        } else if !still_wanted && !has_waiters {
            (Stage::Done, Action::ReturnPermit)
        } else {
            (Stage::Decoding, Action::Decode { target: target_size(size) as i32 })
        },
        (Stage::Decoding, Event::Decoded { ok }) => if ok {
            (Stage::Done, Action::StoreAndShow)
        } else {
            (Stage::Done, Action::ReturnPermit)
        },
        (Stage::Decoding, _) => (Stage::Done, Action::ReturnPermit),
        _ => (Stage::Done, Action::GiveUp),
    }
}

/// Does the next step of producing a thumbnail: shared cache first, then a
/// rate-limited decode.
///
/// Between queueing and getting a permit the row may have been scrolled away
/// and rebound to a different file. The work is dropped rather than done —
/// unless other rows have queued behind this request, in which case abandoning
/// it would hand them all nothing and leave them with no thumbnail at all.
pub fn produce(stage: Stage, event: Event, size: i32) -> (r: (Stage, Action))
    ensures
        r == produced(stage, event, size as int),
{
    match (stage, event) {
        (Stage::Start, Event::Checked { failed }) => if failed {
            (Stage::Done, Action::GiveUp)
        } else {
            (Stage::Shared, Action::LookInSharedCache)
        },
        (Stage::Shared, Event::Looked { found }) => if found {
            (Stage::Done, Action::ShowShared)
        } else {
            (Stage::Queued, Action::AwaitPermit)
        },
        (Stage::Queued, Event::Permit { granted, still_wanted, has_waiters }) => if !granted {
            (Stage::Done, Action::GiveUp)
        } else if !still_wanted && !has_waiters {
            (Stage::Done, Action::ReturnPermit)
        } else {
            (Stage::Decoding, Action::Decode { target: fdo_target_size(size) })
        },
        (Stage::Decoding, Event::Decoded { ok }) => if ok {
            (Stage::Done, Action::StoreAndShow)
        } else {
            (Stage::Done, Action::ReturnPermit)
        },
        (Stage::Decoding, _) => (Stage::Done, Action::ReturnPermit),
        _ => (Stage::Done, Action::GiveUp),
    }
}

/// Whether a permit is held at a stage.
pub open spec fn holds_permit(stage: Stage) -> bool {
    stage == Stage::Decoding
}

/// Whether an event brings a permit.
pub open spec fn brings_permit(stage: Stage, event: Event) -> bool {
    stage == Stage::Queued && (event matches Event::Permit { granted, .. } && granted)
}

/// Whether an action returns a permit.
pub open spec fn returns_permit(action: Action) -> bool {
    action == Action::ReturnPermit || action == Action::StoreAndShow
}

/// A permit that was given is returned exactly once: what was held before a
/// step or came with it is held after the step or returned by it.
pub proof fn law_permits_are_returned(stage: Stage, event: Event, size: int)
    ensures
        ({
            let (next, action) = produced(stage, event, size);
            let had = holds_permit(stage) || brings_permit(stage, event);
            &&& had == (holds_permit(next) || returns_permit(action))
            &&& !(holds_permit(next) && returns_permit(action))
        }),
{
}

/// A request that others wait for is not dropped for want of interest.
pub proof fn law_waited_for_work_is_done(size: int, still_wanted: bool)
    ensures
        produced(
            Stage::Queued,
            Event::Permit { granted: true, still_wanted, has_waiters: true },
            size,
        ).1 == (Action::Decode { target: target_size(size) as i32 }),
{
}

/// How many decodes run at once: as many as the machine does in parallel, at
/// least two and at most six, and four where that is not known.
pub fn decode_limit(parallelism: Option<usize>) -> (n: usize)
    ensures
        n == (match parallelism {
            Some(p) => if p < 2 {
                2
            } else if p > 6 {
                6
            } else {
                p as int
            },
            None => 4int,
        }),
        2 <= n <= 6,
{
    match parallelism {
        Some(p) => if p < 2 {
            2
        } else if p > 6 {
            6
        } else {
            p
        },
        None => 4,
    }
}

// ── what to thumbnail ──────────────────────────────────────────────────────

/// Content types worth thumbnailing.
pub open spec fn thumbnailed(content_type: Seq<char>) -> bool {
    "image/"@.is_prefix_of(content_type) && content_type != "image/x-xcf"@ && content_type
        != "image/vnd.adobe.photoshop"@
}

/// Content types worth thumbnailing.
///
/// Deliberately limited to still images: video and document thumbnails need
/// out-of-process thumbnailers, and spawning those per row is exactly the kind
/// of thing that makes a file manager slow.
pub fn can_thumbnail(content_type: &str) -> (r: bool)
    ensures
        r == thumbnailed(content_type@),
{
    if !text::starts_with(content_type, "image/") {
        return false;
    }
    !text::same(content_type, "image/x-xcf") && !text::same(
        content_type,
        "image/vnd.adobe.photoshop",
    )
}

/// An icon of the theme, by its name or by the type of contents it stands for.
#[derive(Debug)]
pub enum ThemedIcon {
    /// The icon of that name.
    Named(&'static str),
    /// The icon for contents of that type.
    ForContentType(String),
}

/// The themed icon for an entry, used whenever there is no thumbnail.
pub fn icon_for(content_type: &str, is_dir: bool, is_symlink: bool) -> (r: ThemedIcon)
    ensures
        match r {
            ThemedIcon::Named(name) => is_dir && name@ == (if is_symlink {
                "folder-symbolic"@
            } else {
                "folder"@
            }),
            ThemedIcon::ForContentType(t) => !is_dir && t@ == content_type@,
        },
{
    if is_dir {
        return ThemedIcon::Named(
            if is_symlink {
                "folder-symbolic"
            } else {
                "folder"
            },
        );
    }
    ThemedIcon::ForContentType(text::copied(content_type))
}

// ── the shared cache ───────────────────────────────────────────────────────

/// The freedesktop cache directories, smallest first, with their pixel size.
pub const FDO_SIZES: [(&'static str, i32); 4] = [
    ("normal", 128),
    ("large", 256),
    ("x-large", 512),
    ("xx-large", 1024),
];

/// The pixel size that is generated for a size on the screen.
pub open spec fn target_size(size: int) -> int {
    if size <= 128 {
        128
    } else {
        256
    }
}

/// Which shared-cache bucket is generated into for a given on-screen size.
pub fn fdo_target_size(size: i32) -> (r: i32)
    ensures
        r == target_size(size as int),
{
    if size <= 128 {
        128
    } else {
        256
    }
}

/// The buckets of the first `n` that are at least as large as wanted, smallest
/// first.
pub open spec fn large_enough(wanted: int, n: nat) -> Seq<int>
    decreases n,
{
    if n == 0 {
        Seq::empty()
    } else if FDO_SIZES@[n - 1].1 >= wanted {
        large_enough(wanted, (n - 1) as nat).push(n - 1)
    } else {
        large_enough(wanted, (n - 1) as nat)
    }
}

/// The buckets of the first `n` that are too small, largest first.
pub open spec fn too_small(wanted: int, n: nat) -> Seq<int>
    decreases n,
{
    if n == 0 {
        Seq::empty()
    } else if FDO_SIZES@[n - 1].1 < wanted {
        seq![n - 1] + too_small(wanted, (n - 1) as nat)
    } else {
        too_small(wanted, (n - 1) as nat)
    }
}

/// The order in which the buckets are looked through: the smallest that is
/// still at least as large as needed comes first, since upscaling a 128px
/// thumbnail into a 256px tile looks visibly soft.
pub open spec fn bucket_order(size: int) -> Seq<int> {
    large_enough(target_size(size), 4) + too_small(target_size(size), 4)
}

/// The name of a thumbnail's file.
pub open spec fn thumbnail_name(digest: Seq<char>) -> Seq<char> {
    digest + ".png"@
}

/// The file of a thumbnail in a bucket.
pub open spec fn thumbnail_file(root: Seq<u8>, bucket: Seq<char>, digest: Seq<char>) -> Seq<u8> {
    path::joined(path::joined(root, encode_utf8(bucket)), encode_utf8(thumbnail_name(digest)))
}

/// The file of a thumbnail in a bucket.
fn file_in_bucket(root: &FilePath, bucket: &str, digest: &str) -> (r: FilePath)
    ensures
        r@ == thumbnail_file(root@, bucket@, digest@),
{
    let mut name = text::copied(digest);
    name.append(".png");
    root.join_text(bucket).join_text(name.as_str())
}

/// Where a shared thumbnail may be, in the order in which to look.
pub fn shared_candidates(root: &FilePath, digest: &str, size: i32) -> (r: Vec<FilePath>)
    ensures
        r@.len() == 4,
        bucket_order(size as int).len() == 4,
        forall|i: int|
            0 <= i < 4 ==> (#[trigger] r@[i])@ == thumbnail_file(
                root@,
                FDO_SIZES@[bucket_order(size as int)[i]].0@,
                digest@,
            ),
{
    let wanted: i32 = fdo_target_size(size);
    let sizes = FDO_SIZES;
    let ghost order = bucket_order(size as int);
    let mut out: Vec<FilePath> = Vec::new();
    proof {
        lemma_bucket_lengths(wanted as int, 4);
    }
    let mut n: usize = 0;
    while n < 4
        invariant
            n <= 4,
            sizes == FDO_SIZES,
            out@.len() == large_enough(wanted as int, n as nat).len(),
            forall|i: int|
                0 <= i < out@.len() ==> (#[trigger] out@[i])@ == thumbnail_file(
                    root@,
                    FDO_SIZES@[large_enough(wanted as int, n as nat)[i]].0@,
                    digest@,
                ),
        decreases 4 - n,
    {
        if sizes[n].1 >= wanted {
            out.push(file_in_bucket(root, sizes[n].0, digest));
        }
        n = n + 1;
    }
    let ghost first = large_enough(wanted as int, 4);
    let ghost second = too_small(wanted as int, 4);
    let ghost shown: Seq<int> = Seq::empty();
    let mut k: usize = 4;
    while k > 0
        invariant
            k <= 4,
            sizes == FDO_SIZES,
            order == first + second,
            second == shown + too_small(wanted as int, k as nat),
            out@.len() == first.len() + shown.len(),
            forall|i: int|
                0 <= i < out@.len() ==> (#[trigger] out@[i])@ == thumbnail_file(
                    root@,
                    FDO_SIZES@[(first + shown)[i]].0@,
                    digest@,
                ),
        decreases k,
    {
        k = k - 1;
        if sizes[k].1 < wanted {
            let ghost was = shown;
            proof {
                shown = shown.push(k as int);
                assert(shown + too_small(wanted as int, k as nat) =~= was + too_small(
                    wanted as int,
                    (k + 1) as nat,
                ));
                assert forall|i: int| 0 <= i < first.len() + was.len() implies (first + shown)[i]
                    == (first + was)[i] by {}
            }
            out.push(file_in_bucket(root, sizes[k].0, digest));
        }
    }
    assert(first + shown =~= order);
    out
}

/// Each bucket is either large enough or too small.
proof fn lemma_bucket_lengths(wanted: int, n: nat)
    ensures
        large_enough(wanted, n).len() + too_small(wanted, n).len() == n,
    decreases n,
{
    if n > 0 {
        lemma_bucket_lengths(wanted, (n - 1) as nat);
    }
}

/// The first bucket looked at is the one that is generated into, so what has
/// been stored is what is looked at first.
pub proof fn law_the_stored_bucket_is_looked_at_first(size: int)
    ensures
        bucket_order(size).len() > 0,
        FDO_SIZES@[bucket_order(size)[0]].0@ == stored_bucket(size),
        FDO_SIZES@[bucket_order(size)[0]].1 == target_size(size),
{
    reveal_with_fuel(large_enough, 5);
    reveal_with_fuel(too_small, 5);
}

/// Whether a shared thumbnail is still current. It stores the source's
/// modification time; a mismatch means the file changed since the thumbnail
/// was made and the thumbnail is a lie.
pub fn is_current(recorded_mtime: Option<i64>, mtime: i64) -> (r: bool)
    ensures
        r == (recorded_mtime matches Some(recorded) ==> recorded == mtime),
{
    match recorded_mtime {
        Some(recorded) => recorded == mtime,
        None => true,
    }
}

/// The directory of the shared thumbnails, in the user's cache directory, which
/// is never the empty path.
pub fn thumbnail_root() -> (r: Option<FilePath>)
    ensures
        r matches Some(root) ==> exists|cache: Seq<u8>|
            cache.len() > 0 && root@ == #[trigger] path::joined(
                cache,
                encode_utf8("thumbnails"@),
            ),
{
    match outside::cache_dir_bytes() {
        Some(bytes) => Some(thumbnails_in(&FilePath { bytes })),
        None => None,
    }
}

/// The directory of the shared thumbnails in a cache directory.
pub fn thumbnails_in(cache: &FilePath) -> (r: FilePath)
    ensures
        r@ == path::joined(cache@, encode_utf8("thumbnails"@)),
{
    cache.join_text("thumbnails")
}

/// The directory that holds one directory of failure markers for each
/// application.
pub fn fail_root(root: &FilePath) -> (r: FilePath)
    ensures
        r@ == path::joined(root@, encode_utf8("fail"@)),
{
    root.join_text("fail")
}

/// The marker that an application leaves for a file that cannot be rendered.
/// The file counts as failed if the marker exists in any of the directories.
pub fn failure_marker(dir: &FilePath, digest: &str) -> (r: FilePath)
    ensures
        r@ == path::joined(dir@, encode_utf8(thumbnail_name(digest@))),
{
    let mut name = text::copied(digest);
    name.append(".png");
    dir.join_text(name.as_str())
}

/// The bucket that a thumbnail is stored in.
pub open spec fn stored_bucket(size: int) -> Seq<char> {
    if target_size(size) <= 128 {
        "normal"@
    } else {
        "large"@
    }
}

/// Where and with what a thumbnail is stored.
#[derive(Debug)]
pub struct StorePlan {
    /// The directory.
    pub dir: FilePath,
    /// The file in the end.
    pub final_path: FilePath,
    /// The file while it is written: a reader must never see a half-written
    /// PNG, and several apps may be thumbnailing the same file at once.
    pub temp_path: FilePath,
    /// The text chunks of the PNG, names and values.
    pub chunks: Vec<(&'static str, String)>,
    /// The permissions of the file: a thumbnail can reveal the contents of a
    /// file whose own permissions are stricter than the cache directory.
    pub mode: u32,
}

/// Where and with what a generated thumbnail is written into the shared cache.
pub fn store_in_shared_cache(
    root: &FilePath,
    digest: &str,
    uri: &str,
    mtime: i64,
    size: i32,
    process: u32,
) -> (r: StorePlan)
    ensures
        r.dir@ == path::joined(root@, encode_utf8(stored_bucket(size as int))),
        r.final_path@ == thumbnail_file(root@, stored_bucket(size as int), digest@),
        r.temp_path@ == path::joined(
            r.dir@,
            encode_utf8(
                thumbnail_name(digest@) + "."@ + text::decimal(process as nat) + ".tmp"@,
            ),
        ),
        r.chunks@.len() == 2,
        r.chunks@[0].0@ == "tEXt::Thumb::URI"@,
        r.chunks@[0].1@ == uri@,
        r.chunks@[1].0@ == "tEXt::Thumb::MTime"@,
        r.chunks@[1].1@ == text::signed_decimal(mtime as int),
        r.mode == 0o600,
{
    let bucket: &'static str = if fdo_target_size(size) <= 128 {
        "normal"
    } else {
        "large"
    };
    let dir = root.join_text(bucket);
    let mut name = text::copied(digest);
    name.append(".png");
    let final_path = dir.join_text(name.as_str());
    name.append(".");
    name.append(text::decimal_of(process as u64).as_str());
    name.append(".tmp");
    let temp_path = dir.join_text(name.as_str());
    let mut chunks: Vec<(&'static str, String)> = Vec::new();
    chunks.push(("tEXt::Thumb::URI", text::copied(uri)));
    chunks.push(("tEXt::Thumb::MTime", text::signed_decimal_of(mtime)));
    StorePlan { dir, final_path, temp_path, chunks, mode: 0o600 }
}

// ── pixels ─────────────────────────────────────────────────────────────────

/// How the bytes of a pixel are laid out.
#[derive(Clone, Copy, Debug, PartialEq, Eq, Structural)]
pub enum PixelFormat {
    /// Red, green, blue and alpha.
    Rgba,
    /// Red, green and blue.
    Rgb,
}

/// Decoded pixels, detached from the decoder so they can cross a thread.
#[derive(Debug)]
pub struct RawThumb {
    /// Pixels in a row.
    pub width: i32,
    /// Rows.
    pub height: i32,
    /// Bytes from one row to the next.
    pub rowstride: usize,
    /// Whether there is an alpha channel.
    pub has_alpha: bool,
    /// The pixels.
    pub pixels: Vec<u8>,
    /// `Thumb::MTime` from a shared-cache PNG, used to detect a stale entry.
    pub recorded_mtime: Option<i64>,
}

impl RawThumb {
    /// Decoded pixels, with the modification time that the image records if it
    /// records one that is a number.
    pub fn from_parts(
        width: i32,
        height: i32,
        rowstride: usize,
        has_alpha: bool,
        pixels: Vec<u8>,
        recorded: Option<&str>,
    ) -> (r: RawThumb)
        ensures
            r.width == width && r.height == height && r.rowstride == rowstride,
            r.has_alpha == has_alpha,
            r.pixels == pixels,
            r.recorded_mtime == (match recorded {
                Some(text) => text::parsed_i64(text@),
                None => None,
            }),
    {
        let recorded_mtime: Option<i64> = match recorded {
            Some(text) => text::parse_i64(text),
            None => None,
        };
        RawThumb { width, height, rowstride, has_alpha, pixels, recorded_mtime }
    }

    /// How the bytes of a pixel are laid out.
    pub fn format(&self) -> (r: PixelFormat)
        ensures
            r == (if self.has_alpha {
                PixelFormat::Rgba
            } else {
                PixelFormat::Rgb
            }),
    {
        if self.has_alpha {
            PixelFormat::Rgba
        } else {
            PixelFormat::Rgb
        }
    }
}

/// A thumbnail stored for one modification time is current for that time and
/// for no other.
pub proof fn law_stored_times_tell_stale_from_current(stored: i64, mtime: i64)
    ensures
        text::parsed_i64(text::signed_decimal(stored as int)) == Some(stored),
        (text::parsed_i64(text::signed_decimal(stored as int)) == Some(mtime)) == (stored
            == mtime),
{
    text::law_numbers_read_back(stored);
}

/// Thumbnails are made of images of every kind but the two that only their own
/// programs can draw, and of nothing else.
pub proof fn law_images_get_thumbnails(kind: Seq<char>)
    ensures
        thumbnailed("image/"@ + kind) <==> "image/"@ + kind != "image/x-xcf"@ && "image/"@ + kind
            != "image/vnd.adobe.photoshop"@,
        !"image/"@.is_prefix_of(kind) ==> !thumbnailed(kind),
{
    let s = "image/"@ + kind;
    assert("image/"@ =~= s.subrange(0, "image/"@.len() as int));
}

/// A thumbnail is looked for in the shared cache and decoded only where it is not
/// there, with a permit, at the size of its bucket; what was decoded is stored
/// and shown.
pub proof fn law_thumbnails_are_looked_for_before_they_are_made(size: int, waiters: bool)
    ensures
        produced(Stage::Start, Event::Checked { failed: false }, size) == (
            Stage::Shared,
            Action::LookInSharedCache,
        ),
        produced(Stage::Start, Event::Checked { failed: true }, size) == (
            Stage::Done,
            Action::GiveUp,
        ),
        produced(Stage::Shared, Event::Looked { found: true }, size) == (
            Stage::Done,
            Action::ShowShared,
        ),
        produced(Stage::Shared, Event::Looked { found: false }, size) == (
            Stage::Queued,
            Action::AwaitPermit,
        ),
        produced(
            Stage::Queued,
            Event::Permit { granted: true, still_wanted: true, has_waiters: waiters },
            size,
        ).0 == Stage::Decoding,
        produced(
            Stage::Queued,
            Event::Permit { granted: true, still_wanted: true, has_waiters: waiters },
            size,
        ).1 == (Action::Decode { target: target_size(size) as i32 }),
        produced(
            Stage::Queued,
            Event::Permit { granted: true, still_wanted: false, has_waiters: false },
            size,
        ) == (Stage::Done, Action::ReturnPermit),
        produced(
            Stage::Queued,
            Event::Permit { granted: false, still_wanted: true, has_waiters: waiters },
            size,
        ) == (Stage::Done, Action::GiveUp),
        produced(Stage::Decoding, Event::Decoded { ok: true }, size) == (
            Stage::Done,
            Action::StoreAndShow,
        ),
        produced(Stage::Decoding, Event::Decoded { ok: false }, size) == (
            Stage::Done,
            Action::ReturnPermit,
        ),
        size <= 128 ==> target_size(size) == 128,
        size > 128 ==> target_size(size) == 256,
{
}

/// Every bucket is looked through once: first those that are large enough, the
/// smallest of them first, and then the others, the largest of them first.
pub proof fn law_every_bucket_is_looked_through(size: int)
    ensures
        size <= 128 ==> bucket_order(size) == seq![0int, 1, 2, 3],
        size > 128 ==> bucket_order(size) == seq![1int, 2, 3, 0],
{
    reveal_with_fuel(large_enough, 5);
    reveal_with_fuel(too_small, 5);
    if size <= 128 {
        assert(bucket_order(size) =~= seq![0int, 1, 2, 3]);
    } else {
        assert(bucket_order(size) =~= seq![1int, 2, 3, 0]);
    }
}

/// A thumbnail's file is named by the digest, in the directory of its bucket.
pub proof fn law_thumbnails_are_filed_by_digest(root: Seq<u8>, digest: Seq<char>)
    ensures
        thumbnail_name(digest) == digest + ".png"@,
        thumbnail_file(root, "normal"@, digest) == path::joined(
            path::joined(root, encode_utf8("normal"@)),
            encode_utf8(digest + ".png"@),
        ),
        stored_bucket(128) == "normal"@,
        stored_bucket(129) == "large"@,
{
}

/// A cache that has room keeps everything, in order, with what is new at the
/// end.
pub proof fn law_new_thumbnails_come_last<T>(
    entries: Seq<(KeyView, T)>,
    key: KeyView,
    texture: T,
)
    requires
        value_of(entries, key) is None,
        distinct(entries),
        entries.len() < MAX_CACHED,
    ensures
        evicted(inserted(entries, key, texture)) == entries.push((key, texture)),
{
    if exists|i: int| 0 <= i < entries.len() && (#[trigger] entries[i]).0 == key {
        let i = choose|i: int| 0 <= i < entries.len() && (#[trigger] entries[i]).0 == key;
        lemma_value_at(entries, i);
    }
}

/// A cache never holds two textures under one key, and never more than its
/// bound; nothing is produced twice at a time.
pub proof fn law_caches_hold_one_of_each<T, W>(
    cache: ThumbCache<T>,
    flight: InFlight<W>,
    i: int,
    j: int,
)
    ensures
        cache.valid() && 0 <= i < j < cache@.len() ==> cache@[i].0 != cache@[j].0,
        cache.valid() ==> cache@.len() <= 512,
        flight.valid() && 0 <= i < j < flight.requests@.len() ==> flight.requests@[i].0@
            != flight.requests@[j].0@,
{
    if flight.valid() && 0 <= i < j < flight.requests@.len() {
        let all = keyed(flight.requests@);
        assert(all[i].0 == flight.requests@[i].0@);
        assert(all[j].0 == flight.requests@[j].0@);
    }
}

} // verus!
