//! The thumbnail cache: keys derived from a video's path and modification
//! time, a lookup protocol with staleness purging, LRU eviction under a count
//! and a size bound, and age-based cleanup. The caller reads and writes the
//! persisted index and deletes files; every decision is made here.
use vstd::prelude::*;
use vstd::string::*;
use crate::text::{dec, digit_char, fixed, hex, push_dec, push_fixed, push_hex, str_eq};
use crate::ffmpeg::{fault_text, FfmpegError, FfmpegFault};
use crate::types::{ThumbnailCache, ThumbnailCacheEntry};

verus! {

/// What `DefaultHasher::new()` gives for the text, as a `String`.
pub uninterp spec fn std_hash_of(s: Seq<char>) -> u64;

/// Relies on `std::hash::DefaultHasher`: a hasher built by `new` is
/// unkeyed, so hashing the same text gives the same value.
#[verifier::external_body]
fn default_hash(s: &str) -> (r: u64)
    ensures
        r == std_hash_of(s@),
{
    let mut hasher = std::collections::hash_map::DefaultHasher::new();
    std::hash::Hash::hash(s, &mut hasher);
    std::hash::Hasher::finish(&hasher)
}

/// The text hashed for a cache key: the path followed by the decimal
/// modification time.
pub open spec fn key_text(video_path: Seq<char>, mtime: u64) -> Seq<char> {
    video_path + dec(mtime as nat)
}

/// The cache key of a video: its key text hashed, in lower-case hex.
pub open spec fn cache_key(video_path: Seq<char>, mtime: u64) -> Seq<char> {
    hex(std_hash_of(key_text(video_path, mtime)) as nat)
}

pub fn generate_cache_key(video_path: &str, mtime: u64) -> (r: String)
    ensures
        r@ == cache_key(video_path@, mtime),
{
    let mut text = String::from_str(video_path);
    push_dec(&mut text, mtime);
    let h = default_hash(text.as_str());
    let mut key = String::new();
    push_hex(&mut key, h);
    key
}

/// Largest number of cached thumbnails.
pub const MAX_ENTRIES: usize = 100;

/// Largest total size of cached thumbnails, in bytes (500 MiB).
pub const MAX_CACHE_BYTES: u64 = 524_288_000;

/// Seconds in a day.
pub const DAY_SECONDS: u64 = 86_400;

/// Default age, in days, past which cleanup drops a thumbnail.
pub const DEFAULT_MAX_AGE_DAYS: u32 = 7;

/// Sum of the thumbnail sizes of a run of entries.
pub open spec fn total_size(s: Seq<(String, ThumbnailCacheEntry)>) -> nat
    decreases s.len(),
{
    if s.len() == 0 {
        0
    } else {
        total_size(s.drop_last()) + s.last().1.file_size as nat
    }
}

/// Each key appears once.
pub open spec fn unique_keys(s: Seq<(String, ThumbnailCacheEntry)>) -> bool {
    forall|i: int, j: int| 0 <= i < s.len() && 0 <= j < s.len() && i != j ==> s[i].0@ != s[j].0@
}

/// Both bounds hold.
pub open spec fn within_bounds(count: nat, size: nat, max_entries: usize, max_size: u64) -> bool {
    count <= max_entries && size <= max_size
}

/// `new` is `old` with `entry` stored under `key`, in place of an entry of
/// the same key or else at the end.
pub open spec fn stored(
    before: Seq<(String, ThumbnailCacheEntry)>,
    key: String,
    entry: ThumbnailCacheEntry,
    after: Seq<(String, ThumbnailCacheEntry)>,
) -> bool {
    ||| exists|i: int|
        0 <= i < before.len() && before[i].0@ == key@ && after == before.update(i, (key, entry))
    ||| (forall|j: int| 0 <= j < before.len() ==> before[j].0@ != key@) && after == before.push(
        (key, entry),
    )
}

proof fn lemma_total_size_remove(s: Seq<(String, ThumbnailCacheEntry)>, i: int)
    requires
        0 <= i < s.len(),
    ensures
        total_size(s.remove(i)) + s[i].1.file_size == total_size(s),
    decreases s.len(),
{
    if i == s.len() - 1 {
        assert(s.remove(i) =~= s.drop_last());
    } else {
        lemma_total_size_remove(s.drop_last(), i);
        assert(s.remove(i).drop_last() =~= s.drop_last().remove(i));
    }
}

proof fn lemma_total_size_bound(s: Seq<(String, ThumbnailCacheEntry)>)
    ensures
        total_size(s) <= s.len() * (u64::MAX as nat),
    decreases s.len(),
{
    if s.len() > 0 {
        lemma_total_size_bound(s.drop_last());
        assert((s.len() - 1) * (u64::MAX as nat) + (u64::MAX as nat) == s.len() * (u64::MAX as nat))
            by (nonlinear_arith);
    }
}

/// The entries not flagged in `drop`, in order.
pub open spec fn kept(s: Seq<(String, ThumbnailCacheEntry)>, drop: Seq<bool>) -> Seq<
    (String, ThumbnailCacheEntry),
>
    decreases s.len(),
{
    if s.len() == 0 {
        Seq::empty()
    } else {
        let head = if drop[0] { Seq::empty() } else { seq![s[0]] };
        head + kept(s.drop_first(), drop.drop_first())
    }
}

/// The entries flagged in `drop`, in order.
pub open spec fn dropped(s: Seq<(String, ThumbnailCacheEntry)>, drop: Seq<bool>) -> Seq<
    (String, ThumbnailCacheEntry),
>
    decreases s.len(),
{
    if s.len() == 0 {
        Seq::empty()
    } else {
        let head = if drop[0] { seq![s[0]] } else { Seq::empty() };
        head + dropped(s.drop_first(), drop.drop_first())
    }
}

proof fn lemma_unique_remove(s: Seq<(String, ThumbnailCacheEntry)>, i: int)
    requires
        unique_keys(s),
        0 <= i < s.len(),
    ensures
        unique_keys(s.remove(i)),
{
    let t = s.remove(i);
    assert forall|a: int, b: int| 0 <= a < t.len() && 0 <= b < t.len() && a != b implies t[a].0@
        != t[b].0@ by {
        let a2 = if a < i { a } else { a + 1 };
        let b2 = if b < i { b } else { b + 1 };
        assert(t[a] == s[a2]);
        assert(t[b] == s[b2]);
    }
}

impl ThumbnailCache {
    /// Well-formed: keys are unique.
    pub open spec fn wf(&self) -> bool {
        unique_keys(self.entries@)
    }

    /// An empty index in the current format.
    pub fn empty() -> (r: ThumbnailCache)
        ensures
            r.wf(),
            r.entries@.len() == 0,
            r.version == 1,
    {
        ThumbnailCache { entries: Vec::new(), version: 1 }
    }

    /// Position of the entry stored under `key`.
    pub fn find(&self, key: &str) -> (r: Option<usize>)
        ensures
            r matches Some(i) ==> i < self.entries@.len() && self.entries@[i as int].0@ == key@,
            r is None ==> forall|j: int| 0 <= j < self.entries@.len() ==> self.entries@[j].0@ != key@,
    {
        let n = self.entries.len();
        let mut i: usize = 0;
        while i < n
            invariant
                n == self.entries@.len(),
                i <= n,
                forall|j: int| 0 <= j < i ==> self.entries@[j].0@ != key@,
            decreases n - i,
        {
            if str_eq(self.entries[i].0.as_str(), key) {
                return Some(i);
            }
            i = i + 1;
        }
        None
    }

    /// The thumbnail file recorded under `key`, whose presence on disk the
    /// lookup protocol asks about.
    pub fn entry_path(&self, key: &str) -> (r: Option<String>)
        ensures
            r matches Some(p) ==> exists|i: int|
                0 <= i < self.entries@.len() && self.entries@[i].0@ == key@ && p@
                    == self.entries@[i].1.thumbnail_path@,
            r is None ==> forall|j: int| 0 <= j < self.entries@.len() ==> self.entries@[j].0@ != key@,
    {
        match self.find(key) {
            Some(i) => Some(self.entries[i].1.thumbnail_path.clone()),
            None => None,
        }
    }

    /// Removes the entries flagged in `drop` and returns them in order.
    fn remove_flagged(&mut self, drop: &Vec<bool>) -> (r: Vec<(String, ThumbnailCacheEntry)>)
        requires
            old(self).wf(),
            drop@.len() == old(self).entries@.len(),
        ensures
            final(self).wf(),
            final(self).version == old(self).version,
            final(self).entries@ == kept(old(self).entries@, drop@),
            r@ == dropped(old(self).entries@, drop@),
    {
        let ghost s = self.entries@;
        let ghost d = drop@;
        let n = self.entries.len();
        let mut removed: Vec<(String, ThumbnailCacheEntry)> = Vec::new();
        let mut i: usize = n;
        assert(s.subrange(n as int, n as int) =~= Seq::<(String, ThumbnailCacheEntry)>::empty());
        assert(s.subrange(0, n as int) =~= s);
        while i > 0
            invariant
                n == s.len(),
                d.len() == n,
                d == drop@,
                i <= n,
                unique_keys(self.entries@),
                self.version == old(self).version,
                self.entries@ == s.subrange(0, i as int) + kept(
                    s.subrange(i as int, n as int),
                    d.subrange(i as int, n as int),
                ),
                removed@ == dropped(s.subrange(i as int, n as int), d.subrange(i as int, n as int)),
            decreases i,
        {
            let j = i - 1;
            let ghost tail = s.subrange(i as int, n as int);
            let ghost dtail = d.subrange(i as int, n as int);
            assert(s.subrange(j as int, n as int).drop_first() =~= tail);
            assert(d.subrange(j as int, n as int).drop_first() =~= dtail);
            assert(s.subrange(j as int, n as int)[0] == s[j as int]);
            assert(d.subrange(j as int, n as int)[0] == d[j as int]);
            if drop[j] {
                proof {
                    lemma_unique_remove(self.entries@, j as int);
                }
                let e = self.entries.remove(j);
                removed.insert(0, e);
                assert(self.entries@ =~= s.subrange(0, j as int) + kept(
                    s.subrange(j as int, n as int),
                    d.subrange(j as int, n as int),
                ));
                assert(removed@ =~= dropped(s.subrange(j as int, n as int), d.subrange(j as int, n as int)));
            } else {
                assert(self.entries@ =~= s.subrange(0, j as int) + kept(
                    s.subrange(j as int, n as int),
                    d.subrange(j as int, n as int),
                ));
                assert(removed@ =~= dropped(s.subrange(j as int, n as int), d.subrange(j as int, n as int)));
            }
            i = j;
        }
        assert(s.subrange(0, 0) =~= Seq::<(String, ThumbnailCacheEntry)>::empty());
        assert(s.subrange(0, n as int) =~= s);
        assert(d.subrange(0, n as int) =~= d);
        assert(self.entries@ =~= kept(s, d));
        removed
    }

    /// Drops the entries whose thumbnail file is gone; `present[i]` reports
    /// whether the file of entry `i` exists.
    pub fn retain_present(&mut self, present: &Vec<bool>)
        requires
            old(self).wf(),
            present@.len() == old(self).entries@.len(),
        ensures
            final(self).wf(),
            final(self).version == old(self).version,
            final(self).entries@ == kept(old(self).entries@, present@.map_values(|b: bool| !b)),
    {
        let n = present.len();
        let mut drop: Vec<bool> = Vec::new();
        let mut i: usize = 0;
        while i < n
            invariant
                n == present@.len(),
                i <= n,
                drop@ == present@.subrange(0, i as int).map_values(|b: bool| !b),
            decreases n - i,
        {
            drop.push(!present[i]);
            i = i + 1;
            assert(drop@ =~= present@.subrange(0, i as int).map_values(|b: bool| !b));
        }
        assert(present@.subrange(0, n as int) =~= present@);
        let _ = self.remove_flagged(&drop);
    }

    /// Looks up `key` for a thumbnail request: with its file present the
    /// entry is touched and its path returned; with its file gone the entry
    /// is purged; either way without it the answer is a miss.
    pub fn record_access(&mut self, key: &str, file_exists: bool, now: u64) -> (r: Option<String>)
        requires
            old(self).wf(),
        ensures
            final(self).wf(),
            final(self).version == old(self).version,
            (forall|j: int| 0 <= j < old(self).entries@.len() ==> old(self).entries@[j].0@ != key@)
                ==> r is None && final(self).entries@ == old(self).entries@,
            forall|i: int|
                0 <= i < old(self).entries@.len() && old(self).entries@[i].0@ == key@ ==> {
                    let (k, e) = #[trigger] old(self).entries@[i];
                    if file_exists {
                        &&& r matches Some(p) && p@ == e.thumbnail_path@
                        &&& final(self).entries@ == old(self).entries@.update(
                            i,
                            (k, ThumbnailCacheEntry { last_accessed: now, ..e }),
                        )
                    } else {
                        &&& r is None
                        &&& final(self).entries@ == old(self).entries@.remove(i)
                    }
                },
    {
        match self.find(key) {
            None => None,
            Some(i) => {
                let (k, mut e) = self.entries.remove(i);
                if file_exists {
                    let path = e.thumbnail_path.clone();
                    e.last_accessed = now;
                    self.entries.insert(i, (k, e));
                    Some(path)
                } else {
                    None
                }
            },
        }
    }

    /// Stores `entry` under `key`, replacing an entry of the same key.
    pub fn insert_entry(&mut self, key: String, entry: ThumbnailCacheEntry)
        requires
            old(self).wf(),
        ensures
            final(self).wf(),
            final(self).version == old(self).version,
            stored(old(self).entries@, key, entry, final(self).entries@),
    {
        let ghost s = self.entries@;
        match self.find(key.as_str()) {
            Some(i) => {
                let ghost k = key;
                let _ = self.entries.remove(i);
                self.entries.insert(i, (key, entry));
                assert(self.entries@ =~= s.update(i as int, (k, entry)));
                assert(unique_keys(self.entries@)) by {
                    assert forall|a: int, b: int|
                        0 <= a < self.entries@.len() && 0 <= b < self.entries@.len() && a != b implies self.entries@[a].0@
                        != self.entries@[b].0@ by {
                        if a != i && b != i {
                            assert(self.entries@[a] == s[a]);
                            assert(self.entries@[b] == s[b]);
                        } else if a == i {
                            assert(self.entries@[b] == s[b]);
                        } else {
                            assert(self.entries@[a] == s[a]);
                        }
                    }
                }
            },
            None => {
                let ghost k = key;
                self.entries.push((key, entry));
                assert(self.entries@ =~= s.push((k, entry)));
            },
        }
    }

    /// Removes least recently accessed entries until at most `max_entries`
    /// remain with a total size of at most `max_size_bytes`, and returns them
    /// oldest first; the caller deletes their files.
    pub fn evict_lru_entries(&mut self, max_entries: usize, max_size_bytes: u64) -> (r: Vec<
        (String, ThumbnailCacheEntry),
    >)
        requires
            old(self).wf(),
        ensures
            final(self).wf(),
            final(self).version == old(self).version,
            evicted(old(self).entries@, final(self).entries@, r@, max_entries, max_size_bytes),
    {
        let ghost s0 = self.entries@;
        let n = self.entries.len();
        let mut size: u128 = 0;
        let mut i: usize = 0;
        while i < n
            invariant
                n == self.entries@.len(),
                self.entries@ == s0,
                i <= n,
                size == total_size(s0.subrange(0, i as int)),
            decreases n - i,
        {
            proof {
                lemma_total_size_bound(s0.subrange(0, i as int));
                assert(s0.subrange(0, i + 1).drop_last() =~= s0.subrange(0, i as int));
                assert(i * (u64::MAX as nat) + (u64::MAX as nat) <= (n as nat) * (u64::MAX as nat))
                    by (nonlinear_arith)
                    requires
                        i < n,
                ;
                assert((n as nat) * (u64::MAX as nat) <= (u64::MAX as nat) * (u64::MAX as nat))
                    by (nonlinear_arith)
                    requires
                        n <= u64::MAX,
                ;
            }
            size = size + self.entries[i].1.file_size as u128;
            i = i + 1;
        }
        assert(s0.subrange(0, n as int) =~= s0);
        let mut out: Vec<(String, ThumbnailCacheEntry)> = Vec::new();
        while self.entries.len() > max_entries || size > max_size_bytes as u128
            invariant
                unique_keys(self.entries@),
                self.version == old(self).version,
                size == total_size(self.entries@),
                total_size(self.entries@) + total_size(out@) == total_size(s0),
                self.entries@.len() + out@.len() == s0.len(),
                forall|x| self.entries@.contains(x) ==> s0.contains(x),
                forall|x| out@.contains(x) ==> s0.contains(x),
                forall|x| s0.contains(x) ==> self.entries@.contains(x) || out@.contains(x),
                forall|a: int, b: int|
                    0 <= a < out@.len() && 0 <= b < self.entries@.len() ==> out@[a].1.last_accessed
                        <= self.entries@[b].1.last_accessed,
                forall|a: int, b: int|
                    0 <= a < b < out@.len() ==> out@[a].1.last_accessed <= out@[b].1.last_accessed,
                out@.len() == 0 ==> self.entries@ == s0,
                out@.len() > 0 ==> !within_bounds(
                    self.entries@.len() + 1,
                    total_size(self.entries@) + out@.last().1.file_size as nat,
                    max_entries,
                    max_size_bytes,
                ),
            decreases self.entries@.len(),
        {
            let ghost cur = self.entries@;
            let ghost prev = out@;
            let len = self.entries.len();
            if len == 0 {
                assert(false);
            }
            let mut m: usize = 0;
            let mut k: usize = 1;
            while k < len
                invariant
                    len == self.entries@.len(),
                    self.entries@ == cur,
                    m < len,
                    1 <= k <= len,
                    forall|j: int| 0 <= j < k ==> cur[m as int].1.last_accessed <= cur[j].1.last_accessed,
                decreases len - k,
            {
                if self.entries[k].1.last_accessed < self.entries[m].1.last_accessed {
                    m = k;
                }
                k = k + 1;
            }
            proof {
                lemma_total_size_remove(cur, m as int);
                lemma_unique_remove(cur, m as int);
            }
            let e = self.entries.remove(m);
            size = size - e.1.file_size as u128;
            out.push(e);
            proof {
                assert(out@.drop_last() =~= prev);
                assert forall|x| self.entries@.contains(x) implies s0.contains(x) by {
                    let j = choose|j: int| 0 <= j < self.entries@.len() && self.entries@[j] == x;
                    let j2 = if j < m { j } else { j + 1 };
                    assert(cur[j2] == x);
                    assert(cur.contains(x));
                }
                assert forall|x| out@.contains(x) implies s0.contains(x) by {
                    let j = choose|j: int| 0 <= j < out@.len() && out@[j] == x;
                    if j < prev.len() {
                        assert(prev[j] == x);
                        assert(prev.contains(x));
                    } else {
                        assert(cur[m as int] == x);
                        assert(cur.contains(x));
                    }
                }
                assert forall|x| s0.contains(x) implies self.entries@.contains(x) || out@.contains(x) by {
                    if prev.contains(x) {
                        let j = choose|j: int| 0 <= j < prev.len() && prev[j] == x;
                        assert(out@[j] == x);
                    } else {
                        assert(cur.contains(x));
                        let j = choose|j: int| 0 <= j < cur.len() && cur[j] == x;
                        if j == m {
                            assert(out@[prev.len() as int] == x);
                        } else if j < m {
                            assert(self.entries@[j] == x);
                        } else {
                            assert(self.entries@[j - 1] == x);
                        }
                    }
                }
                assert forall|a: int, b: int|
                    0 <= a < out@.len() && 0 <= b < self.entries@.len() implies out@[a].1.last_accessed
                        <= self.entries@[b].1.last_accessed by {
                    let b2 = if b < m { b } else { b + 1 };
                    assert(self.entries@[b] == cur[b2]);
                    if a < prev.len() {
                        assert(out@[a] == prev[a]);
                    }
                }
                assert forall|a: int, b: int|
                    0 <= a < b < out@.len() implies out@[a].1.last_accessed <= out@[b].1.last_accessed by {
                    if b < prev.len() {
                        assert(out@[a] == prev[a]);
                        assert(out@[b] == prev[b]);
                    } else {
                        assert(out@[a] == prev[a]);
                        assert(out@[b] == cur[m as int]);
                    }
                }
            }
        }
        out
    }

    /// Stores a freshly extracted thumbnail and evicts down to the cache
    /// bounds; returns the evicted entries, whose files the caller deletes.
    pub fn add_thumbnail(&mut self, key: String, entry: ThumbnailCacheEntry) -> (r: Vec<
        (String, ThumbnailCacheEntry),
    >)
        requires
            old(self).wf(),
        ensures
            final(self).wf(),
            final(self).version == old(self).version,
            exists|mid: Seq<(String, ThumbnailCacheEntry)>|
                stored(old(self).entries@, key, entry, mid) && evicted(
                    mid,
                    final(self).entries@,
                    r@,
                    MAX_ENTRIES,
                    MAX_CACHE_BYTES,
                ),
    {
        self.insert_entry(key, entry);
        let ghost mid = self.entries@;
        let r = self.evict_lru_entries(MAX_ENTRIES, MAX_CACHE_BYTES);
        assert(stored(old(self).entries@, key, entry, mid));
        r
    }
}

/// `after` and `out` are what LRU eviction leaves of `before` and removes
/// from it: a split of its entries within both bounds, nothing removed that
/// was accessed later than something kept, removals oldest first, and no
/// removal once the bounds held.
pub open spec fn evicted(
    before: Seq<(String, ThumbnailCacheEntry)>,
    after: Seq<(String, ThumbnailCacheEntry)>,
    out: Seq<(String, ThumbnailCacheEntry)>,
    max_entries: usize,
    max_size: u64,
) -> bool {
    &&& within_bounds(after.len(), total_size(after), max_entries, max_size)
    &&& after.len() + out.len() == before.len()
    &&& total_size(after) + total_size(out) == total_size(before)
    &&& forall|x| after.contains(x) ==> before.contains(x)
    &&& forall|x| out.contains(x) ==> before.contains(x)
    &&& forall|x| before.contains(x) ==> after.contains(x) || out.contains(x)
    &&& forall|a: int, b: int|
        0 <= a < out.len() && 0 <= b < after.len() ==> out[a].1.last_accessed
            <= after[b].1.last_accessed
    &&& forall|a: int, b: int|
        0 <= a < b < out.len() ==> out[a].1.last_accessed <= out[b].1.last_accessed
    &&& out.len() == 0 ==> after == before
    &&& out.len() > 0 ==> !within_bounds(
        after.len() + 1,
        total_size(after) + out.last().1.file_size as nat,
        max_entries,
        max_size,
    )
}

/// A stored entry is the one found under its key afterwards: a second
/// request for the same unchanged video finds the thumbnail of the first.
pub proof fn lemma_stored_entry_found(
    before: Seq<(String, ThumbnailCacheEntry)>,
    key: String,
    entry: ThumbnailCacheEntry,
    after: Seq<(String, ThumbnailCacheEntry)>,
)
    requires
        unique_keys(before),
        stored(before, key, entry, after),
    ensures
        unique_keys(after),
        exists|i: int| 0 <= i < after.len() && after[i].0@ == key@,
        forall|i: int| 0 <= i < after.len() && after[i].0@ == key@ ==> after[i].1 == entry,
{
    if exists|i: int| 0 <= i < before.len() && before[i].0@ == key@ && after == before.update(i, (key, entry)) {
        let i = choose|i: int| 0 <= i < before.len() && before[i].0@ == key@ && after == before.update(i, (key, entry));
        assert(after[i].0@ == key@);
        assert forall|a: int, b: int| 0 <= a < after.len() && 0 <= b < after.len() && a != b implies after[a].0@ != after[b].0@ by {
            if a != i { assert(after[a] == before[a]); }
            if b != i { assert(after[b] == before[b]); }
        }
        assert forall|j: int| 0 <= j < after.len() && after[j].0@ == key@ implies after[j].1 == entry by {
            if j != i {
                assert(after[j] == before[j]);
            }
        }
    } else {
        let n = before.len() as int;
        assert(after[n].0@ == key@);
        assert forall|a: int, b: int| 0 <= a < after.len() && 0 <= b < after.len() && a != b implies after[a].0@ != after[b].0@ by {
            if a < n { assert(after[a] == before[a]); }
            if b < n { assert(after[b] == before[b]); }
        }
        assert forall|j: int| 0 <= j < after.len() && after[j].0@ == key@ implies after[j].1 == entry by {
            if j < n {
                assert(after[j] == before[j]);
            }
        }
    }
}

proof fn lemma_dec_nonempty(n: nat)
    ensures
        dec(n).len() >= 1,
        n >= 10 ==> dec(n).len() >= 2,
    decreases n,
{
    if n >= 10 {
        lemma_dec_nonempty(n / 10);
    }
}

proof fn lemma_digit_injective(x: nat, y: nat)
    requires
        x < 10,
        y < 10,
        digit_char(x) == digit_char(y),
    ensures
        x == y,
{
}

proof fn lemma_dec_injective(a: nat, b: nat)
    requires
        dec(a) == dec(b),
    ensures
        a == b,
    decreases a,
{
    lemma_dec_nonempty(a);
    lemma_dec_nonempty(b);
    if a >= 10 && b >= 10 {
        assert(dec(a) == dec(a / 10).push(digit_char(a % 10)));
        assert(dec(b) == dec(b / 10).push(digit_char(b % 10)));
        assert(dec(a).last() == digit_char(a % 10));
        assert(dec(b).last() == digit_char(b % 10));
        assert(dec(a).drop_last() =~= dec(a / 10));
        assert(dec(b).drop_last() =~= dec(b / 10));
        lemma_dec_injective(a / 10, b / 10);
        lemma_digit_injective(a % 10, b % 10);
    } else if a < 10 && b < 10 {
        assert(dec(a) == seq![digit_char(a)]);
        assert(dec(b) == seq![digit_char(b)]);
        assert(dec(a)[0] == digit_char(a));
        assert(dec(b)[0] == digit_char(b));
        lemma_digit_injective(a, b);
    } else {
        assert(dec(a).len() != dec(b).len());
    }
}

/// A changed modification time changes the text that is hashed into the
/// key, so an edited video is not looked up under its old key's text.
pub proof fn lemma_key_text_tracks_mtime(video_path: Seq<char>, m1: u64, m2: u64)
    requires
        m1 != m2,
    ensures
        key_text(video_path, m1) != key_text(video_path, m2),
{
    if key_text(video_path, m1) == key_text(video_path, m2) {
        let n = video_path.len() as int;
        assert(key_text(video_path, m1).subrange(n, key_text(video_path, m1).len() as int) =~= dec(m1 as nat));
        assert(key_text(video_path, m2).subrange(n, key_text(video_path, m2).len() as int) =~= dec(m2 as nat));
        lemma_dec_injective(m1 as nat, m2 as nat);
    }
}

proof fn lemma_last_within_total(s: Seq<(String, ThumbnailCacheEntry)>)
    requires
        s.len() > 0,
    ensures
        s.last().1.file_size <= total_size(s),
{
}

/// A thumbnail stored with an access time later than every cached entry's,
/// and no larger than the size bound, survives the eviction that follows
/// it: the next request for the same unchanged video finds it.
pub proof fn lemma_added_thumbnail_stays(
    before: Seq<(String, ThumbnailCacheEntry)>,
    key: String,
    entry: ThumbnailCacheEntry,
    mid: Seq<(String, ThumbnailCacheEntry)>,
    after: Seq<(String, ThumbnailCacheEntry)>,
    out: Seq<(String, ThumbnailCacheEntry)>,
    max_entries: usize,
    max_size: u64,
)
    requires
        stored(before, key, entry, mid),
        evicted(mid, after, out, max_entries, max_size),
        max_entries >= 1,
        entry.file_size <= max_size,
        forall|i: int| 0 <= i < before.len() ==> #[trigger] before[i].1.last_accessed
            < entry.last_accessed,
    ensures
        after.contains((key, entry)),
{
    let ne = (key, entry);
    assert(mid.contains(ne)) by {
        if exists|i: int|
            0 <= i < before.len() && before[i].0@ == key@ && mid == before.update(i, (key, entry)) {
            let i = choose|i: int|
                0 <= i < before.len() && before[i].0@ == key@ && mid == before.update(i, (key, entry));
            assert(mid[i] == ne);
        } else {
            assert(mid[before.len() as int] == ne);
        }
    }
    assert forall|x: (String, ThumbnailCacheEntry)| mid.contains(x) && x != ne implies x.1.last_accessed
        < entry.last_accessed by {
        let j = choose|j: int| 0 <= j < mid.len() && mid[j] == x;
        if exists|i: int|
            0 <= i < before.len() && before[i].0@ == key@ && mid == before.update(i, (key, entry)) {
            let i = choose|i: int|
                0 <= i < before.len() && before[i].0@ == key@ && mid == before.update(i, (key, entry));
            assert(j != i);
            assert(mid[j] == before[j]);
        } else {
            assert(j < before.len());
            assert(mid[j] == before[j]);
        }
    }
    if !after.contains(ne) {
        assert(out.contains(ne));
        let a = choose|a: int| 0 <= a < out.len() && out[a] == ne;
        assert(after.len() == 0) by {
            if after.len() > 0 {
                assert(out[a].1.last_accessed <= after[0].1.last_accessed);
                assert(after.contains(after[0]));
                assert(mid.contains(after[0]));
            }
        }
        assert(after =~= Seq::<(String, ThumbnailCacheEntry)>::empty());
        let l = out.len() - 1;
        if a < l {
            assert(out[a].1.last_accessed <= out[l].1.last_accessed);
        }
        assert(out.contains(out[l]));
        assert(mid.contains(out[l]));
        assert(out[l] == ne);
        assert(out.last() == ne);
    }
}

/// One entry over the count bound, with the size bound met, evicts exactly
/// one entry, one accessed no later than any that stays; when one entry `o`
/// is strictly the least recently accessed, the evicted entry is `o` and
/// every other entry stays.
pub proof fn lemma_one_over_count_evicts_one(
    before: Seq<(String, ThumbnailCacheEntry)>,
    after: Seq<(String, ThumbnailCacheEntry)>,
    out: Seq<(String, ThumbnailCacheEntry)>,
    max_entries: usize,
    max_size: u64,
    o: (String, ThumbnailCacheEntry),
)
    requires
        evicted(before, after, out, max_entries, max_size),
        before.len() == max_entries + 1,
        total_size(before) <= max_size,
    ensures
        out.len() == 1,
        after.len() == max_entries,
        forall|b: int| 0 <= b < after.len() ==> out[0].1.last_accessed <= after[b].1.last_accessed,
        before.contains(o) && (forall|x: (String, ThumbnailCacheEntry)|
            before.contains(x) && x != o ==> o.1.last_accessed < x.1.last_accessed) ==> {
            &&& out[0] == o
            &&& forall|x: (String, ThumbnailCacheEntry)|
                before.contains(x) && x != o ==> after.contains(x)
        },
{
    if out.len() == 0 {
        assert(after.len() == before.len());
    } else {
        lemma_last_within_total(out);
    }
    if before.contains(o) && (forall|x: (String, ThumbnailCacheEntry)|
        before.contains(x) && x != o ==> o.1.last_accessed < x.1.last_accessed) {
        assert(out.contains(out[0]));
        assert(before.contains(out[0]));
        if out[0] != o {
            if after.contains(o) {
                let b = choose|b: int| 0 <= b < after.len() && after[b] == o;
                assert(out[0].1.last_accessed <= after[b].1.last_accessed);
            } else {
                assert(out.contains(o));
                let a = choose|a: int| 0 <= a < out.len() && out[a] == o;
                assert(a == 0);
            }
        }
        assert forall|x: (String, ThumbnailCacheEntry)|
            before.contains(x) && x != o implies after.contains(x) by {
            if !after.contains(x) {
                assert(out.contains(x));
                let a = choose|a: int| 0 <= a < out.len() && out[a] == x;
                assert(a == 0);
            }
        }
    }
}

/// The creation-time cutoff of a cleanup: `now` less the maximum age (seven
/// days when not given), and zero before the epoch.
pub open spec fn cutoff(now: u64, max_age_days: Option<u32>) -> u64 {
    let days: nat = match max_age_days {
        Some(d) => d as nat,
        None => DEFAULT_MAX_AGE_DAYS as nat,
    };
    let span = days * DAY_SECONDS;
    if span >= now { 0 } else { (now - span) as u64 }
}

pub fn cleanup_cutoff(now: u64, max_age_days: Option<u32>) -> (r: u64)
    ensures
        r == cutoff(now, max_age_days),
{
    let days: u32 = match max_age_days {
        Some(d) => d,
        None => DEFAULT_MAX_AGE_DAYS,
    };
    let span: u64 = days as u64 * DAY_SECONDS;
    now.saturating_sub(span)
}

/// The maximum age in days a cleanup applies (seven when not given).
pub open spec fn age_days(max_age_days: Option<u32>) -> nat {
    match max_age_days {
        Some(d) => d as nat,
        None => DEFAULT_MAX_AGE_DAYS as nat,
    }
}

/// An entry is too old to keep: every entry with a maximum age of zero,
/// otherwise one created before the cutoff.
pub open spec fn too_old(e: ThumbnailCacheEntry, now: u64, max_age_days: Option<u32>) -> bool {
    age_days(max_age_days) == 0 || e.created_at < cutoff(now, max_age_days)
}

/// Flags of the entries cleanup drops: too old, or with their file gone.
pub open spec fn expired_flags(
    s: Seq<(String, ThumbnailCacheEntry)>,
    now: u64,
    max_age_days: Option<u32>,
    present: Seq<bool>,
) -> Seq<bool> {
    Seq::new(s.len(), |i: int| too_old(s[i].1, now, max_age_days) || !present[i])
}

impl ThumbnailCache {
    /// Removes the entries that are too old at `now` for `max_age_days`, or
    /// whose file is gone (`present[i]` for entry `i`), and returns them in
    /// order; the caller deletes their files.
    pub fn remove_expired(&mut self, now: u64, max_age_days: Option<u32>, present: &Vec<bool>) -> (r:
        Vec<(String, ThumbnailCacheEntry)>)
        requires
            old(self).wf(),
            present@.len() == old(self).entries@.len(),
        ensures
            final(self).wf(),
            final(self).version == old(self).version,
            final(self).entries@ == kept(
                old(self).entries@,
                expired_flags(old(self).entries@, now, max_age_days, present@),
            ),
            r@ == dropped(
                old(self).entries@,
                expired_flags(old(self).entries@, now, max_age_days, present@),
            ),
    {
        let cutoff = cleanup_cutoff(now, max_age_days);
        let every = match max_age_days {
            Some(d) => d == 0,
            None => false,
        };
        let n = self.entries.len();
        let mut drop: Vec<bool> = Vec::new();
        let mut i: usize = 0;
        while i < n
            invariant
                n == self.entries@.len(),
                n == present@.len(),
                i <= n,
                cutoff == crate::cache::cutoff(now, max_age_days),
                every == (age_days(max_age_days) == 0),
                drop@ == expired_flags(self.entries@, now, max_age_days, present@).subrange(
                    0,
                    i as int,
                ),
            decreases n - i,
        {
            drop.push(every || self.entries[i].1.created_at < cutoff || !present[i]);
            i = i + 1;
            assert(drop@ =~= expired_flags(self.entries@, now, max_age_days, present@).subrange(
                0,
                i as int,
            ));
        }
        assert(drop@ =~= expired_flags(self.entries@, now, max_age_days, present@));
        self.remove_flagged(&drop)
    }

    /// Whether a file of the cache directory is an orphan to delete: a
    /// thumbnail image (`jpg`) that no entry refers to, and not the index
    /// file itself.
    pub fn is_orphan(&self, path: &str, file_name: Option<&str>, extension: Option<&str>) -> (r:
        bool)
        ensures
            r == (!(file_name matches Some(f) && f@ == "cache.json"@) && (extension matches Some(
                e,
            ) && e@ == "jpg"@) && forall|j: int|
                0 <= j < self.entries@.len() ==> self.entries@[j].1.thumbnail_path@ != path@),
    {
        if let Some(f) = file_name {
            if str_eq(f, "cache.json") {
                return false;
            }
        }
        let is_jpg = match extension {
            Some(e) => str_eq(e, "jpg"),
            None => false,
        };
        if !is_jpg {
            return false;
        }
        let n = self.entries.len();
        let mut i: usize = 0;
        while i < n
            invariant
                n == self.entries@.len(),
                i <= n,
                forall|j: int| 0 <= j < i ==> self.entries@[j].1.thumbnail_path@ != path@,
            decreases n - i,
        {
            if str_eq(self.entries[i].1.thumbnail_path.as_str(), path) {
                return false;
            }
            i = i + 1;
        }
        true
    }
}

/// What deleting a thumbnail file gave.
#[derive(Clone, Copy, Debug, PartialEq, Eq, Structural)]
pub enum DeletionOutcome {
    /// The file was deleted.
    Deleted,
    /// There was no file to delete.
    Missing,
    /// The file could not be deleted.
    Failed,
}

/// Thumbnails cleaned and bytes freed by a cleanup; both saturate.
pub struct CleanupTally {
    pub cleaned: u64,
    pub freed_bytes: u64,
}

/// Entries that count as cleaned: deleted, or already without a file.
pub open spec fn cleaned_count(outcomes: Seq<DeletionOutcome>) -> nat
    decreases outcomes.len(),
{
    if outcomes.len() == 0 {
        0
    } else {
        cleaned_count(outcomes.drop_last()) + if outcomes.last() == DeletionOutcome::Failed {
            0nat
        } else {
            1nat
        }
    }
}

/// Bytes freed: the sizes of the entries whose file was deleted.
pub open spec fn freed_size(s: Seq<(String, ThumbnailCacheEntry)>, outcomes: Seq<DeletionOutcome>) -> nat
    decreases s.len(),
{
    if s.len() == 0 || outcomes.len() != s.len() {
        0
    } else {
        freed_size(s.drop_last(), outcomes.drop_last()) + if outcomes.last()
            == DeletionOutcome::Deleted {
            s.last().1.file_size as nat
        } else {
            0nat
        }
    }
}

pub open spec fn saturated(n: nat) -> u64 {
    if n > u64::MAX { u64::MAX } else { n as u64 }
}

impl CleanupTally {
    pub fn new() -> (r: CleanupTally)
        ensures
            r.cleaned == 0,
            r.freed_bytes == 0,
    {
        CleanupTally { cleaned: 0, freed_bytes: 0 }
    }

    /// Counts one deletion attempt on a file of `size` bytes.
    pub fn record(&mut self, outcome: DeletionOutcome, size: u64)
        ensures
            final(self).cleaned == if outcome == DeletionOutcome::Failed {
                old(self).cleaned
            } else {
                saturated((old(self).cleaned + 1) as nat)
            },
            final(self).freed_bytes == if outcome == DeletionOutcome::Deleted {
                saturated((old(self).freed_bytes + size) as nat)
            } else {
                old(self).freed_bytes
            },
    {
        match outcome {
            DeletionOutcome::Deleted => {
                self.cleaned = self.cleaned.saturating_add(1);
                self.freed_bytes = self.freed_bytes.saturating_add(size);
            },
            DeletionOutcome::Missing => {
                self.cleaned = self.cleaned.saturating_add(1);
            },
            DeletionOutcome::Failed => {},
        }
    }
}

/// Tallies the deletions of the files of removed entries; `outcomes[i]`
/// is what deleting the file of `removed[i]` gave.
pub fn tally_removed(removed: &Vec<(String, ThumbnailCacheEntry)>, outcomes: &Vec<DeletionOutcome>) -> (r:
    CleanupTally)
    requires
        removed@.len() == outcomes@.len(),
    ensures
        r.cleaned == saturated(cleaned_count(outcomes@)),
        r.freed_bytes == saturated(freed_size(removed@, outcomes@)),
{
    let n = removed.len();
    let mut t = CleanupTally::new();
    let mut i: usize = 0;
    while i < n
        invariant
            n == removed@.len(),
            n == outcomes@.len(),
            i <= n,
            t.cleaned == saturated(cleaned_count(outcomes@.subrange(0, i as int))),
            t.freed_bytes == saturated(
                freed_size(removed@.subrange(0, i as int), outcomes@.subrange(0, i as int)),
            ),
        decreases n - i,
    {
        assert(outcomes@.subrange(0, i + 1).drop_last() =~= outcomes@.subrange(0, i as int));
        assert(removed@.subrange(0, i + 1).drop_last() =~= removed@.subrange(0, i as int));
        t.record(outcomes[i], removed[i].1.file_size);
        i = i + 1;
    }
    assert(outcomes@.subrange(0, n as int) =~= outcomes@);
    assert(removed@.subrange(0, n as int) =~= removed@);
    t
}

proof fn lemma_kept_dropped_all(s: Seq<(String, ThumbnailCacheEntry)>, drop: Seq<bool>)
    requires
        drop.len() == s.len(),
        forall|i: int| 0 <= i < drop.len() ==> drop[i],
    ensures
        kept(s, drop) == Seq::<(String, ThumbnailCacheEntry)>::empty(),
        dropped(s, drop) == s,
    decreases s.len(),
{
    if s.len() > 0 {
        lemma_kept_dropped_all(s.drop_first(), drop.drop_first());
        assert(dropped(s, drop) =~= s);
        assert(kept(s, drop) =~= Seq::<(String, ThumbnailCacheEntry)>::empty());
    }
}

proof fn lemma_freed_all(s: Seq<(String, ThumbnailCacheEntry)>, outcomes: Seq<DeletionOutcome>)
    requires
        outcomes.len() == s.len(),
        forall|i: int| 0 <= i < outcomes.len() ==> outcomes[i] == DeletionOutcome::Deleted,
    ensures
        freed_size(s, outcomes) == total_size(s),
        cleaned_count(outcomes) == s.len(),
    decreases s.len(),
{
    if s.len() > 0 {
        lemma_freed_all(s.drop_last(), outcomes.drop_last());
    }
}

/// Cleanup with a maximum age of zero days removes every entry, and when
/// every file is deleted it cleans each of them and frees the sum of their
/// sizes.
pub proof fn lemma_cleanup_age_zero(
    s: Seq<(String, ThumbnailCacheEntry)>,
    now: u64,
    present: Seq<bool>,
    outcomes: Seq<DeletionOutcome>,
)
    requires
        present.len() == s.len(),
        outcomes.len() == s.len(),
        forall|i: int| 0 <= i < outcomes.len() ==> outcomes[i] == DeletionOutcome::Deleted,
    ensures
        kept(s, expired_flags(s, now, Some(0u32), present)) == Seq::<(String, ThumbnailCacheEntry)>::empty(),
        dropped(s, expired_flags(s, now, Some(0u32), present)) == s,
        freed_size(s, outcomes) == total_size(s),
        cleaned_count(outcomes) == s.len(),
{
    lemma_kept_dropped_all(s, expired_flags(s, now, Some(0u32), present));
    lemma_freed_all(s, outcomes);
}

/// Freed bytes in mebibytes, to hundredths, halves rounded to even.
pub open spec fn mebibyte_hundredths(bytes: u64) -> nat {
    let scaled = (bytes as nat) * 100;
    let q = scaled / 1_048_576;
    let rem = scaled % 1_048_576;
    if rem * 2 > 1_048_576 || (rem * 2 == 1_048_576 && q % 2 == 1) {
        q + 1
    } else {
        q
    }
}

/// The report of a cleanup.
pub open spec fn summary_text(t: CleanupTally) -> Seq<char> {
    "Cleaned up "@ + dec(t.cleaned as nat) + " thumbnails, freed "@ + fixed(
        mebibyte_hundredths(t.freed_bytes),
        2,
    ) + " MB"@
}

pub fn cleanup_summary(tally: &CleanupTally) -> (r: String)
    ensures
        r@ == summary_text(*tally),
{
    let scaled: u128 = tally.freed_bytes as u128 * 100;
    let q: u128 = scaled / 1_048_576;
    let rem: u128 = scaled % 1_048_576;
    let h: u128 = if rem * 2 > 1_048_576 || (rem * 2 == 1_048_576 && q % 2 == 1) {
        q + 1
    } else {
        q
    };
    assert(h <= u64::MAX);
    let mut out = String::from_str("Cleaned up ");
    push_dec(&mut out, tally.cleaned);
    out.append(" thumbnails, freed ");
    push_fixed(&mut out, h as u64, 2);
    out.append(" MB");
    out
}

/// The file name of the thumbnail stored under `key`.
pub fn thumbnail_file_name(key: &str) -> (r: String)
    ensures
        r@ == key@ + ".jpg"@,
{
    let mut r = String::from_str(key);
    r.append(".jpg");
    r
}

/// A fresh entry for a thumbnail extracted at `now`.
pub fn new_entry(video_path: String, video_mtime: u64, thumbnail_path: String, file_size: u64, now: u64) -> (r:
    ThumbnailCacheEntry)
    ensures
        r.video_path == video_path,
        r.video_mtime == video_mtime,
        r.thumbnail_path == thumbnail_path,
        r.created_at == now,
        r.last_accessed == now,
        r.file_size == file_size,
{
    ThumbnailCacheEntry {
        video_path,
        video_mtime,
        thumbnail_path,
        created_at: now,
        last_accessed: now,
        file_size,
    }
}

/// The message of a failed thumbnail extraction.
pub open spec fn extraction_error_text(f: FfmpegFault) -> Seq<char> {
    match f {
        FfmpegFault::MissingBinary(m) => "FFmpeg not found: "@ + m,
        FfmpegFault::UnsupportedFormat(m) => "Unsupported format: "@ + m,
        _ => "Failed to extract thumbnail: "@ + fault_text(f),
    }
}

pub fn extraction_error_message(e: &FfmpegError) -> (r: String)
    ensures
        r@ == extraction_error_text(e@),
{
    match e {
        FfmpegError::MissingBinary(m) => {
            let mut r = String::from_str("FFmpeg not found: ");
            r.append(m.as_str());
            r
        },
        FfmpegError::UnsupportedFormat(m) => {
            let mut r = String::from_str("Unsupported format: ");
            r.append(m.as_str());
            r
        },
        _ => {
            let mut r = String::from_str("Failed to extract thumbnail: ");
            r.append(e.message().as_str());
            r
        },
    }
}

} // verus!
