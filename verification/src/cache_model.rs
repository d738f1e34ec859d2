//! The mathematical model of the file cache: what an entry and a cache are,
//! how each operation changes them, and the facts about sizes that the
//! accounting rests on.

use vstd::prelude::*;
use crate::paths::{cache_key, fast_key, index_key, lemma_root_paths_share_a_key};

verus! {

/// The largest file that is ever cached, in bytes (10 MiB).
pub const MAX_FILE_SIZE: usize = 10 * 1024 * 1024;

/// A cached file as a value: its bytes and the bookkeeping kept with them.
pub struct CachedFileView {
    pub content: Seq<u8>,
    pub mime_type: Seq<char>,
    pub last_modified: u64,
    pub access_count: usize,
    pub last_access: u64,
    pub size: usize,
}

impl CachedFileView {
    /// The recorded size is the length of the content.
    pub open spec fn wf(self) -> bool {
        self.size == self.content.len()
    }

    /// An entry that was created at second `now` and never read.
    pub open spec fn fresh(
        content: Seq<u8>,
        mime_type: Seq<char>,
        last_modified: u64,
        now: u64,
    ) -> CachedFileView {
        CachedFileView {
            content,
            mime_type,
            last_modified,
            access_count: 0,
            last_access: now,
            size: content.len() as usize,
        }
    }

    /// The entry after one more read at second `now`. The counter wraps.
    pub open spec fn touched(self, now: u64) -> CachedFileView {
        CachedFileView {
            access_count: if self.access_count == usize::MAX {
                0
            } else {
                (self.access_count + 1) as usize
            },
            last_access: now,
            ..self
        }
    }

    /// Seconds since the last read, as seen at second `now`. A last read that
    /// lies in the future counts as age zero.
    pub open spec fn age(self, now: u64) -> nat {
        if now >= self.last_access {
            (now - self.last_access) as nat
        } else {
            0
        }
    }

    /// The entry is older than `max_age` seconds at second `now`.
    pub open spec fn expired(self, now: u64, max_age: u64) -> bool {
        self.age(now) > max_age
    }
}

/// The sum of the sizes of all entries of `m`.
pub open spec fn sum_sizes(m: Map<Seq<char>, CachedFileView>) -> nat
    decreases m.dom().len(),
    when m.dom().finite()
{
    if m.dom().len() == 0 {
        0
    } else {
        let k = m.dom().choose();
        m[k].size as nat + sum_sizes(m.remove(k))
    }
}

/// The map without entries.
pub open spec fn no_entries() -> Map<Seq<char>, CachedFileView> {
    Map::empty()
}

/// The entries of `m` that are not expired at second `now`.
pub open spec fn keep_fresh(m: Map<Seq<char>, CachedFileView>, now: u64, max_age: u64) -> Map<
    Seq<char>,
    CachedFileView,
> {
    Map::new(|k: Seq<char>| m.contains_key(k) && !m[k].expired(now, max_age), |k: Seq<char>| m[k])
}

/// Taking one entry out lowers the sum by that entry's size.
pub proof fn lemma_sum_remove(m: Map<Seq<char>, CachedFileView>, key: Seq<char>)
    requires
        m.dom().finite(),
        m.contains_key(key),
    ensures
        sum_sizes(m) == m[key].size + sum_sizes(m.remove(key)),
    decreases m.dom().len(),
{
    let k = m.dom().choose();
    assert(m.dom().contains(key));
    assert(m.dom().len() > 0) by {
        if m.dom().len() == 0 {
            assert(m.dom() =~= Set::empty());
        }
    }
    if k != key {
        let rest = m.remove(k);
        assert(rest.contains_key(key));
        lemma_sum_remove(rest, key);
        let other = m.remove(key);
        assert(other.contains_key(k));
        lemma_sum_remove(other, k);
        assert(rest.remove(key) =~= other.remove(k));
    }
}

/// Storing an entry changes the sum by the new size, less the size of the
/// entry it replaces.
pub proof fn lemma_sum_insert(
    m: Map<Seq<char>, CachedFileView>,
    key: Seq<char>,
    entry: CachedFileView,
)
    requires
        m.dom().finite(),
    ensures
        sum_sizes(m.insert(key, entry)) + (if m.contains_key(key) {
            m[key].size as nat
        } else {
            0
        }) == sum_sizes(m) + entry.size,
{
    let after = m.insert(key, entry);
    lemma_sum_remove(after, key);
    if m.contains_key(key) {
        lemma_sum_remove(m, key);
        assert(after.remove(key) =~= m.remove(key));
    } else {
        assert(after.remove(key) =~= m);
    }
}

/// No entry is larger than the sum.
pub proof fn lemma_sum_bounds_entry(m: Map<Seq<char>, CachedFileView>, key: Seq<char>)
    requires
        m.dom().finite(),
        m.contains_key(key),
    ensures
        m[key].size <= sum_sizes(m),
{
    lemma_sum_remove(m, key);
}

/// Sweeping keeps a finite map finite.
pub proof fn lemma_keep_fresh_finite(m: Map<Seq<char>, CachedFileView>, now: u64, max_age: u64)
    requires
        m.dom().finite(),
    ensures
        keep_fresh(m, now, max_age).dom().finite(),
        keep_fresh(m, now, max_age).dom().subset_of(m.dom()),
{
    let kept = keep_fresh(m, now, max_age);
    assert(kept.dom().subset_of(m.dom()));
    vstd::set_lib::lemma_len_subset(kept.dom(), m.dom());
}

/// The cache as a value: its entries by key, the running total of their
/// sizes, the budget, and whether caching is on.
pub struct FileCacheView {
    pub entries: Map<Seq<char>, CachedFileView>,
    pub total_size: u64,
    pub max_size: u64,
    pub enabled: bool,
}

impl FileCacheView {
    /// Every entry records its true size and respects the per-file ceiling;
    /// the running total is the sum of the entries' sizes and within budget;
    /// a disabled cache holds nothing.
    pub open spec fn wf(self) -> bool {
        &&& self.entries.dom().finite()
        &&& forall|k: Seq<char>| #[trigger]
            self.entries.contains_key(k) ==> self.enabled && self.entries[k].wf()
                && self.entries[k].size <= MAX_FILE_SIZE
        &&& self.total_size == sum_sizes(self.entries)
        &&& self.total_size <= self.max_size
    }

    /// An empty cache with the given budget.
    pub open spec fn empty(max_size: u64, enabled: bool) -> FileCacheView {
        FileCacheView { entries: Map::empty(), total_size: 0, max_size, enabled }
    }

    /// Content of `len` bytes may be stored: caching is on, the content is
    /// within the per-file ceiling, and the total would stay within budget.
    pub open spec fn admits(self, len: nat) -> bool {
        &&& self.enabled
        &&& len <= MAX_FILE_SIZE
        &&& self.total_size + len <= self.max_size
    }

    /// The size of the entry under `key`, zero when there is none.
    pub open spec fn size_under(self, key: Seq<char>) -> nat {
        if self.entries.contains_key(key) {
            self.entries[key].size as nat
        } else {
            0
        }
    }

    /// The cache after `entry` was stored under `key`, replacing what was
    /// there.
    pub open spec fn stored(self, key: Seq<char>, entry: CachedFileView) -> FileCacheView {
        FileCacheView {
            entries: self.entries.insert(key, entry),
            total_size: (self.total_size - self.size_under(key) + entry.size) as u64,
            ..self
        }
    }

    /// The cache after an attempt to store `entry` under `key`: stored when
    /// admitted, unchanged when refused.
    pub open spec fn admitted(self, key: Seq<char>, entry: CachedFileView) -> FileCacheView {
        if self.admits(entry.size as nat) {
            self.stored(key, entry)
        } else {
            self
        }
    }

    /// The cache after an attempt to store a file that was last changed at
    /// second `last_modified`, made at second `now`.
    pub open spec fn loaded(
        self,
        key: Seq<char>,
        content: Seq<u8>,
        mime_type: Seq<char>,
        last_modified: u64,
        now: u64,
    ) -> FileCacheView {
        if self.admits(content.len()) {
            self.stored(key, CachedFileView::fresh(content, mime_type, last_modified, now))
        } else {
            self
        }
    }

    /// The cache after an attempt to insert `content` under `key` at second
    /// `now`: the entry counts as changed and read at that second.
    pub open spec fn inserted(
        self,
        key: Seq<char>,
        content: Seq<u8>,
        mime_type: Seq<char>,
        now: u64,
    ) -> FileCacheView {
        self.loaded(key, content, mime_type, now, now)
    }

    /// A lookup of `key` finds an entry.
    pub open spec fn hit(self, key: Seq<char>) -> bool {
        self.enabled && self.entries.contains_key(key)
    }

    /// What a lookup of `key` at second `now` returns: the entry with this
    /// read recorded, or nothing.
    pub open spec fn found(self, key: Seq<char>, now: u64) -> Option<CachedFileView> {
        if self.hit(key) {
            Some(self.entries[key].touched(now))
        } else {
            None
        }
    }

    /// The cache after a lookup of `key` at second `now`: on a hit the read is
    /// recorded in the stored entry.
    pub open spec fn looked_up(self, key: Seq<char>, now: u64) -> FileCacheView {
        if self.hit(key) {
            FileCacheView {
                entries: self.entries.insert(key, self.entries[key].touched(now)),
                ..self
            }
        } else {
            self
        }
    }

    /// The cache after a sweep at second `now`: the expired entries are gone
    /// and the total is the sum of the sizes of those that are left. A
    /// disabled cache is not swept.
    pub open spec fn swept(self, now: u64, max_age: u64) -> FileCacheView {
        if self.enabled {
            FileCacheView {
                entries: keep_fresh(self.entries, now, max_age),
                total_size: sum_sizes(keep_fresh(self.entries, now, max_age)) as u64,
                ..self
            }
        } else {
            self
        }
    }
}

/// Storing an admitted entry keeps the cache consistent.
pub proof fn lemma_admitted_wf(cache: FileCacheView, key: Seq<char>, entry: CachedFileView)
    requires
        cache.wf(),
        entry.wf(),
    ensures
        cache.admitted(key, entry).wf(),
        cache.admits(entry.size as nat) ==> cache.admitted(key, entry).total_size
            == cache.total_size - cache.size_under(key) + entry.size,
{
    if cache.admits(entry.size as nat) {
        lemma_sum_insert(cache.entries, key, entry);
        if cache.entries.contains_key(key) {
            lemma_sum_bounds_entry(cache.entries, key);
        }
    }
}

/// A lookup keeps the cache consistent: it changes neither the keys, nor
/// the content or size of any entry, nor the running total.
pub proof fn law_lookup_leaves_sizes_alone(cache: FileCacheView, key: Seq<char>, now: u64)
    requires
        cache.wf(),
    ensures
        cache.looked_up(key, now).wf(),
        cache.looked_up(key, now).total_size == cache.total_size,
        cache.looked_up(key, now).entries.dom() == cache.entries.dom(),
        forall|k: Seq<char>| #[trigger]
            cache.entries.contains_key(k) ==> cache.looked_up(key, now).entries[k].content
                == cache.entries[k].content && cache.looked_up(key, now).entries[k].size
                == cache.entries[k].size,
{
    assert(cache.looked_up(key, now).entries.dom() =~= cache.entries.dom());
    if cache.hit(key) {
        lemma_sum_insert(cache.entries, key, cache.entries[key].touched(now));
    }
}

/// A sweep keeps the cache consistent and never raises the running total.
pub proof fn lemma_swept_wf(cache: FileCacheView, now: u64, max_age: u64)
    requires
        cache.wf(),
    ensures
        cache.swept(now, max_age).wf(),
        cache.swept(now, max_age).total_size <= cache.total_size,
{
    if cache.enabled {
        lemma_keep_fresh_finite(cache.entries, now, max_age);
        lemma_sum_of_part(cache.entries, keep_fresh(cache.entries, now, max_age));
    }
}

/// A part of a map sums to no more than the whole.
pub proof fn lemma_sum_of_part(
    whole: Map<Seq<char>, CachedFileView>,
    part: Map<Seq<char>, CachedFileView>,
)
    requires
        whole.dom().finite(),
        part.dom().subset_of(whole.dom()),
        forall|k: Seq<char>| #[trigger] part.contains_key(k) ==> part[k] == whole[k],
    ensures
        part.dom().finite(),
        sum_sizes(part) <= sum_sizes(whole),
    decreases whole.dom().len(),
{
    vstd::set_lib::lemma_len_subset(part.dom(), whole.dom());
    if whole.dom().len() == 0 {
        assert(whole.dom() =~= Set::empty());
        assert(part.dom() =~= Set::empty());
    } else {
        let k = whole.dom().choose();
        lemma_sum_remove(whole, k);
        if part.contains_key(k) {
            lemma_sum_remove(part, k);
            lemma_sum_of_part(whole.remove(k), part.remove(k));
        } else {
            lemma_sum_of_part(whole.remove(k), part);
        }
    }
}

/// Content that was admitted is found again byte for byte, with its content
/// type, by every later lookup that resolves to the key it was stored under.
pub proof fn law_inserted_content_is_found(
    cache: FileCacheView,
    key: Seq<char>,
    content: Seq<u8>,
    mime_type: Seq<char>,
    now: u64,
    path: Seq<char>,
    later: u64,
)
    requires
        cache.wf(),
        cache.admits(content.len()),
        cache_key(path) == key,
    ensures
        cache.inserted(key, content, mime_type, now).found(cache_key(path), later) is Some,
        cache.inserted(key, content, mime_type, now).found(cache_key(path), later)->0.content
            == content,
        cache.inserted(key, content, mime_type, now).found(cache_key(path), later)->0.mime_type
            == mime_type,
        cache.inserted(key, content, mime_type, now).found(cache_key(path), later)->0.size
            == content.len(),
{
}

/// A key that is not empty and has no leading slash is looked up as it
/// stands.
pub proof fn lemma_plain_key_resolves_to_itself(key: Seq<char>)
    requires
        key.len() > 0,
        key[0] != '/',
    ensures
        cache_key(key) == key,
        fast_key(key) == key,
{
    if key == seq!['/'] {
        assert(seq!['/'][0] == '/');
    }
}

/// The empty path, the bare slash and `index.html` are answered by the same
/// entry and record their read in the same entry.
pub proof fn law_root_lookups_agree(cache: FileCacheView, now: u64)
    ensures
        cache.found(cache_key(Seq::empty()), now) == cache.found(cache_key(index_key()), now),
        cache.found(cache_key(seq!['/']), now) == cache.found(cache_key(index_key()), now),
        cache.looked_up(cache_key(Seq::empty()), now) == cache.looked_up(
            cache_key(index_key()),
            now,
        ),
        cache.looked_up(cache_key(seq!['/']), now) == cache.looked_up(
            cache_key(index_key()),
            now,
        ),
        cache.found(cache_key(index_key()), now) == cache.found(index_key(), now),
{
    lemma_root_paths_share_a_key();
}

/// After a sweep every entry that is left was kept unchanged and is no older
/// than `max_age`; every entry that is gone was older than `max_age` when
/// the sweep ran.
pub proof fn law_sweep_removes_exactly_the_expired(cache: FileCacheView, now: u64, max_age: u64)
    requires
        cache.wf(),
    ensures
        forall|k: Seq<char>| #[trigger]
            cache.swept(now, max_age).entries.contains_key(k) ==> cache.entries.contains_key(k)
                && cache.swept(now, max_age).entries[k] == cache.entries[k]
                && cache.entries[k].age(now) <= max_age,
        forall|k: Seq<char>| #[trigger]
            cache.entries.contains_key(k) && !cache.swept(now, max_age).entries.contains_key(k)
                ==> cache.entries[k].age(now) > max_age,
        cache.swept(now, max_age).total_size == sum_sizes(cache.swept(now, max_age).entries),
{
    lemma_swept_wf(cache, now, max_age);
}

/// An insertion under a key that holds nothing raises the running total by
/// exactly the size of the content; one that replaces an entry also gives
/// back the size of the entry it replaces; a refused insertion changes
/// nothing at all.
pub proof fn law_insert_accounts_for_size(
    cache: FileCacheView,
    key: Seq<char>,
    content: Seq<u8>,
    mime_type: Seq<char>,
    now: u64,
)
    requires
        cache.wf(),
    ensures
        cache.inserted(key, content, mime_type, now).wf(),
        cache.admits(content.len()) && !cache.entries.contains_key(key) ==> cache.inserted(
            key,
            content,
            mime_type,
            now,
        ).total_size == cache.total_size + content.len(),
        cache.admits(content.len()) ==> cache.inserted(key, content, mime_type, now).total_size
            == cache.total_size - cache.size_under(key) + content.len(),
        !cache.admits(content.len()) ==> cache.inserted(key, content, mime_type, now) == cache,
{
    let entry = CachedFileView::fresh(content, mime_type, now, now);
    if cache.admits(content.len()) {
        lemma_admitted_wf(cache, key, entry);
    }
}

} // verus!
