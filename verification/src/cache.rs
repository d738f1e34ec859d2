//! The file cache: entries keyed by relative path, admitted under a per-file
//! ceiling and a total budget, and evicted only by age.

use vstd::prelude::*;
use std::path::PathBuf;
use std::sync::Arc;
use dashmap::DashMap;
use crate::cache_model::{
    keep_fresh, lemma_keep_fresh_finite, lemma_sum_bounds_entry, lemma_sum_insert,
    lemma_sum_remove, no_entries, sum_sizes, CachedFileView, FileCacheView, MAX_FILE_SIZE,
};
use crate::loading::{load_plan, LoadProgress, LoadStep};
use crate::clock::unix_now;
use crate::mime::{guess_mime, guessed_mime};
pub use crate::mime::get_mime_type;
use crate::paths::{
    cache_key, cache_key_of, fast_key, fast_key_of, normalize_separators, skips_name,
    with_forward_slashes,
};

verus! {

/// `std::path::PathBuf`: a path of the file system, carried as it is.
#[verifier::external_type_specification]
#[verifier::external_body]
pub struct ExPathBuf(PathBuf);

/// `PathBuf::clone`: a copy that names the same path.
pub assume_specification[ <PathBuf as Clone>::clone ](path: &PathBuf) -> (copy: PathBuf)
    ensures
        copy == *path,
;

/// `dashmap::DashMap`: the map that holds the entries. What it holds is
/// known only through `entries_of`.
#[verifier::external_type_specification]
#[verifier::external_body]
#[verifier::reject_recursive_types(K)]
#[verifier::reject_recursive_types(V)]
#[verifier::reject_recursive_types(S)]
pub struct ExDashMap<K, V, S>(DashMap<K, V, S>);

/// A cached file: its content, shared by reference, with its content type
/// and the record of when it was changed and read.
#[derive(Debug)]
pub struct CachedFile {
    pub content: Arc<Vec<u8>>,
    pub mime_type: String,
    pub last_modified: u64,
    pub access_count: usize,
    pub last_access: u64,
    pub size: usize,
}

impl View for CachedFile {
    type V = CachedFileView;

    open spec fn view(&self) -> CachedFileView {
        CachedFileView {
            content: self.content@,
            mime_type: self.mime_type@,
            last_modified: self.last_modified,
            access_count: self.access_count,
            last_access: self.last_access,
            size: self.size,
        }
    }
}

/// The value that an optional entry stands for.
pub open spec fn view_of(entry: Option<CachedFile>) -> Option<CachedFileView> {
    match entry {
        Some(e) => Some(e@),
        None => None,
    }
}

/// `Arc::clone`: another handle to the same content. Nothing is copied.
#[verifier::external_body]
fn share(content: &Arc<Vec<u8>>) -> (shared: Arc<Vec<u8>>)
    ensures
        shared == *content,
{
    Arc::clone(content)
}

impl Clone for CachedFile {
    /// A copy of the entry that shares its content.
    fn clone(&self) -> (copy: Self)
        ensures
            copy@ == self@,
    {
        CachedFile {
            content: share(&self.content),
            mime_type: self.mime_type.clone(),
            last_modified: self.last_modified,
            access_count: self.access_count,
            last_access: self.last_access,
            size: self.size,
        }
    }
}

impl CachedFile {
    /// The recorded size is the length of the content.
    pub open spec fn wf(&self) -> bool {
        self@.wf()
    }

    /// An entry for `content`, last read at second `now`.
    pub fn new_at(content: Vec<u8>, mime_type: String, last_modified: u64, now: u64) -> (entry:
        Self)
        ensures
            entry@ == CachedFileView::fresh(content@, mime_type@, last_modified, now),
            entry.wf(),
    {
        let size = content.len();
        CachedFile {
            content: Arc::new(content),
            mime_type,
            last_modified,
            access_count: 0,
            last_access: now,
            size,
        }
    }

    /// An entry for `content`, last read at the current time.
    pub fn new(content: Vec<u8>, mime_type: String, last_modified: u64) -> (entry: Self)
        ensures
            entry@ == CachedFileView::fresh(
                content@,
                mime_type@,
                last_modified,
                entry@.last_access,
            ),
            entry.wf(),
    {
        Self::new_at(content, mime_type, last_modified, unix_now())
    }

    /// Records a read at second `now`.
    pub fn touch(&mut self, now: u64)
        ensures
            final(self)@ == old(self)@.touched(now),
    {
        self.access_count = self.access_count.wrapping_add(1);
        self.last_access = now;
    }

    /// Records a read at second `now` and hands out the shared content.
    pub fn access_at(&mut self, now: u64) -> (content: Arc<Vec<u8>>)
        ensures
            final(self)@ == old(self)@.touched(now),
            content@ == old(self)@.content,
    {
        self.touch(now);
        share(&self.content)
    }

    /// Records a read at the current time and hands out the shared content.
    pub fn access(&mut self) -> (content: Arc<Vec<u8>>)
        ensures
            final(self)@ == old(self)@.touched(final(self)@.last_access),
            content@ == old(self)@.content,
    {
        self.access_at(unix_now())
    }

    /// Records a read at second `now` and hands out a copy of the content.
    pub fn get_content_at(&mut self, now: u64) -> (content: Vec<u8>)
        ensures
            final(self)@ == old(self)@.touched(now),
            content@ == old(self)@.content,
    {
        self.touch(now);
        (*self.content).clone()
    }

    /// Records a read at the current time and hands out a copy of the
    /// content.
    pub fn get_content(&mut self) -> (content: Vec<u8>)
        ensures
            final(self)@ == old(self)@.touched(final(self)@.last_access),
            content@ == old(self)@.content,
    {
        self.get_content_at(unix_now())
    }

    /// Whether the entry was last read no more than `max_age` seconds before
    /// second `now`.
    pub fn is_fresh(&self, now: u64, max_age: u64) -> (fresh: bool)
        ensures
            fresh == !self@.expired(now, max_age),
    {
        now.saturating_sub(self.last_access) <= max_age
    }
}

/// What a map holds: the value of each entry, by the characters of its key.
pub uninterp spec fn entries_of(map: DashMap<String, CachedFile>) -> Map<
    Seq<char>,
    CachedFileView,
>;

/// The character sequences of a list of keys.
pub open spec fn key_views(keys: Seq<String>) -> Seq<Seq<char>> {
    Seq::new(keys.len(), |i: int| keys[i]@)
}

/// `DashMap::new`: a map that holds nothing.
#[verifier::external_body]
fn map_new() -> (map: DashMap<String, CachedFile>)
    ensures
        entries_of(map) == no_entries(),
{
    DashMap::new()
}

/// `DashMap::insert`: stores `value` under `key` and returns the value that
/// was stored there before, if there was one.
#[verifier::external_body]
fn map_insert(map: &mut DashMap<String, CachedFile>, key: String, value: CachedFile) -> (prev:
    Option<CachedFile>)
    ensures
        entries_of(*final(map)) == entries_of(*old(map)).insert(key@, value@),
        prev matches Some(p) ==> entries_of(*old(map)).contains_key(key@) && p@ == entries_of(
            *old(map),
        )[key@],
        prev is None ==> !entries_of(*old(map)).contains_key(key@),
{
    map.insert(key, value)
}

/// `DashMap::get`: a copy of the entry under `key`, if there is one. The map
/// is left as it was.
#[verifier::external_body]
fn map_get(map: &DashMap<String, CachedFile>, key: &str) -> (found: Option<CachedFile>)
    ensures
        found matches Some(e) ==> entries_of(*map).contains_key(key@) && e@ == entries_of(
            *map,
        )[key@],
        found is None ==> !entries_of(*map).contains_key(key@),
{
    map.get(key).map(|entry| entry.value().clone())
}

/// `DashMap::len`: the number of entries.
#[verifier::external_body]
fn map_len(map: &DashMap<String, CachedFile>) -> (count: usize)
    ensures
        count == entries_of(*map).len(),
{
    map.len()
}

/// `DashMap::iter`, for the keys alone: every key of the map once, in no
/// particular order.
#[verifier::external_body]
fn map_keys(map: &DashMap<String, CachedFile>) -> (keys: Vec<String>)
    ensures
        key_views(keys@).no_duplicates(),
        key_views(keys@).to_set() == entries_of(*map).dom(),
{
    map.iter().map(|entry| entry.key().clone()).collect()
}

/// `DashMap::retain` with the freshness test: the entries that are fresh at
/// second `now` stay as they are, the others are dropped.
#[verifier::external_body]
fn map_retain_fresh(map: &mut DashMap<String, CachedFile>, now: u64, max_age: u64)
    ensures
        entries_of(*final(map)) == keep_fresh(entries_of(*old(map)), now, max_age),
{
    map.retain(|_key, entry| entry.is_fresh(now, max_age));
}

/// The cache of file contents held in memory.
pub struct FileCache {
    cache: DashMap<String, CachedFile>,
    total_size: u64,
    max_size: u64,
    root_path: PathBuf,
    enabled: bool,
}

impl View for FileCache {
    type V = FileCacheView;

    closed spec fn view(&self) -> FileCacheView {
        FileCacheView {
            entries: entries_of(self.cache),
            total_size: self.total_size,
            max_size: self.max_size,
            enabled: self.enabled,
        }
    }
}

impl FileCache {
    /// The directory that the cache was made for.
    pub closed spec fn root(&self) -> PathBuf {
        self.root_path
    }

    /// The cache is consistent: see `FileCacheView::wf`.
    pub open spec fn wf(&self) -> bool {
        self@.wf()
    }

    /// An empty cache for the files under `root_path`, with a budget of
    /// `max_size` bytes.
    pub fn new(root_path: PathBuf, max_size: u64, enabled: bool) -> (cache: Self)
        ensures
            cache@ == FileCacheView::empty(max_size, enabled),
            cache.root() == root_path,
            cache.wf(),
    {
        FileCache { cache: map_new(), total_size: 0, max_size, root_path, enabled }
    }

    /// The directory that the cache is filled from.
    pub fn root_path(&self) -> (root: &PathBuf)
        ensures
            *root == self.root(),
    {
        &self.root_path
    }

    /// Whether caching is on.
    pub fn is_enabled(&self) -> (enabled: bool)
        ensures
            enabled == self@.enabled,
    {
        self.enabled
    }

    /// Whether content of `size` bytes would be admitted now.
    pub fn admits(&self, size: u64) -> (admitted: bool)
        ensures
            admitted == self@.admits(size as nat),
    {
        let room = match self.max_size.checked_sub(self.total_size) {
            Some(room) => room,
            None => {
                return false;
            },
        };
        self.enabled && size <= MAX_FILE_SIZE as u64 && size <= room
    }

    /// Begins the filling of the cache from disk: a count that starts at
    /// zero, or nothing where caching is off.
    pub fn initialize(&self) -> (progress: Option<LoadProgress>)
        ensures
            progress == if self@.enabled {
                Some(LoadProgress::start(self@.max_size))
            } else {
                None
            },
    {
        if self.enabled {
            Some(LoadProgress { loaded_count: 0, total_size: 0, max_size: self.max_size })
        } else {
            None
        }
    }

    /// Decides what is done with a file named `file_name` that holds
    /// `file_size` bytes, before it is read.
    pub fn plan_file(&self, file_name: &str, file_size: u64) -> (step: LoadStep)
        ensures
            step == load_plan(self@, file_name@, file_size),
    {
        if skips_name(file_name) {
            LoadStep::Skip
        } else if self.admits(file_size) {
            LoadStep::Read
        } else {
            LoadStep::Refuse
        }
    }

    /// Stores `entry` under `key` if it is admitted, and says whether it was.
    fn try_store(&mut self, key: String, entry: CachedFile) -> (stored: bool)
        requires
            old(self).wf(),
            entry.wf(),
        ensures
            final(self).wf(),
            stored == old(self)@.admits(entry@.size as nat),
            final(self)@ == old(self)@.admitted(key@, entry@),
    {
        let size = entry.size as u64;
        if !self.admits(size) {
            return false;
        }
        proof {
            lemma_sum_insert(self@.entries, key@, entry@);
            if self@.entries.contains_key(key@) {
                lemma_sum_bounds_entry(self@.entries, key@);
            }
        }
        let replaced: u64 = match map_insert(&mut self.cache, key, entry) {
            Some(prev) => prev.size as u64,
            None => 0,
        };
        self.total_size = self.total_size - replaced + size;
        true
    }

    /// Looks up `key` at second `now` and records the read.
    fn lookup(&mut self, key: String, now: u64) -> (found: Option<CachedFile>)
        requires
            old(self).wf(),
        ensures
            final(self).wf(),
            final(self)@ == old(self)@.looked_up(key@, now),
            view_of(found) == old(self)@.found(key@, now),
    {
        if !self.enabled {
            return None;
        }
        match map_get(&self.cache, key.as_str()) {
            Some(mut entry) => {
                entry.touch(now);
                proof {
                    lemma_sum_insert(self@.entries, key@, entry@);
                }
                map_insert(&mut self.cache, key, entry.clone());
                Some(entry)
            },
            None => None,
        }
    }

    /// Looks `path` up at second `now`. A hit records the read in the stored
    /// entry and returns the entry, sharing its content. A miss, or a
    /// disabled cache, returns nothing and changes nothing.
    pub fn get_at(&mut self, path: &str, now: u64) -> (found: Option<CachedFile>)
        requires
            old(self).wf(),
        ensures
            final(self).wf(),
            final(self)@ == old(self)@.looked_up(cache_key(path@), now),
            view_of(found) == old(self)@.found(cache_key(path@), now),
    {
        self.lookup(cache_key_of(path), now)
    }

    /// Looks `path` up at the current time.
    pub fn get(&mut self, path: &str) -> (found: Option<CachedFile>)
        requires
            old(self).wf(),
        ensures
            final(self).wf(),
            exists|now: u64|
                final(self)@ == old(self)@.looked_up(cache_key(path@), now) && view_of(found)
                    == old(self)@.found(cache_key(path@), now),
    {
        self.get_at(path, unix_now())
    }

    /// The quick lookup at second `now`: as `get_at`, with the key that
    /// `fast_key` gives.
    pub fn get_fast_at(&mut self, path: &str, now: u64) -> (found: Option<CachedFile>)
        requires
            old(self).wf(),
        ensures
            final(self).wf(),
            final(self)@ == old(self)@.looked_up(fast_key(path@), now),
            view_of(found) == old(self)@.found(fast_key(path@), now),
    {
        self.lookup(fast_key_of(path), now)
    }

    /// The quick lookup at the current time.
    pub fn get_fast(&mut self, path: &str) -> (found: Option<CachedFile>)
        requires
            old(self).wf(),
        ensures
            final(self).wf(),
            exists|now: u64|
                final(self)@ == old(self)@.looked_up(fast_key(path@), now) && view_of(found)
                    == old(self)@.found(fast_key(path@), now),
    {
        self.get_fast_at(path, unix_now())
    }

    /// Stores `content` under `path` at second `now` if it is admitted;
    /// otherwise nothing changes.
    pub fn insert_at(&mut self, path: String, content: Vec<u8>, mime_type: String, now: u64)
        requires
            old(self).wf(),
        ensures
            final(self).wf(),
            final(self)@ == old(self)@.inserted(path@, content@, mime_type@, now),
    {
        if !self.enabled || content.len() > MAX_FILE_SIZE {
            return;
        }
        let entry = CachedFile::new_at(content, mime_type, now, now);
        self.try_store(path, entry);
    }

    /// Stores `content` under `path` at the current time if it is admitted.
    pub fn insert_async(&mut self, path: String, content: Vec<u8>, mime_type: String)
        requires
            old(self).wf(),
        ensures
            final(self).wf(),
            exists|now: u64|
                final(self)@ == old(self)@.inserted(path@, content@, mime_type@, now),
    {
        self.insert_at(path, content, mime_type, unix_now())
    }

    /// Stores a file that was read from disk, at second `now`. The key is
    /// the relative path with forward slashes, the content type is guessed
    /// from the path. Returns the number of bytes stored, zero when the file
    /// was refused.
    pub fn load_file_at(
        &mut self,
        relative_path: &str,
        content: Vec<u8>,
        last_modified: u64,
        now: u64,
    ) -> (loaded: u64)
        requires
            old(self).wf(),
        ensures
            final(self).wf(),
            final(self)@ == old(self)@.loaded(
                with_forward_slashes(relative_path@),
                content@,
                guessed_mime(relative_path@),
                last_modified,
                now,
            ),
            loaded == if old(self)@.admits(content@.len()) {
                content@.len()
            } else {
                0
            },
    {
        if !self.enabled || content.len() > MAX_FILE_SIZE {
            return 0;
        }
        let size = content.len() as u64;
        let mime_type = guess_mime(relative_path);
        let key = normalize_separators(relative_path);
        let entry = CachedFile::new_at(content, mime_type, last_modified, now);
        if self.try_store(key, entry) {
            size
        } else {
            0
        }
    }

    /// Stores a file that was read from disk, at the current time.
    pub fn load_file_to_cache(&mut self, relative_path: &str, content: Vec<u8>, last_modified: u64)
        -> (loaded: u64)
        requires
            old(self).wf(),
        ensures
            final(self).wf(),
            exists|now: u64|
                final(self)@ == old(self)@.loaded(
                    with_forward_slashes(relative_path@),
                    content@,
                    guessed_mime(relative_path@),
                    last_modified,
                    now,
                ),
            loaded == if old(self)@.admits(content@.len()) {
                content@.len()
            } else {
                0
            },
    {
        self.load_file_at(relative_path, content, last_modified, unix_now())
    }

    /// The number of entries, the running total of their sizes, and the
    /// budget.
    pub fn get_stats(&self) -> (stats: (usize, u64, u64))
        ensures
            stats.0 == self@.entries.len(),
            stats.1 == self@.total_size,
            stats.2 == self@.max_size,
    {
        (map_len(&self.cache), self.total_size, self.max_size)
    }

    /// The total size of the entries that are expired at second `now`.
    fn expired_size(&self, now: u64, max_age: u64) -> (freed: u64)
        requires
            self.wf(),
        ensures
            freed + sum_sizes(keep_fresh(self@.entries, now, max_age)) == self@.total_size,
    {
        let keys = map_keys(&self.cache);
        let ghost all = self@.entries;
        let ghost mut rest = all;
        let mut freed: u64 = 0;
        let mut i: usize = 0;
        while i < keys.len()
            invariant
                i <= keys.len(),
                self.wf(),
                all == self@.entries,
                key_views(keys@).no_duplicates(),
                key_views(keys@).to_set() == all.dom(),
                rest.dom().finite(),
                freed + sum_sizes(rest) == self@.total_size,
                forall|k: Seq<char>| #[trigger]
                    rest.contains_key(k) <==> all.contains_key(k) && !(key_views(keys@).take(
                        i as int,
                    ).contains(k) && all[k].expired(now, max_age)),
                forall|k: Seq<char>| #[trigger] rest.contains_key(k) ==> rest[k] == all[k],
            decreases keys.len() - i,
        {
            let ghost k = keys@[i as int]@;
            let ghost views = key_views(keys@);
            proof {
                assert(views[i as int] == k);
                assert(views.to_set().contains(k));
                assert(views.take(i + 1) =~= views.take(i as int).push(k));
                assert(!views.take(i as int).contains(k)) by {
                    if views.take(i as int).contains(k) {
                        let j = choose|j: int|
                            0 <= j < i && #[trigger] views.take(i as int)[j] == k;
                        assert(views[j] == views[i as int]);
                    }
                }
                assert(rest.contains_key(k));
            }
            match map_get(&self.cache, keys[i].as_str()) {
                Some(entry) => {
                    if !entry.is_fresh(now, max_age) {
                        proof {
                            lemma_sum_remove(rest, k);
                            rest = rest.remove(k);
                        }
                        freed = freed + entry.size as u64;
                    }
                },
                None => {},
            }
            proof {
                assert forall|x: Seq<char>| #[trigger]
                    rest.contains_key(x) <==> all.contains_key(x) && !(views.take(
                        i + 1,
                    ).contains(x) && all[x].expired(now, max_age)) by {
                    if views.take(i + 1).contains(x) && x != k {
                        let j = choose|j: int|
                            0 <= j < i + 1 && #[trigger] views.take(i + 1)[j] == x;
                        assert(views.take(i as int)[j] == x);
                    }
                    if views.take(i as int).contains(x) {
                        let j = choose|j: int|
                            0 <= j < i && #[trigger] views.take(i as int)[j] == x;
                        assert(views.take(i + 1)[j] == x);
                    }
                    assert(views.take(i + 1)[i as int] == k);
                }
            }
            i += 1;
        }
        proof {
            let views = key_views(keys@);
            assert(views.take(keys.len() as int) =~= views);
            assert forall|x: Seq<char>| all.contains_key(x) implies views.contains(x) by {
                assert(views.to_set().contains(x));
            }
            assert(rest =~= keep_fresh(all, now, max_age));
        }
        freed
    }

    /// Sweeps the cache at second `now`: every entry that was last read more
    /// than `max_age` seconds ago is removed, and the running total is
    /// lowered by its size. A disabled cache is left alone.
    pub fn cleanup_at(&mut self, now: u64, max_age: u64)
        requires
            old(self).wf(),
        ensures
            final(self).wf(),
            final(self)@ == old(self)@.swept(now, max_age),
    {
        if !self.enabled {
            return;
        }
        let freed = self.expired_size(now, max_age);
        proof {
            lemma_keep_fresh_finite(self@.entries, now, max_age);
        }
        map_retain_fresh(&mut self.cache, now, max_age);
        self.total_size = self.total_size - freed;
    }

    /// Sweeps the cache at the current time.
    pub fn cleanup_old_entries(&mut self, max_age_seconds: u64)
        requires
            old(self).wf(),
        ensures
            final(self).wf(),
            exists|now: u64| final(self)@ == old(self)@.swept(now, max_age_seconds),
    {
        self.cleanup_at(unix_now(), max_age_seconds)
    }
}

} // verus!
