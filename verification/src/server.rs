//! Request dispatch: for each request, whether it is answered at once, from
//! the cache, from a file that is still to be read, or by an upstream
//! service.

use vstd::prelude::*;
use vstd::rwlock::{RwLock, RwLockPredicate};
use crate::cache::FileCache;
use crate::cache_model::{lemma_plain_key_resolves_to_itself, FileCacheView, MAX_FILE_SIZE};
use crate::loading::{load_plan, LoadProgress, LoadStep};
use crate::clock::unix_now;
use crate::config::{cache_size_of, lowercased, ApiConfig, Config, ConfigError, SizeFault};
use crate::mime::{get_mime_type, guessed_mime, mime_of_extension, path_extension};
use crate::paths::{
    cache_key, cache_key_of, fast_key, is_skipped_name, is_unsafe, is_unsafe_path,
    with_forward_slashes,
};
use crate::response::{
    content_headers, content_response, cors_headers, create_cors_response,
    create_error_response, default_error_response, default_message, error_file, error_file_name,
    error_headers, error_page_response, error_response, HttpResponse, HttpResponseView,
};
use crate::routes::{
    find_route, first_route, is_request_target, lemma_first_route, parses_as_uri,
    percent_decode, percent_decoded, rewrite_target, rewritten,
};
use crate::text::{chars_of, same_chars};

verus! {

/// Seconds between two sweeps of the cache.
pub const SWEEP_INTERVAL_SECS: u64 = 300;

/// Entries that were not read for this many seconds are swept.
pub const SWEEP_MAX_AGE_SECS: u64 = 3600;

/// What is to be done for a request.
#[derive(Debug)]
pub enum Dispatch {
    /// Send this response.
    Respond(HttpResponse),
    /// Forward the request to `target`, under the route at index `route`.
    Forward { route: usize, target: String },
    /// Read the file at `path` below the root directory and serve it.
    ReadFile { path: String },
    /// Read `file_name` below the error-pages directory and serve it under
    /// `status`.
    ReadErrorPage { status: u16, file_name: String },
}

/// A step as a value.
pub enum DispatchView {
    Respond(HttpResponseView),
    Forward { route: usize, target: Seq<char> },
    ReadFile { path: Seq<char> },
    ReadErrorPage { status: u16, file_name: Seq<char> },
}

impl View for Dispatch {
    type V = DispatchView;

    open spec fn view(&self) -> DispatchView {
        match self {
            Dispatch::Respond(response) => DispatchView::Respond(response@),
            Dispatch::Forward { route, target } => DispatchView::Forward {
                route: *route,
                target: target@,
            },
            Dispatch::ReadFile { path } => DispatchView::ReadFile { path: path@ },
            Dispatch::ReadErrorPage { status, file_name } => DispatchView::ReadErrorPage {
                status: *status,
                file_name: file_name@,
            },
        }
    }
}

/// The cache key of the error page of a status.
pub open spec fn error_page_key(status: u16) -> Seq<char> {
    "Errors/"@ + error_file(status)
}

/// What is done for an error of `status`: the cached error page is served,
/// or the page is to be read from disk.
pub open spec fn error_page_decision(cache: FileCacheView, status: u16, now: u64) -> DispatchView {
    match cache.found(error_page_key(status), now) {
        Some(entry) => DispatchView::Respond(
            HttpResponseView { status, headers: error_headers(), body: entry.content },
        ),
        None => DispatchView::ReadErrorPage { status, file_name: error_file(status) },
    }
}

/// What is done for a request of a file: an unsafe path is refused with
/// status 403, a cached file is served with its stored content type, and
/// any other file is to be read from disk.
pub open spec fn static_decision(cache: FileCacheView, path: Seq<char>, now: u64) -> DispatchView {
    let normalized = cache_key(path);
    if is_unsafe_path(normalized) {
        DispatchView::Respond(error_response(403, "Access denied"@))
    } else {
        match cache.found(fast_key(normalized), now) {
            Some(entry) => DispatchView::Respond(
                HttpResponseView {
                    status: 200,
                    headers: content_headers(entry.mime_type),
                    body: entry.content,
                },
            ),
            None => DispatchView::ReadFile { path: normalized },
        }
    }
}

/// The cache after a request of a file: an unsafe path leaves it untouched,
/// any other path is looked up.
pub open spec fn cache_after_static(cache: FileCacheView, path: Seq<char>, now: u64)
    -> FileCacheView {
    if is_unsafe_path(cache_key(path)) {
        cache
    } else {
        cache.looked_up(fast_key(cache_key(path)), now)
    }
}

/// What is done with a rewritten target: it is forwarded if it is a valid
/// request target, and refused with status 400 if it is not.
pub open spec fn forward_decision(route: usize, target: Seq<char>, valid: bool) -> DispatchView {
    if valid {
        DispatchView::Forward { route, target }
    } else {
        DispatchView::Respond(error_response(400, "Invalid proxy target"@))
    }
}

/// What is done for a path that falls under `route`.
pub open spec fn proxy_decision(index: usize, route: ApiConfig, path: Seq<char>) -> DispatchView {
    let target = rewritten(path, route.from@, route.to@);
    forward_decision(index, target, is_request_target(target))
}

/// What is done for a request whose path was decoded, or could not be.
pub open spec fn decoded_decision(
    routes: Seq<ApiConfig>,
    cache: FileCacheView,
    decoded: Option<Seq<char>>,
    now: u64,
) -> DispatchView {
    match decoded {
        None => DispatchView::Respond(error_response(400, "Invalid path encoding"@)),
        Some(path) => match first_route(routes, path) {
            Some(i) => proxy_decision(i as usize, routes[i], path),
            None => static_decision(cache, path, now),
        },
    }
}

/// The cache after a request whose path was decoded, or could not be: only
/// a request of a file touches it.
pub open spec fn cache_after_decoded(
    routes: Seq<ApiConfig>,
    cache: FileCacheView,
    decoded: Option<Seq<char>>,
    now: u64,
) -> FileCacheView {
    match decoded {
        None => cache,
        Some(path) => match first_route(routes, path) {
            Some(i) => cache,
            None => cache_after_static(cache, path, now),
        },
    }
}

/// What is done for a request: a preflight request is answered at once;
/// otherwise the path is decoded, tried against the routes in order, and
/// served as a file if none matches.
pub open spec fn request_decision(
    routes: Seq<ApiConfig>,
    cache: FileCacheView,
    method: Seq<char>,
    raw_path: Seq<char>,
    now: u64,
) -> DispatchView {
    if method == "OPTIONS"@ {
        DispatchView::Respond(
            HttpResponseView { status: 200, headers: cors_headers(), body: Seq::empty() },
        )
    } else {
        decoded_decision(routes, cache, percent_decoded(raw_path), now)
    }
}

/// The cache after a request.
pub open spec fn cache_after_request(
    routes: Seq<ApiConfig>,
    cache: FileCacheView,
    method: Seq<char>,
    raw_path: Seq<char>,
    now: u64,
) -> FileCacheView {
    if method == "OPTIONS"@ {
        cache
    } else {
        cache_after_decoded(routes, cache, percent_decoded(raw_path), now)
    }
}

/// What is done once the file at `path` was read, or could not be: its
/// content is served with the content type of its extension, or the error
/// of status 404 is answered.
pub open spec fn file_read_decision(
    cache: FileCacheView,
    path: Seq<char>,
    content: Option<Seq<u8>>,
    now: u64,
) -> DispatchView {
    match content {
        Some(bytes) => DispatchView::Respond(
            HttpResponseView {
                status: 200,
                headers: content_headers(mime_of_extension(path_extension(path))),
                body: bytes,
            },
        ),
        None => error_page_decision(cache, 404, now),
    }
}

/// The cache after a file was read, or could not be: only the search for
/// the error page touches it.
pub open spec fn cache_after_file_read(cache: FileCacheView, content: Option<Seq<u8>>, now: u64)
    -> FileCacheView {
    match content {
        Some(bytes) => cache,
        None => cache.looked_up(error_page_key(404), now),
    }
}

/// The response once the error page of `status` was read, or could not be:
/// the page that was read, or the written page with the fixed message.
pub open spec fn error_read_response(status: u16, content: Option<Seq<u8>>) -> HttpResponseView {
    match content {
        Some(bytes) => HttpResponseView { status, headers: error_headers(), body: bytes },
        None => error_response(status, default_message(status)),
    }
}

/// The view of optional bytes.
pub open spec fn bytes_of(content: Option<Vec<u8>>) -> Option<Seq<u8>> {
    match content {
        Some(bytes) => Some(bytes@),
        None => None,
    }
}

/// The view of an optional string.
pub open spec fn text_of(s: Option<String>) -> Option<Seq<char>> {
    match s {
        Some(text) => Some(text@),
        None => None,
    }
}

/// Decides how an error of `status` is answered at second `now`: with the
/// cached error page, or by reading the page from disk.
pub fn handle_error_page_at(status: u16, cache: &mut FileCache, now: u64) -> (step: Dispatch)
    requires
        old(cache).wf(),
    ensures
        final(cache).wf(),
        final(cache)@ == old(cache)@.looked_up(error_page_key(status), now),
        step@ == error_page_decision(old(cache)@, status, now),
{
    let file_name = error_file_name(status);
    let mut key = "Errors/".to_owned();
    key.push_str(file_name);
    proof {
        reveal_strlit("Errors/");
        assert(key@[0] == 'E');
        lemma_plain_key_resolves_to_itself(key@);
    }
    match cache.get_fast_at(key.as_str(), now) {
        Some(entry) => Dispatch::Respond(error_page_response(status, (*entry.content).clone())),
        None => Dispatch::ReadErrorPage { status, file_name: file_name.to_owned() },
    }
}

/// Decides how an error of `status` is answered at the current time.
pub fn handle_error_page(status: u16, cache: &mut FileCache) -> (step: Dispatch)
    requires
        old(cache).wf(),
    ensures
        final(cache).wf(),
        exists|now: u64|
            final(cache)@ == old(cache)@.looked_up(error_page_key(status), now) && step@
                == error_page_decision(old(cache)@, status, now),
{
    handle_error_page_at(status, cache, unix_now())
}

/// Decides how a request of the file at `path` is answered at second `now`.
/// A path that holds `..` or `//` after normalization is refused before the
/// cache is consulted.
pub fn handle_static_file_at(path: &str, cache: &mut FileCache, now: u64) -> (step: Dispatch)
    requires
        old(cache).wf(),
    ensures
        final(cache).wf(),
        final(cache)@ == cache_after_static(old(cache)@, path@, now),
        step@ == static_decision(old(cache)@, path@, now),
{
    let normalized = cache_key_of(path);
    if is_unsafe(normalized.as_str()) {
        return Dispatch::Respond(create_error_response(403, "Access denied"));
    }
    match cache.get_fast_at(normalized.as_str(), now) {
        Some(entry) => Dispatch::Respond(
            content_response(entry.mime_type.as_str(), (*entry.content).clone()),
        ),
        None => Dispatch::ReadFile { path: normalized },
    }
}

/// Decides how a request of the file at `path` is answered at the current
/// time.
pub fn handle_static_file(path: &str, cache: &mut FileCache) -> (step: Dispatch)
    requires
        old(cache).wf(),
    ensures
        final(cache).wf(),
        exists|now: u64|
            final(cache)@ == cache_after_static(old(cache)@, path@, now) && step@
                == static_decision(old(cache)@, path@, now),
{
    handle_static_file_at(path, cache, unix_now())
}

/// The response for a file that was read from disk: its content type goes
/// by its extension.
pub fn static_file_response(path: &str, content: Vec<u8>) -> (response: HttpResponse)
    ensures
        response@ == (HttpResponseView {
            status: 200,
            headers: content_headers(mime_of_extension(path_extension(path@))),
            body: content@,
        }),
{
    content_response(get_mime_type(path), content)
}

/// Decides what follows the reading of the file at `path`, at second `now`:
/// `content` holds what was read, or nothing where the file could not be
/// read.
pub fn handle_file_read_at(
    path: &str,
    content: Option<Vec<u8>>,
    cache: &mut FileCache,
    now: u64,
) -> (step: Dispatch)
    requires
        old(cache).wf(),
    ensures
        final(cache).wf(),
        final(cache)@ == cache_after_file_read(old(cache)@, bytes_of(content), now),
        step@ == file_read_decision(old(cache)@, path@, bytes_of(content), now),
{
    match content {
        Some(bytes) => Dispatch::Respond(static_file_response(path, bytes)),
        None => handle_error_page_at(404, cache, now),
    }
}

/// The response that follows the reading of the error page of `status`:
/// `content` holds what was read, or nothing where no page could be read.
pub fn handle_error_page_read(status: u16, content: Option<Vec<u8>>) -> (response: HttpResponse)
    ensures
        response@ == error_read_response(status, bytes_of(content)),
{
    match content {
        Some(bytes) => error_page_response(status, bytes),
        None => default_error_response(status),
    }
}

/// Decides how a request is answered whose forwarding failed, at second
/// `now`: with the error of status 502.
pub fn handle_forward_failure_at(cache: &mut FileCache, now: u64) -> (step: Dispatch)
    requires
        old(cache).wf(),
    ensures
        final(cache).wf(),
        final(cache)@ == old(cache)@.looked_up(error_page_key(502), now),
        step@ == error_page_decision(old(cache)@, 502, now),
{
    handle_error_page_at(502, cache, now)
}

/// The response for a request that could not be answered for a fault of
/// the server itself.
pub fn internal_error_response() -> (response: HttpResponse)
    ensures
        response@ == error_response(500, "Internal Server Error"@),
{
    create_error_response(500, "Internal Server Error")
}

/// Forwards to `target` if it was found valid, else refuses with status
/// 400.
pub fn forward_or_refuse(route: usize, target: String, valid: bool) -> (step: Dispatch)
    ensures
        step@ == forward_decision(route, target@, valid),
{
    if valid {
        Dispatch::Forward { route, target }
    } else {
        Dispatch::Respond(create_error_response(400, "Invalid proxy target"))
    }
}

/// Decides how a request is proxied under `route`, the route at position
/// `index`: the first occurrence of the route's source prefix in the path
/// is replaced by its destination.
pub fn handle_proxy_request(index: usize, route: &ApiConfig, path: &str) -> (step: Dispatch)
    ensures
        step@ == proxy_decision(index, *route, path@),
{
    let target = rewrite_target(path, route.from.as_str(), route.to.as_str());
    let valid = parses_as_uri(target.as_str());
    forward_or_refuse(index, target, valid)
}

/// Decides how a request is answered once its path was decoded, or could
/// not be, at second `now`.
pub fn handle_decoded_at(
    decoded: Option<String>,
    routes: &Vec<ApiConfig>,
    cache: &mut FileCache,
    now: u64,
) -> (step: Dispatch)
    requires
        old(cache).wf(),
    ensures
        final(cache).wf(),
        final(cache)@ == cache_after_decoded(routes@, old(cache)@, text_of(decoded), now),
        step@ == decoded_decision(routes@, old(cache)@, text_of(decoded), now),
{
    match decoded {
        None => Dispatch::Respond(create_error_response(400, "Invalid path encoding")),
        Some(path) => match find_route(routes, path.as_str()) {
            Some(i) => handle_proxy_request(i, &routes[i], path.as_str()),
            None => handle_static_file_at(path.as_str(), cache, now),
        },
    }
}

/// Decides how a request with `method` for `raw_path` is answered at second
/// `now`.
pub fn handle_request_at(
    method: &str,
    raw_path: &str,
    config: &Config,
    cache: &mut FileCache,
    now: u64,
) -> (step: Dispatch)
    requires
        old(cache).wf(),
    ensures
        final(cache).wf(),
        final(cache)@ == cache_after_request(config.api@, old(cache)@, method@, raw_path@, now),
        step@ == request_decision(config.api@, old(cache)@, method@, raw_path@, now),
{
    let m = chars_of(method);
    let options = chars_of("OPTIONS");
    if same_chars(&m, &options) {
        return Dispatch::Respond(create_cors_response(200, Vec::new()));
    }
    let decoded = percent_decode(raw_path);
    handle_decoded_at(decoded, &config.api, cache, now)
}

/// Decides how a request with `method` for `raw_path` is answered at the
/// current time.
pub fn handle_request(method: &str, raw_path: &str, config: &Config, cache: &mut FileCache) -> (step:
    Dispatch)
    requires
        old(cache).wf(),
    ensures
        final(cache).wf(),
        exists|now: u64|
            final(cache)@ == cache_after_request(
                config.api@,
                old(cache)@,
                method@,
                raw_path@,
                now,
            ) && step@ == request_decision(config.api@, old(cache)@, method@, raw_path@, now),
{
    handle_request_at(method, raw_path, config, cache, unix_now())
}

/// What stays true of the cache that the tasks of a server share: it is
/// consistent, and it is switched on or off and has the budget that it was
/// made with.
pub struct SharedCacheRule {
    pub enabled: bool,
    pub max_size: u64,
}

impl RwLockPredicate<FileCache> for SharedCacheRule {
    open spec fn inv(self, cache: FileCache) -> bool {
        &&& cache.wf()
        &&& cache@.enabled == self.enabled
        &&& cache@.max_size == self.max_size
    }
}

/// The server: its configuration and the cache that it serves from. Any
/// number of tasks may use one server at the same time; each operation takes
/// the cache for itself while it runs and hands it back consistent.
pub struct HttpServer {
    config: Config,
    cache: RwLock<FileCache, SharedCacheRule>,
}

impl HttpServer {
    /// The configuration that the server was made with.
    pub closed spec fn settings(&self) -> Config {
        self.config
    }

    /// The budget of the cache, in bytes.
    pub closed spec fn budget(&self) -> u64 {
        self.cache.pred().max_size
    }

    /// Whether files are cached.
    pub closed spec fn caching(&self) -> bool {
        self.cache.pred().enabled
    }

    /// `cache` is a state that the cache of this server may be in.
    pub open spec fn may_hold(&self, cache: FileCacheView) -> bool {
        &&& cache.wf()
        &&& cache.enabled == self.caching()
        &&& cache.max_size == self.budget()
    }

    /// A server for `config`, with an empty cache whose budget is read from
    /// the configuration. Fails where the budget cannot be read.
    pub fn new(config: Config) -> (server: Result<Self, ConfigError>)
        ensures
            match server {
                Ok(s) => {
                    &&& s.settings() == config
                    &&& s.caching() == config.server.cache_enabled
                    &&& cache_size_of(lowercased(config.server.max_cache_size@)) == Ok::<
                        u64,
                        SizeFault,
                    >(s.budget())
                },
                Err(e) => cache_size_of(lowercased(config.server.max_cache_size@)) == Err::<
                    u64,
                    SizeFault,
                >(e.fault()),
            },
    {
        match config.get_max_cache_size() {
            Ok(max_size) => {
                let enabled = config.is_cache_enabled();
                let cache = FileCache::new(config.get_root_directory().clone(), max_size, enabled);
                let shared = RwLock::new(cache, Ghost(SharedCacheRule { enabled, max_size }));
                Ok(HttpServer { config, cache: shared })
            },
            Err(e) => Err(e),
        }
    }

    /// The configuration.
    pub fn config(&self) -> (config: &Config)
        ensures
            *config == self.settings(),
    {
        &self.config
    }

    /// The number of cached entries, the running total of their sizes, and
    /// the budget, as they are at some moment during the call.
    pub fn cache_stats(&self) -> (stats: (usize, u64, u64))
        ensures
            stats.2 == self.budget(),
            stats.1 <= stats.2,
            exists|cache: FileCacheView|
                self.may_hold(cache) && stats.0 == cache.entries.len() && stats.1
                    == #[trigger] cache.total_size,
    {
        let handle = self.cache.acquire_read();
        let stats = handle.borrow().get_stats();
        proof {
            let seen = handle.view()@;
            assert(self.may_hold(seen) && stats.0 == seen.entries.len() && stats.1
                == seen.total_size);
        }
        handle.release_read();
        stats
    }

    /// Begins the filling of the cache from disk: a count that starts at
    /// zero, or nothing where caching is off.
    pub fn initialize(&self) -> (progress: Option<LoadProgress>)
        ensures
            progress == if self.caching() {
                Some(LoadProgress::start(self.budget()))
            } else {
                None
            },
    {
        let handle = self.cache.acquire_read();
        let progress = handle.borrow().initialize();
        handle.release_read();
        progress
    }

    /// Decides what is done with a file named `file_name` that holds
    /// `file_size` bytes, before it is read, by the state of the cache at
    /// some moment during the call.
    pub fn plan_file(&self, file_name: &str, file_size: u64) -> (step: LoadStep)
        ensures
            exists|cache: FileCacheView|
                self.may_hold(cache) && step == #[trigger] load_plan(cache, file_name@, file_size),
            is_skipped_name(file_name@) <==> step == LoadStep::Skip,
            !self.caching() && !is_skipped_name(file_name@) ==> step == LoadStep::Refuse,
    {
        let handle = self.cache.acquire_read();
        let step = handle.borrow().plan_file(file_name, file_size);
        proof {
            let seen = handle.view()@;
            assert(self.may_hold(seen) && step == load_plan(seen, file_name@, file_size));
        }
        handle.release_read();
        step
    }

    /// Stores a file that was read from disk, if the state in which the call
    /// finds the cache admits it, and hands the cache back as that state
    /// with the file loaded. Returns the bytes stored: all, or zero.
    pub fn load_file(&self, relative_path: &str, content: Vec<u8>, last_modified: u64) -> (loaded:
        u64)
        ensures
            exists|before: FileCacheView, now: u64|
                {
                    &&& self.may_hold(before)
                    &&& self.may_hold(
                        #[trigger] before.loaded(
                            with_forward_slashes(relative_path@),
                            content@,
                            guessed_mime(relative_path@),
                            last_modified,
                            now,
                        ),
                    )
                    &&& loaded == if before.admits(content@.len()) {
                        content@.len()
                    } else {
                        0
                    }
                },
            loaded == 0 || loaded == content@.len(),
            loaded > 0 ==> self.caching() && content@.len() <= MAX_FILE_SIZE && content@.len()
                <= self.budget(),
            !self.caching() ==> loaded == 0,
            content@.len() > MAX_FILE_SIZE || content@.len() > self.budget() ==> loaded == 0,
    {
        let now = unix_now();
        let (mut cache, handle) = self.cache.acquire_write();
        let ghost before = cache@;
        let loaded = cache.load_file_at(relative_path, content, last_modified, now);
        proof {
            let after = before.loaded(
                with_forward_slashes(relative_path@),
                content@,
                guessed_mime(relative_path@),
                last_modified,
                now,
            );
            assert(cache@ == after);
            assert(self.may_hold(before) && self.may_hold(after));
        }
        handle.release_write(cache);
        loaded
    }

    /// Stores `content` under `path`, if the cache admits it at the moment
    /// it is offered. What an insertion does to a cache is stated by
    /// `FileCache::insert_at`; of a cache that other tasks use at the same
    /// time, nothing can be said from outside but that it stays consistent.
    pub fn cache_insert(&self, path: String, content: Vec<u8>, mime_type: String) {
        let (mut cache, handle) = self.cache.acquire_write();
        cache.insert_async(path, content, mime_type);
        handle.release_write(cache);
    }

    /// Decides how a request is answered, by the state of the cache at some
    /// moment during the call.
    pub fn handle_request(&self, method: &str, raw_path: &str) -> (step: Dispatch)
        ensures
            exists|cache: FileCacheView, now: u64|
                self.may_hold(cache) && step@ == #[trigger] request_decision(
                    self.settings().api@,
                    cache,
                    method@,
                    raw_path@,
                    now,
                ),
    {
        let now = unix_now();
        let (mut cache, handle) = self.cache.acquire_write();
        let ghost before = cache@;
        let step = handle_request_at(method, raw_path, &self.config, &mut cache, now);
        proof {
            assert(self.may_hold(before) && step@ == request_decision(
                self.settings().api@,
                before,
                method@,
                raw_path@,
                now,
            ));
        }
        handle.release_write(cache);
        step
    }

    /// Decides what follows the reading of the file at `path`, by the state
    /// of the cache at some moment during the call: `content` holds what was
    /// read, or nothing where the file could not be read.
    pub fn handle_file_read(&self, path: &str, content: Option<Vec<u8>>) -> (step: Dispatch)
        ensures
            exists|cache: FileCacheView, now: u64|
                self.may_hold(cache) && step@ == #[trigger] file_read_decision(
                    cache,
                    path@,
                    bytes_of(content),
                    now,
                ),
    {
        let now = unix_now();
        let (mut cache, handle) = self.cache.acquire_write();
        let ghost before = cache@;
        let step = handle_file_read_at(path, content, &mut cache, now);
        proof {
            assert(self.may_hold(before) && step@ == file_read_decision(
                before,
                path@,
                bytes_of(content),
                now,
            ));
        }
        handle.release_write(cache);
        step
    }

    /// Decides how a request is answered whose forwarding failed, by the
    /// state of the cache at some moment during the call.
    pub fn handle_forward_failure(&self) -> (step: Dispatch)
        ensures
            exists|cache: FileCacheView, now: u64|
                self.may_hold(cache) && step@ == #[trigger] error_page_decision(cache, 502, now),
    {
        let now = unix_now();
        let (mut cache, handle) = self.cache.acquire_write();
        let ghost before = cache@;
        let step = handle_forward_failure_at(&mut cache, now);
        proof {
            assert(self.may_hold(before) && step@ == error_page_decision(before, 502, now));
        }
        handle.release_write(cache);
        step
    }

    /// Sweeps the entries that were not read for an hour. What a sweep does
    /// to a cache is stated by `FileCache::cleanup_at`; of a cache that other
    /// tasks use at the same time, nothing can be said from outside but that
    /// it stays consistent.
    pub fn sweep(&self) {
        let (mut cache, handle) = self.cache.acquire_write();
        cache.cleanup_old_entries(SWEEP_MAX_AGE_SECS);
        handle.release_write(cache);
    }
}

/// A path whose normalized form holds `..` or `//` is refused with status
/// 403, whatever the cache holds, and the cache is left exactly as it was.
pub proof fn law_unsafe_paths_are_refused(cache: FileCacheView, path: Seq<char>, now: u64)
    requires
        is_unsafe_path(cache_key(path)),
    ensures
        static_decision(cache, path, now) == DispatchView::Respond(
            error_response(403, "Access denied"@),
        ),
        static_decision(cache, path, now) matches DispatchView::Respond(r) && r.status == 403,
        cache_after_static(cache, path, now) == cache,
{
}

/// A request that falls under no route and whose normalized path holds
/// `..` or `//` is refused with status 403; the cache is left exactly as it
/// was and no file is asked for.
pub proof fn law_unsafe_requests_are_refused(
    routes: Seq<ApiConfig>,
    cache: FileCacheView,
    method: Seq<char>,
    raw_path: Seq<char>,
    path: Seq<char>,
    now: u64,
)
    requires
        method != "OPTIONS"@,
        percent_decoded(raw_path) == Some(path),
        first_route(routes, path) is None,
        is_unsafe_path(cache_key(path)),
    ensures
        request_decision(routes, cache, method, raw_path, now) == DispatchView::Respond(
            error_response(403, "Access denied"@),
        ),
        cache_after_request(routes, cache, method, raw_path, now) == cache,
{
}

/// A file that the cache holds is served as it was stored: with status
/// 200, its stored bytes and its stored content type.
pub proof fn law_cached_files_are_served_as_stored(
    cache: FileCacheView,
    path: Seq<char>,
    now: u64,
)
    requires
        !is_unsafe_path(cache_key(path)),
        cache.hit(fast_key(cache_key(path))),
    ensures
        static_decision(cache, path, now) == DispatchView::Respond(
            HttpResponseView {
                status: 200,
                headers: content_headers(cache.entries[fast_key(cache_key(path))].mime_type),
                body: cache.entries[fast_key(cache_key(path))].content,
            },
        ),
{
}

/// Every request comes to a response in at most three steps: a request of
/// a file is answered or leads to one read of a file; a file that was read
/// is served, and one that was not leads to the error page; the search for
/// an error page is answered or leads to one read of a page; and what
/// follows that read is always a response.
pub proof fn law_every_step_leads_on(
    cache: FileCacheView,
    path: Seq<char>,
    content: Option<Seq<u8>>,
    status: u16,
    now: u64,
)
    ensures
        static_decision(cache, path, now) is Respond || static_decision(cache, path, now)
            == (DispatchView::ReadFile { path: cache_key(path) }),
        file_read_decision(cache, path, content, now) is Respond || file_read_decision(
            cache,
            path,
            content,
            now,
        ) == (DispatchView::ReadErrorPage { status: 404, file_name: error_file(404) }),
        error_page_decision(cache, status, now) is Respond || error_page_decision(
            cache,
            status,
            now,
        ) == (DispatchView::ReadErrorPage { status, file_name: error_file(status) }),
        error_page_decision(cache, status, now) matches DispatchView::Respond(r) ==> r.status
            == status,
        error_read_response(status, content).status == status,
{
}

/// A preflight request is answered with an empty 200 and the permissive
/// headers; neither the routes nor the cache are consulted.
pub proof fn law_preflight_is_answered_at_once(
    routes: Seq<ApiConfig>,
    cache: FileCacheView,
    raw_path: Seq<char>,
    now: u64,
)
    ensures
        request_decision(routes, cache, "OPTIONS"@, raw_path, now) == DispatchView::Respond(
            HttpResponseView { status: 200, headers: cors_headers(), body: Seq::empty() },
        ),
        cache_after_request(routes, cache, "OPTIONS"@, raw_path, now) == cache,
{
}

/// The first route whose prefix begins the path wins: a request is proxied
/// under route `i` only if no earlier route matches, and a path that some
/// route matches is never served as a file.
pub proof fn law_first_matching_route_wins(
    routes: Seq<ApiConfig>,
    cache: FileCacheView,
    path: Seq<char>,
    now: u64,
    i: int,
)
    requires
        0 <= i < routes.len(),
        routes[i].from@.is_prefix_of(path),
        forall|earlier: int| 0 <= earlier < i ==> !(#[trigger] routes[earlier]).from@.is_prefix_of(
            path,
        ),
    ensures
        first_route(routes, path) == Some(i),
        decoded_decision(routes, cache, Some(path), now) == proxy_decision(
            i as usize,
            routes[i],
            path,
        ),
        cache_after_decoded(routes, cache, Some(path), now) == cache,
{
    lemma_first_route(routes, path, 0);
}

} // verus!
