//! Proxy routes: which route a path falls under, the target it is rewritten
//! to, and the decoding of a request path.

use vstd::prelude::*;
use vstd::utf8::{decode_utf8, encode_utf8, valid_utf8};
use crate::config::ApiConfig;
use crate::text::{chars_of, starts_with, string_of};

verus! {

/// The value of a hexadecimal digit, written in either case.
pub open spec fn hex_value(b: u8) -> Option<u8> {
    if 0x30 <= b <= 0x39 {
        Some((b - 0x30) as u8)
    } else if 0x41 <= b <= 0x46 {
        Some((b - 0x41 + 10) as u8)
    } else if 0x61 <= b <= 0x66 {
        Some((b - 0x61 + 10) as u8)
    } else {
        None
    }
}

/// Percent-decoding of bytes: a percent sign followed by two hexadecimal
/// digits becomes the byte that they write; every other byte stays.
pub open spec fn percent_decoded_bytes(bytes: Seq<u8>) -> Seq<u8>
    decreases bytes.len(),
{
    if bytes.len() == 0 {
        bytes
    } else if bytes[0] == 0x25 && bytes.len() >= 3 && hex_value(bytes[1]) is Some && hex_value(
        bytes[2],
    ) is Some {
        seq![(hex_value(bytes[1])->0 * 16 + hex_value(bytes[2])->0) as u8] + percent_decoded_bytes(
            bytes.skip(3),
        )
    } else {
        seq![bytes[0]] + percent_decoded_bytes(bytes.skip(1))
    }
}

/// Percent-decoding of a path: its bytes are decoded, and the result is a
/// path only if those bytes are well-formed UTF-8.
pub open spec fn percent_decoded(path: Seq<char>) -> Option<Seq<char>> {
    let bytes = percent_decoded_bytes(encode_utf8(path));
    if valid_utf8(bytes) {
        Some(decode_utf8(bytes))
    } else {
        None
    }
}

/// `percent_encoding::percent_decode_str(path).decode_utf8()`: the decoded
/// path, or nothing where the decoded bytes are not UTF-8.
#[verifier::external_body]
pub(crate) fn percent_decode(path: &str) -> (decoded: Option<String>)
    ensures
        decoded matches Some(text) ==> percent_decoded(path@) == Some(text@),
        decoded is None ==> percent_decoded(path@) is None,
{
    match percent_encoding::percent_decode_str(path).decode_utf8() {
        Ok(text) => Some(text.into_owned()),
        Err(_) => None,
    }
}

/// Whether `hyper::Uri` accepts `target` as a request target.
pub uninterp spec fn is_request_target(target: Seq<char>) -> bool;

/// `str::parse::<hyper::Uri>` on `target`, for its verdict alone.
#[verifier::external_body]
pub(crate) fn parses_as_uri(target: &str) -> (valid: bool)
    ensures
        valid == is_request_target(target@),
{
    target.parse::<hyper::Uri>().is_ok()
}

/// `pattern` stands in `s` at position `at`.
pub open spec fn occurs_at(s: Seq<char>, pattern: Seq<char>, at: int) -> bool {
    0 <= at && at + pattern.len() <= s.len() && s.subrange(at, at + pattern.len()) == pattern
}

/// The first position at or behind `from` where `pattern` stands in `s`.
pub open spec fn first_occurrence_from(s: Seq<char>, pattern: Seq<char>, from: int) -> Option<
    int,
>
    decreases s.len() - from + 1,
{
    if from < 0 || from + pattern.len() > s.len() {
        None
    } else if occurs_at(s, pattern, from) {
        Some(from)
    } else {
        first_occurrence_from(s, pattern, from + 1)
    }
}

/// `path` with the first occurrence of `from` replaced by `to`. Nothing else
/// changes; a path without `from` stays as it is.
pub open spec fn rewritten(path: Seq<char>, from: Seq<char>, to: Seq<char>) -> Seq<char> {
    match first_occurrence_from(path, from, 0) {
        Some(at) => path.take(at) + to + path.skip(at + from.len()),
        None => path,
    }
}

/// The first route at or behind position `i` whose source prefix begins
/// `path`.
pub open spec fn first_route_from(routes: Seq<ApiConfig>, path: Seq<char>, i: int) -> Option<
    int,
>
    decreases routes.len() - i,
{
    if i < 0 || i >= routes.len() {
        None
    } else if routes[i].from@.is_prefix_of(path) {
        Some(i)
    } else {
        first_route_from(routes, path, i + 1)
    }
}

/// The route that `path` falls under: the first one, in the configured
/// order, whose source prefix begins the path.
pub open spec fn first_route(routes: Seq<ApiConfig>, path: Seq<char>) -> Option<int> {
    first_route_from(routes, path, 0)
}

/// Whether `pattern` stands in `s` at position `at`.
fn stands_at(s: &Vec<char>, pattern: &Vec<char>, at: usize) -> (yes: bool)
    requires
        at + pattern.len() <= s.len(),
    ensures
        yes == occurs_at(s@, pattern@, at as int),
{
    let mut i: usize = 0;
    while i < pattern.len()
        invariant
            at + pattern.len() <= s.len(),
            i <= pattern.len(),
            forall|j: int| 0 <= j < i ==> s@[at + j] == pattern@[j],
        decreases pattern.len() - i,
    {
        if s[at + i] != pattern[i] {
            assert(s@.subrange(at as int, at + pattern.len())[i as int] != pattern@[i as int]);
            return false;
        }
        i += 1;
    }
    assert(s@.subrange(at as int, at + pattern.len()) =~= pattern@);
    true
}

/// Rewrites a path for forwarding: the first occurrence of `from` is
/// replaced by `to`, the rest is kept.
pub fn rewrite_target(path: &str, from: &str, to: &str) -> (target: String)
    ensures
        target@ == rewritten(path@, from@, to@),
{
    let s = chars_of(path);
    let pattern = chars_of(from);
    if pattern.len() > s.len() {
        return string_of(&s, 0, s.len());
    }
    let last: usize = s.len() - pattern.len();
    let mut at: usize = 0;
    loop
        invariant
            pattern.len() <= s.len(),
            last == s.len() - pattern.len(),
            at <= last,
            s@ == path@,
            pattern@ == from@,
            first_occurrence_from(s@, pattern@, 0) == first_occurrence_from(
                s@,
                pattern@,
                at as int,
            ),
        decreases last - at,
    {
        if stands_at(&s, &pattern, at) {
            let mut target = string_of(&s, 0, at);
            target.push_str(to);
            let rest = string_of(&s, at + pattern.len(), s.len());
            target.push_str(rest.as_str());
            return target;
        }
        if at == last {
            assert(first_occurrence_from(s@, pattern@, at + 1) is None);
            return string_of(&s, 0, s.len());
        }
        at += 1;
    }
}

/// Finds the route that `path` falls under.
pub fn find_route(routes: &Vec<ApiConfig>, path: &str) -> (found: Option<usize>)
    ensures
        match found {
            Some(i) => first_route(routes@, path@) == Some(i as int) && i < routes.len(),
            None => first_route(routes@, path@) is None,
        },
{
    let s = chars_of(path);
    let mut i: usize = 0;
    while i < routes.len()
        invariant
            i <= routes.len(),
            s@ == path@,
            first_route(routes@, path@) == first_route_from(routes@, path@, i as int),
        decreases routes.len() - i,
    {
        let prefix = chars_of(routes[i].from.as_str());
        if starts_with(&s, &prefix) {
            return Some(i);
        }
        i += 1;
    }
    None
}

/// A path that begins with `from` has its first occurrence of `from` at its
/// start: rewriting gives the destination followed by the rest of the path,
/// untouched.
pub proof fn law_rewrite_replaces_the_prefix(path: Seq<char>, from: Seq<char>, to: Seq<char>)
    requires
        from.is_prefix_of(path),
    ensures
        rewritten(path, from, to) == to + path.skip(from.len() as int),
        to.is_prefix_of(rewritten(path, from, to)),
        rewritten(path, from, to).skip(to.len() as int) == path.skip(from.len() as int),
{
    assert(path.subrange(0, from.len() as int) =~= from);
    assert(occurs_at(path, from, 0));
    let r = rewritten(path, from, to);
    assert(path.take(0) =~= Seq::<char>::empty());
    assert(r =~= to + path.skip(from.len() as int));
    assert(r.subrange(0, to.len() as int) =~= to);
    assert(r.skip(to.len() as int) =~= path.skip(from.len() as int));
}

/// Only the first occurrence is replaced: what stands before it and what
/// stands behind it are found unchanged in the result, around the
/// destination.
pub proof fn law_rewrite_touches_one_occurrence(
    path: Seq<char>,
    from: Seq<char>,
    to: Seq<char>,
    at: int,
)
    requires
        first_occurrence_from(path, from, 0) == Some(at),
    ensures
        0 <= at && at + from.len() <= path.len(),
        occurs_at(path, from, at),
        forall|earlier: int| 0 <= earlier < at ==> !occurs_at(path, from, earlier),
        rewritten(path, from, to).len() == path.len() - from.len() + to.len(),
        rewritten(path, from, to).take(at) == path.take(at),
        rewritten(path, from, to).subrange(at, at + to.len()) == to,
        rewritten(path, from, to).skip(at + to.len()) == path.skip(at + from.len()),
{
    lemma_first_occurrence(path, from, 0);
    let r = rewritten(path, from, to);
    assert(r.take(at) =~= path.take(at));
    assert(r.subrange(at, at + to.len()) =~= to);
    assert(r.skip(at + to.len()) =~= path.skip(at + from.len()));
}

/// What `first_occurrence_from` finds is an occurrence, and none lies
/// between the start of the search and it.
pub proof fn lemma_first_occurrence(s: Seq<char>, pattern: Seq<char>, from: int)
    requires
        0 <= from,
    ensures
        match first_occurrence_from(s, pattern, from) {
            Some(at) => from <= at && occurs_at(s, pattern, at) && forall|earlier: int|
                from <= earlier < at ==> !occurs_at(s, pattern, earlier),
            None => forall|later: int| from <= later ==> !occurs_at(s, pattern, later),
        },
    decreases s.len() - from + 1,
{
    if from + pattern.len() > s.len() {
    } else if occurs_at(s, pattern, from) {
    } else {
        lemma_first_occurrence(s, pattern, from + 1);
    }
}

/// The route that is found is the first that matches: its prefix begins the
/// path, and no route before it does.
pub proof fn lemma_first_route(routes: Seq<ApiConfig>, path: Seq<char>, i: int)
    requires
        0 <= i,
    ensures
        match first_route_from(routes, path, i) {
            Some(found) => i <= found < routes.len() && routes[found].from@.is_prefix_of(path)
                && forall|earlier: int|
                i <= earlier < found ==> !(#[trigger] routes[earlier]).from@.is_prefix_of(path),
            None => forall|later: int|
                i <= later < routes.len() ==> !(#[trigger] routes[later]).from@.is_prefix_of(path),
        },
    decreases routes.len() - i,
{
    if i < routes.len() && !routes[i].from@.is_prefix_of(path) {
        lemma_first_route(routes, path, i + 1);
    }
}

} // verus!
