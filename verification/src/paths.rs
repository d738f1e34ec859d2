//! Request paths: how a path names a cache entry, which paths are refused,
//! and how the path of a file on disk becomes its key.

use vstd::prelude::*;
use crate::text::{chars_of, contains_pair, has_pair, string_of};

verus! {

/// The key of the entry that answers a request for the site root.
pub open spec fn index_key() -> Seq<char> {
    "index.html"@
}

/// `path` without one leading slash, if it has one.
pub open spec fn strip_leading_slash(path: Seq<char>) -> Seq<char> {
    if path.len() > 0 && path[0] == '/' {
        path.skip(1)
    } else {
        path
    }
}

/// The cache key that a lookup of `path` resolves to: one leading slash is
/// dropped, and what is then empty or a bare slash names the index page.
pub open spec fn cache_key(path: Seq<char>) -> Seq<char> {
    let rest = strip_leading_slash(path);
    if rest.len() == 0 || rest == seq!['/'] {
        index_key()
    } else {
        rest
    }
}

/// The cache key of the quick lookup: the empty path and the bare slash name
/// the index page, any other path loses one leading slash.
pub open spec fn fast_key(path: Seq<char>) -> Seq<char> {
    if path.len() == 0 || path == seq!['/'] {
        index_key()
    } else {
        strip_leading_slash(path)
    }
}

/// The path holds a parent-directory segment (`..`) or a doubled separator
/// (`//`).
pub open spec fn is_unsafe_path(path: Seq<char>) -> bool {
    contains_pair(path, '.', '.') || contains_pair(path, '/', '/')
}

/// `path` with every backslash turned into a forward slash.
pub open spec fn with_forward_slashes(path: Seq<char>) -> Seq<char> {
    Seq::new(
        path.len(),
        |i: int|
            if path[i] == '\\' {
                '/'
            } else {
                path[i]
            },
    )
}

/// Computes `cache_key`.
pub fn cache_key_of(path: &str) -> (key: String)
    ensures
        key@ == cache_key(path@),
{
    let chars = chars_of(path);
    let start: usize = if chars.len() > 0 && chars[0] == '/' {
        1
    } else {
        0
    };
    let rest_len: usize = chars.len() - start;
    proof {
        assert(strip_leading_slash(path@) =~= chars@.subrange(start as int, chars.len() as int));
    }
    if rest_len == 0 || (rest_len == 1 && chars[start] == '/') {
        proof {
            let rest = strip_leading_slash(path@);
            if rest_len == 1 {
                assert(rest =~= seq!['/']);
            }
        }
        "index.html".to_owned()
    } else {
        proof {
            let rest = strip_leading_slash(path@);
            if rest == seq!['/'] {
                assert(rest.len() == 1);
                assert(rest[0] == '/');
            }
        }
        string_of(&chars, start, chars.len())
    }
}

/// Computes `fast_key`.
pub fn fast_key_of(path: &str) -> (key: String)
    ensures
        key@ == fast_key(path@),
{
    let chars = chars_of(path);
    if chars.len() == 0 || (chars.len() == 1 && chars[0] == '/') {
        proof {
            if chars.len() == 1 {
                assert(path@ =~= seq!['/']);
            }
        }
        "index.html".to_owned()
    } else {
        proof {
            if path@ == seq!['/'] {
                assert(path@.len() == 1);
                assert(path@[0] == '/');
            }
        }
        let start: usize = if chars[0] == '/' {
            1
        } else {
            0
        };
        proof {
            assert(strip_leading_slash(path@) =~= chars@.subrange(start as int, chars.len() as int));
        }
        string_of(&chars, start, chars.len())
    }
}

/// Whether `path` is refused for holding `..` or `//`.
pub fn is_unsafe(path: &str) -> (refused: bool)
    ensures
        refused == is_unsafe_path(path@),
{
    let chars = chars_of(path);
    has_pair(&chars, '.', '.') || has_pair(&chars, '/', '/')
}

/// Turns the backslashes of a relative path into forward slashes, so that
/// the key of a file is the same on every platform.
pub fn normalize_separators(path: &str) -> (key: String)
    ensures
        key@ == with_forward_slashes(path@),
{
    let chars = chars_of(path);
    let mut out = String::new();
    let mut i: usize = 0;
    while i < chars.len()
        invariant
            i <= chars.len(),
            chars@ == path@,
            out@ == with_forward_slashes(path@).take(i as int),
        decreases chars.len() - i,
    {
        let c = if chars[i] == '\\' {
            '/'
        } else {
            chars[i]
        };
        out.push(c);
        proof {
            let all = with_forward_slashes(path@);
            assert(all.take(i + 1) =~= all.take(i as int).push(all[i as int]));
        }
        i += 1;
    }
    proof {
        let all = with_forward_slashes(path@);
        assert(all.take(chars.len() as int) =~= all);
    }
    out
}

/// Whether the name of a file marks it as hidden (a leading dot) or as a
/// temporary copy (a trailing tilde). Such files are never loaded.
pub open spec fn is_skipped_name(name: Seq<char>) -> bool {
    name.len() > 0 && (name[0] == '.' || name.last() == '~')
}

/// Computes `is_skipped_name`.
pub fn skips_name(name: &str) -> (skipped: bool)
    ensures
        skipped == is_skipped_name(name@),
{
    let chars = chars_of(name);
    chars.len() > 0 && (chars[0] == '.' || chars[chars.len() - 1] == '~')
}

/// The root path resolves to the index page however it is written.
pub proof fn lemma_root_paths_share_a_key()
    ensures
        cache_key(Seq::empty()) == index_key(),
        cache_key(seq!['/']) == index_key(),
        cache_key(index_key()) == index_key(),
        fast_key(Seq::empty()) == index_key(),
        fast_key(seq!['/']) == index_key(),
        fast_key(index_key()) == index_key(),
{
    reveal_strlit("index.html");
    assert(strip_leading_slash(seq!['/']) =~= Seq::<char>::empty());
    assert(index_key().len() == 10);
    assert(index_key()[0] == 'i');
}

/// The two lookups resolve every path but the doubled slash to the same
/// key.
pub proof fn law_lookups_agree(path: Seq<char>)
    requires
        path != seq!['/', '/'],
    ensures
        cache_key(path) == fast_key(path),
{
    let rest = strip_leading_slash(path);
    if rest == seq!['/'] {
        assert(rest.len() == 1 && rest[0] == '/');
        if path.len() > 0 && path[0] == '/' {
            assert(path.len() == 2);
            assert(path[1] == rest[0]);
            assert(path =~= seq!['/', '/']);
        }
    }
    if path == seq!['/'] {
        assert(path.len() == 1 && path[0] == '/');
        assert(rest.len() == 0);
    }
    if rest.len() == 0 && path.len() > 0 {
        assert(path.len() == 1);
        assert(path =~= seq!['/']);
    }
}

} // verus!
