//! The configuration that the server is started with, and the reading of the
//! cache budget from its textual form.

use vstd::prelude::*;
use std::path::PathBuf;
use crate::text::{chars_of, ends_with, string_of};

verus! {

/// A proxy route: requests whose path begins with `from` are forwarded with
/// that prefix replaced by `to`.
#[derive(Debug, Clone)]
pub struct ApiConfig {
    pub name: String,
    pub from: String,
    pub to: String,
}

/// The settings of the server itself.
#[derive(Debug, Clone)]
pub struct ServerConfig {
    pub port: u16,
    pub name: String,
    pub max_cache_size: String,
    pub cache_enabled: bool,
    pub max_connections: usize,
}

/// Where the served files and the error pages lie.
#[derive(Debug, Clone)]
pub struct StaticConfig {
    pub root_directory: PathBuf,
    pub error_pages_directory: PathBuf,
}

/// The whole configuration. The order of `api` is the order in which routes
/// are tried.
#[derive(Debug, Clone)]
pub struct Config {
    pub server: ServerConfig,
    pub static_config: StaticConfig,
    pub api: Vec<ApiConfig>,
}

/// Why a cache budget could not be read.
#[derive(Debug)]
pub enum ConfigError {
    /// The text, in lower case, is not a number with an optional unit.
    InvalidCacheSize { value: String },
    /// The number of bytes does not fit in 64 bits.
    CacheSizeTooLarge { value: String },
}

/// What went wrong, without the text that was read.
pub enum SizeFault {
    Invalid,
    TooLarge,
}

impl ConfigError {
    /// The kind of the error.
    pub open spec fn fault(self) -> SizeFault {
        match self {
            ConfigError::InvalidCacheSize { .. } => SizeFault::Invalid,
            ConfigError::CacheSizeTooLarge { .. } => SizeFault::TooLarge,
        }
    }

    /// The text that could not be read.
    pub open spec fn text(self) -> Seq<char> {
        match self {
            ConfigError::InvalidCacheSize { value } => value@,
            ConfigError::CacheSizeTooLarge { value } => value@,
        }
    }

    /// The error as a line for the operator.
    pub fn message(&self) -> (line: String)
        ensures
            line@ == (match self.fault() {
                SizeFault::Invalid => "无效的缓存大小: "@,
                SizeFault::TooLarge => "缓存大小超出范围: "@,
            }) + self.text(),
    {
        match self {
            ConfigError::InvalidCacheSize { value } => {
                let mut line = "无效的缓存大小: ".to_owned();
                line.push_str(value.as_str());
                line
            },
            ConfigError::CacheSizeTooLarge { value } => {
                let mut line = "缓存大小超出范围: ".to_owned();
                line.push_str(value.as_str());
                line
            },
        }
    }
}

/// `str::to_lowercase`: the text with every character replaced by its
/// lower-case form in Unicode.
pub uninterp spec fn lowercased(text: Seq<char>) -> Seq<char>;

/// `str::to_lowercase` on `text`.
#[verifier::external_body]
fn to_lowercase(text: &str) -> (lowered: String)
    ensures
        lowered@ == lowercased(text@),
{
    text.to_lowercase()
}

/// The characters that count as white space (the Unicode property
/// `White_Space`).
pub open spec fn is_whitespace(c: char) -> bool {
    let u = c as u32;
    ||| 0x09 <= u <= 0x0D
    ||| u == 0x20
    ||| u == 0x85
    ||| u == 0xA0
    ||| u == 0x1680
    ||| 0x2000 <= u <= 0x200A
    ||| u == 0x2028
    ||| u == 0x2029
    ||| u == 0x202F
    ||| u == 0x205F
    ||| u == 0x3000
}

/// `s` without the white space at its start.
pub open spec fn skip_leading_space(s: Seq<char>) -> Seq<char>
    decreases s.len(),
{
    if s.len() > 0 && is_whitespace(s[0]) {
        skip_leading_space(s.skip(1))
    } else {
        s
    }
}

/// `s` without the white space at its end.
pub open spec fn drop_trailing_space(s: Seq<char>) -> Seq<char>
    decreases s.len(),
{
    if s.len() > 0 && is_whitespace(s.last()) {
        drop_trailing_space(s.drop_last())
    } else {
        s
    }
}

/// `s` without the white space at either end.
pub open spec fn trimmed(s: Seq<char>) -> Seq<char> {
    drop_trailing_space(skip_leading_space(s))
}

/// `c` is one of the ten decimal digits.
pub open spec fn is_digit(c: char) -> bool {
    '0' <= c <= '9'
}

/// The number that a sequence of digits writes in base ten.
pub open spec fn number_of(digits: Seq<char>) -> nat
    decreases digits.len(),
{
    if digits.len() == 0 {
        0
    } else {
        number_of(digits.drop_last()) * 10 + (digits.last() as u32 - '0' as u32) as nat
    }
}

/// The digits of a numeral: the text without one leading plus sign.
pub open spec fn unsigned_part(s: Seq<char>) -> Seq<char> {
    if s.len() > 0 && s[0] == '+' {
        s.skip(1)
    } else {
        s
    }
}

/// `s` is a numeral: an optional plus sign and then one digit or more.
pub open spec fn is_numeral(s: Seq<char>) -> bool {
    let digits = unsigned_part(s);
    digits.len() > 0 && forall|i: int| 0 <= i < digits.len() ==> is_digit(#[trigger] digits[i])
}

/// The number that `s` writes, if `s` is a numeral of a number that fits in
/// 64 bits.
pub open spec fn parsed_u64(s: Seq<char>) -> Option<u64> {
    if is_numeral(s) && number_of(unsigned_part(s)) <= u64::MAX {
        Some(number_of(unsigned_part(s)) as u64)
    } else {
        None
    }
}

/// The number of characters of the unit at the end of `lowered`: the first
/// of `kb`, `mb`, `gb`, `k`, `m`, `g` that it ends with, else none.
pub open spec fn unit_len(lowered: Seq<char>) -> nat {
    if "kb"@.is_suffix_of(lowered) || "mb"@.is_suffix_of(lowered) || "gb"@.is_suffix_of(lowered) {
        2
    } else if "k"@.is_suffix_of(lowered) || "m"@.is_suffix_of(lowered) || "g"@.is_suffix_of(
        lowered,
    ) {
        1
    } else {
        0
    }
}

/// The number of bytes that the unit at the end of `lowered` stands for.
pub open spec fn unit_factor(lowered: Seq<char>) -> nat {
    if "kb"@.is_suffix_of(lowered) {
        1024
    } else if "mb"@.is_suffix_of(lowered) {
        1024 * 1024
    } else if "gb"@.is_suffix_of(lowered) {
        1024 * 1024 * 1024
    } else if "k"@.is_suffix_of(lowered) {
        1024
    } else if "m"@.is_suffix_of(lowered) {
        1024 * 1024
    } else if "g"@.is_suffix_of(lowered) {
        1024 * 1024 * 1024
    } else {
        1
    }
}

/// The numeral in front of the unit, with the white space around it taken
/// off.
pub open spec fn amount_text(lowered: Seq<char>) -> Seq<char> {
    trimmed(lowered.take(lowered.len() - unit_len(lowered)))
}

/// The budget in bytes that a text in lower case stands for, or what is
/// wrong with it.
pub open spec fn cache_size_of(lowered: Seq<char>) -> Result<u64, SizeFault> {
    match parsed_u64(amount_text(lowered)) {
        None => Err(SizeFault::Invalid),
        Some(amount) => if amount * unit_factor(lowered) <= u64::MAX {
            Ok((amount * unit_factor(lowered)) as u64)
        } else {
            Err(SizeFault::TooLarge)
        },
    }
}

/// Computes `is_whitespace`.
fn is_space(c: char) -> (space: bool)
    ensures
        space == is_whitespace(c),
{
    let u = c as u32;
    (0x09 <= u && u <= 0x0D) || u == 0x20 || u == 0x85 || u == 0xA0 || u == 0x1680 || (0x2000 <= u
        && u <= 0x200A) || u == 0x2028 || u == 0x2029 || u == 0x202F || u == 0x205F || u == 0x3000
}

/// The bounds of `v[..end]` without the white space at either end.
fn trim_bounds(v: &Vec<char>, end: usize) -> (bounds: (usize, usize))
    requires
        end <= v.len(),
    ensures
        bounds.0 <= bounds.1 <= end,
        v@.subrange(bounds.0 as int, bounds.1 as int) == trimmed(v@.take(end as int)),
{
    let ghost whole = v@.take(end as int);
    let mut from: usize = 0;
    assert(whole.skip(0) =~= whole);
    while from < end && is_space(v[from])
        invariant
            from <= end <= v.len(),
            whole == v@.take(end as int),
            skip_leading_space(whole) == skip_leading_space(whole.skip(from as int)),
        decreases end - from,
    {
        proof {
            let rest = whole.skip(from as int);
            assert(rest[0] == v@[from as int]);
            assert(rest.skip(1) =~= whole.skip(from + 1));
        }
        from += 1;
    }
    proof {
        let rest = whole.skip(from as int);
        if from < end {
            assert(rest[0] == v@[from as int]);
        }
        assert(skip_leading_space(rest) == rest);
        assert(rest =~= v@.subrange(from as int, end as int));
    }
    let ghost front = v@.subrange(from as int, end as int);
    let mut to: usize = end;
    while to > from && is_space(v[to - 1])
        invariant
            from <= to <= end <= v.len(),
            front == v@.subrange(from as int, end as int),
            drop_trailing_space(front) == drop_trailing_space(
                v@.subrange(from as int, to as int),
            ),
        decreases to - from,
    {
        proof {
            let part = v@.subrange(from as int, to as int);
            assert(part.last() == v@[to - 1]);
            assert(part.drop_last() =~= v@.subrange(from as int, to - 1));
        }
        to -= 1;
    }
    proof {
        let part = v@.subrange(from as int, to as int);
        if to > from {
            assert(part.last() == v@[to - 1]);
        }
        assert(drop_trailing_space(part) == part);
    }
    (from, to)
}

/// A numeral is worth at least as much as any part of it from the left.
proof fn lemma_number_grows(digits: Seq<char>, n: int)
    requires
        0 <= n <= digits.len(),
    ensures
        number_of(digits.take(n)) <= number_of(digits),
    decreases digits.len() - n,
{
    if n == digits.len() {
        assert(digits.take(n) =~= digits);
    } else {
        lemma_number_grows(digits, n + 1);
        assert(digits.take(n + 1).drop_last() =~= digits.take(n));
    }
}

/// Reads the numeral `v[from..to]`.
fn parse_number(v: &Vec<char>, from: usize, to: usize) -> (number: Option<u64>)
    requires
        from <= to <= v.len(),
    ensures
        number == parsed_u64(v@.subrange(from as int, to as int)),
{
    let ghost s = v@.subrange(from as int, to as int);
    let start: usize = if from < to && v[from] == '+' {
        from + 1
    } else {
        from
    };
    let ghost digits = v@.subrange(start as int, to as int);
    proof {
        if from < to {
            assert(s[0] == v@[from as int]);
        }
        assert(unsigned_part(s) =~= digits);
    }
    if start == to {
        return None;
    }
    let mut acc: u64 = 0;
    let mut i: usize = start;
    while i < to
        invariant
            start <= i <= to <= v.len(),
            start < to,
            digits == v@.subrange(start as int, to as int),
            s == v@.subrange(from as int, to as int),
            unsigned_part(s) == digits,
            forall|j: int| 0 <= j < i - start ==> is_digit(#[trigger] digits[j]),
            acc == number_of(digits.take(i - start)),
        decreases to - i,
    {
        let c = v[i];
        proof {
            assert(digits[i - start] == c);
            assert(digits.take(i - start + 1).drop_last() =~= digits.take(i - start));
            assert(digits.take(i - start + 1).last() == c);
        }
        if !('0' <= c && c <= '9') {
            assert(!is_digit(digits[i - start]));
            return None;
        }
        let d: u64 = (c as u32 - '0' as u32) as u64;
        let next = match acc.checked_mul(10) {
            Some(tens) => tens.checked_add(d),
            None => None,
        };
        match next {
            Some(n) => {
                acc = n;
            },
            None => {
                proof {
                    lemma_number_grows(digits, i - start + 1);
                    assert(number_of(digits.take(i - start + 1)) == acc * 10 + d);
                }
                return None;
            },
        }
        i += 1;
    }
    proof {
        assert(digits.take(to - start) =~= digits);
    }
    Some(acc)
}

/// Whether the characters `v` end with `unit`.
fn has_unit(v: &Vec<char>, unit: &str) -> (yes: bool)
    ensures
        yes == unit@.is_suffix_of(v@),
{
    let u = chars_of(unit);
    ends_with(v, &u)
}

/// Reads a cache budget from a text in lower case: a number of bytes, or a
/// number followed by the unit `k`/`kb`, `m`/`mb` or `g`/`gb`, which counts
/// in powers of 1024. White space around the number is ignored.
pub fn size_from_lowercase(lowered: &str) -> (size: Result<u64, ConfigError>)
    ensures
        match size {
            Ok(bytes) => cache_size_of(lowered@) == Ok::<u64, SizeFault>(bytes),
            Err(e) => cache_size_of(lowered@) == Err::<u64, SizeFault>(e.fault()) && e.text()
                == lowered@,
        },
{
    let v = chars_of(lowered);
    proof {
        reveal_strlit("kb");
        reveal_strlit("mb");
        reveal_strlit("gb");
        reveal_strlit("k");
        reveal_strlit("m");
        reveal_strlit("g");
    }
    let (unit, factor): (usize, u64) = if has_unit(&v, "kb") {
        (2, 1024)
    } else if has_unit(&v, "mb") {
        (2, 1024 * 1024)
    } else if has_unit(&v, "gb") {
        (2, 1024 * 1024 * 1024)
    } else if has_unit(&v, "k") {
        (1, 1024)
    } else if has_unit(&v, "m") {
        (1, 1024 * 1024)
    } else if has_unit(&v, "g") {
        (1, 1024 * 1024 * 1024)
    } else {
        (0, 1)
    };
    assert(unit == unit_len(lowered@));
    assert(factor == unit_factor(lowered@));
    let end: usize = v.len() - unit;
    let (from, to) = trim_bounds(&v, end);
    match parse_number(&v, from, to) {
        None => Err(ConfigError::InvalidCacheSize { value: string_of(&v, 0, v.len()) }),
        Some(amount) => match amount.checked_mul(factor) {
            Some(bytes) => Ok(bytes),
            None => Err(ConfigError::CacheSizeTooLarge { value: string_of(&v, 0, v.len()) }),
        },
    }
}

impl Config {
    /// The port to listen on.
    pub fn get_port(&self) -> (port: u16)
        ensures
            port == self.server.port,
    {
        self.server.port
    }

    /// The name the server gives itself.
    pub fn get_server_name(&self) -> (name: &str)
        ensures
            name@ == self.server.name@,
    {
        self.server.name.as_str()
    }

    /// The directory that files are served from.
    pub fn get_root_directory(&self) -> (dir: &PathBuf)
        ensures
            *dir == self.static_config.root_directory,
    {
        &self.static_config.root_directory
    }

    /// The directory that error pages are read from.
    pub fn get_error_pages_directory(&self) -> (dir: &PathBuf)
        ensures
            *dir == self.static_config.error_pages_directory,
    {
        &self.static_config.error_pages_directory
    }

    /// The cache budget in bytes, read from its textual form.
    pub fn get_max_cache_size(&self) -> (size: Result<u64, ConfigError>)
        ensures
            match size {
                Ok(bytes) => cache_size_of(lowercased(self.server.max_cache_size@)) == Ok::<
                    u64,
                    SizeFault,
                >(bytes),
                Err(e) => cache_size_of(lowercased(self.server.max_cache_size@)) == Err::<
                    u64,
                    SizeFault,
                >(e.fault()) && e.text() == lowercased(self.server.max_cache_size@),
            },
    {
        Self::parse_cache_size(self.server.max_cache_size.as_str())
    }

    /// Whether files are cached at all.
    pub fn is_cache_enabled(&self) -> (enabled: bool)
        ensures
            enabled == self.server.cache_enabled,
    {
        self.server.cache_enabled
    }

    /// The configured limit on connections.
    pub fn get_max_connections(&self) -> (limit: usize)
        ensures
            limit == self.server.max_connections,
    {
        self.server.max_connections
    }

    /// The proxy routes, in the order in which they are tried.
    pub fn get_api_configs(&self) -> (routes: &Vec<ApiConfig>)
        ensures
            *routes == self.api,
    {
        &self.api
    }

    /// Reads a cache budget. The unit may be written in either case.
    pub fn parse_cache_size(value: &str) -> (size: Result<u64, ConfigError>)
        ensures
            match size {
                Ok(bytes) => cache_size_of(lowercased(value@)) == Ok::<u64, SizeFault>(bytes),
                Err(e) => cache_size_of(lowercased(value@)) == Err::<u64, SizeFault>(e.fault())
                    && e.text() == lowercased(value@),
            },
    {
        let lowered = to_lowercase(value);
        size_from_lowercase(lowered.as_str())
    }
}

} // verus!
