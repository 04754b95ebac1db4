//! Response-cache rules: where an entry lives, when it is stale, and what
//! state a response carries.

use vstd::prelude::*;
use vstd::utf8::encode_utf8;
use sha2::Digest;
use crate::numeric::{nat_text, push_nat};

verus! {

/// Where a response came from: a fresh cache entry, a fetch after a miss,
/// or a fetch forced by `--refresh`.
#[derive(Clone, Copy, Debug, PartialEq, Eq, Structural)]
pub enum CacheState {
    Hit,
    Miss,
    Refresh,
}

pub open spec fn cache_state_name(state: CacheState) -> Seq<char> {
    match state {
        CacheState::Hit => "hit"@,
        CacheState::Miss => "miss"@,
        CacheState::Refresh => "refresh"@,
    }
}

impl CacheState {
    /// The lower-case name used in JSON and tables.
    pub fn as_text(&self) -> (r: String)
        ensures
            r@ == cache_state_name(*self),
    {
        match self {
            CacheState::Hit => String::from_str("hit"),
            CacheState::Miss => String::from_str("miss"),
            CacheState::Refresh => String::from_str("refresh"),
        }
    }
}

/// The SHA-256 digest of `data`.
pub uninterp spec fn sha256_of(data: Seq<u8>) -> Seq<u8>;

/// `sha2::Sha256::digest`. Claimed: the result is the SHA-256 digest of
/// `data` (named, not stated) and is 32 bytes long, the output size the
/// crate documents for SHA-256.
#[verifier::external_body]
fn sha256_digest(data: &[u8]) -> (r: Vec<u8>)
    ensures
        r@ == sha256_of(data@),
        r@.len() == 32,
{
    sha2::Sha256::digest(data).to_vec()
}

pub open spec fn hex_digit(n: int) -> char {
    if n < 10 {
        ('0' as int + n) as char
    } else {
        ('a' as int + n - 10) as char
    }
}

/// Lower-case hexadecimal text of `data`, two digits per byte.
pub open spec fn hex_lower(data: Seq<u8>) -> Seq<char>
    decreases data.len(),
{
    if data.len() == 0 {
        Seq::empty()
    } else {
        hex_lower(data.drop_last()) + seq![
            hex_digit(data.last() as int / 16),
            hex_digit(data.last() as int % 16),
        ]
    }
}

/// `hex::encode`. Claimed, as its source shows: two lower-case hex digits
/// per byte, most significant nibble first.
#[verifier::external_body]
fn hex_encode(data: &[u8]) -> (r: String)
    ensures
        r@ == hex_lower(data@),
{
    hex::encode(data)
}

/// The bytes hashed for a cache entry: the schema tag `v1`, then the URL.
pub open spec fn cache_key_input(url: Seq<char>) -> Seq<u8> {
    encode_utf8("v1"@) + encode_utf8(url)
}

/// The file name of the cache entry of `url`.
pub open spec fn spec_cache_file_name(url: Seq<char>) -> Seq<char> {
    hex_lower(sha256_of(cache_key_input(url))) + ".json"@
}

fn append_bytes(out: &mut Vec<u8>, data: &[u8])
    ensures
        final(out)@ == old(out)@ + data@,
{
    let mut i: usize = 0;
    while i < data.len()
        invariant
            i <= data@.len(),
            out@ == old(out)@ + data@.take(i as int),
        decreases data.len() - i,
    {
        out.push(data[i]);
        assert(data@.take(i + 1) =~= data@.take(i as int).push(data@[i as int]));
        i = i + 1;
    }
    assert(data@.take(data@.len() as int) =~= data@);
}

/// The file name under the cache directory that holds the response of
/// `url`: the hex SHA-256 of the schema tag and the URL, then `.json`.
pub fn cache_file_name(url: &str) -> (r: String)
    ensures
        r@ == spec_cache_file_name(url@),
        r@.len() == 69,
{
    let mut input: Vec<u8> = Vec::new();
    append_bytes(&mut input, "v1".as_bytes());
    append_bytes(&mut input, url.as_bytes());
    let digest = sha256_digest(input.as_slice());
    let mut name = hex_encode(digest.as_slice());
    proof {
        lemma_hex_len(digest@);
        reveal_strlit(".json");
    }
    name.append(".json");
    name
}

/// The file name a new cache entry of `url` is first written to before it
/// replaces the entry: `<entry>.tmp.<process id>.<counter>`.
pub open spec fn spec_cache_temp_file_name(url: Seq<char>, pid: u32, counter: u64) -> Seq<char> {
    spec_cache_file_name(url) + ".tmp."@ + nat_text(pid as nat) + "."@ + nat_text(counter as nat)
}

pub fn cache_temp_file_name(url: &str, pid: u32, counter: u64) -> (r: String)
    ensures
        r@ == spec_cache_temp_file_name(url@, pid, counter),
{
    let mut name = cache_file_name(url);
    name.append(".tmp.");
    push_nat(&mut name, pid as u64);
    name.append(".");
    push_nat(&mut name, counter);
    name
}

proof fn lemma_hex_len(data: Seq<u8>)
    ensures
        hex_lower(data).len() == 2 * data.len(),
    decreases data.len(),
{
    if data.len() > 0 {
        lemma_hex_len(data.drop_last());
    }
}

/// How old a cache entry may be, in nanoseconds, when its age cannot be
/// read: the longest `Duration`.
pub const MAX_DURATION_NANOS: u128 = 18_446_744_073_709_551_615_999_999_999;

/// An entry is stale when its age exceeds the time to live; an entry whose
/// age cannot be read counts as infinitely old.
pub open spec fn spec_entry_expired(age_nanos: Option<u128>, ttl_nanos: u128) -> bool {
    match age_nanos {
        Some(age) => age > ttl_nanos,
        None => MAX_DURATION_NANOS > ttl_nanos,
    }
}

/// Whether a cache entry of the given age is stale.
pub fn entry_expired(age_nanos: Option<u128>, ttl_nanos: u128) -> (r: bool)
    ensures
        r == spec_entry_expired(age_nanos, ttl_nanos),
{
    match age_nanos {
        Some(age) => age > ttl_nanos,
        None => MAX_DURATION_NANOS > ttl_nanos,
    }
}

/// What reading the cache found for a request.
#[derive(Clone, Copy, Debug, PartialEq, Eq, Structural)]
pub enum CachedEntry {
    /// No fresh entry.
    Absent,
    /// A fresh entry that decodes to the expected shape.
    Decodable,
    /// A fresh entry that does not decode: it is evicted and refetched.
    Undecodable,
}

/// What to do for a request.
#[derive(Clone, Copy, Debug, PartialEq, Eq, Structural)]
pub enum CacheAction {
    /// Serve the cached entry.
    ServeHit,
    /// Fetch from the API (evicting the entry first when asked), store the
    /// response, and report it with this state.
    Fetch { evict_first: bool, state: CacheState },
}

pub open spec fn spec_cache_action(refresh: bool, entry: CachedEntry) -> CacheAction {
    if refresh {
        CacheAction::Fetch { evict_first: false, state: CacheState::Refresh }
    } else {
        match entry {
            CachedEntry::Decodable => CacheAction::ServeHit,
            CachedEntry::Undecodable => CacheAction::Fetch {
                evict_first: true,
                state: CacheState::Miss,
            },
            CachedEntry::Absent => CacheAction::Fetch { evict_first: false, state: CacheState::Miss },
        }
    }
}

/// Decides how a request is answered. Under `--refresh` the cache is not
/// read and `entry` is ignored.
pub fn cache_action(refresh: bool, entry: CachedEntry) -> (r: CacheAction)
    ensures
        r == spec_cache_action(refresh, entry),
{
    if refresh {
        CacheAction::Fetch { evict_first: false, state: CacheState::Refresh }
    } else {
        match entry {
            CachedEntry::Decodable => CacheAction::ServeHit,
            CachedEntry::Undecodable => CacheAction::Fetch {
                evict_first: true,
                state: CacheState::Miss,
            },
            CachedEntry::Absent => CacheAction::Fetch { evict_first: false, state: CacheState::Miss },
        }
    }
}

/// A response is reported as a hit only when it came from a decodable
/// entry without `--refresh`; a refresh always fetches and is reported as
/// such; an undecodable entry is always evicted before the refetch.
pub proof fn law_cache_states(refresh: bool, entry: CachedEntry)
    ensures
        spec_cache_action(refresh, entry) == CacheAction::ServeHit <==> (!refresh && entry
            == CachedEntry::Decodable),
        refresh ==> spec_cache_action(refresh, entry) == (CacheAction::Fetch {
            evict_first: false,
            state: CacheState::Refresh,
        }),
        !refresh && entry == CachedEntry::Undecodable ==> spec_cache_action(refresh, entry)
            matches CacheAction::Fetch { evict_first: true, .. },
{
}

} // verus!
