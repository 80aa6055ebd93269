//! Git cache: where a `(clone_url, branch)` pair is cached, when a cached clone may be reused,
//! and when a failed fetch is retried.
use vstd::prelude::*;
use vstd::utf8::encode_utf8;
use sha2::Digest;
use crate::source::opt_view;

verus! {

/// The SHA-256 digest of a byte string.
pub uninterp spec fn sha256_of(data: Seq<u8>) -> Seq<u8>;

/// Relies on `sha2::Sha256::digest`: the SHA-256 digest of the bytes, 32 bytes long.
#[verifier::external_body]
pub(crate) fn sha256(data: &[u8]) -> (r: Vec<u8>)
    ensures
        r@ == sha256_of(data@),
        r@.len() == 32,
{
    sha2::Sha256::digest(data).to_vec()
}

pub open spec fn hex_digit(n: u8) -> char {
    if n < 10 {
        (48u8 + n) as char
    } else {
        (87u8 + n) as char
    }
}

/// Lower-case hexadecimal, two digits per byte, high digit first.
pub open spec fn hex_of(b: Seq<u8>) -> Seq<char>
    decreases b.len(),
{
    if b.len() == 0 {
        Seq::empty()
    } else {
        hex_of(b.drop_last()) + seq![hex_digit(b.last() / 16), hex_digit(b.last() % 16)]
    }
}

/// Relies on `hex::encode`: each byte as two lower-case hex digits, in order.
#[verifier::external_body]
pub(crate) fn hex_encode(data: &[u8]) -> (r: String)
    ensures
        r@ == hex_of(data@),
{
    hex::encode(data)
}

/// The bytes hashed into a cache key: the URL, a newline, then `=` and the branch when one is
/// given. An absent branch thus keys apart from every branch, the empty one included.
pub open spec fn cache_key_input(url: Seq<char>, branch: Option<Seq<char>>) -> Seq<u8> {
    match branch {
        Some(b) => encode_utf8(url) + seq![10u8, 61u8] + encode_utf8(b),
        None => encode_utf8(url) + seq![10u8],
    }
}

pub open spec fn cache_key(url: Seq<char>, branch: Option<Seq<char>>) -> Seq<char> {
    hex_of(sha256_of(cache_key_input(url, branch)))
}

/// The name of the cache directory for a clone URL and optional branch.
pub fn repo_cache_key(clone_url: &str, branch: Option<&str>) -> (r: String)
    ensures
        r@ == cache_key(clone_url@, match branch {
            Some(b) => Some(b@),
            None => None,
        }),
{
    let mut data = clone_url.as_bytes_vec();
    data.push(10u8);
    match branch {
        Some(b) => {
            data.push(61u8);
            let mut tail = b.as_bytes_vec();
            data.append(&mut tail);
            assert(data@ =~= cache_key_input(clone_url@, Some(b@)));
        },
        None => {
            assert(data@ =~= cache_key_input(clone_url@, None));
        },
    }
    let digest = sha256(data.as_slice());
    hex_encode(digest.as_slice())
}

/// A cache key never mistakes an absent branch for a named one, not even the empty name.
pub proof fn law_absent_branch_keys_apart(url: Seq<char>, branch: Seq<char>)
    ensures
        cache_key_input(url, None) != cache_key_input(url, Some(branch)),
{
    assert(cache_key_input(url, None).len() < cache_key_input(url, Some(branch)).len());
}

/// What is recorded next to a cached clone after each successful fetch.
pub struct RepoCacheMeta {
    pub last_fetched_ms: i64,
    pub head: Option<String>,
}

pub struct RepoCacheMetaView {
    pub last_fetched_ms: i64,
    pub head: Option<Seq<char>>,
}

impl View for RepoCacheMeta {
    type V = RepoCacheMetaView;

    open spec fn view(&self) -> RepoCacheMetaView {
        RepoCacheMetaView { last_fetched_ms: self.last_fetched_ms, head: opt_view(self.head) }
    }
}

pub open spec fn clamp_i64(x: int) -> int {
    if x > i64::MAX {
        i64::MAX as int
    } else if x < i64::MIN {
        i64::MIN as int
    } else {
        x
    }
}

/// The time-to-live in milliseconds (saturating).
pub open spec fn ttl_ms(ttl_secs: i64) -> int {
    clamp_i64(ttl_secs * 1000)
}

/// The head recorded for a cached clone when the clone may be reused: the checkout exists,
/// its record names a head, caching is on (a positive TTL) and the record is younger than
/// the TTL. `None` means the clone must be fetched.
pub open spec fn fresh_head(
    has_checkout: bool,
    meta: Option<RepoCacheMetaView>,
    ttl_secs: i64,
    now_ms: i64,
) -> Option<Seq<char>> {
    match meta {
        Some(m) => if has_checkout && m.head is Some && ttl_ms(ttl_secs) > 0 && clamp_i64(
            now_ms - m.last_fetched_ms,
        ) < ttl_ms(ttl_secs) {
            m.head
        } else {
            None
        },
        None => None,
    }
}

pub open spec fn opt_meta_view(m: Option<RepoCacheMeta>) -> Option<RepoCacheMetaView> {
    match m {
        Some(x) => Some(x@),
        None => None,
    }
}

fn clamp_to_i64(x: i128) -> (r: i64)
    ensures
        r as int == clamp_i64(x as int),
{
    if x > i64::MAX as i128 {
        i64::MAX
    } else if x < i64::MIN as i128 {
        i64::MIN
    } else {
        x as i64
    }
}

/// Decides whether a cached clone can be reused: returns its head if so, `None` when the
/// caller must fetch. `has_checkout` tells whether the cached clone has a `.git` directory,
/// `meta` is its record if one could be read, `now_ms` the current time.
pub fn cached_head(
    has_checkout: bool,
    meta: Option<RepoCacheMeta>,
    ttl_secs: i64,
    now_ms: i64,
) -> (r: Option<String>)
    ensures
        opt_view(r) == fresh_head(has_checkout, opt_meta_view(meta), ttl_secs, now_ms),
{
    if !has_checkout {
        return None;
    }
    match meta {
        Some(m) => {
            let ttl = clamp_to_i64(ttl_secs as i128 * 1000);
            let age = clamp_to_i64(now_ms as i128 - m.last_fetched_ms as i128);
            if m.head.is_some() && ttl > 0 && age < ttl {
                m.head
            } else {
                None
            }
        },
        None => None,
    }
}

/// The record written after a successful fetch at `now_ms` that resolved `head`.
pub fn meta_after_fetch(now_ms: i64, head: String) -> (r: RepoCacheMeta)
    ensures
        r.last_fetched_ms == now_ms,
        r.head is Some,
        opt_view(r.head) == Some(head@),
{
    RepoCacheMeta { last_fetched_ms: now_ms, head: Some(head) }
}

/// What to do after the fetch attempt number `attempt` (counting from 1) failed: the first
/// failure wipes the cache directory and fetches once more; a second one is reported.
pub fn retry_after_failure(attempt: u32) -> (r: bool)
    ensures
        r == (attempt == 1),
{
    attempt == 1
}

/// A clone fetched at `fetched_at` is reused by every later acquisition of the same key until
/// the TTL has run out, and fetched again from then on; a cold cache always fetches.
pub proof fn law_cache_reuse_within_ttl(
    head: Seq<char>,
    ttl_secs: i64,
    fetched_at: i64,
    now_ms: i64,
)
    requires
        0 < ttl_secs <= i64::MAX / 1000,
        0 <= fetched_at <= now_ms,
    ensures
        fresh_head(false, None, ttl_secs, fetched_at) is None,
        now_ms - fetched_at < ttl_secs * 1000 ==> fresh_head(
            true,
            Some(RepoCacheMetaView { last_fetched_ms: fetched_at, head: Some(head) }),
            ttl_secs,
            now_ms,
        ) == Some(head),
        now_ms - fetched_at >= ttl_secs * 1000 ==> fresh_head(
            true,
            Some(RepoCacheMetaView { last_fetched_ms: fetched_at, head: Some(head) }),
            ttl_secs,
            now_ms,
        ) is None,
{
}

/// A TTL of zero or less disables reuse: every acquisition fetches.
pub proof fn law_nonpositive_ttl_always_fetches(
    has_checkout: bool,
    meta: Option<RepoCacheMetaView>,
    ttl_secs: i64,
    now_ms: i64,
)
    requires
        ttl_secs <= 0,
    ensures
        fresh_head(has_checkout, meta, ttl_secs, now_ms) is None,
{
}

} // verus!
