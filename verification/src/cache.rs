//! The cache of collected histories: how an entry is named and how long it
//! stays fresh.
//!
//! An entry is named by a key derived from the collection parameters: the
//! repository path, the commit limit, the day window and the file patterns
//! are put into one text, and the key is the MD5 digest of that text in
//! lower-case hexadecimal. The key partitions the cache; it protects
//! nothing.

use crate::error::{ErrorView, GitMetricsError};
use crate::numbers::{decimal_digits, decimal_of, hex_lower, hex_of};
use crate::text::{append_chars, append_str, chars_of, join, join_with, string_of, views};
use vstd::prelude::*;
use vstd::string::StringExecFns;
use vstd::utf8::encode_utf8;

verus! {

/// The number of seconds for which a cache entry stays fresh.
pub const CACHE_TTL_SECONDS: u64 = 86400;

/// The MD5 digest of a sequence of bytes.
pub uninterp spec fn md5_digest(data: Seq<u8>) -> Seq<u8>;

/// The digest that `md5::compute` gives for `data`: sixteen bytes that
/// depend on `data` alone.
#[verifier::external_body]
fn md5_of(data: &[u8]) -> (r: [u8; 16])
    ensures
        r@ == md5_digest(data@),
{
    md5::compute(data).0
}

/// How a limit is written in the key text: the number in decimal, or `all`
/// where there is no limit.
pub open spec fn limit_text(limit: Option<u32>) -> Seq<char> {
    match limit {
        Some(n) => decimal_digits(n as nat),
        None => "all"@,
    }
}

/// How the file patterns are written in the key text: joined by commas in
/// their order, or `all` where there are none.
pub open spec fn patterns_text(patterns: Seq<Seq<char>>) -> Seq<char> {
    if patterns.len() == 0 {
        "all"@
    } else {
        join(patterns, ","@)
    }
}

/// The text that is hashed: path, commit limit, day window and patterns,
/// with an underscore between each two.
pub open spec fn key_text(
    path: Seq<char>,
    max_commits: Option<u32>,
    since_days: Option<u32>,
    patterns: Seq<Seq<char>>,
) -> Seq<char> {
    path + "_"@ + limit_text(max_commits) + "_"@ + limit_text(since_days) + "_"@ + patterns_text(
        patterns,
    )
}

/// The key of the digest `digest`.
pub open spec fn key_of_digest(digest: Seq<u8>) -> Seq<char> {
    hex_lower(digest)
}

/// The cache key of a tuple of collection parameters.
pub open spec fn cache_key(
    path: Seq<char>,
    max_commits: Option<u32>,
    since_days: Option<u32>,
    patterns: Seq<Seq<char>>,
) -> Seq<char> {
    key_of_digest(md5_digest(encode_utf8(key_text(path, max_commits, since_days, patterns))))
}

/// The name of the file that holds the entry of the key `key`.
pub open spec fn cache_file_name(key: Seq<char>) -> Seq<char> {
    key + ".json"@
}

/// A point in time: seconds and nanoseconds since the Unix epoch.
#[derive(Debug, Clone, Copy, PartialEq, Eq)]
pub struct Timestamp {
    pub secs: u64,
    pub nanos: u32,
}

impl Timestamp {
    /// The nanoseconds from the Unix epoch to this point in time.
    pub open spec fn total_nanos(self) -> nat {
        (self.secs * 1_000_000_000 + self.nanos) as nat
    }
}

/// What the age of a cache file says of its entry.
pub open spec fn freshness(modified: Timestamp, now: Timestamp) -> Result<bool, ErrorView> {
    if now.total_nanos() < modified.total_nanos() {
        Err(ErrorView::Other("Cache file modification time is in the future"@))
    } else {
        Ok(now.total_nanos() - modified.total_nanos() <= CACHE_TTL_SECONDS * 1_000_000_000)
    }
}

/// How the limit `limit` is written in the key text.
pub fn limit_to_text(limit: Option<u32>) -> (r: Vec<char>)
    ensures
        r@ == limit_text(limit),
{
    match limit {
        Some(n) => decimal_of(n),
        None => chars_of("all"),
    }
}

/// The text that is hashed for a tuple of collection parameters.
pub fn key_text_of(
    path: &str,
    max_commits: Option<u32>,
    since_days: Option<u32>,
    patterns: &Vec<Vec<char>>,
) -> (r: Vec<char>)
    ensures
        r@ == key_text(path@, max_commits, since_days, views(patterns@)),
{
    let mut r = chars_of(path);
    append_str(&mut r, "_");
    append_chars(&mut r, &limit_to_text(max_commits));
    append_str(&mut r, "_");
    append_chars(&mut r, &limit_to_text(since_days));
    append_str(&mut r, "_");
    if patterns.len() == 0 {
        append_str(&mut r, "all");
    } else {
        let comma = chars_of(",");
        append_chars(&mut r, &join_with(patterns, &comma));
    }
    r
}

/// The key of the digest `digest`.
pub fn key_from_digest(digest: &[u8]) -> (r: String)
    ensures
        r@ == key_of_digest(digest@),
{
    string_of(&hex_of(digest))
}

/// The cache key of a tuple of collection parameters: 32 hexadecimal
/// digits.
pub fn derive_cache_key(
    path: &str,
    max_commits: Option<u32>,
    since_days: Option<u32>,
    patterns: &Vec<Vec<char>>,
) -> (r: String)
    ensures
        r@ == cache_key(path@, max_commits, since_days, views(patterns@)),
        r@.len() == 32,
{
    let text = string_of(&key_text_of(path, max_commits, since_days, patterns));
    let digest = md5_of(text.as_str().as_bytes());
    proof {
        crate::numbers::lemma_hex_lower_len(digest@);
    }
    key_from_digest(digest.as_slice())
}

/// The name of the file that holds the entry of the key `key`.
pub fn file_name_of_key(key: &str) -> (r: String)
    ensures
        r@ == cache_file_name(key@),
{
    String::from_str(key).concat(".json")
}

/// Whether a cache file last modified at `modified` is still fresh at
/// `now`: it is while it is no older than the time to live. A file dated in
/// the future is an error.
pub fn cache_is_fresh(modified: Timestamp, now: Timestamp) -> (r: Result<bool, GitMetricsError>)
    ensures
        match r {
            Ok(fresh) => freshness(modified, now) == Ok::<bool, ErrorView>(fresh),
            Err(e) => freshness(modified, now) == Err::<bool, ErrorView>(e@),
        },
{
    let then: u128 = modified.secs as u128 * 1_000_000_000 + modified.nanos as u128;
    let current: u128 = now.secs as u128 * 1_000_000_000 + now.nanos as u128;
    if current < then {
        Err(
            GitMetricsError::Other(
                String::from_str("Cache file modification time is in the future"),
            ),
        )
    } else {
        Ok(current - then <= CACHE_TTL_SECONDS as u128 * 1_000_000_000)
    }
}

/// Equal parameters give equal keys.
pub proof fn lemma_same_parameters_same_key(
    path_a: Seq<char>,
    max_a: Option<u32>,
    since_a: Option<u32>,
    patterns_a: Seq<Seq<char>>,
    path_b: Seq<char>,
    max_b: Option<u32>,
    since_b: Option<u32>,
    patterns_b: Seq<Seq<char>>,
)
    requires
        path_a == path_b,
        max_a == max_b,
        since_a == since_b,
        patterns_a == patterns_b,
    ensures
        cache_key(path_a, max_a, since_a, patterns_a) == cache_key(
            path_b,
            max_b,
            since_b,
            patterns_b,
        ),
{
}

/// Two limits that are written alike are the same limit.
pub proof fn lemma_limit_text_injective(a: Option<u32>, b: Option<u32>)
    requires
        limit_text(a) == limit_text(b),
    ensures
        a == b,
{
    reveal_strlit("all");
    match (a, b) {
        (Some(m), Some(n)) => {
            crate::numbers::lemma_decimal_digits_injective(m as nat, n as nat);
        },
        (Some(m), None) => {
            crate::numbers::lemma_decimal_round_trip(m as nat);
            assert(crate::numbers::is_digit(decimal_digits(m as nat)[0]));
            assert("all"@[0] == 'a');
        },
        (None, Some(n)) => {
            crate::numbers::lemma_decimal_round_trip(n as nat);
            assert(crate::numbers::is_digit(decimal_digits(n as nat)[0]));
            assert("all"@[0] == 'a');
        },
        (None, None) => {},
    }
}

/// Two tuples of parameters that differ in the path alone, in the commit
/// limit alone or in the day window alone, or whose patterns are written
/// differently while the rest is equal, have different key texts.
pub proof fn lemma_changed_parameter_changes_key_text(
    path_a: Seq<char>,
    max_a: Option<u32>,
    since_a: Option<u32>,
    patterns_a: Seq<Seq<char>>,
    path_b: Seq<char>,
    max_b: Option<u32>,
    since_b: Option<u32>,
    patterns_b: Seq<Seq<char>>,
)
    requires
        ({
            ||| path_a != path_b && max_a == max_b && since_a == since_b && patterns_a
                == patterns_b
            ||| path_a == path_b && max_a != max_b && since_a == since_b && patterns_a
                == patterns_b
            ||| path_a == path_b && max_a == max_b && since_a != since_b && patterns_a
                == patterns_b
            ||| path_a == path_b && max_a == max_b && since_a == since_b && patterns_text(
                patterns_a,
            ) != patterns_text(patterns_b)
        }),
    ensures
        key_text(path_a, max_a, since_a, patterns_a) != key_text(
            path_b,
            max_b,
            since_b,
            patterns_b,
        ),
{
    let u = "_"@;
    let ka = key_text(path_a, max_a, since_a, patterns_a);
    let kb = key_text(path_b, max_b, since_b, patterns_b);
    if ka == kb {
        if patterns_text(patterns_a) != patterns_text(patterns_b) {
            let head = path_a + u + limit_text(max_a) + u + limit_text(since_a) + u;
            crate::text::lemma_cancel_prefix(
                head,
                patterns_text(patterns_a),
                patterns_text(patterns_b),
            );
        } else {
            let pt = patterns_text(patterns_a);
            crate::text::lemma_cancel_suffix(
                path_a + u + limit_text(max_a) + u + limit_text(since_a) + u,
                path_b + u + limit_text(max_b) + u + limit_text(since_b) + u,
                pt,
            );
            crate::text::lemma_cancel_suffix(
                path_a + u + limit_text(max_a) + u + limit_text(since_a),
                path_b + u + limit_text(max_b) + u + limit_text(since_b),
                u,
            );
            if since_a != since_b {
                crate::text::lemma_cancel_prefix(
                    path_a + u + limit_text(max_a) + u,
                    limit_text(since_a),
                    limit_text(since_b),
                );
                lemma_limit_text_injective(since_a, since_b);
            } else {
                crate::text::lemma_cancel_suffix(
                    path_a + u + limit_text(max_a) + u,
                    path_b + u + limit_text(max_b) + u,
                    limit_text(since_a),
                );
                crate::text::lemma_cancel_suffix(
                    path_a + u + limit_text(max_a),
                    path_b + u + limit_text(max_b),
                    u,
                );
                if max_a != max_b {
                    crate::text::lemma_cancel_prefix(
                        path_a + u,
                        limit_text(max_a),
                        limit_text(max_b),
                    );
                    lemma_limit_text_injective(max_a, max_b);
                } else {
                    crate::text::lemma_cancel_suffix(path_a + u, path_b + u, limit_text(max_a));
                    crate::text::lemma_cancel_suffix(path_a, path_b, u);
                }
            }
        }
    }
}

/// Two key texts give the same key exactly when their bytes have the same
/// digest, and different key texts have different bytes: a change of the
/// key text changes what is hashed, and the key changes with the digest.
pub proof fn lemma_key_follows_digest(text_a: Seq<char>, text_b: Seq<char>)
    ensures
        text_a != text_b ==> encode_utf8(text_a) != encode_utf8(text_b),
        key_of_digest(md5_digest(encode_utf8(text_a))) == key_of_digest(
            md5_digest(encode_utf8(text_b)),
        ) <==> md5_digest(encode_utf8(text_a)) == md5_digest(encode_utf8(text_b)),
{
    vstd::utf8::encode_utf8_decode_utf8(text_a);
    vstd::utf8::encode_utf8_decode_utf8(text_b);
    if key_of_digest(md5_digest(encode_utf8(text_a))) == key_of_digest(
        md5_digest(encode_utf8(text_b)),
    ) {
        crate::numbers::lemma_hex_lower_injective(
            md5_digest(encode_utf8(text_a)),
            md5_digest(encode_utf8(text_b)),
        );
    }
}

} // verus!
