use skills_hub::cache::{cached_head, meta_after_fetch, repo_cache_key, retry_after_failure, RepoCacheMeta};

#[test]
fn cache_key_is_hex_sha256_of_url_and_branch() {
    assert_eq!(
        repo_cache_key("https://github.com/o/r.git", None),
        "4921fb6dc216ef10122a2bb4e1a5f65625cbfc6dae0ce3c9439abe4140dfee26"
    );
    assert_eq!(
        repo_cache_key("https://github.com/o/r.git", Some("main")),
        "e77b03bbe5efd081f00819c8f2fc17d3bb148e4cb5540a57bb804e4319466e7f"
    );
    assert_eq!(
        repo_cache_key("https://github.com/o/r.git", Some("")),
        "d6f8f38a68ec9f291587db582c9204b0cc7253932644c880138e1c7b72287624"
    );
}

#[test]
fn absent_and_empty_branch_key_apart() {
    let url = "https://github.com/o/r.git";
    assert_ne!(repo_cache_key(url, None), repo_cache_key(url, Some("")));
    assert_eq!(repo_cache_key(url, Some("x")), repo_cache_key(url, Some("x")));
}

fn meta(at: i64, head: Option<&str>) -> Option<RepoCacheMeta> {
    Some(RepoCacheMeta { last_fetched_ms: at, head: head.map(|h| h.to_string()) })
}

#[test]
fn reuse_within_ttl_then_refetch() {
    let fetched = meta_after_fetch(1_000, "abc".to_string());
    assert_eq!(fetched.last_fetched_ms, 1_000);
    assert_eq!(fetched.head.as_deref(), Some("abc"));
    // First acquisition on a cold cache fetches.
    assert_eq!(cached_head(false, None, 60, 1_000), None);
    // Second one within the TTL reuses the clone.
    assert_eq!(cached_head(true, Some(fetched), 60, 60_999), Some("abc".to_string()));
    // After the TTL it fetches again.
    assert_eq!(cached_head(true, meta(1_000, Some("abc")), 60, 61_000), None);
}

#[test]
fn no_reuse_without_checkout_head_or_ttl() {
    assert_eq!(cached_head(false, meta(0, Some("h")), 60, 1), None);
    assert_eq!(cached_head(true, meta(0, None), 60, 1), None);
    assert_eq!(cached_head(true, meta(0, Some("h")), 0, 1), None);
    assert_eq!(cached_head(true, meta(0, Some("h")), -5, 1), None);
    assert_eq!(cached_head(true, None, 60, 1), None);
}

#[test]
fn ttl_arithmetic_saturates() {
    assert_eq!(cached_head(true, meta(0, Some("h")), i64::MAX, i64::MAX - 1), Some("h".to_string()));
    assert_eq!(cached_head(true, meta(i64::MIN, Some("h")), i64::MAX, i64::MAX), None);
    assert_eq!(cached_head(true, meta(5, Some("h")), 1, 0), Some("h".to_string()));
}

#[test]
fn one_retry_after_a_failed_fetch() {
    assert!(retry_after_failure(1));
    assert!(!retry_after_failure(2));
}
