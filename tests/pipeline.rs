use aoc_stars::pipeline::{
    create_cache_key, decide_metadata, get_client_ip, metadata_url, render_content, txt_file_name, AppError,
    CachedFailure, FetchError, FileMetadata, Reply, MAX_FILE_SIZE,
};
use aoc_stars::quota::{QuotaTracker, RateLimiter};
use aoc_stars::service::{decide_cached, Request, Service, Start};

const VALID: &str = "2023: 2,2,2,2,2,2,2,2,2,2,2,2,2,2,2,2,2,2,2,1,0,0,0,0,0";

fn service(max_requests: u32) -> Service {
    Service::new(300, 600, 60, 120, 100, RateLimiter::new(60_000, max_requests))
}

fn request(client: &str) -> Request {
    Request {
        user: "alice".to_string(),
        repo: "aoc".to_string(),
        branch: "main".to_string(),
        file: "stars.svg".to_string(),
        client: client.to_string(),
    }
}

#[test]
fn cache_key_joins_components() {
    assert_eq!(create_cache_key("alice", "aoc", "main", "stars.svg"), "alice/aoc/main/stars.svg");
}

#[test]
fn client_identity_is_first_forwarded_address() {
    assert_eq!(get_client_ip(Some("10.0.0.1, 10.0.0.2")), "10.0.0.1");
    assert_eq!(get_client_ip(Some("10.0.0.9")), "10.0.0.9");
    assert_eq!(get_client_ip(None), "unknown");
}

#[test]
fn upstream_file_name_and_address() {
    assert_eq!(txt_file_name("stars.svg"), "stars.txt");
    assert_eq!(txt_file_name("stars"), "stars.txt");
    assert_eq!(txt_file_name("svg"), "svg.txt");
    assert_eq!(
        metadata_url("alice", "aoc", "main", "stars.txt"),
        "https://api.github.com/repos/alice/aoc/contents/stars.txt?ref=main"
    );
}

#[test]
fn oversize_metadata_is_refused() {
    let url = "u".to_string();
    let m = FileMetadata { size: MAX_FILE_SIZE + 1, download_url: "d".to_string() };
    let e = decide_metadata(&url, Ok(m)).unwrap_err();
    assert_eq!(e.status(), 413);
    assert_eq!(e.message(), "File size 1025 bytes exceeds maximum allowed size of 1024 bytes");
    let m = FileMetadata { size: MAX_FILE_SIZE, download_url: "d".to_string() };
    assert_eq!(decide_metadata(&url, Ok(m)).unwrap(), "d");
}

#[test]
fn fetch_failures_map_to_errors() {
    let url = "https://x/y".to_string();
    let e = decide_metadata(&url, Err(FetchError::NotFound)).unwrap_err();
    assert_eq!(e.status(), 404);
    assert_eq!(e.message(), "Not found: File not found: https://x/y");
    let e = decide_metadata(&url, Err(FetchError::Decode("bad json".to_string()))).unwrap_err();
    assert_eq!(e.status(), 500);
    assert_eq!(e.message(), "GitHub fetch error: Failed to parse metadata: bad json");
    let e = decide_metadata(&url, Err(FetchError::Transport("timed out".to_string()))).unwrap_err();
    match e.reply() {
        Reply::Failure { status, body } => {
            assert_eq!(status, 500);
            assert_eq!(body, "timed out");
        }
        other => panic!("unexpected {:?}", other),
    }
}

#[test]
fn error_statuses_and_cached_messages() {
    assert_eq!(AppError::RateLimitExceeded.status(), 429);
    let v = AppError::ValidationError("Year 1 has 2 days, expected 25".to_string());
    assert_eq!(v.status(), 400);
    assert_eq!(v.message(), "Validation error: Year 1 has 2 days, expected 25");
    let c = v.cached_failure();
    assert_eq!(c.status, 400);
    assert_eq!(c.message, "Year 1 has 2 days, expected 25");
    let n = AppError::NotFound("File not found: z".to_string()).cached_failure();
    assert_eq!(n.message, "Not found: File not found: z");
}

#[test]
fn render_content_validates_then_renders() {
    let svg = render_content(&VALID.to_string()).unwrap();
    assert!(svg.contains("Total stars: 39"));
    let e = render_content(&"2023 1".to_string()).unwrap_err();
    assert_eq!(e.status(), 400);
}

#[test]
fn cached_artifact_precedes_cached_failure() {
    let f = CachedFailure { status: 404, message: "gone".to_string() };
    match decide_cached(Some("<svg/>".to_string()), Some(f.clone())) {
        Some(Reply::Artifact { svg, cache_hit }) => {
            assert_eq!(svg, "<svg/>");
            assert!(cache_hit);
        }
        other => panic!("unexpected {:?}", other),
    }
    assert!(matches!(decide_cached(None, Some(f)), Some(Reply::Failure { status: 404, .. })));
    assert!(decide_cached(None, None).is_none());
}

#[test]
fn quota_admits_limit_then_denies_until_window_ends() {
    let mut q = QuotaTracker::new(RateLimiter::new(60, 3));
    let c = "1.2.3.4".to_string();
    let k = "a/b/c/d".to_string();
    assert!(q.check_request(&c, &k, 100));
    assert!(q.check_request(&c, &k, 110));
    assert!(q.check_request(&c, &k, 160));
    assert!(!q.check_request(&c, &k, 160));
    // Another client and another resource have their own windows.
    assert!(q.check_request(&"5.6.7.8".to_string(), &k, 160));
    assert!(q.check_request(&c, &"a/b/c/e".to_string(), 160));
    // The window ran out: a fresh window of one request.
    assert!(q.check_request(&c, &k, 161));
    assert!(q.check_request(&c, &k, 200));
    assert!(q.check_request(&c, &k, 221));
    assert!(!q.check_request(&c, &k, 221));
}

#[test]
fn rate_limiter_allows_below_maximum() {
    let r = RateLimiter::new(10, 2);
    assert!(r.is_allowed(1));
    assert!(!r.is_allowed(2));
}

#[test]
fn second_request_is_a_cache_hit_with_identical_text() {
    let mut s = service(30);
    let req = request("1.1.1.1");
    let url = match s.begin(&req, 0) {
        Start::Fetch(url) => url,
        other => panic!("unexpected {:?}", other),
    };
    assert_eq!(url, "https://api.github.com/repos/alice/aoc/contents/stars.txt?ref=main");
    let download = s
        .after_metadata(&req, &url, Ok(FileMetadata { size: 55, download_url: "https://raw/x".to_string() }))
        .unwrap();
    let first = match s.after_content(&req, &download, Ok(VALID.to_string())) {
        Reply::Artifact { svg, cache_hit } => {
            assert!(!cache_hit);
            svg
        }
        other => panic!("unexpected {:?}", other),
    };
    match s.begin(&request("2.2.2.2"), 1) {
        Start::Cached(Reply::Artifact { svg, cache_hit }) => {
            assert!(cache_hit);
            assert_eq!(svg, first);
        }
        other => panic!("unexpected {:?}", other),
    }
}

#[test]
fn negative_cache_hit_does_not_consume_quota() {
    let mut s = service(1);
    let req = request("1.1.1.1");
    let url = match s.begin(&req, 0) {
        Start::Fetch(url) => url,
        other => panic!("unexpected {:?}", other),
    };
    match s.after_metadata(&req, &url, Err(FetchError::NotFound)) {
        Err(Reply::Failure { status, body }) => {
            assert_eq!(status, 404);
            assert_eq!(body, format!("File not found: {}", url));
        }
        other => panic!("unexpected {:?}", other),
    }
    for t in 1..5 {
        match s.begin(&req, t) {
            Start::Cached(Reply::Failure { status, body }) => {
                assert_eq!(status, 404);
                assert_eq!(body, format!("Not found: File not found: {}", url));
            }
            other => panic!("unexpected {:?}", other),
        }
    }
}

#[test]
fn quota_denial_writes_no_cache_entry() {
    let mut s = service(1);
    let req = request("1.1.1.1");
    let other = Request { file: "other.svg".to_string(), ..request("1.1.1.1") };
    assert!(matches!(s.begin(&req, 0), Start::Fetch(_)));
    match s.begin(&req, 1) {
        Start::Throttled(Reply::Failure { status, body }) => {
            assert_eq!(status, 429);
            assert_eq!(body, "Rate limit exceeded");
        }
        other => panic!("unexpected {:?}", other),
    }
    // Still throttled, not served from the negative cache.
    assert!(matches!(s.begin(&req, 2), Start::Throttled(_)));
    // Another resource has its own quota.
    assert!(matches!(s.begin(&other, 2), Start::Fetch(_)));
    // After the window a fresh one opens.
    assert!(matches!(s.begin(&req, 60_001), Start::Fetch(_)));
}

#[test]
fn oversize_file_is_recorded_as_too_large() {
    let mut s = service(5);
    let req = request("1.1.1.1");
    let url = match s.begin(&req, 0) {
        Start::Fetch(url) => url,
        other => panic!("unexpected {:?}", other),
    };
    let r = s.after_metadata(&req, &url, Ok(FileMetadata { size: 4096, download_url: "d".to_string() }));
    assert!(matches!(r, Err(Reply::Failure { status: 413, .. })));
    assert!(matches!(s.begin(&req, 1), Start::Cached(Reply::Failure { status: 413, .. })));
}

#[test]
fn validation_failure_is_recorded_with_its_message() {
    let mut s = service(5);
    let req = request("1.1.1.1");
    let url = match s.begin(&req, 0) {
        Start::Fetch(url) => url,
        other => panic!("unexpected {:?}", other),
    };
    let download = s.after_metadata(&req, &url, Ok(FileMetadata { size: 10, download_url: "d".to_string() })).unwrap();
    match s.after_content(&req, &download, Ok("2023: 1".to_string())) {
        Reply::Failure { status, body } => {
            assert_eq!(status, 400);
            assert_eq!(body, "Year 2023 has 1 days, expected 25");
        }
        other => panic!("unexpected {:?}", other),
    }
    match s.begin(&req, 1) {
        Start::Cached(Reply::Failure { status, body }) => {
            assert_eq!(status, 400);
            assert_eq!(body, "Year 2023 has 1 days, expected 25");
        }
        other => panic!("unexpected {:?}", other),
    }
}

#[test]
fn concurrent_misses_publish_the_same_artifact() {
    let mut s = service(30);
    let a = request("1.1.1.1");
    let b = request("2.2.2.2");
    let ua = match s.begin(&a, 0) {
        Start::Fetch(u) => u,
        other => panic!("unexpected {:?}", other),
    };
    let ub = match s.begin(&b, 0) {
        Start::Fetch(u) => u,
        other => panic!("unexpected {:?}", other),
    };
    assert_eq!(ua, ub);
    let ra = s.after_content(&a, &"x".to_string(), Ok(VALID.to_string()));
    let rb = s.after_content(&b, &"y".to_string(), Ok(VALID.to_string()));
    match (ra, rb) {
        (Reply::Artifact { svg: sa, .. }, Reply::Artifact { svg: sb, .. }) => assert_eq!(sa, sb),
        other => panic!("unexpected {:?}", other),
    }
    assert!(matches!(s.begin(&a, 1), Start::Cached(Reply::Artifact { cache_hit: true, .. })));
}

#[test]
fn purging_stale_counters_changes_no_decision() {
    let mut q = QuotaTracker::new(RateLimiter::new(10, 1));
    let a = "a".to_string();
    let b = "b".to_string();
    let k = "k".to_string();
    assert!(q.check_request(&a, &k, 0));
    assert!(q.check_request(&b, &k, 8));
    q.purge_stale(12);
    // a's window ran out and was dropped: admitted afresh; b's is still running: denied.
    assert!(q.check_request(&a, &k, 12));
    assert!(!q.check_request(&b, &k, 12));
    assert!(!q.check_request(&a, &k, 13));
}

#[test]
fn service_purge_keeps_live_windows() {
    let mut s = service(1);
    let req = request("1.1.1.1");
    assert!(matches!(s.begin(&req, 0), Start::Fetch(_)));
    s.purge_stale(10);
    assert!(matches!(s.begin(&req, 20), Start::Throttled(_)));
    s.purge_stale(60_001);
    assert!(matches!(s.begin(&req, 60_002), Start::Fetch(_)));
}

#[test]
fn start_after_lookup_decides_on_given_lookups() {
    let mut s = service(1);
    let req = request("1.1.1.1");
    let f = CachedFailure { status: 404, message: "gone".to_string() };
    assert!(matches!(
        s.start_after_lookup(&req, None, Some(f), 0),
        Start::Cached(Reply::Failure { status: 404, .. })
    ));
    // The cached answer did not count: the quota still admits one request.
    assert!(matches!(s.start_after_lookup(&req, None, None, 0), Start::Fetch(_)));
    assert!(matches!(s.start_after_lookup(&req, None, None, 1), Start::Throttled(_)));
    assert!(matches!(s.start_after_lookup(&req, Some("<svg/>".to_string()), None, 2), Start::Cached(_)));
    assert!(matches!(s.start_after_lookup(&req, None, None, 60_001), Start::Fetch(_)));
}
