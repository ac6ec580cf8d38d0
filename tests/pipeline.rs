use proxy_scrape::extract::{extract_outcome, Product};
use proxy_scrape::links::{has_prefix, listing_links, listing_targets, resolve_link, scrape_search_result};
use proxy_scrape::outcome::{classify, ErrorKind, FetchOutcome, HttpReply};
use proxy_scrape::report::{summarize, Summary};
use proxy_scrape::retry::{RetryRun, RunStatus};

fn ok(body: &str, ms: u64) -> FetchOutcome {
    FetchOutcome::Success { body: body.to_string(), elapsed_ms: ms }
}

fn timeout(ms: u64) -> FetchOutcome {
    FetchOutcome::Failure { error: ErrorKind::Timeout, elapsed_ms: ms }
}

fn targets(n: usize) -> Vec<String> {
    (0..n).map(|i| format!("https://shop.example/item/{i}")).collect()
}

#[test]
fn five_targets_two_recover_in_second_round() {
    let mut run = RetryRun::new(targets(5), 3);
    assert_eq!(run.status(), RunStatus::Running);
    assert_eq!(run.working_targets().len(), 5);
    run.complete_round(vec![ok("a", 10), timeout(30), ok("c", 20), timeout(30), ok("e", 30)]);
    assert_eq!(run.status(), RunStatus::Running);
    let retry = run.working_targets();
    assert_eq!(retry, vec![targets(5)[1].clone(), targets(5)[3].clone()]);
    run.complete_round(vec![ok("b", 40), ok("d", 50)]);
    assert_eq!(run.status(), RunStatus::Succeeded);
    assert_eq!(run.rounds(), 2);
    assert!(run.working_targets().is_empty());
    assert!(run.outcomes().iter().all(|o| matches!(o, Some(FetchOutcome::Success { .. }))));
    assert_eq!(run.outcomes()[1], Some(ok("b", 40)));
    assert_eq!(run.attempts(), &vec![1, 2, 1, 2, 1]);
    let s = run.summary();
    assert_eq!(s.succeeded, 5);
    assert_eq!(s.failed, 0);
    assert_eq!(s.mean_latency_ms, Some(30));
}

#[test]
fn three_targets_failing_every_round_exhaust_the_limit() {
    let mut run = RetryRun::new(targets(3), 3);
    for _ in 0..3 {
        assert_eq!(run.status(), RunStatus::Running);
        run.complete_round(vec![timeout(5), timeout(5), timeout(5)]);
    }
    assert_eq!(run.status(), RunStatus::PartialFailure);
    assert_eq!(run.rounds(), 3);
    assert_eq!(run.attempts(), &vec![3, 3, 3]);
    assert!(run.outcomes().iter().all(|o| *o == Some(timeout(5))));
    assert_eq!(run.working_targets(), targets(3));
    let s = run.summary();
    assert_eq!(s, Summary { succeeded: 0, failed: 3, unattempted: 0, mean_latency_ms: None });
}

#[test]
fn success_is_never_resubmitted() {
    let mut run = RetryRun::new(targets(2), 5);
    run.complete_round(vec![ok("x", 1), timeout(2)]);
    assert_eq!(run.working_targets(), vec![targets(2)[1].clone()]);
    run.complete_round(vec![timeout(3)]);
    assert_eq!(run.outcomes()[0], Some(ok("x", 1)));
    assert_eq!(run.attempts(), &vec![1, 2]);
}

#[test]
fn empty_batch_succeeds_at_once() {
    let run = RetryRun::new(Vec::new(), 3);
    assert_eq!(run.status(), RunStatus::Succeeded);
    assert_eq!(run.summary().mean_latency_ms, None);
}

#[test]
fn zero_round_limit_leaves_targets_unattempted() {
    let run = RetryRun::new(targets(2), 0);
    assert_eq!(run.status(), RunStatus::PartialFailure);
    assert_eq!(run.summary(), Summary { succeeded: 0, failed: 0, unattempted: 2, mean_latency_ms: None });
}

#[test]
fn mean_latency_without_successes_is_undefined() {
    let outcomes = vec![Some(timeout(100)), None];
    let s = summarize(&outcomes);
    assert_eq!(s.mean_latency_ms, None);
    assert_eq!(s.failed, 1);
    assert_eq!(s.unattempted, 1);
}

#[test]
fn mean_latency_rounds_down_over_successes_only() {
    let outcomes = vec![Some(ok("a", 10)), Some(ok("b", 15)), Some(timeout(1000))];
    assert_eq!(summarize(&outcomes).mean_latency_ms, Some(12));
}

#[test]
fn mean_latency_of_largest_durations_does_not_overflow() {
    let outcomes = vec![Some(ok("a", u64::MAX)), Some(ok("b", u64::MAX))];
    assert_eq!(summarize(&outcomes).mean_latency_ms, Some(u64::MAX));
}

#[test]
fn classify_maps_each_reply() {
    let body = "<html></html>".to_string();
    assert_eq!(classify(HttpReply::Received { status: 200, body: body.clone() }, 7), ok("<html></html>", 7));
    assert_eq!(classify(HttpReply::Received { status: 399, body: body.clone() }, 7), ok("<html></html>", 7));
    assert_eq!(
        classify(HttpReply::Received { status: 400, body: body.clone() }, 7),
        FetchOutcome::Failure { error: ErrorKind::HttpStatus { code: 400 }, elapsed_ms: 7 }
    );
    assert_eq!(
        classify(HttpReply::Received { status: 503, body }, 8),
        FetchOutcome::Failure { error: ErrorKind::HttpStatus { code: 503 }, elapsed_ms: 8 }
    );
    assert_eq!(classify(HttpReply::TimedOut, 9), timeout(9));
    assert_eq!(
        classify(HttpReply::ProxyFailed, 1),
        FetchOutcome::Failure { error: ErrorKind::ProxyConnect, elapsed_ms: 1 }
    );
    assert_eq!(
        classify(HttpReply::BadUrl, 0),
        FetchOutcome::Failure { error: ErrorKind::MalformedUrl, elapsed_ms: 0 }
    );
}

const PAGE: &str = r#"<html><body>
<span id="productTitle">Bean Bag Chair</span>
<div class="a-section review"><div class="a-spacing-small review-data">  Very comfy. </div></div>
<div class="a-section review"><div class="a-spacing-small review-data"><span>Too</span> big</div></div>
</body></html>"#;

#[test]
fn scrape_reads_title_and_trimmed_reviews() {
    let p = Product::scrape(PAGE, "https://www.amazon.com/dp/1".to_string(), 250).unwrap();
    assert_eq!(p.name, "Bean Bag Chair");
    assert_eq!(p.comments, vec!["Very comfy.".to_string(), "Too big".to_string()]);
    assert_eq!(p.url, "https://www.amazon.com/dp/1");
    assert_eq!(p.elapsed_ms, 250);
}

#[test]
fn scrape_without_reviews_gives_no_comments() {
    let p = Product::scrape(r#"<span id="productTitle">Gloves</span>"#, "u".to_string(), 1).unwrap();
    assert_eq!(p.name, "Gloves");
    assert!(p.comments.is_empty());
}

#[test]
fn success_without_title_is_an_extraction_error() {
    let page = ok("<html><body><h1>No title here</h1></body></html>", 40);
    let r = extract_outcome("https://www.amazon.com/dp/2".to_string(), &page);
    assert_eq!(r, Err(ErrorKind::Extraction { missing_field: "title".to_string() }));
    let status = FetchOutcome::Failure { error: ErrorKind::HttpStatus { code: 404 }, elapsed_ms: 3 };
    let s = extract_outcome("https://www.amazon.com/dp/2".to_string(), &status);
    assert_eq!(s, Err(ErrorKind::HttpStatus { code: 404 }));
    assert_ne!(r, s);
}

#[test]
fn extract_outcome_scrapes_a_success() {
    let r = extract_outcome("https://www.amazon.com/dp/1".to_string(), &ok(PAGE, 5)).unwrap();
    assert_eq!(r.name, "Bean Bag Chair");
    assert_eq!(r.comments.len(), 2);
}

#[test]
fn resolve_link_joins_with_one_slash() {
    assert_eq!(resolve_link("https://www.walmart.com", "/ip/42"), "https://www.walmart.com/ip/42");
    assert_eq!(resolve_link("https://www.walmart.com/", "/ip/42"), "https://www.walmart.com/ip/42");
    assert_eq!(resolve_link("https://www.walmart.com/", "ip/42"), "https://www.walmart.com/ip/42");
    assert_eq!(resolve_link("https://www.walmart.com", "ip/42"), "https://www.walmart.com/ip/42");
    assert_eq!(resolve_link("https://www.walmart.com", "https://www.walmart.com/ip/7"), "https://www.walmart.com/ip/7");
    assert_eq!(resolve_link("https://a.example", "http://b.example/x"), "http://b.example/x");
    assert_eq!(resolve_link("https://a.example", ""), "https://a.example/");
}

#[test]
fn has_prefix_compares_characters() {
    assert!(has_prefix("https://x", "https://"));
    assert!(has_prefix("abc", ""));
    assert!(!has_prefix("http", "https"));
    assert!(!has_prefix("ftp://x", "http://"));
}

#[test]
fn listing_targets_skip_missing_links() {
    let hrefs = vec![Some("/dp/1".to_string()), None, Some("https://www.amazon.com/dp/3".to_string())];
    let t = listing_targets("https://www.amazon.com", &hrefs);
    assert_eq!(t, vec!["https://www.amazon.com/dp/1".to_string(), "https://www.amazon.com/dp/3".to_string()]);
}

#[test]
fn listing_links_reads_search_results() {
    let page = r#"<html><body>
<div data-component-type="s-search-result"><div class="s-widget-container">
<a class="a-link-normal s-no-outline" href="/dp/B01">one</a></div></div>
<div data-component-type="s-search-result"><div class="s-widget-container">
<a class="a-link-normal s-no-outline">no href</a></div></div>
<div data-component-type="s-search-result"><div class="s-widget-container">
<a class="a-link-normal" href="/dp/B99">not an item link</a></div></div>
</body></html>"#;
    let links = listing_links(page).unwrap();
    assert_eq!(links, vec!["https://www.amazon.com/dp/B01".to_string()]);
}

#[test]
fn scrape_search_result_reads_walmart_blocks() {
    let page = r#"<html><body>
<div class="pb1-xl"><a class="absolute" href="/ip/111">first</a><a href="/ip/000">plain</a></div>
<div class="pb1-xl"><a class="absolute w-100" href="https://www.walmart.com/ip/222">second</a></div>
<div class="other"><a class="absolute" href="/ip/333">outside</a></div>
</body></html>"#;
    let links = scrape_search_result(page);
    assert_eq!(
        links,
        vec!["https://www.walmart.com/ip/111".to_string(), "https://www.walmart.com/ip/222".to_string()]
    );
}
