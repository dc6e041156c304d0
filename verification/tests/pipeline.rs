use sitemap_reports::config::Config;
use sitemap_reports::crawler::{Crawler, CrawlError};
use sitemap_reports::governor::Governor;
use sitemap_reports::urls::{get_base_sites, PageUrl};
use sitemap_reports::worker::{Worker, WorkerAction};

fn site(url: &str) -> PageUrl {
    let sites = get_base_sites(&vec![url.to_string()]).expect("site list should load");
    sites.into_iter().next().expect("one site")
}

fn rules(patterns: &[&str], ignore_paths: &[&str]) -> Config {
    Config {
        patterns: patterns.iter().map(|p| p.to_string()).collect(),
        ignore_paths: ignore_paths.iter().map(|p| p.to_string()).collect(),
        sites: Vec::new(),
    }
}

/// Drive a crawl to completion against a fixed set of documents,
/// returning how many fetches the crawler asked for.
fn drive(crawler: &mut Crawler, docs: &[(&str, &str)]) -> usize {
    let mut fetches = 0;
    while let Some(u) = crawler.next_sitemap() {
        fetches += 1;
        let doc = docs
            .iter()
            .find(|(url, _)| *url == u.full)
            .map(|(_, d)| *d)
            .unwrap_or("");
        crawler.process_document(doc);
    }
    fetches
}

fn discovered(crawler: Crawler) -> Vec<String> {
    crawler
        .into_result()
        .expect("crawl should have succeeded")
        .into_iter()
        .map(|u| u.full)
        .collect()
}

#[test]
fn cyclic_sitemap_graph_is_visited_once() {
    // A references B, B references A: the crawl terminates and each
    // sitemap URL is fetched exactly once.
    let origin = site("https://example.com");
    let mut crawler = Crawler::new(&origin, None).expect("valid origin");
    let docs = [
        (
            "https://example.com/sitemaps.xml",
            "<loc>https://example.com/sitemaps/a.xml</loc>",
        ),
        (
            "https://example.com/sitemaps/a.xml",
            "<loc>https://example.com/sitemaps/b.xml</loc>",
        ),
        (
            "https://example.com/sitemaps/b.xml",
            "<loc>https://example.com/sitemaps/a.xml</loc>",
        ),
    ];

    let fetches = drive(&mut crawler, &docs);

    assert_eq!(fetches, 3);
    assert_eq!(crawler.visited_count(), 3);
    assert!(discovered(crawler).is_empty());
}

#[test]
fn end_to_end_discovery() {
    // Root sitemap with one nested reference and one content URL; the
    // nested document holds one content URL, a duplicate of it, and a
    // reference back to itself.
    let origin = site("https://example.com");
    let mut crawler = Crawler::new(&origin, None).expect("valid origin");
    let docs = [
        (
            "https://example.com/sitemaps.xml",
            "<loc>https://example.com/sitemaps/blog.xml</loc>\
             <loc>https://example.com/about</loc>",
        ),
        (
            "https://example.com/sitemaps/blog.xml",
            "<loc>https://example.com/blog/1</loc>\
             <loc>https://example.com/blog/1</loc>\
             <loc>https://example.com/sitemaps/blog.xml</loc>",
        ),
    ];

    let fetches = drive(&mut crawler, &docs);

    // The self-reference is never fetched a second time.
    assert_eq!(fetches, 2);
    assert_eq!(
        discovered(crawler),
        vec![
            "https://example.com/about".to_string(),
            "https://example.com/blog/1".to_string()
        ]
    );
}

#[test]
fn duplicate_locations_are_discovered_once() {
    let origin = site("https://example.com");
    let mut crawler = Crawler::new(&origin, None).expect("valid origin");
    let docs = [(
        "https://example.com/sitemaps.xml",
        "<loc>https://example.com/a</loc>\
         <loc>https://example.com/a</loc>\
         <loc>https://example.com/b</loc>",
    )];

    drive(&mut crawler, &docs);

    assert_eq!(
        discovered(crawler),
        vec![
            "https://example.com/a".to_string(),
            "https://example.com/b".to_string()
        ]
    );
}

#[test]
fn pattern_collapses_dynamic_routes() {
    let origin = site("https://example.com");
    let mut crawler =
        Crawler::new(&origin, Some(rules(&["/foo/:id"], &[]))).expect("valid origin");
    let docs = [(
        "https://example.com/sitemaps.xml",
        "<loc>https://example.com/foo/1</loc>\
         <loc>https://example.com/foo/2</loc>\
         <loc>https://example.com/foo/3</loc>",
    )];

    drive(&mut crawler, &docs);

    assert_eq!(discovered(crawler), vec!["https://example.com/foo/1".to_string()]);
}

#[test]
fn ignored_url_never_consumes_pattern_slot() {
    // The first location matches both an ignore substring and the
    // pattern: it is dropped and the second, non-ignored URL with the
    // same pattern is still kept.
    let origin = site("https://example.com");
    let mut crawler =
        Crawler::new(&origin, Some(rules(&["/foo/:id"], &["/skip"]))).expect("valid origin");
    let docs = [(
        "https://example.com/sitemaps.xml",
        "<loc>https://example.com/foo/skip-1</loc>\
         <loc>https://example.com/foo/2</loc>",
    )];

    drive(&mut crawler, &docs);

    assert_eq!(discovered(crawler), vec!["https://example.com/foo/2".to_string()]);
}

#[test]
fn ignored_urls_are_filtered() {
    let origin = site("https://example.com");
    let mut crawler =
        Crawler::new(&origin, Some(rules(&[], &["/private"]))).expect("valid origin");
    let docs = [(
        "https://example.com/sitemaps.xml",
        "<loc>https://example.com/private/a</loc>\
         <loc>https://example.com/public/a</loc>",
    )];

    drive(&mut crawler, &docs);

    assert_eq!(
        discovered(crawler),
        vec!["https://example.com/public/a".to_string()]
    );
}

#[test]
fn missing_rule_set_keeps_everything() {
    let origin = site("https://example.com");
    let mut crawler = Crawler::new(&origin, None).expect("valid origin");
    let docs = [(
        "https://example.com/sitemaps.xml",
        "<loc>https://example.com/foo/1</loc>\
         <loc>https://example.com/foo/2</loc>",
    )];

    drive(&mut crawler, &docs);

    assert_eq!(
        discovered(crawler),
        vec![
            "https://example.com/foo/1".to_string(),
            "https://example.com/foo/2".to_string()
        ]
    );
}

#[test]
fn empty_rule_set_filters_nothing() {
    // An empty rule set behaves like no rule set at all: no
    // filtering, no pattern dedup.
    let origin = site("https://example.com");
    let mut crawler = Crawler::new(&origin, Some(Config::empty())).expect("valid origin");
    let docs = [(
        "https://example.com/sitemaps.xml",
        "<loc>https://example.com/foo/1</loc>\
         <loc>https://example.com/foo/2</loc>",
    )];

    drive(&mut crawler, &docs);

    assert_eq!(
        discovered(crawler),
        vec![
            "https://example.com/foo/1".to_string(),
            "https://example.com/foo/2".to_string()
        ]
    );
}

#[test]
fn opaque_origin_cannot_start_a_crawl() {
    let origin = site("data:text/plain,Stuff");
    let result = Crawler::new(&origin, None);
    assert!(matches!(result, Err(CrawlError::InvalidBaseUrl)));
}

#[test]
fn fetch_failure_fails_the_whole_site() {
    // A failed fetch — root or nested — aborts the whole site's
    // crawl: no further fetch is requested and nothing is returned.
    let origin = site("https://example.com");
    let mut crawler = Crawler::new(&origin, None).expect("valid origin");

    let root = crawler.next_sitemap().expect("the index is fetched first");
    assert_eq!(root.full, "https://example.com/sitemaps.xml");
    crawler.process_document(
        "<loc>https://example.com/kept</loc>\
         <loc>https://example.com/sitemaps/broken.xml</loc>",
    );

    let nested = crawler.next_sitemap().expect("the nested sitemap is next");
    assert_eq!(nested.full, "https://example.com/sitemaps/broken.xml");
    crawler.on_fetch_failure();

    assert!(crawler.next_sitemap().is_none());
    assert!(matches!(crawler.into_result(), Err(CrawlError::FetchFailed)));
}

#[test]
fn governor_never_exceeds_capacity() {
    let mut governor = Governor::new(2);

    assert!(governor.try_acquire());
    assert!(governor.try_acquire());
    // A third site must wait: the bound holds at every instant.
    assert!(!governor.try_acquire());
    assert!(!governor.try_acquire());

    governor.release();
    assert!(governor.try_acquire());
    assert!(!governor.try_acquire());

    governor.release();
    governor.release();
}

#[test]
fn governor_with_zero_capacity_grants_nothing() {
    let mut governor = Governor::new(0);
    assert!(!governor.try_acquire());
}

fn page(url: &str, path: &str) -> PageUrl {
    PageUrl { full: url.to_string(), path: path.to_string() }
}

#[test]
fn worker_walks_urls_in_order() {
    let mut worker = Worker::new();
    assert!(matches!(worker.next_action(), WorkerAction::AcquirePermit));

    worker.on_permit(true);
    assert!(matches!(worker.next_action(), WorkerAction::RunCrawl));

    worker.on_crawl(Some(vec![
        page("https://example.com/a", "/a"),
        page("https://example.com/b", "/b"),
    ]));
    match worker.next_action() {
        WorkerAction::FetchReport { url } => assert_eq!(url, "https://example.com/a"),
        other => panic!("expected a report fetch, got {:?}", other),
    }

    worker.on_report(true);
    match worker.next_action() {
        WorkerAction::PushEvent { url } => assert_eq!(url, "https://example.com/a"),
        other => panic!("expected a push, got {:?}", other),
    }

    worker.on_push(true);
    assert!(matches!(worker.next_action(), WorkerAction::Pause));

    worker.on_pause();
    match worker.next_action() {
        WorkerAction::FetchReport { url } => assert_eq!(url, "https://example.com/b"),
        other => panic!("expected a report fetch, got {:?}", other),
    }

    worker.on_report(true);
    worker.on_push(true);
    worker.on_pause();
    assert!(matches!(worker.next_action(), WorkerAction::Stop));
}

#[test]
fn worker_stops_after_disconnect() {
    // Once the sink reports disconnection, the worker asks for no
    // further report fetches.
    let mut worker = Worker::new();
    worker.on_permit(true);
    worker.on_crawl(Some(vec![
        page("https://example.com/a", "/a"),
        page("https://example.com/b", "/b"),
        page("https://example.com/c", "/c"),
    ]));
    worker.on_report(true);

    worker.on_push(false);

    assert!(matches!(worker.next_action(), WorkerAction::Stop));
    assert!(!matches!(
        worker.next_action(),
        WorkerAction::FetchReport { .. }
    ));
}

#[test]
fn worker_stops_on_report_failure() {
    let mut worker = Worker::new();
    worker.on_permit(true);
    worker.on_crawl(Some(vec![
        page("https://example.com/a", "/a"),
        page("https://example.com/b", "/b"),
    ]));
    worker.on_report(false);
    assert!(matches!(worker.next_action(), WorkerAction::Stop));
}

#[test]
fn worker_emits_nothing_when_crawl_fails() {
    let mut worker = Worker::new();
    worker.on_permit(true);
    worker.on_crawl(None);
    assert!(matches!(worker.next_action(), WorkerAction::Stop));
}

#[test]
fn worker_stops_when_permit_denied() {
    let mut worker = Worker::new();
    worker.on_permit(false);
    assert!(matches!(worker.next_action(), WorkerAction::Stop));
}

#[test]
fn worker_with_no_urls_stops_at_once() {
    let mut worker = Worker::new();
    worker.on_permit(true);
    worker.on_crawl(Some(Vec::new()));
    assert!(matches!(worker.next_action(), WorkerAction::Stop));
}
