use sitemap_reports::crawler::build_sitemap_index_url;
use sitemap_reports::pattern::{get_pattern, match_dynamic_url_pattern};
use sitemap_reports::sitemaps::{extract_loc_urls, remove_duplicates};
use sitemap_reports::urls::{get_base_sites, PageUrl, SiteListError};

fn site(url: &str) -> PageUrl {
    let sites = get_base_sites(&vec![url.to_string()]).expect("site list should load");
    sites.into_iter().next().expect("one site")
}

#[test]
fn add_sitemap_index_path() {
    let base_url = site("https://example.com");
    let sitemap_url = build_sitemap_index_url(&base_url).expect("origin can take segments");
    assert_eq!(sitemap_url.full, "https://example.com/sitemaps.xml");
}

#[test]
fn parse_normalizes_origin() {
    // The parse boundary hands back the URL's serialization, not the
    // input text: a bare origin gains its root path.
    let base_url = site("https://example.com");
    assert_eq!(base_url.full, "https://example.com/");
    assert_eq!(base_url.path, "/");
}

#[test]
fn remove_duplicate_urls() {
    let url1 = "https://example.com".to_string();
    let url2 = "https://example-2.com".to_string();
    let url3 = "https://example-3.com".to_string();
    let urls = vec![
        url1.clone(),
        url2.clone(),
        url1.clone(),
        url3.clone(),
        url2.clone(),
    ];

    let unique = remove_duplicates(urls);

    assert_eq!(unique, vec![url1, url2, url3]);
}

#[test]
fn extracts_valid_loc_urls() {
    let xml = r#"
    <urlset>
        <url>
            <loc>https://example.com/page1</loc>
        </url>
        <url>
            <loc>https://example.com/page2</loc>
        </url>
    </urlset>
    "#;

    let urls = extract_loc_urls(xml);
    assert_eq!(
        urls,
        vec![
            "https://example.com/page1".to_string(),
            "https://example.com/page2".to_string()
        ]
    );
}

#[test]
fn sitemaps_extracts_valid_loc_urls() {
    let xml = "<urlset><url><loc>https://example.com/page1</loc></url>\
               <url><loc>https://example.com/page2</loc></url></urlset>";

    let urls = extract_loc_urls(xml);
    assert_eq!(
        urls,
        vec![
            "https://example.com/page1".to_string(),
            "https://example.com/page2".to_string()
        ]
    );
}

#[test]
fn skips_invalid_urls() {
    let xml = r#"
    <urlset>
        <url>
            <loc>https://example.com/page1</loc>
        </url>
        <url>
            <loc>invalid_url</loc>
        </url>
    </urlset>
    "#;

    let urls = extract_loc_urls(xml);
    assert_eq!(urls, vec!["https://example.com/page1".to_string()]);
}

#[test]
fn sitemaps_skips_invalid_urls() {
    let xml = "<urlset><url><loc>https://example.com/page1</loc></url>\
               <url><loc>invalid_url</loc></url></urlset>";

    let urls = extract_loc_urls(xml);
    assert_eq!(urls, vec!["https://example.com/page1".to_string()]);
}

#[test]
fn malformed_entry_among_valid_ones() {
    // One unparseable entry among three valid ones yields exactly the
    // three valid URLs, with no failure.
    let xml = "<urlset>\
               <url><loc>https://example.com/a</loc></url>\
               <url><loc>not a url at all</loc></url>\
               <url><loc>https://example.com/b</loc></url>\
               <url><loc>https://example.com/c</loc></url>\
               </urlset>";

    let urls = extract_loc_urls(xml);
    assert_eq!(urls.len(), 3);
    assert_eq!(urls[0], "https://example.com/a");
    assert_eq!(urls[1], "https://example.com/b");
    assert_eq!(urls[2], "https://example.com/c");
}

#[test]
fn extract_from_document_without_locations() {
    let urls = extract_loc_urls("<urlset></urlset>");
    assert!(urls.is_empty());
}

#[test]
fn decodes_character_references_in_locations() {
    let xml = "<urlset><url><loc>https://example.com/p?a=1&amp;b=2</loc></url>\
               <url><loc>https://example.com/q?t=&quot;x&apos;&gt;&lt;&quot;</loc></url></urlset>";

    let urls = extract_loc_urls(xml);
    assert_eq!(
        urls,
        vec![
            "https://example.com/p?a=1&b=2".to_string(),
            "https://example.com/q?t=\"x'><\"".to_string()
        ]
    );
}

#[test]
fn url_segment_length_less_than_pattern_length() {
    let url = site("https://example.com/foo/123");
    let pattern = "/foo/bar/:id";

    let output = match_dynamic_url_pattern(&url, pattern);
    assert!(output.is_none());
}

#[test]
fn fail_if_static_url_segment_differs_from_pattern() {
    let url = site("https://examples.com/foo/123");
    let pattern = "/bar/:id";

    let output = match_dynamic_url_pattern(&url, pattern);
    assert!(output.is_none());
}

#[test]
fn match_url_to_pattern() {
    let url = site("https://examples.com/example/123");
    let pattern = "/example/:id";

    let output = match_dynamic_url_pattern(&url, pattern);
    assert!(output.is_some());
}

#[test]
fn consecutive_slashes_carry_no_weight() {
    // Both sides are split into non-empty segments, so an empty
    // segment in the path does not break the match.
    let url = site("https://example.com/foo//bar");
    assert!(match_dynamic_url_pattern(&url, "/foo/bar").is_some());
}

#[test]
fn trailing_slash_carries_no_weight() {
    let url = site("https://example.com/docs/");
    assert!(match_dynamic_url_pattern(&url, "/docs").is_some());
    assert!(match_dynamic_url_pattern(&url, "/docs/:id").is_none());
}

#[test]
fn no_pattern_found() {
    let url = site("https://example.com/foo/bar/baz");
    let patterns = vec!["/bar/bat".to_string(), "/bar/:id".to_string()];

    let result = get_pattern(&url, &patterns);
    assert!(result.is_none());
}

#[test]
fn matched_pattern_found() {
    let url = site("https://example.com/foo/123");
    let patterns = vec!["/foo/:id".to_string(), "/bar/:slug".to_string()];

    let pattern = get_pattern(&url, &patterns).expect("Not found");
    assert_eq!(pattern, "/foo/:id");
}

#[test]
fn invalid_site_entry_fails_whole_load() {
    let sites = vec![
        "https://example.com".to_string(),
        "not a url".to_string(),
        "https://example-2.com".to_string(),
    ];

    let result = get_base_sites(&sites);
    assert!(matches!(
        result,
        Err(SiteListError::InvalidSite { index: 1 })
    ));
}
