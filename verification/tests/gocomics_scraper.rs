use panels::markup::{find_attributes, fits_parser, MAX_PAGE_CHARS};
use panels::sources::gocomics::scraper::{
    extract_nav_date, extract_page_date_from_html, parse_comic_page,
};

#[test]
fn extract_nav_date_basic() {
    assert_eq!(
        extract_nav_date("/garfield/2024/01/15", "garfield"),
        Some("2024-01-15".to_string())
    );
}

#[test]
fn extract_nav_date_full_url() {
    assert_eq!(
        extract_nav_date("https://www.gocomics.com/garfield/2024/01/15", "garfield"),
        Some("2024-01-15".to_string())
    );
}

#[test]
fn extract_nav_date_no_match() {
    assert_eq!(extract_nav_date("/other/2024/01/15", "garfield"), None);
    assert_eq!(extract_nav_date("", "garfield"), None);
}

#[test]
fn extract_nav_date_hyphenated_endpoint() {
    assert_eq!(
        extract_nav_date("/calvin-and-hobbes/2024/01/15", "calvin-and-hobbes"),
        Some("2024-01-15".to_string())
    );
}

#[test]
fn parse_comic_page_json_ld() {
    let html = r#"
        <html><head>
        <script type="application/ld+json">
        {"@type":"ImageObject","contentUrl":"https://featureassets.gocomics.com/img.gif","name":"Garfield - January 15, 2024"}
        </script>
        </head><body></body></html>
        "#;
    let strip = parse_comic_page(html, "garfield", "2024-01-15", "Garfield").unwrap();
    assert_eq!(strip.image_url, "https://featureassets.gocomics.com/img.gif");
    assert_eq!(strip.title, "Garfield");
}

#[test]
fn parse_comic_page_og_image_fallback() {
    let html = r#"
        <html><head>
        <meta property="og:image" content="https://featureassets.gocomics.com/img.gif?w=800" />
        </head><body></body></html>
        "#;
    let strip = parse_comic_page(html, "garfield", "2024-01-15", "Garfield").unwrap();
    assert_eq!(strip.image_url, "https://featureassets.gocomics.com/img.gif");
}

#[test]
fn parse_comic_page_img_scan_fallback() {
    let html = r#"
        <html><body>
        <img src="https://other.com/logo.png" />
        <img src="https://featureassets.gocomics.com/strip.gif" />
        </body></html>
        "#;
    let strip = parse_comic_page(html, "garfield", "2024-01-15", "Garfield").unwrap();
    assert_eq!(strip.image_url, "https://featureassets.gocomics.com/strip.gif");
}

#[test]
fn parse_comic_page_no_image_returns_none() {
    let html = "<html><body><p>No comic here</p></body></html>";
    assert!(parse_comic_page(html, "garfield", "2024-01-15", "Garfield").is_none());
}

#[test]
fn extract_page_date_from_canonical() {
    let html = r#"
        <html><head>
        <link rel="canonical" href="https://www.gocomics.com/garfield/2024/01/15" />
        </head><body></body></html>
        "#;
    assert_eq!(
        extract_page_date_from_html(html, "garfield"),
        Some("2024-01-15".to_string())
    );
}

#[test]
fn extract_page_date_no_canonical_returns_none() {
    let html = "<html><head></head><body></body></html>";
    assert_eq!(extract_page_date_from_html(html, "garfield"), None);
}

#[test]
fn extract_nav_date_takes_the_endpoint_literally() {
    assert_eq!(
        extract_nav_date("/a.b/2024/01/15", "a.b"),
        Some("2024-01-15".to_string())
    );
    assert_eq!(extract_nav_date("/aXb/2024/01/15", "a.b"), None);
    assert_eq!(extract_nav_date("/ab/2024/01/15", "a(b"), None);
    assert_eq!(
        extract_nav_date("/a(b/2024/01/15", "a(b"),
        Some("2024-01-15".to_string())
    );
}

#[test]
fn extract_nav_date_needs_all_three_parts() {
    assert_eq!(extract_nav_date("/garfield/2024/01", "garfield"), None);
    assert_eq!(extract_nav_date("/garfield/2024/1/15", "garfield"), None);
    assert_eq!(
        extract_nav_date("/garfield/2024/01/155", "garfield"),
        Some("2024-01-15".to_string())
    );
}

#[test]
fn parse_comic_page_prefers_linked_data_over_other_images() {
    let html = r#"
        <html><head>
        <script type="application/ld+json">{"@type":"Person","url":"https://featureassets.gocomics.com/no.gif"}</script>
        <script type="application/ld+json">not json</script>
        <script type="application/ld+json">{"@type":"ImageObject","contentUrl":7,"url":"https://featureassets.gocomics.com/ignored.gif"}</script>
        <script type="application/ld+json">{"@type":"ImageObject","url":"https://featureassets.gocomics.com/linked.gif?x=1"}</script>
        <meta property="og:image" content="https://featureassets.gocomics.com/og.gif" />
        </head><body><img src="https://featureassets.gocomics.com/img.gif" /></body></html>
        "#;
    let strip = parse_comic_page(html, "garfield", "2024-01-15", "Garfield").unwrap();
    assert_eq!(strip.image_url, "https://featureassets.gocomics.com/linked.gif");
    assert_eq!(strip.endpoint, "garfield");
    assert_eq!(strip.date, "2024-01-15");
    assert_eq!(strip.source_url, "https://www.gocomics.com/garfield");
    assert_eq!(strip.prev_date, None);
    assert_eq!(strip.next_date, None);
}

#[test]
fn parse_comic_page_looks_at_the_first_preview_only() {
    let html = r#"
        <html><head>
        <meta property="og:image" content="https://elsewhere.example/og.gif" />
        <meta property="og:image" content="https://featureassets.gocomics.com/second.gif" />
        </head><body><img src="https://featureassets.gocomics.com/img.gif" /></body></html>
        "#;
    let strip = parse_comic_page(html, "garfield", "2024-01-15", "Garfield").unwrap();
    assert_eq!(strip.image_url, "https://featureassets.gocomics.com/img.gif");
}

#[test]
fn page_too_long_for_the_parser_shows_nothing() {
    assert!(fits_parser(""));
    assert!(fits_parser("<html></html>"));
    assert_eq!(MAX_PAGE_CHARS, 0x3FFF_FFFF);
    let mut page = String::from(r#"<img src="https://featureassets.gocomics.com/strip.gif" />"#);
    assert_eq!(find_attributes(&page, "img", "src").len(), 1);
    page.push_str(&" ".repeat(MAX_PAGE_CHARS + 1 - page.len()));
    assert_eq!(page.len(), MAX_PAGE_CHARS + 1);
    assert!(!fits_parser(&page));
    assert!(find_attributes(&page, "img", "src").is_empty());
}
