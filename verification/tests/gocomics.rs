use panels::cache::Caches;
use panels::error::PanelsError;
use panels::http_client::{user_agent, PageResponse, USER_AGENT_COUNT};
use panels::models::{default_source, find_title, is_listed, Comic};
use panels::sources::comicsrss::ComicsRssSource;
use panels::sources::dilbert::{DilbertSource, SnapshotTable};
use panels::sources::gocomics::GoComicsSource;
use panels::sources::phd::PhdSource;
use panels::sources::xkcd::XkcdSource;
use panels::sources::{
    check_image_status, image_result, ComicSource, ImageReply, Pending, Reply, Step,
};

const PAGE: &str = r#"<html><head>
<link rel="canonical" href="https://www.gocomics.com/garfield/2024/01/14" />
<meta property="og:image" content="https://featureassets.gocomics.com/img.gif?w=800" />
</head><body></body></html>"#;

fn comic(endpoint: &str, title: &str, source: &str) -> Comic {
    Comic {
        endpoint: endpoint.into(),
        title: title.into(),
        author: None,
        available: true,
        start_date: None,
        source: source.into(),
    }
}

fn gallery() -> GoComicsSource {
    GoComicsSource::new(vec![
        comic("garfield", "Garfield", "gocomics"),
        comic("blondie", "Blondie", "comicsrss"),
        comic("garfield", "Shadowed", "gocomics"),
    ])
}

fn page(html: &str, final_url: &str) -> Reply {
    Reply::Page(Ok(Some(PageResponse { html: html.into(), final_url: final_url.into() })))
}

#[test]
fn series_titles_are_looked_up_by_endpoint() {
    let comics = vec![comic("a", "A", "gocomics"), comic("b", "B", "x"), comic("a", "A2", "x")];
    assert_eq!(find_title(&comics, "a"), "A");
    assert_eq!(find_title(&comics, "b"), "B");
    assert_eq!(find_title(&comics, "c"), "c");
    assert!(is_listed(&comics, "a", "gocomics"));
    assert!(is_listed(&comics, "a", "x"));
    assert!(!is_listed(&comics, "b", "gocomics"));
    assert_eq!(default_source(), "gocomics");
}

#[test]
fn gallery_claims_its_own_series_only() {
    let source = gallery();
    assert!(source.handles("garfield"));
    assert!(!source.handles("blondie"));
    assert!(!source.handles("peanuts"));
}

#[test]
fn gallery_refuses_an_identifier_that_is_no_date() {
    let mut caches = Caches::new(10, 60);
    for date in ["latest-ish", "2024-02-30", "15-01-2024", ""] {
        match gallery().fetch_strip(&mut caches, "garfield", date) {
            Err(PanelsError::InvalidDate(detail)) => {
                assert_eq!(detail, format!("invalid date format: {date}"))
            }
            _ => panic!("expected an invalid date for {date:?}"),
        }
    }
}

#[test]
fn gallery_asks_for_the_page_of_the_date() {
    let mut caches = Caches::new(10, 60);
    match gallery().fetch_strip(&mut caches, "garfield", "2024-01-15").unwrap() {
        Step::FetchPage(request, Pending::GalleryStrip { endpoint, date }) => {
            assert_eq!(request.url, "https://www.gocomics.com/garfield/2024/01/15");
            assert_eq!(request.retries, 1);
            assert_eq!(request.timeout_ms, 12000);
            assert!(!request.suppress_errors);
            assert!(request.silent_statuses.is_empty());
            assert_eq!(endpoint, "garfield");
            assert_eq!(date, "2024-01-15");
        }
        _ => panic!("expected a page request"),
    }
}

#[test]
fn gallery_files_the_strip_under_the_date_that_was_served() {
    let source = gallery();
    let mut caches = Caches::new(10, 60);
    let pending = || Pending::GalleryStrip { endpoint: "garfield".into(), date: "2024-01-15".into() };
    let redirected = page(PAGE, "https://www.gocomics.com/garfield/2024/01/13");
    match source.resume(&mut caches, pending(), redirected).unwrap() {
        Step::Done(Some(strip)) => {
            assert_eq!(strip.date, "2024-01-13");
            assert_eq!(strip.title, "Garfield");
            assert_eq!(strip.image_url, "https://featureassets.gocomics.com/img.gif");
            assert_eq!(strip.source_url, "https://www.gocomics.com/garfield");
        }
        _ => panic!("expected a strip"),
    }
    assert!(caches.get("garfield:2024-01-13").is_some());
    assert!(caches.get("garfield:2024-01-15").is_none());
    let canonical = page(PAGE, "https://www.gocomics.com/garfield");
    match source.resume(&mut caches, pending(), canonical).unwrap() {
        Step::Done(Some(strip)) => assert_eq!(strip.date, "2024-01-14"),
        _ => panic!("expected a strip"),
    }
    let bare = r#"<img src="https://featureassets.gocomics.com/x.gif">"#;
    match source.resume(&mut caches, pending(), page(bare, "https://elsewhere/")).unwrap() {
        Step::Done(Some(strip)) => assert_eq!(strip.date, "2024-01-15"),
        _ => panic!("expected a strip"),
    }
}

#[test]
fn gallery_serves_the_cached_strip() {
    let source = gallery();
    let mut caches = Caches::new(10, 60);
    let pending = Pending::GalleryStrip { endpoint: "garfield".into(), date: "2024-01-14".into() };
    source.resume(&mut caches, pending, page(PAGE, "https://x/")).unwrap();
    assert!(matches!(
        source.fetch_strip(&mut caches, "garfield", "2024-01-14").unwrap(),
        Step::Done(Some(_))
    ));
}

#[test]
fn gallery_passes_misses_and_errors_on() {
    let source = gallery();
    let mut caches = Caches::new(10, 60);
    let pending = || Pending::GalleryStrip { endpoint: "garfield".into(), date: "2024-01-15".into() };
    assert!(matches!(
        source.resume(&mut caches, pending(), Reply::Page(Ok(None))),
        Ok(Step::Done(None))
    ));
    assert!(matches!(
        source.resume(&mut caches, pending(), page("<html></html>", "https://x/")),
        Ok(Step::Done(None))
    ));
    let failed = Reply::Page(Err(PanelsError::ScrapeFailed("body".into())));
    assert!(matches!(
        source.resume(&mut caches, pending(), failed),
        Err(PanelsError::ScrapeFailed(_))
    ));
    assert!(matches!(
        source.resume(&mut caches, Pending::PhdLatest, Reply::Page(Ok(None))),
        Err(PanelsError::Internal(_))
    ));
}

#[test]
fn gallery_latest_reads_the_front_page() {
    let source = gallery();
    let mut caches = Caches::new(10, 60);
    let pending = match source.fetch_latest(&mut caches, "garfield").unwrap() {
        Step::FetchPage(request, pending) => {
            assert_eq!(request.url, "https://www.gocomics.com/garfield");
            pending
        }
        _ => panic!("expected a page request"),
    };
    match source.resume(&mut caches, pending, page(PAGE, "https://x/")).unwrap() {
        Step::Done(Some(strip)) => assert_eq!(strip.date, "2024-01-14"),
        _ => panic!("expected a strip"),
    }
    let bare = r#"<img src="https://featureassets.gocomics.com/x.gif">"#;
    let pending = Pending::GalleryLatest { endpoint: "garfield".into() };
    match source.resume(&mut caches, pending, page(bare, "https://x/")).unwrap() {
        Step::Done(Some(strip)) => {
            assert_eq!(strip.date.len(), 10);
            assert_eq!(strip.date.matches('-').count(), 2);
        }
        _ => panic!("expected a strip"),
    }
}

#[test]
fn gallery_random_asks_for_a_day_of_the_last_five_years() {
    let source = gallery();
    let mut caches = Caches::new(10, 60);
    let mut seen = std::collections::HashSet::new();
    for _ in 0..200 {
        let before = chrono::Local::now().date_naive();
        let step = source.fetch_random(&mut caches, "garfield").unwrap();
        let after = chrono::Local::now().date_naive();
        match step {
            Step::FetchPage(request, Pending::GalleryStrip { endpoint, date }) => {
                assert_eq!(endpoint, "garfield");
                assert_eq!(
                    request.url,
                    format!("https://www.gocomics.com/garfield/{}", date.replace('-', "/"))
                );
                let day = chrono::NaiveDate::parse_from_str(&date, "%Y-%m-%d").unwrap();
                assert!(day <= after);
                assert!(before.signed_duration_since(day).num_days() < 1825);
                seen.insert(date);
            }
            _ => panic!("expected a page request"),
        }
    }
    assert!(seen.len() > 1);
}

#[test]
fn image_requests_carry_identity_and_referer() {
    let request = gallery().proxy_image("https://featureassets.gocomics.com/a.gif");
    assert_eq!(request.url, "https://featureassets.gocomics.com/a.gif");
    assert_eq!(request.referer, Some("https://www.gocomics.com"));
    assert_eq!(request.fallback_content_type, "image/jpeg");
    assert!(request.user_agent.contains("Chrome"));
}

#[test]
fn image_replies_become_bytes_or_errors() {
    let request = gallery().proxy_image("https://a/b.gif");
    let answer = |status, content_type: Option<&str>, body: Result<Vec<u8>, String>| {
        ImageReply::Answer { status, content_type: content_type.map(str::to_string), body }
    };
    assert_eq!(
        image_result(&request, answer(200, Some("image/gif"), Ok(vec![1, 2, 3]))).unwrap(),
        (vec![1, 2, 3], "image/gif".to_string())
    );
    assert_eq!(
        image_result(&request, answer(200, None, Ok(vec![]))).unwrap(),
        (vec![], "image/jpeg".to_string())
    );
    match image_result(&request, answer(404, Some("text/html"), Ok(vec![1]))) {
        Err(PanelsError::NotFound(detail)) => assert_eq!(detail, "image not found"),
        _ => panic!("expected not found"),
    }
    match image_result(&request, answer(500, None, Err("x".into()))) {
        Err(PanelsError::NotFound(detail)) => assert_eq!(detail, "image not found"),
        _ => panic!("expected not found"),
    }
    match image_result(&request, answer(200, None, Err("reset".into()))) {
        Err(PanelsError::ScrapeFailed(detail)) => {
            assert_eq!(detail, "failed to read image bytes: reset")
        }
        _ => panic!("expected a scrape failure"),
    }
    match image_result(&request, ImageReply::Unreachable("dns".into())) {
        Err(PanelsError::ScrapeFailed(detail)) => assert_eq!(detail, "failed to fetch image: dns"),
        _ => panic!("expected a scrape failure"),
    }
}

#[test]
fn image_status_decides_whether_the_body_is_read() {
    assert!(check_image_status(200).is_ok());
    assert!(check_image_status(204).is_ok());
    for status in [199, 301, 403, 404, 500] {
        match check_image_status(status) {
            Err(PanelsError::NotFound(detail)) => assert_eq!(detail, "image not found"),
            _ => panic!("expected not found"),
        }
    }
}

#[test]
fn image_requests_of_every_source_carry_an_identity_of_the_pool() {
    let pool: Vec<&str> = (0..USER_AGENT_COUNT).map(user_agent).collect();
    let sources: Vec<Box<dyn ComicSource>> = vec![
        Box::new(gallery()),
        Box::new(XkcdSource::new()),
        Box::new(PhdSource::new()),
        Box::new(DilbertSource::new(SnapshotTable::new())),
        Box::new(ComicsRssSource::new(vec![])),
    ];
    for source in &sources {
        for _ in 0..20 {
            assert!(pool.contains(&source.proxy_image("http://a/b.png").user_agent));
        }
    }
}
