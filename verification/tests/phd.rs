use panels::cache::Caches;
use panels::error::PanelsError;
use panels::http_client::PageResponse;
use panels::sources::phd::{parse_comic_ids, parse_strip, PhdSource, BASE};
use panels::sources::{ComicSource, Pending, Reply, Step};

fn sample_html(comic_id: u32) -> String {
    format!(
        r#"<html>
<head>
<title>
	PHD Comics: The Science Gap</title>
<meta property='og:image' content='http://phdcomics.com/comics/archive/phd012345s.gif'/>
</head>
<body>
<img id=comic src=http://www.phdcomics.com/comics/archive/phd012345s.gif border=0>
<a href=http://phdcomics.com/comics/archive.php?comicid={}>prev</a>
<a href=http://phdcomics.com/comics/archive.php?comicid={}>next</a>
<a href=http://phdcomics.com/comics/archive.php?comicid={}>first</a>
</body></html>"#,
        comic_id - 1,
        comic_id + 1,
        1
    )
}

#[test]
fn parse_strip_extracts_fields() {
    let html = sample_html(100);
    let strip = parse_strip(&html, 100).unwrap();

    assert_eq!(
        strip.image_url,
        "http://phdcomics.com/comics/archive/phd012345s.gif"
    );
    assert_eq!(strip.title, "The Science Gap");
    assert_eq!(strip.prev_date, Some("#99".to_string()));
    assert_eq!(strip.next_date, Some("#101".to_string()));
    assert_eq!(strip.date, "#100");
    assert_eq!(strip.source_url, format!("{}?comicid=100", BASE));
}

#[test]
fn parse_strip_returns_none_without_comic_image() {
    let html = r#"<html><head><title>PHD Comics: Error</title></head>
<body><img src=https://example.com/logo.png></body></html>"#;
    assert!(parse_strip(html, 9999).is_none());
}

#[test]
fn parse_comic_ids_finds_max() {
    let html = r#"
<a href="archive.php?comicid=1">first</a>
<a href="archive.php?comicid=2050">prev</a>
<a href="archive.php?comicid=2051">current</a>
<a href="archive.php?comicid=1999">archive</a>"#;
    let ids = parse_comic_ids(html);
    assert_eq!(*ids.last().unwrap(), 2051);
}

#[test]
fn parse_strip_no_prev_for_first() {
    let html = r#"<html><head>
<title>
	PHD Comics: First</title>
<meta property='og:image' content='http://phdcomics.com/comics/archive/phd0001.gif'/>
</head>
<body><a href=http://phdcomics.com/comics/archive.php?comicid=2>next</a></body></html>"#;
    let strip = parse_strip(html, 1).unwrap();
    assert!(strip.prev_date.is_none());
    assert_eq!(strip.next_date, Some("#2".to_string()));
}

#[test]
fn parse_strip_has_a_predecessor_from_the_second_comic_on() {
    let page = |links: &str| {
        format!(
            "<meta property='og:image' content='http://phdcomics.com/comics/archive/phd1.gif'/>{links}"
        )
    };
    let prev = |links: &str, num: u32| parse_strip(&page(links), num).unwrap().prev_date;
    assert_eq!(prev("", 5), Some("#4".to_string()));
    assert_eq!(prev("comicid=7 comicid=9", 5), Some("#4".to_string()));
    assert_eq!(prev("comicid=0", 5), Some("#4".to_string()));
    assert_eq!(prev("comicid=0 comicid=2", 5), Some("#2".to_string()));
    assert_eq!(prev("comicid=3 comicid=1 comicid=5", 5), Some("#3".to_string()));
    assert_eq!(prev("", 2), Some("#1".to_string()));
    assert_eq!(prev("", 1), None);
    assert_eq!(prev("comicid=0", 1), None);
    assert_eq!(prev("", 0), None);
    assert_eq!(parse_strip(&page(""), 5).unwrap().next_date, None);
    assert_eq!(
        parse_strip(&page("comicid=9 comicid=7"), 5).unwrap().next_date,
        Some("#7".to_string())
    );
}

#[test]
fn parse_comic_ids_rise_without_repeats() {
    let html = "comicid=7 comicid=3 comicid=7 comicid=12 comicid=3 comicid=99999999999";
    assert_eq!(parse_comic_ids(html), vec![3, 7, 12]);
}

#[test]
fn phd_fetches_by_number_and_caches_the_strip() {
    let source = PhdSource::new();
    let mut caches = Caches::new(10, 60);
    let pending = match source.fetch_strip(&mut caches, "phd", "#100").unwrap() {
        Step::FetchPage(request, pending) => {
            assert_eq!(request.url, "https://phdcomics.com/comics/archive.php?comicid=100");
            assert_eq!(request.retries, 2);
            assert_eq!(request.timeout_ms, 10000);
            pending
        }
        _ => panic!("expected a page request"),
    };
    assert!(matches!(pending, Pending::PhdNumber { num: 100 }));
    let reply = Reply::Page(Ok(Some(PageResponse {
        html: sample_html(100),
        final_url: "http://x/".into(),
    })));
    match source.resume(&mut caches, pending, reply).unwrap() {
        Step::Done(Some(strip)) => assert_eq!(strip.date, "#100"),
        _ => panic!("expected a strip"),
    }
    assert_eq!(caches.get("phd:#100").unwrap().title, "The Science Gap");
}

#[test]
fn phd_latest_is_the_greatest_number_on_the_index_page() {
    let source = PhdSource::new();
    let mut caches = Caches::new(10, 60);
    let page = |html: String| {
        Reply::Page(Ok(Some(PageResponse { html, final_url: "http://x/".into() })))
    };
    let pending = match source.fetch_latest(&mut caches, "phd").unwrap() {
        Step::FetchPage(request, pending) => {
            assert_eq!(request.url, "https://phdcomics.com/comics/archive.php");
            pending
        }
        _ => panic!("expected a page request"),
    };
    match source.resume(&mut caches, pending, page(sample_html(2050))).unwrap() {
        Step::Done(Some(strip)) => {
            assert_eq!(strip.date, "#2051");
            assert_eq!(strip.prev_date, Some("#2049".to_string()));
            assert_eq!(strip.next_date, None);
        }
        _ => panic!("expected a strip"),
    }
    assert_eq!(caches.get("phd:latest").unwrap().date, "#2051");
    assert_eq!(caches.get("phd:#2051").unwrap().date, "#2051");
    match source.resume(&mut caches, Pending::PhdLatest, page("<html></html>".into())) {
        Err(PanelsError::ScrapeFailed(d)) => assert_eq!(d, "failed to find latest PhD comic ID"),
        _ => panic!("expected a scrape failure"),
    }
    match source.resume(&mut caches, Pending::PhdLatest, page("comicid=7".into())) {
        Err(PanelsError::ScrapeFailed(d)) => assert_eq!(d, "failed to parse latest PhD comic #7"),
        _ => panic!("expected a scrape failure"),
    }
}

#[test]
fn phd_random_draws_up_to_the_newest() {
    let source = PhdSource::new();
    let mut caches = Caches::new(10, 60);
    let page = |html: &str| {
        Reply::Page(Ok(Some(PageResponse { html: html.into(), final_url: "http://x/".into() })))
    };
    assert!(matches!(
        source.fetch_random(&mut caches, "phd").unwrap(),
        Step::FetchPage(_, Pending::PhdRandom)
    ));
    for _ in 0..200 {
        match source.resume(&mut caches, Pending::PhdRandom, page("comicid=5 comicid=3")).unwrap() {
            Step::FetchPage(_, Pending::PhdNumber { num }) => assert!(1 <= num && num <= 5),
            _ => panic!("expected a request for a comic"),
        }
    }
    assert!(matches!(
        source.resume(&mut caches, Pending::PhdRandom, page("comicid=0")),
        Ok(Step::Done(None))
    ));
    assert!(matches!(
        source.resume(&mut caches, Pending::PhdRandom, page("nothing")),
        Err(PanelsError::ScrapeFailed(_))
    ));
    match source.fetch_strip(&mut caches, "phd", "2024-01-15") {
        Err(PanelsError::InvalidParam(detail)) => assert_eq!(
            detail,
            "PhD Comics uses comic numbers (e.g. #100), not dates. Got: 2024-01-15"
        ),
        _ => panic!("expected an invalid parameter"),
    }
    assert_eq!(source.proxy_image("http://a/").referer, Some("https://phdcomics.com/"));
}
