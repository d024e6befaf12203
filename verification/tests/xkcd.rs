use panels::cache::Caches;
use panels::error::PanelsError;
use panels::sources::numbered::{number_of, tag_of};
use panels::sources::xkcd::{
    number_for_draw, random_number, read_reply, reply_from, XkcdComic, XkcdReply, XkcdSource,
};
use panels::sources::{ComicSource, Pending, Reply, Step};

fn comic(num: u32) -> XkcdComic {
    XkcdComic {
        num,
        title: "Title".into(),
        img: "https://imgs.xkcd.com/comics/x.png".into(),
    }
}

#[test]
fn xkcd_comic_becomes_a_strip_with_numbered_neighbours() {
    let strip = comic(123).to_strip();
    assert_eq!(strip.endpoint, "xkcd");
    assert_eq!(strip.title, "Title");
    assert_eq!(strip.date, "#123");
    assert_eq!(strip.image_url, "https://imgs.xkcd.com/comics/x.png");
    assert_eq!(strip.source_url, "https://xkcd.com/123/");
    assert_eq!(strip.prev_date, Some("#122".to_string()));
    assert_eq!(strip.next_date, Some("#124".to_string()));
}

#[test]
fn xkcd_first_comic_has_no_predecessor() {
    assert_eq!(comic(1).to_strip().prev_date, None);
    assert_eq!(comic(1).to_strip().next_date, Some("#2".to_string()));
    assert_eq!(comic(2).to_strip().prev_date, Some("#1".to_string()));
    assert_eq!(comic(0).to_strip().prev_date, None);
    assert_eq!(
        comic(u32::MAX).to_strip().next_date,
        Some("#4294967296".to_string())
    );
}

#[test]
fn numbered_identifiers_are_read_with_or_without_hash() {
    assert_eq!(number_of("#123"), Some(123));
    assert_eq!(number_of("123"), Some(123));
    assert_eq!(number_of("#+7"), Some(7));
    assert_eq!(number_of("##1"), None);
    assert_eq!(number_of("#"), None);
    assert_eq!(number_of(""), None);
    assert_eq!(number_of("2024-01-15"), None);
    assert_eq!(number_of("#4294967296"), None);
    assert_eq!(tag_of(0), "#0");
    assert_eq!(tag_of(2051), "#2051");
    for n in [0u32, 1, 9, 10, 404, 65535, u32::MAX] {
        assert_eq!(number_of(&tag_of(n as u64)), Some(n));
    }
}

#[test]
fn xkcd_random_number_is_in_range_and_never_the_missing_one() {
    for max in [1u32, 2, 403, 404, 405, 406, 3000] {
        for _ in 0..2000 {
            let n = random_number(max).unwrap();
            assert!(1 <= n && n <= max, "{n} of {max}");
            assert_ne!(n, 404);
        }
    }
    assert_eq!(random_number(0), None);
}

#[test]
fn xkcd_draws_skip_the_missing_number() {
    assert_eq!(number_for_draw(1, 3000), 1);
    assert_eq!(number_for_draw(403, 3000), 403);
    assert_eq!(number_for_draw(404, 3000), 405);
    assert_eq!(number_for_draw(2999, 3000), 3000);
    assert_eq!(number_for_draw(403, 404), 403);
    assert_eq!(number_for_draw(403, 403), 403);
    assert_eq!(number_for_draw(17, 20), 17);
}

#[test]
fn xkcd_upstream_failure_is_a_miss() {
    assert!(read_reply(XkcdReply::Missed).unwrap().is_none());
    assert!(matches!(reply_from(Ok(None)), XkcdReply::Missed));
    assert_eq!(read_reply(XkcdReply::Decoded(comic(5))).unwrap().unwrap().num, 5);
    assert!(matches!(reply_from(Ok(Some(Ok(comic(5))))), XkcdReply::Decoded(_)));
}

#[test]
fn xkcd_document_that_cannot_be_used_is_an_error() {
    match read_reply(reply_from(Ok(Some(Err("missing field".into()))))) {
        Err(PanelsError::ScrapeFailed(d)) => {
            assert_eq!(d, "failed to parse xkcd JSON: missing field")
        }
        _ => panic!("expected a scrape failure"),
    }
    match read_reply(reply_from(Err(PanelsError::ScrapeFailed("body".into())))) {
        Err(PanelsError::ScrapeFailed(d)) => assert_eq!(d, "body"),
        _ => panic!("expected the fetch client's error"),
    }
}

#[test]
fn xkcd_fetches_by_number_and_caches_under_the_number_asked_for() {
    let source = XkcdSource::new();
    let mut caches = Caches::new(10, 60);
    let step = source.fetch_strip(&mut caches, "xkcd", "#123").unwrap();
    let pending = match step {
        Step::FetchJson(request, pending) => {
            assert_eq!(request.url, "https://xkcd.com/123/info.0.json");
            assert_eq!(request.retries, 2);
            assert_eq!(request.timeout_ms, 15000);
            pending
        }
        _ => panic!("expected a JSON request"),
    };
    let reply = Reply::Json(XkcdReply::Decoded(comic(123)));
    match source.resume(&mut caches, pending, reply).unwrap() {
        Step::Done(Some(strip)) => assert_eq!(strip.date, "#123"),
        _ => panic!("expected a strip"),
    }
    assert_eq!(caches.get("xkcd:#123").unwrap().date, "#123");
    assert!(matches!(
        source.fetch_strip(&mut caches, "xkcd", "123").unwrap(),
        Step::Done(Some(_))
    ));
}

#[test]
fn xkcd_refuses_an_identifier_that_is_no_number() {
    let mut caches = Caches::new(10, 60);
    match XkcdSource::new().fetch_strip(&mut caches, "xkcd", "2024-01-15") {
        Err(PanelsError::InvalidParam(detail)) => assert_eq!(
            detail,
            "xkcd uses comic numbers (e.g. #123), not dates. Got: 2024-01-15"
        ),
        _ => panic!("expected an invalid parameter"),
    }
}

#[test]
fn xkcd_latest_is_cached_twice() {
    let source = XkcdSource::new();
    let mut caches = Caches::new(10, 60);
    let pending = match source.fetch_latest(&mut caches, "xkcd").unwrap() {
        Step::FetchJson(request, pending) => {
            assert_eq!(request.url, "https://xkcd.com/info.0.json");
            pending
        }
        _ => panic!("expected a JSON request"),
    };
    let reply = Reply::Json(XkcdReply::Decoded(comic(3000)));
    assert!(matches!(
        source.resume(&mut caches, pending, reply).unwrap(),
        Step::Done(Some(_))
    ));
    assert_eq!(caches.get("xkcd:latest").unwrap().date, "#3000");
    assert_eq!(caches.get("xkcd:#3000").unwrap().date, "#3000");
    assert!(matches!(
        source.fetch_latest(&mut caches, "xkcd").unwrap(),
        Step::Done(Some(_))
    ));
}

#[test]
fn xkcd_random_goes_on_with_a_comic_in_range() {
    let source = XkcdSource::new();
    let mut caches = Caches::new(10, 60);
    for _ in 0..200 {
        let pending = match source.fetch_random(&mut caches, "xkcd").unwrap() {
            Step::FetchJson(request, pending) => {
                assert_eq!(request.url, "https://xkcd.com/info.0.json");
                pending
            }
            _ => panic!("expected a JSON request"),
        };
        let reply = Reply::Json(XkcdReply::Decoded(comic(406)));
        match source.resume(&mut caches, pending, reply).unwrap() {
            Step::FetchJson(_, Pending::XkcdNumber { num }) => {
                assert!(1 <= num && num <= 406);
                assert_ne!(num, 404);
            }
            _ => panic!("expected a request for a comic"),
        }
    }
    let reply = Reply::Json(XkcdReply::Missed);
    assert!(matches!(
        source.resume(&mut caches, Pending::XkcdRandom, reply).unwrap(),
        Step::Done(None)
    ));
}

#[test]
fn xkcd_handles_its_endpoint_and_asks_for_images_without_referer() {
    let source = XkcdSource::new();
    assert!(source.handles("xkcd"));
    assert!(!source.handles("xkcd2"));
    let request = source.proxy_image("https://imgs.xkcd.com/a.png");
    assert_eq!(request.url, "https://imgs.xkcd.com/a.png");
    assert_eq!(request.referer, None);
    assert_eq!(request.fallback_content_type, "image/png");
    assert!(request.user_agent.contains("Mozilla"));
}
