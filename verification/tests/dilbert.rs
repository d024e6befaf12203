use panels::cache::Caches;
use panels::calendar::CalendarDate;
use panels::error::PanelsError;
use panels::http_client::PageResponse;
use panels::models::ComicStrip;
use panels::sources::dilbert::{
    cdx_url, date_after, date_before, dilbert_strip_url, normalize_url, parse_dilbert_page,
    parse_snapshot, wayback_url, DilbertCacheEntry, DilbertSource, SnapshotTable,
};
use panels::sources::{ComicSource, Pending, Reply, Step};

const SNAPSHOT: &str = r#"<html><body>
<span class="comic-title-name">  Budget Meeting </span>
<img src="https://other.example/logo.png">
<img class="img-responsive img-comic" src="//assets.amuniversal.com/abc123">
</body></html>"#;

fn page(html: &str) -> Reply {
    Reply::Page(Ok(Some(PageResponse { html: html.into(), final_url: "http://x/".into() })))
}

fn source() -> DilbertSource {
    DilbertSource::new(SnapshotTable::new())
}

#[test]
fn dilbert_addresses_are_built_from_their_parts() {
    assert_eq!(dilbert_strip_url("2020-01-15"), "https://dilbert.com/strip/2020-01-15");
    assert_eq!(
        cdx_url("https://dilbert.com/strip/2020-01-15"),
        "https://web.archive.org/cdx/search/cdx?url=https://dilbert.com/strip/2020-01-15&fl=timestamp&filter=statuscode:^2&limit=-1&to=20230312"
    );
    assert_eq!(
        wayback_url("20200116000000", "https://dilbert.com/strip/2020-01-15"),
        "https://web.archive.org/web/20200116000000/https://dilbert.com/strip/2020-01-15"
    );
}

#[test]
fn dilbert_image_addresses_get_their_scheme() {
    assert_eq!(normalize_url("//assets.amuniversal.com/x"), "https://assets.amuniversal.com/x");
    assert_eq!(normalize_url("https://a/b"), "https://a/b");
    assert_eq!(normalize_url("/relative"), "/relative");
    assert_eq!(normalize_url(""), "");
}

#[test]
fn dilbert_snapshot_gives_image_and_title() {
    let entry = parse_snapshot(SNAPSHOT).unwrap();
    assert_eq!(entry.image_url, "https://assets.amuniversal.com/abc123");
    assert_eq!(entry.title, "Budget Meeting");
}

#[test]
fn dilbert_snapshot_falls_back_to_any_image_on_the_assets_host() {
    let html = r#"<img src="http://x/logo.png"><img src="http://assets.amuniversal.com/k"><img src="//assets.amuniversal.com/later">"#;
    let entry = parse_snapshot(html).unwrap();
    assert_eq!(entry.image_url, "http://assets.amuniversal.com/k");
    assert_eq!(entry.title, "Dilbert");
    let unmarked = r#"<img class="img-comic"><img src="//assets.amuniversal.com/z"><span class="comic-title-name">   </span>"#;
    let entry = parse_snapshot(unmarked).unwrap();
    assert_eq!(entry.image_url, "https://assets.amuniversal.com/z");
    assert_eq!(entry.title, "Dilbert");
    assert!(parse_snapshot("<html><body><img src='http://x/y.png'></body></html>").is_none());
}

#[test]
fn dilbert_page_links_the_days_around_it() {
    let strip = parse_dilbert_page(SNAPSHOT, "2020-03-01").unwrap();
    assert_eq!(strip.endpoint, "dilbert");
    assert_eq!(strip.title, "Budget Meeting");
    assert_eq!(strip.date, "2020-03-01");
    assert_eq!(strip.source_url, "https://dilbert.com/strip/2020-03-01");
    assert_eq!(strip.prev_date, Some("2020-02-29".to_string()));
    assert_eq!(strip.next_date, Some("2020-03-02".to_string()));
    assert!(parse_dilbert_page(SNAPSHOT, "not a date").is_none());
    assert!(parse_dilbert_page("<html></html>", "2020-03-01").is_none());
}

#[test]
fn dilbert_neighbours_are_clipped_to_the_run() {
    let first = parse_dilbert_page(SNAPSHOT, "1989-04-16").unwrap();
    assert_eq!(first.prev_date, None);
    assert_eq!(first.next_date, Some("1989-04-17".to_string()));
    let last = parse_dilbert_page(SNAPSHOT, "2023-03-12").unwrap();
    assert_eq!(last.prev_date, Some("2023-03-11".to_string()));
    assert_eq!(last.next_date, None);
    let day = |year, month, day| CalendarDate { year, month, day };
    assert_eq!(date_before(&day(1989, 4, 17)), Some("1989-04-16".to_string()));
    assert_eq!(date_before(&day(1989, 4, 16)), None);
    assert_eq!(date_after(&day(1989, 4, 15)), Some("1989-04-16".to_string()));
    assert_eq!(date_after(&day(2023, 3, 12)), None);
    assert_eq!(date_before(&day(2023, 3, 13)), Some("2023-03-12".to_string()));
    assert_eq!(date_before(&day(2030, 1, 1)), None);
    assert_eq!(date_after(&day(1900, 1, 1)), None);
    assert_eq!(date_before(&day(i32::MIN, 1, 1)), None);
    assert_eq!(date_after(&day(i32::MAX, 12, 31)), None);
}

#[test]
fn dilbert_dates_outside_the_run_never_reach_the_network() {
    let mut caches = Caches::new(10, 60);
    for date in ["1989-04-15", "2023-03-13", "1970-01-01", "2999-12-31", "0001-01-01"] {
        assert!(
            matches!(source().fetch_strip(&mut caches, "dilbert", date), Ok(Step::Done(None))),
            "{date}"
        );
    }
}

#[test]
fn dilbert_refuses_an_identifier_that_is_no_date() {
    let mut caches = Caches::new(10, 60);
    for date in ["latest-ish", "2020-13-01", "2021-02-29", ""] {
        match source().fetch_strip(&mut caches, "dilbert", date) {
            Err(PanelsError::InvalidDate(detail)) => {
                assert_eq!(detail, format!("invalid date: {date}"))
            }
            _ => panic!("expected an invalid date for {date:?}"),
        }
    }
}

#[test]
fn dilbert_resolves_a_date_in_two_hops() {
    let source = source();
    let mut caches = Caches::new(10, 60);
    let pending = match source.fetch_strip(&mut caches, "dilbert", "2020-01-15").unwrap() {
        Step::FetchPage(request, pending) => {
            assert_eq!(request.url, cdx_url("https://dilbert.com/strip/2020-01-15"));
            assert_eq!(request.retries, 1);
            assert_eq!(request.timeout_ms, 15000);
            pending
        }
        _ => panic!("expected the index query"),
    };
    let pending = match source.resume(&mut caches, pending, page(" 20200116083000\n")).unwrap() {
        Step::FetchPage(request, pending) => {
            assert_eq!(
                request.url,
                "https://web.archive.org/web/20200116083000/https://dilbert.com/strip/2020-01-15"
            );
            pending
        }
        _ => panic!("expected the snapshot request"),
    };
    match source.resume(&mut caches, pending, page(SNAPSHOT)).unwrap() {
        Step::Done(Some(strip)) => {
            assert_eq!(strip.date, "2020-01-15");
            assert_eq!(strip.image_url, "https://assets.amuniversal.com/abc123");
        }
        _ => panic!("expected a strip"),
    }
    assert_eq!(caches.get("dilbert:2020-01-15").unwrap().title, "Budget Meeting");
    assert!(matches!(
        source.fetch_strip(&mut caches, "dilbert", "2020-01-15").unwrap(),
        Step::Done(Some(_))
    ));
}

#[test]
fn dilbert_index_without_a_timestamp_is_a_miss() {
    let source = source();
    let mut caches = Caches::new(10, 60);
    for body in ["", "  \n", "not found", "2020 0116", "20200116x"] {
        let pending = Pending::ArchiveIndex { date: "2020-01-15".into() };
        assert!(
            matches!(source.resume(&mut caches, pending, page(body)), Ok(Step::Done(None))),
            "{body:?}"
        );
    }
    let pending = Pending::ArchiveIndex { date: "2020-01-15".into() };
    assert!(matches!(
        source.resume(&mut caches, pending, Reply::Page(Ok(None))),
        Ok(Step::Done(None))
    ));
    let pending = Pending::ArchivePage { date: "2020-01-15".into() };
    assert!(matches!(
        source.resume(&mut caches, pending, page("<html></html>")),
        Ok(Step::Done(None))
    ));
    assert!(caches.get("dilbert:2020-01-15").is_none());
}

#[test]
fn dilbert_cached_strip_is_served_without_a_look_at_the_date() {
    let mut caches = Caches::new(10, 60);
    let strip = ComicStrip {
        endpoint: "dilbert".into(),
        title: "t".into(),
        date: "whenever".into(),
        image_url: "i".into(),
        source_url: "s".into(),
        prev_date: None,
        next_date: None,
    };
    caches.put("dilbert:whenever".into(), strip);
    assert!(matches!(
        source().fetch_strip(&mut caches, "dilbert", "whenever"),
        Ok(Step::Done(Some(_)))
    ));
}

#[test]
fn dilbert_answers_from_the_snapshot_table() {
    let mut table = SnapshotTable::new();
    table.insert(
        "2001-09-09".into(),
        DilbertCacheEntry { image_url: "https://a/b.gif".into(), title: "Tabled".into() },
    );
    let source = DilbertSource::new(table);
    let mut caches = Caches::new(10, 60);
    match source.fetch_strip(&mut caches, "dilbert", "2001-09-09").unwrap() {
        Step::Done(Some(strip)) => {
            assert_eq!(strip.title, "Tabled");
            assert_eq!(strip.image_url, "https://a/b.gif");
            assert_eq!(strip.prev_date, Some("2001-09-08".to_string()));
            assert_eq!(strip.next_date, Some("2001-09-10".to_string()));
        }
        _ => panic!("expected the strip of the table"),
    }
    assert!(matches!(
        source.fetch_strip(&mut caches, "dilbert", "2001-09-10").unwrap(),
        Step::FetchPage(_, Pending::ArchiveIndex { .. })
    ));
}

#[test]
fn dilbert_latest_is_the_last_strip_and_random_lies_in_the_run() {
    let source = source();
    let mut caches = Caches::new(10, 60);
    match source.fetch_latest(&mut caches, "dilbert").unwrap() {
        Step::FetchPage(_, Pending::ArchiveIndex { date }) => assert_eq!(date, "2023-03-12"),
        _ => panic!("expected the index query"),
    }
    for _ in 0..100 {
        match source.fetch_random(&mut caches, "dilbert").unwrap() {
            Step::FetchPage(_, Pending::ArchiveIndex { date }) => {
                assert!("1989-04-16" <= date.as_str() && date.as_str() <= "2023-03-12")
            }
            _ => panic!("expected the index query"),
        }
    }
    assert!(source.handles("dilbert"));
    assert!(!source.handles("garfield"));
    assert_eq!(source.proxy_image("http://a/").fallback_content_type, "image/gif");
}

#[test]
fn dilbert_resolves_past_the_cache() {
    let source = source();
    assert!(matches!(source.resolve("1980-01-01"), Ok(Step::Done(None))));
    assert!(matches!(source.resolve("soon"), Err(PanelsError::InvalidDate(_))));
    assert!(matches!(
        source.resolve("2000-02-29"),
        Ok(Step::FetchPage(_, Pending::ArchiveIndex { .. }))
    ));
}
