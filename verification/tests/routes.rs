use panels::error::PanelsError;
use panels::models::ComicStrip;
use panels::routes::{cache_control, select, strip_or_not_found, unknown_comic, Selection};

#[test]
fn random_image_endpoint_disables_caching() {
    assert_eq!(cache_control("random"), "no-store");
}

#[test]
fn deterministic_image_endpoint_keeps_long_cache() {
    assert_eq!(
        cache_control("2025-01-01"),
        "public, max-age=86400, s-maxage=604800"
    );
    assert_eq!(
        cache_control("latest"),
        "public, max-age=86400, s-maxage=604800"
    );
}

#[test]
fn identifiers_select_the_operation() {
    assert!(matches!(select("latest"), Selection::Latest));
    assert!(matches!(select("random"), Selection::Random));
    match select("2025-01-01") {
        Selection::Identifier(id) => assert_eq!(id, "2025-01-01"),
        _ => panic!("expected an identifier"),
    }
    assert!(matches!(select("Latest"), Selection::Identifier(_)));
    assert!(matches!(select(""), Selection::Identifier(_)));
}

#[test]
fn a_miss_is_reported_as_not_found() {
    match strip_or_not_found(None, "garfield", "2025-01-01") {
        Err(PanelsError::NotFound(detail)) => {
            assert_eq!(detail, "no strip found for garfield/2025-01-01")
        }
        _ => panic!("expected not found"),
    }
    match unknown_comic("nope") {
        PanelsError::NotFound(detail) => assert_eq!(detail, "unknown comic: nope"),
        _ => panic!("expected not found"),
    }
    let strip = ComicStrip {
        endpoint: "e".into(),
        title: "t".into(),
        date: "d".into(),
        image_url: "i".into(),
        source_url: "s".into(),
        prev_date: None,
        next_date: None,
    };
    assert_eq!(strip_or_not_found(Some(strip), "e", "d").unwrap().title, "t");
}
