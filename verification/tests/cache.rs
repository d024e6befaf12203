use panels::cache::{strip_key, Caches};
use panels::models::ComicStrip;

fn garfield(date: &str, title: &str) -> ComicStrip {
    ComicStrip {
        endpoint: "garfield".into(),
        title: title.into(),
        date: date.into(),
        image_url: "https://example.com/img.gif".into(),
        source_url: "https://www.gocomics.com/garfield".into(),
        prev_date: Some("2024-01-14".into()),
        next_date: Some("2024-01-16".into()),
    }
}

#[test]
fn strip_cache_insert_and_get() {
    let mut caches = Caches::new(100, 60);
    let strip = garfield("2024-01-15", "Garfield");
    caches.put("garfield:2024-01-15".into(), strip.clone());
    let cached = caches.get("garfield:2024-01-15");
    assert!(cached.is_some());
    assert_eq!(cached.unwrap().date, "2024-01-15");
}

#[test]
fn cache_get_after_put_returns_the_last_value() {
    let mut caches = Caches::new(100, 60);
    caches.put("garfield:2024-01-15".into(), garfield("2024-01-15", "first"));
    caches.put("garfield:2024-01-15".into(), garfield("2024-01-15", "second"));
    let cached = caches.get("garfield:2024-01-15").unwrap();
    assert_eq!(cached.title, "second");
    assert_eq!(cached.prev_date, Some("2024-01-14".to_string()));
}

#[test]
fn cache_misses_a_key_that_was_never_stored() {
    let mut caches = Caches::new(100, 60);
    caches.put("garfield:2024-01-15".into(), garfield("2024-01-15", "Garfield"));
    assert!(caches.get("garfield:2024-01-16").is_none());
    assert!(caches.get("peanuts:2024-01-15").is_none());
}

#[test]
fn cache_with_no_time_to_live_left_forgets_at_once() {
    let mut caches = Caches::new(100, 0);
    caches.put("garfield:2024-01-15".into(), garfield("2024-01-15", "Garfield"));
    assert!(caches.get("garfield:2024-01-15").is_none());
}

#[test]
fn cache_keys_are_namespaced_by_endpoint() {
    assert_eq!(strip_key("garfield", "2024-01-15"), "garfield:2024-01-15");
    assert_eq!(strip_key("xkcd", "#123"), "xkcd:#123");
    assert_ne!(strip_key("a", "b:c"), strip_key("a:b", "d"));
}
