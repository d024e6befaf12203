use std::collections::HashMap;

use chrono::{Datelike, NaiveDate};
use panels::calendar::CalendarDate;
use panels::models::Comic;
use panels::pattern::{escape, is_meta};
use panels::recommend::get_recommendations;
use panels::routes::{list_comics, ComicsQuery, RecommendationsQuery};
use panels::text::{
    contains, decimal_text, is_space, padded_text, replace_char, split_char, starts_with,
    text_after_last, text_before, trim, words,
};
use panels::TagTable;

const SAMPLES: &[&str] = &[
    "",
    " ",
    "a",
    "a,b",
    ",a,,b,",
    "  lead and trail  ",
    "tab\tseparated\twords",
    "line one\nline two\r\nline three",
    "\u{a0}no-break\u{2003}em space\u{3000}",
    "Blondie by Dean Young for Thu",
    "by by by",
    "https://featureassets.gocomics.com/img.gif?w=800&h=2?x",
    "dilbert.com/strip/2020-01-15",
    "//assets.amuniversal.com/abc",
    "naïve café ☕ 漫画",
    "----------",
];

#[test]
fn text_helpers_agree_with_the_standard_library() {
    for s in SAMPLES {
        assert_eq!(trim(s), s.trim(), "trim {s:?}");
        assert_eq!(
            words(s),
            s.split_whitespace().collect::<Vec<_>>(),
            "words {s:?}"
        );
        for sep in [',', '\n', '/', '-', ' '] {
            assert_eq!(
                split_char(s, sep),
                s.split(sep).collect::<Vec<_>>(),
                "split {s:?} {sep:?}"
            );
            assert_eq!(
                text_after_last(s, sep),
                s.rsplit(sep).next().unwrap_or(""),
                "after last {s:?} {sep:?}"
            );
            assert_eq!(replace_char(s, sep, '_'), s.replace(sep, "_"), "replace {s:?}");
        }
        for needle in ["", " by ", "?", "//", "a", "gocomics", "漫", "--"] {
            assert_eq!(contains(s, needle), s.contains(needle), "contains {s:?} {needle:?}");
            assert_eq!(
                starts_with(s, needle),
                s.starts_with(needle),
                "starts_with {s:?} {needle:?}"
            );
            assert_eq!(
                text_before(s, needle),
                s.split(needle).next().unwrap_or(s),
                "before {s:?} {needle:?}"
            );
        }
    }
}

#[test]
fn numbers_are_written_like_the_standard_formatter() {
    for n in [0u64, 1, 9, 10, 11, 99, 100, 404, 2023, 65535, 4294967295, u64::MAX] {
        assert_eq!(decimal_text(n), n.to_string());
        assert_eq!(padded_text(n, 2), format!("{n:02}"));
        assert_eq!(padded_text(n, 4), format!("{n:04}"));
    }
}

#[test]
fn days_agree_with_the_calendar_library() {
    let mut day = NaiveDate::from_ymd_opt(1895, 12, 25).unwrap();
    let end = NaiveDate::from_ymd_opt(2105, 1, 10).unwrap();
    while day < end {
        let own = CalendarDate { year: day.year(), month: day.month(), day: day.day() };
        let next = day.succ_opt().unwrap();
        let previous = day.pred_opt().unwrap();
        assert_eq!(
            own.succ(),
            CalendarDate { year: next.year(), month: next.month(), day: next.day() }
        );
        assert_eq!(
            own.pred(),
            CalendarDate { year: previous.year(), month: previous.month(), day: previous.day() }
        );
        assert_eq!(own.iso_text(), day.format("%Y-%m-%d").to_string());
        day = next;
    }
}

#[test]
fn white_space_is_what_the_standard_library_says() {
    let mut count = 0;
    for code in 0..=0x10FFFFu32 {
        if let Some(c) = char::from_u32(code) {
            assert_eq!(is_space(c), c.is_whitespace(), "U+{code:04X}");
            if is_space(c) {
                count += 1;
                assert_eq!(trim(&format!("{c}a{c}")), "a");
                assert_eq!(words(&format!("a{c}b")), vec!["a", "b"]);
            }
        }
    }
    assert_eq!(count, 25);
}

#[test]
fn escaping_is_what_the_pattern_library_does() {
    for code in 0..=0x10FFFFu32 {
        if let Some(c) = char::from_u32(code) {
            assert_eq!(is_meta(c), regex_syntax_is_meta(c), "U+{code:04X}");
        }
    }
    for text in SAMPLES {
        assert_eq!(escape(text), regex::escape(text), "{text:?}");
    }
    let all = "\\.+*?()|[]{}^$#&-~ a/b%!\"e";
    assert_eq!(escape(all), regex::escape(all));
    assert_eq!(escape("a.b-c"), "a\\.b\\-c");
    assert_eq!(escape(""), "");
}

fn regex_syntax_is_meta(c: char) -> bool {
    regex::escape(&c.to_string()).chars().count() == 2
}

#[test]
fn days_at_the_ends_of_the_calendar_library_agree() {
    let first = NaiveDate::MIN;
    let last = NaiveDate::MAX;
    let own = |d: NaiveDate| CalendarDate { year: d.year(), month: d.month(), day: d.day() };
    assert_eq!(own(first).iso_text(), first.format("%Y-%m-%d").to_string());
    assert_eq!(own(last).iso_text(), last.format("%Y-%m-%d").to_string());
    assert_eq!(own(first).succ(), own(first.succ_opt().unwrap()));
    assert_eq!(own(last).pred(), own(last.pred_opt().unwrap()));
    assert_eq!(own(last).minus_days(1824), own(last - chrono::Duration::days(1824)));
    assert_eq!(own(first).plus_days(1824), own(first + chrono::Duration::days(1824)));
    // Past its ends the calendar library has no day; the library's own days
    // go on, and are never handed to it.
    assert!(first.pred_opt().is_none());
    assert!(last.succ_opt().is_none());
    assert_eq!(own(first).pred(), CalendarDate { year: first.year() - 1, month: 12, day: 31 });
    assert_eq!(own(last).succ(), CalendarDate { year: last.year() + 1, month: 1, day: 1 });
}

#[test]
fn far_days_are_written_like_the_calendar_library() {
    for year in [-262143, -10000, -9999, -1000, -5, -1, 0, 1, 999, 1000, 9999, 10000, 262142] {
        for (month, day) in [(1, 1), (2, 28), (7, 4), (12, 31)] {
            let theirs = NaiveDate::from_ymd_opt(year, month, day).unwrap();
            let own = CalendarDate { year, month, day };
            assert_eq!(own.iso_text(), theirs.format("%Y-%m-%d").to_string());
        }
    }
}

#[test]
fn steps_back_agree_with_the_calendar_library() {
    let starts = [
        NaiveDate::from_ymd_opt(2026, 10, 28).unwrap(),
        NaiveDate::from_ymd_opt(2024, 2, 29).unwrap(),
        NaiveDate::from_ymd_opt(2000, 1, 1).unwrap(),
        NaiveDate::from_ymd_opt(1970, 1, 1).unwrap(),
        NaiveDate::from_ymd_opt(3, 6, 15).unwrap(),
    ];
    for start in starts {
        let own = CalendarDate { year: start.year(), month: start.month(), day: start.day() };
        for back in [0u32, 1, 28, 59, 365, 366, 1000, 1460, 1461, 1824] {
            let theirs = start - chrono::Duration::days(back as i64);
            assert_eq!(
                own.minus_days(back).iso_text(),
                theirs.format("%Y-%m-%d").to_string(),
                "{start} - {back}"
            );
        }
    }
}

fn comic(endpoint: &str, title: &str, author: Option<&str>, source: &str, available: bool) -> Comic {
    Comic {
        endpoint: endpoint.into(),
        title: title.into(),
        author: author.map(str::to_string),
        available,
        start_date: None,
        source: source.into(),
    }
}

fn directory() -> Vec<Comic> {
    vec![
        comic("garfield", "Garfield", Some("Jim Davis"), "gocomics", true),
        comic("peanuts", "Peanuts", Some("Charles Schulz"), "gocomics", true),
        comic("usacres", "U.S. Acres", Some("Jim Davis"), "other", true),
        comic("xkcd", "xkcd", None, "xkcd", true),
        comic("garfieldespanol", "Garfield en Español", Some("Jim Davis"), "gocomics", true),
        comic("ghost", "Ghost", Some("Jim Davis"), "gocomics", false),
        comic("untagged", "Untagged", None, "feed", true),
        comic("phd", "PHD Comics", Some("Jorge Cham"), "phd", true),
        comic("dilbert", "Dilbert", Some("Scott Adams"), "dilbert", true),
        comic("garfield", "Garfield Twin", Some("Someone Else"), "feed", true),
        comic("calvin", "Calvin and Hobbes", Some("Bill Watterson"), "gocomics", true),
    ]
}

fn tag_map() -> HashMap<String, Vec<String>> {
    let mut map = HashMap::new();
    let mut set = |endpoint: &str, tags: &[&str]| {
        map.insert(endpoint.to_string(), tags.iter().map(|t| t.to_string()).collect());
    };
    set("garfield", &["humor", "cats", "classic", "humor"]);
    set("peanuts", &["humor", "classic", "kids"]);
    set("usacres", &["Humor", "animals"]);
    set("xkcd", &["humor", "science", "webcomic"]);
    set("garfieldespanol", &["humor", "cats", "en-espanol"]);
    set("ghost", &["humor"]);
    set("phd", &["science", "webcomic", "office"]);
    set("dilbert", &["office", "humor", "classic"]);
    set("calvin", &["kids", "classic", "humor"]);
    map
}

fn tag_table() -> TagTable {
    let mut table = TagTable::new();
    for (endpoint, tags) in tag_map() {
        table.insert(endpoint, tags);
    }
    table
}

/// The listing as a filter over the directory, written with the standard
/// library.
fn listing_oracle(search: Option<&str>, tag: Option<&str>) -> Vec<(String, Vec<String>)> {
    let tags = tag_map();
    let mut results: Vec<(Comic, Vec<String>)> = directory()
        .into_iter()
        .map(|c| {
            let own = tags.get(&c.endpoint).cloned().unwrap_or_default();
            (c, own)
        })
        .collect();
    if let Some(search) = search {
        let search_lower = search.to_lowercase();
        results.retain(|(c, _)| {
            c.title.to_lowercase().contains(&search_lower)
                || c.endpoint.to_lowercase().contains(&search_lower)
        });
    }
    if let Some(tag) = tag {
        let tag_lower = tag.to_lowercase();
        results.retain(|(_, own)| own.iter().any(|t| t.to_lowercase() == tag_lower));
    }
    results.into_iter().map(|(c, own)| (c.title, own)).collect()
}

/// The recommendations with scores in floating point, written with the
/// standard library.
fn recommendation_oracle(selected: Option<&str>, limit: Option<usize>) -> Vec<String> {
    let comics = directory();
    let tags = tag_map();
    let limit = limit.unwrap_or(10);
    let selected_endpoints: Vec<&str> = selected
        .unwrap_or("")
        .split(',')
        .map(|s| s.trim())
        .filter(|s| !s.is_empty())
        .collect();
    if selected_endpoints.is_empty() {
        return vec![];
    }
    let mut selected_tags: HashMap<&str, usize> = HashMap::new();
    let mut selected_authors: Vec<&str> = Vec::new();
    let mut selected_sources: Vec<&str> = Vec::new();
    for endpoint in &selected_endpoints {
        if let Some(own) = tags.get(*endpoint) {
            for tag in own {
                *selected_tags.entry(tag.as_str()).or_insert(0) += 1;
            }
        }
        if let Some(c) = comics.iter().find(|c| c.endpoint == *endpoint) {
            if let Some(ref author) = c.author {
                selected_authors.push(author.as_str());
            }
            selected_sources.push(c.source.as_str());
        }
    }
    let has_espanol = selected_tags.contains_key("en-espanol");
    let mut scored: Vec<(f64, String)> = comics
        .iter()
        .filter(|c| c.available && !selected_endpoints.contains(&c.endpoint.as_str()))
        .filter_map(|c| {
            let own = tags.get(&c.endpoint).cloned().unwrap_or_default();
            if !has_espanol && own.iter().any(|t| t == "en-espanol") {
                return None;
            }
            let mut score: f64 = 0.0;
            for tag in &own {
                if let Some(&count) = selected_tags.get(tag.as_str()) {
                    score += count as f64;
                }
            }
            if let Some(ref author) = c.author {
                if selected_authors.contains(&author.as_str()) {
                    score += 2.0;
                }
            }
            if selected_sources.contains(&c.source.as_str()) {
                score += 0.5;
            }
            if score > 0.0 {
                Some((score, c.title.clone()))
            } else {
                None
            }
        })
        .collect();
    scored.sort_by(|a, b| b.0.partial_cmp(&a.0).unwrap_or(std::cmp::Ordering::Equal));
    scored.truncate(limit);
    scored.into_iter().map(|(_, title)| title).collect()
}

#[test]
fn listing_agrees_with_a_filter_over_the_directory() {
    let searches = [None, Some(""), Some("gar"), Some("GARF"), Some("comics"), Some("ñ"), Some("zzz")];
    let tags = [None, Some("humor"), Some("HUMOR"), Some("classic"), Some("en-espanol"), Some("x")];
    for search in searches {
        for tag in tags {
            let query = ComicsQuery {
                search: search.map(str::to_string),
                tag: tag.map(str::to_string),
            };
            let listed: Vec<(String, Vec<String>)> =
                list_comics(&directory(), &tag_table(), &query)
                    .into_iter()
                    .map(|c| (c.comic.title, c.tags))
                    .collect();
            assert_eq!(listed, listing_oracle(search, tag), "{search:?} {tag:?}");
        }
    }
}

#[test]
fn recommendations_agree_with_scores_in_floating_point() {
    let selections = [
        None,
        Some(""),
        Some("garfield"),
        Some("garfield,peanuts"),
        Some(" xkcd , phd "),
        Some("garfieldespanol"),
        Some("garfield,garfield,garfield"),
        Some("dilbert,calvin,untagged,nobody"),
        Some("ghost"),
        Some("usacres"),
        Some("untagged"),
        Some(",,"),
    ];
    for selected in selections {
        for limit in [None, Some(0), Some(1), Some(3), Some(100)] {
            let query = RecommendationsQuery { selected: selected.map(str::to_string), limit };
            let got: Vec<String> = get_recommendations(&directory(), &tag_table(), &query)
                .into_iter()
                .map(|c| c.comic.title)
                .collect();
            assert_eq!(got, recommendation_oracle(selected, limit), "{selected:?} {limit:?}");
        }
    }
}
