use panels::models::Comic;
use panels::recommend::{get_recommendations, selected_endpoints, weight_of};
use panels::routes::{list_comics, ComicsQuery, RecommendationsQuery};
use panels::text::{split_char, words};
use panels::TagTable;

fn comic(endpoint: &str, title: &str, author: Option<&str>, source: &str) -> Comic {
    Comic {
        endpoint: endpoint.into(),
        title: title.into(),
        author: author.map(str::to_string),
        available: true,
        start_date: None,
        source: source.into(),
    }
}

fn directory() -> Vec<Comic> {
    let mut hidden = comic("ghost", "Ghost", Some("Jim Davis"), "gocomics");
    hidden.available = false;
    vec![
        comic("garfield", "Garfield", Some("Jim Davis"), "gocomics"),
        comic("peanuts", "Peanuts", Some("Charles Schulz"), "gocomics"),
        comic("usacres", "U.S. Acres", Some("Jim Davis"), "other"),
        comic("xkcd", "xkcd", None, "xkcd"),
        comic("garfieldespanol", "Garfield en Español", Some("Jim Davis"), "gocomics"),
        hidden,
        comic("untagged", "Untagged", None, "feed"),
    ]
}

fn tags() -> TagTable {
    let mut table = TagTable::new();
    let mut set = |endpoint: &str, tags: &[&str]| {
        table.insert(endpoint.into(), tags.iter().map(|t| t.to_string()).collect())
    };
    set("garfield", &["humor", "cats", "classic"]);
    set("peanuts", &["humor", "classic", "kids"]);
    set("usacres", &["Humor", "animals"]);
    set("xkcd", &["humor", "science"]);
    set("garfieldespanol", &["humor", "cats", "en-espanol"]);
    set("ghost", &["humor"]);
    table
}

fn listed(search: Option<&str>, tag: Option<&str>) -> Vec<String> {
    let query = ComicsQuery { search: search.map(str::to_string), tag: tag.map(str::to_string) };
    list_comics(&directory(), &tags(), &query).into_iter().map(|c| c.comic.endpoint).collect()
}

fn recommended(selected: Option<&str>, limit: Option<usize>) -> Vec<String> {
    let query = RecommendationsQuery { selected: selected.map(str::to_string), limit };
    get_recommendations(&directory(), &tags(), &query)
        .into_iter()
        .map(|c| c.comic.endpoint)
        .collect()
}

#[test]
fn listing_without_a_query_is_the_directory_with_tags() {
    let all = list_comics(&directory(), &tags(), &ComicsQuery { search: None, tag: None });
    assert_eq!(all.len(), 7);
    assert_eq!(all[0].comic.endpoint, "garfield");
    assert_eq!(all[0].comic.author, Some("Jim Davis".to_string()));
    assert_eq!(all[0].tags, vec!["humor", "cats", "classic"]);
    assert_eq!(all[6].comic.endpoint, "untagged");
    assert!(all[6].tags.is_empty());
}

#[test]
fn listing_searches_titles_and_endpoints_without_case() {
    assert_eq!(listed(Some("GARF"), None), vec!["garfield", "garfieldespanol"]);
    assert_eq!(listed(Some("u.s."), None), vec!["usacres"]);
    assert_eq!(listed(Some("acres"), None), vec!["usacres"]);
    assert_eq!(listed(Some("ESPAÑOL"), None), vec!["garfieldespanol"]);
    assert!(listed(Some("nothing"), None).is_empty());
    assert_eq!(listed(Some(""), None).len(), 7);
}

#[test]
fn listing_filters_by_tag_without_case() {
    assert_eq!(
        listed(None, Some("HUMOR")),
        vec!["garfield", "peanuts", "usacres", "xkcd", "garfieldespanol", "ghost"]
    );
    assert_eq!(listed(None, Some("cats")), vec!["garfield", "garfieldespanol"]);
    assert_eq!(listed(Some("garfield"), Some("en-espanol")), vec!["garfieldespanol"]);
    assert!(listed(None, Some("cat")).is_empty());
}

#[test]
fn selection_is_split_trimmed_and_filtered() {
    let pick = |list: Option<&str>| {
        selected_endpoints(&RecommendationsQuery {
            selected: list.map(str::to_string),
            limit: None,
        })
    };
    assert_eq!(pick(Some(" garfield , ,peanuts,,")), vec!["garfield", "peanuts"]);
    assert_eq!(pick(Some("a,a")), vec!["a", "a"]);
    assert!(pick(Some("")).is_empty());
    assert!(pick(Some(" , ")).is_empty());
    assert!(pick(None).is_empty());
    assert_eq!(split_char("a,,b,", ','), vec!["a", "", "b", ""]);
    assert_eq!(split_char("", ','), vec![""]);
    assert_eq!(words("  a  b\tc\r"), vec!["a", "b", "c"]);
    assert!(words(" \n ").is_empty());
}

#[test]
fn recommendations_need_a_selection() {
    assert!(recommended(None, None).is_empty());
    assert!(recommended(Some(""), None).is_empty());
    assert!(recommended(Some(" , "), Some(5)).is_empty());
}

#[test]
fn recommendations_rank_by_shared_tags_author_and_source() {
    // garfield is picked: humor, cats, classic; author Jim Davis; source gocomics.
    // peanuts: humor + classic = 2 points, same source +0.5 -> 5 half points.
    // usacres: "Humor" is another tag; same author -> 4 half points.
    // xkcd: humor = 1 point -> 2 half points.
    // garfieldespanol is in Spanish, ghost is not available, untagged earns nothing.
    assert_eq!(recommended(Some("garfield"), None), vec!["peanuts", "usacres", "xkcd"]);
    assert_eq!(recommended(Some("garfield"), Some(2)), vec!["peanuts", "usacres"]);
    assert_eq!(recommended(Some("garfield"), Some(0)), Vec::<String>::new());
}

#[test]
fn recommendations_in_spanish_need_a_spanish_pick() {
    // With the Spanish series picked: garfield shares humor and cats, the
    // author and the source: 2 * 2 + 4 + 1 = 9 half points; peanuts shares
    // humor and the source: 3; usacres the author: 4; xkcd humor: 2.
    assert_eq!(
        recommended(Some("garfieldespanol"), None),
        vec!["garfield", "usacres", "peanuts", "xkcd"]
    );
    // Both picked: peanuts 2 * (2 + 1) + 1 = 7, usacres 4, xkcd 2 * 2 = 4;
    // usacres stands before xkcd because the directory lists it first.
    assert_eq!(
        recommended(Some("garfield,garfieldespanol"), None),
        vec!["peanuts", "usacres", "xkcd"]
    );
}

#[test]
fn tag_weights_count_every_pick() {
    let picks = |list: &[&str]| list.iter().map(|e| e.to_string()).collect::<Vec<String>>();
    assert_eq!(weight_of(&picks(&["garfield", "peanuts"]), &tags(), "humor"), 2);
    assert_eq!(weight_of(&picks(&["garfield", "garfield"]), &tags(), "cats"), 2);
    assert_eq!(weight_of(&picks(&["garfield", "nobody"]), &tags(), "kids"), 0);
    assert_eq!(weight_of(&picks(&[]), &tags(), "humor"), 0);
}
