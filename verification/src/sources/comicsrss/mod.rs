//! The feed-based provider: the newest strips of a series come as the items
//! of a syndication feed.
//!
//! An item's date is the date at the end of its id; failing that, the day of
//! its publication date. The items of one feed are put in the order of their
//! dates, and each is linked to its neighbours in that order.

use crate::cache::{cache_key, strip_key, Caches};
use crate::calendar::{day_of, parse_rfc2822, parse_ymd, parsed_rfc2822, parsed_ymd};
use crate::chance::random_index;
use crate::error::{ErrorKind, ErrorView, PanelsError};
use crate::http_client::{
    is_pool_agent, plain_request, random_user_agent, PageRequest, PageResponse,
};
use crate::models::{is_listed, lists, opt_strip_view, opt_view, Comic, ComicStrip, StripView};
use crate::pattern::{
    all_matches, captures, captures_all, first_match, group, group_text, groups_view, matches_view,
    opt_groups_view, Groups,
};
use crate::sources::{
    served_or, step_view, stray_reply, stray_reply_error, ComicSource, ImageRequest, Pending,
    PendingView, Reply, Step, StepView, Wanted, WantedView,
};
use crate::text::{
    before_first, chars_of, join2, join3, lex_le, padded, padded_text, parse_u32, parsed_u32,
    same_text, text_before, text_le, trim, trimmed,
};
use vstd::prelude::*;
use vstd::string::StringExecFns;

verus! {

/// The name by which series descriptors point at this source.
pub const SOURCE_NAME: &'static str = "comicsrss";

/// How many more attempts follow a failed first one.
pub const RETRIES: u32 = 1;

/// How long one attempt may take, in milliseconds.
pub const TIMEOUT_MS: u64 = 15000;

/// The pattern of one item of a feed: group 1 is what stands inside it.
pub const ITEM_PATTERN: &'static str = "(?s)<item>(.*?)</item>";

/// The pattern of a title given as character data.
pub const TITLE_PATTERN: &'static str = "(?s)<title><!\\[CDATA\\[(.*?)\\]\\]></title>";

/// The pattern of a title given as plain text.
pub const PLAIN_TITLE_PATTERN: &'static str = "(?s)<title>(.*?)</title>";

/// The pattern of an item's link.
pub const LINK_PATTERN: &'static str = "<link>(.*?)</link>";

/// The pattern of an item's id.
pub const GUID_PATTERN: &'static str = "<guid[^>]*>(.*?)</guid>";

/// The pattern of the first image in an item.
pub const IMAGE_PATTERN: &'static str = "<img[^>]+src=\"([^\"]+)\"";

/// The pattern of an item's publication date.
pub const PUB_DATE_PATTERN: &'static str = "<pubDate>(.*?)</pubDate>";

/// The pattern of a date at the end of an id.
pub const TRAILING_DATE_PATTERN: &'static str = "(\\d{4}-\\d{2}-\\d{2})$";

/// The pattern of a date spelled day, month name, year.
pub const SPELLED_DATE_PATTERN: &'static str = "(\\d{1,2})\\s+(\\w{3})\\s+(\\d{4})";

/// The address of the feed of the series `slug`.
pub open spec fn feed_address(slug: Seq<char>) -> Seq<char> {
    "https://www.comicsrss.com/rss/"@ + slug + ".rss"@
}

/// The address of the feed of the series `slug`.
pub fn feed_url(slug: &str) -> (r: String)
    ensures
        r@ == feed_address(slug@),
{
    join3("https://www.comicsrss.com/rss/", slug, ".rss")
}

/// Group 1 of a match, where there is a match and the group took part.
pub open spec fn first_group(found: Option<Seq<Option<Seq<char>>>>) -> Option<Seq<char>> {
    match found {
        Some(groups) => group_text(groups, 1),
        None => None,
    }
}

/// Group 1 of a match, where there is a match and the group took part.
pub fn first_group_of(found: &Option<Groups>) -> (r: Option<&String>)
    ensures
        match r {
            Some(text) => first_group(opt_groups_view(*found)) == Some(text@),
            None => first_group(opt_groups_view(*found)) is None,
        },
{
    match found {
        Some(groups) => group(groups, 1),
        None => None,
    }
}

/// The number of the month with the English short name `name`.
pub open spec fn month_number(name: Seq<char>) -> Option<u32> {
    if name == "Jan"@ {
        Some(1)
    } else if name == "Feb"@ {
        Some(2)
    } else if name == "Mar"@ {
        Some(3)
    } else if name == "Apr"@ {
        Some(4)
    } else if name == "May"@ {
        Some(5)
    } else if name == "Jun"@ {
        Some(6)
    } else if name == "Jul"@ {
        Some(7)
    } else if name == "Aug"@ {
        Some(8)
    } else if name == "Sep"@ {
        Some(9)
    } else if name == "Oct"@ {
        Some(10)
    } else if name == "Nov"@ {
        Some(11)
    } else if name == "Dec"@ {
        Some(12)
    } else {
        None
    }
}

/// The number of the month with the English short name `name`.
pub fn month_of(name: &str) -> (r: Option<u32>)
    ensures
        r == month_number(name@),
{
    if same_text(name, "Jan") {
        Some(1)
    } else if same_text(name, "Feb") {
        Some(2)
    } else if same_text(name, "Mar") {
        Some(3)
    } else if same_text(name, "Apr") {
        Some(4)
    } else if same_text(name, "May") {
        Some(5)
    } else if same_text(name, "Jun") {
        Some(6)
    } else if same_text(name, "Jul") {
        Some(7)
    } else if same_text(name, "Aug") {
        Some(8)
    } else if same_text(name, "Sep") {
        Some(9)
    } else if same_text(name, "Oct") {
        Some(10)
    } else if same_text(name, "Nov") {
        Some(11)
    } else if same_text(name, "Dec") {
        Some(12)
    } else {
        None
    }
}

/// The date that a match of the spelled-date pattern stands for: the day,
/// the month by its short name and the year, written `YYYY-MM-DD`. `None`
/// where a number cannot be read or the name names no month.
pub open spec fn spelled_date(groups: Seq<Option<Seq<char>>>) -> Option<Seq<char>> {
    match (group_text(groups, 1), group_text(groups, 2), group_text(groups, 3)) {
        (Some(day), Some(month), Some(year)) => match (
            parsed_u32(day),
            month_number(month),
            parsed_u32(year),
        ) {
            (Some(d), Some(m), Some(y)) => Some(
                padded(y as nat, 4) + "-"@ + padded(m as nat, 2) + "-"@ + padded(d as nat, 2),
            ),
            _ => None,
        },
        _ => None,
    }
}

/// The date that a match of the spelled-date pattern stands for.
pub fn spelled_date_from(groups: &Groups) -> (r: Option<String>)
    ensures
        opt_view(r) == spelled_date(groups_view(groups@)),
{
    match (group(groups, 1), group(groups, 2), group(groups, 3)) {
        (Some(day), Some(month), Some(year)) => match (
            parse_u32(day.as_str()),
            month_of(month.as_str()),
            parse_u32(year.as_str()),
        ) {
            (Some(d), Some(m), Some(y)) => {
                let head = join3(
                    padded_text(y as u64, 4).as_str(),
                    "-",
                    padded_text(m as u64, 2).as_str(),
                );
                Some(join3(head.as_str(), "-", padded_text(d as u64, 2).as_str()))
            },
            _ => None,
        },
        _ => None,
    }
}

/// The day of a publication date: the day that the RFC 2822 reader makes of
/// it, written as a date, or else the date that is spelled somewhere in it.
pub open spec fn published_day(published: Seq<char>) -> Option<Seq<char>> {
    match parsed_rfc2822(published) {
        Some(ymd) => Some(day_of(ymd).iso()),
        None => match first_match(SPELLED_DATE_PATTERN@, published) {
            Some(groups) => spelled_date(groups),
            None => None,
        },
    }
}

/// The date of the item `item`: the date at the end of its id; failing
/// that, the day of its publication date.
pub open spec fn item_date(item: Seq<char>) -> Option<Seq<char>> {
    let dated_id = match first_group(first_match(GUID_PATTERN@, item)) {
        Some(id) => first_group(first_match(TRAILING_DATE_PATTERN@, id)),
        None => None,
    };
    match dated_id {
        Some(date) => Some(date),
        None => match first_group(first_match(PUB_DATE_PATTERN@, item)) {
            Some(published) => published_day(published),
            None => None,
        },
    }
}

/// The title of the item `item` as the feed gives it: the character data of
/// its title, or else its plain title, or else nothing.
pub open spec fn item_title(item: Seq<char>) -> Seq<char> {
    match first_group(first_match(TITLE_PATTERN@, item)) {
        Some(title) => title,
        None => match first_group(first_match(PLAIN_TITLE_PATTERN@, item)) {
            Some(title) => title,
            None => Seq::empty(),
        },
    }
}

/// The strip that the item `item` of the feed of `endpoint` is, without its
/// neighbours: `None` where the item shows no image or has no date. The
/// title is cut off before the author and trimmed.
pub open spec fn item_strip(item: Seq<char>, endpoint: Seq<char>) -> Option<StripView> {
    match (first_group(first_match(IMAGE_PATTERN@, item)), item_date(item)) {
        (Some(image), Some(date)) => Some(
            StripView {
                endpoint,
                title: trimmed(before_first(item_title(item), " by "@)),
                date,
                image_url: image,
                source_url: match first_group(first_match(LINK_PATTERN@, item)) {
                    Some(link) => link,
                    None => Seq::empty(),
                },
                prev_date: None,
                next_date: None,
            },
        ),
        _ => None,
    }
}

/// The day of a publication date.
pub fn published_day_of(published: &str) -> (r: Option<String>)
    ensures
        opt_view(r) == published_day(published@),
{
    match parse_rfc2822(published) {
        Some(day) => Some(day.iso_text()),
        None => match captures(SPELLED_DATE_PATTERN, published) {
            Some(groups) => spelled_date_from(&groups),
            None => None,
        },
    }
}

/// The date of the item `item_xml`.
pub fn extract_date_from_rss(item_xml: &str) -> (r: Option<String>)
    ensures
        opt_view(r) == item_date(item_xml@),
{
    let id = captures(GUID_PATTERN, item_xml);
    match first_group_of(&id) {
        Some(text) => {
            let dated = captures(TRAILING_DATE_PATTERN, text.as_str());
            match first_group_of(&dated) {
                Some(date) => {
                    return Some(date.clone());
                },
                None => {},
            }
        },
        None => {},
    }
    let published = captures(PUB_DATE_PATTERN, item_xml);
    match first_group_of(&published) {
        Some(text) => published_day_of(text.as_str()),
        None => None,
    }
}

/// The strip that the item `item_xml` of the feed of `endpoint` is, without
/// its neighbours.
pub fn parse_item(item_xml: &str, endpoint: &str) -> (r: Option<ComicStrip>)
    ensures
        opt_strip_view(r) == item_strip(item_xml@, endpoint@),
{
    let image = captures(IMAGE_PATTERN, item_xml);
    let image_url = match first_group_of(&image) {
        Some(address) => address.clone(),
        None => {
            return None;
        },
    };
    let titled = captures(TITLE_PATTERN, item_xml);
    let title = match first_group_of(&titled) {
        Some(title) => title.clone(),
        None => {
            let plain = captures(PLAIN_TITLE_PATTERN, item_xml);
            match first_group_of(&plain) {
                Some(title) => title.clone(),
                None => String::new(),
            }
        },
    };
    let clean_title = trim(text_before(title.as_str(), " by ").as_str());
    let linked = captures(LINK_PATTERN, item_xml);
    let source_url = match first_group_of(&linked) {
        Some(link) => link.clone(),
        None => String::new(),
    };
    match extract_date_from_rss(item_xml) {
        Some(date) => Some(
            ComicStrip {
                endpoint: String::from_str(endpoint),
                title: clean_title,
                date,
                image_url,
                source_url,
                prev_date: None,
                next_date: None,
            },
        ),
        None => None,
    }
}

/// A run of strips as plain values.
pub open spec fn strips_view(strips: Seq<ComicStrip>) -> Seq<StripView> {
    Seq::new(strips.len(), |i: int| strips[i]@)
}

/// The strips of the items that the item pattern found, in the order of the
/// feed and without neighbours; an item that is no strip is left out.
pub open spec fn unlinked_items(
    found: Seq<Seq<Option<Seq<char>>>>,
    endpoint: Seq<char>,
) -> Seq<StripView>
    decreases found.len(),
{
    if found.len() == 0 {
        Seq::empty()
    } else {
        let rest = unlinked_items(found.drop_last(), endpoint);
        match group_text(found.last(), 1) {
            Some(item) => match item_strip(item, endpoint) {
                Some(strip) => rest.push(strip),
                None => rest,
            },
            None => rest,
        }
    }
}

/// Whether the dates of the strips never fall from one strip to the next.
pub open spec fn ordered(strips: Seq<StripView>) -> bool {
    forall|i: int, j: int| 0 <= i < j < strips.len() ==> lex_le(strips[i].date, strips[j].date)
}

/// Where `strip` goes in `sorted`: behind the last strip whose date is not
/// later than its own.
pub open spec fn place_of(sorted: Seq<StripView>, strip: StripView) -> int
    decreases sorted.len(),
{
    if sorted.len() == 0 {
        0
    } else if lex_le(sorted.last().date, strip.date) {
        sorted.len() as int
    } else {
        place_of(sorted.drop_last(), strip)
    }
}

/// `sorted` with `strip` put in its place.
pub open spec fn placed(sorted: Seq<StripView>, strip: StripView) -> Seq<StripView> {
    sorted.insert(place_of(sorted, strip), strip)
}

/// The strips in the order of their dates; strips of one date stay in the
/// order in which they came.
pub open spec fn by_date(strips: Seq<StripView>) -> Seq<StripView>
    decreases strips.len(),
{
    if strips.len() == 0 {
        Seq::empty()
    } else {
        placed(by_date(strips.drop_last()), strips.last())
    }
}

/// The strips, each with the dates of the strip before and the strip after
/// it in the run as its neighbours; the first has none before, the last none
/// after.
pub open spec fn linked(strips: Seq<StripView>) -> Seq<StripView> {
    Seq::new(
        strips.len(),
        |i: int|
            StripView {
                prev_date: if i > 0 {
                    Some(strips[i - 1].date)
                } else {
                    None
                },
                next_date: if i + 1 < strips.len() {
                    Some(strips[i + 1].date)
                } else {
                    None
                },
                ..strips[i]
            },
    )
}

/// The strips of the feed `xml` of `endpoint`: its items, in the order of
/// their dates, each linked to its neighbours in that order.
pub open spec fn feed_strips(xml: Seq<char>, endpoint: Seq<char>) -> Seq<StripView> {
    linked(by_date(unlinked_items(all_matches(ITEM_PATTERN@, xml), endpoint)))
}

/// The place of a strip is marked by its neighbours: no strip from there on
/// has a date that is not later, and the strip just before has one.
pub proof fn lemma_place_of(sorted: Seq<StripView>, strip: StripView)
    ensures
        0 <= place_of(sorted, strip) <= sorted.len(),
        forall|j: int|
            place_of(sorted, strip) <= j < sorted.len() ==> !lex_le(
                (#[trigger] sorted[j]).date,
                strip.date,
            ),
        place_of(sorted, strip) > 0 ==> lex_le(
            sorted[place_of(sorted, strip) - 1].date,
            strip.date,
        ),
    decreases sorted.len(),
{
    if sorted.len() > 0 && !lex_le(sorted.last().date, strip.date) {
        lemma_place_of(sorted.drop_last(), strip);
        let p = place_of(sorted, strip);
        assert forall|j: int| p <= j < sorted.len() implies !lex_le(
            (#[trigger] sorted[j]).date,
            strip.date,
        ) by {
            if j < sorted.len() - 1 {
                assert(sorted[j] == sorted.drop_last()[j]);
            }
        }
        if p > 0 {
            assert(sorted[p - 1] == sorted.drop_last()[p - 1]);
        }
    }
}

/// A place that is marked by its neighbours is the place of the strip.
pub proof fn lemma_place_is(sorted: Seq<StripView>, strip: StripView, p: int)
    requires
        0 <= p <= sorted.len(),
        forall|j: int| p <= j < sorted.len() ==> !lex_le((#[trigger] sorted[j]).date, strip.date),
        p > 0 ==> lex_le(sorted[p - 1].date, strip.date),
    ensures
        place_of(sorted, strip) == p,
    decreases sorted.len(),
{
    if sorted.len() > 0 {
        if p == sorted.len() {
        } else {
            assert(!lex_le(sorted[sorted.len() - 1].date, strip.date));
            let rest = sorted.drop_last();
            assert forall|j: int| p <= j < rest.len() implies !lex_le(
                (#[trigger] rest[j]).date,
                strip.date,
            ) by {
                assert(rest[j] == sorted[j]);
            }
            if p > 0 {
                assert(rest[p - 1] == sorted[p - 1]);
            }
            lemma_place_is(rest, strip, p);
        }
    }
}

/// Putting a strip in its place keeps the order of the dates.
#[verifier::rlimit(40)]
pub proof fn lemma_placed_is_ordered(sorted: Seq<StripView>, strip: StripView)
    requires
        ordered(sorted),
    ensures
        ordered(placed(sorted, strip)),
        placed(sorted, strip).len() == sorted.len() + 1,
{
    lemma_place_of(sorted, strip);
    let p = place_of(sorted, strip);
    let out = placed(sorted, strip);
    sorted.insert_ensures(p, strip);
    assert forall|i: int, j: int| 0 <= i < j < out.len() implies lex_le(
        out[i].date,
        out[j].date,
    ) by {
        if j < p {
            assert(out[i] == sorted[i] && out[j] == sorted[j]);
        } else if j == p {
            assert(out[i] == sorted[i]);
            assert(out[j] == strip);
            if i < p - 1 {
                assert(lex_le(sorted[i].date, sorted[p - 1].date));
                crate::text::lemma_lex_le_transitive(
                    sorted[i].date,
                    sorted[p - 1].date,
                    strip.date,
                );
            }
        } else if i < p {
            assert(out[i] == sorted[i] && out[j] == sorted[j - 1]);
            if i < j - 1 {
                assert(lex_le(sorted[i].date, sorted[j - 1].date));
            }
        } else if i == p {
            assert(out[i] == strip);
            assert(out[j] == sorted[j - 1]);
            assert(!lex_le(sorted[j - 1].date, strip.date));
            crate::text::lemma_lex_le_total(sorted[j - 1].date, strip.date);
        } else {
            assert(out[i] == sorted[i - 1] && out[j] == sorted[j - 1]);
            assert(lex_le(sorted[i - 1].date, sorted[j - 1].date));
        }
    }
}

/// Putting a strip in its place adds that strip and no other.
pub proof fn lemma_placed_keeps_strips(sorted: Seq<StripView>, strip: StripView)
    ensures
        placed(sorted, strip).to_multiset() == sorted.to_multiset().insert(strip),
{
    lemma_place_of(sorted, strip);
    let p = place_of(sorted, strip);
    let out = placed(sorted, strip);
    sorted.insert_ensures(p, strip);
    assert(out.remove(p) =~= sorted);
    assert(out[p] == strip);
    vstd::seq_lib::to_multiset_remove(out, p);
    out.to_multiset_ensures();
    assert(out.contains(strip));
    assert(out.to_multiset().count(strip) > 0);
    assert(out.to_multiset() =~= sorted.to_multiset().insert(strip));
}

/// The strips in the order of their dates are the same strips, and their
/// dates never fall.
pub proof fn lemma_by_date_sorts(strips: Seq<StripView>)
    ensures
        ordered(by_date(strips)),
        by_date(strips).len() == strips.len(),
        by_date(strips).to_multiset() == strips.to_multiset(),
    decreases strips.len(),
{
    if strips.len() == 0 {
        assert(by_date(strips) =~= strips);
    } else {
        let rest = strips.drop_last();
        lemma_by_date_sorts(rest);
        lemma_placed_is_ordered(by_date(rest), strips.last());
        lemma_placed_keeps_strips(by_date(rest), strips.last());
        assert(rest.push(strips.last()) =~= strips);
        vstd::seq_lib::to_multiset_build(rest, strips.last());
    }
}

/// In a feed, every strip but the first names the strip before it as its
/// predecessor and every strip but the last names the strip after it as its
/// successor, and the dates never fall along the feed.
pub proof fn lemma_feed_is_a_chain(xml: Seq<char>, endpoint: Seq<char>)
    ensures
        ({
            let feed = feed_strips(xml, endpoint);
            &&& forall|i: int, j: int|
                0 <= i < j < feed.len() ==> lex_le(feed[i].date, feed[j].date)
            &&& forall|i: int|
                0 <= i < feed.len() ==> (#[trigger] feed[i]).prev_date == if i > 0 {
                    Some(feed[i - 1].date)
                } else {
                    None
                }
            &&& forall|i: int|
                0 <= i < feed.len() ==> (#[trigger] feed[i]).next_date == if i + 1 < feed.len() {
                    Some(feed[i + 1].date)
                } else {
                    None
                }
        }),
{
    let items = unlinked_items(all_matches(ITEM_PATTERN@, xml), endpoint);
    lemma_by_date_sorts(items);
    let sorted = by_date(items);
    let feed = feed_strips(xml, endpoint);
    assert forall|i: int, j: int| 0 <= i < j < feed.len() implies lex_le(
        feed[i].date,
        feed[j].date,
    ) by {
        assert(feed[i].date == sorted[i].date && feed[j].date == sorted[j].date);
    }
}

/// Whether the date of `strips[i]` is not later than `date`.
pub fn not_later(strips: &Vec<ComicStrip>, i: usize, date: &Vec<char>) -> (r: bool)
    requires
        i < strips@.len(),
    ensures
        r == lex_le(strips@[i as int]@.date, date@),
{
    let other = chars_of(strips[i].date.as_str());
    text_le(&other, date)
}

/// Puts `strip` in its place among strips that stand in the order of their
/// dates: behind the last one whose date is not later than its own.
pub fn place(sorted: &mut Vec<ComicStrip>, strip: ComicStrip)
    ensures
        strips_view(final(sorted)@) == placed(strips_view(old(sorted)@), strip@),
{
    let date = chars_of(strip.date.as_str());
    let ghost before = strips_view(sorted@);
    let mut p: usize = sorted.len();
    while p > 0 && !not_later(sorted, p - 1, &date)
        invariant
            p <= sorted@.len(),
            sorted@ == old(sorted)@,
            before == strips_view(sorted@),
            date@ == strip@.date,
            forall|j: int|
                p <= j < before.len() ==> !lex_le((#[trigger] before[j]).date, strip@.date),
        decreases p,
    {
        p -= 1;
    }
    proof {
        lemma_place_is(before, strip@, p as int);
    }
    sorted.insert(p, strip);
    assert(strips_view(sorted@) =~= before.insert(p as int, strip@)) by {
        before.insert_ensures(p as int, strip@);
        old(sorted)@.insert_ensures(p as int, strip);
    }
}

/// The strips, each with the dates of its neighbours in the run.
pub fn link(strips: &Vec<ComicStrip>) -> (r: Vec<ComicStrip>)
    ensures
        strips_view(r@) == linked(strips_view(strips@)),
{
    let ghost all = strips_view(strips@);
    let mut out: Vec<ComicStrip> = Vec::new();
    let mut i: usize = 0;
    while i < strips.len()
        invariant
            i <= strips@.len(),
            all == strips_view(strips@),
            out@.len() == i,
            forall|j: int| 0 <= j < i ==> (#[trigger] out@[j])@ == linked(all)[j],
        decreases strips@.len() - i,
    {
        let strip = &strips[i];
        assert(all[i as int] == strip@);
        let prev_date = if i > 0 {
            assert(all[i - 1] == strips@[i - 1]@);
            Some(strips[i - 1].date.clone())
        } else {
            None
        };
        let next_date = if i + 1 < strips.len() {
            assert(all[i + 1] == strips@[i + 1]@);
            Some(strips[i + 1].date.clone())
        } else {
            None
        };
        out.push(
            ComicStrip {
                endpoint: strip.endpoint.clone(),
                title: strip.title.clone(),
                date: strip.date.clone(),
                image_url: strip.image_url.clone(),
                source_url: strip.source_url.clone(),
                prev_date,
                next_date,
            },
        );
        i += 1;
    }
    assert(strips_view(out@) =~= linked(all));
    out
}

/// The strips of the items that the item pattern found, in the order of
/// their dates, each linked to its neighbours in that order.
pub fn items_from(found: &Vec<Groups>, endpoint: &str) -> (r: Vec<ComicStrip>)
    ensures
        strips_view(r@) == linked(by_date(unlinked_items(matches_view(found@), endpoint@))),
{
    let ghost all = matches_view(found@);
    let mut sorted: Vec<ComicStrip> = Vec::new();
    let mut i: usize = 0;
    assert(strips_view(sorted@) =~= by_date(unlinked_items(all.take(0), endpoint@)));
    while i < found.len()
        invariant
            i <= found@.len(),
            all == matches_view(found@),
            strips_view(sorted@) == by_date(unlinked_items(all.take(i as int), endpoint@)),
        decreases found@.len() - i,
    {
        let ghost seen = unlinked_items(all.take(i as int), endpoint@);
        assert(all.take(i + 1).drop_last() =~= all.take(i as int));
        assert(all.take(i + 1).last() == groups_view(found@[i as int]@));
        match group(&found[i], 1) {
            Some(item) => match parse_item(item.as_str(), endpoint) {
                Some(strip) => {
                    assert(seen.push(strip@).drop_last() =~= seen);
                    place(&mut sorted, strip);
                },
                None => {},
            },
            None => {},
        }
        i += 1;
    }
    assert(all.take(i as int) =~= all);
    link(&sorted)
}

/// The strips of the feed `xml` of `endpoint`.
pub fn parse_rss_items(xml: &str, endpoint: &str) -> (r: Vec<ComicStrip>)
    ensures
        strips_view(r@) == feed_strips(xml@, endpoint@),
{
    let found = captures_all(ITEM_PATTERN, xml);
    items_from(&found, endpoint)
}

/// The cache after each of `strips` was stored under its endpoint and date,
/// in their order.
pub open spec fn stored_all(
    before: Map<Seq<char>, StripView>,
    strips: Seq<StripView>,
) -> Map<Seq<char>, StripView>
    decreases strips.len(),
{
    if strips.len() == 0 {
        before
    } else {
        stored_all(before, strips.drop_last()).insert(
            cache_key(strips.last().endpoint, strips.last().date),
            strips.last(),
        )
    }
}

/// The first of `strips` with the date `date`.
pub open spec fn first_dated(strips: Seq<StripView>, date: Seq<char>) -> Option<StripView>
    decreases strips.len(),
{
    if strips.len() == 0 {
        None
    } else if strips[0].date == date {
        Some(strips[0])
    } else {
        first_dated(strips.drop_first(), date)
    }
}

/// The strips that a reply to a feed request brought: those of the feed, or
/// none where no page came.
pub open spec fn replied_strips(
    fetched: Result<Option<PageResponse>, PanelsError>,
    endpoint: Seq<char>,
) -> Seq<StripView> {
    match fetched {
        Ok(Some(page)) => feed_strips(page.html@, endpoint),
        _ => Seq::empty(),
    }
}

/// Whether `found` is the strip that `wanted` asks for among `strips`: the
/// first of the date, the last of the feed, or any one of them.
pub open spec fn is_wanted(
    strips: Seq<StripView>,
    wanted: WantedView,
    found: Option<StripView>,
) -> bool {
    match wanted {
        WantedView::Date(date) => found == first_dated(strips, date),
        WantedView::Latest => found == if strips.len() > 0 {
            Some(strips.last())
        } else {
            None
        },
        WantedView::Random => if strips.len() == 0 {
            found is None
        } else {
            exists|i: int| 0 <= i < strips.len() && found == Some(#[trigger] strips[i])
        },
    }
}

/// Whether `step` and the cache after it end a fetch with the reply to a
/// feed request: a hard error is passed on; otherwise every strip of the
/// feed is cached under its date, and the strip that was asked for is
/// returned, or a miss where the feed does not hold it.
pub open spec fn ends_feed(
    before: Map<Seq<char>, StripView>,
    after: Map<Seq<char>, StripView>,
    step: Result<StepView, ErrorView>,
    fetched: Result<Option<PageResponse>, PanelsError>,
    endpoint: Seq<char>,
    wanted: WantedView,
) -> bool {
    match fetched {
        Err(e) => step == Err::<StepView, ErrorView>(e@) && after == before,
        _ => {
            &&& after == stored_all(before, replied_strips(fetched, endpoint))
            &&& step matches Ok(StepView::Done(found)) && is_wanted(
                replied_strips(fetched, endpoint),
                wanted,
                found,
            )
        },
    }
}

/// Whether `step` asks for the feed of `endpoint` on behalf of `wanted`.
pub open spec fn asks_for_feed(
    step: Result<StepView, ErrorView>,
    endpoint: Seq<char>,
    wanted: WantedView,
) -> bool {
    step == Ok::<StepView, ErrorView>(
        StepView::FetchPage(
            plain_request(feed_address(endpoint), RETRIES, TIMEOUT_MS),
            PendingView::Feed { endpoint, wanted },
        ),
    )
}

/// The detail of the error for an identifier that is no date.
pub open spec fn not_a_date(date: Seq<char>) -> Seq<char> {
    "invalid date format: "@ + date
}

/// Whether `step` begins the fetch of the strip `date` of `endpoint` against
/// a cache in which `written` was stored: the cached strip, or a request for
/// the feed.
pub open spec fn begins_dated(
    written: Map<Seq<char>, StripView>,
    step: Result<StepView, ErrorView>,
    endpoint: Seq<char>,
    date: Seq<char>,
) -> bool {
    match step {
        Ok(StepView::Done(found)) => found matches Some(strip) && written.contains_key(
            cache_key(endpoint, date),
        ) && written[cache_key(endpoint, date)] == strip,
        _ => asks_for_feed(step, endpoint, WantedView::Date(date)),
    }
}

/// The first of `strips` with the date `date`.
pub fn find_dated(strips: &Vec<ComicStrip>, date: &str) -> (r: Option<ComicStrip>)
    ensures
        opt_strip_view(r) == first_dated(strips_view(strips@), date@),
{
    let ghost all = strips_view(strips@);
    let mut i: usize = 0;
    assert(all.skip(0) =~= all);
    while i < strips.len()
        invariant
            i <= strips@.len(),
            all == strips_view(strips@),
            first_dated(all, date@) == first_dated(all.skip(i as int), date@),
        decreases strips@.len() - i,
    {
        assert(all.skip(i as int)[0] == strips@[i as int]@);
        assert(all.skip(i as int).drop_first() =~= all.skip(i + 1));
        if same_text(strips[i].date.as_str(), date) {
            return Some(strips[i].duplicate());
        }
        i += 1;
    }
    None
}

/// Stores each of `strips` in the cache under its endpoint and date.
pub fn store_all(caches: &mut Caches, strips: &Vec<ComicStrip>)
    ensures
        final(caches).written() == stored_all(old(caches).written(), strips_view(strips@)),
{
    let ghost all = strips_view(strips@);
    let mut i: usize = 0;
    while i < strips.len()
        invariant
            i <= strips@.len(),
            all == strips_view(strips@),
            caches.written() == stored_all(old(caches).written(), all.take(i as int)),
        decreases strips@.len() - i,
    {
        assert(all.take(i + 1).drop_last() =~= all.take(i as int));
        assert(all.take(i + 1).last() == strips@[i as int]@);
        let strip = &strips[i];
        let key = strip_key(strip.endpoint.as_str(), strip.date.as_str());
        caches.put(key, strip.duplicate());
        i += 1;
    }
    assert(all.take(i as int) =~= all);
}

/// The feed-based provider, with the series it serves.
pub struct ComicsRssSource {
    comics: Vec<Comic>,
}

impl ComicsRssSource {
    /// The series descriptors that the source was made with.
    pub closed spec fn comics(&self) -> Seq<Comic> {
        self.comics@
    }

    /// A source that serves the series that `comics` lists as its own.
    pub fn new(comics: Vec<Comic>) -> (r: Self)
        ensures
            r.comics() == comics@,
    {
        ComicsRssSource { comics }
    }

    /// The step that asks for the feed of `endpoint` on behalf of `wanted`.
    pub fn feed_request(endpoint: &str, wanted: Wanted) -> (r: Step)
        ensures
            asks_for_feed(Ok(r@), endpoint@, wanted@),
    {
        Step::FetchPage(
            PageRequest::new(feed_url(endpoint), RETRIES, TIMEOUT_MS),
            Pending::Feed { endpoint: String::from_str(endpoint), wanted },
        )
    }

    /// Asks for the feed of `endpoint` on behalf of `wanted`.
    pub fn fetch_feed(&self, endpoint: &str, wanted: Wanted) -> (r: Result<Step, PanelsError>)
        ensures
            asks_for_feed(step_view(r), endpoint@, wanted@),
    {
        Ok(Self::feed_request(endpoint, wanted))
    }

    /// The strip that `wanted` asks for among the strips of a feed.
    pub fn pick(strips: Vec<ComicStrip>, wanted: &Wanted) -> (r: Option<ComicStrip>)
        ensures
            is_wanted(strips_view(strips@), wanted@, opt_strip_view(r)),
    {
        let ghost all = strips_view(strips@);
        match wanted {
            Wanted::Date(date) => find_dated(&strips, date.as_str()),
            Wanted::Latest => {
                if strips.len() > 0 {
                    assert(all.last() == strips@[strips@.len() - 1]@);
                    Some(strips[strips.len() - 1].duplicate())
                } else {
                    None
                }
            },
            Wanted::Random => {
                if strips.len() == 0 {
                    None
                } else {
                    let i = random_index(strips.len());
                    assert(all[i as int] == strips@[i as int]@);
                    Some(strips[i].duplicate())
                }
            },
        }
    }
}

impl ComicSource for ComicsRssSource {
    open spec fn claims(&self, endpoint: Seq<char>) -> bool {
        lists(self.comics(), endpoint, SOURCE_NAME@)
    }

    fn handles(&self, endpoint: &str) -> (r: bool) {
        is_listed(&self.comics, endpoint, SOURCE_NAME)
    }

    /// Begins to fetch the strip `date` of `endpoint`. A `date` that is no
    /// calendar date is refused before the cache or the network is looked
    /// at. Otherwise the cached strip, where the cache holds one, or else a
    /// request for the feed.
    fn fetch_strip(&self, caches: &mut Caches, endpoint: &str, date: &str) -> (r: Result<
        Step,
        PanelsError,
    >)
        ensures
            final(caches).written() == old(caches).written(),
            match parsed_ymd(date@) {
                None => step_view(r) == Err::<StepView, ErrorView>(
                    ErrorView { kind: ErrorKind::InvalidDate, detail: not_a_date(date@) },
                ),
                Some(day) => begins_dated(old(caches).written(), step_view(r), endpoint@, date@),
            },
    {
        if parse_ymd(date).is_none() {
            return Err(PanelsError::InvalidDate(join2("invalid date format: ", date)));
        }
        let key = strip_key(endpoint, date);
        Ok(
            served_or(
                caches.get(key.as_str()),
                Self::feed_request(endpoint, Wanted::Date(String::from_str(date))),
            ),
        )
    }

    /// Begins to fetch the newest strip: asks for the feed, past the cache.
    fn fetch_latest(&self, caches: &mut Caches, endpoint: &str) -> (r: Result<Step, PanelsError>)
        ensures
            final(caches).written() == old(caches).written(),
            asks_for_feed(step_view(r), endpoint@, WantedView::Latest),
    {
        self.fetch_feed(endpoint, Wanted::Latest)
    }

    /// Begins to fetch some strip of the feed: asks for the feed, past the
    /// cache.
    fn fetch_random(&self, caches: &mut Caches, endpoint: &str) -> (r: Result<Step, PanelsError>)
        ensures
            final(caches).written() == old(caches).written(),
            asks_for_feed(step_view(r), endpoint@, WantedView::Random),
    {
        self.fetch_feed(endpoint, Wanted::Random)
    }

    /// Goes on once the feed is there: caches every strip of the feed and
    /// returns the one that was asked for. A feed that could not be had
    /// counts as an empty one. A reply that this source did not ask for is an
    /// internal error.
    fn resume(&self, caches: &mut Caches, pending: Pending, reply: Reply) -> (r: Result<
        Step,
        PanelsError,
    >)
        ensures
            match (pending, reply) {
                (Pending::Feed { endpoint, wanted }, Reply::Page(fetched)) => ends_feed(
                    old(caches).written(),
                    final(caches).written(),
                    step_view(r),
                    fetched,
                    endpoint@,
                    wanted@,
                ),
                _ => {
                    &&& step_view(r) == Err::<StepView, ErrorView>(stray_reply())
                    &&& final(caches).written() == old(caches).written()
                },
            },
    {
        match reply {
            Reply::Page(fetched) => match pending {
                Pending::Feed { endpoint, wanted } => {
                    let strips = match fetched {
                        Err(e) => {
                            return Err(e);
                        },
                        Ok(None) => Vec::new(),
                        Ok(Some(page)) => parse_rss_items(page.html.as_str(), endpoint.as_str()),
                    };
                    assert(strips_view(strips@) =~= replied_strips(fetched, endpoint@));
                    store_all(caches, &strips);
                    Ok(Step::Done(Self::pick(strips, &wanted)))
                },
                _ => Err(stray_reply_error()),
            },
            _ => Err(stray_reply_error()),
        }
    }

    /// Images are asked for with a client identity of the pool and no
    /// referer; an answer without a content type counts as a GIF.
    fn proxy_image(&self, image_url: &str) -> (r: ImageRequest)
        ensures
            r.url@ == image_url@,
            is_pool_agent(r.user_agent@),
            r.referer is None,
            r.fallback_content_type@ == "image/gif"@,
    {
        ImageRequest {
            url: String::from_str(image_url),
            user_agent: random_user_agent(),
            referer: None,
            fallback_content_type: "image/gif",
        }
    }
}

} // verus!
