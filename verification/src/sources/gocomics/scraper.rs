//! What a page of the gallery provider holds: the date it was served for and
//! the image of its strip.

use crate::markup::{
    find_attributes, find_inner_html, first_containing, first_with, found_attributes,
    found_inner_html, json_member, member_view, opt_texts_view, read_json_member, texts_view,
};
use crate::models::{opt_strip_view, opt_view, ComicStrip, StripView};
use crate::pattern::{
    captures, escape, escaped, first_match, group, group_text, opt_groups_view, Groups,
};
use crate::text::{before_first, contains, contains_text, join3, text_before};
use vstd::prelude::*;
use vstd::string::StringExecFns;

verus! {

/// The address of the provider.
pub const BASE_URL: &'static str = "https://www.gocomics.com";

/// The host that serves the provider's strip images.
pub const ASSETS: &'static str = "featureassets.gocomics.com";

/// The selector of the scripts that hold linked data.
pub const LINKED_DATA: &'static str = "script[type=\"application/ld+json\"]";

/// The selector of the page's preview image.
pub const PREVIEW_IMAGE: &'static str = "meta[property=\"og:image\"]";

/// The selector of the page's canonical link.
pub const CANONICAL_LINK: &'static str = "link[rel=\"canonical\"]";

/// The pattern that finds the date in a path of the series `endpoint`: the
/// endpoint between slashes, then year, month and day as four, two and two
/// digits.
pub open spec fn nav_pattern(endpoint: Seq<char>) -> Seq<char> {
    "/"@ + escaped(endpoint) + "/(\\d{4})/(\\d{2})/(\\d{2})"@
}

/// The date that a match of the path pattern holds: its three groups, joined
/// by hyphens.
pub open spec fn nav_date_of(found: Option<Seq<Option<Seq<char>>>>) -> Option<Seq<char>> {
    match found {
        Some(groups) => match (
            group_text(groups, 1),
            group_text(groups, 2),
            group_text(groups, 3),
        ) {
            (Some(year), Some(month), Some(day)) => Some(
                year + "-"@ + month + "-"@ + day,
            ),
            _ => None,
        },
        None => None,
    }
}

/// The date that the first canonical link of a page holds; `hrefs` are the
/// `href` values of the page's canonical links.
pub open spec fn page_date_of(hrefs: Seq<Option<Seq<char>>>, endpoint: Seq<char>) -> Option<
    Seq<char>,
> {
    if hrefs.len() > 0 && hrefs[0] is Some {
        nav_date_of(first_match(nav_pattern(endpoint), hrefs[0].unwrap()))
    } else {
        None
    }
}

/// The image address that one block of linked data offers: where its `@type`
/// is the string `ImageObject`, its `contentUrl`, or else its `url`, read as
/// a string, and the empty text where that is none.
pub open spec fn linked_image_of(
    kind: Option<Option<Seq<char>>>,
    content_url: Option<Option<Seq<char>>>,
    url: Option<Option<Seq<char>>>,
) -> Option<Seq<char>> {
    if kind == Some(Some("ImageObject"@)) {
        let member = match content_url {
            Some(m) => Some(m),
            None => url,
        };
        match member {
            Some(Some(text)) => Some(text),
            _ => Some(Seq::empty()),
        }
    } else {
        None
    }
}

/// The image address that the linked-data block `raw` offers.
pub open spec fn linked_image(raw: Seq<char>) -> Option<Seq<char>> {
    linked_image_of(
        json_member(raw, "@type"@),
        json_member(raw, "contentUrl"@),
        json_member(raw, "url"@),
    )
}

/// The image of the strip, chosen among what a page offers: the first
/// linked-data image on the assets host; else the first preview image, if it
/// is on the assets host; else the first `img` on the assets host.
pub open spec fn picked_image(
    linked: Seq<Option<Seq<char>>>,
    previews: Seq<Option<Seq<char>>>,
    images: Seq<Option<Seq<char>>>,
) -> Option<Seq<char>> {
    if first_with(linked, ASSETS@) is Some {
        first_with(linked, ASSETS@)
    } else if previews.len() > 0 && previews[0] is Some && contains_text(
        previews[0].unwrap(),
        ASSETS@,
    ) {
        previews[0]
    } else {
        first_with(images, ASSETS@)
    }
}

/// The image of the strip on the page `html`.
pub open spec fn page_image(html: Seq<char>) -> Option<Seq<char>> {
    picked_image(
        Seq::new(
            found_inner_html(html, LINKED_DATA@).len(),
            |i: int| linked_image(found_inner_html(html, LINKED_DATA@)[i]),
        ),
        found_attributes(html, PREVIEW_IMAGE@, "content"@),
        found_attributes(html, "img"@, "src"@),
    )
}

/// The strip of a page whose image is `image`: the image address without its
/// query, the series' own page as the source, and no neighbours.
pub open spec fn page_strip(
    image: Option<Seq<char>>,
    endpoint: Seq<char>,
    date: Seq<char>,
    title: Seq<char>,
) -> Option<StripView> {
    match image {
        Some(address) => Some(
            StripView {
                endpoint,
                title,
                date,
                image_url: before_first(address, "?"@),
                source_url: BASE_URL@ + "/"@ + endpoint,
                prev_date: None,
                next_date: None,
            },
        ),
        None => None,
    }
}

/// The date that a match of the path pattern holds.
pub fn nav_date_from(found: &Option<Groups>) -> (r: Option<String>)
    ensures
        opt_view(r) == nav_date_of(opt_groups_view(*found)),
{
    match found {
        Some(groups) => match (group(groups, 1), group(groups, 2), group(groups, 3)) {
            (Some(year), Some(month), Some(day)) => {
                let head = join3(year.as_str(), "-", month.as_str());
                Some(join3(head.as_str(), "-", day.as_str()))
            },
            _ => None,
        },
        None => None,
    }
}

/// The date in `href`, a path or an address of the series `endpoint`.
pub fn extract_nav_date(href: &str, endpoint: &str) -> (r: Option<String>)
    ensures
        opt_view(r) == nav_date_of(first_match(nav_pattern(endpoint@), href@)),
{
    let name = escape(endpoint);
    let pattern = join3("/", name.as_str(), "/(\\d{4})/(\\d{2})/(\\d{2})");
    let found = captures(pattern.as_str(), href);
    nav_date_from(&found)
}

/// The date that the first canonical link of a page holds; `hrefs` are the
/// `href` values of the page's canonical links.
pub fn page_date_from(hrefs: &Vec<Option<String>>, endpoint: &str) -> (r: Option<String>)
    ensures
        opt_view(r) == page_date_of(opt_texts_view(hrefs@), endpoint@),
{
    if hrefs.len() > 0 {
        match &hrefs[0] {
            Some(href) => extract_nav_date(href.as_str(), endpoint),
            None => None,
        }
    } else {
        None
    }
}

/// The date for which the page `html` of the series `endpoint` was served,
/// read from its canonical link.
pub fn extract_page_date_from_html(html: &str, endpoint: &str) -> (r: Option<String>)
    ensures
        opt_view(r) == page_date_of(
            found_attributes(html@, CANONICAL_LINK@, "href"@),
            endpoint@,
        ),
{
    let hrefs = find_attributes(html, CANONICAL_LINK, "href");
    page_date_from(&hrefs, endpoint)
}

/// The image address that one block of linked data offers, given the
/// members `@type`, `contentUrl` and `url` as they were read.
pub fn linked_image_from(
    kind: &Option<Option<String>>,
    content_url: &Option<Option<String>>,
    url: &Option<Option<String>>,
) -> (r: Option<String>)
    ensures
        opt_view(r) == linked_image_of(
            member_view(*kind),
            member_view(*content_url),
            member_view(*url),
        ),
{
    let is_image = match kind {
        Some(Some(name)) => crate::text::same_text(name.as_str(), "ImageObject"),
        _ => false,
    };
    if !is_image {
        return None;
    }
    let member = match content_url {
        Some(_) => content_url,
        None => url,
    };
    match member {
        Some(Some(text)) => Some(text.clone()),
        _ => Some(String::new()),
    }
}

/// The image of the strip, chosen among what a page offers.
pub fn pick_image(
    linked: &Vec<Option<String>>,
    previews: &Vec<Option<String>>,
    images: &Vec<Option<String>>,
) -> (r: Option<String>)
    ensures
        opt_view(r) == picked_image(
            opt_texts_view(linked@),
            opt_texts_view(previews@),
            opt_texts_view(images@),
        ),
{
    let from_linked = first_containing(linked, ASSETS);
    if from_linked.is_some() {
        return from_linked;
    }
    if previews.len() > 0 {
        match &previews[0] {
            Some(content) => {
                if contains(content.as_str(), ASSETS) {
                    return Some(content.clone());
                }
            },
            None => {},
        }
    }
    first_containing(images, ASSETS)
}

/// The image of the strip on the page `html`.
pub fn extract_image_url(html: &str) -> (r: Option<String>)
    ensures
        opt_view(r) == page_image(html@),
{
    let scripts = find_inner_html(html, LINKED_DATA);
    let mut linked: Vec<Option<String>> = Vec::new();
    let mut i: usize = 0;
    while i < scripts.len()
        invariant
            i <= scripts@.len(),
            texts_view(scripts@) == found_inner_html(html@, LINKED_DATA@),
            linked@.len() == i,
            forall|j: int|
                0 <= j < i ==> opt_view(#[trigger] linked@[j]) == linked_image(scripts@[j]@),
        decreases scripts@.len() - i,
    {
        let raw = scripts[i].as_str();
        let kind = read_json_member(raw, "@type");
        let content_url = read_json_member(raw, "contentUrl");
        let url = read_json_member(raw, "url");
        linked.push(linked_image_from(&kind, &content_url, &url));
        i += 1;
    }
    let previews = find_attributes(html, PREVIEW_IMAGE, "content");
    let images = find_attributes(html, "img", "src");
    proof {
        let ghost found = found_inner_html(html@, LINKED_DATA@);
        assert(opt_texts_view(linked@) =~= Seq::new(found.len(), |i: int| linked_image(found[i])))
            by {
            assert forall|j: int| 0 <= j < found.len() implies opt_texts_view(linked@)[j]
                == linked_image(found[j]) by {
                assert(found[j] == texts_view(scripts@)[j]);
            }
        }
    }
    pick_image(&linked, &previews, &images)
}

/// The strip of a page whose image is `image`.
pub fn strip_from_image(image: Option<String>, endpoint: &str, date_str: &str, title: &str) -> (r:
    Option<ComicStrip>)
    ensures
        opt_strip_view(r) == page_strip(opt_view(image), endpoint@, date_str@, title@),
{
    match image {
        Some(address) => Some(
            ComicStrip {
                endpoint: String::from_str(endpoint),
                title: String::from_str(title),
                date: String::from_str(date_str),
                image_url: text_before(address.as_str(), "?"),
                source_url: join3(BASE_URL, "/", endpoint),
                prev_date: None,
                next_date: None,
            },
        ),
        None => None,
    }
}

/// The strip that the page `html` shows, filed under `date_str`; `None`
/// where the page shows no strip image.
pub fn parse_comic_page(html: &str, endpoint: &str, date_str: &str, title: &str) -> (r: Option<
    ComicStrip,
>)
    ensures
        opt_strip_view(r) == page_strip(page_image(html@), endpoint@, date_str@, title@),
{
    let image = extract_image_url(html);
    strip_from_image(image, endpoint, date_str, title)
}

} // verus!
