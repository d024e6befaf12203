//! The records that the service hands around: series descriptors and strips.

use vstd::prelude::*;
use crate::text::{lines_view, same_text};
use vstd::string::StringExecFns;

verus! {

/// The view of an optional text.
pub open spec fn opt_view(o: Option<String>) -> Option<Seq<char>> {
    match o {
        Some(s) => Some(s@),
        None => None,
    }
}

/// A copy of an optional text.
pub fn clone_opt(o: &Option<String>) -> (r: Option<String>)
    ensures
        opt_view(r) == opt_view(*o),
{
    match o {
        Some(s) => Some(s.clone()),
        None => None,
    }
}

/// Static metadata of one comic series.
#[derive(Debug, Clone)]
pub struct Comic {
    pub endpoint: String,
    pub title: String,
    pub author: Option<String>,
    pub available: bool,
    pub start_date: Option<String>,
    pub source: String,
}

/// A series descriptor as plain values.
pub struct ComicView {
    pub endpoint: Seq<char>,
    pub title: Seq<char>,
    pub author: Option<Seq<char>>,
    pub available: bool,
    pub start_date: Option<Seq<char>>,
    pub source: Seq<char>,
}

impl View for Comic {
    type V = ComicView;

    open spec fn view(&self) -> ComicView {
        ComicView {
            endpoint: self.endpoint@,
            title: self.title@,
            author: opt_view(self.author),
            available: self.available,
            start_date: opt_view(self.start_date),
            source: self.source@,
        }
    }
}

impl Comic {
    /// A copy that holds the same values.
    pub fn duplicate(&self) -> (r: Comic)
        ensures
            r@ == self@,
    {
        Comic {
            endpoint: self.endpoint.clone(),
            title: self.title.clone(),
            author: clone_opt(&self.author),
            available: self.available,
            start_date: clone_opt(&self.start_date),
            source: self.source.clone(),
        }
    }
}

/// The name of the source that owns a series which names none.
pub fn default_source() -> (r: String)
    ensures
        r@ == "gocomics"@,
{
    String::from_str("gocomics")
}

/// Whether `comics` lists the series `endpoint` as one of the source
/// `source`.
pub open spec fn lists(comics: Seq<Comic>, endpoint: Seq<char>, source: Seq<char>) -> bool {
    exists|i: int|
        0 <= i < comics.len() && (#[trigger] comics[i]).endpoint@ == endpoint && comics[i].source@
            == source
}

/// The title of the series `endpoint`: that of the first descriptor with
/// this endpoint, and the endpoint itself where there is none.
pub open spec fn title_of(comics: Seq<Comic>, endpoint: Seq<char>) -> Seq<char>
    decreases comics.len(),
{
    if comics.len() == 0 {
        endpoint
    } else if comics[0].endpoint@ == endpoint {
        comics[0].title@
    } else {
        title_of(comics.drop_first(), endpoint)
    }
}

/// Whether `comics` lists the series `endpoint` as one of the source
/// `source`.
pub fn is_listed(comics: &Vec<Comic>, endpoint: &str, source: &str) -> (r: bool)
    ensures
        r == lists(comics@, endpoint@, source@),
{
    let mut i: usize = 0;
    while i < comics.len()
        invariant
            i <= comics@.len(),
            forall|j: int|
                0 <= j < i ==> !((#[trigger] comics@[j]).endpoint@ == endpoint@
                    && comics@[j].source@ == source@),
        decreases comics@.len() - i,
    {
        if same_text(comics[i].endpoint.as_str(), endpoint) && same_text(
            comics[i].source.as_str(),
            source,
        ) {
            return true;
        }
        i += 1;
    }
    false
}

/// The title of the series `endpoint`.
pub fn find_title<'a>(comics: &'a Vec<Comic>, endpoint: &'a str) -> (r: &'a str)
    ensures
        r@ == title_of(comics@, endpoint@),
{
    let mut i: usize = 0;
    assert(comics@.skip(0) =~= comics@);
    while i < comics.len()
        invariant
            i <= comics@.len(),
            title_of(comics@, endpoint@) == title_of(comics@.skip(i as int), endpoint@),
        decreases comics@.len() - i,
    {
        assert(comics@.skip(i as int)[0] == comics@[i as int]);
        assert(comics@.skip(i as int).drop_first() =~= comics@.skip(i + 1));
        if same_text(comics[i].endpoint.as_str(), endpoint) {
            return comics[i].title.as_str();
        }
        i += 1;
    }
    endpoint
}

/// One installment of a series, in the shape every source delivers.
///
/// `date` is the identifier: a calendar date `YYYY-MM-DD`, or `#` and a
/// number for the sources that count their strips.
#[derive(Debug, Clone)]
pub struct ComicStrip {
    pub endpoint: String,
    pub title: String,
    pub date: String,
    pub image_url: String,
    pub source_url: String,
    pub prev_date: Option<String>,
    pub next_date: Option<String>,
}

/// What a strip holds, as plain values.
pub struct StripView {
    pub endpoint: Seq<char>,
    pub title: Seq<char>,
    pub date: Seq<char>,
    pub image_url: Seq<char>,
    pub source_url: Seq<char>,
    pub prev_date: Option<Seq<char>>,
    pub next_date: Option<Seq<char>>,
}

impl View for ComicStrip {
    type V = StripView;

    open spec fn view(&self) -> StripView {
        StripView {
            endpoint: self.endpoint@,
            title: self.title@,
            date: self.date@,
            image_url: self.image_url@,
            source_url: self.source_url@,
            prev_date: opt_view(self.prev_date),
            next_date: opt_view(self.next_date),
        }
    }
}

impl ComicStrip {
    /// A copy that holds the same values.
    pub fn duplicate(&self) -> (r: ComicStrip)
        ensures
            r@ == self@,
    {
        ComicStrip {
            endpoint: self.endpoint.clone(),
            title: self.title.clone(),
            date: self.date.clone(),
            image_url: self.image_url.clone(),
            source_url: self.source_url.clone(),
            prev_date: clone_opt(&self.prev_date),
            next_date: clone_opt(&self.next_date),
        }
    }
}

/// The view of an optional strip.
pub open spec fn opt_strip_view(o: Option<ComicStrip>) -> Option<StripView> {
    match o {
        Some(s) => Some(s@),
        None => None,
    }
}

/// A series together with its tags.
#[derive(Debug, Clone)]
pub struct ComicWithTags {
    pub comic: Comic,
    pub tags: Vec<String>,
}

/// A series with its tags as plain values.
pub struct TaggedView {
    pub comic: ComicView,
    pub tags: Seq<Seq<char>>,
}

impl View for ComicWithTags {
    type V = TaggedView;

    open spec fn view(&self) -> TaggedView {
        TaggedView { comic: self.comic@, tags: lines_view(self.tags@) }
    }
}

} // verus!
