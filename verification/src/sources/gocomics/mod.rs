//! The gallery provider: strips addressed by calendar date.
//!
//! The provider corrects a date it has no strip for by a redirect, so the
//! strip that comes back may carry another date than the one asked for. The
//! date that was served is read from the address the page came from, or else
//! from the page's canonical link.

pub mod scraper;

use crate::cache::{cache_key, strip_key, Caches};
use crate::calendar::{parse_ymd, parsed_ymd, today, CalendarDate};
use crate::chance::draw;
use crate::error::{ErrorKind, ErrorView, PanelsError};
use crate::http_client::{
    is_pool_agent, plain_request, random_user_agent, PageRequest, PageResponse,
};
use crate::markup::found_attributes;
use crate::models::{find_title, is_listed, lists, title_of, Comic, StripView};
use crate::pattern::first_match;
use crate::sources::gocomics::scraper::{
    extract_nav_date, extract_page_date_from_html, nav_date_of, nav_pattern, page_date_of,
    page_image, page_strip, parse_comic_page, BASE_URL, CANONICAL_LINK,
};
use crate::sources::{
    ends_page_fetch, ends_with_page, served_or, step_view, stray_reply, stray_reply_error,
    ComicSource, ImageRequest, Pending, PendingView, Reply, Step, StepView,
};
use crate::text::{join2, join3, replace_char, replaced_char};
use vstd::prelude::*;
use vstd::string::StringExecFns;

verus! {

/// The name by which series descriptors point at this source.
pub const SOURCE_NAME: &'static str = "gocomics";

/// How many more attempts follow a failed first one.
pub const RETRIES: u32 = 1;

/// How long one attempt may take, in milliseconds.
pub const TIMEOUT_MS: u64 = 12000;

/// How many days back from today a random strip may lie: five years of 365
/// days.
pub const RANDOM_SPAN_DAYS: u64 = 1825;

/// The address of the page of the strip `date` of `endpoint`: the date's
/// parts become path segments.
pub open spec fn strip_url(endpoint: Seq<char>, date: Seq<char>) -> Seq<char> {
    BASE_URL@ + "/"@ + endpoint + "/"@ + replaced_char(date, '-', '/')
}

/// The address of the front page of `endpoint`.
pub open spec fn front_url(endpoint: Seq<char>) -> Seq<char> {
    BASE_URL@ + "/"@ + endpoint
}

/// The detail of the error for an identifier that is no date.
pub open spec fn not_a_date(date: Seq<char>) -> Seq<char> {
    "invalid date format: "@ + date
}

/// The date for which a page was served: the one in the address it came
/// from; else the one in its canonical link; else `fallback`.
pub open spec fn served_date(
    final_url: Seq<char>,
    html: Seq<char>,
    endpoint: Seq<char>,
    fallback: Seq<char>,
) -> Seq<char> {
    match nav_date_of(first_match(nav_pattern(endpoint), final_url)) {
        Some(date) => date,
        None => match page_date_of(found_attributes(html, CANONICAL_LINK@, "href"@), endpoint) {
            Some(date) => date,
            None => fallback,
        },
    }
}

/// The strip that a fetched page shows, filed under the date it was served
/// for.
pub open spec fn served_strip(
    final_url: Seq<char>,
    html: Seq<char>,
    endpoint: Seq<char>,
    fallback: Seq<char>,
    title: Seq<char>,
) -> Option<StripView> {
    page_strip(page_image(html), endpoint, served_date(final_url, html, endpoint, fallback), title)
}

/// Whether `step` begins the fetch of the strip `date` of `endpoint` against
/// a cache in which `written` was stored: the cached strip, or a request for
/// the strip's page.
pub open spec fn begins_strip(
    written: Map<Seq<char>, StripView>,
    step: Result<StepView, ErrorView>,
    endpoint: Seq<char>,
    date: Seq<char>,
) -> bool {
    match step {
        Ok(StepView::Done(found)) => found matches Some(strip) && written.contains_key(
            cache_key(endpoint, date),
        ) && written[cache_key(endpoint, date)] == strip,
        Ok(StepView::FetchPage(request, pending)) => request == plain_request(
            strip_url(endpoint, date),
            RETRIES,
            TIMEOUT_MS,
        ) && pending == (PendingView::GalleryStrip { endpoint, date }),
        _ => false,
    }
}

/// Whether `step` and the cache after it end the fetch of a front page on
/// the day `today`: `today` is a day of the calendar, and the page that came
/// is filed under the date it was served for, or under the date of `today`
/// where it names none.
pub open spec fn ends_front_page(
    before: Map<Seq<char>, StripView>,
    after: Map<Seq<char>, StripView>,
    step: Result<StepView, ErrorView>,
    fetched: Result<Option<PageResponse>, PanelsError>,
    endpoint: Seq<char>,
    title: Seq<char>,
    today: CalendarDate,
) -> bool {
    &&& today.is_valid()
    &&& ends_page_fetch(
        before,
        after,
        step,
        fetched,
        replied_strip(fetched, endpoint, today.iso(), title),
    )
}

/// Whether `step` begins the fetch of the strip of the day that lies `back`
/// days before `today`: `today` is a day of the calendar, `back` is less
/// than the span of a random fetch, and the fetch begins as a fetch by the
/// date of that day does.
pub open spec fn begins_drawn(
    written: Map<Seq<char>, StripView>,
    step: Result<StepView, ErrorView>,
    endpoint: Seq<char>,
    today: CalendarDate,
    back: nat,
) -> bool {
    &&& today.is_valid()
    &&& back < RANDOM_SPAN_DAYS
    &&& begins_strip(written, step, endpoint, today.earlier(back).iso())
}

/// The strip that the page of a reply shows, if the reply brought a page.
pub open spec fn replied_strip(
    fetched: Result<Option<PageResponse>, PanelsError>,
    endpoint: Seq<char>,
    fallback: Seq<char>,
    title: Seq<char>,
) -> Option<StripView> {
    match fetched {
        Ok(Some(page)) => served_strip(page.final_url@, page.html@, endpoint, fallback, title),
        _ => None,
    }
}

/// The gallery provider, with the series it serves.
pub struct GoComicsSource {
    comics: Vec<Comic>,
}

impl GoComicsSource {
    /// The series descriptors that the source was made with.
    pub closed spec fn comics(&self) -> Seq<Comic> {
        self.comics@
    }

    /// A source that serves the series that `comics` lists as its own, and
    /// looks titles up there.
    pub fn new(comics: Vec<Comic>) -> (r: Self)
        ensures
            r.comics() == comics@,
    {
        GoComicsSource { comics }
    }

    /// Begins to fetch the strip `date_str` of `endpoint`: the cached strip
    /// where the cache holds one, else a request for the strip's page.
    pub fn fetch_strip_inner(&self, caches: &mut Caches, endpoint: &str, date_str: &str) -> (r:
        Result<Step, PanelsError>)
        ensures
            final(caches).written() == old(caches).written(),
            begins_strip(old(caches).written(), step_view(r), endpoint@, date_str@),
    {
        let key = strip_key(endpoint, date_str);
        let path = replace_char(date_str, '-', '/');
        let head = join3(BASE_URL, "/", endpoint);
        let url = join3(head.as_str(), "/", path.as_str());
        Ok(
            served_or(
                caches.get(key.as_str()),
                Step::FetchPage(
                    PageRequest::new(url, RETRIES, TIMEOUT_MS),
                    Pending::GalleryStrip {
                        endpoint: String::from_str(endpoint),
                        date: String::from_str(date_str),
                    },
                ),
            ),
        )
    }

    /// The date for which `page` was served.
    pub fn resolve_date(page: &PageResponse, endpoint: &str, fallback: &str) -> (r: String)
        ensures
            r@ == served_date(page.final_url@, page.html@, endpoint@, fallback@),
    {
        match extract_nav_date(page.final_url.as_str(), endpoint) {
            Some(date) => date,
            None => match extract_page_date_from_html(page.html.as_str(), endpoint) {
                Some(date) => date,
                None => String::from_str(fallback),
            },
        }
    }

    /// Ends a fetch with the page that came: reads the strip, files it under
    /// the date the page was served for, and caches it under that date.
    pub fn finish_page(
        &self,
        caches: &mut Caches,
        endpoint: &str,
        fallback: &str,
        page: &PageResponse,
    ) -> (r: Result<Step, PanelsError>)
        ensures
            ends_with_page(
                old(caches).written(),
                final(caches).written(),
                step_view(r),
                served_strip(
                    page.final_url@,
                    page.html@,
                    endpoint@,
                    fallback@,
                    title_of(self.comics(), endpoint@),
                ),
            ),
    {
        let date = Self::resolve_date(page, endpoint, fallback);
        let title = find_title(&self.comics, endpoint);
        let strip = parse_comic_page(page.html.as_str(), endpoint, date.as_str(), title);
        match strip {
            Some(found) => {
                let key = strip_key(endpoint, found.date.as_str());
                caches.put(key, found.duplicate());
                Ok(Step::Done(Some(found)))
            },
            None => Ok(Step::Done(None)),
        }
    }
}

impl ComicSource for GoComicsSource {
    open spec fn claims(&self, endpoint: Seq<char>) -> bool {
        lists(self.comics(), endpoint, SOURCE_NAME@)
    }

    fn handles(&self, endpoint: &str) -> (r: bool) {
        is_listed(&self.comics, endpoint, SOURCE_NAME)
    }

    /// Begins to fetch the strip `date` of `endpoint`. A `date` that is no
    /// calendar date is refused before the cache or the network is looked
    /// at.
    fn fetch_strip(&self, caches: &mut Caches, endpoint: &str, date: &str) -> (r: Result<
        Step,
        PanelsError,
    >)
        ensures
            final(caches).written() == old(caches).written(),
            match parsed_ymd(date@) {
                Some(day) => begins_strip(old(caches).written(), step_view(r), endpoint@, date@),
                None => step_view(r) == Err::<StepView, ErrorView>(
                    ErrorView { kind: ErrorKind::InvalidDate, detail: not_a_date(date@) },
                ),
            },
    {
        match parse_ymd(date) {
            Some(_) => self.fetch_strip_inner(caches, endpoint, date),
            None => Err(PanelsError::InvalidDate(join2("invalid date format: ", date))),
        }
    }

    /// Begins to fetch the newest strip: asks for the front page of the
    /// series, past the cache.
    fn fetch_latest(&self, caches: &mut Caches, endpoint: &str) -> (r: Result<Step, PanelsError>)
        ensures
            final(caches).written() == old(caches).written(),
            step_view(r) == Ok::<StepView, ErrorView>(
                StepView::FetchPage(
                    plain_request(front_url(endpoint@), RETRIES, TIMEOUT_MS),
                    PendingView::GalleryLatest { endpoint: endpoint@ },
                ),
            ),
    {
        let url = join3(BASE_URL, "/", endpoint);
        Ok(
            Step::FetchPage(
                PageRequest::new(url, RETRIES, TIMEOUT_MS),
                Pending::GalleryLatest { endpoint: String::from_str(endpoint) },
            ),
        )
    }

    /// Begins to fetch the strip of a day drawn from the last five years:
    /// the day lies fewer than `RANDOM_SPAN_DAYS` days before today, and the
    /// fetch begins as a fetch by that date does. Which day today is, the
    /// clock says; how far back the day lies, chance.
    fn fetch_random(&self, caches: &mut Caches, endpoint: &str) -> (r: Result<Step, PanelsError>)
        ensures
            final(caches).written() == old(caches).written(),
            exists|today: CalendarDate, back: nat| #[trigger]
                begins_drawn(old(caches).written(), step_view(r), endpoint@, today, back),
    {
        let back = draw(0, RANDOM_SPAN_DAYS - 1) as u32;
        let now = today();
        let date = now.minus_days(back).iso_text();
        let r = self.fetch_strip_inner(caches, endpoint, date.as_str());
        assert(begins_drawn(old(caches).written(), step_view(r), endpoint@, now, back as nat));
        r
    }

    /// Goes on where `pending` left off. The page of a date is filed under
    /// the date it was served for, with the date asked for as the fallback;
    /// a front page falls back to the date of today, whichever day of the
    /// calendar the clock says that is. A reply that this source did not ask
    /// for is an internal error.
    fn resume(&self, caches: &mut Caches, pending: Pending, reply: Reply) -> (r: Result<
        Step,
        PanelsError,
    >)
        ensures
            match (pending, reply) {
                (Pending::GalleryStrip { endpoint, date }, Reply::Page(fetched)) => ends_page_fetch(
                    old(caches).written(),
                    final(caches).written(),
                    step_view(r),
                    fetched,
                    replied_strip(fetched, endpoint@, date@, title_of(self.comics(), endpoint@)),
                ),
                (Pending::GalleryLatest { endpoint }, Reply::Page(fetched)) => exists|
                    today: CalendarDate,
                | #[trigger]
                    ends_front_page(
                        old(caches).written(),
                        final(caches).written(),
                        step_view(r),
                        fetched,
                        endpoint@,
                        title_of(self.comics(), endpoint@),
                        today,
                    ),
                _ => {
                    &&& step_view(r) == Err::<StepView, ErrorView>(stray_reply())
                    &&& final(caches).written() == old(caches).written()
                },
            },
    {
        match reply {
            Reply::Page(fetched) => match pending {
                Pending::GalleryStrip { endpoint, date } => match fetched {
                    Err(e) => Err(e),
                    Ok(None) => Ok(Step::Done(None)),
                    Ok(Some(page)) => self.finish_page(
                        caches,
                        endpoint.as_str(),
                        date.as_str(),
                        &page,
                    ),
                },
                Pending::GalleryLatest { endpoint } => {
                    let now = today();
                    let date = now.iso_text();
                    let r = match fetched {
                        Err(e) => Err(e),
                        Ok(None) => Ok(Step::Done(None)),
                        Ok(Some(page)) => self.finish_page(
                            caches,
                            endpoint.as_str(),
                            date.as_str(),
                            &page,
                        ),
                    };
                    assert(ends_front_page(
                        old(caches).written(),
                        caches.written(),
                        step_view(r),
                        fetched,
                        endpoint@,
                        title_of(self.comics(), endpoint@),
                        now,
                    ));
                    r
                },
                _ => Err(stray_reply_error()),
            },
            _ => Err(stray_reply_error()),
        }
    }

    /// Images are asked for with a client identity of the pool and the
    /// provider's own address as the referer; an answer without a content
    /// type counts as a JPEG.
    fn proxy_image(&self, image_url: &str) -> (r: ImageRequest)
        ensures
            r.url@ == image_url@,
            is_pool_agent(r.user_agent@),
            r.referer matches Some(referer) && referer@ == BASE_URL@,
            r.fallback_content_type@ == "image/jpeg"@,
    {
        ImageRequest {
            url: String::from_str(image_url),
            user_agent: random_user_agent(),
            referer: Some(BASE_URL),
            fallback_content_type: "image/jpeg",
        }
    }
}

} // verus!
