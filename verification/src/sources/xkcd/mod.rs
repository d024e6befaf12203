//! The numbered provider with a JSON endpoint: each comic is described by
//! the document at `/<number>/info.0.json`, the newest by `/info.0.json`.
//!
//! A document is fetched as any page is, under the same policy of retries;
//! a provider that cannot be had is a miss, not an error.

use crate::cache::{cache_key, strip_key, Caches};
use crate::chance::draw;
use crate::error::{ErrorKind, ErrorView, PanelsError};
use crate::http_client::{is_pool_agent, plain_request, random_user_agent, PageRequest};
use crate::models::{ComicStrip, StripView};
use crate::sources::numbered::{
    number_of, number_tag, predecessor, successor, tag_of, tagged_number,
};
use crate::sources::{
    served_or, step_view, stray_reply, stray_reply_error, ComicSource, ImageRequest, Pending,
    PendingView, Reply, Step, StepView,
};
use crate::text::{decimal, decimal_text, join2, join3, same_text};
use vstd::prelude::*;
use vstd::string::StringExecFns;

verus! {

/// The endpoint of the one series of this provider.
pub const ENDPOINT: &'static str = "xkcd";

/// The address of the document that describes the newest comic.
pub const LATEST_URL: &'static str = "https://xkcd.com/info.0.json";

/// The key under which the newest comic is cached.
pub const LATEST_KEY: &'static str = "xkcd:latest";

/// The number that names no comic.
pub const MISSING_NUMBER: u32 = 404;

/// How many more attempts follow a failed first one.
pub const RETRIES: u32 = 2;

/// How long one attempt may take, in milliseconds.
pub const TIMEOUT_MS: u64 = 15000;

/// What decoding a document gave: the comic, or the decoder's word on why
/// there is none.
pub type XkcdDocument = Result<XkcdComic, String>;

/// A comic as the provider's JSON describes it.
#[derive(Debug)]
pub struct XkcdComic {
    pub num: u32,
    pub title: String,
    pub img: String,
}

/// What the fetch of a comic's JSON document came to.
pub enum XkcdReply {
    /// The fetch ended in a hard error: an answer that claimed success had a
    /// body that could not be read.
    Failed(PanelsError),
    /// The fetch ended in a miss: the document is not there, or the provider
    /// could not be had within the attempts allowed.
    Missed,
    /// The document came and describes this comic.
    Decoded(XkcdComic),
    /// The document came and could not be decoded; the text is the decoder's
    /// word on why.
    Garbled(String),
}

/// The strip that the comic `num` with title `title` and image `img` is.
pub open spec fn comic_strip(num: u32, title: Seq<char>, img: Seq<char>) -> StripView {
    StripView {
        endpoint: ENDPOINT@,
        title,
        date: number_tag(num as nat),
        image_url: img,
        source_url: "https://xkcd.com/"@ + decimal(num as nat) + "/"@,
        prev_date: match predecessor(num as nat) {
            Some(p) => Some(number_tag(p)),
            None => None,
        },
        next_date: Some(number_tag(successor(num as nat))),
    }
}

/// The address of the document that describes comic `num`.
pub open spec fn comic_url(num: u32) -> Seq<char> {
    "https://xkcd.com/"@ + decimal(num as nat) + "/info.0.json"@
}

/// The key under which comic `num` is cached.
pub open spec fn number_key(num: u32) -> Seq<char> {
    cache_key(ENDPOINT@, number_tag(num as nat))
}

/// The detail of the error for an identifier that is no number.
pub open spec fn not_a_number(date: Seq<char>) -> Seq<char> {
    "xkcd uses comic numbers (e.g. #123), not dates. Got: "@ + date
}

/// The error for a document that could not be decoded.
pub open spec fn garbled(why: Seq<char>) -> ErrorView {
    ErrorView { kind: ErrorKind::ScrapeFailed, detail: "failed to parse xkcd JSON: "@ + why }
}

/// What a reply comes to: the comic, a miss, or an error.
///
/// A provider that could not be had is a miss, like a document that is not
/// there. Only a document that came and cannot be used is an error: one
/// whose body could not be read, or could not be decoded.
pub open spec fn reply_outcome(reply: XkcdReply) -> Result<Option<XkcdComic>, ErrorView> {
    match reply {
        XkcdReply::Failed(e) => Err(e@),
        XkcdReply::Missed => Ok(None),
        XkcdReply::Decoded(comic) => Ok(Some(comic)),
        XkcdReply::Garbled(why) => Err(garbled(why@)),
    }
}

/// The number that a draw `k` from `1..=max - 1` stands for when the
/// missing number is left out of `1..=max`: the draws from the missing
/// number on stand for the number after them.
pub open spec fn drawn_number(k: u32, max: u32) -> u32 {
    if max >= MISSING_NUMBER && k >= MISSING_NUMBER {
        (k + 1) as u32
    } else {
        k
    }
}

impl XkcdComic {
    /// The comic as a strip: numbered neighbours, none before the first.
    pub fn to_strip(&self) -> (r: ComicStrip)
        ensures
            r@ == comic_strip(self.num, self.title@, self.img@),
    {
        let number = decimal_text(self.num as u64);
        ComicStrip {
            endpoint: String::from_str(ENDPOINT),
            title: self.title.clone(),
            date: tag_of(self.num as u64),
            image_url: self.img.clone(),
            source_url: join3("https://xkcd.com/", number.as_str(), "/"),
            prev_date: if self.num > 1 {
                Some(tag_of((self.num - 1) as u64))
            } else {
                None
            },
            next_date: Some(tag_of(self.num as u64 + 1)),
        }
    }
}

/// What a reply comes to: the comic, a miss, or an error.
pub fn read_reply(reply: XkcdReply) -> (r: Result<Option<XkcdComic>, PanelsError>)
    ensures
        match reply_outcome(reply) {
            Ok(found) => r == Ok::<Option<XkcdComic>, PanelsError>(found),
            Err(e) => r matches Err(raised) && raised@ == e,
        },
{
    match reply {
        XkcdReply::Failed(e) => Err(e),
        XkcdReply::Missed => Ok(None),
        XkcdReply::Decoded(comic) => Ok(Some(comic)),
        XkcdReply::Garbled(why) => Err(
            PanelsError::ScrapeFailed(join2("failed to parse xkcd JSON: ", why.as_str())),
        ),
    }
}

/// What the fetch client's result comes to as a reply, given what decoding
/// the body gave where a page came: a hard error and a miss are passed on,
/// and nothing is decoded for them.
pub fn reply_from(
    fetched: Result<Option<XkcdDocument>, PanelsError>,
) -> (r: XkcdReply)
    ensures
        r == match fetched {
            Err(e) => XkcdReply::Failed(e),
            Ok(None) => XkcdReply::Missed,
            Ok(Some(Ok(comic))) => XkcdReply::Decoded(comic),
            Ok(Some(Err(why))) => XkcdReply::Garbled(why),
        },
{
    match fetched {
        Err(e) => XkcdReply::Failed(e),
        Ok(None) => XkcdReply::Missed,
        Ok(Some(Ok(comic))) => XkcdReply::Decoded(comic),
        Ok(Some(Err(why))) => XkcdReply::Garbled(why),
    }
}

/// The number that a draw `k` from `1..=max - 1` stands for when the
/// missing number is left out of `1..=max`.
pub fn number_for_draw(k: u32, max: u32) -> (r: u32)
    requires
        1 <= k,
        k <= max,
        max >= MISSING_NUMBER ==> k < max,
    ensures
        r == drawn_number(k, max),
        1 <= r <= max,
        r != MISSING_NUMBER,
{
    if max >= MISSING_NUMBER && k >= MISSING_NUMBER {
        k + 1
    } else {
        k
    }
}

/// A number drawn from `1..=max` without the missing number, each with the
/// same chance; `None` where that leaves no number.
pub fn random_number(max: u32) -> (r: Option<u32>)
    ensures
        match r {
            Some(n) => 1 <= n <= max && n != MISSING_NUMBER,
            None => max == 0,
        },
{
    if max == 0 {
        None
    } else if max >= MISSING_NUMBER {
        let k = draw(1, (max - 1) as u64) as u32;
        Some(number_for_draw(k, max))
    } else {
        let k = draw(1, max as u64) as u32;
        Some(number_for_draw(k, max))
    }
}

/// Whether `step` begins the fetch of comic `num` against a cache in which
/// `written` was stored: the cached strip, or a request for the comic's
/// document.
pub open spec fn begins_number(
    written: Map<Seq<char>, StripView>,
    step: Result<StepView, ErrorView>,
    num: u32,
) -> bool {
    match step {
        Ok(StepView::Done(found)) => found matches Some(strip) && written.contains_key(
            number_key(num),
        ) && written[number_key(num)] == strip,
        Ok(StepView::FetchJson(request, pending)) => request == plain_request(
            comic_url(num),
            RETRIES,
            TIMEOUT_MS,
        ) && pending == (PendingView::XkcdNumber { num }),
        _ => false,
    }
}

/// Whether `step` begins the fetch of the newest comic.
pub open spec fn begins_latest(
    written: Map<Seq<char>, StripView>,
    step: Result<StepView, ErrorView>,
) -> bool {
    match step {
        Ok(StepView::Done(found)) => found matches Some(strip) && written.contains_key(
            LATEST_KEY@,
        ) && written[LATEST_KEY@] == strip,
        Ok(StepView::FetchJson(request, pending)) => request == plain_request(
            LATEST_URL@,
            RETRIES,
            TIMEOUT_MS,
        ) && pending == PendingView::XkcdLatest,
        _ => false,
    }
}

/// Whether `step` and the cache after it end the fetch of comic `num` with
/// `reply`: an error or a miss leaves the cache alone; a comic is returned
/// as a strip and cached under the number that was asked for.
pub open spec fn ends_number(
    before: Map<Seq<char>, StripView>,
    after: Map<Seq<char>, StripView>,
    step: Result<StepView, ErrorView>,
    num: u32,
    reply: XkcdReply,
) -> bool {
    match reply_outcome(reply) {
        Err(e) => step == Err::<StepView, ErrorView>(e) && after == before,
        Ok(None) => step == Ok::<StepView, ErrorView>(StepView::Done(None)) && after == before,
        Ok(Some(comic)) => {
            let strip = comic_strip(comic.num, comic.title@, comic.img@);
            &&& step == Ok::<StepView, ErrorView>(StepView::Done(Some(strip)))
            &&& after == before.insert(number_key(num), strip)
        },
    }
}

/// Whether `step` and the cache after it end the fetch of the newest comic
/// with `reply`: a comic is cached as the newest and under its own number.
pub open spec fn ends_latest(
    before: Map<Seq<char>, StripView>,
    after: Map<Seq<char>, StripView>,
    step: Result<StepView, ErrorView>,
    reply: XkcdReply,
) -> bool {
    match reply_outcome(reply) {
        Err(e) => step == Err::<StepView, ErrorView>(e) && after == before,
        Ok(None) => step == Ok::<StepView, ErrorView>(StepView::Done(None)) && after == before,
        Ok(Some(comic)) => {
            let strip = comic_strip(comic.num, comic.title@, comic.img@);
            &&& step == Ok::<StepView, ErrorView>(StepView::Done(Some(strip)))
            &&& after == before.insert(LATEST_KEY@, strip).insert(number_key(comic.num), strip)
        },
    }
}

/// Whether `step` goes on with a random fetch after `reply` told the newest
/// comic: it begins the fetch of some comic from 1 to the newest that is not
/// the missing one, or is a miss where there is no such number.
pub open spec fn continues_random(
    written: Map<Seq<char>, StripView>,
    step: Result<StepView, ErrorView>,
    reply: XkcdReply,
) -> bool {
    match reply_outcome(reply) {
        Err(e) => step == Err::<StepView, ErrorView>(e),
        Ok(None) => step == Ok::<StepView, ErrorView>(StepView::Done(None)),
        Ok(Some(newest)) => if newest.num == 0 {
            step == Ok::<StepView, ErrorView>(StepView::Done(None))
        } else {
            exists|n: u32|
                1 <= n <= newest.num && n != MISSING_NUMBER && #[trigger] begins_number(
                    written,
                    step,
                    n,
                )
        },
    }
}

/// The numbered provider.
pub struct XkcdSource {}

impl XkcdSource {
    /// The source. It holds nothing of its own: the cache is handed to each
    /// operation, and the network is the caller's.
    pub fn new() -> (r: Self) {
        XkcdSource {  }
    }

    /// Begins to fetch comic `num`: the cached strip where the cache holds
    /// one, else a request for the comic's document.
    pub fn fetch_by_number(&self, caches: &mut Caches, num: u32) -> (r: Result<Step, PanelsError>)
        ensures
            final(caches).written() == old(caches).written(),
            begins_number(old(caches).written(), step_view(r), num),
    {
        let key = strip_key(ENDPOINT, tag_of(num as u64).as_str());
        let number = decimal_text(num as u64);
        let url = join3("https://xkcd.com/", number.as_str(), "/info.0.json");
        Ok(
            served_or(
                caches.get(key.as_str()),
                Step::FetchJson(
                    PageRequest::new(url, RETRIES, TIMEOUT_MS),
                    Pending::XkcdNumber { num },
                ),
            ),
        )
    }

    /// Ends the fetch of comic `num` with what the provider said: the strip
    /// is cached under the number that was asked for.
    pub fn finish_number(&self, caches: &mut Caches, num: u32, reply: XkcdReply) -> (r: Result<
        Step,
        PanelsError,
    >)
        ensures
            ends_number(
                old(caches).written(),
                final(caches).written(),
                step_view(r),
                num,
                reply,
            ),
    {
        match read_reply(reply) {
            Err(e) => Err(e),
            Ok(None) => Ok(Step::Done(None)),
            Ok(Some(comic)) => {
                let strip = comic.to_strip();
                let key = strip_key(ENDPOINT, tag_of(num as u64).as_str());
                caches.put(key, strip.duplicate());
                Ok(Step::Done(Some(strip)))
            },
        }
    }

    /// Ends the fetch of the newest comic: the strip is cached as the newest
    /// and under its own number.
    pub fn finish_latest(&self, caches: &mut Caches, reply: XkcdReply) -> (r: Result<
        Step,
        PanelsError,
    >)
        ensures
            ends_latest(old(caches).written(), final(caches).written(), step_view(r), reply),
    {
        match read_reply(reply) {
            Err(e) => Err(e),
            Ok(None) => Ok(Step::Done(None)),
            Ok(Some(comic)) => {
                let strip = comic.to_strip();
                caches.put(String::from_str(LATEST_KEY), strip.duplicate());
                let key = strip_key(ENDPOINT, tag_of(comic.num as u64).as_str());
                caches.put(key, strip.duplicate());
                Ok(Step::Done(Some(strip)))
            },
        }
    }

    /// Goes on with a random fetch once the newest comic is known: draws a
    /// number from 1 to the newest, never the missing one, and begins to
    /// fetch that comic.
    pub fn finish_random(&self, caches: &mut Caches, reply: XkcdReply) -> (r: Result<
        Step,
        PanelsError,
    >)
        ensures
            final(caches).written() == old(caches).written(),
            continues_random(old(caches).written(), step_view(r), reply),
    {
        match read_reply(reply) {
            Err(e) => Err(e),
            Ok(None) => Ok(Step::Done(None)),
            Ok(Some(newest)) => match random_number(newest.num) {
                Some(n) => self.fetch_by_number(caches, n),
                None => Ok(Step::Done(None)),
            },
        }
    }
}

impl ComicSource for XkcdSource {
    open spec fn claims(&self, endpoint: Seq<char>) -> bool {
        endpoint == ENDPOINT@
    }

    fn handles(&self, endpoint: &str) -> (r: bool) {
        same_text(endpoint, ENDPOINT)
    }

    /// Begins to fetch the comic that `date` names; an identifier that names
    /// no number is refused before anything is fetched.
    fn fetch_strip(&self, caches: &mut Caches, endpoint: &str, date: &str) -> (r: Result<
        Step,
        PanelsError,
    >)
        ensures
            final(caches).written() == old(caches).written(),
            match tagged_number(date@) {
                Some(num) => begins_number(old(caches).written(), step_view(r), num),
                None => step_view(r) == Err::<StepView, ErrorView>(
                    ErrorView { kind: ErrorKind::InvalidParam, detail: not_a_number(date@) },
                ),
            },
    {
        match number_of(date) {
            Some(num) => self.fetch_by_number(caches, num),
            None => Err(
                PanelsError::InvalidParam(
                    join2("xkcd uses comic numbers (e.g. #123), not dates. Got: ", date),
                ),
            ),
        }
    }

    /// Begins to fetch the newest comic: the cached one where the cache
    /// holds it, else a request for the newest comic's document.
    fn fetch_latest(&self, caches: &mut Caches, endpoint: &str) -> (r: Result<Step, PanelsError>)
        ensures
            final(caches).written() == old(caches).written(),
            begins_latest(old(caches).written(), step_view(r)),
    {
        Ok(
            served_or(
                caches.get(LATEST_KEY),
                Step::FetchJson(
                    PageRequest::new(String::from_str(LATEST_URL), RETRIES, TIMEOUT_MS),
                    Pending::XkcdLatest,
                ),
            ),
        )
    }

    /// Begins a random fetch: asks for the newest comic, past the cache.
    fn fetch_random(&self, caches: &mut Caches, endpoint: &str) -> (r: Result<Step, PanelsError>)
        ensures
            final(caches).written() == old(caches).written(),
            step_view(r) == Ok::<StepView, ErrorView>(
                StepView::FetchJson(
                    plain_request(LATEST_URL@, RETRIES, TIMEOUT_MS),
                    PendingView::XkcdRandom,
                ),
            ),
    {
        Ok(
            Step::FetchJson(
                PageRequest::new(String::from_str(LATEST_URL), RETRIES, TIMEOUT_MS),
                Pending::XkcdRandom,
            ),
        )
    }

    /// Goes on where `pending` left off. A reply that this source did not
    /// ask for is an internal error, and leaves the cache as it was.
    fn resume(&self, caches: &mut Caches, pending: Pending, reply: Reply) -> (r: Result<
        Step,
        PanelsError,
    >)
        ensures
            match (pending, reply) {
                (Pending::XkcdNumber { num }, Reply::Json(answer)) => ends_number(
                    old(caches).written(),
                    final(caches).written(),
                    step_view(r),
                    num,
                    answer,
                ),
                (Pending::XkcdLatest, Reply::Json(answer)) => ends_latest(
                    old(caches).written(),
                    final(caches).written(),
                    step_view(r),
                    answer,
                ),
                (Pending::XkcdRandom, Reply::Json(answer)) => {
                    &&& final(caches).written() == old(caches).written()
                    &&& continues_random(old(caches).written(), step_view(r), answer)
                },
                _ => {
                    &&& step_view(r) == Err::<StepView, ErrorView>(stray_reply())
                    &&& final(caches).written() == old(caches).written()
                },
            },
    {
        match reply {
            Reply::Json(answer) => match pending {
                Pending::XkcdNumber { num } => self.finish_number(caches, num, answer),
                Pending::XkcdLatest => self.finish_latest(caches, answer),
                Pending::XkcdRandom => self.finish_random(caches, answer),
                _ => Err(stray_reply_error()),
            },
            _ => Err(stray_reply_error()),
        }
    }

    /// Images are asked for with a client identity of the pool and no
    /// referer; an answer without a content type counts as a PNG.
    fn proxy_image(&self, image_url: &str) -> (r: ImageRequest)
        ensures
            r.url@ == image_url@,
            is_pool_agent(r.user_agent@),
            r.referer is None,
            r.fallback_content_type@ == "image/png"@,
    {
        ImageRequest {
            url: String::from_str(image_url),
            user_agent: random_user_agent(),
            referer: None,
            fallback_content_type: "image/png",
        }
    }
}

/// The identifiers of a strip and of its neighbours name the numbers around
/// the strip's own: the one before it lies below and the one after it lies
/// above, and only the first comic has none before it.
pub proof fn lemma_strip_lies_between_its_neighbours(num: u32, title: Seq<char>, img: Seq<char>)
    requires
        1 <= num < u32::MAX,
    ensures
        ({
            let strip = comic_strip(num, title, img);
            &&& tagged_number(strip.date) == Some(num)
            &&& strip.prev_date is None <==> num == 1
            &&& strip.prev_date matches Some(before) ==> tagged_number(before) == Some(
                (num - 1) as u32,
            )
            &&& strip.next_date matches Some(after) && tagged_number(after) == Some(
                (num + 1) as u32,
            )
        }),
{
    crate::sources::numbered::lemma_tag_names_its_number(num);
    crate::sources::numbered::lemma_tag_names_its_number((num + 1) as u32);
    if num > 1 {
        crate::sources::numbered::lemma_tag_names_its_number((num - 1) as u32);
    }
}

} // verus!
