//! The sources of strips, and the registry that routes an endpoint to the
//! source that claims it.
//!
//! A source does not touch the network. Where it needs a page, it returns a
//! `Step` that says which, together with a `Pending` that says where it
//! stands; the caller fetches the page and hands the `Reply` to `resume`.

pub mod comicsrss;
pub mod dilbert;
pub mod gocomics;
pub mod numbered;
pub mod phd;
pub mod xkcd;

use crate::cache::{cache_key, Caches};
use crate::error::{ErrorKind, ErrorView, PanelsError};
use crate::http_client::{is_success, status_is_success, PageRequest, PageResponse, RequestView};
use crate::models::{opt_strip_view, ComicStrip, StripView};
use crate::sources::xkcd::XkcdReply;
use crate::text::join2;
use vstd::prelude::*;
use vstd::string::StringExecFns;

verus! {

/// Which strip of a feed is asked for.
pub enum Wanted {
    /// The strip of this date.
    Date(String),
    /// The newest strip.
    Latest,
    /// Any strip.
    Random,
}

/// Where a source stands while the caller fetches for it.
pub enum Pending {
    /// The gallery provider waits for the page of a date.
    GalleryStrip { endpoint: String, date: String },
    /// The gallery provider waits for the front page of a series.
    GalleryLatest { endpoint: String },
    /// The comic with this number was asked for.
    XkcdNumber { num: u32 },
    /// The newest comic was asked for.
    XkcdLatest,
    /// The newest comic was asked for, to learn the range to draw from.
    XkcdRandom,
    /// The page of the comic with this number was asked for.
    PhdNumber { num: u32 },
    /// The index page was asked for, to serve the newest comic.
    PhdLatest,
    /// The index page was asked for, to learn the range to draw from.
    PhdRandom,
    /// The feed of a series was asked for.
    Feed { endpoint: String, wanted: Wanted },
    /// The archive's index was asked for the snapshot of a date.
    ArchiveIndex { date: String },
    /// The archived page of a date was asked for.
    ArchivePage { date: String },
}

/// What the caller brings back.
pub enum Reply {
    /// What a page fetch came to: the page, a miss, or a hard error.
    Page(Result<Option<PageResponse>, PanelsError>),
    /// What the fetch of a comic's JSON document came to.
    Json(XkcdReply),
}

/// What a source says after each step.
pub enum Step {
    /// The operation is over, with this strip or with a miss.
    Done(Option<ComicStrip>),
    /// Fetch this page, then resume with the reply.
    FetchPage(PageRequest, Pending),
    /// Fetch this page as any other, decode its body as the JSON document
    /// of a comic, then resume with what that gave.
    FetchJson(PageRequest, Pending),
}

/// Which strip of a feed is asked for, as plain values.
pub enum WantedView {
    Date(Seq<char>),
    Latest,
    Random,
}

impl View for Wanted {
    type V = WantedView;

    open spec fn view(&self) -> WantedView {
        match self {
            Wanted::Date(d) => WantedView::Date(d@),
            Wanted::Latest => WantedView::Latest,
            Wanted::Random => WantedView::Random,
        }
    }
}

/// Where a source stands, as plain values.
pub enum PendingView {
    GalleryStrip { endpoint: Seq<char>, date: Seq<char> },
    GalleryLatest { endpoint: Seq<char> },
    XkcdNumber { num: u32 },
    XkcdLatest,
    XkcdRandom,
    PhdNumber { num: u32 },
    PhdLatest,
    PhdRandom,
    Feed { endpoint: Seq<char>, wanted: WantedView },
    ArchiveIndex { date: Seq<char> },
    ArchivePage { date: Seq<char> },
}

impl View for Pending {
    type V = PendingView;

    open spec fn view(&self) -> PendingView {
        match self {
            Pending::GalleryStrip { endpoint, date } => PendingView::GalleryStrip {
                endpoint: endpoint@,
                date: date@,
            },
            Pending::GalleryLatest { endpoint } => PendingView::GalleryLatest {
                endpoint: endpoint@,
            },
            Pending::XkcdNumber { num } => PendingView::XkcdNumber { num: *num },
            Pending::XkcdLatest => PendingView::XkcdLatest,
            Pending::XkcdRandom => PendingView::XkcdRandom,
            Pending::PhdNumber { num } => PendingView::PhdNumber { num: *num },
            Pending::PhdLatest => PendingView::PhdLatest,
            Pending::PhdRandom => PendingView::PhdRandom,
            Pending::Feed { endpoint, wanted } => PendingView::Feed {
                endpoint: endpoint@,
                wanted: wanted@,
            },
            Pending::ArchiveIndex { date } => PendingView::ArchiveIndex { date: date@ },
            Pending::ArchivePage { date } => PendingView::ArchivePage { date: date@ },
        }
    }
}

/// A step as plain values.
pub enum StepView {
    Done(Option<StripView>),
    FetchPage(RequestView, PendingView),
    FetchJson(RequestView, PendingView),
}

impl View for Step {
    type V = StepView;

    open spec fn view(&self) -> StepView {
        match self {
            Step::Done(found) => StepView::Done(opt_strip_view(*found)),
            Step::FetchPage(request, pending) => StepView::FetchPage(request@, pending@),
            Step::FetchJson(request, pending) => StepView::FetchJson(request@, pending@),
        }
    }
}

/// What a step function returned, as plain values.
pub open spec fn step_view(r: Result<Step, PanelsError>) -> Result<StepView, ErrorView> {
    match r {
        Ok(step) => Ok(step@),
        Err(e) => Err(e@),
    }
}

/// The step after a look into the cache: a strip that the cache held ends
/// the operation; without one, the operation goes on as `otherwise` says.
pub fn served_or(cached: Option<ComicStrip>, otherwise: Step) -> (r: Step)
    ensures
        r@ == match cached {
            Some(strip) => StepView::Done(Some(strip@)),
            None => otherwise@,
        },
{
    match cached {
        Some(strip) => Step::Done(Some(strip)),
        None => otherwise,
    }
}

/// Whether a step asks the caller to touch the network.
pub open spec fn asks_for_network(step: StepView) -> bool {
    !(step is Done)
}

/// Whether `step` and the cache after it end a fetch with the strip of the
/// page that came: the strip is returned, and cached under its endpoint and
/// its identifier; a page without a strip is a miss and leaves the cache
/// alone.
pub open spec fn ends_with_page(
    before: Map<Seq<char>, StripView>,
    after: Map<Seq<char>, StripView>,
    step: Result<StepView, ErrorView>,
    strip: Option<StripView>,
) -> bool {
    &&& step == Ok::<StepView, ErrorView>(StepView::Done(strip))
    &&& after == match strip {
        Some(s) => before.insert(cache_key(s.endpoint, s.date), s),
        None => before,
    }
}

/// Whether `step` and the cache after it end a fetch with the reply to a
/// page request, where a page that came is worth `strip`: a hard error is
/// passed on, a miss stays a miss.
pub open spec fn ends_page_fetch(
    before: Map<Seq<char>, StripView>,
    after: Map<Seq<char>, StripView>,
    step: Result<StepView, ErrorView>,
    fetched: Result<Option<PageResponse>, PanelsError>,
    strip: Option<StripView>,
) -> bool {
    match fetched {
        Err(e) => step == Err::<StepView, ErrorView>(e@) && after == before,
        Ok(None) => step == Ok::<StepView, ErrorView>(StepView::Done(None)) && after == before,
        Ok(Some(page)) => ends_with_page(before, after, step, strip),
    }
}

/// The error for a reply that this source did not ask for.
pub open spec fn stray_reply() -> ErrorView {
    ErrorView { kind: ErrorKind::Internal, detail: "reply does not belong to this source"@ }
}

/// The error for a reply that this source did not ask for.
pub fn stray_reply_error() -> (r: PanelsError)
    ensures
        r@ == stray_reply(),
{
    PanelsError::Internal(String::from_str("reply does not belong to this source"))
}

/// What a request for an image carries.
pub struct ImageRequest {
    pub url: String,
    /// The client identity to send.
    pub user_agent: &'static str,
    /// The `Referer` to send, where the origin asks for one.
    pub referer: Option<&'static str>,
    /// The content type to answer with where the origin names none.
    pub fallback_content_type: &'static str,
}

/// What a request for an image came to.
pub enum ImageReply {
    /// No answer came; the text says why.
    Unreachable(String),
    /// An answer came: its status, its content type where it names one in
    /// readable form, and its body, or the transport's words on why the body
    /// could not be read.
    Answer { status: u16, content_type: Option<String>, body: Result<Vec<u8>, String> },
}

/// The error that a proxied image comes to, if it comes to one: an origin
/// that cannot be reached or read is a scrape failure, an origin that
/// answers with anything but a success means that the image is not found.
pub open spec fn image_failure(reply: ImageReply) -> Option<ErrorView> {
    match reply {
        ImageReply::Unreachable(why) => Some(
            ErrorView { kind: ErrorKind::ScrapeFailed, detail: "failed to fetch image: "@ + why@ },
        ),
        ImageReply::Answer { status, content_type, body } => if !status_is_success(status) {
            Some(image_not_found())
        } else {
            match body {
                Ok(bytes) => None,
                Err(why) => Some(
                    ErrorView {
                        kind: ErrorKind::ScrapeFailed,
                        detail: "failed to read image bytes: "@ + why@,
                    },
                ),
            }
        },
    }
}

/// The error for an image that the origin does not serve.
pub open spec fn image_not_found() -> ErrorView {
    ErrorView { kind: ErrorKind::NotFound, detail: "image not found"@ }
}

/// Whether the body of an answer to an image request is worth reading: a
/// status that is no success means that the image is not found, whatever
/// the body holds.
pub fn check_image_status(status: u16) -> (r: Result<(), PanelsError>)
    ensures
        match r {
            Ok(_) => status_is_success(status),
            Err(e) => !status_is_success(status) && e@ == image_not_found(),
        },
{
    if is_success(status) {
        Ok(())
    } else {
        Err(PanelsError::NotFound(String::from_str("image not found")))
    }
}

/// What a proxied image comes to: its bytes and its content type, which is
/// the one the origin named or else the one the request falls back to.
pub fn image_result(request: &ImageRequest, reply: ImageReply) -> (r: Result<
    (Vec<u8>, String),
    PanelsError,
>)
    ensures
        match image_failure(reply) {
            Some(e) => r matches Err(raised) && raised@ == e,
            None => r matches Ok(image) && reply matches ImageReply::Answer {
                status,
                content_type,
                body,
            } && Ok::<Vec<u8>, String>(image.0) == body && image.1@ == match content_type {
                Some(named) => named@,
                None => request.fallback_content_type@,
            },
        },
{
    match reply {
        ImageReply::Unreachable(why) => Err(
            PanelsError::ScrapeFailed(join2("failed to fetch image: ", why.as_str())),
        ),
        ImageReply::Answer { status, content_type, body } => {
            if !is_success(status) {
                return Err(PanelsError::NotFound(String::from_str("image not found")));
            }
            let kind = match content_type {
                Some(named) => named,
                None => String::from_str(request.fallback_content_type),
            };
            match body {
                Ok(bytes) => Ok((bytes, kind)),
                Err(why) => Err(
                    PanelsError::ScrapeFailed(
                        join2("failed to read image bytes: ", why.as_str()),
                    ),
                ),
            }
        },
    }
}

/// A provider of comic strips.
pub trait ComicSource: Send + Sync {
    /// Whether this source serves the series `endpoint`: what `handles`
    /// decides. A source that does not say which endpoints it claims still
    /// claims the same ones every time it is asked.
    open spec fn claims(&self, endpoint: Seq<char>) -> bool {
        arbitrary()
    }

    /// Whether this source serves the series `endpoint`.
    fn handles(&self, endpoint: &str) -> (r: bool)
        ensures
            r == self.claims(endpoint@),
    ;

    /// Begins to fetch the strip `date` of `endpoint`.
    fn fetch_strip(&self, caches: &mut Caches, endpoint: &str, date: &str) -> Result<
        Step,
        PanelsError,
    >;

    /// Begins to fetch the newest strip of `endpoint`.
    fn fetch_latest(&self, caches: &mut Caches, endpoint: &str) -> Result<Step, PanelsError>;

    /// Begins to fetch some strip of `endpoint`, picked at random.
    fn fetch_random(&self, caches: &mut Caches, endpoint: &str) -> Result<Step, PanelsError>;

    /// Goes on where `pending` left off, now that `reply` is there.
    fn resume(&self, caches: &mut Caches, pending: Pending, reply: Reply) -> Result<
        Step,
        PanelsError,
    >;

    /// The request that fetches the image at `image_url` from this source's
    /// origin.
    fn proxy_image(&self, image_url: &str) -> ImageRequest;
}

/// The sources of the service, in the order in which they were registered.
pub struct SourceRegistry {
    sources: Vec<Box<dyn ComicSource>>,
}

impl SourceRegistry {
    /// The registered sources, in order.
    pub closed spec fn sources(&self) -> Seq<Box<dyn ComicSource>> {
        self.sources@
    }

    /// Whether the source at index `i` claims `endpoint` and none before it
    /// does.
    pub open spec fn is_first_claimant(&self, endpoint: Seq<char>, i: int) -> bool {
        &&& 0 <= i < self.sources().len()
        &&& self.sources()[i].claims(endpoint)
        &&& forall|j: int| 0 <= j < i ==> !(#[trigger] self.sources()[j]).claims(endpoint)
    }

    /// A registry of `sources`, in their order.
    pub fn new(sources: Vec<Box<dyn ComicSource>>) -> (r: Self)
        ensures
            r.sources() == sources@,
    {
        SourceRegistry { sources }
    }

    /// The index of the first source that claims `endpoint`.
    pub fn position(&self, endpoint: &str) -> (r: Option<usize>)
        ensures
            match r {
                Some(i) => self.is_first_claimant(endpoint@, i as int),
                None => forall|j: int|
                    0 <= j < self.sources().len() ==> !(#[trigger] self.sources()[j]).claims(
                        endpoint@,
                    ),
            },
    {
        let mut i: usize = 0;
        while i < self.sources.len()
            invariant
                i <= self.sources@.len(),
                forall|j: int| 0 <= j < i ==> !(#[trigger] self.sources@[j]).claims(endpoint@),
            decreases self.sources@.len() - i,
        {
            if self.sources[i].handles(endpoint) {
                return Some(i);
            }
            i += 1;
        }
        None
    }

    /// The first source that claims `endpoint`: where two sources claim one
    /// endpoint, the one registered first wins.
    pub fn find(&self, endpoint: &str) -> (r: Option<&Box<dyn ComicSource>>)
        ensures
            match r {
                Some(source) => exists|i: int|
                    self.is_first_claimant(endpoint@, i) && *source == self.sources()[i],
                None => forall|j: int|
                    0 <= j < self.sources().len() ==> !(#[trigger] self.sources()[j]).claims(
                        endpoint@,
                    ),
            },
    {
        match self.position(endpoint) {
            Some(i) => {
                assert(self.is_first_claimant(endpoint@, i as int));
                Some(&self.sources[i])
            },
            None => None,
        }
    }
}

} // verus!
