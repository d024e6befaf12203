//! The defunct provider: its strips survive in a web archive only.
//!
//! A strip is looked up in two hops. The archive's index is asked for the
//! newest good snapshot of the strip's page; the snapshot is then fetched
//! and read like a live page. Dates outside the run of the strip are turned
//! away before either hop, and dates that the snapshot table knows need
//! neither.

use crate::cache::{cache_key, strip_key, Caches};
use crate::calendar::{
    day_number, day_of, lemma_day_number_names_the_day, lemma_day_numbers_rise, lemma_later_counts,
    parse_ymd, parsed_ymd, CalendarDate,
};
use crate::chance::draw;
use crate::error::{ErrorKind, ErrorView, PanelsError};
use crate::http_client::{
    is_pool_agent, plain_request, random_user_agent, PageRequest, PageResponse,
};
use crate::markup::{
    find_attributes, find_element_text, first_containing, first_with, found_attributes, found_text,
    opt_texts_view, texts_view,
};
use crate::models::{opt_strip_view, opt_view, ComicStrip, StripView};
use crate::table::KeyedTable;
use crate::sources::{
    asks_for_network, ends_page_fetch, ends_with_page, step_view, stray_reply, stray_reply_error,
    ComicSource, ImageRequest, Pending, PendingView, Reply, Step, StepView,
};
use crate::text::{
    all_digits, chars_of, join2, join3, occurs_at, only_digits, same_text, starts_with, trim_chars,
    trimmed,
};
use vstd::prelude::*;
use vstd::string::StringExecFns;

verus! {

/// The endpoint of the one series of this provider.
pub const ENDPOINT: &'static str = "dilbert";

/// The date of the first strip.
pub const FIRST_COMIC: &'static str = "1989-04-16";

/// The date of the last strip.
pub const LAST_COMIC: &'static str = "2023-03-12";

/// The number of days from the first strip to the last.
pub const RUN_DAYS: u64 = 12383;

/// How many more attempts follow a failed first one.
pub const RETRIES: u32 = 1;

/// How long one attempt may take, in milliseconds.
pub const TIMEOUT_MS: u64 = 15000;

/// The host that served the strip images.
pub const ASSETS: &'static str = "assets.amuniversal.com";

/// The selector of the strip image.
pub const STRIP_IMAGE: &'static str = ".img-comic";

/// The selector of the strip's title.
pub const STRIP_TITLE: &'static str = ".comic-title-name";

/// The title of a strip whose page names none.
pub const DEFAULT_TITLE: &'static str = "Dilbert";

/// What the table holds for one date.
#[derive(Debug, Clone)]
pub struct DilbertCacheEntry {
    pub image_url: String,
    pub title: String,
}

/// An entry as plain values.
pub struct EntryView {
    pub image_url: Seq<char>,
    pub title: Seq<char>,
}

impl View for DilbertCacheEntry {
    type V = EntryView;

    open spec fn view(&self) -> EntryView {
        EntryView { image_url: self.image_url@, title: self.title@ }
    }
}

impl DilbertCacheEntry {
    /// A copy that holds the same values.
    pub fn duplicate(&self) -> (r: DilbertCacheEntry)
        ensures
            r@ == self@,
    {
        DilbertCacheEntry { image_url: self.image_url.clone(), title: self.title.clone() }
    }
}

/// The table of the snapshots that were harvested: an entry for each date.
pub type SnapshotTable = KeyedTable<DilbertCacheEntry>;

/// The index of the snapshots that the archive holds: a timestamp for each
/// date.
pub type SnapshotIndex = KeyedTable<String>;

/// The day of the first strip.
pub open spec fn first_day() -> CalendarDate {
    CalendarDate { year: 1989, month: 4, day: 16 }
}

/// The day of the last strip.
pub open spec fn last_day() -> CalendarDate {
    CalendarDate { year: 2023, month: 3, day: 12 }
}

/// Whether `day` lies in the run of the strip.
pub open spec fn in_run(day: CalendarDate) -> bool {
    day.within(first_day(), last_day())
}

/// The address under which the strip of `date` was published.
pub open spec fn strip_address(date: Seq<char>) -> Seq<char> {
    "https://dilbert.com/strip/"@ + date
}

/// The index query for the snapshots of `strip_url`: the timestamp only, of
/// successful captures only, the newest one only, none later than the last
/// strip.
pub open spec fn cdx_address(strip_url: Seq<char>) -> Seq<char> {
    "https://web.archive.org/cdx/search/cdx?url="@ + strip_url
        + "&fl=timestamp&filter=statuscode:^2&limit=-1&to=20230312"@
}

/// The address that replays the snapshot `timestamp` of `original_url`.
pub open spec fn wayback_address(timestamp: Seq<char>, original_url: Seq<char>) -> Seq<char> {
    "https://web.archive.org/web/"@ + timestamp + "/"@ + original_url
}

/// `src` with the scheme it lacks: an address that begins with two slashes
/// is one of the secure web.
pub open spec fn normalized(src: Seq<char>) -> Seq<char> {
    if occurs_at(src, "//"@, 0) {
        "https:"@ + src
    } else {
        src
    }
}

/// The day of the first strip.
pub fn first_comic_day() -> (r: CalendarDate)
    ensures
        r == first_day(),
{
    CalendarDate { year: 1989, month: 4, day: 16 }
}

/// The day of the last strip.
pub fn last_comic_day() -> (r: CalendarDate)
    ensures
        r == last_day(),
{
    CalendarDate { year: 2023, month: 3, day: 12 }
}

/// The index query for the snapshots of `strip_url`.
pub fn cdx_url(strip_url: &str) -> (r: String)
    ensures
        r@ == cdx_address(strip_url@),
{
    join3(
        "https://web.archive.org/cdx/search/cdx?url=",
        strip_url,
        "&fl=timestamp&filter=statuscode:^2&limit=-1&to=20230312",
    )
}

/// The address under which the strip of `date` was published.
pub fn dilbert_strip_url(date: &str) -> (r: String)
    ensures
        r@ == strip_address(date@),
{
    join2("https://dilbert.com/strip/", date)
}

/// The address that replays the snapshot `timestamp` of `original_url`.
pub fn wayback_url(timestamp: &str, original_url: &str) -> (r: String)
    ensures
        r@ == wayback_address(timestamp@, original_url@),
{
    let head = join3("https://web.archive.org/web/", timestamp, "/");
    join2(head.as_str(), original_url)
}

/// `src` with the scheme it lacks.
pub fn normalize_url(src: &str) -> (r: String)
    ensures
        r@ == normalized(src@),
{
    if starts_with(src, "//") {
        join2("https:", src)
    } else {
        String::from_str(src)
    }
}

/// The image of a snapshot: the address of the first element that is marked
/// as the strip image, if it has one; else the first image on the assets
/// host. `marked` and `images` are the `src` values of those elements.
pub open spec fn snapshot_image(
    marked: Seq<Option<Seq<char>>>,
    images: Seq<Option<Seq<char>>>,
) -> Option<Seq<char>> {
    if marked.len() > 0 && marked[0] is Some {
        Some(normalized(marked[0].unwrap()))
    } else {
        match first_with(images, ASSETS@) {
            Some(src) => Some(normalized(src)),
            None => None,
        }
    }
}

/// The title of a snapshot: the trimmed text of the first title element,
/// and the series' name where that is empty or missing.
pub open spec fn snapshot_title(titles: Seq<Seq<char>>) -> Seq<char> {
    if titles.len() > 0 && trimmed(titles[0]).len() > 0 {
        trimmed(titles[0])
    } else {
        DEFAULT_TITLE@
    }
}

/// What a snapshot tells of its strip, given what the three selectors
/// found: `None` where it shows no image.
pub open spec fn entry_of(
    marked: Seq<Option<Seq<char>>>,
    images: Seq<Option<Seq<char>>>,
    titles: Seq<Seq<char>>,
) -> Option<EntryView> {
    match snapshot_image(marked, images) {
        Some(image_url) => Some(EntryView { image_url, title: snapshot_title(titles) }),
        None => None,
    }
}

/// What the snapshot `html` tells of its strip.
pub open spec fn snapshot_entry(html: Seq<char>) -> Option<EntryView> {
    entry_of(
        found_attributes(html, STRIP_IMAGE@, "src"@),
        found_attributes(html, "img"@, "src"@),
        found_text(html, STRIP_TITLE@),
    )
}

/// The neighbour of a strip on `day`, written as a date, if it lies in the
/// run of the strip.
pub open spec fn neighbour(day: CalendarDate) -> Option<Seq<char>> {
    if in_run(day) {
        Some(day.iso())
    } else {
        None
    }
}

/// The strip of `day`, which `date` names, with the image and title of
/// `entry`. Its neighbours are the day before and the day after, where they
/// lie in the run of the strip, whether or not the archive has them.
pub open spec fn archived_strip(entry: EntryView, date: Seq<char>, day: CalendarDate) -> StripView {
    StripView {
        endpoint: ENDPOINT@,
        title: entry.title,
        date,
        image_url: entry.image_url,
        source_url: strip_address(date),
        prev_date: neighbour(day.previous()),
        next_date: neighbour(day.next()),
    }
}

/// The strip that the snapshot `html` shows for `date`: `None` where the
/// snapshot shows no image or `date` is no date.
pub open spec fn page_strip(html: Seq<char>, date: Seq<char>) -> Option<StripView> {
    match (snapshot_entry(html), parsed_ymd(date)) {
        (Some(entry), Some(ymd)) => Some(archived_strip(entry, date, day_of(ymd))),
        _ => None,
    }
}

/// What a snapshot tells of its strip, given what the three selectors
/// found.
pub fn entry_from(
    marked: &Vec<Option<String>>,
    images: &Vec<Option<String>>,
    titles: &Vec<String>,
) -> (r: Option<DilbertCacheEntry>)
    ensures
        match r {
            Some(entry) => entry_of(
                opt_texts_view(marked@),
                opt_texts_view(images@),
                texts_view(titles@),
            ) == Some(entry@),
            None => entry_of(opt_texts_view(marked@), opt_texts_view(images@), texts_view(titles@))
                is None,
        },
{
    let first_marked = if marked.len() > 0 {
        match &marked[0] {
            Some(src) => Some(normalize_url(src.as_str())),
            None => None,
        }
    } else {
        None
    };
    let image_url = match first_marked {
        Some(address) => address,
        None => match first_containing(images, ASSETS) {
            Some(src) => normalize_url(src.as_str()),
            None => {
                return None;
            },
        },
    };
    let named = if titles.len() > 0 {
        let chars = chars_of(titles[0].as_str());
        trim_chars(&chars)
    } else {
        String::new()
    };
    let title = if titles.len() > 0 && named.as_str().unicode_len() > 0 {
        named
    } else {
        String::from_str(DEFAULT_TITLE)
    };
    Some(DilbertCacheEntry { image_url, title })
}

/// What the snapshot `html` tells of its strip.
pub fn parse_snapshot(html: &str) -> (r: Option<DilbertCacheEntry>)
    ensures
        match r {
            Some(entry) => snapshot_entry(html@) == Some(entry@),
            None => snapshot_entry(html@) is None,
        },
{
    let marked = find_attributes(html, STRIP_IMAGE, "src");
    let images = find_attributes(html, "img", "src");
    let titles = find_element_text(html, STRIP_TITLE);
    entry_from(&marked, &images, &titles)
}

/// The day before `day`, written as a date, if it lies in the run of the
/// strip.
pub fn date_before(day: &CalendarDate) -> (r: Option<String>)
    ensures
        opt_view(r) == neighbour(day.previous()),
{
    if day.year < 1989 || day.year > 2024 {
        return None;
    }
    let before = day.pred();
    if before.is_within(&first_comic_day(), &last_comic_day()) {
        Some(before.iso_text())
    } else {
        None
    }
}

/// The day after `day`, written as a date, if it lies in the run of the
/// strip.
pub fn date_after(day: &CalendarDate) -> (r: Option<String>)
    ensures
        opt_view(r) == neighbour(day.next()),
{
    if day.year < 1988 || day.year > 2023 {
        return None;
    }
    let after = day.succ();
    if after.is_within(&first_comic_day(), &last_comic_day()) {
        Some(after.iso_text())
    } else {
        None
    }
}

/// The strip of `day`, which `date` names, with the image and title of
/// `entry`.
pub fn strip_from_entry(entry: &DilbertCacheEntry, date: &str, day: &CalendarDate) -> (r:
    ComicStrip)
    ensures
        r@ == archived_strip(entry@, date@, *day),
{
    ComicStrip {
        endpoint: String::from_str(ENDPOINT),
        title: entry.title.clone(),
        date: String::from_str(date),
        image_url: entry.image_url.clone(),
        source_url: dilbert_strip_url(date),
        prev_date: date_before(day),
        next_date: date_after(day),
    }
}

/// The strip that the snapshot `html` shows for `date_str`.
pub fn parse_dilbert_page(html: &str, date_str: &str) -> (r: Option<ComicStrip>)
    ensures
        opt_strip_view(r) == page_strip(html@, date_str@),
{
    let entry = match parse_snapshot(html) {
        Some(entry) => entry,
        None => {
            return None;
        },
    };
    match parse_ymd(date_str) {
        Some(day) => Some(strip_from_entry(&entry, date_str, &day)),
        None => None,
    }
}

/// The key under which the strip of `date` is cached.
pub open spec fn date_key(date: Seq<char>) -> Seq<char> {
    cache_key(ENDPOINT@, date)
}

/// The error for an identifier that is no date.
pub open spec fn not_a_date(date: Seq<char>) -> ErrorView {
    ErrorView { kind: ErrorKind::InvalidDate, detail: "invalid date: "@ + date }
}

/// Whether `step` begins the fetch of the strip of `date` where the cache
/// holds nothing for the date: a `date` that is no date is an error; a date
/// outside the run of the strip is a miss; a date that the snapshot table
/// knows gives the strip that the table describes; and any other date asks
/// the archive's index for a snapshot.
pub open spec fn begins_uncached(
    table: Map<Seq<char>, DilbertCacheEntry>,
    step: Result<StepView, ErrorView>,
    date: Seq<char>,
) -> bool {
    match parsed_ymd(date) {
        None => step == Err::<StepView, ErrorView>(not_a_date(date)),
        Some(ymd) => if !in_run(day_of(ymd)) {
            step == Ok::<StepView, ErrorView>(StepView::Done(None))
        } else if table.contains_key(date) {
            step == Ok::<StepView, ErrorView>(
                StepView::Done(Some(archived_strip(table[date]@, date, day_of(ymd)))),
            )
        } else {
            step == Ok::<StepView, ErrorView>(
                StepView::FetchPage(
                    plain_request(cdx_address(strip_address(date)), RETRIES, TIMEOUT_MS),
                    PendingView::ArchiveIndex { date },
                ),
            )
        },
    }
}

/// Whether `step` begins the fetch of the strip of `date`, against a cache
/// in which `written` was stored and with the snapshot table `table`: a
/// strip that the cache holds for the date is returned as it is; otherwise
/// the fetch begins as it does where the cache holds nothing.
pub open spec fn begins_archive(
    written: Map<Seq<char>, StripView>,
    table: Map<Seq<char>, DilbertCacheEntry>,
    step: Result<StepView, ErrorView>,
    date: Seq<char>,
) -> bool {
    let cached = step matches Ok(StepView::Done(Some(strip))) && written.contains_key(
        date_key(date),
    ) && written[date_key(date)] == strip;
    cached || begins_uncached(table, step, date)
}

/// Whether `step` goes on after the index answered with `body` for `date`:
/// a body that is a timestamp, a run of digits once trimmed, asks for the
/// replay of that snapshot; any other body means that there is no snapshot,
/// and is a miss.
pub open spec fn follows_index(
    step: Result<StepView, ErrorView>,
    body: Seq<char>,
    date: Seq<char>,
) -> bool {
    let timestamp = trimmed(body);
    if timestamp.len() > 0 && all_digits(timestamp) {
        step == Ok::<StepView, ErrorView>(
            StepView::FetchPage(
                plain_request(
                    wayback_address(timestamp, strip_address(date)),
                    RETRIES,
                    TIMEOUT_MS,
                ),
                PendingView::ArchivePage { date },
            ),
        )
    } else {
        step == Ok::<StepView, ErrorView>(StepView::Done(None))
    }
}

/// The defunct provider, with the table of the snapshots that were
/// harvested.
pub struct DilbertSource {
    table: SnapshotTable,
}

impl DilbertSource {
    /// The snapshot table that the source was made with.
    pub closed spec fn table(&self) -> Map<Seq<char>, DilbertCacheEntry> {
        self.table@
    }

    /// A source that answers from `table` where it can.
    pub fn new(table: SnapshotTable) -> (r: Self)
        ensures
            r.table() == table@,
    {
        DilbertSource { table }
    }

    /// Begins to fetch the strip of `date_str`, past the cache.
    pub fn resolve(&self, date_str: &str) -> (r: Result<Step, PanelsError>)
        ensures
            begins_uncached(self.table(), step_view(r), date_str@),
    {
        let day = match parse_ymd(date_str) {
            Some(day) => day,
            None => {
                return Err(PanelsError::InvalidDate(join2("invalid date: ", date_str)));
            },
        };
        if !day.is_within(&first_comic_day(), &last_comic_day()) {
            return Ok(Step::Done(None));
        }
        match self.table.get(date_str) {
            Some(entry) => {
                return Ok(Step::Done(Some(strip_from_entry(entry, date_str, &day))));
            },
            None => {},
        }
        let original_url = dilbert_strip_url(date_str);
        Ok(
            Step::FetchPage(
                PageRequest::new(cdx_url(original_url.as_str()), RETRIES, TIMEOUT_MS),
                Pending::ArchiveIndex { date: String::from_str(date_str) },
            ),
        )
    }

    /// Begins to fetch the strip of `date_str`: the cached strip where the
    /// cache holds one, whatever `date_str` is; otherwise as `resolve` does.
    pub fn fetch_strip_for_date(&self, caches: &mut Caches, date_str: &str) -> (r: Result<
        Step,
        PanelsError,
    >)
        ensures
            final(caches).written() == old(caches).written(),
            begins_archive(old(caches).written(), self.table(), step_view(r), date_str@),
    {
        let key = strip_key(ENDPOINT, date_str);
        match caches.get(key.as_str()) {
            Some(cached) => Ok(Step::Done(Some(cached))),
            None => self.resolve(date_str),
        }
    }

    /// Goes on after the index answered with `body` for `date`.
    pub fn follow_index(&self, body: &str, date: String) -> (r: Result<Step, PanelsError>)
        ensures
            follows_index(step_view(r), body@, date@),
    {
        let chars = chars_of(body);
        let timestamp = trim_chars(&chars);
        let digits = chars_of(timestamp.as_str());
        if digits.len() == 0 || !only_digits(&digits) {
            return Ok(Step::Done(None));
        }
        let original_url = dilbert_strip_url(date.as_str());
        let archive_url = wayback_url(timestamp.as_str(), original_url.as_str());
        Ok(
            Step::FetchPage(
                PageRequest::new(archive_url, RETRIES, TIMEOUT_MS),
                Pending::ArchivePage { date },
            ),
        )
    }

    /// Ends the fetch of `date` with the snapshot that came: the strip is
    /// returned and cached under its date; a snapshot without a strip is a
    /// miss.
    pub fn finish_page(&self, caches: &mut Caches, date: &str, page: &PageResponse) -> (r: Result<
        Step,
        PanelsError,
    >)
        ensures
            ends_with_page(
                old(caches).written(),
                final(caches).written(),
                step_view(r),
                page_strip(page.html@, date@),
            ),
    {
        match parse_dilbert_page(page.html.as_str(), date) {
            Some(strip) => {
                let key = strip_key(ENDPOINT, date);
                caches.put(key, strip.duplicate());
                Ok(Step::Done(Some(strip)))
            },
            None => Ok(Step::Done(None)),
        }
    }
}

impl ComicSource for DilbertSource {
    open spec fn claims(&self, endpoint: Seq<char>) -> bool {
        endpoint == ENDPOINT@
    }

    fn handles(&self, endpoint: &str) -> (r: bool) {
        same_text(endpoint, ENDPOINT)
    }

    /// Begins to fetch the strip of `date`.
    fn fetch_strip(&self, caches: &mut Caches, endpoint: &str, date: &str) -> (r: Result<
        Step,
        PanelsError,
    >)
        ensures
            final(caches).written() == old(caches).written(),
            begins_archive(old(caches).written(), self.table(), step_view(r), date@),
    {
        self.fetch_strip_for_date(caches, date)
    }

    /// Begins to fetch the newest strip, which is the last one.
    fn fetch_latest(&self, caches: &mut Caches, endpoint: &str) -> (r: Result<Step, PanelsError>)
        ensures
            final(caches).written() == old(caches).written(),
            begins_archive(old(caches).written(), self.table(), step_view(r), LAST_COMIC@),
    {
        self.fetch_strip_for_date(caches, LAST_COMIC)
    }

    /// Begins to fetch the strip of a day drawn from the run of the strip,
    /// each day with the same chance.
    fn fetch_random(&self, caches: &mut Caches, endpoint: &str) -> (r: Result<Step, PanelsError>)
        ensures
            final(caches).written() == old(caches).written(),
            exists|offset: nat|
                offset <= RUN_DAYS && #[trigger] begins_archive(
                    old(caches).written(),
                    self.table(),
                    step_view(r),
                    first_day().later(offset).iso(),
                ),
    {
        let offset = draw(0, RUN_DAYS) as u32;
        let day = first_comic_day().plus_days(offset);
        assert(day.year >= 0) by {
            lemma_later_keeps_year(first_day(), offset as nat);
        }
        let date = day.iso_text();
        let r = self.fetch_strip_for_date(caches, date.as_str());
        assert(begins_archive(
            old(caches).written(),
            self.table(),
            step_view(r),
            first_day().later(offset as nat).iso(),
        ));
        r
    }

    /// Goes on where `pending` left off. A hard error of the fetch is passed
    /// on and a miss stays a miss. A reply that this source did not ask for
    /// is an internal error.
    fn resume(&self, caches: &mut Caches, pending: Pending, reply: Reply) -> (r: Result<
        Step,
        PanelsError,
    >)
        ensures
            match (pending, reply) {
                (Pending::ArchiveIndex { date }, Reply::Page(fetched)) => match fetched {
                    Ok(Some(page)) => {
                        &&& final(caches).written() == old(caches).written()
                        &&& follows_index(step_view(r), page.html@, date@)
                    },
                    _ => ends_page_fetch(
                        old(caches).written(),
                        final(caches).written(),
                        step_view(r),
                        fetched,
                        None,
                    ),
                },
                (Pending::ArchivePage { date }, Reply::Page(fetched)) => ends_page_fetch(
                    old(caches).written(),
                    final(caches).written(),
                    step_view(r),
                    fetched,
                    match fetched {
                        Ok(Some(page)) => page_strip(page.html@, date@),
                        _ => None,
                    },
                ),
                _ => {
                    &&& step_view(r) == Err::<StepView, ErrorView>(stray_reply())
                    &&& final(caches).written() == old(caches).written()
                },
            },
    {
        match reply {
            Reply::Page(fetched) => match pending {
                Pending::ArchiveIndex { date } => match fetched {
                    Err(e) => Err(e),
                    Ok(None) => Ok(Step::Done(None)),
                    Ok(Some(page)) => self.follow_index(page.html.as_str(), date),
                },
                Pending::ArchivePage { date } => match fetched {
                    Err(e) => Err(e),
                    Ok(None) => Ok(Step::Done(None)),
                    Ok(Some(page)) => self.finish_page(caches, date.as_str(), &page),
                },
                _ => Err(stray_reply_error()),
            },
            _ => Err(stray_reply_error()),
        }
    }

    /// Images are asked for with a client identity of the pool and no
    /// referer; an answer without a content type counts as a GIF.
    fn proxy_image(&self, image_url: &str) -> (r: ImageRequest)
        ensures
            r.url@ == image_url@,
            is_pool_agent(r.user_agent@),
            r.referer is None,
            r.fallback_content_type@ == "image/gif"@,
    {
        ImageRequest {
            url: String::from_str(image_url),
            user_agent: random_user_agent(),
            referer: None,
            fallback_content_type: "image/gif",
        }
    }
}

/// The two ends of the run, written as dates, are the dates of the first and
/// the last strip.
pub proof fn lemma_run_ends_are_written()
    ensures
        first_day().iso() == FIRST_COMIC@,
        last_day().iso() == LAST_COMIC@,
{
    reveal_with_fuel(crate::text::decimal, 5);
    reveal_strlit("1989-04-16");
    reveal_strlit("2023-03-12");
    let first = first_day().iso();
    let last = last_day().iso();
    assert(crate::text::decimal(1989) =~= seq!['1', '9', '8', '9']);
    assert(crate::text::decimal(2023) =~= seq!['2', '0', '2', '3']);
    assert(crate::text::decimal(4) =~= seq!['4']);
    assert(crate::text::decimal(3) =~= seq!['3']);
    assert(crate::text::decimal(16) =~= seq!['1', '6']);
    assert(crate::text::decimal(12) =~= seq!['1', '2']);
    assert(crate::text::padded(4, 2) =~= seq!['0', '4']);
    assert(crate::text::padded(3, 2) =~= seq!['0', '3']);
    assert(first =~= FIRST_COMIC@);
    assert(last =~= LAST_COMIC@);
}

/// The run of the strip counts `RUN_DAYS` days from its first day to its
/// last.
pub proof fn lemma_run_is_counted()
    ensures
        first_day().later(RUN_DAYS as nat) == last_day(),
{
    lemma_later_counts(first_day(), RUN_DAYS as nat);
    assert(day_number(last_day()) == day_number(first_day()) + RUN_DAYS);
    lemma_day_number_names_the_day(first_day().later(RUN_DAYS as nat), last_day());
}

/// A day drawn for a random fetch lies in the run of the strip.
pub proof fn lemma_drawn_day_lies_in_the_run(offset: nat)
    requires
        offset <= RUN_DAYS,
    ensures
        first_day().later(offset).is_valid(),
        in_run(first_day().later(offset)),
{
    let day = first_day().later(offset);
    lemma_later_counts(first_day(), offset);
    assert(day_number(last_day()) == day_number(first_day()) + RUN_DAYS);
    if day.precedes(first_day()) {
        lemma_day_numbers_rise(day, first_day());
    }
    if last_day().precedes(day) {
        lemma_day_numbers_rise(last_day(), day);
    }
}

/// Going on by days never leads to an earlier year.
pub proof fn lemma_later_keeps_year(day: CalendarDate, n: nat)
    ensures
        day.later(n).year >= day.year,
    decreases n,
{
    if n > 0 {
        lemma_later_keeps_year(day, (n - 1) as nat);
    }
}

/// A date outside the run of the strip never leads to the network: the
/// fetch ends at once, with a miss unless the cache held a strip for the
/// date.
pub proof fn lemma_outside_the_run_stays_offline(
    written: Map<Seq<char>, StripView>,
    table: Map<Seq<char>, DilbertCacheEntry>,
    step: Result<StepView, ErrorView>,
    date: Seq<char>,
)
    requires
        begins_archive(written, table, step, date),
        parsed_ymd(date) matches Some(ymd) && !in_run(day_of(ymd)),
    ensures
        step matches Ok(done) && !asks_for_network(done),
        !written.contains_key(date_key(date)) ==> step == Ok::<StepView, ErrorView>(
            StepView::Done(None),
        ),
{
}

} // verus!
