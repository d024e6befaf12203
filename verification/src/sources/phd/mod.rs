//! The numbered provider without an API: every page of its archive links to
//! other comics by number, and the greatest number on the index page is the
//! newest comic.

use crate::cache::{cache_key, strip_key, Caches};
use crate::chance::draw;
use crate::error::{ErrorKind, ErrorView, PanelsError};
use crate::http_client::{
    is_pool_agent, plain_request, random_user_agent, PageRequest, PageResponse,
};
use crate::models::{opt_strip_view, opt_view, ComicStrip, StripView};
use crate::pattern::{
    all_matches, captures, captures_all, first_match, group, group_text, matches_view,
    opt_groups_view, Groups,
};
use crate::sources::numbered::{number_of, number_tag, tag_of, tagged_number};
use crate::sources::{
    ends_page_fetch, served_or, step_view, stray_reply, stray_reply_error, ComicSource,
    ImageRequest, Pending, PendingView, Reply, Step, StepView,
};
use crate::text::{
    decimal, decimal_text, join2, join3, parse_u32, parsed_u32, same_text, trim, trimmed,
};
use vstd::prelude::*;
use vstd::string::StringExecFns;

verus! {

/// The endpoint of the one series of this provider.
pub const ENDPOINT: &'static str = "phd";

/// The address of the archive; without a query it is the index page.
pub const BASE: &'static str = "https://phdcomics.com/comics/archive.php";

/// The referer that the provider's image host expects.
pub const REFERER: &'static str = "https://phdcomics.com/";

/// The key under which the newest comic is cached.
pub const LATEST_KEY: &'static str = "phd:latest";

/// How many more attempts follow a failed first one.
pub const RETRIES: u32 = 2;

/// How long one attempt may take, in milliseconds.
pub const TIMEOUT_MS: u64 = 10000;

/// The pattern of a link to a comic: group 1 is the comic's number.
pub const ID_PATTERN: &'static str = "comicid=(\\d+)";

/// The pattern of the preview image of a comic page: group 1 is the address
/// of an image in the comics archive.
pub const IMAGE_PATTERN: &'static str =
    "og:image['\"] content='([^']*comics/archive/phd[^']*)'";

/// The pattern of the page title: group 1 is what follows the site's name.
pub const TITLE_PATTERN: &'static str = "(?is)<title>\\s*PHD Comics:\\s*(.*?)</title>";

/// The number that one match of the link pattern names.
pub open spec fn id_of_match(groups: Seq<Option<Seq<char>>>) -> Option<u32> {
    match group_text(groups, 1) {
        Some(digits) => parsed_u32(digits),
        None => None,
    }
}

/// Whether one of the matches names the number `id`.
pub open spec fn lists_id(found: Seq<Seq<Option<Seq<char>>>>, id: u32) -> bool {
    exists|i: int| 0 <= i < found.len() && id_of_match(#[trigger] found[i]) == Some(id)
}

/// Whether the numbers rise strictly.
pub open spec fn ascending(ids: Seq<u32>) -> bool {
    forall|i: int, j: int| 0 <= i < j < ids.len() ==> ids[i] < ids[j]
}

/// Whether `p` is the greatest listed number below `num`.
pub open spec fn is_greatest_below(found: Seq<Seq<Option<Seq<char>>>>, num: int, p: u32) -> bool {
    lists_id(found, p) && p < num && forall|q: u32| lists_id(found, q) && q < num ==> q <= p
}

/// Whether `p` is the least listed number above `num`.
pub open spec fn is_least_above(found: Seq<Seq<Option<Seq<char>>>>, num: int, p: u32) -> bool {
    lists_id(found, p) && p > num && forall|q: u32| lists_id(found, q) && q > num ==> q >= p
}

/// The greatest listed number below `num`.
pub open spec fn greatest_below(found: Seq<Seq<Option<Seq<char>>>>, num: int) -> Option<u32> {
    if exists|p: u32| is_greatest_below(found, num, p) {
        Some(choose|p: u32| is_greatest_below(found, num, p))
    } else {
        None
    }
}

/// The least listed number above `num`.
pub open spec fn least_above(found: Seq<Seq<Option<Seq<char>>>>, num: int) -> Option<u32> {
    if exists|p: u32| is_least_above(found, num, p) {
        Some(choose|p: u32| is_least_above(found, num, p))
    } else {
        None
    }
}

/// The greatest listed number: the newest comic that a page links to.
pub open spec fn newest_id(found: Seq<Seq<Option<Seq<char>>>>) -> Option<u32> {
    greatest_below(found, u32::MAX + 1)
}

/// The comic before `num`, where comics are counted from 1: the nearest
/// comic below `num` that the page links to; where the page links to none,
/// the comic just below `num`. The first comic has none before it.
pub open spec fn predecessor_of(found: Seq<Seq<Option<Seq<char>>>>, num: u32) -> Option<u32> {
    if num <= 1 {
        None
    } else {
        match greatest_below(found, num as int) {
            Some(p) => if p >= 1 {
                Some(p)
            } else {
                Some((num - 1) as u32)
            },
            None => Some((num - 1) as u32),
        }
    }
}

/// The identifier of an optional number.
pub open spec fn opt_tag(id: Option<u32>) -> Option<Seq<char>> {
    match id {
        Some(n) => Some(number_tag(n as nat)),
        None => None,
    }
}

/// The address of the page of comic `num`.
pub open spec fn comic_url(num: u32) -> Seq<char> {
    BASE@ + "?comicid="@ + decimal(num as nat)
}

/// The key under which comic `num` is cached.
pub open spec fn number_key(num: u32) -> Seq<char> {
    cache_key(ENDPOINT@, number_tag(num as nat))
}

/// The title that a match of the title pattern holds, without the white
/// space around it; empty where there is no match.
pub open spec fn title_from(found: Option<Seq<Option<Seq<char>>>>) -> Seq<char> {
    match found {
        Some(groups) => match group_text(groups, 1) {
            Some(title) => trimmed(title),
            None => Seq::empty(),
        },
        None => Seq::empty(),
    }
}

/// The strip of comic `num`, given what the three patterns found on its
/// page: `None` where the page shows no archive image. The neighbour after
/// it is the nearest number above `num` that the page links to; the one
/// before it is `predecessor_of`.
pub open spec fn strip_of(
    image: Option<Seq<Option<Seq<char>>>>,
    title: Option<Seq<Option<Seq<char>>>>,
    links: Seq<Seq<Option<Seq<char>>>>,
    num: u32,
) -> Option<StripView> {
    match image {
        Some(groups) => match group_text(groups, 1) {
            Some(address) => Some(
                StripView {
                    endpoint: ENDPOINT@,
                    title: title_from(title),
                    date: number_tag(num as nat),
                    image_url: address,
                    source_url: comic_url(num),
                    prev_date: opt_tag(predecessor_of(links, num)),
                    next_date: opt_tag(least_above(links, num as int)),
                },
            ),
            None => None,
        },
        None => None,
    }
}

/// The strip of comic `num` that the page `html` shows.
pub open spec fn page_strip(html: Seq<char>, num: u32) -> Option<StripView> {
    strip_of(
        first_match(IMAGE_PATTERN@, html),
        first_match(TITLE_PATTERN@, html),
        all_matches(ID_PATTERN@, html),
        num,
    )
}

/// Puts `id` into a rising list of numbers, unless it is there.
fn insert_id(ids: &mut Vec<u32>, id: u32)
    requires
        ascending(old(ids)@),
    ensures
        ascending(final(ids)@),
        forall|x: u32| final(ids)@.contains(x) <==> (old(ids)@.contains(x) || x == id),
{
    let mut p: usize = 0;
    while p < ids.len() && ids[p] < id
        invariant
            p <= ids@.len(),
            ids@ == old(ids)@,
            forall|j: int| 0 <= j < p ==> ids@[j] < id,
        decreases ids@.len() - p,
    {
        p += 1;
    }
    if p < ids.len() && ids[p] == id {
        assert(ids@[p as int] == id);
        return ;
    }
    let ghost before = ids@;
    ids.insert(p, id);
    assert(ids@ == before.insert(p as int, id));
    proof {
        before.insert_ensures(p as int, id);
    }
    assert forall|i: int, j: int| 0 <= i < j < ids@.len() implies ids@[i] < ids@[j] by {
        if j < p {
            assert(ids@[i] == before[i] && ids@[j] == before[j]);
        } else if j == p {
            assert(ids@[i] == before[i]);
        } else if i < p {
            assert(ids@[i] == before[i] && ids@[j] == before[j - 1]);
            assert(before[p as int] > id);
            assert(p < j - 1 ==> before[p as int] < before[j - 1]);
        } else if i == p {
            assert(ids@[j] == before[j - 1]);
            assert(p < j - 1 ==> before[p as int] < before[j - 1]);
        } else {
            assert(ids@[i] == before[i - 1] && ids@[j] == before[j - 1]);
        }
    }
    assert forall|x: u32| ids@.contains(x) implies (before.contains(x) || x == id) by {
        let k = choose|k: int| 0 <= k < ids@.len() && ids@[k] == x;
        if k < p {
            assert(before[k] == x);
        } else if k > p {
            assert(before[k - 1] == x);
        }
    }
    assert forall|x: u32| (before.contains(x) || x == id) implies ids@.contains(x) by {
        if before.contains(x) {
            let k = choose|k: int| 0 <= k < before.len() && before[k] == x;
            if k < p {
                assert(ids@[k] == x);
            } else {
                assert(ids@[k + 1] == x);
            }
        } else {
            assert(ids@[p as int] == x);
        }
    }
}

/// The numbers that the matches of the link pattern name, rising, each once.
pub fn ids_from(found: &Vec<Groups>) -> (r: Vec<u32>)
    ensures
        ascending(r@),
        forall|id: u32| r@.contains(id) <==> lists_id(matches_view(found@), id),
{
    let ghost all = matches_view(found@);
    let mut ids: Vec<u32> = Vec::new();
    let mut i: usize = 0;
    while i < found.len()
        invariant
            i <= found@.len(),
            all == matches_view(found@),
            ascending(ids@),
            forall|id: u32| ids@.contains(id) <==> lists_id(all.take(i as int), id),
        decreases found@.len() - i,
    {
        let ghost seen = all.take(i as int);
        let ghost next = all.take(i + 1);
        let ghost before = ids@;
        let named = match group(&found[i], 1) {
            Some(digits) => parse_u32(digits.as_str()),
            None => None,
        };
        assert(named == id_of_match(all[i as int]));
        match named {
            Some(id) => insert_id(&mut ids, id),
            None => {},
        }
        assert forall|id: u32| ids@.contains(id) <==> lists_id(next, id) by {
            if lists_id(next, id) {
                let k = choose|k: int| 0 <= k < next.len() && id_of_match(next[k]) == Some(id);
                if k < i {
                    assert(seen[k] == next[k]);
                    assert(lists_id(seen, id));
                }
            }
            if lists_id(seen, id) {
                let k = choose|k: int| 0 <= k < seen.len() && id_of_match(seen[k]) == Some(id);
                assert(next[k] == seen[k]);
            }
            if named == Some(id) {
                assert(next[i as int] == all[i as int]);
            }
        }
        i += 1;
    }
    assert(all.take(i as int) =~= all);
    ids
}

/// The numbers of the comics that the page `html` links to, rising, each
/// once.
pub fn parse_comic_ids(html: &str) -> (r: Vec<u32>)
    ensures
        ascending(r@),
        forall|id: u32| r@.contains(id) <==> lists_id(all_matches(ID_PATTERN@, html@), id),
{
    let found = captures_all(ID_PATTERN, html);
    ids_from(&found)
}

/// The greatest of `ids` below `bound`.
pub fn greatest_under(ids: &Vec<u32>, bound: u64) -> (r: Option<u32>)
    ensures
        match r {
            Some(p) => ids@.contains(p) && p < bound && forall|q: u32|
                ids@.contains(q) && q < bound ==> q <= p,
            None => forall|q: u32| ids@.contains(q) ==> q >= bound,
        },
{
    let mut best: Option<u32> = None;
    let mut i: usize = 0;
    while i < ids.len()
        invariant
            i <= ids@.len(),
            match best {
                Some(p) => ids@.contains(p) && p < bound && forall|j: int|
                    0 <= j < i && ids@[j] < bound ==> ids@[j] <= p,
                None => forall|j: int| 0 <= j < i ==> ids@[j] >= bound,
            },
        decreases ids@.len() - i,
    {
        let id = ids[i];
        if (id as u64) < bound {
            let better = match best {
                Some(p) => id > p,
                None => true,
            };
            if better {
                assert(ids@[i as int] == id);
                best = Some(id);
            }
        }
        i += 1;
    }
    best
}

/// The least of `ids` above `num`.
pub fn least_over(ids: &Vec<u32>, num: u32) -> (r: Option<u32>)
    ensures
        match r {
            Some(p) => ids@.contains(p) && p > num && forall|q: u32|
                ids@.contains(q) && q > num ==> q >= p,
            None => forall|q: u32| ids@.contains(q) ==> q <= num,
        },
{
    let mut best: Option<u32> = None;
    let mut i: usize = 0;
    while i < ids.len()
        invariant
            i <= ids@.len(),
            match best {
                Some(p) => ids@.contains(p) && p > num && forall|j: int|
                    0 <= j < i && ids@[j] > num ==> ids@[j] >= p,
                None => forall|j: int| 0 <= j < i ==> ids@[j] <= num,
            },
        decreases ids@.len() - i,
    {
        let id = ids[i];
        if id > num {
            let better = match best {
                Some(p) => id < p,
                None => true,
            };
            if better {
                assert(ids@[i as int] == id);
                best = Some(id);
            }
        }
        i += 1;
    }
    best
}

/// A greatest number below a bound is the only one.
pub proof fn lemma_greatest_below_is(found: Seq<Seq<Option<Seq<char>>>>, num: int, p: u32)
    requires
        is_greatest_below(found, num, p),
    ensures
        greatest_below(found, num) == Some(p),
{
    let q = choose|q: u32| is_greatest_below(found, num, q);
    assert(q <= p && p <= q);
}

/// A least number above a bound is the only one.
pub proof fn lemma_least_above_is(found: Seq<Seq<Option<Seq<char>>>>, num: int, p: u32)
    requires
        is_least_above(found, num, p),
    ensures
        least_above(found, num) == Some(p),
{
    let q = choose|q: u32| is_least_above(found, num, q);
    assert(q <= p && p <= q);
}

/// The identifier of an optional number.
pub fn tag_of_opt(id: Option<u32>) -> (r: Option<String>)
    ensures
        opt_view(r) == opt_tag(id),
{
    match id {
        Some(n) => Some(tag_of(n as u64)),
        None => None,
    }
}

/// The strip of comic `num`, given what the three patterns found on its
/// page.
pub fn strip_from_matches(
    image: &Option<Groups>,
    title: &Option<Groups>,
    links: &Vec<Groups>,
    num: u32,
) -> (r: Option<ComicStrip>)
    ensures
        opt_strip_view(r) == strip_of(
            opt_groups_view(*image),
            opt_groups_view(*title),
            matches_view(links@),
            num,
        ),
{
    let address = match image {
        Some(groups) => match group(groups, 1) {
            Some(address) => address,
            None => {
                return None;
            },
        },
        None => {
            return None;
        },
    };
    let heading = match title {
        Some(groups) => match group(groups, 1) {
            Some(text) => trim(text.as_str()),
            None => String::new(),
        },
        None => String::new(),
    };
    let ids = ids_from(links);
    let linked = greatest_under(&ids, num as u64);
    let before = if num <= 1 {
        None
    } else {
        match linked {
            Some(p) => if p >= 1 {
                Some(p)
            } else {
                Some(num - 1)
            },
            None => Some(num - 1),
        }
    };
    let after = least_over(&ids, num);
    proof {
        let found = matches_view(links@);
        match linked {
            Some(p) => {
                assert(lists_id(found, p));
                assert forall|q: u32| lists_id(found, q) && q < num implies q <= p by {
                    assert(ids@.contains(q));
                }
                assert(is_greatest_below(found, num as int, p));
                lemma_greatest_below_is(found, num as int, p);
            },
            None => {
                assert forall|p: u32| !is_greatest_below(found, num as int, p) by {
                    if lists_id(found, p) {
                        assert(ids@.contains(p));
                    }
                }
            },
        }
        match after {
            Some(p) => {
                assert(lists_id(found, p));
                assert forall|q: u32| lists_id(found, q) && q > num implies q >= p by {
                    assert(ids@.contains(q));
                }
                assert(is_least_above(found, num as int, p));
                lemma_least_above_is(found, num as int, p);
            },
            None => {
                assert forall|p: u32| !is_least_above(found, num as int, p) by {
                    if lists_id(found, p) {
                        assert(ids@.contains(p));
                    }
                }
            },
        }
    }
    let number = decimal_text(num as u64);
    Some(
        ComicStrip {
            endpoint: String::from_str(ENDPOINT),
            title: heading,
            date: tag_of(num as u64),
            image_url: address.clone(),
            source_url: join3(BASE, "?comicid=", number.as_str()),
            prev_date: tag_of_opt(before),
            next_date: tag_of_opt(after),
        },
    )
}

/// The strip of comic `num` that the page `html` shows; `None` where the
/// page shows no archive image.
pub fn parse_strip(html: &str, num: u32) -> (r: Option<ComicStrip>)
    ensures
        opt_strip_view(r) == page_strip(html@, num),
{
    let image = captures(IMAGE_PATTERN, html);
    let title = captures(TITLE_PATTERN, html);
    let links = captures_all(ID_PATTERN, html);
    strip_from_matches(&image, &title, &links, num)
}

/// The greatest number that the matches of the link pattern name.
pub fn newest_from(links: &Vec<Groups>) -> (r: Option<u32>)
    ensures
        r == newest_id(matches_view(links@)),
{
    let ids = ids_from(links);
    let newest = greatest_under(&ids, 4294967296);
    proof {
        let found = matches_view(links@);
        let bound: int = u32::MAX + 1;
        match newest {
            Some(p) => {
                assert(lists_id(found, p));
                assert forall|q: u32| lists_id(found, q) && q < bound implies q <= p by {
                    assert(ids@.contains(q));
                }
                assert(is_greatest_below(found, bound, p));
                lemma_greatest_below_is(found, bound, p);
            },
            None => {
                assert forall|p: u32| !is_greatest_below(found, bound, p) by {
                    if lists_id(found, p) {
                        assert(ids@.contains(p));
                    }
                }
            },
        }
    }
    newest
}

/// A comic lies strictly between its neighbours, and, counted from 1, only
/// the first comic has none before it.
pub proof fn lemma_neighbours_enclose(found: Seq<Seq<Option<Seq<char>>>>, num: u32)
    requires
        num >= 1,
    ensures
        predecessor_of(found, num) matches Some(p) ==> 1 <= p < num,
        least_above(found, num as int) matches Some(q) ==> num < q,
        predecessor_of(found, num) is None <==> num == 1,
{
    if greatest_below(found, num as int) is Some {
        let p = choose|p: u32| is_greatest_below(found, num as int, p);
        assert(is_greatest_below(found, num as int, p));
    }
    if least_above(found, num as int) is Some {
        let q = choose|q: u32| is_least_above(found, num as int, q);
        assert(is_least_above(found, num as int, q));
    }
}

/// The comic before `num` is the nearest comic below it that the page links
/// to, wherever the page links to one.
pub proof fn lemma_predecessor_is_linked(found: Seq<Seq<Option<Seq<char>>>>, num: u32, id: u32)
    requires
        lists_id(found, id),
        1 <= id < num,
    ensures
        predecessor_of(found, num) matches Some(p) && lists_id(found, p) && id <= p < num,
{
    lemma_some_is_greatest(found, num as int, id);
    let p = choose|p: u32| is_greatest_below(found, num as int, p);
    assert(is_greatest_below(found, num as int, p));
}

/// Where some listed number lies below a bound, one of them is the greatest.
pub proof fn lemma_some_is_greatest(found: Seq<Seq<Option<Seq<char>>>>, bound: int, id: u32)
    requires
        lists_id(found, id),
        id < bound,
    ensures
        exists|p: u32| is_greatest_below(found, bound, p),
    decreases bound - id,
{
    if exists|q: u32| lists_id(found, q) && q < bound && q > id {
        let q = choose|q: u32| lists_id(found, q) && q < bound && q > id;
        lemma_some_is_greatest(found, bound, q);
    } else {
        assert(is_greatest_below(found, bound, id));
    }
}

/// The detail of the error for an identifier that is no number.
pub open spec fn not_a_number(date: Seq<char>) -> Seq<char> {
    "PhD Comics uses comic numbers (e.g. #100), not dates. Got: "@ + date
}

/// The error for an index page that links to no comic.
pub open spec fn no_newest() -> ErrorView {
    ErrorView { kind: ErrorKind::ScrapeFailed, detail: "failed to find latest PhD comic ID"@ }
}

/// The error for an index page that does not show the newest comic.
pub open spec fn newest_unreadable(newest: u32) -> ErrorView {
    ErrorView {
        kind: ErrorKind::ScrapeFailed,
        detail: "failed to parse latest PhD comic #"@ + decimal(newest as nat),
    }
}

/// Whether `step` begins the fetch of comic `num` against a cache in which
/// `written` was stored: the cached strip, or a request for the comic's page.
pub open spec fn begins_number(
    written: Map<Seq<char>, StripView>,
    step: Result<StepView, ErrorView>,
    num: u32,
) -> bool {
    match step {
        Ok(StepView::Done(found)) => found matches Some(strip) && written.contains_key(
            number_key(num),
        ) && written[number_key(num)] == strip,
        Ok(StepView::FetchPage(request, pending)) => request == plain_request(
            comic_url(num),
            RETRIES,
            TIMEOUT_MS,
        ) && pending == (PendingView::PhdNumber { num }),
        _ => false,
    }
}

/// Whether `step` begins an operation that starts at the index page and
/// leaves the source in `pending`: a request for the index page, or, for the
/// newest comic only, the strip that is cached as the newest.
pub open spec fn begins_at_index(
    written: Map<Seq<char>, StripView>,
    step: Result<StepView, ErrorView>,
    pending: PendingView,
) -> bool {
    match step {
        Ok(StepView::Done(found)) => found matches Some(strip) && pending
            == PendingView::PhdLatest && written.contains_key(LATEST_KEY@) && written[LATEST_KEY@]
            == strip,
        Ok(StepView::FetchPage(request, waits)) => request == plain_request(
            BASE@,
            RETRIES,
            TIMEOUT_MS,
        ) && waits == pending,
        _ => false,
    }
}

/// Whether `step` and the cache after it end the fetch of the newest comic
/// with the index page `html`: the newest comic is the greatest number the
/// page links to, and its strip is cached as the newest and under its
/// number. A page that links to no comic, or does not show the newest, is an
/// error.
pub open spec fn ends_latest(
    before: Map<Seq<char>, StripView>,
    after: Map<Seq<char>, StripView>,
    step: Result<StepView, ErrorView>,
    html: Seq<char>,
) -> bool {
    match newest_id(all_matches(ID_PATTERN@, html)) {
        None => step == Err::<StepView, ErrorView>(no_newest()) && after == before,
        Some(newest) => match page_strip(html, newest) {
            None => step == Err::<StepView, ErrorView>(newest_unreadable(newest)) && after
                == before,
            Some(strip) => {
                &&& step == Ok::<StepView, ErrorView>(StepView::Done(Some(strip)))
                &&& after == before.insert(LATEST_KEY@, strip).insert(number_key(newest), strip)
            },
        },
    }
}

/// Whether `step` goes on with a random fetch after the index page `html`
/// came: it begins the fetch of some comic from 1 to the newest.
pub open spec fn continues_random(
    written: Map<Seq<char>, StripView>,
    step: Result<StepView, ErrorView>,
    html: Seq<char>,
) -> bool {
    match newest_id(all_matches(ID_PATTERN@, html)) {
        None => step == Err::<StepView, ErrorView>(no_newest()),
        Some(newest) => if newest == 0 {
            step == Ok::<StepView, ErrorView>(StepView::Done(None))
        } else {
            exists|n: u32| 1 <= n <= newest && #[trigger] begins_number(written, step, n)
        },
    }
}

/// The numbered provider without an API.
pub struct PhdSource {}

impl PhdSource {
    /// The source. It holds nothing of its own: the cache is handed to each
    /// operation, and the network is the caller's.
    pub fn new() -> (r: Self) {
        PhdSource {  }
    }

    /// Begins to fetch comic `num`: the cached strip where the cache holds
    /// one, else a request for the comic's page.
    pub fn fetch_by_number(&self, caches: &mut Caches, num: u32) -> (r: Result<Step, PanelsError>)
        ensures
            final(caches).written() == old(caches).written(),
            begins_number(old(caches).written(), step_view(r), num),
    {
        let key = strip_key(ENDPOINT, tag_of(num as u64).as_str());
        let number = decimal_text(num as u64);
        let url = join3(BASE, "?comicid=", number.as_str());
        Ok(
            served_or(
                caches.get(key.as_str()),
                Step::FetchPage(
                    PageRequest::new(url, RETRIES, TIMEOUT_MS),
                    Pending::PhdNumber { num },
                ),
            ),
        )
    }

    /// Ends the fetch of comic `num` with its page: the strip is returned
    /// and cached under its number; a page without a strip is a miss.
    pub fn finish_number(&self, caches: &mut Caches, num: u32, page: &PageResponse) -> (r: Result<
        Step,
        PanelsError,
    >)
        ensures
            crate::sources::ends_with_page(
                old(caches).written(),
                final(caches).written(),
                step_view(r),
                page_strip(page.html@, num),
            ),
    {
        match parse_strip(page.html.as_str(), num) {
            Some(strip) => {
                let key = strip_key(ENDPOINT, tag_of(num as u64).as_str());
                caches.put(key, strip.duplicate());
                Ok(Step::Done(Some(strip)))
            },
            None => Ok(Step::Done(None)),
        }
    }

    /// Ends the fetch of the newest comic with the index page.
    pub fn finish_latest(&self, caches: &mut Caches, page: &PageResponse) -> (r: Result<
        Step,
        PanelsError,
    >)
        ensures
            ends_latest(old(caches).written(), final(caches).written(), step_view(r), page.html@),
    {
        let links = captures_all(ID_PATTERN, page.html.as_str());
        let newest = match newest_from(&links) {
            Some(id) => id,
            None => {
                return Err(
                    PanelsError::ScrapeFailed(
                        String::from_str("failed to find latest PhD comic ID"),
                    ),
                );
            },
        };
        let strip = match parse_strip(page.html.as_str(), newest) {
            Some(strip) => strip,
            None => {
                let number = decimal_text(newest as u64);
                return Err(
                    PanelsError::ScrapeFailed(
                        join2("failed to parse latest PhD comic #", number.as_str()),
                    ),
                );
            },
        };
        caches.put(String::from_str(LATEST_KEY), strip.duplicate());
        let key = strip_key(ENDPOINT, tag_of(newest as u64).as_str());
        caches.put(key, strip.duplicate());
        Ok(Step::Done(Some(strip)))
    }

    /// Goes on with a random fetch once the index page is there: draws a
    /// number from 1 to the newest and begins to fetch that comic.
    pub fn finish_random(&self, caches: &mut Caches, page: &PageResponse) -> (r: Result<
        Step,
        PanelsError,
    >)
        ensures
            final(caches).written() == old(caches).written(),
            continues_random(old(caches).written(), step_view(r), page.html@),
    {
        let links = captures_all(ID_PATTERN, page.html.as_str());
        match newest_from(&links) {
            None => Err(
                PanelsError::ScrapeFailed(String::from_str("failed to find latest PhD comic ID")),
            ),
            Some(newest) => {
                if newest == 0 {
                    return Ok(Step::Done(None));
                }
                let n = draw(1, newest as u64) as u32;
                let r = self.fetch_by_number(caches, n);
                assert(begins_number(old(caches).written(), step_view(r), n));
                r
            },
        }
    }
}

impl ComicSource for PhdSource {
    open spec fn claims(&self, endpoint: Seq<char>) -> bool {
        endpoint == ENDPOINT@
    }

    fn handles(&self, endpoint: &str) -> (r: bool) {
        same_text(endpoint, ENDPOINT)
    }

    /// Begins to fetch the comic that `date` names; an identifier that names
    /// no number is refused before anything is fetched.
    fn fetch_strip(&self, caches: &mut Caches, endpoint: &str, date: &str) -> (r: Result<
        Step,
        PanelsError,
    >)
        ensures
            final(caches).written() == old(caches).written(),
            match tagged_number(date@) {
                Some(num) => begins_number(old(caches).written(), step_view(r), num),
                None => step_view(r) == Err::<StepView, ErrorView>(
                    ErrorView { kind: ErrorKind::InvalidParam, detail: not_a_number(date@) },
                ),
            },
    {
        match number_of(date) {
            Some(num) => self.fetch_by_number(caches, num),
            None => Err(
                PanelsError::InvalidParam(
                    join2("PhD Comics uses comic numbers (e.g. #100), not dates. Got: ", date),
                ),
            ),
        }
    }

    /// Begins to fetch the newest comic: the cached one where the cache
    /// holds it, else a request for the index page.
    fn fetch_latest(&self, caches: &mut Caches, endpoint: &str) -> (r: Result<Step, PanelsError>)
        ensures
            final(caches).written() == old(caches).written(),
            begins_at_index(old(caches).written(), step_view(r), PendingView::PhdLatest),
    {
        Ok(
            served_or(
                caches.get(LATEST_KEY),
                Step::FetchPage(
                    PageRequest::new(String::from_str(BASE), RETRIES, TIMEOUT_MS),
                    Pending::PhdLatest,
                ),
            ),
        )
    }

    /// Begins a random fetch: asks for the index page, past the cache.
    fn fetch_random(&self, caches: &mut Caches, endpoint: &str) -> (r: Result<Step, PanelsError>)
        ensures
            final(caches).written() == old(caches).written(),
            step_view(r) == Ok::<StepView, ErrorView>(
                StepView::FetchPage(
                    plain_request(BASE@, RETRIES, TIMEOUT_MS),
                    PendingView::PhdRandom,
                ),
            ),
    {
        Ok(
            Step::FetchPage(
                PageRequest::new(String::from_str(BASE), RETRIES, TIMEOUT_MS),
                Pending::PhdRandom,
            ),
        )
    }

    /// Goes on where `pending` left off. A hard error of the fetch is passed
    /// on and a miss stays a miss. A reply that this source did not ask for
    /// is an internal error.
    fn resume(&self, caches: &mut Caches, pending: Pending, reply: Reply) -> (r: Result<
        Step,
        PanelsError,
    >)
        ensures
            match (pending, reply) {
                (Pending::PhdNumber { num }, Reply::Page(fetched)) => ends_page_fetch(
                    old(caches).written(),
                    final(caches).written(),
                    step_view(r),
                    fetched,
                    match fetched {
                        Ok(Some(page)) => page_strip(page.html@, num),
                        _ => None,
                    },
                ),
                (Pending::PhdLatest, Reply::Page(fetched)) => match fetched {
                    Ok(Some(page)) => ends_latest(
                        old(caches).written(),
                        final(caches).written(),
                        step_view(r),
                        page.html@,
                    ),
                    _ => ends_page_fetch(
                        old(caches).written(),
                        final(caches).written(),
                        step_view(r),
                        fetched,
                        None,
                    ),
                },
                (Pending::PhdRandom, Reply::Page(fetched)) => match fetched {
                    Ok(Some(page)) => {
                        &&& final(caches).written() == old(caches).written()
                        &&& continues_random(old(caches).written(), step_view(r), page.html@)
                    },
                    _ => ends_page_fetch(
                        old(caches).written(),
                        final(caches).written(),
                        step_view(r),
                        fetched,
                        None,
                    ),
                },
                _ => {
                    &&& step_view(r) == Err::<StepView, ErrorView>(stray_reply())
                    &&& final(caches).written() == old(caches).written()
                },
            },
    {
        match reply {
            Reply::Page(fetched) => match pending {
                Pending::PhdNumber { num } => match fetched {
                    Err(e) => Err(e),
                    Ok(None) => Ok(Step::Done(None)),
                    Ok(Some(page)) => self.finish_number(caches, num, &page),
                },
                Pending::PhdLatest => match fetched {
                    Err(e) => Err(e),
                    Ok(None) => Ok(Step::Done(None)),
                    Ok(Some(page)) => self.finish_latest(caches, &page),
                },
                Pending::PhdRandom => match fetched {
                    Err(e) => Err(e),
                    Ok(None) => Ok(Step::Done(None)),
                    Ok(Some(page)) => self.finish_random(caches, &page),
                },
                _ => Err(stray_reply_error()),
            },
            _ => Err(stray_reply_error()),
        }
    }

    /// Images are asked for with a client identity of the pool and the
    /// provider's address as the referer; an answer without a content type
    /// counts as a PNG.
    fn proxy_image(&self, image_url: &str) -> (r: ImageRequest)
        ensures
            r.url@ == image_url@,
            is_pool_agent(r.user_agent@),
            r.referer matches Some(referer) && referer@ == REFERER@,
            r.fallback_content_type@ == "image/png"@,
    {
        ImageRequest {
            url: String::from_str(image_url),
            user_agent: random_user_agent(),
            referer: Some(REFERER),
            fallback_content_type: "image/png",
        }
    }
}

} // verus!
