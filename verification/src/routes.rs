//! What the routing layer decides: which operation an identifier asks for,
//! how a miss is reported, and how long an image may be cached downstream.

use crate::error::{ErrorKind, ErrorView, PanelsError};
use crate::models::{opt_view, Comic, ComicStrip, ComicView, ComicWithTags, TaggedView};
use crate::text::{
    clone_texts, contains, contains_text, join2, join3, lines_view, lowercase, lowercase_of,
    same_text,
};
use crate::TagTable;
use vstd::prelude::*;
use vstd::string::StringExecFns;

verus! {

/// The identifier that asks for the newest strip.
pub const LATEST: &'static str = "latest";

/// The identifier that asks for a random strip.
pub const RANDOM: &'static str = "random";

/// The cache directive of an image that was picked at random.
pub const NO_STORE: &'static str = "no-store";

/// The cache directive of an image with an identifier of its own: a day for
/// browsers, a week for shared caches.
pub const LONG_LIVED: &'static str = "public, max-age=86400, s-maxage=604800";

/// The query of the series listing.
pub struct ComicsQuery {
    pub search: Option<String>,
    pub tag: Option<String>,
}

/// The query of the recommendations.
pub struct RecommendationsQuery {
    pub selected: Option<String>,
    pub limit: Option<usize>,
}

/// What an identifier asks for.
pub enum Selection {
    /// The newest strip.
    Latest,
    /// Any strip.
    Random,
    /// The strip with this identifier.
    Identifier(String),
}

/// A selection as plain values.
pub enum SelectionView {
    Latest,
    Random,
    Identifier(Seq<char>),
}

impl View for Selection {
    type V = SelectionView;

    open spec fn view(&self) -> SelectionView {
        match self {
            Selection::Latest => SelectionView::Latest,
            Selection::Random => SelectionView::Random,
            Selection::Identifier(id) => SelectionView::Identifier(id@),
        }
    }
}

/// What `identifier` asks for: the two words `latest` and `random` stand for
/// themselves, anything else names a strip.
pub open spec fn selection_of(identifier: Seq<char>) -> SelectionView {
    if identifier == LATEST@ {
        SelectionView::Latest
    } else if identifier == RANDOM@ {
        SelectionView::Random
    } else {
        SelectionView::Identifier(identifier)
    }
}

/// The cache directive for the image of the strip that `identifier` asked
/// for: a random pick must not be stored, anything else may be kept long.
pub open spec fn directive_of(identifier: Seq<char>) -> Seq<char> {
    if identifier == RANDOM@ {
        NO_STORE@
    } else {
        LONG_LIVED@
    }
}

/// What `identifier` asks for.
pub fn select(identifier: &str) -> (r: Selection)
    ensures
        r@ == selection_of(identifier@),
{
    if same_text(identifier, LATEST) {
        Selection::Latest
    } else if same_text(identifier, RANDOM) {
        Selection::Random
    } else {
        Selection::Identifier(String::from_str(identifier))
    }
}

/// The cache directive for the image of the strip that `identifier` asked
/// for.
pub fn cache_control(identifier: &str) -> (r: &'static str)
    ensures
        r@ == directive_of(identifier@),
{
    if same_text(identifier, RANDOM) {
        NO_STORE
    } else {
        LONG_LIVED
    }
}

/// The error for an endpoint that no source claims.
pub fn unknown_comic(endpoint: &str) -> (r: PanelsError)
    ensures
        r@ == (ErrorView { kind: ErrorKind::NotFound, detail: "unknown comic: "@ + endpoint@ }),
{
    PanelsError::NotFound(join2("unknown comic: ", endpoint))
}

/// The strip that an operation ended with, or the error that reports its
/// miss.
pub fn strip_or_not_found(found: Option<ComicStrip>, endpoint: &str, identifier: &str) -> (r:
    Result<ComicStrip, PanelsError>)
    ensures
        match found {
            Some(strip) => r == Ok::<ComicStrip, PanelsError>(strip),
            None => r matches Err(e) && e@ == (ErrorView {
                kind: ErrorKind::NotFound,
                detail: "no strip found for "@ + endpoint@ + "/"@ + identifier@,
            }),
        },
{
    match found {
        Some(strip) => Ok(strip),
        None => {
            let head = join3("no strip found for ", endpoint, "/");
            Err(PanelsError::NotFound(join2(head.as_str(), identifier)))
        },
    }
}

/// The tags of the series `endpoint`; none where the table does not know
/// the series.
pub open spec fn tags_of(tags: Map<Seq<char>, Vec<String>>, endpoint: Seq<char>) -> Seq<Seq<char>> {
    if tags.contains_key(endpoint) {
        lines_view(tags[endpoint]@)
    } else {
        Seq::empty()
    }
}

/// Whether the title or the endpoint of `comic` holds `search`, letter case
/// aside.
pub open spec fn search_hits(comic: ComicView, search: Seq<char>) -> bool {
    contains_text(lowercase_of(comic.title), lowercase_of(search)) || contains_text(
        lowercase_of(comic.endpoint),
        lowercase_of(search),
    )
}

/// Whether one of `tags` is `tag`, letter case aside.
pub open spec fn tag_hits(tags: Seq<Seq<char>>, tag: Seq<char>) -> bool {
    exists|i: int| 0 <= i < tags.len() && lowercase_of(#[trigger] tags[i]) == lowercase_of(tag)
}

/// Whether a series with these tags answers the query: every part of the
/// query that is given must hit.
pub open spec fn answers(
    comic: ComicView,
    tags: Seq<Seq<char>>,
    search: Option<Seq<char>>,
    tag: Option<Seq<char>>,
) -> bool {
    &&& search matches Some(words) ==> search_hits(comic, words)
    &&& tag matches Some(name) ==> tag_hits(tags, name)
}

/// The series that answer a query, each with its tags, in the order of the
/// directory.
pub open spec fn listing(
    comics: Seq<Comic>,
    tags: Map<Seq<char>, Vec<String>>,
    search: Option<Seq<char>>,
    tag: Option<Seq<char>>,
) -> Seq<TaggedView>
    decreases comics.len(),
{
    if comics.len() == 0 {
        Seq::empty()
    } else {
        let rest = listing(comics.drop_last(), tags, search, tag);
        let comic = comics.last()@;
        let own = tags_of(tags, comic.endpoint);
        if answers(comic, own, search, tag) {
            rest.push(TaggedView { comic, tags: own })
        } else {
            rest
        }
    }
}

/// A run of series with tags as plain values.
pub open spec fn tagged_view(series: Seq<ComicWithTags>) -> Seq<TaggedView> {
    Seq::new(series.len(), |i: int| series[i]@)
}

/// Whether one of `tags` is `tag`, letter case aside.
pub fn has_tag(tags: &Vec<String>, tag: &str) -> (r: bool)
    ensures
        r == tag_hits(lines_view(tags@), tag@),
{
    let wanted = lowercase(tag);
    let mut i: usize = 0;
    while i < tags.len()
        invariant
            i <= tags@.len(),
            wanted@ == lowercase_of(tag@),
            forall|j: int| 0 <= j < i ==> lowercase_of(tags@[j]@) != lowercase_of(tag@),
        decreases tags@.len() - i,
    {
        let own = lowercase(tags[i].as_str());
        if same_text(own.as_str(), wanted.as_str()) {
            assert(lines_view(tags@)[i as int] == tags@[i as int]@);
            return true;
        }
        i += 1;
    }
    assert forall|j: int| 0 <= j < lines_view(tags@).len() implies lowercase_of(
        #[trigger] lines_view(tags@)[j],
    ) != lowercase_of(tag@) by {
        assert(lines_view(tags@)[j] == tags@[j]@);
    }
    false
}

/// Whether the title or the endpoint of `comic` holds `search`, letter case
/// aside.
pub fn is_search_hit(comic: &Comic, search: &str) -> (r: bool)
    ensures
        r == search_hits(comic@, search@),
{
    let words = lowercase(search);
    let title = lowercase(comic.title.as_str());
    if contains(title.as_str(), words.as_str()) {
        return true;
    }
    let endpoint = lowercase(comic.endpoint.as_str());
    contains(endpoint.as_str(), words.as_str())
}

/// The series that answer `query`, each with its tags, in the order of the
/// directory.
pub fn list_comics(comics: &Vec<Comic>, tags: &TagTable, query: &ComicsQuery) -> (r: Vec<
    ComicWithTags,
>)
    ensures
        tagged_view(r@) == listing(comics@, tags@, opt_view(query.search), opt_view(query.tag)),
{
    let ghost search = opt_view(query.search);
    let ghost tag = opt_view(query.tag);
    let mut out: Vec<ComicWithTags> = Vec::new();
    let mut i: usize = 0;
    assert(tagged_view(out@) =~= listing(comics@.take(0), tags@, search, tag));
    while i < comics.len()
        invariant
            i <= comics@.len(),
            search == opt_view(query.search),
            tag == opt_view(query.tag),
            tagged_view(out@) == listing(comics@.take(i as int), tags@, search, tag),
        decreases comics@.len() - i,
    {
        assert(comics@.take(i + 1).drop_last() =~= comics@.take(i as int));
        assert(comics@.take(i + 1).last() == comics@[i as int]);
        let comic = &comics[i];
        let own = match tags.get(comic.endpoint.as_str()) {
            Some(found) => clone_texts(found),
            None => Vec::new(),
        };
        assert(lines_view(own@) =~= tags_of(tags@, comic@.endpoint));
        let by_search = match &query.search {
            Some(words) => is_search_hit(comic, words.as_str()),
            None => true,
        };
        let by_tag = match &query.tag {
            Some(name) => has_tag(&own, name.as_str()),
            None => true,
        };
        if by_search && by_tag {
            let ghost before = tagged_view(out@);
            out.push(ComicWithTags { comic: comic.duplicate(), tags: own });
            assert(tagged_view(out@) =~= before.push(
                TaggedView { comic: comic@, tags: tags_of(tags@, comic@.endpoint) },
            ));
        }
        i += 1;
    }
    assert(comics@.take(i as int) =~= comics@);
    out
}

} // verus!
