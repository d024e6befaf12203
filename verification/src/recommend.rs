//! Recommendations: the series that share tags, an author or a source with
//! the series a reader has picked.
//!
//! A shared tag is worth one point for each picked series that carries it, a
//! shared author two, a shared source half a point. Points are counted in
//! half points, so that all of it is whole numbers.

use crate::models::{opt_view, Comic, ComicView, ComicWithTags, TaggedView};
use crate::routes::{tagged_view, tags_of, RecommendationsQuery};
use crate::text::{clone_texts, has_text, lines_view, pieces, same_text, split_char, trim, trimmed};
use crate::TagTable;
use vstd::prelude::*;

verus! {

/// How many series are recommended where the query names no limit.
pub const DEFAULT_LIMIT: usize = 10;

/// The tag of the series in Spanish, which are recommended only to a reader
/// who picked one.
pub const SPANISH: &'static str = "en-espanol";

/// The half points of a shared author.
pub const AUTHOR_POINTS: u64 = 4;

/// The half points of a shared source.
pub const SOURCE_POINTS: u64 = 1;

/// `n`, or the greatest number that the machine counts to where `n` is
/// greater.
pub open spec fn cap(n: nat) -> u64 {
    if n > u64::MAX {
        u64::MAX
    } else {
        n as u64
    }
}

/// The sum of two capped numbers, capped.
pub fn add_capped(a: u64, b: u64) -> (r: u64)
    ensures
        r == cap((a + b) as nat),
{
    if a > u64::MAX - b {
        u64::MAX
    } else {
        a + b
    }
}

/// The pieces, trimmed, without those that are empty then.
pub open spec fn chosen(parts: Seq<Seq<char>>) -> Seq<Seq<char>>
    decreases parts.len(),
{
    if parts.len() == 0 {
        Seq::empty()
    } else if trimmed(parts.last()).len() > 0 {
        chosen(parts.drop_last()).push(trimmed(parts.last()))
    } else {
        chosen(parts.drop_last())
    }
}

/// The endpoints that a query picks: the pieces of its comma-separated
/// list, trimmed, without the empty ones. A query without a list picks
/// none.
pub open spec fn selected_of(selected: Option<Seq<char>>) -> Seq<Seq<char>> {
    match selected {
        Some(list) => chosen(pieces(list, ',')),
        None => Seq::empty(),
    }
}

/// How often `item` occurs in `list`.
pub open spec fn count_in(list: Seq<Seq<char>>, item: Seq<char>) -> nat
    decreases list.len(),
{
    if list.len() == 0 {
        0
    } else {
        count_in(list.drop_last(), item) + if list.last() == item {
            1nat
        } else {
            0nat
        }
    }
}

/// The weight of `tag`: how often the picked series carry it, all told.
pub open spec fn weight(
    selected: Seq<Seq<char>>,
    tags: Map<Seq<char>, Vec<String>>,
    tag: Seq<char>,
) -> nat
    decreases selected.len(),
{
    if selected.len() == 0 {
        0
    } else {
        weight(selected.drop_last(), tags, tag) + count_in(tags_of(tags, selected.last()), tag)
    }
}

/// The points that its tags earn a series: the weights of its tags, all
/// told.
pub open spec fn tag_points(
    own: Seq<Seq<char>>,
    selected: Seq<Seq<char>>,
    tags: Map<Seq<char>, Vec<String>>,
) -> nat
    decreases own.len(),
{
    if own.len() == 0 {
        0
    } else {
        tag_points(own.drop_last(), selected, tags) + weight(selected, tags, own.last())
    }
}

/// The first series of the directory with the endpoint `endpoint`.
pub open spec fn first_series(comics: Seq<Comic>, endpoint: Seq<char>) -> Option<ComicView>
    decreases comics.len(),
{
    if comics.len() == 0 {
        None
    } else if comics[0].endpoint@ == endpoint {
        Some(comics[0]@)
    } else {
        first_series(comics.drop_first(), endpoint)
    }
}

/// The authors of the picked series, as far as the directory knows the
/// series and names an author.
pub open spec fn picked_authors(selected: Seq<Seq<char>>, comics: Seq<Comic>) -> Seq<Seq<char>>
    decreases selected.len(),
{
    if selected.len() == 0 {
        Seq::empty()
    } else {
        let rest = picked_authors(selected.drop_last(), comics);
        match first_series(comics, selected.last()) {
            Some(series) => match series.author {
                Some(author) => rest.push(author),
                None => rest,
            },
            None => rest,
        }
    }
}

/// The sources of the picked series, as far as the directory knows the
/// series.
pub open spec fn picked_sources(selected: Seq<Seq<char>>, comics: Seq<Comic>) -> Seq<Seq<char>>
    decreases selected.len(),
{
    if selected.len() == 0 {
        Seq::empty()
    } else {
        let rest = picked_sources(selected.drop_last(), comics);
        match first_series(comics, selected.last()) {
            Some(series) => rest.push(series.source),
            None => rest,
        }
    }
}

/// The half points of a series: two for each point of its tags, four where
/// a picked series has its author, one where a picked series has its
/// source; as far as the machine counts.
pub open spec fn half_points(
    comic: ComicView,
    own: Seq<Seq<char>>,
    selected: Seq<Seq<char>>,
    authors: Seq<Seq<char>>,
    sources: Seq<Seq<char>>,
    tags: Map<Seq<char>, Vec<String>>,
) -> u64 {
    let from_author = if comic.author matches Some(author) && authors.contains(author) {
        AUTHOR_POINTS as nat
    } else {
        0nat
    };
    let from_source = if sources.contains(comic.source) {
        SOURCE_POINTS as nat
    } else {
        0nat
    };
    cap(2 * tag_points(own, selected, tags) + from_author + from_source)
}

/// Whether a series may be recommended at all: it is available, the reader
/// has not picked it, and it is not in Spanish unless the reader picked a
/// series in Spanish.
pub open spec fn is_candidate(
    comic: ComicView,
    own: Seq<Seq<char>>,
    selected: Seq<Seq<char>>,
    tags: Map<Seq<char>, Vec<String>>,
) -> bool {
    &&& comic.available
    &&& !selected.contains(comic.endpoint)
    &&& weight(selected, tags, SPANISH@) > 0 || !own.contains(SPANISH@)
}

/// A series with its half points.
pub struct Scored {
    pub points: u64,
    pub series: ComicWithTags,
}

/// A scored series as plain values.
pub struct ScoredView {
    pub points: u64,
    pub series: TaggedView,
}

impl View for Scored {
    type V = ScoredView;

    open spec fn view(&self) -> ScoredView {
        ScoredView { points: self.points, series: self.series@ }
    }
}

/// A run of scored series as plain values.
pub open spec fn scored_view(items: Seq<Scored>) -> Seq<ScoredView> {
    Seq::new(items.len(), |i: int| items[i]@)
}

/// The series among `pool` that may be recommended and earn points, each
/// with its half points, in the order of the directory.
pub open spec fn candidates(
    pool: Seq<Comic>,
    selected: Seq<Seq<char>>,
    authors: Seq<Seq<char>>,
    sources: Seq<Seq<char>>,
    tags: Map<Seq<char>, Vec<String>>,
) -> Seq<ScoredView>
    decreases pool.len(),
{
    if pool.len() == 0 {
        Seq::empty()
    } else {
        let rest = candidates(pool.drop_last(), selected, authors, sources, tags);
        let comic = pool.last()@;
        let own = tags_of(tags, comic.endpoint);
        let points = half_points(comic, own, selected, authors, sources, tags);
        if is_candidate(comic, own, selected, tags) && points > 0 {
            rest.push(ScoredView { points, series: TaggedView { comic, tags: own } })
        } else {
            rest
        }
    }
}

/// Where a series with `points` goes among `ranked`: behind the last series
/// that has no fewer points.
pub open spec fn rank_of(ranked: Seq<ScoredView>, points: u64) -> int
    decreases ranked.len(),
{
    if ranked.len() == 0 {
        0
    } else if ranked.last().points >= points {
        ranked.len() as int
    } else {
        rank_of(ranked.drop_last(), points)
    }
}

/// The series by falling points; series with the same points stay in the
/// order in which they came.
pub open spec fn by_points(items: Seq<ScoredView>) -> Seq<ScoredView>
    decreases items.len(),
{
    if items.len() == 0 {
        Seq::empty()
    } else {
        let ranked = by_points(items.drop_last());
        ranked.insert(rank_of(ranked, items.last().points), items.last())
    }
}

/// The first `limit` of the series, without their points.
pub open spec fn top(ranked: Seq<ScoredView>, limit: usize) -> Seq<TaggedView> {
    Seq::new(
        if limit < ranked.len() {
            limit as nat
        } else {
            ranked.len()
        },
        |i: int| ranked[i].series,
    )
}

/// The recommendations for a query: none for a reader who picked nothing;
/// otherwise the series that may be recommended and earn points, by falling
/// points, as many as the limit allows.
pub open spec fn recommended(
    comics: Seq<Comic>,
    tags: Map<Seq<char>, Vec<String>>,
    selected: Option<Seq<char>>,
    limit: Option<usize>,
) -> Seq<TaggedView> {
    let picked = selected_of(selected);
    if picked.len() == 0 {
        Seq::empty()
    } else {
        top(
            by_points(
                candidates(
                    comics,
                    picked,
                    picked_authors(picked, comics),
                    picked_sources(picked, comics),
                    tags,
                ),
            ),
            match limit {
                Some(n) => n,
                None => DEFAULT_LIMIT,
            },
        )
    }
}

/// The endpoints that a query picks.
pub fn selected_endpoints(query: &RecommendationsQuery) -> (r: Vec<String>)
    ensures
        lines_view(r@) == selected_of(opt_view(query.selected)),
{
    let mut out: Vec<String> = Vec::new();
    let list = match &query.selected {
        Some(list) => list,
        None => {
            assert(lines_view(out@) =~= Seq::<Seq<char>>::empty());
            return out;
        },
    };
    let parts = split_char(list.as_str(), ',');
    let ghost all = lines_view(parts@);
    let mut i: usize = 0;
    assert(lines_view(out@) =~= chosen(all.take(0)));
    while i < parts.len()
        invariant
            i <= parts@.len(),
            all == lines_view(parts@),
            lines_view(out@) == chosen(all.take(i as int)),
        decreases parts@.len() - i,
    {
        assert(all.take(i + 1).drop_last() =~= all.take(i as int));
        assert(all.take(i + 1).last() == parts@[i as int]@);
        let part = trim(parts[i].as_str());
        if !part.as_str().is_empty() {
            let ghost before = lines_view(out@);
            let ghost text = part@;
            out.push(part);
            assert(lines_view(out@) =~= before.push(text));
        }
        i += 1;
    }
    assert(all.take(i as int) =~= all);
    out
}

/// How often `item` occurs in `list`.
pub fn count_text(list: &Vec<String>, item: &str) -> (r: u64)
    ensures
        r == cap(count_in(lines_view(list@), item@)),
{
    let ghost all = lines_view(list@);
    let mut n: u64 = 0;
    let mut i: usize = 0;
    assert(all.take(0) =~= Seq::<Seq<char>>::empty());
    while i < list.len()
        invariant
            i <= list@.len(),
            all == lines_view(list@),
            n == cap(count_in(all.take(i as int), item@)),
        decreases list@.len() - i,
    {
        assert(all.take(i + 1).drop_last() =~= all.take(i as int));
        assert(all.take(i + 1).last() == list@[i as int]@);
        if same_text(list[i].as_str(), item) {
            n = add_capped(n, 1);
        }
        i += 1;
    }
    assert(all.take(i as int) =~= all);
    n
}

/// The weight of `tag`: how often the picked series carry it, all told.
pub fn weight_of(selected: &Vec<String>, tags: &TagTable, tag: &str) -> (r: u64)
    ensures
        r == cap(weight(lines_view(selected@), tags@, tag@)),
{
    let ghost all = lines_view(selected@);
    let mut total: u64 = 0;
    let mut i: usize = 0;
    assert(all.take(0) =~= Seq::<Seq<char>>::empty());
    while i < selected.len()
        invariant
            i <= selected@.len(),
            all == lines_view(selected@),
            total == cap(weight(all.take(i as int), tags@, tag@)),
        decreases selected@.len() - i,
    {
        assert(all.take(i + 1).drop_last() =~= all.take(i as int));
        assert(all.take(i + 1).last() == selected@[i as int]@);
        match tags.get(selected[i].as_str()) {
            Some(own) => {
                total = add_capped(total, count_text(own, tag));
            },
            None => {
                assert(count_in(Seq::<Seq<char>>::empty(), tag@) == 0);
            },
        }
        i += 1;
    }
    assert(all.take(i as int) =~= all);
    total
}

/// The points that its tags earn a series.
pub fn tag_points_of(own: &Vec<String>, selected: &Vec<String>, tags: &TagTable) -> (r: u64)
    ensures
        r == cap(tag_points(lines_view(own@), lines_view(selected@), tags@)),
{
    let ghost all = lines_view(own@);
    let mut total: u64 = 0;
    let mut i: usize = 0;
    assert(all.take(0) =~= Seq::<Seq<char>>::empty());
    while i < own.len()
        invariant
            i <= own@.len(),
            all == lines_view(own@),
            total == cap(tag_points(all.take(i as int), lines_view(selected@), tags@)),
        decreases own@.len() - i,
    {
        assert(all.take(i + 1).drop_last() =~= all.take(i as int));
        assert(all.take(i + 1).last() == own@[i as int]@);
        total = add_capped(total, weight_of(selected, tags, own[i].as_str()));
        i += 1;
    }
    assert(all.take(i as int) =~= all);
    total
}

/// The first series of the directory with the endpoint `endpoint`.
pub fn find_series<'a>(comics: &'a Vec<Comic>, endpoint: &str) -> (r: Option<&'a Comic>)
    ensures
        match r {
            Some(series) => first_series(comics@, endpoint@) == Some(series@),
            None => first_series(comics@, endpoint@) is None,
        },
{
    let mut i: usize = 0;
    assert(comics@.skip(0) =~= comics@);
    while i < comics.len()
        invariant
            i <= comics@.len(),
            first_series(comics@, endpoint@) == first_series(comics@.skip(i as int), endpoint@),
        decreases comics@.len() - i,
    {
        assert(comics@.skip(i as int)[0] == comics@[i as int]);
        assert(comics@.skip(i as int).drop_first() =~= comics@.skip(i + 1));
        if same_text(comics[i].endpoint.as_str(), endpoint) {
            return Some(&comics[i]);
        }
        i += 1;
    }
    None
}

/// The authors and the sources of the picked series.
pub fn picked_traits(selected: &Vec<String>, comics: &Vec<Comic>) -> (r: (Vec<String>, Vec<String>))
    ensures
        lines_view(r.0@) == picked_authors(lines_view(selected@), comics@),
        lines_view(r.1@) == picked_sources(lines_view(selected@), comics@),
{
    let ghost all = lines_view(selected@);
    let mut authors: Vec<String> = Vec::new();
    let mut sources: Vec<String> = Vec::new();
    let mut i: usize = 0;
    assert(all.take(0) =~= Seq::<Seq<char>>::empty());
    assert(lines_view(authors@) =~= picked_authors(all.take(0), comics@));
    assert(lines_view(sources@) =~= picked_sources(all.take(0), comics@));
    while i < selected.len()
        invariant
            i <= selected@.len(),
            all == lines_view(selected@),
            lines_view(authors@) == picked_authors(all.take(i as int), comics@),
            lines_view(sources@) == picked_sources(all.take(i as int), comics@),
        decreases selected@.len() - i,
    {
        assert(all.take(i + 1).drop_last() =~= all.take(i as int));
        assert(all.take(i + 1).last() == selected@[i as int]@);
        match find_series(comics, selected[i].as_str()) {
            Some(series) => {
                match &series.author {
                    Some(author) => {
                        let ghost before = lines_view(authors@);
                        authors.push(author.clone());
                        assert(lines_view(authors@) =~= before.push(author@));
                    },
                    None => {},
                }
                let ghost before = lines_view(sources@);
                sources.push(series.source.clone());
                assert(lines_view(sources@) =~= before.push(series.source@));
            },
            None => {},
        }
        i += 1;
    }
    assert(all.take(i as int) =~= all);
    (authors, sources)
}

/// The half points of a series.
pub fn score(
    comic: &Comic,
    own: &Vec<String>,
    selected: &Vec<String>,
    authors: &Vec<String>,
    sources: &Vec<String>,
    tags: &TagTable,
) -> (r: u64)
    ensures
        r == half_points(
            comic@,
            lines_view(own@),
            lines_view(selected@),
            lines_view(authors@),
            lines_view(sources@),
            tags@,
        ),
{
    let from_tags = tag_points_of(own, selected, tags);
    let mut points = add_capped(from_tags, from_tags);
    let shares_author = match &comic.author {
        Some(author) => has_text(authors, author.as_str()),
        None => false,
    };
    if shares_author {
        points = add_capped(points, AUTHOR_POINTS);
    }
    if has_text(sources, comic.source.as_str()) {
        points = add_capped(points, SOURCE_POINTS);
    }
    points
}

/// Puts `item` in its place among series that stand by falling points:
/// behind the last one that has no fewer points.
pub fn rank(ranked: &mut Vec<Scored>, item: Scored)
    ensures
        scored_view(final(ranked)@) == scored_view(old(ranked)@).insert(
            rank_of(scored_view(old(ranked)@), item.points),
            item@,
        ),
{
    let ghost before = scored_view(ranked@);
    let mut p: usize = ranked.len();
    while p > 0 && ranked[p - 1].points < item.points
        invariant
            p <= ranked@.len(),
            ranked@ == old(ranked)@,
            before == scored_view(ranked@),
            forall|j: int| p <= j < before.len() ==> (#[trigger] before[j]).points < item.points,
        decreases p,
    {
        assert(before[p - 1] == ranked@[p - 1]@);
        p -= 1;
    }
    proof {
        if p > 0 {
            assert(before[p - 1] == ranked@[p - 1]@);
        }
        lemma_rank_is(before, item.points, p as int);
    }
    let ghost placed = item@;
    ranked.insert(p, item);
    assert(scored_view(ranked@) =~= before.insert(p as int, placed)) by {
        before.insert_ensures(p as int, placed);
        old(ranked)@.insert_ensures(p as int, item);
    }
}

/// A place behind a series with no fewer points and before series with
/// fewer points only is the place of the points.
pub proof fn lemma_rank_is(ranked: Seq<ScoredView>, points: u64, p: int)
    requires
        0 <= p <= ranked.len(),
        forall|j: int| p <= j < ranked.len() ==> (#[trigger] ranked[j]).points < points,
        p > 0 ==> ranked[p - 1].points >= points,
    ensures
        rank_of(ranked, points) == p,
    decreases ranked.len(),
{
    if ranked.len() > 0 && p < ranked.len() {
        assert(ranked[ranked.len() - 1].points < points);
        let rest = ranked.drop_last();
        assert forall|j: int| p <= j < rest.len() implies (#[trigger] rest[j]).points < points by {
            assert(rest[j] == ranked[j]);
        }
        if p > 0 {
            assert(rest[p - 1] == ranked[p - 1]);
        }
        lemma_rank_is(rest, points, p);
    }
}

/// The recommendations for `query`.
pub fn get_recommendations(
    comics: &Vec<Comic>,
    tags: &TagTable,
    query: &RecommendationsQuery,
) -> (r: Vec<ComicWithTags>)
    ensures
        tagged_view(r@) == recommended(comics@, tags@, opt_view(query.selected), query.limit),
{
    let limit = match query.limit {
        Some(n) => n,
        None => DEFAULT_LIMIT,
    };
    let selected = selected_endpoints(query);
    let mut out: Vec<ComicWithTags> = Vec::new();
    if selected.len() == 0 {
        assert(tagged_view(out@) =~= Seq::<TaggedView>::empty());
        return out;
    }
    let (authors, sources) = picked_traits(&selected, comics);
    let spanish = weight_of(&selected, tags, SPANISH) > 0;
    let ghost picked = lines_view(selected@);
    let ghost auth = lines_view(authors@);
    let ghost src = lines_view(sources@);
    let mut ranked: Vec<Scored> = Vec::new();
    let mut i: usize = 0;
    assert(scored_view(ranked@) =~= by_points(
        candidates(comics@.take(0), picked, auth, src, tags@),
    ));
    while i < comics.len()
        invariant
            i <= comics@.len(),
            picked == lines_view(selected@),
            auth == lines_view(authors@),
            src == lines_view(sources@),
            spanish == (weight(picked, tags@, SPANISH@) > 0),
            scored_view(ranked@) == by_points(
                candidates(comics@.take(i as int), picked, auth, src, tags@),
            ),
        decreases comics@.len() - i,
    {
        assert(comics@.take(i + 1).drop_last() =~= comics@.take(i as int));
        assert(comics@.take(i + 1).last() == comics@[i as int]);
        let ghost seen = candidates(comics@.take(i as int), picked, auth, src, tags@);
        let comic = &comics[i];
        if comic.available && !has_text(&selected, comic.endpoint.as_str()) {
            let own = match tags.get(comic.endpoint.as_str()) {
                Some(found) => clone_texts(found),
                None => Vec::new(),
            };
            assert(lines_view(own@) =~= tags_of(tags@, comic@.endpoint));
            if spanish || !has_text(&own, SPANISH) {
                let points = score(comic, &own, &selected, &authors, &sources, tags);
                if points > 0 {
                    let item = Scored {
                        points,
                        series: ComicWithTags { comic: comic.duplicate(), tags: own },
                    };
                    assert(seen.push(item@).drop_last() =~= seen);
                    rank(&mut ranked, item);
                }
            }
        }
        i += 1;
    }
    assert(comics@.take(i as int) =~= comics@);
    let ghost all = scored_view(ranked@);
    let mut k: usize = 0;
    while k < ranked.len() && k < limit
        invariant
            k <= ranked@.len(),
            k <= limit,
            all == scored_view(ranked@),
            out@.len() == k,
            forall|j: int| 0 <= j < k ==> (#[trigger] out@[j])@ == all[j].series,
        decreases ranked@.len() - k,
    {
        let series = &ranked[k].series;
        assert(all[k as int] == ranked@[k as int]@);
        out.push(
            ComicWithTags { comic: series.comic.duplicate(), tags: clone_texts(&series.tags) },
        );
        k += 1;
    }
    assert(tagged_view(out@) =~= top(all, limit));
    out
}

/// Whether the points never rise from one series to the next.
pub open spec fn falling(items: Seq<ScoredView>) -> bool {
    forall|i: int, j: int| 0 <= i < j < items.len() ==> items[i].points >= items[j].points
}

/// The place of a series is marked by its neighbours: every series from
/// there on has fewer points, and the series just before has no fewer.
pub proof fn lemma_rank_of(ranked: Seq<ScoredView>, points: u64)
    ensures
        0 <= rank_of(ranked, points) <= ranked.len(),
        forall|j: int|
            rank_of(ranked, points) <= j < ranked.len() ==> (#[trigger] ranked[j]).points
                < points,
        rank_of(ranked, points) > 0 ==> ranked[rank_of(ranked, points) - 1].points >= points,
    decreases ranked.len(),
{
    if ranked.len() > 0 && ranked.last().points < points {
        let rest = ranked.drop_last();
        lemma_rank_of(rest, points);
        let p = rank_of(ranked, points);
        assert forall|j: int| p <= j < ranked.len() implies (#[trigger] ranked[j]).points
            < points by {
            if j < ranked.len() - 1 {
                assert(ranked[j] == rest[j]);
            }
        }
        if p > 0 {
            assert(ranked[p - 1] == rest[p - 1]);
        }
    }
}

/// Putting a series in its place keeps the points falling.
pub proof fn lemma_ranked_is_falling(ranked: Seq<ScoredView>, item: ScoredView)
    requires
        falling(ranked),
    ensures
        falling(ranked.insert(rank_of(ranked, item.points), item)),
        ranked.insert(rank_of(ranked, item.points), item).len() == ranked.len() + 1,
{
    lemma_rank_of(ranked, item.points);
    let p = rank_of(ranked, item.points);
    let out = ranked.insert(p, item);
    ranked.insert_ensures(p, item);
    assert forall|i: int, j: int| 0 <= i < j < out.len() implies out[i].points
        >= out[j].points by {
        if j < p {
            assert(out[i] == ranked[i] && out[j] == ranked[j]);
        } else if j == p {
            assert(out[i] == ranked[i]);
            assert(out[j] == item);
            if i < p - 1 {
                assert(ranked[i].points >= ranked[p - 1].points);
            }
        } else if i < p {
            assert(out[i] == ranked[i] && out[j] == ranked[j - 1]);
            if i < j - 1 {
                assert(ranked[i].points >= ranked[j - 1].points);
            }
        } else if i == p {
            assert(out[i] == item);
            assert(out[j] == ranked[j - 1]);
        } else {
            assert(out[i] == ranked[i - 1] && out[j] == ranked[j - 1]);
            assert(ranked[i - 1].points >= ranked[j - 1].points);
        }
    }
}

/// Putting a series in its place adds that series and no other.
pub proof fn lemma_ranked_keeps_series(ranked: Seq<ScoredView>, item: ScoredView)
    ensures
        ranked.insert(rank_of(ranked, item.points), item).to_multiset()
            == ranked.to_multiset().insert(item),
{
    lemma_rank_of(ranked, item.points);
    let p = rank_of(ranked, item.points);
    let out = ranked.insert(p, item);
    ranked.insert_ensures(p, item);
    assert(out.remove(p) =~= ranked);
    assert(out[p] == item);
    vstd::seq_lib::to_multiset_remove(out, p);
    out.to_multiset_ensures();
    assert(out.contains(item));
    assert(out.to_multiset().count(item) > 0);
    assert(out.to_multiset() =~= ranked.to_multiset().insert(item));
}

/// Ranking keeps every series and puts them in the order of falling points.
pub proof fn lemma_by_points_sorts(items: Seq<ScoredView>)
    ensures
        falling(by_points(items)),
        by_points(items).len() == items.len(),
        by_points(items).to_multiset() == items.to_multiset(),
    decreases items.len(),
{
    if items.len() == 0 {
        assert(by_points(items) =~= items);
    } else {
        let rest = items.drop_last();
        lemma_by_points_sorts(rest);
        lemma_ranked_is_falling(by_points(rest), items.last());
        lemma_ranked_keeps_series(by_points(rest), items.last());
        assert(rest.push(items.last()) =~= items);
        vstd::seq_lib::to_multiset_build(rest, items.last());
    }
}

} // verus!
