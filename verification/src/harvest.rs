//! The bulk harvester: fills the snapshot table from the web archive.
//!
//! One query lists every snapshot the archive holds. The dates that the
//! table lacks are then fetched in batches; the table is saved as soon as
//! a hundred strips have come in since it was saved last, and once more at
//! the end, so that never more than ninety-nine strips are at stake. The
//! harvester itself fetches and saves nothing: it says what to fetch and
//! when to save, and is told what came back.

use crate::error::{label_of, ErrorKind, ErrorView, PanelsError};
use crate::http_client::{plain_request, PageRequest, PageResponse};
use crate::sources::dilbert::{
    dilbert_strip_url, parse_snapshot, snapshot_entry, strip_address, wayback_address, wayback_url,
    DilbertCacheEntry, EntryView, SnapshotIndex, SnapshotTable,
};
use crate::text::{
    after_last_char, char_to_digit, chars_of, is_digit, join2, lines_view, pieces, split_char,
    text_after_last, words, words_of,
};
use vstd::prelude::*;
use vstd::string::StringExecFns;

verus! {

/// The query that lists every good snapshot of a strip page, one per page,
/// none later than the last strip.
pub const INDEX_URL: &'static str =
    "https://web.archive.org/cdx/search/cdx?url=dilbert.com/strip/*&fl=original,timestamp&filter=statuscode:200&collapse=urlkey&to=20230312&limit=100000";

/// How many more attempts follow a failed first one, for the index.
pub const INDEX_RETRIES: u32 = 3;

/// How long one attempt at the index may take, in milliseconds.
pub const INDEX_TIMEOUT_MS: u64 = 60000;

/// How many more attempts follow a failed first one, for a snapshot.
pub const PAGE_RETRIES: u32 = 2;

/// How long one attempt at a snapshot may take, in milliseconds.
pub const PAGE_TIMEOUT_MS: u64 = 20000;

/// How many snapshots are fetched at a time.
pub const CONCURRENCY: usize = 8;

/// After how many new strips the table is saved.
pub const SAVE_INTERVAL: u64 = 100;

/// The pause after each batch, in milliseconds.
pub const BATCH_PAUSE_MS: u64 = 200;

/// Where the table is kept.
pub const CACHE_PATH: &'static str = "data/dilbert_cache.json";

/// Whether `token` is written like a date: four digits, a hyphen, two
/// digits, a hyphen, two digits.
pub open spec fn looks_like_date(token: Seq<char>) -> bool {
    &&& token.len() == 10
    &&& token[4] == '-'
    &&& token[7] == '-'
    &&& forall|i: int| 0 <= i < 10 && i != 4 && i != 7 ==> is_digit(#[trigger] token[i])
}

/// What one row of the index says: the date at the end of the address in
/// its first column, and the timestamp in its second. The columns are the
/// words of the row. `None` for a row that has not two columns, or whose
/// address does not end in a date.
pub open spec fn row_entry(line: Seq<char>) -> Option<(Seq<char>, Seq<char>)> {
    let columns = words_of(line);
    if columns.len() == 2 && looks_like_date(after_last_char(columns[0], '/')) {
        Some((after_last_char(columns[0], '/'), columns[1]))
    } else {
        None
    }
}

/// What the index says, row by row: a later row for a date replaces an
/// earlier one.
pub open spec fn index_of(rows: Seq<Seq<char>>) -> Map<Seq<char>, Seq<char>>
    decreases rows.len(),
{
    if rows.len() == 0 {
        Map::empty()
    } else {
        match row_entry(rows.last()) {
            Some(entry) => index_of(rows.drop_last()).insert(entry.0, entry.1),
            None => index_of(rows.drop_last()),
        }
    }
}

/// An index as plain values.
pub open spec fn index_view(index: SnapshotIndex) -> Map<Seq<char>, Seq<char>> {
    index@.map_values(|timestamp: String| timestamp@)
}

/// Whether `token` is written like a date.
pub fn is_date_like(token: &str) -> (r: bool)
    ensures
        r == looks_like_date(token@),
{
    let chars = chars_of(token);
    if chars.len() != 10 || chars[4] != '-' || chars[7] != '-' {
        return false;
    }
    let mut i: usize = 0;
    while i < 10
        invariant
            i <= 10,
            chars@ == token@,
            chars@.len() == 10,
            chars@[4] == '-',
            chars@[7] == '-',
            forall|j: int| 0 <= j < i && j != 4 && j != 7 ==> is_digit(#[trigger] chars@[j]),
        decreases 10 - i,
    {
        if i != 4 && i != 7 && char_to_digit(chars[i]).is_none() {
            assert(!is_digit(token@[i as int]));
            return false;
        }
        i += 1;
    }
    true
}

/// What one row of the index says, given its columns.
pub fn entry_from_columns(columns: &Vec<String>) -> (r: Option<(String, String)>)
    ensures
        match r {
            Some(entry) => columns@.len() == 2 && looks_like_date(
                after_last_char(columns@[0]@, '/'),
            ) && entry.0@ == after_last_char(columns@[0]@, '/') && entry.1@ == columns@[1]@,
            None => !(columns@.len() == 2 && looks_like_date(after_last_char(columns@[0]@, '/'))),
        },
{
    if columns.len() != 2 {
        return None;
    }
    let date = text_after_last(columns[0].as_str(), '/');
    if is_date_like(date.as_str()) {
        Some((date, columns[1].clone()))
    } else {
        None
    }
}

/// Reads the answer to the index query, one row to a line.
pub fn parse_index(text: &str) -> (r: SnapshotIndex)
    ensures
        index_view(r) == index_of(pieces(text@, '\n')),
{
    let rows = split_char(text, '\n');
    let ghost all = lines_view(rows@);
    let mut index = SnapshotIndex::new();
    let mut i: usize = 0;
    assert(index_view(index) =~= index_of(all.take(0)));
    while i < rows.len()
        invariant
            i <= rows@.len(),
            all == lines_view(rows@),
            index_view(index) == index_of(all.take(i as int)),
        decreases rows@.len() - i,
    {
        assert(all.take(i + 1).drop_last() =~= all.take(i as int));
        assert(all.take(i + 1).last() == rows@[i as int]@);
        let columns = words(rows[i].as_str());
        let ghost before = index@;
        match entry_from_columns(&columns) {
            Some(entry) => {
                assert(lines_view(columns@)[0] == columns@[0]@);
                assert(lines_view(columns@)[1] == columns@[1]@);
                let ghost date = entry.0@;
                let ghost timestamp = entry.1;
                index.insert(entry.0, entry.1);
                assert(index_view(index) =~= before.map_values(|t: String| t@).insert(
                    date,
                    timestamp@,
                ));
            },
            None => {
                assert(columns@.len() == 2 ==> lines_view(columns@)[0] == columns@[0]@);
            },
        }
        i += 1;
    }
    assert(all.take(i as int) =~= all);
    index
}

/// The error for an index that could not be fetched.
pub open spec fn index_failed(why: Seq<char>) -> ErrorView {
    ErrorView { kind: ErrorKind::Internal, detail: "CDX bulk fetch failed: "@ + why }
}

/// The error for an index that was not there.
pub open spec fn index_missing() -> ErrorView {
    ErrorView { kind: ErrorKind::Internal, detail: "CDX bulk fetch returned empty"@ }
}

/// What the fetch of the index comes to: the index that the answer spells
/// out. Without an answer there is no run: a fetch that failed or missed is
/// an error.
pub fn read_index(fetched: Result<Option<PageResponse>, PanelsError>) -> (r: Result<
    SnapshotIndex,
    PanelsError,
>)
    ensures
        match fetched {
            Ok(Some(page)) => r matches Ok(index) && index_view(index) == index_of(
                pieces(page.html@, '\n'),
            ),
            Ok(None) => r matches Err(e) && e@ == index_missing(),
            Err(failure) => r matches Err(e) && e@ == index_failed(
                label_of(failure@.kind) + failure@.detail,
            ),
        },
{
    match fetched {
        Ok(Some(page)) => Ok(parse_index(page.html.as_str())),
        Ok(None) => Err(PanelsError::Internal(String::from_str("CDX bulk fetch returned empty"))),
        Err(failure) => Err(
            PanelsError::Internal(join2("CDX bulk fetch failed: ", failure.to_text().as_str())),
        ),
    }
}

/// One snapshot to fetch.
#[derive(Debug, Clone)]
pub struct Job {
    pub date: String,
    pub timestamp: String,
}

/// A job as plain values.
pub struct JobView {
    pub date: Seq<char>,
    pub timestamp: Seq<char>,
}

impl View for Job {
    type V = JobView;

    open spec fn view(&self) -> JobView {
        JobView { date: self.date@, timestamp: self.timestamp@ }
    }
}

/// A run of jobs as plain values.
pub open spec fn jobs_view(jobs: Seq<Job>) -> Seq<JobView> {
    Seq::new(jobs.len(), |i: int| jobs[i]@)
}

/// The work that the first `n` rows of `index` leave to do, given `table`:
/// a job for each row whose date the table lacks, in the order of the rows.
pub open spec fn work_set(
    index: SnapshotIndex,
    table: Map<Seq<char>, DilbertCacheEntry>,
    n: int,
) -> Seq<JobView>
    decreases n,
{
    if n <= 0 {
        Seq::empty()
    } else {
        let rest = work_set(index, table, n - 1);
        if table.contains_key(index.key_at(n - 1)) {
            rest
        } else {
            rest.push(JobView { date: index.key_at(n - 1), timestamp: index.entry_at(n - 1)@ })
        }
    }
}

/// The end of the batch that begins at job `next` of `total` jobs.
pub open spec fn batch_end(next: int, total: int) -> int {
    if next + CONCURRENCY >= total {
        total
    } else {
        next + CONCURRENCY
    }
}

/// Whether the table is to be saved, `unsaved` strips having come in since
/// it was saved last: as soon as they are as many as the interval.
pub open spec fn save_is_due(unsaved: u64) -> bool {
    unsaved >= SAVE_INTERVAL
}

/// The address that replays the snapshot of a job.
pub open spec fn job_address(job: JobView) -> Seq<char> {
    wayback_address(job.timestamp, strip_address(job.date))
}

/// What a fetched snapshot is worth: the entry that it shows, and nothing
/// where the fetch failed or missed.
pub open spec fn outcome_of(fetched: Result<Option<PageResponse>, PanelsError>) -> Option<
    EntryView,
> {
    match fetched {
        Ok(Some(page)) => snapshot_entry(page.html@),
        _ => None,
    }
}

/// The totals of a run.
#[derive(Clone, Copy, Debug, PartialEq, Eq, Structural)]
pub struct Report {
    /// The dates that the table held before the run.
    pub already_cached: usize,
    /// The strips that the run added.
    pub fetched: u64,
    /// The dates that the run gave up on.
    pub errors: u64,
    /// The dates that the table holds now.
    pub total_cached: usize,
}

/// A count, one further; a count that the machine cannot carry further
/// stays.
pub open spec fn counted_up(n: u64) -> u64 {
    if n < u64::MAX {
        (n + 1) as u64
    } else {
        n
    }
}

/// A count, one further.
pub fn count_up(n: u64) -> (r: u64)
    ensures
        r == counted_up(n),
{
    if n < u64::MAX {
        n + 1
    } else {
        n
    }
}

/// One run of the harvester.
pub struct Harvest {
    table: SnapshotTable,
    jobs: Vec<Job>,
    next: usize,
    already_cached: usize,
    fetched: u64,
    errors: u64,
    unsaved: u64,
}

impl Harvest {
    /// The table as it stands.
    pub closed spec fn table_view(&self) -> Map<Seq<char>, DilbertCacheEntry> {
        self.table@
    }

    /// The jobs of the run, done or not.
    pub closed spec fn jobs(&self) -> Seq<JobView> {
        jobs_view(self.jobs@)
    }

    /// The number of jobs that were handed out.
    pub closed spec fn handed_out(&self) -> int {
        if self.next >= self.jobs@.len() {
            self.jobs@.len() as int
        } else {
            self.next as int
        }
    }

    /// The strips that the run added so far.
    pub closed spec fn fetched(&self) -> u64 {
        self.fetched
    }

    /// The dates that the run gave up on so far.
    pub closed spec fn errors(&self) -> u64 {
        self.errors
    }

    /// The strips that came in since the table was saved last.
    pub closed spec fn unsaved(&self) -> u64 {
        self.unsaved
    }

    /// The dates that the table held before the run.
    pub closed spec fn already_cached(&self) -> usize {
        self.already_cached
    }

    /// Plans a run: the work is what `index` lists and `table` lacks. Where
    /// the table lacks nothing, there is no work.
    pub fn plan(table: SnapshotTable, index: &SnapshotIndex) -> (r: Self)
        ensures
            r.table_view() == table@,
            r.jobs() == work_set(*index, table@, index.count() as int),
            (forall|date: Seq<char>| index@.contains_key(date) ==> table@.contains_key(date))
                ==> r.jobs().len() == 0,
            r.handed_out() == 0,
            r.fetched() == 0,
            r.errors() == 0,
            r.unsaved() == 0,
            r.already_cached() == table.count(),
    {
        let mut jobs: Vec<Job> = Vec::new();
        let mut i: usize = 0;
        while i < index.len()
            invariant
                i <= index.count(),
                jobs_view(jobs@) == work_set(*index, table@, i as int),
            decreases index.count() - i,
        {
            let (date, timestamp) = index.row(i);
            if !table.contains(date.as_str()) {
                let ghost before = jobs_view(jobs@);
                jobs.push(Job { date: date.clone(), timestamp: timestamp.clone() });
                assert(jobs_view(jobs@) =~= before.push(
                    JobView { date: index.key_at(i as int), timestamp: index.entry_at(i as int)@ },
                ));
            }
            i += 1;
        }
        proof {
            if forall|date: Seq<char>| index@.contains_key(date) ==> table@.contains_key(date) {
                lemma_complete_table_leaves_no_work(*index, table@, index.count() as int);
            }
        }
        let already_cached = table.len();
        Harvest { table, jobs, next: 0, already_cached, fetched: 0, errors: 0, unsaved: 0 }
    }

    /// The number of jobs of the run.
    pub fn total_needed(&self) -> (r: usize)
        ensures
            r == self.jobs().len(),
    {
        self.jobs.len()
    }

    /// Hands out the next batch of jobs: the next `CONCURRENCY` of them, or
    /// as many as are left. An empty batch means that the work is done.
    pub fn next_batch(&mut self) -> (r: Vec<Job>)
        ensures
            old(self).handed_out() <= final(self).handed_out() <= old(self).jobs().len(),
            jobs_view(r@) == old(self).jobs().subrange(
                old(self).handed_out(),
                final(self).handed_out(),
            ),
            final(self).handed_out() == batch_end(
                old(self).handed_out(),
                old(self).jobs().len() as int,
            ),
            final(self).jobs() == old(self).jobs(),
            final(self).table_view() == old(self).table_view(),
            final(self).fetched() == old(self).fetched(),
            final(self).errors() == old(self).errors(),
            final(self).unsaved() == old(self).unsaved(),
            final(self).already_cached() == old(self).already_cached(),
    {
        let total = self.jobs.len();
        let start = if self.next >= total {
            total
        } else {
            self.next
        };
        let end = if total - start <= CONCURRENCY {
            total
        } else {
            start + CONCURRENCY
        };
        let mut batch: Vec<Job> = Vec::new();
        let mut i: usize = start;
        while i < end
            invariant
                start <= i <= end <= self.jobs@.len(),
                jobs_view(batch@) == jobs_view(self.jobs@).subrange(start as int, i as int),
            decreases end - i,
        {
            let ghost before = jobs_view(batch@);
            batch.push(
                Job { date: self.jobs[i].date.clone(), timestamp: self.jobs[i].timestamp.clone() },
            );
            assert(jobs_view(batch@) =~= before.push(self.jobs@[i as int]@));
            assert(jobs_view(self.jobs@).subrange(start as int, i + 1) =~= jobs_view(
                self.jobs@,
            ).subrange(start as int, i as int).push(self.jobs@[i as int]@));
            i += 1;
        }
        self.next = end;
        batch
    }

    /// The request that fetches the snapshot of `job`.
    pub fn snapshot_request(job: &Job) -> (r: PageRequest)
        ensures
            r@ == plain_request(job_address(job@), PAGE_RETRIES, PAGE_TIMEOUT_MS),
    {
        let original_url = dilbert_strip_url(job.date.as_str());
        let url = wayback_url(job.timestamp.as_str(), original_url.as_str());
        PageRequest::new(url, PAGE_RETRIES, PAGE_TIMEOUT_MS)
    }

    /// What a fetched snapshot is worth.
    pub fn read_snapshot(fetched: Result<Option<PageResponse>, PanelsError>) -> (r: Option<
        DilbertCacheEntry,
    >)
        ensures
            match r {
                Some(entry) => outcome_of(fetched) == Some(entry@),
                None => outcome_of(fetched) is None,
            },
    {
        match fetched {
            Ok(Some(page)) => parse_snapshot(page.html.as_str()),
            _ => None,
        }
    }

    /// Records what the fetch of `date` came to: an entry goes into the
    /// table, counts as fetched and is at stake until the table is saved; a
    /// date without one counts as an error, and is not tried again in this
    /// run.
    pub fn record(&mut self, date: String, outcome: Option<DilbertCacheEntry>)
        ensures
            final(self).jobs() == old(self).jobs(),
            final(self).handed_out() == old(self).handed_out(),
            final(self).already_cached() == old(self).already_cached(),
            match outcome {
                Some(entry) => {
                    &&& final(self).table_view() == old(self).table_view().insert(date@, entry)
                    &&& final(self).fetched() == counted_up(old(self).fetched())
                    &&& final(self).unsaved() == counted_up(old(self).unsaved())
                    &&& final(self).errors() == old(self).errors()
                },
                None => {
                    &&& final(self).table_view() == old(self).table_view()
                    &&& final(self).fetched() == old(self).fetched()
                    &&& final(self).unsaved() == old(self).unsaved()
                    &&& final(self).errors() == counted_up(old(self).errors())
                },
            },
    {
        match outcome {
            Some(entry) => {
                self.table.insert(date, entry);
                self.fetched = count_up(self.fetched);
                self.unsaved = count_up(self.unsaved);
            },
            None => {
                self.errors = count_up(self.errors);
            },
        }
    }

    /// Whether the table is to be saved now.
    pub fn checkpoint_due(&self) -> (r: bool)
        ensures
            r == save_is_due(self.unsaved()),
    {
        self.unsaved >= SAVE_INTERVAL
    }

    /// Notes that the table was saved as it stands: nothing is at stake any
    /// more.
    pub fn mark_saved(&mut self)
        ensures
            final(self).unsaved() == 0,
            final(self).table_view() == old(self).table_view(),
            final(self).jobs() == old(self).jobs(),
            final(self).handed_out() == old(self).handed_out(),
            final(self).already_cached() == old(self).already_cached(),
            final(self).fetched() == old(self).fetched(),
            final(self).errors() == old(self).errors(),
    {
        self.unsaved = 0;
    }

    /// The table as it stands.
    pub fn table(&self) -> (r: &SnapshotTable)
        ensures
            r@ == self.table_view(),
    {
        &self.table
    }

    /// The totals of the run so far.
    pub fn report(&self) -> (r: Report)
        ensures
            r.already_cached == self.already_cached(),
            r.fetched == self.fetched(),
            r.errors == self.errors(),
            r.total_cached == self.table_view().dom().len(),
    {
        Report {
            already_cached: self.already_cached,
            fetched: self.fetched,
            errors: self.errors,
            total_cached: self.table.len(),
        }
    }
}

/// Where the table has every date that the index lists, no work is left.
pub proof fn lemma_complete_table_leaves_no_work(
    index: SnapshotIndex,
    table: Map<Seq<char>, DilbertCacheEntry>,
    n: int,
)
    requires
        n <= index.count(),
        forall|date: Seq<char>| index@.contains_key(date) ==> table.contains_key(date),
    ensures
        work_set(index, table, n).len() == 0,
    decreases n,
{
    if n > 0 {
        lemma_complete_table_leaves_no_work(index, table, n - 1);
        index.lemma_rows_cover(index.key_at(n - 1));
    }
}

/// Where the table is saved whenever a save is due after a strip has come
/// in, fewer strips than the interval are at stake at any time: a crash
/// loses at most one less than the interval.
pub proof fn lemma_a_save_bounds_the_loss(before: u64, recorded: u64, after: u64)
    requires
        before < SAVE_INTERVAL,
        recorded == before || recorded == counted_up(before),
        after == if save_is_due(recorded) {
            0
        } else {
            recorded
        },
    ensures
        recorded <= SAVE_INTERVAL,
        after < SAVE_INTERVAL,
{
}

} // verus!
