//! The fetch client's policy: which identity a request carries, when a failed
//! attempt is tried again, and what a fetch comes to.
//!
//! Sending a request is left to the caller. The caller reports what an
//! attempt came to, and the policy says what to do next.

use crate::chance::random_index;
use crate::error::{ErrorKind, ErrorView, PanelsError};
use crate::text::{join2, join3};
use vstd::prelude::*;

verus! {

/// The value of the `Accept` header of every page request.
pub const ACCEPT: &'static str = "text/html,application/xhtml+xml,application/xml;q=0.9,*/*;q=0.8";

/// The value of the `Accept-Language` header of every page request.
pub const ACCEPT_LANGUAGE: &'static str = "en-US,en;q=0.5";

/// The time a client allows a request that sets no timeout of its own, in
/// seconds.
pub const CLIENT_TIMEOUT_SECS: u64 = 15;

/// The number of redirects a client follows before it gives up.
pub const MAX_REDIRECTS: usize = 5;

/// The pause before a failed attempt is tried again, in seconds.
pub const RETRY_DELAY_SECS: u64 = 1;

/// The number of client identities in the pool.
pub const USER_AGENT_COUNT: usize = 3;

/// The client identity at index `i` of the pool.
pub open spec fn user_agent_at(i: int) -> Seq<char> {
    if i == 0 {
        "Mozilla/5.0 (Windows NT 10.0; Win64; x64) AppleWebKit/537.36 (KHTML, like Gecko) Chrome/120.0.0.0 Safari/537.36"@
    } else if i == 1 {
        "Mozilla/5.0 (Macintosh; Intel Mac OS X 10_15_7) AppleWebKit/537.36 (KHTML, like Gecko) Chrome/120.0.0.0 Safari/537.36"@
    } else {
        "Mozilla/5.0 (X11; Linux x86_64) AppleWebKit/537.36 (KHTML, like Gecko) Chrome/120.0.0.0 Safari/537.36"@
    }
}

/// The client identity at index `i` of the pool.
pub fn user_agent(i: usize) -> (r: &'static str)
    requires
        i < USER_AGENT_COUNT,
    ensures
        r@ == user_agent_at(i as int),
{
    if i == 0 {
        "Mozilla/5.0 (Windows NT 10.0; Win64; x64) AppleWebKit/537.36 (KHTML, like Gecko) Chrome/120.0.0.0 Safari/537.36"
    } else if i == 1 {
        "Mozilla/5.0 (Macintosh; Intel Mac OS X 10_15_7) AppleWebKit/537.36 (KHTML, like Gecko) Chrome/120.0.0.0 Safari/537.36"
    } else {
        "Mozilla/5.0 (X11; Linux x86_64) AppleWebKit/537.36 (KHTML, like Gecko) Chrome/120.0.0.0 Safari/537.36"
    }
}

/// Whether `agent` is one of the client identities of the pool.
pub open spec fn is_pool_agent(agent: Seq<char>) -> bool {
    exists|i: int| 0 <= i < USER_AGENT_COUNT && agent == user_agent_at(i)
}

/// One client identity of the pool, picked at random.
pub fn random_user_agent() -> (r: &'static str)
    ensures
        is_pool_agent(r@),
{
    let i = random_index(USER_AGENT_COUNT);
    user_agent(i)
}

/// A page as it was fetched: its body, and the address it was served from
/// once all redirects were followed.
pub struct PageResponse {
    pub html: String,
    pub final_url: String,
}

/// A page to fetch, and how hard to try.
pub struct PageRequest {
    pub url: String,
    /// How many more attempts follow a failed first one.
    pub retries: u32,
    /// How long one attempt may take, in milliseconds.
    pub timeout_ms: u64,
    /// Whether failures are kept out of the log.
    pub suppress_errors: bool,
    /// The statuses that are kept out of the log.
    pub silent_statuses: Vec<u16>,
}

/// A page request as plain values.
pub struct RequestView {
    pub url: Seq<char>,
    pub retries: u32,
    pub timeout_ms: u64,
    pub suppress_errors: bool,
    pub silent_statuses: Seq<u16>,
}

impl View for PageRequest {
    type V = RequestView;

    open spec fn view(&self) -> RequestView {
        RequestView {
            url: self.url@,
            retries: self.retries,
            timeout_ms: self.timeout_ms,
            suppress_errors: self.suppress_errors,
            silent_statuses: self.silent_statuses@,
        }
    }
}

/// The request for `url` that logs every failure.
pub open spec fn plain_request(url: Seq<char>, retries: u32, timeout_ms: u64) -> RequestView {
    RequestView { url, retries, timeout_ms, suppress_errors: false, silent_statuses: Seq::empty() }
}

impl PageRequest {
    /// A request that logs every failure.
    pub fn new(url: String, retries: u32, timeout_ms: u64) -> (r: Self)
        ensures
            r@ == plain_request(url@, retries, timeout_ms),
    {
        PageRequest {
            url,
            retries,
            timeout_ms,
            suppress_errors: false,
            silent_statuses: Vec::new(),
        }
    }

    /// Whether a failed attempt that came to `outcome` is worth a warning in
    /// the log. This is all that `suppress_errors` and `silent_statuses`
    /// decide: the verdict on an attempt does not look at them.
    pub fn warns(&self, outcome: &Attempt) -> (r: bool)
        ensures
            r == match *outcome {
                Attempt::Status(status) => !status_is_success(status) && !self.suppress_errors
                    && !self.silent_statuses@.contains(status),
                Attempt::Failed { timed_out } => !self.suppress_errors,
            },
    {
        match outcome {
            Attempt::Status(status) => !is_success(*status) && !self.suppress_errors && !is_listed(
                &self.silent_statuses,
                *status,
            ),
            Attempt::Failed { timed_out: _ } => !self.suppress_errors,
        }
    }
}

/// Whether `status` is one of `statuses`.
pub fn is_listed(statuses: &Vec<u16>, status: u16) -> (r: bool)
    ensures
        r == statuses@.contains(status),
{
    let mut i: usize = 0;
    while i < statuses.len()
        invariant
            i <= statuses@.len(),
            forall|j: int| 0 <= j < i ==> statuses@[j] != status,
        decreases statuses@.len() - i,
    {
        if statuses[i] == status {
            assert(statuses@[i as int] == status);
            return true;
        }
        i += 1;
    }
    false
}

/// What one attempt came to.
#[derive(Clone, Copy, Debug, PartialEq, Eq, Structural)]
pub enum Attempt {
    /// The server answered with this status.
    Status(u16),
    /// No answer came: the transport failed or the attempt ran out of time.
    Failed { timed_out: bool },
}

/// What to do after an attempt.
#[derive(Clone, Copy, Debug, PartialEq, Eq, Structural)]
pub enum Verdict {
    /// The answer is a success: read its body.
    ReadBody,
    /// Wait `RETRY_DELAY_SECS`, then try again.
    Retry,
    /// Give up: the fetch is a miss.
    Miss,
}

/// Whether an HTTP status lies in the success class, 200 to 299.
pub open spec fn status_is_success(status: u16) -> bool {
    200 <= status < 300
}

/// Whether an HTTP status lies in the success class.
pub fn is_success(status: u16) -> (r: bool)
    ensures
        r == status_is_success(status),
{
    200 <= status && status < 300
}

/// The verdict on the attempt with number `attempt`, counted from 0, of a
/// fetch that allows `retries` retries.
///
/// A success is read. A 404 is a miss at once. Any other status, and any
/// failure of the transport, is tried again while retries are left, and is a
/// miss once they are used up.
pub open spec fn verdict_of(attempt: nat, retries: u32, outcome: Attempt) -> Verdict {
    match outcome {
        Attempt::Status(status) => if status_is_success(status) {
            Verdict::ReadBody
        } else if status == 404 {
            Verdict::Miss
        } else if attempt < retries {
            Verdict::Retry
        } else {
            Verdict::Miss
        },
        Attempt::Failed { timed_out } => if attempt < retries {
            Verdict::Retry
        } else {
            Verdict::Miss
        },
    }
}

/// Whether an attempt that came to `outcome` is tried again while retries are
/// left: every outcome but a success and a 404.
pub open spec fn is_retryable(outcome: Attempt) -> bool {
    match outcome {
        Attempt::Status(status) => !status_is_success(status) && status != 404,
        Attempt::Failed { timed_out } => true,
    }
}

/// How a fetch with `retries` retries goes when its attempts, from number
/// `from` on, come to the outcomes of `script` in turn: the number of
/// outcomes it uses, and the verdict on the last one used. A script that runs
/// out while the fetch would still retry ends in `Retry`.
pub open spec fn fetch_course(retries: u32, script: Seq<Attempt>, from: nat) -> (nat, Verdict)
    decreases script.len(),
{
    if script.len() == 0 {
        (0, Verdict::Retry)
    } else {
        let verdict = verdict_of(from, retries, script[0]);
        if verdict == Verdict::Retry {
            let rest = fetch_course(retries, script.drop_first(), from + 1);
            (rest.0 + 1, rest.1)
        } else {
            (1, verdict)
        }
    }
}

/// The course of one fetch: how many retries it allows and how many attempts
/// have failed so far.
pub struct FetchRun {
    retries: u32,
    attempt: u32,
}

impl FetchRun {
    /// The retries that the fetch allows.
    pub closed spec fn retries(&self) -> u32 {
        self.retries
    }

    /// The number of the attempt that is judged next, counted from 0.
    pub closed spec fn attempt(&self) -> u32 {
        self.attempt
    }

    /// A fetch that has not tried yet.
    pub fn new(retries: u32) -> (r: Self)
        ensures
            r.retries() == retries,
            r.attempt() == 0,
    {
        FetchRun { retries, attempt: 0 }
    }

    /// The number of the attempt that is judged next, counted from 0.
    pub fn attempt_number(&self) -> (r: u32)
        ensures
            r == self.attempt(),
    {
        self.attempt
    }

    /// Judges the attempt that just came to `outcome`, and counts it where
    /// the fetch goes on.
    pub fn judge(&mut self, outcome: &Attempt) -> (verdict: Verdict)
        ensures
            verdict == verdict_of(old(self).attempt() as nat, old(self).retries(), *outcome),
            final(self).retries() == old(self).retries(),
            final(self).attempt() == if verdict == Verdict::Retry {
                old(self).attempt() + 1
            } else {
                old(self).attempt() as int
            },
            old(self).attempt() <= old(self).retries() ==> final(self).attempt()
                <= old(self).retries(),
    {
        let failed = match outcome {
            Attempt::Status(status) => {
                if is_success(*status) {
                    return Verdict::ReadBody;
                }
                if *status == 404 {
                    return Verdict::Miss;
                }
                true
            },
            Attempt::Failed { timed_out: _ } => true,
        };
        if failed && self.attempt < self.retries {
            self.attempt = self.attempt + 1;
            Verdict::Retry
        } else {
            Verdict::Miss
        }
    }
}

/// The detail of the error that an unreadable body raises.
pub open spec fn unreadable_body(url: Seq<char>, reason: Seq<char>) -> Seq<char> {
    "failed to read response body from "@ + url + ": "@ + reason
}

/// What a fetch comes to once the body of a successful answer was read, or
/// could not be read: the page, or a hard error. `body` is the text of the
/// body, or the transport's words on why it could not be read.
pub fn conclude(url: &str, final_url: String, body: Result<String, String>) -> (r: Result<
    Option<PageResponse>,
    PanelsError,
>)
    ensures
        match body {
            Ok(html) => r matches Ok(Some(page)) && page.html == html && page.final_url
                == final_url,
            Err(reason) => r matches Err(e) && e@ == (ErrorView {
                kind: ErrorKind::ScrapeFailed,
                detail: unreadable_body(url@, reason@),
            }),
        },
{
    match body {
        Ok(html) => Ok(Some(PageResponse { html, final_url })),
        Err(reason) => {
            let head = join3("failed to read response body from ", url, ": ");
            Err(PanelsError::ScrapeFailed(join2(head.as_str(), reason.as_str())))
        },
    }
}

/// A 404 ends a fetch at once: whatever attempt it answers and however many
/// retries are left, the verdict is a miss, and no further outcome is used.
pub proof fn lemma_not_found_is_never_retried(retries: u32, script: Seq<Attempt>, from: nat)
    requires
        script.len() > 0,
        script[0] == Attempt::Status(404),
    ensures
        verdict_of(from, retries, script[0]) == Verdict::Miss,
        fetch_course(retries, script, from) == (1nat, Verdict::Miss),
{
}

/// A fetch whose attempts all fail in a way that is retried (a 500, say)
/// makes `retries` further attempts after the first, and then is a miss.
pub proof fn lemma_failures_use_up_the_retries(retries: u32, script: Seq<Attempt>, from: nat)
    requires
        from <= retries,
        script.len() > retries - from,
        forall|i: int| 0 <= i < script.len() ==> is_retryable(#[trigger] script[i]),
    ensures
        fetch_course(retries, script, from) == ((retries - from + 1) as nat, Verdict::Miss),
    decreases script.len(),
{
    assert(is_retryable(script[0]));
    if from < retries {
        let rest = script.drop_first();
        assert forall|i: int| 0 <= i < rest.len() implies is_retryable(#[trigger] rest[i]) by {
            assert(rest[i] == script[i + 1]);
        }
        lemma_failures_use_up_the_retries(retries, rest, from + 1);
    }
}

} // verus!
