//! The shared serving state (artifact cache, negative cache, quota) and the steps of one request.

use vstd::prelude::*;
use crate::caches::{MAX_EXPIRY_SECS, ArtifactCache, FailureCache, artifacts_inserted, failures_inserted};
use crate::pipeline::{AppError, AppErrorView, CachedFailure, FetchError, FileMetadata, Reply, ReplyView,
    cache_key_of, content_outcome, content_view, create_cache_key, decide_metadata, metadata_outcome,
    metadata_url, metadata_url_of, metadata_view, fetch_error, render_content, status_of, body_of,
    too_many_years, too_large_content, cached_message_of, txt_file_name, txt_name_of, MAX_FILE_SIZE};
use crate::quota::{QuotaTracker, RateLimiter, SubjectView, WindowCounter, counter_of, is_stale, quota_step};

verus! {

/// The reply served from the caches, given what each of them held for the key.
pub open spec fn cached_reply_of(artifact: Option<Seq<char>>, failure: Option<(u16, Seq<char>)>) -> Option<ReplyView> {
    match artifact {
        Some(svg) => Some(ReplyView::Artifact { svg, cache_hit: true }),
        None => match failure {
            Some(f) => Some(ReplyView::Failure { status: f.0, body: f.1 }),
            None => None,
        },
    }
}

pub open spec fn failure_view(f: Option<CachedFailure>) -> Option<(u16, Seq<char>)> {
    match f {
        Some(c) => Some((c.status, c.message@)),
        None => None,
    }
}

pub open spec fn opt_string_view(s: Option<String>) -> Option<Seq<char>> {
    match s {
        Some(t) => Some(t@),
        None => None,
    }
}

pub open spec fn opt_reply_view(r: Option<Reply>) -> Option<ReplyView> {
    match r {
        Some(t) => Some(t@),
        None => None,
    }
}

/// Answers from the caches: a live artifact first, then a recorded failure.
pub fn decide_cached(artifact: Option<String>, failure: Option<CachedFailure>) -> (r: Option<Reply>)
    ensures
        opt_reply_view(r) == cached_reply_of(opt_string_view(artifact), failure_view(failure)),
{
    match artifact {
        Some(svg) => Some(Reply::Artifact { svg, cache_hit: true }),
        None => match failure {
            Some(f) => Some(Reply::Failure { status: f.status, body: f.message }),
            None => None,
        },
    }
}

/// The reply that ends a request whose pipeline produced `outcome`.
pub open spec fn reply_of(outcome: Result<Seq<char>, AppErrorView>) -> ReplyView {
    match outcome {
        Ok(svg) => ReplyView::Artifact { svg, cache_hit: false },
        Err(e) => ReplyView::Failure { status: status_of(e), body: body_of(e) },
    }
}

/// What a request asks for, and who asks.
#[derive(Debug, Clone)]
pub struct Request {
    pub user: String,
    pub repo: String,
    pub branch: String,
    pub file: String,
    pub client: String,
}

impl Request {
    pub open spec fn key(&self) -> Seq<char> {
        cache_key_of(self.user@, self.repo@, self.branch@, self.file@)
    }

    pub open spec fn subject(&self) -> SubjectView {
        (self.client@, self.key())
    }

    pub open spec fn metadata_target(&self) -> Seq<char> {
        metadata_url_of(self.user@, self.repo@, self.branch@, txt_name_of(self.file@))
    }
}

/// How a request goes on after the caches and the quota were consulted.
#[derive(Debug, Clone)]
pub enum Start {
    /// Answered from a cache; the quota was not consulted.
    Cached(Reply),
    /// Refused by the quota; no cache was written.
    Throttled(Reply),
    /// Admitted: fetch the metadata at this address.
    Fetch(String),
}

/// How a request starts, given the counters before and after, and the cached answer found for
/// its key (if any): a cached answer leaves the counters alone; otherwise the quota step for
/// its subject is applied, and the request is admitted or refused with 429.
pub open spec fn started_as(
    before: Map<SubjectView, WindowCounter>,
    after: Map<SubjectView, WindowCounter>,
    lim: RateLimiter,
    req: Request,
    cached: Option<ReplyView>,
    now: u64,
    r: Start,
) -> bool {
    match cached {
        Some(c) => r is Cached && r->Cached_0@ == c && after == before,
        None => {
            let out = quota_step(lim, counter_of(before, req.subject()), now);
            &&& after == before.insert(req.subject(), out.1)
            &&& (out.0 ==> r is Fetch && r->Fetch_0@ == req.metadata_target())
            &&& (!out.0 ==> r is Throttled && r->Throttled_0@ == (ReplyView::Failure {
                status: 429,
                body: "Rate limit exceeded"@,
            }))
            &&& (!out.0 ==> after == before)
        },
    }
}

/// Whether lookup results `a` and `f` for `key` agree with what the caches were given: a
/// value found is the value last inserted under that key.
pub open spec fn lookup_agrees(
    published: Map<Seq<char>, Seq<char>>,
    recorded: Map<Seq<char>, (u16, Seq<char>)>,
    key: Seq<char>,
    a: Option<Seq<char>>,
    f: Option<(u16, Seq<char>)>,
) -> bool {
    &&& (a is Some ==> published.contains_key(key) && published[key] == a->Some_0)
    &&& (f is Some ==> recorded.contains_key(key) && recorded[key] == f->Some_0)
}

/// The negative-cache entry of a failure.
pub open spec fn recorded_entry(e: AppErrorView) -> (u16, Seq<char>) {
    (status_of(e), cached_message_of(e))
}

/// What the content step yields: the rendered chart, or the failure (text that validates to
/// more than `MAX_CELLS` years is refused as too large).
pub open spec fn content_result(url: Seq<char>, fetched: Result<Seq<char>, crate::pipeline::FetchErrorView>) -> Result<
    Seq<char>,
    AppErrorView,
> {
    match fetched {
        Ok(c) => if too_many_years(c) { Err(too_large_content(c)) } else { content_outcome(url, fetched) },
        Err(_) => content_outcome(url, fetched),
    }
}

/// The shared state of the server: the two caches and the quota tracker.
pub struct Service {
    artifacts: ArtifactCache,
    failures: FailureCache,
    quota: QuotaTracker,
}

impl Service {
    pub closed spec fn wf(&self) -> bool {
        self.quota.wf()
    }

    /// The window counters of the quota tracker.
    pub closed spec fn counters(&self) -> Map<SubjectView, WindowCounter> {
        self.quota@
    }

    pub closed spec fn limiter(&self) -> RateLimiter {
        self.quota.limiter()
    }

    /// The artifact last published under each cache key.
    pub closed spec fn published(&self) -> Map<Seq<char>, Seq<char>> {
        artifacts_inserted(self.artifacts)
    }

    /// The failure (status and message) last recorded under each cache key.
    pub closed spec fn recorded(&self) -> Map<Seq<char>, (u16, Seq<char>)> {
        failures_inserted(self.failures)
    }

    /// A server state with empty caches and no counters. Each cache expires an entry
    /// `ttl_secs` after it was written or `tti_secs` after it was last read, whichever comes
    /// first, and holds at most `capacity` entries.
    pub fn new(
        artifact_ttl_secs: u64,
        artifact_tti_secs: u64,
        failure_ttl_secs: u64,
        failure_tti_secs: u64,
        capacity: u64,
        limiter: RateLimiter,
    ) -> (r: Self)
        requires
            artifact_ttl_secs <= MAX_EXPIRY_SECS,
            artifact_tti_secs <= MAX_EXPIRY_SECS,
            failure_ttl_secs <= MAX_EXPIRY_SECS,
            failure_tti_secs <= MAX_EXPIRY_SECS,
        ensures
            r.wf(),
            r.limiter() == limiter,
            r.counters() == Map::<SubjectView, WindowCounter>::empty(),
            r.published() == Map::<Seq<char>, Seq<char>>::empty(),
            r.recorded() == Map::<Seq<char>, (u16, Seq<char>)>::empty(),
    {
        Service {
            artifacts: ArtifactCache::new(artifact_ttl_secs, artifact_tti_secs, capacity),
            failures: FailureCache::new(failure_ttl_secs, failure_tti_secs, capacity),
            quota: QuotaTracker::new(limiter),
        }
    }

    /// First steps of a request at time `now`: the artifact cache, then the negative cache
    /// (only on a miss of the first), then `start_after_lookup` on what they returned.
    pub fn begin(&mut self, req: &Request, now: u64) -> (r: Start)
        requires
            old(self).wf(),
        ensures
            final(self).wf(),
            final(self).limiter() == old(self).limiter(),
            final(self).published() == old(self).published(),
            final(self).recorded() == old(self).recorded(),
            exists|a: Option<Seq<char>>, f: Option<(u16, Seq<char>)>|
                lookup_agrees(old(self).published(), old(self).recorded(), req.key(), a, f) && #[trigger] started_as(
                old(self).counters(),
                final(self).counters(),
                old(self).limiter(),
                *req,
                cached_reply_of(a, f),
                now,
                r,
            ),
    {
        let key = create_cache_key(req.user.as_str(), req.repo.as_str(), req.branch.as_str(), req.file.as_str());
        let artifact = self.artifacts.get(&key);
        let failure = if artifact.is_some() { None } else { self.failures.get(&key) };
        let ghost a = opt_string_view(artifact);
        let ghost f = failure_view(failure);
        let r = self.start_after_lookup(req, artifact, failure, now);
        proof {
            assert(lookup_agrees(old(self).published(), old(self).recorded(), req.key(), a, f));
            assert(started_as(old(self).counters(), self.counters(), old(self).limiter(), *req, cached_reply_of(a, f), now, r));
        }
        r
    }

    /// Decides a request at time `now` from what the artifact cache and the negative cache
    /// returned for its key: a cached answer if either held one, the artifact first; else the
    /// quota counts the request and either admits it (fetch the metadata) or refuses it (429,
    /// its counter unchanged).
    pub fn start_after_lookup(
        &mut self,
        req: &Request,
        artifact: Option<String>,
        failure: Option<CachedFailure>,
        now: u64,
    ) -> (r: Start)
        requires
            old(self).wf(),
        ensures
            final(self).wf(),
            final(self).limiter() == old(self).limiter(),
            final(self).published() == old(self).published(),
            final(self).recorded() == old(self).recorded(),
            started_as(
                old(self).counters(),
                final(self).counters(),
                old(self).limiter(),
                *req,
                cached_reply_of(opt_string_view(artifact), failure_view(failure)),
                now,
                r,
            ),
    {
        match decide_cached(artifact, failure) {
            Some(reply) => {
                return Start::Cached(reply);
            },
            None => {},
        }
        let key = create_cache_key(req.user.as_str(), req.repo.as_str(), req.branch.as_str(), req.file.as_str());
        let ghost before = self.counters();
        let allowed = self.quota.check_request(&req.client, &key, now);
        proof {
            let out = quota_step(old(self).limiter(), counter_of(before, req.subject()), now);
            if !out.0 {
                assert(before.insert(req.subject(), out.1) =~= before);
            }
        }
        if allowed {
            let txt = txt_file_name(req.file.as_str());
            Start::Fetch(metadata_url(req.user.as_str(), req.repo.as_str(), req.branch.as_str(), txt.as_str()))
        } else {
            let denied = AppError::RateLimitExceeded;
            let reply = denied.reply();
            proof {
                reveal_strlit("Rate limit exceeded");
            }
            Start::Throttled(reply)
        }
    }

    /// Forgets the quota counters whose window has run out at `now`, which bounds the memory
    /// the tracker holds; no later decision changes.
    pub fn purge_stale(&mut self, now: u64)
        requires
            old(self).wf(),
        ensures
            final(self).wf(),
            final(self).limiter() == old(self).limiter(),
            final(self).published() == old(self).published(),
            final(self).recorded() == old(self).recorded(),
            forall|k: SubjectView| #[trigger] final(self).counters().contains_key(k) <==> (
            old(self).counters().contains_key(k) && !is_stale(old(self).limiter(), old(self).counters()[k], now)),
            forall|k: SubjectView| #[trigger] final(self).counters().contains_key(k) ==> final(self).counters()[k]
                == old(self).counters()[k],
    {
        self.quota.purge_stale(now);
    }

    /// Records a failure in the negative cache. A quota refusal is never recorded.
    fn record_failure(&mut self, req: &Request, e: &AppError)
        requires
            old(self).wf(),
            !(e@ is RateLimitExceeded),
        ensures
            final(self).wf(),
            final(self).limiter() == old(self).limiter(),
            final(self).counters() == old(self).counters(),
            final(self).published() == old(self).published(),
            final(self).recorded() == old(self).recorded().insert(req.key(), recorded_entry(e@)),
    {
        let k = create_cache_key(req.user.as_str(), req.repo.as_str(), req.branch.as_str(), req.file.as_str());
        self.failures.insert(k, e.cached_failure());
    }

    /// Step after the metadata fetched from `url` came back: the download address, or the
    /// reply that ends the request, with the failure recorded in the negative cache.
    pub fn after_metadata(&mut self, req: &Request, url: &String, fetched: Result<FileMetadata, FetchError>) -> (r: Result<
        String,
        Reply,
    >)
        requires
            old(self).wf(),
        ensures
            final(self).wf(),
            final(self).limiter() == old(self).limiter(),
            final(self).counters() == old(self).counters(),
            final(self).published() == old(self).published(),
            match metadata_outcome(url@, metadata_view(fetched)) {
                Ok(download) => r is Ok && r->Ok_0@ == download && final(self).recorded() == old(self).recorded(),
                Err(e) => r is Err && r->Err_0@ == reply_of(Err(e)) && final(self).recorded()
                    == old(self).recorded().insert(req.key(), recorded_entry(e)),
            },
    {
        match decide_metadata(url, fetched) {
            Ok(download) => Ok(download),
            Err(e) => {
                self.record_failure(req, &e);
                Err(e.reply())
            },
        }
    }

    /// Step after the content fetched from `url` came back: validate and render, then publish
    /// the chart in the artifact cache, or record the failure in the negative cache. The reply
    /// ends the request.
    pub fn after_content(&mut self, req: &Request, url: &String, fetched: Result<String, FetchError>) -> (r: Reply)
        requires
            old(self).wf(),
        ensures
            final(self).wf(),
            final(self).limiter() == old(self).limiter(),
            final(self).counters() == old(self).counters(),
            ({
                let outcome = content_result(url@, content_view(fetched));
                &&& r@ == reply_of(outcome)
                &&& match outcome {
                    Ok(svg) => final(self).published() == old(self).published().insert(req.key(), svg)
                        && final(self).recorded() == old(self).recorded(),
                    Err(e) => final(self).recorded() == old(self).recorded().insert(req.key(), recorded_entry(e))
                        && final(self).published() == old(self).published(),
                }
            }),
    {
        let outcome = match fetched {
            Err(e) => {
                proof {
                    reveal_strlit("Failed to read response: ");
                }
                Err(fetch_error(url, e, "Failed to read response: "))
            },
            Ok(content) => render_content(content.as_str()),
        };
        match outcome {
            Ok(svg) => {
                let key = create_cache_key(req.user.as_str(), req.repo.as_str(), req.branch.as_str(), req.file.as_str());
                self.artifacts.insert(key, svg.clone());
                Reply::Artifact { svg, cache_hit: false }
            },
            Err(e) => {
                self.record_failure(req, &e);
                e.reply()
            },
        }
    }
}

/// Two requests for the same owner, repository, branch and resource share one cache key,
/// whoever sends them. Once the first has published `svg` under that key, a later request whose
/// artifact lookup finds an entry is answered with exactly `svg`, marked as a cache hit, and
/// its counters are left alone.
pub proof fn lemma_published_artifact_served_on_hit(
    first: Request,
    second: Request,
    published: Map<Seq<char>, Seq<char>>,
    recorded: Map<Seq<char>, (u16, Seq<char>)>,
    svg: Seq<char>,
    found: Seq<char>,
    failure: Option<(u16, Seq<char>)>,
    before: Map<SubjectView, WindowCounter>,
    after: Map<SubjectView, WindowCounter>,
    lim: RateLimiter,
    now: u64,
    r: Start,
)
    requires
        first.user@ == second.user@,
        first.repo@ == second.repo@,
        first.branch@ == second.branch@,
        first.file@ == second.file@,
        published.contains_key(first.key()),
        published[first.key()] == svg,
        lookup_agrees(published, recorded, second.key(), Some(found), failure),
        started_as(before, after, lim, second, cached_reply_of(Some(found), failure), now, r),
    ensures
        first.key() == second.key(),
        r is Cached,
        r->Cached_0@ == (ReplyView::Artifact { svg, cache_hit: true }),
        after == before,
{
}

/// A request that misses both caches goes to the quota. Over its limit within the window it
/// gets 429 and the counters stay as they were; once its window has run out it is admitted and
/// opens a fresh window holding one request.
pub proof fn lemma_miss_goes_to_quota(
    before: Map<SubjectView, WindowCounter>,
    after: Map<SubjectView, WindowCounter>,
    lim: RateLimiter,
    req: Request,
    now: u64,
    r: Start,
)
    requires
        started_as(before, after, lim, req, cached_reply_of(None, None), now, r),
    ensures
        before.contains_key(req.subject()) && !is_stale(lim, before[req.subject()], now)
            && before[req.subject()].1 >= lim.max_requests ==> r is Throttled && r->Throttled_0@ == (
        ReplyView::Failure { status: 429, body: "Rate limit exceeded"@ }) && after == before,
        before.contains_key(req.subject()) && is_stale(lim, before[req.subject()], now) ==> r is Fetch
            && r->Fetch_0@ == req.metadata_target() && after == before.insert(req.subject(), (now, 1u32)),
{
}

/// A request refused by the quota leaves the counters as they were, and no failure that the
/// pipeline records is a quota refusal. A failure found in the negative cache is served as it
/// was recorded, without counting the request against the quota.
pub proof fn lemma_quota_and_negative_cache_independent(
    lim: RateLimiter,
    counters: Map<SubjectView, WindowCounter>,
    subject: SubjectView,
    now: u64,
    recorded: (u16, Seq<char>),
    url: Seq<char>,
    fetched: Result<(nat, Seq<char>), crate::pipeline::FetchErrorView>,
    content: Result<Seq<char>, crate::pipeline::FetchErrorView>,
    req: Request,
    after: Map<SubjectView, WindowCounter>,
    r: Start,
)
    ensures
        started_as(counters, after, lim, req, cached_reply_of(None, Some(recorded)), now, r) ==> r is Cached
            && r->Cached_0@ == (ReplyView::Failure { status: recorded.0, body: recorded.1 }) && after == counters,
        !quota_step(lim, counter_of(counters, subject), now).0 ==> counters.insert(
            subject,
            quota_step(lim, counter_of(counters, subject), now).1,
        ) == counters,
        cached_reply_of(None, Some(recorded)) == Some(ReplyView::Failure { status: recorded.0, body: recorded.1 }),
        metadata_outcome(url, fetched) is Err ==> !(metadata_outcome(url, fetched)->Err_0 is RateLimitExceeded),
        content_outcome(url, content) is Err ==> !(content_outcome(url, content)->Err_0 is RateLimitExceeded),
{
    if !quota_step(lim, counter_of(counters, subject), now).0 {
        assert(counters.insert(subject, quota_step(lim, counter_of(counters, subject), now).1) =~= counters);
    }
}

/// Metadata that reports a size above `MAX_FILE_SIZE` ends the request with 413: no download
/// address comes out of it, so no content is fetched.
pub proof fn lemma_oversize_refused_before_download(url: Seq<char>, size: nat, download: Seq<char>)
    requires
        size > MAX_FILE_SIZE,
    ensures
        metadata_outcome(url, Ok((size, download))) == Err::<Seq<char>, AppErrorView>(
            AppErrorView::FileTooBig { size, max: MAX_FILE_SIZE as nat },
        ),
        reply_of(metadata_outcome(url, Ok((size, download)))) is Failure,
        reply_of(metadata_outcome(url, Ok((size, download))))->status == 413,
{
}

/// Requests that miss the cache at the same time may each fetch the content. Those that fetch
/// the same text reach the same outcome, so whichever publishes first or last, the artifact
/// cache ends up holding that one chart under the key.
pub proof fn lemma_concurrent_misses_agree(
    url1: Seq<char>,
    url2: Seq<char>,
    content: Seq<char>,
    key: Seq<char>,
    published: Map<Seq<char>, Seq<char>>,
)
    ensures
        content_result(url1, Ok(content)) == content_result(url2, Ok(content)),
        content_result(url1, Ok(content)) is Ok ==> ({
            let svg = content_result(url1, Ok(content))->Ok_0;
            published.insert(key, svg).insert(key, svg) == published.insert(key, svg)
        }),
{
    if content_result(url1, Ok(content)) is Ok {
        let svg = content_result(url1, Ok(content))->Ok_0;
        assert(published.insert(key, svg).insert(key, svg) =~= published.insert(key, svg));
    }
}

} // verus!
