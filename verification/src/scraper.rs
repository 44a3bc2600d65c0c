//! The release scraper: a refreshing cache of the latest release per update
//! stream, and the serialized query service answering against it.

use crate::errors::GraphError;
use crate::{payload_metadata, CincinnatiPayload, PayloadView};
use crate::metadata::{last_match, Commit, Release, ReleaseView, RELEASES_JSON};
use vstd::prelude::*;

verus! {

// ---------------------------------------------------------------------------
// Outside types and trusted wrappers
// ---------------------------------------------------------------------------

/// Handles to the two refresh metrics. The prometheus counter and gauge
/// types take a type parameter bound by an outside trait, so they cannot be
/// declared to the verifier; they are held opaquely instead.
#[verifier::external_body]
pub struct ScrapeMetrics {
    upstream_scrapes: prometheus::IntCounter,
    last_refresh: prometheus::IntGauge,
}

impl ScrapeMetrics {
    /// Relies on prometheus::core::GenericCounter::new and
    /// prometheus::core::GenericGauge::new: fresh unregistered metrics that
    /// start at zero; creation fails only on an invalid name or help text.
    #[verifier::external_body]
    fn new() -> Option<ScrapeMetrics> {
        let upstream_scrapes = prometheus::IntCounter::new(
            "fakeup_scraper_upstream_scrapes_total",
            "Total number of upstream scrapes",
        )
        .ok()?;
        let last_refresh = prometheus::IntGauge::new(
            "fakeup_scraper_last_refresh_timestamp",
            "UTC timestamp of last refresh",
        )
        .ok()?;
        Some(ScrapeMetrics { upstream_scrapes, last_refresh })
    }

    /// Relies on prometheus::core::GenericCounter::inc: adds one to the
    /// refresh-attempt counter.
    #[verifier::external_body]
    fn inc_upstream_scrapes(&self) {
        self.upstream_scrapes.inc();
    }

    /// Relies on prometheus::core::GenericGauge::set: stores the given value
    /// in the last-refresh gauge.
    #[verifier::external_body]
    fn set_last_refresh(&self, timestamp: i64) {
        self.last_refresh.set(timestamp);
    }
}

/// Relies on chrono::Utc::now: reads the wall clock; nothing is promised of
/// the value.
#[verifier::external_body]
fn now_utc_timestamp() -> i64 {
    chrono::Utc::now().timestamp()
}

/// What envsubst::substitute returns on a one-variable context; a function of
/// the template, the variable name and its value alone.
pub uninterp spec fn substituted(template: Seq<char>, key: Seq<char>, value: Seq<char>) -> Seq<
    char,
>;

/// Whether a string may stand in a substitution context: none of `$`, `{`,
/// `}` occurs in it.
pub open spec fn valid_var(s: Seq<char>) -> bool {
    forall|i: int| 0 <= i < s.len() ==> s[i] != '$' && s[i] != '{' && s[i] != '}'
}

/// Relies on envsubst::substitute: with a single variable in the context it
/// returns the template with every occurrence of the braced variable replaced
/// by its value, and fails exactly when the variable name or its value holds
/// one of `$`, `{`, `}`.
#[verifier::external_body]
fn substitute_var(template: &str, key: &str, value: &str) -> (r: Option<String>)
    ensures
        r is Some <==> (valid_var(key@) && valid_var(value@)),
        r matches Some(u) ==> u@ == substituted(template@, key@, value@),
{
    let mut vars = std::collections::HashMap::new();
    vars.insert(key.to_string(), value.to_string());
    envsubst::substitute(template, &vars).ok()
}

// ---------------------------------------------------------------------------
// URL construction
// ---------------------------------------------------------------------------

/// The release-index URL for one stream, when the stream name can stand in a
/// substitution context.
pub open spec fn release_url_of(stream: Seq<char>) -> Option<Seq<char>> {
    if valid_var(stream) {
        Some(substituted(RELEASES_JSON@, "stream"@, stream))
    } else {
        None
    }
}

/// Build the release-index URL for one stream by substituting its name into
/// the configured template.
pub fn release_url(stream: &String) -> (r: Option<String>)
    ensures
        r is Some <==> valid_var(stream@),
        r matches Some(u) ==> release_url_of(stream@) == Some(u@),
{
    proof {
        reveal_strlit("stream");
        assert(valid_var("stream"@));
    }
    substitute_var(RELEASES_JSON, "stream", stream.as_str())
}

// ---------------------------------------------------------------------------
// The scraper state and its model
// ---------------------------------------------------------------------------

/// Release scraper: the configured stream set, the cache of the latest
/// release per stream, the refresh bookkeeping, and the process metrics.
pub struct Scraper {
    streams: Vec<String>,
    latest: Vec<(String, Release)>,
    refresh_pause_secs: u64,
    refresh_attempts: u64,
    last_refresh_timestamp: i64,
    metrics: Option<ScrapeMetrics>,
}

/// Mathematical model of the scraper state.
pub ghost struct ScraperView {
    pub streams: Seq<Seq<char>>,
    pub cache: Map<Seq<char>, ReleaseView>,
    pub refresh_pause_secs: u64,
    pub refresh_attempts: u64,
    pub last_refresh_timestamp: i64,
}

/// The mapping held by an association list of cache entries; a later entry
/// overrides an earlier one with the same key.
pub open spec fn entries_map(entries: Seq<(String, Release)>) -> Map<Seq<char>, ReleaseView>
    decreases entries.len(),
{
    if entries.len() == 0 {
        Map::empty()
    } else {
        entries_map(entries.drop_last()).insert(entries.last().0@, entries.last().1@)
    }
}

/// Pairwise distinct character sequences.
pub open spec fn distinct_seqs(s: Seq<Seq<char>>) -> bool {
    forall|i: int, j: int| 0 <= i < j < s.len() ==> s[i] != s[j]
}

/// The keys of an association list of cache entries, in order.
pub open spec fn entry_keys(entries: Seq<(String, Release)>) -> Seq<Seq<char>> {
    entries.map_values(|e: (String, Release)| e.0@)
}

impl View for Scraper {
    type V = ScraperView;

    closed spec fn view(&self) -> ScraperView {
        ScraperView {
            streams: self.streams@.map_values(|s: String| s@),
            cache: entries_map(self.latest@),
            refresh_pause_secs: self.refresh_pause_secs,
            refresh_attempts: self.refresh_attempts,
            last_refresh_timestamp: self.last_refresh_timestamp,
        }
    }
}

/// A binding held by the cache list is the one the cache mapping gives.
proof fn lemma_entries_map_index(entries: Seq<(String, Release)>, i: int)
    requires
        distinct_seqs(entry_keys(entries)),
        0 <= i < entries.len(),
    ensures
        entries_map(entries).contains_key(entries[i].0@),
        entries_map(entries)[entries[i].0@] == entries[i].1@,
    decreases entries.len(),
{
    if i < entries.len() - 1 {
        assert(entry_keys(entries.drop_last()) =~= entry_keys(entries).drop_last());
        lemma_entries_map_index(entries.drop_last(), i);
        assert(entry_keys(entries)[i] != entry_keys(entries)[entries.len() - 1]);
    }
}

/// A key named by no cache entry is absent from the cache mapping.
proof fn lemma_entries_map_absent(entries: Seq<(String, Release)>, s: Seq<char>)
    requires
        forall|i: int| 0 <= i < entries.len() ==> entries[i].0@ != s,
    ensures
        !entries_map(entries).contains_key(s),
    decreases entries.len(),
{
    if entries.len() > 0 {
        lemma_entries_map_absent(entries.drop_last(), s);
    }
}

// ---------------------------------------------------------------------------
// Queries
// ---------------------------------------------------------------------------

/// Query message: the latest release payload for (stream, basearch).
pub struct GetLatest {
    pub basearch: String,
    pub stream: String,
}

impl GetLatest {
    pub fn new(basearch: String, stream: String) -> (r: Self)
        ensures
            r.basearch == basearch,
            r.stream == stream,
    {
        Self { basearch, stream }
    }
}

/// What a query returns against a given cache: the stream must be cached and
/// some commit of its latest release must carry the requested architecture;
/// the payload is then the checksum of the last such commit.
pub open spec fn query_latest(
    cache: Map<Seq<char>, ReleaseView>,
    stream: Seq<char>,
    basearch: Seq<char>,
) -> Result<PayloadView, GraphError> {
    if !cache.contains_key(stream) {
        Err(GraphError::StreamUnavailable)
    } else {
        match last_match(cache[stream].commits, basearch) {
            Some(checksum) => Ok(
                PayloadView {
                    version: cache[stream].version,
                    metadata: payload_metadata("1"@),
                    payload: checksum,
                },
            ),
            None => Err(GraphError::BasearchUnavailable),
        }
    }
}

impl Scraper {
    /// The well-formedness of a scraper: streams are a set, cache keys are
    /// unique, and the cache never holds an entry for an unconfigured stream.
    pub closed spec fn wf(&self) -> bool {
        &&& distinct_seqs(self@.streams)
        &&& distinct_seqs(entry_keys(self.latest@))
        &&& forall|i: int|
            0 <= i < self.latest@.len() ==> self@.streams.contains(self.latest@[i].0@)
    }

    /// Create a scraper with an empty cache over the given stream set.
    pub fn new(streams: Vec<String>, refresh_pause_secs: u64) -> (r: Scraper)
        requires
            distinct_seqs(streams@.map_values(|s: String| s@)),
        ensures
            r.wf(),
            r@.streams == streams@.map_values(|s: String| s@),
            r@.cache == Map::<Seq<char>, ReleaseView>::empty(),
            r@.refresh_pause_secs == refresh_pause_secs,
            r@.refresh_attempts == 0,
            r@.last_refresh_timestamp == 0,
    {
        let metrics = ScrapeMetrics::new();
        Scraper {
            streams,
            latest: Vec::new(),
            refresh_pause_secs,
            refresh_attempts: 0,
            last_refresh_timestamp: 0,
            metrics,
        }
    }

    /// Answer one query against the current cache snapshot: the latest
    /// release payload for the message's stream and architecture.
    pub fn get_latest(&self, msg: GetLatest) -> (r: Result<CincinnatiPayload, GraphError>)
        requires
            self.wf(),
        ensures
            match r {
                Ok(p) => query_latest(self@.cache, msg.stream@, msg.basearch@) == Ok::<
                    PayloadView,
                    GraphError,
                >(p@),
                Err(e) => query_latest(self@.cache, msg.stream@, msg.basearch@) == Err::<
                    PayloadView,
                    GraphError,
                >(e),
            },
    {
        let mut k: usize = 0;
        let mut found: Option<usize> = None;
        while k < self.latest.len()
            invariant
                k <= self.latest.len(),
                match found {
                    Some(f) => f < k && self.latest@[f as int].0@ == msg.stream@,
                    None => forall|j: int| 0 <= j < k ==> self.latest@[j].0@ != msg.stream@,
                },
            decreases self.latest.len() - k,
        {
            if self.latest[k].0 == msg.stream {
                found = Some(k);
            }
            k += 1;
        }
        let idx = match found {
            None => {
                proof {
                    lemma_entries_map_absent(self.latest@, msg.stream@);
                }
                return Err(GraphError::StreamUnavailable);
            },
            Some(f) => f,
        };
        proof {
            lemma_entries_map_index(self.latest@, idx as int);
        }
        let release = &self.latest[idx].1;
        let ghost rv: ReleaseView = release@;
        let commits = &release.commits;
        let mut j: usize = 0;
        let mut matching: Option<String> = None;
        while j < commits.len()
            invariant
                j <= commits.len(),
                rv.commits == commits@.map_values(|c: Commit| c@),
                match matching {
                    Some(m) => last_match(rv.commits.take(j as int), msg.basearch@) == Some(m@),
                    None => last_match(rv.commits.take(j as int), msg.basearch@) is None,
                },
            decreases commits.len() - j,
        {
            if commits[j].architecture == msg.basearch {
                matching = Some(commits[j].checksum.clone());
            }
            proof {
                assert(rv.commits.take(j as int + 1).drop_last() =~= rv.commits.take(j as int));
                assert(rv.commits.take(j as int + 1).last() == rv.commits[j as int]);
            }
            j += 1;
        }
        proof {
            assert(rv.commits.take(commits@.len() as int) =~= rv.commits);
        }
        match matching {
            None => Err(GraphError::BasearchUnavailable),
            Some(checksum) => {
                let metadata = crate::build_metadata("1");
                let node = CincinnatiPayload { version: release.version.clone(), metadata, payload: checksum };
                Ok(node)
            },
        }
    }
}

// ---------------------------------------------------------------------------
// Refresh cycles
// ---------------------------------------------------------------------------

/// View of per-stream fetch outcomes: each stream name with its fresh
/// release, or nothing where the fetch failed or the release index was empty.
pub open spec fn outcomes_view(outcomes: Seq<(String, Option<Release>)>) -> Seq<
    (Seq<char>, Option<ReleaseView>),
> {
    outcomes.map_values(
        |o: (String, Option<Release>)|
            (
                o.0@,
                match o.1 {
                    Some(rel) => Some(rel@),
                    None => None,
                },
            ),
    )
}

/// The streams of a cycle's outcomes, in fetch order.
pub open spec fn outcome_streams(outcomes: Seq<(Seq<char>, Option<ReleaseView>)>) -> Seq<
    Seq<char>,
> {
    outcomes.map_values(|o: (Seq<char>, Option<ReleaseView>)| o.0)
}

/// The cache one refresh cycle commits: exactly the streams that fetched
/// successfully, each mapped to its fresh release.
pub open spec fn refreshed_cache(outcomes: Seq<(Seq<char>, Option<ReleaseView>)>) -> Map<
    Seq<char>,
    ReleaseView,
>
    decreases outcomes.len(),
{
    if outcomes.len() == 0 {
        Map::empty()
    } else {
        let rest = refreshed_cache(outcomes.drop_last());
        match outcomes.last().1 {
            Some(rel) => rest.insert(outcomes.last().0, rel),
            None => rest,
        }
    }
}

/// A stream that fetched successfully is in the committed cache, mapped to
/// its fresh release.
pub proof fn lemma_refreshed_cache_at(outcomes: Seq<(Seq<char>, Option<ReleaseView>)>, i: int)
    requires
        distinct_seqs(outcome_streams(outcomes)),
        0 <= i < outcomes.len(),
        outcomes[i].1 is Some,
    ensures
        refreshed_cache(outcomes).contains_key(outcomes[i].0),
        refreshed_cache(outcomes)[outcomes[i].0] == outcomes[i].1.unwrap(),
    decreases outcomes.len(),
{
    if i < outcomes.len() - 1 {
        assert(outcome_streams(outcomes.drop_last()) =~= outcome_streams(outcomes).drop_last());
        lemma_refreshed_cache_at(outcomes.drop_last(), i);
        assert(outcome_streams(outcomes)[i] != outcome_streams(outcomes)[outcomes.len() - 1]);
    }
}

/// A stream with no successful outcome in a cycle is absent from the cache
/// that the cycle commits.
pub proof fn lemma_refreshed_cache_absent(
    outcomes: Seq<(Seq<char>, Option<ReleaseView>)>,
    stream: Seq<char>,
)
    requires
        forall|i: int|
            #![trigger outcomes[i]]
            0 <= i < outcomes.len() ==> !(outcomes[i].0 == stream && outcomes[i].1 is Some),
    ensures
        !refreshed_cache(outcomes).contains_key(stream),
    decreases outcomes.len(),
{
    if outcomes.len() > 0 {
        lemma_refreshed_cache_absent(outcomes.drop_last(), stream);
    }
}

/// Resilience: when one stream's fetch fails while another succeeds in the
/// same cycle, the succeeding stream appears in the committed cache with its
/// fresh release, and the failing stream's entry is absent — even if an
/// earlier snapshot held it.
pub proof fn lemma_refresh_resilience(
    outcomes: Seq<(Seq<char>, Option<ReleaseView>)>,
    i: int,
    j: int,
)
    requires
        distinct_seqs(outcome_streams(outcomes)),
        0 <= i < outcomes.len(),
        0 <= j < outcomes.len(),
        outcomes[i].1 is Some,
        outcomes[j].1 is None,
    ensures
        refreshed_cache(outcomes).contains_key(outcomes[i].0),
        refreshed_cache(outcomes)[outcomes[i].0] == outcomes[i].1.unwrap(),
        !refreshed_cache(outcomes).contains_key(outcomes[j].0),
{
    lemma_refreshed_cache_at(outcomes, i);
    assert forall|k: int| #![trigger outcomes[k]] 0 <= k < outcomes.len() implies !(outcomes[k].0
        == outcomes[j].0 && outcomes[k].1 is Some) by {
        if k < j {
            assert(outcome_streams(outcomes)[k] != outcome_streams(outcomes)[j]);
        } else if j < k {
            assert(outcome_streams(outcomes)[j] != outcome_streams(outcomes)[k]);
        }
    }
    lemma_refreshed_cache_absent(outcomes, outcomes[j].0);
}

/// Atomic replacement: every entry of a committed cache stems from that
/// cycle's own outcomes, never from an earlier snapshot, so one snapshot
/// never mixes entries of two different cycles for the same stream.
pub proof fn lemma_refresh_wholesale(
    outcomes: Seq<(Seq<char>, Option<ReleaseView>)>,
    stream: Seq<char>,
)
    requires
        refreshed_cache(outcomes).contains_key(stream),
    ensures
        exists|i: int|
            #![trigger outcomes[i]]
            0 <= i < outcomes.len() && outcomes[i].0 == stream && outcomes[i].1 == Some(
                refreshed_cache(outcomes)[stream],
            ),
    decreases outcomes.len(),
{
    if outcomes.len() > 0 {
        let rest = outcomes.drop_last();
        if outcomes.last().1 is Some && outcomes.last().0 == stream {
            assert(outcomes[outcomes.len() - 1].0 == stream && outcomes[outcomes.len() - 1].1
                == Some(refreshed_cache(outcomes)[stream]));
        } else {
            assert(refreshed_cache(outcomes).contains_key(stream)
                ==> refreshed_cache(rest).contains_key(stream));
            lemma_refresh_wholesale(rest, stream);
            let i = choose|i: int|
                #![trigger rest[i]]
                0 <= i < rest.len() && rest[i].0 == stream && rest[i].1 == Some(
                    refreshed_cache(rest)[stream],
                );
            assert(outcomes[i] == rest[i]);
        }
    }
}

/// Idempotence: a repeated query against an unchanged cache snapshot returns
/// identical output — the answer is a function of the snapshot and the
/// message alone.
pub proof fn lemma_query_idempotent(
    cache1: Map<Seq<char>, ReleaseView>,
    cache2: Map<Seq<char>, ReleaseView>,
    stream: Seq<char>,
    basearch: Seq<char>,
)
    requires
        cache1 == cache2,
    ensures
        query_latest(cache1, stream, basearch) == query_latest(cache2, stream, basearch),
{
}

/// After a cycle in which a stream fetched successfully, a query for that
/// stream succeeds exactly when some commit of its fresh release carries the
/// requested architecture, and then returns the version of that release and
/// the checksum of the last such commit in sequence order.
pub proof fn lemma_refresh_then_query(
    outcomes: Seq<(Seq<char>, Option<ReleaseView>)>,
    i: int,
    basearch: Seq<char>,
)
    requires
        distinct_seqs(outcome_streams(outcomes)),
        0 <= i < outcomes.len(),
        outcomes[i].1 is Some,
    ensures
        ({
            let rel = outcomes[i].1.unwrap();
            let r = query_latest(refreshed_cache(outcomes), outcomes[i].0, basearch);
            &&& (r is Ok <==> exists|k: int|
                #![trigger rel.commits[k]]
                0 <= k < rel.commits.len() && rel.commits[k].architecture == basearch)
            &&& (r matches Ok(p) ==> p.version == rel.version && Some(p.payload) == last_match(
                rel.commits,
                basearch,
            ) && p.metadata == payload_metadata("1"@))
            &&& (r is Err ==> r == Err::<PayloadView, GraphError>(
                GraphError::BasearchUnavailable,
            ))
        }),
{
    lemma_refreshed_cache_at(outcomes, i);
    crate::metadata::lemma_last_match_exists(outcomes[i].1.unwrap().commits, basearch);
}

impl Scraper {
    /// Commit one refresh cycle: replace the cache wholesale with exactly the
    /// streams that fetched successfully, record the given timestamp, and
    /// count the attempt — whatever the outcomes were.
    pub fn apply_refresh(&mut self, outcomes: Vec<(String, Option<Release>)>, timestamp: i64)
        requires
            old(self).wf(),
            old(self)@.refresh_attempts < u64::MAX,
            distinct_seqs(outcome_streams(outcomes_view(outcomes@))),
            forall|i: int|
                0 <= i < outcomes@.len() ==> old(self)@.streams.contains(outcomes@[i].0@),
        ensures
            final(self).wf(),
            final(self)@.streams == old(self)@.streams,
            final(self)@.refresh_pause_secs == old(self)@.refresh_pause_secs,
            final(self)@.cache == refreshed_cache(outcomes_view(outcomes@)),
            final(self)@.refresh_attempts == old(self)@.refresh_attempts + 1,
            final(self)@.last_refresh_timestamp == timestamp,
    {
        let ghost ov = outcomes_view(outcomes@);
        let mut fresh: Vec<(String, Release)> = Vec::new();
        let mut i: usize = 0;
        while i < outcomes.len()
            invariant
                i <= outcomes.len(),
                ov == outcomes_view(outcomes@),
                distinct_seqs(outcome_streams(ov)),
                entries_map(fresh@) == refreshed_cache(ov.take(i as int)),
                distinct_seqs(entry_keys(fresh@)),
                forall|k: int| #![trigger fresh@[k]]
                    0 <= k < fresh@.len() ==> exists|j: int| #![trigger ov[j]]
                        0 <= j < i && fresh@[k].0@ == ov[j].0,
            decreases outcomes.len() - i,
        {
            proof {
                assert(ov.take(i as int + 1).drop_last() =~= ov.take(i as int));
                assert(ov.take(i as int + 1).last() == ov[i as int]);
            }
            let pair = &outcomes[i];
            match &pair.1 {
                Some(rel) => {
                    let entry = (pair.0.clone(), rel.clone());
                    proof {
                        assert forall|k: int| 0 <= k < fresh@.len() implies fresh@[k].0@
                            != ov[i as int].0 by {
                            let j = choose|j: int| 0 <= j < i && fresh@[k].0@ == ov[j].0;
                            assert(outcome_streams(ov)[j] != outcome_streams(ov)[i as int]);
                        }
                        assert(fresh@.push(entry).drop_last() =~= fresh@);
                        assert(entry_keys(fresh@.push(entry)) =~= entry_keys(fresh@).push(
                            entry.0@,
                        ));
                    }
                    fresh.push(entry);
                },
                None => {},
            }
            i += 1;
        }
        proof {
            assert(ov.take(outcomes@.len() as int) =~= ov);
        }
        self.latest = fresh;
        self.refresh_attempts = self.refresh_attempts + 1;
        self.last_refresh_timestamp = timestamp;
        match &self.metrics {
            Some(metrics) => {
                metrics.inc_upstream_scrapes();
                metrics.set_last_refresh(timestamp);
            },
            None => {},
        }
    }

    /// Commit one refresh cycle, stamped with the wall clock. The committed
    /// cache and the attempt count are pinned whatever the clock read.
    pub fn finish_refresh(&mut self, outcomes: Vec<(String, Option<Release>)>)
        requires
            old(self).wf(),
            old(self)@.refresh_attempts < u64::MAX,
            distinct_seqs(outcome_streams(outcomes_view(outcomes@))),
            forall|i: int|
                0 <= i < outcomes@.len() ==> old(self)@.streams.contains(outcomes@[i].0@),
        ensures
            final(self).wf(),
            final(self)@.streams == old(self)@.streams,
            final(self)@.refresh_pause_secs == old(self)@.refresh_pause_secs,
            final(self)@.cache == refreshed_cache(outcomes_view(outcomes@)),
            final(self)@.refresh_attempts == old(self)@.refresh_attempts + 1,
    {
        let timestamp = now_utc_timestamp();
        self.apply_refresh(outcomes, timestamp);
    }

    /// The requests one refresh cycle issues: every configured stream with
    /// its release-index URL, or nothing where no URL could be built (such a
    /// stream counts as failed in that cycle).
    pub fn fetch_plan(&self) -> (r: Vec<(String, Option<String>)>)
        ensures
            r@.len() == self@.streams.len(),
            forall|i: int|
                0 <= i < r@.len() ==> r@[i].0@ == self@.streams[i] && (match r@[i].1 {
                    Some(url) => release_url_of(self@.streams[i]) == Some(url@),
                    None => release_url_of(self@.streams[i]) is None,
                }),
    {
        let mut plan: Vec<(String, Option<String>)> = Vec::new();
        let mut i: usize = 0;
        while i < self.streams.len()
            invariant
                i <= self.streams.len(),
                plan@.len() == i,
                forall|k: int|
                    0 <= k < plan@.len() ==> plan@[k].0@ == self@.streams[k] && (match plan@[k].1 {
                        Some(url) => release_url_of(self@.streams[k]) == Some(url@),
                        None => release_url_of(self@.streams[k]) is None,
                    }),
            decreases self.streams.len() - i,
        {
            let stream = &self.streams[i];
            let url = release_url(stream);
            plan.push((stream.clone(), url));
            i += 1;
        }
        plan
    }

    /// Whether a set of cycle outcomes can be committed: the streams are
    /// pairwise distinct and every one of them is configured. The fetch plan
    /// yields outcomes of exactly this shape; an embedder can check a foreign
    /// set before committing it.
    pub fn outcomes_acceptable(&self, outcomes: &Vec<(String, Option<Release>)>) -> (r: bool)
        ensures
            r == (distinct_seqs(outcome_streams(outcomes_view(outcomes@))) && (forall|i: int|
                0 <= i < outcomes@.len() ==> self@.streams.contains(outcomes@[i].0@))),
    {
        let ghost ostreams = outcome_streams(outcomes_view(outcomes@));
        let mut i: usize = 0;
        while i < outcomes.len()
            invariant
                i <= outcomes.len(),
                ostreams == outcome_streams(outcomes_view(outcomes@)),
                forall|a: int, b: int| 0 <= a < b < i ==> ostreams[a] != ostreams[b],
                forall|a: int| 0 <= a < i ==> self@.streams.contains(outcomes@[a].0@),
            decreases outcomes.len() - i,
        {
            let mut k: usize = 0;
            while k < i
                invariant
                    k <= i,
                    i < outcomes.len(),
                    ostreams == outcome_streams(outcomes_view(outcomes@)),
                    forall|t: int| 0 <= t < k ==> ostreams[t] != ostreams[i as int],
                decreases i - k,
            {
                if outcomes[k].0 == outcomes[i].0 {
                    proof {
                        assert(ostreams[k as int] == ostreams[i as int]);
                    }
                    return false;
                }
                k += 1;
            }
            let mut j: usize = 0;
            let mut configured = false;
            while j < self.streams.len()
                invariant
                    j <= self.streams.len(),
                    i < outcomes.len(),
                    configured ==> self@.streams.contains(outcomes@[i as int].0@),
                    !configured ==> forall|t: int|
                        0 <= t < j ==> self@.streams[t] != outcomes@[i as int].0@,
                decreases self.streams.len() - j,
            {
                if self.streams[j] == outcomes[i].0 {
                    proof {
                        assert(self@.streams[j as int] == outcomes@[i as int].0@);
                    }
                    configured = true;
                }
                j += 1;
            }
            if !configured {
                proof {
                    assert(!self@.streams.contains(outcomes@[i as int].0@));
                }
                return false;
            }
            i += 1;
        }
        true
    }

    /// The configured streams.
    pub fn streams(&self) -> (r: &Vec<String>)
        ensures
            r@.map_values(|s: String| s@) == self@.streams,
    {
        &self.streams
    }

    /// The pause between the end of one refresh cycle and the next tick.
    pub fn refresh_pause_secs(&self) -> (r: u64)
        ensures
            r == self@.refresh_pause_secs,
    {
        self.refresh_pause_secs
    }

    /// How many refresh cycles have been attempted.
    pub fn refresh_attempts(&self) -> (r: u64)
        ensures
            r == self@.refresh_attempts,
    {
        self.refresh_attempts
    }

    /// The timestamp recorded by the last committed refresh cycle.
    pub fn last_refresh_timestamp(&self) -> (r: i64)
        ensures
            r == self@.last_refresh_timestamp,
    {
        self.last_refresh_timestamp
    }
}

} // verus!
