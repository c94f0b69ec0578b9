//! Orchestration of one recommendation request.
//!
//! The flow is a state machine: check the cache; on a hit return the
//! cached payload; on a miss (or an unreachable cache — absorbed, never
//! surfaced) compose the predicate, fetch, score, rank, store the result
//! best-effort, and return it. A candidate-store failure fails the whole
//! request with no partial ranking; a cache failure on either side is
//! swallowed. The transport layer runs the loop: it performs each
//! returned [`Action`] and hands the outcome back.

use vstd::prelude::*;
use vstd::pervasive::unreached;
use vstd::seq_lib::*;

use crate::fingerprint::{key_for, spec_key_for};
use crate::predicate::{
    binds_view, build_predicate, is_blank, like_pattern, spec_bindings, spec_clauses, spec_sql,
    BindValue,
};
use crate::rank::{build_ranked, ranked_sorted, spec_rank};
use crate::schema::{Candidate, MenuItem, PreferenceRequest};
use crate::scoring::{score_candidate, spec_scored_item};

verus! {

/// The ranked page of a fetched candidate list: every row scored with the
/// exact weighted sum, ranked by score descending with ties by id
/// ascending, truncated to the request's limit.
pub open spec fn spec_recommend(rows: Seq<Candidate>, req: PreferenceRequest) -> Seq<MenuItem> {
    let scored = rows.map_values(|c: Candidate| spec_scored_item(c, req));
    spec_rank(scored).take(
        if req.limit <= rows.len() {
            req.limit as int
        } else {
            rows.len() as int
        },
    )
}

/// Score and rank fetched candidates: pure in-memory computation, no
/// suspension, no randomness.
pub fn rank_candidates(rows: Vec<Candidate>, req: &PreferenceRequest) -> (r: Vec<MenuItem>)
    requires
        req.wf(),
        forall|i: int| 0 <= i < rows@.len() ==> (#[trigger] rows@[i]).wf(),
    ensures
        r@ == spec_recommend(rows@, *req),
        ranked_sorted(r@),
        r@.len() <= req.limit,
        rows@.len() >= req.limit ==> r@.len() == req.limit,
        rows@.len() < req.limit ==> r@.len() == rows@.len(),
        forall|i: int, j: int| 0 <= i <= j < r@.len() ==> #[trigger] r@[i].score
            >= #[trigger] r@[j].score,
{
    let ghost orig = rows@;
    let ghost f = |c: Candidate| spec_scored_item(c, *req);
    let mut rest = rows;
    let mut scored: Vec<MenuItem> = Vec::new();
    let ghost k: int = 0;
    proof {
        assert(scored@ =~= orig.take(0).map_values(f));
    }
    while rest.len() > 0
        invariant
            req.wf(),
            0 <= k <= orig.len(),
            rest@ == orig.skip(k),
            forall|i: int| 0 <= i < orig.len() ==> (#[trigger] orig[i]).wf(),
            scored@ == orig.take(k).map_values(f),
            f == (|c: Candidate| spec_scored_item(c, *req)),
        decreases rest@.len(),
    {
        let c = rest.remove(0);
        proof {
            assert(c == orig[k]);
            assert(rest@ =~= orig.skip(k + 1));
        }
        let m = score_candidate(c, req);
        scored.push(m);
        proof {
            assert(scored@ =~= orig.take(k + 1).map_values(f));
        }
        proof {
            k = k + 1;
        }
    }
    proof {
        assert(orig.take(orig.len() as int) =~= orig);
        assert(scored@.len() == orig.len());
    }
    build_ranked(scored, req.limit)
}

/// What one cache lookup came back with. An unreachable cache is its own
/// case so the flow can state that it acts exactly like a miss.
pub enum CacheLookup {
    Hit { payload: String },
    Miss,
    Fault,
}

/// The final answer of a flow: a cached payload returned verbatim, or a
/// freshly computed ranked page.
pub enum Outcome {
    Cached(String),
    Computed(Vec<MenuItem>),
}

/// What the transport layer must do next on behalf of the flow.
pub enum Action {
    /// Look the fingerprint up in the result cache.
    GetCached { key: String },
    /// Run the rendered statement against the candidate store; it returns
    /// at most `limit_rows` rows.
    FetchCandidates { sql: String, binds: Vec<BindValue>, limit_rows: usize },
    /// Serialize the pending items and store them under `key` with TTL
    /// `ttl`, best effort.
    StoreCached { key: String, ttl: u64 },
    /// Hand the outcome to the caller.
    Finish { outcome: Outcome },
    /// Surface the candidate-store failure as a retryable service error;
    /// nothing partial is returned.
    Fail,
}

/// Where a request stands.
pub enum FlowState {
    CheckCache,
    Fetching,
    Storing { items: Vec<MenuItem> },
    Done,
    Failed,
}

/// One in-flight recommendation request: its normalized preferences, its
/// cache key, the externally configured TTL, and its state.
pub struct RecommendFlow {
    pub req: PreferenceRequest,
    pub key: String,
    pub ttl: u64,
    pub state: FlowState,
}

impl RecommendFlow {
    pub open spec fn wf(self) -> bool {
        self.req.wf()
    }

    /// Begin a request: derive the fingerprint key of the logical request
    /// and ask for a cache lookup first.
    pub fn start(req: PreferenceRequest, query_text: &str, variables_json: &str, ttl: u64) -> (r:
        (RecommendFlow, Action))
        requires
            req.wf(),
        ensures
            r.0.wf(),
            r.0.req == req,
            r.0.ttl == ttl,
            r.0.state is CheckCache,
            r.0.key@ == spec_key_for(query_text@, variables_json@),
            r.1 matches Action::GetCached { key } && key@ == spec_key_for(
                query_text@,
                variables_json@,
            ),
    {
        let key = key_for(query_text, variables_json);
        let key_out = key.clone();
        (
            RecommendFlow { req, key, ttl, state: FlowState::CheckCache },
            Action::GetCached { key: key_out },
        )
    }

    /// Act on the cache lookup. A hit finishes at once with the cached
    /// payload, unchanged. A miss composes the predicate and asks for the
    /// fetch — and an unreachable cache takes exactly the miss path: the
    /// request never fails because of a cache fault.
    pub fn on_cache(self, found: CacheLookup) -> (r: (RecommendFlow, Action))
        requires
            self.wf(),
            self.state is CheckCache,
        ensures
            r.0.wf(),
            r.0.req == self.req,
            r.0.key == self.key,
            r.0.ttl == self.ttl,
            match found {
                CacheLookup::Hit { payload } => {
                    &&& r.0.state is Done
                    &&& r.1 matches Action::Finish { outcome }
                    &&& outcome matches Outcome::Cached(p) && p == payload
                },
                _ => {
                    &&& r.0.state is Fetching
                    &&& r.1 matches Action::FetchCandidates { sql, binds, limit_rows }
                    &&& sql@ == spec_sql(spec_clauses(self.req))
                    &&& binds_view(binds@) == spec_bindings(spec_clauses(self.req))
                    &&& limit_rows == 200
                },
            },
    {
        match found {
            CacheLookup::Hit { payload } => (
                RecommendFlow { state: FlowState::Done, ..self },
                Action::Finish { outcome: Outcome::Cached(payload) },
            ),
            _ => {
                let predicate = build_predicate(&self.req);
                let limit_rows = predicate.fetch_limit;
                let (sql, binds) = predicate.to_sql();
                (
                    RecommendFlow { state: FlowState::Fetching, ..self },
                    Action::FetchCandidates { sql, binds, limit_rows },
                )
            },
        }
    }

    /// Act on the fetched rows: score, rank and truncate them, then ask
    /// for a best-effort store of the result.
    pub fn on_fetched(self, rows: Vec<Candidate>) -> (r: (RecommendFlow, Action))
        requires
            self.wf(),
            self.state is Fetching,
            forall|i: int| 0 <= i < rows@.len() ==> (#[trigger] rows@[i]).wf(),
        ensures
            r.0.wf(),
            r.0.req == self.req,
            r.0.key == self.key,
            r.0.ttl == self.ttl,
            r.0.state matches FlowState::Storing { items } && items@ == spec_recommend(
                rows@,
                self.req,
            ),
            r.1 matches Action::StoreCached { key, ttl } && key == self.key && ttl == self.ttl,
    {
        let items = rank_candidates(rows, &self.req);
        let key_out = self.key.clone();
        (
            RecommendFlow { state: FlowState::Storing { items }, ..self },
            Action::StoreCached { key: key_out, ttl: self.ttl },
        )
    }

    /// A candidate-store failure fails the whole request: no partial
    /// ranking is ever returned, and nothing is cached.
    pub fn on_fetch_fault(self) -> (r: (RecommendFlow, Action))
        requires
            self.state is Fetching,
        ensures
            r.0.state is Failed,
            r.1 is Fail,
    {
        (RecommendFlow { state: FlowState::Failed, ..self }, Action::Fail)
    }

    /// The computed items awaiting their store, for the transport layer to
    /// serialize.
    pub fn pending_items(&self) -> (r: &Vec<MenuItem>)
        requires
            self.state is Storing,
        ensures
            r@ == self.state->Storing_items@,
    {
        match &self.state {
            FlowState::Storing { items } => items,
            _ => unreached(),
        }
    }

    /// Finish after the store attempt. Whether the entry was stored or the
    /// cache write failed, the outcome is the computed items: a cache
    /// fault on write is absorbed and never observable to the caller.
    pub fn on_stored(self, stored_ok: bool) -> (r: (RecommendFlow, Action))
        requires
            self.wf(),
            self.state is Storing,
        ensures
            r.0.state is Done,
            r.1 matches Action::Finish { outcome } && outcome matches Outcome::Computed(items)
                && items@ == self.state->Storing_items@,
    {
        let _ = stored_ok;
        match self.state {
            FlowState::Storing { items } => (
                RecommendFlow { state: FlowState::Done, req: self.req, key: self.key, ttl: self.ttl },
                Action::Finish { outcome: Outcome::Computed(items) },
            ),
            _ => unreached(),
        }
    }
}

/// The plan of one hall listing: an optional substring pattern and the
/// fixed 50-row cap, ordered by name.
pub struct HallListPlan {
    pub pattern: Option<String>,
    pub fetch_limit: usize,
}

/// The pure core behind the query surface's resolvers.
pub struct QueryRoot;

impl QueryRoot {
    /// Plan the hall listing: a blank or absent query lists every hall
    /// (capped at 50, ordered by name); any other query filters by the
    /// case-insensitive substring pattern built from it.
    pub fn dining_halls(&self, query: &Option<String>) -> (r: HallListPlan)
        ensures
            r.fetch_limit == 50,
            match query {
                Some(q) => {
                    if crate::predicate::spec_is_blank(q@) {
                        r.pattern is None
                    } else {
                        r.pattern matches Some(p) && p@ == "%"@ + q@ + "%"@
                    }
                },
                None => r.pattern is None,
            },
    {
        match query {
            Some(q) => {
                if is_blank(q.as_str()) {
                    HallListPlan { pattern: None, fetch_limit: 50 }
                } else {
                    HallListPlan { pattern: Some(like_pattern(q.as_str())), fetch_limit: 50 }
                }
            },
            None => HallListPlan { pattern: None, fetch_limit: 50 },
        }
    }

    /// Rank fetched candidates for a normalized request: the deterministic
    /// score-rank-truncate pipeline.
    pub fn recommend(&self, rows: Vec<Candidate>, req: &PreferenceRequest) -> (r: Vec<MenuItem>)
        requires
            req.wf(),
            forall|i: int| 0 <= i < rows@.len() ==> (#[trigger] rows@[i]).wf(),
        ensures
            r@ == spec_recommend(rows@, *req),
            ranked_sorted(r@),
            forall|i: int, j: int| 0 <= i <= j < r@.len() ==> #[trigger] r@[i].score
                >= #[trigger] r@[j].score,
    {
        rank_candidates(rows, req)
    }
}

} // verus!
