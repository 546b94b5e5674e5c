//! The failover router's decision core: which providers are attempted, in
//! which order, how often each is retried, and when a response is relayed.
//! The surrounding application performs the outbound calls and feeds each
//! outcome back; every decision in between is made here.

use vstd::prelude::*;
use crate::credentials::{extract_provider_credentials, extracted_credentials};
use crate::model::{AppType, Provider};

verus! {

/// Terminal router failures.
#[derive(Debug, Clone, PartialEq, Eq)]
pub enum RouterError {
    /// No provider has the proxy flag enabled for this client kind.
    NoEligibleProvider,
    /// Every credentialed provider exhausted all its attempts.
    AllProvidersExhausted,
}

/// Status relayed to the caller when the router fails.
pub fn status_for_router_error(e: &RouterError) -> (s: u16)
    ensures
        e is NoEligibleProvider ==> s == 503,
        e is AllProvidersExhausted ==> s == 500,
{
    match e {
        RouterError::NoEligibleProvider => 503,
        RouterError::AllProvidersExhausted => 500,
    }
}

/// Status for an inbound request whose body cannot be read.
pub const MALFORMED_BODY_STATUS: u16 = 400;

/// Status for a relayed response whose upstream body cannot be read.
pub const UPSTREAM_BODY_STATUS: u16 = 502;

/// An attempt is successful exactly when the upstream answers 200.
pub fn attempt_succeeded(status: u16) -> (r: bool)
    ensures
        r == (status == 200),
{
    status == 200
}

/// A provider with extracted credentials, ready to be attempted.
#[derive(Debug, Clone, PartialEq, Eq)]
pub struct PlannedProvider {
    /// Index of the provider in the registry snapshot.
    pub provider_index: usize,
    /// The outbound target: the extracted base URL, trailing slashes
    /// stripped, followed by the inbound path-and-query.
    pub target_url: String,
    /// The extracted API key.
    pub api_key: String,
}

/// The base URL with every trailing `/` removed.
pub open spec fn trimmed_base(url: Seq<char>) -> Seq<char>
    decreases url.len(),
{
    if url.len() > 0 && url.last() == '/' {
        trimmed_base(url.drop_last())
    } else {
        url
    }
}

/// Model of one planned provider.
pub open spec fn planned_model(e: PlannedProvider) -> (int, Seq<char>, Seq<char>) {
    (e.provider_index as int, e.target_url@, e.api_key@)
}

/// Models of a planned-provider sequence.
pub open spec fn planned_models(es: Seq<PlannedProvider>) -> Seq<(int, Seq<char>, Seq<char>)>
    decreases es.len(),
{
    if es.len() == 0 {
        Seq::empty()
    } else {
        planned_models(es.drop_last()).push(planned_model(es.last()))
    }
}

/// The plan entries owed for an ordered list of provider indexes: one entry
/// per provider whose credential extraction succeeds, in order, carrying the
/// trimmed base URL with the request path appended, and the API key.
pub open spec fn owed_entries(
    ps: Seq<Provider>,
    order: Seq<usize>,
    app_type: AppType,
    path: Seq<char>,
) -> Seq<(int, Seq<char>, Seq<char>)>
    decreases order.len(),
{
    if order.len() == 0 {
        Seq::empty()
    } else {
        let rest = owed_entries(ps, order.drop_last(), app_type, path);
        let idx = order.last() as int;
        match extracted_credentials(ps[idx].settings_config@, app_type) {
            Ok(ku) => rest.push((idx, trimmed_base(ku.1) + path, ku.0)),
            Err(_) => rest,
        }
    }
}

/// The ordered attempt plan for one inbound request.
#[derive(Debug)]
pub struct FailoverPlan {
    pub entries: Vec<PlannedProvider>,
    pub retry_count: usize,
}

/// The target URL for one provider: base URL with trailing slashes stripped,
/// then the request path-and-query.
#[verifier::loop_isolation(false)]
pub fn build_target_url(base_url: &str, request_path: &str) -> (r: String)
    ensures
        r@ == trimmed_base(base_url@) + request_path@,
{
    let n = base_url.unicode_len();
    proof {
        assert(base_url@.take(n as int) =~= base_url@);
    }
    let mut cut: usize = n;
    while cut > 0 && base_url.get_char(cut - 1) == '/'
        invariant
            cut <= n,
            n == base_url@.len(),
            trimmed_base(base_url@) == trimmed_base(base_url@.take(cut as int)),
        decreases cut,
    {
        proof {
            assert(base_url@.take(cut as int).drop_last() =~= base_url@.take(cut - 1));
        }
        cut -= 1;
    }
    proof {
        assert(trimmed_base(base_url@.take(cut as int)) == base_url@.take(cut as int));
    }
    let mut r = String::from_str(base_url.substring_char(0, cut));
    r.append(request_path);
    proof {
        assert(base_url@.subrange(0, cut as int) =~= base_url@.take(cut as int));
    }
    r
}

/// The attempt plan for an ordered list of eligible provider indexes:
/// providers whose credential extraction fails are skipped; the rest appear
/// in order with their target URL and API key. An empty `order` (no eligible
/// provider) is the `NoEligibleProvider` failure.
#[verifier::loop_isolation(false)]
pub fn build_failover_plan(
    providers: &Vec<Provider>,
    order: &Vec<usize>,
    app_type: AppType,
    request_path: &str,
    retry_count: usize,
) -> (r: Result<FailoverPlan, RouterError>)
    requires
        forall|t: int| 0 <= t < order@.len() ==> (order@[t] as int) < providers@.len(),
    ensures
        match r {
            Ok(plan) => order@.len() > 0 && plan.retry_count == retry_count && planned_models(
                plan.entries@,
            ) == owed_entries(providers@, order@, app_type, request_path@),
            Err(e) => e is NoEligibleProvider && order@.len() == 0,
        },
{
    if order.len() == 0 {
        return Err(RouterError::NoEligibleProvider);
    }
    let mut entries: Vec<PlannedProvider> = Vec::new();
    let mut i: usize = 0;
    while i < order.len()
        invariant
            i <= order@.len(),
            planned_models(entries@) == owed_entries(
                providers@,
                order@.take(i as int),
                app_type,
                request_path@,
            ),
        decreases order@.len() - i,
    {
        proof {
            assert(order@.take(i + 1).drop_last() =~= order@.take(i as int));
            assert(order@.take(i + 1).last() == order@[i as int]);
        }
        let idx = order[i];
        match extract_provider_credentials(&providers[idx], app_type) {
            Ok(ku) => {
                let ghost prev = entries@;
                let url = build_target_url(ku.1.as_str(), request_path);
                let entry = PlannedProvider { provider_index: idx, target_url: url, api_key: ku.0 };
                entries.push(entry);
                proof {
                    assert(entries@.drop_last() =~= prev);
                    assert(entries@.last() == entry);
                    assert(planned_models(entries@) == owed_entries(
                        providers@,
                        order@.take(i + 1),
                        app_type,
                        request_path@,
                    ));
                }
            },
            Err(_) => {},
        }
        i += 1;
    }
    proof {
        assert(order@.take(order@.len() as int) =~= order@);
    }
    Ok(FailoverPlan { entries, retry_count })
}

/// Failure transition of the retry bookkeeping: another attempt for the same
/// provider while the retry budget lasts, else on to the next provider.
pub open spec fn failed_state(cur: int, attempt: int, retry_count: int) -> (int, int) {
    if attempt < retry_count {
        (cur, attempt + 1)
    } else {
        (cur + 1, 0)
    }
}

/// The state after `n` consecutive failed attempts.
pub open spec fn after_failures(cur: int, attempt: int, retry_count: int, n: nat) -> (int, int)
    decreases n,
{
    if n == 0 {
        (cur, attempt)
    } else {
        let p = after_failures(cur, attempt, retry_count, (n - 1) as nat);
        failed_state(p.0, p.1, retry_count)
    }
}

/// While a provider keeps failing within its retry budget, the router stays
/// with it: after `n <= retry_count` failures it is still the current one.
pub proof fn lemma_retry_same_provider(cur: int, retry_count: int, n: nat)
    requires
        n <= retry_count,
    ensures
        after_failures(cur, 0, retry_count, n) == (cur, n as int),
    decreases n,
{
    if n > 0 {
        lemma_retry_same_provider(cur, retry_count, (n - 1) as nat);
    }
}

/// A provider that always fails is attempted exactly `retry_count + 1`
/// times, and only then does the router move to the next provider.
pub proof fn lemma_provider_attempt_budget(cur: int, retry_count: int)
    requires
        retry_count >= 0,
    ensures
        forall|n: nat|
            n <= retry_count ==> #[trigger] after_failures(cur, 0, retry_count, n) == (
                cur,
                n as int,
            ),
        after_failures(cur, 0, retry_count, (retry_count + 1) as nat) == (cur + 1, 0int),
{
    assert forall|n: nat|
        n <= retry_count implies #[trigger] after_failures(cur, 0, retry_count, n) == (
        cur,
        n as int,
    ) by {
        lemma_retry_same_provider(cur, retry_count, n);
    }
    lemma_retry_same_provider(cur, retry_count, retry_count as nat);
}

/// Retry and failover bookkeeping for one inbound request: which plan entry
/// is attempted next, and whether a response has been relayed.
#[derive(Debug)]
pub struct FailoverRouter {
    /// Number of plan entries.
    pub total: usize,
    /// Extra attempts allowed per provider beyond the first.
    pub retry_count: usize,
    /// Current plan entry.
    pub cur: usize,
    /// Attempts already spent on the current entry.
    pub attempt: usize,
    /// A 200 response has been relayed; the router is done.
    pub relayed: bool,
}

impl FailoverRouter {
    /// Bookkeeping well-formedness.
    pub open spec fn wf(&self) -> bool {
        self.cur <= self.total && self.attempt <= self.retry_count
    }

    /// A fresh router over a plan's entries.
    pub fn start(plan: &FailoverPlan) -> (r: FailoverRouter)
        ensures
            r.wf(),
            r.total == plan.entries@.len(),
            r.retry_count == plan.retry_count,
            r.cur == 0,
            r.attempt == 0,
            !r.relayed,
    {
        FailoverRouter {
            total: plan.entries.len(),
            retry_count: plan.retry_count,
            cur: 0,
            attempt: 0,
            relayed: false,
        }
    }

    /// The attempt the router asks for next: the current plan entry and the
    /// attempt number, or nothing when a response was already relayed or
    /// every entry is exhausted.
    pub open spec fn pending_attempt(&self) -> Option<(usize, usize)> {
        if !self.relayed && self.cur < self.total {
            Some((self.cur, self.attempt))
        } else {
            None
        }
    }

    /// The next attempt owed, as `pending_attempt` says.
    pub fn next_attempt(&self) -> (r: Option<(usize, usize)>)
        ensures
            r == self.pending_attempt(),
    {
        if !self.relayed && self.cur < self.total {
            Some((self.cur, self.attempt))
        } else {
            None
        }
    }

    /// Whether the router has failed for good.
    pub fn exhausted(&self) -> (r: bool)
        ensures
            r == (!self.relayed && self.cur >= self.total),
    {
        !self.relayed && self.cur >= self.total
    }

    /// A relayed response is terminal: once a success was recorded the
    /// router asks for no further attempt, so no further provider is ever
    /// contacted and no second response can be relayed (`record_outcome`
    /// demands an outstanding attempt).
    pub proof fn lemma_relay_is_terminal(&self)
        requires
            self.relayed,
        ensures
            self.pending_attempt() is None,
    {
    }

    /// Record the outcome of the attempt `next_attempt` asked for. A success
    /// (status 200) marks the response relayed — at most one response is ever
    /// relayed, and afterwards `next_attempt` never asks for another contact.
    /// A failure advances exactly as `failed_state` says: the same provider
    /// is retried while the budget lasts, then the next one starts fresh.
    pub fn record_outcome(&mut self, success: bool)
        requires
            old(self).wf(),
            !old(self).relayed,
            old(self).cur < old(self).total,
        ensures
            final(self).wf(),
            final(self).total == old(self).total,
            final(self).retry_count == old(self).retry_count,
            success ==> final(self).relayed && final(self).cur == old(self).cur
                && final(self).attempt == old(self).attempt,
            !success ==> !final(self).relayed && (final(self).cur as int, final(self).attempt as int)
                == failed_state(
                old(self).cur as int,
                old(self).attempt as int,
                old(self).retry_count as int,
            ),
    {
        if success {
            self.relayed = true;
        } else if self.attempt < self.retry_count {
            self.attempt = self.attempt + 1;
        } else {
            self.cur = self.cur + 1;
            self.attempt = 0;
        }
    }
}

} // verus!
