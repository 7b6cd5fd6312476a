//! Retries and the circuit breaker of each backend. Time is the caller's
//! clock in milliseconds.
use vstd::prelude::*;

use crate::error::{retryable_by_default, GatewayError, GatewayErrorKind};
use crate::text::str_eq;
use crate::types::{BackendCapabilities, ReliabilityConfig, RetryPolicy};

verus! {

/// The breaker of one backend: its run of counted failures, until when it
/// is open, and whether a probe request is out.
#[derive(Debug, Clone, Copy, PartialEq, Eq, Structural)]
pub struct BreakerState {
    pub failure_streak: u32,
    pub open_until_ms: Option<u64>,
    pub probe_in_flight: bool,
}

impl Default for BreakerState {
    fn default() -> (s: BreakerState)
        ensures
            s == closed_breaker(),
    {
        BreakerState { failure_streak: 0, open_until_ms: None, probe_in_flight: false }
    }
}

/// A breaker that has seen no failure.
pub open spec fn closed_breaker() -> BreakerState {
    BreakerState { failure_streak: 0, open_until_ms: None, probe_in_flight: false }
}

/// Why a backend is refused at `now`, if it is: its breaker is open, or
/// its single probe is already out.
pub enum Refusal {
    Open,
    ProbeInFlight,
}

/// Whether a request may go to a backend whose breaker is `s` at `now`,
/// and the breaker after the check: once the open time has passed, one
/// probe is let through.
pub open spec fn allow_step(s: BreakerState, now: u64) -> (Option<Refusal>, BreakerState) {
    match s.open_until_ms {
        Some(until) => if now < until {
            (Some(Refusal::Open), s)
        } else if s.probe_in_flight {
            (Some(Refusal::ProbeInFlight), s)
        } else {
            (None, BreakerState { probe_in_flight: true, ..s })
        },
        None => (None, s),
    }
}

/// The breaker after a success.
pub open spec fn success_step(s: BreakerState) -> BreakerState {
    closed_breaker()
}

/// The breaker after a failure that counts toward it: the streak grows,
/// the probe is over, and at the threshold the breaker opens for
/// `open_ms` from `now`.
pub open spec fn failure_step(s: BreakerState, threshold: u32, open_ms: u64, now: u64) -> BreakerState {
    let streak: u32 = if s.failure_streak == u32::MAX {
        u32::MAX
    } else {
        (s.failure_streak + 1) as u32
    };
    let t: u32 = if threshold == 0 {
        1
    } else {
        threshold
    };
    let d: u64 = if open_ms == 0 {
        1
    } else {
        open_ms
    };
    BreakerState {
        failure_streak: streak,
        open_until_ms: if streak >= t {
            Some((now + d) as u64)
        } else {
            s.open_until_ms
        },
        probe_in_flight: false,
    }
}

/// The breaker of `backend` among `entries`, closed where there is none.
pub open spec fn breaker_of(entries: Seq<(String, BreakerState)>, backend: Seq<char>) -> BreakerState
    decreases entries.len(),
{
    if entries.len() == 0 {
        closed_breaker()
    } else if entries.last().0@ == backend {
        entries.last().1
    } else {
        breaker_of(entries.drop_last(), backend)
    }
}

/// Whether an error of this kind counts toward the breaker.
pub open spec fn counts_spec(kind: GatewayErrorKind) -> bool {
    kind == GatewayErrorKind::BackendTransient || kind == GatewayErrorKind::Timeout || kind
        == GatewayErrorKind::RateLimited
}

/// Whether a failed attempt may be retried.
pub open spec fn can_retry_spec(
    config: ReliabilityConfig,
    retryable: bool,
    attempt: u32,
    emitted_output: bool,
    emitted_tool: bool,
    caps: BackendCapabilities,
    adapter_tool_retry_safe: bool,
) -> bool {
    &&& retryable
    &&& attempt < config.max_retries
    &&& (emitted_output ==> config.retry_policy == RetryPolicy::AdapterResumable)
    &&& (emitted_output ==> caps.resumable_streaming)
    &&& (emitted_tool ==> adapter_tool_retry_safe)
}

pub open spec fn open_message(backend: Seq<char>) -> Seq<char> {
    "circuit breaker is open for backend '"@ + backend + "'"@
}

pub open spec fn probe_message(backend: Seq<char>) -> Seq<char> {
    "circuit probe is already in-flight for backend '"@ + backend + "'"@
}

/// A non-retryable circuit-open error for `backend` with `message`.
pub open spec fn circuit_error(e: GatewayError, backend: Seq<char>, message: Seq<char>) -> bool {
    &&& e.kind == GatewayErrorKind::CircuitOpen
    &&& e.message@ == message
    &&& !e.retryable
    &&& e.backend_id matches Some(b) && b@ == backend
    &&& e.provider_code is None
    &&& e.provider_http_status is None
}

/// Retry decisions and the breakers of the backends.
#[derive(Debug)]
pub struct ReliabilityLayer {
    config: ReliabilityConfig,
    breakers: Vec<(String, BreakerState)>,
}

impl ReliabilityLayer {
    pub closed spec fn config_spec(&self) -> ReliabilityConfig {
        self.config
    }

    /// The breaker of `backend`.
    pub closed spec fn breaker(&self, backend: Seq<char>) -> BreakerState {
        breaker_of(self.breakers@, backend)
    }

    pub fn new(config: ReliabilityConfig) -> (r: ReliabilityLayer)
        ensures
            r.config_spec() == config,
            forall|b: Seq<char>| #[trigger] r.breaker(b) == closed_breaker(),
    {
        ReliabilityLayer { config, breakers: Vec::new() }
    }

    pub fn config(&self) -> (r: &ReliabilityConfig)
        ensures
            *r == self.config_spec(),
    {
        &self.config
    }

    /// The position of the last entry of `backend`.
    fn find(&self, backend_id: &str) -> (r: Option<usize>)
        ensures
            match r {
                Some(i) => i < self.breakers@.len() && self.breakers@[i as int].0@ == backend_id@
                    && breaker_of(self.breakers@, backend_id@) == self.breakers@[i as int].1
                    && forall|j: int|
                    i < j < self.breakers@.len() ==> (#[trigger] self.breakers@[j]).0@ != backend_id@,
                None => breaker_of(self.breakers@, backend_id@) == closed_breaker() && forall|j: int|
                    0 <= j < self.breakers@.len() ==> (#[trigger] self.breakers@[j]).0@ != backend_id@,
            },
    {
        let mut i: usize = self.breakers.len();
        assert(self.breakers@.take(i as int) =~= self.breakers@);
        while i > 0
            invariant
                i <= self.breakers@.len(),
                breaker_of(self.breakers@, backend_id@) == breaker_of(
                    self.breakers@.take(i as int),
                    backend_id@,
                ),
                forall|j: int| i <= j < self.breakers@.len() ==> (#[trigger] self.breakers@[j]).0@ != backend_id@,
            decreases i,
        {
            assert(self.breakers@.take(i as int).drop_last() =~= self.breakers@.take(i - 1));
            assert(self.breakers@.take(i as int).last() == self.breakers@[i - 1]);
            if str_eq(self.breakers[i - 1].0.as_str(), backend_id) {
                return Some(i - 1);
            }
            i = i - 1;
        }
        None
    }

    /// Stores `state` as the breaker of `backend_id`.
    fn store(&mut self, backend_id: &str, state: BreakerState)
        ensures
            final(self).config_spec() == old(self).config_spec(),
            final(self).breaker(backend_id@) == state,
            forall|b: Seq<char>| b != backend_id@ ==> #[trigger] final(self).breaker(b) == old(
                self,
            ).breaker(b),
    {
        let ghost e = self.breakers@;
        match self.find(backend_id) {
            Some(i) => {
                let key = self.breakers[i].0.clone();
                self.breakers.set(i, (key, state));
                proof {
                    lemma_breaker_update(e, i as int, state, backend_id@);
                }
            },
            None => {
                self.breakers.push((String::from_str(backend_id), state));
                proof {
                    assert(self.breakers@.drop_last() =~= e);
                }
            },
        }
    }

    /// Lets a request go to `backend_id` at `now_ms` unless its breaker is
    /// open, or its one probe is already out; after the open time the first
    /// request goes through as the probe.
    pub fn ensure_backend_allowed(&mut self, backend_id: &str, now_ms: u64) -> (r: Result<
        (),
        GatewayError,
    >)
        ensures
            final(self).config_spec() == old(self).config_spec(),
            final(self).breaker(backend_id@) == allow_step(old(self).breaker(backend_id@), now_ms).1,
            forall|b: Seq<char>| b != backend_id@ ==> #[trigger] final(self).breaker(b) == old(
                self,
            ).breaker(b),
            match allow_step(old(self).breaker(backend_id@), now_ms).0 {
                None => r is Ok,
                Some(Refusal::Open) => r matches Err(e) && circuit_error(
                    e,
                    backend_id@,
                    open_message(backend_id@),
                ),
                Some(Refusal::ProbeInFlight) => r matches Err(e) && circuit_error(
                    e,
                    backend_id@,
                    probe_message(backend_id@),
                ),
            },
    {
        let state = match self.find(backend_id) {
            Some(i) => self.breakers[i].1,
            None => BreakerState::default(),
        };
        match state.open_until_ms {
            Some(open_until) => {
                if now_ms < open_until {
                    self.store(backend_id, state);
                    let mut m = String::from_str("circuit breaker is open for backend '");
                    m.append(backend_id);
                    m.append("'");
                    return Err(
                        GatewayError::new(GatewayErrorKind::CircuitOpen, m.as_str()).with_retryable(
                            false,
                        ).with_backend_id(backend_id),
                    );
                }
                if state.probe_in_flight {
                    self.store(backend_id, state);
                    let mut m = String::from_str("circuit probe is already in-flight for backend '");
                    m.append(backend_id);
                    m.append("'");
                    return Err(
                        GatewayError::new(GatewayErrorKind::CircuitOpen, m.as_str()).with_retryable(
                            false,
                        ).with_backend_id(backend_id),
                    );
                }
                self.store(backend_id, BreakerState { probe_in_flight: true, ..state });
            },
            None => {
                self.store(backend_id, state);
            },
        }
        Ok(())
    }

    /// Closes the breaker of `backend_id`.
    pub fn record_success(&mut self, backend_id: &str)
        ensures
            final(self).config_spec() == old(self).config_spec(),
            final(self).breaker(backend_id@) == success_step(old(self).breaker(backend_id@)),
            forall|b: Seq<char>| b != backend_id@ ==> #[trigger] final(self).breaker(b) == old(
                self,
            ).breaker(b),
    {
        self.store(backend_id, BreakerState::default());
    }

    /// Counts a failure toward the breaker of `backend_id`, if it counts,
    /// opening it at the threshold.
    pub fn record_failure(&mut self, backend_id: &str, count_toward_breaker: bool, now_ms: u64)
        requires
            now_ms + (if old(self).config_spec().breaker_open_ms == 0 {
                1
            } else {
                old(self).config_spec().breaker_open_ms as int
            }) <= u64::MAX,
        ensures
            final(self).config_spec() == old(self).config_spec(),
            count_toward_breaker ==> final(self).breaker(backend_id@) == failure_step(
                old(self).breaker(backend_id@),
                old(self).config_spec().breaker_failure_threshold,
                old(self).config_spec().breaker_open_ms,
                now_ms,
            ),
            !count_toward_breaker ==> final(self).breaker(backend_id@) == old(self).breaker(
                backend_id@,
            ),
            forall|b: Seq<char>| b != backend_id@ ==> #[trigger] final(self).breaker(b) == old(
                self,
            ).breaker(b),
    {
        if !count_toward_breaker {
            return;
        }
        let state = match self.find(backend_id) {
            Some(i) => self.breakers[i].1,
            None => BreakerState::default(),
        };
        let streak = state.failure_streak.saturating_add(1);
        let threshold = if self.config.breaker_failure_threshold == 0 {
            1
        } else {
            self.config.breaker_failure_threshold
        };
        let open_ms = if self.config.breaker_open_ms == 0 {
            1
        } else {
            self.config.breaker_open_ms
        };
        let open_until_ms = if streak >= threshold {
            Some(now_ms + open_ms)
        } else {
            state.open_until_ms
        };
        self.store(
            backend_id,
            BreakerState { failure_streak: streak, open_until_ms, probe_in_flight: false },
        );
    }

    /// Whether a failed attempt may be retried: the error is retryable,
    /// retries are left, output already sent needs resumable streaming
    /// under the resumable policy, and tool output needs an adapter that
    /// can retry tools safely.
    pub fn can_retry(
        &self,
        err: &GatewayError,
        attempt: u32,
        emitted_output: bool,
        emitted_tool: bool,
        capabilities: &BackendCapabilities,
        adapter_tool_retry_safe: bool,
    ) -> (r: bool)
        ensures
            r == can_retry_spec(
                self.config_spec(),
                err.retryable,
                attempt,
                emitted_output,
                emitted_tool,
                *capabilities,
                adapter_tool_retry_safe,
            ),
    {
        if !err.retryable || attempt >= self.config.max_retries {
            return false;
        }
        if emitted_output && self.config.retry_policy != RetryPolicy::AdapterResumable {
            return false;
        }
        if emitted_output && !capabilities.resumable_streaming {
            return false;
        }
        if emitted_tool && !adapter_tool_retry_safe {
            return false;
        }
        true
    }

    /// Transient backend failures, timeouts and rate limits count toward
    /// the breaker.
    pub fn counts_toward_breaker(err: &GatewayError) -> (r: bool)
        ensures
            r == counts_spec(err.kind),
            err.kind == GatewayErrorKind::Timeout ==> r,
            err.kind == GatewayErrorKind::BackendTransient ==> r,
            err.kind == GatewayErrorKind::RateLimited ==> r,
    {
        err.kind == GatewayErrorKind::BackendTransient || err.kind == GatewayErrorKind::Timeout
            || err.kind == GatewayErrorKind::RateLimited
    }
}

proof fn lemma_breaker_update(e: Seq<(String, BreakerState)>, i: int, state: BreakerState, key: Seq<char>)
    requires
        0 <= i < e.len(),
        e[i].0@ == key,
        forall|j: int| i < j < e.len() ==> (#[trigger] e[j]).0@ != key,
    ensures
        breaker_of(e.update(i, (e[i].0, state)), key) == state,
        forall|b: Seq<char>|
            b != key ==> #[trigger] breaker_of(e.update(i, (e[i].0, state)), b) == breaker_of(e, b),
    decreases e.len(),
{
    let u = e.update(i, (e[i].0, state));
    if i < e.len() - 1 {
        assert(u.drop_last() =~= e.drop_last().update(i, (e[i].0, state)));
        assert(u.last() == e.last());
        assert(e[e.len() - 1].0@ != key);
        assert(e.drop_last()[i] == e[i]);
        assert forall|j: int| i < j < e.drop_last().len() implies (#[trigger] e.drop_last()[j]).0@
            != key by {
            assert(e.drop_last()[j] == e[j]);
        }
        lemma_breaker_update(e.drop_last(), i, state, key);
        assert forall|b: Seq<char>| b != key implies #[trigger] breaker_of(u, b) == breaker_of(e, b) by {
            assert(breaker_of(u.drop_last(), b) == breaker_of(e.drop_last(), b));
        }
    } else {
        assert(u.drop_last() =~= e.drop_last());
        assert(u.last() == (e[i].0, state));
        assert forall|b: Seq<char>| b != key implies #[trigger] breaker_of(u, b) == breaker_of(e, b) by {
            assert(breaker_of(u, b) == breaker_of(u.drop_last(), b));
        }
    }
}

/// Law: after a success, the next request to the backend is let through.
pub proof fn lemma_success_then_allowed(s: BreakerState, now: u64)
    ensures
        allow_step(success_step(s), now).0 is None,
{
}

/// Law: once the threshold of counted failures is reached at `now`, the
/// backend is refused as open until the open time has passed.
pub proof fn lemma_threshold_opens(s: BreakerState, threshold: u32, open_ms: u64, now: u64, later: u64)
    requires
        s.failure_streak + 1 >= (if threshold == 0 {
            1
        } else {
            threshold as int
        }),
        now + (if open_ms == 0 {
            1
        } else {
            open_ms as int
        }) <= u64::MAX,
        now <= later < now + (if open_ms == 0 {
            1
        } else {
            open_ms as int
        }),
    ensures
        allow_step(failure_step(s, threshold, open_ms, now), later).0 matches Some(Refusal::Open),
{
    let f = failure_step(s, threshold, open_ms, now);
    assert(f.open_until_ms is Some);
    assert(later < f.open_until_ms->0);
}

/// Law: after the open time, one probe is let through and a second
/// request is refused until the probe's outcome is recorded.
pub proof fn lemma_single_probe(s: BreakerState, now: u64)
    requires
        s.open_until_ms matches Some(until) && until <= now,
        !s.probe_in_flight,
    ensures
        allow_step(s, now).0 is None,
        allow_step(allow_step(s, now).1, now).0 matches Some(Refusal::ProbeInFlight),
{
}

/// One call on a backend's breaker: a check at a time, a success, or a
/// failure that counts toward the breaker at a time.
pub enum BreakerEvent {
    Allow(u64),
    Success,
    Failure(u64),
}

/// The breaker after the calls `evs`, in order, starting from `s`.
pub open spec fn breaker_run(s: BreakerState, evs: Seq<BreakerEvent>, threshold: u32, open_ms: u64) -> BreakerState
    decreases evs.len(),
{
    if evs.len() == 0 {
        s
    } else {
        let before = breaker_run(s, evs.drop_last(), threshold, open_ms);
        match evs.last() {
            BreakerEvent::Allow(now) => allow_step(before, now).1,
            BreakerEvent::Success => success_step(before),
            BreakerEvent::Failure(now) => failure_step(before, threshold, open_ms, now),
        }
    }
}

/// The number of counted failures among `evs`.
pub open spec fn failure_count(evs: Seq<BreakerEvent>) -> nat
    decreases evs.len(),
{
    if evs.len() == 0 {
        0
    } else {
        failure_count(evs.drop_last()) + if evs.last() is Failure {
            1nat
        } else {
            0nat
        }
    }
}

/// No success is among `evs`.
pub open spec fn no_success(evs: Seq<BreakerEvent>) -> bool {
    forall|i: int| 0 <= i < evs.len() ==> !(#[trigger] evs[i] is Success)
}

/// The threshold the breaker opens at: at least one failure.
pub open spec fn effective_threshold(threshold: u32) -> u32 {
    if threshold == 0 {
        1
    } else {
        threshold
    }
}

/// How long the breaker stays open: at least one millisecond.
pub open spec fn effective_open_ms(open_ms: u64) -> u64 {
    if open_ms == 0 {
        1
    } else {
        open_ms
    }
}

proof fn lemma_no_success_prefix(evs: Seq<BreakerEvent>)
    requires
        evs.len() > 0,
        no_success(evs),
    ensures
        no_success(evs.drop_last()),
{
    assert forall|i: int| 0 <= i < evs.drop_last().len() implies !(#[trigger] evs.drop_last()[i] is Success) by {
        assert(evs.drop_last()[i] == evs[i]);
    }
}

proof fn lemma_run_streak(s: BreakerState, evs: Seq<BreakerEvent>, threshold: u32, open_ms: u64)
    requires
        no_success(evs),
    ensures
        breaker_run(s, evs, threshold, open_ms).failure_streak == u32::MAX || breaker_run(
            s,
            evs,
            threshold,
            open_ms,
        ).failure_streak >= failure_count(evs),
    decreases evs.len(),
{
    if evs.len() > 0 {
        lemma_no_success_prefix(evs);
        lemma_run_streak(s, evs.drop_last(), threshold, open_ms);
        assert(!(evs[evs.len() - 1] is Success));
    }
}

/// Law (`ReliabilityLayer::ensure_backend_allowed`, `record_failure`,
/// `record_success`, whose contracts move a backend's breaker by
/// `allow_step`, `failure_step` and `success_step`, so that `breaker_run`
/// is the breaker after those calls, and a refusal by `allow_step` is a
/// `CircuitOpen` error that is not retryable and names the backend):
/// after at least the threshold's number of counted failures with no
/// success among them (checks may come between), the last failure at `t`,
/// the breaker refuses every check as open until `t` plus the open time,
/// and such a refusal leaves it as it was; from then on it lets exactly one
/// probe through and refuses every later check until a success or a failure
/// is recorded; and a success closes it again.
pub proof fn lemma_breaker_opens_probes_once_and_closes(
    s: BreakerState,
    evs: Seq<BreakerEvent>,
    threshold: u32,
    open_ms: u64,
    t: u64,
)
    requires
        no_success(evs),
        failure_count(evs) >= effective_threshold(threshold),
        evs.len() > 0,
        evs.last() == BreakerEvent::Failure(t),
        t + effective_open_ms(open_ms) <= u64::MAX,
    ensures
        ({
            let st = breaker_run(s, evs, threshold, open_ms);
            let until = (t + effective_open_ms(open_ms)) as u64;
            &&& st.open_until_ms == Some(until)
            &&& !st.probe_in_flight
            &&& forall|now: u64| now < until ==> #[trigger] allow_step(st, now) == (Some(Refusal::Open), st)
            &&& forall|now: u64|
                until <= now ==> (#[trigger] allow_step(st, now)).0 is None && forall|later: u64|
                    (#[trigger] allow_step(allow_step(st, now).1, later)).0 is Some && allow_step(
                        allow_step(st, now).1,
                        later,
                    ).1 == allow_step(st, now).1
            &&& forall|now: u64| (#[trigger] allow_step(success_step(st), now)).0 is None
        }),
{
    lemma_no_success_prefix(evs);
    lemma_run_streak(s, evs.drop_last(), threshold, open_ms);
    let before = breaker_run(s, evs.drop_last(), threshold, open_ms);
    assert(failure_count(evs) == failure_count(evs.drop_last()) + 1);
    let st = breaker_run(s, evs, threshold, open_ms);
    assert(st == failure_step(before, threshold, open_ms, t));
    assert(st.failure_streak >= effective_threshold(threshold));
}

/// Law: from a closed breaker, fewer counted failures than the threshold
/// with no success among them leave every check let through.
pub proof fn lemma_breaker_stays_closed_below_threshold(
    evs: Seq<BreakerEvent>,
    threshold: u32,
    open_ms: u64,
    now: u64,
)
    requires
        no_success(evs),
        failure_count(evs) < effective_threshold(threshold),
    ensures
        allow_step(breaker_run(closed_breaker(), evs, threshold, open_ms), now).0 is None,
{
    lemma_closed_run(evs, threshold, open_ms);
}

proof fn lemma_closed_run(evs: Seq<BreakerEvent>, threshold: u32, open_ms: u64)
    requires
        no_success(evs),
        failure_count(evs) < effective_threshold(threshold),
    ensures
        breaker_run(closed_breaker(), evs, threshold, open_ms).open_until_ms is None,
        breaker_run(closed_breaker(), evs, threshold, open_ms).failure_streak == failure_count(evs),
    decreases evs.len(),
{
    if evs.len() > 0 {
        lemma_no_success_prefix(evs);
        lemma_closed_run(evs.drop_last(), threshold, open_ms);
        assert(!(evs[evs.len() - 1] is Success));
    }
}

/// Law: a failure counts toward the breaker exactly when its kind is one
/// a caller may retry by default: transient backend failures, timeouts and
/// rate limits. So a backend that keeps timing out trips its breaker like
/// one that keeps failing, and a refused or malformed request never does.
pub proof fn lemma_breaker_counts_retryable_kinds(kind: GatewayErrorKind)
    ensures
        counts_spec(kind) == retryable_by_default(kind),
        counts_spec(GatewayErrorKind::Timeout),
        counts_spec(GatewayErrorKind::BackendTransient),
        counts_spec(GatewayErrorKind::RateLimited),
        kind != GatewayErrorKind::Timeout && kind != GatewayErrorKind::BackendTransient && kind
            != GatewayErrorKind::RateLimited ==> !counts_spec(kind),
{
}

} // verus!
