//! The budget of backend requests: the output-token ceiling, the effective
//! timeout, the concurrency per backend, and the count of responses whose
//! usage went over the ceiling.
use vstd::prelude::*;

use crate::canonical::{CanonicalRequest, ChatEvent};
use crate::error::{GatewayError, GatewayErrorKind};
use crate::text::{decimal, decimal_seq, str_eq};
use crate::types::BudgetConfig;

verus! {

/// The count of `backend` among `entries`, 0 where there is none.
pub open spec fn count_of(entries: Seq<(String, u64)>, backend: Seq<char>) -> u64
    decreases entries.len(),
{
    if entries.len() == 0 {
        0
    } else if entries.last().0@ == backend {
        entries.last().1
    } else {
        count_of(entries.drop_last(), backend)
    }
}

pub open spec fn over_budget_message(limit: u64, max: u64) -> Seq<char> {
    "requested max_output_tokens "@ + decimal_seq(limit as nat) + " exceeds configured budget "@
        + decimal_seq(max as nat)
}

/// Whether `event` reports usage above the per-request ceiling.
pub open spec fn is_overage(config: BudgetConfig, event: ChatEvent) -> bool {
    event matches ChatEvent::Usage { usage, .. } && (config.max_usage_tokens_per_request matches Some(
        max,
    ) && (usage.total_tokens matches Some(total) && total > max))
}

/// Enforces the budget of backend requests.
#[derive(Debug)]
pub struct BudgetEnforcer {
    config: BudgetConfig,
    post_usage_overages: Vec<(String, u64)>,
}

impl BudgetEnforcer {
    pub closed spec fn config_spec(&self) -> BudgetConfig {
        self.config
    }

    /// How many responses of `backend` went over the usage ceiling.
    pub closed spec fn overages_spec(&self, backend: Seq<char>) -> u64 {
        count_of(self.post_usage_overages@, backend)
    }

    pub fn new(config: BudgetConfig) -> (r: BudgetEnforcer)
        ensures
            r.config_spec() == config,
            forall|b: Seq<char>| #[trigger] r.overages_spec(b) == 0,
    {
        BudgetEnforcer { config, post_usage_overages: Vec::new() }
    }

    /// Refuses a request whose output-token limit is above the configured
    /// per-request ceiling.
    pub fn pre_dispatch_check(&self, request: &CanonicalRequest, backend_id: &str) -> (r: Result<
        (),
        GatewayError,
    >)
        ensures
            match (request.limits.max_output_tokens, self.config_spec().max_usage_tokens_per_request) {
                (Some(limit), Some(max)) => if limit > max {
                    r matches Err(e) && e.kind == GatewayErrorKind::BudgetExceeded && e.message@
                        == over_budget_message(limit, max) && !e.retryable
                        && (e.backend_id matches Some(b) && b@ == backend_id@)
                        && e.provider_code is None && e.provider_http_status is None
                } else {
                    r is Ok
                },
                _ => r is Ok,
            },
    {
        match request.limits.max_output_tokens {
            Some(limit) => match self.config.max_usage_tokens_per_request {
                Some(max) => {
                    if limit > max {
                        let mut m = String::from_str("requested max_output_tokens ");
                        m.append(decimal(limit).as_str());
                        m.append(" exceeds configured budget ");
                        m.append(decimal(max).as_str());
                        return Err(
                            GatewayError::new(GatewayErrorKind::BudgetExceeded, m.as_str()).with_retryable(
                                false,
                            ).with_backend_id(backend_id),
                        );
                    }
                },
                None => {},
            },
            None => {},
        }
        Ok(())
    }

    /// The timeout of a request: the requested one capped by the
    /// configured maximum, or the maximum, and at least 1 ms.
    pub fn effective_timeout_ms(&self, request: &CanonicalRequest) -> (r: u64)
        ensures
            ({
                let max = self.config_spec().max_request_time_ms;
                let t = match request.limits.max_request_time_ms {
                    Some(req) => if req < max {
                        req
                    } else {
                        max
                    },
                    None => max,
                };
                r == if t == 0 {
                    1
                } else {
                    t
                }
            }),
    {
        let max = self.config.max_request_time_ms;
        let t = match request.limits.max_request_time_ms {
            Some(requested) => if requested < max {
                requested
            } else {
                max
            },
            None => max,
        };
        if t == 0 {
            1
        } else {
            t
        }
    }

    /// The number of requests a backend may serve at once, at least one.
    pub fn concurrency_permits(&self) -> (r: u32)
        ensures
            r == if self.config_spec().max_concurrency_per_backend == 0 {
                1
            } else {
                self.config_spec().max_concurrency_per_backend
            },
    {
        if self.config.max_concurrency_per_backend == 0 {
            1
        } else {
            self.config.max_concurrency_per_backend
        }
    }

    /// How many responses of `backend_id` went over the usage ceiling.
    pub fn overages(&self, backend_id: &str) -> (r: u64)
        ensures
            r == self.overages_spec(backend_id@),
    {
        let mut i: usize = self.post_usage_overages.len();
        assert(self.post_usage_overages@.take(i as int) =~= self.post_usage_overages@);
        while i > 0
            invariant
                i <= self.post_usage_overages@.len(),
                count_of(self.post_usage_overages@, backend_id@) == count_of(
                    self.post_usage_overages@.take(i as int),
                    backend_id@,
                ),
            decreases i,
        {
            assert(self.post_usage_overages@.take(i as int).drop_last()
                =~= self.post_usage_overages@.take(i - 1));
            assert(self.post_usage_overages@.take(i as int).last() == self.post_usage_overages@[i
                - 1]);
            if str_eq(self.post_usage_overages[i - 1].0.as_str(), backend_id) {
                return self.post_usage_overages[i - 1].1;
            }
            i = i - 1;
        }
        0
    }

    /// Counts a usage report above the ceiling against `backend_id`.
    pub fn observe_event(&mut self, backend_id: &str, event: &ChatEvent)
        requires
            old(self).overages_spec(backend_id@) < u64::MAX,
        ensures
            final(self).config_spec() == old(self).config_spec(),
            final(self).overages_spec(backend_id@) == old(self).overages_spec(backend_id@) + if is_overage(
                old(self).config_spec(),
                *event,
            ) {
                1int
            } else {
                0int
            },
            forall|b: Seq<char>| b != backend_id@ ==> #[trigger] final(self).overages_spec(b) == old(
                self,
            ).overages_spec(b),
    {
        let over = match event {
            ChatEvent::Usage { usage, .. } => match self.config.max_usage_tokens_per_request {
                Some(max) => match usage.total_tokens {
                    Some(total) => total > max,
                    None => false,
                },
                None => false,
            },
            _ => false,
        };
        if !over {
            return;
        }
        let count = self.overages(backend_id);
        let ghost e = self.post_usage_overages@;
        let mut i: usize = self.post_usage_overages.len();
        while i > 0
            invariant
                i <= e.len(),
                e == self.post_usage_overages@,
                e == old(self).post_usage_overages@,
                self.config == old(self).config,
                count == count_of(e, backend_id@),
                count < u64::MAX,
                is_overage(self.config, *event),
                forall|j: int| i <= j < e.len() ==> (#[trigger] e[j]).0@ != backend_id@,
            decreases i,
        {
            if str_eq(self.post_usage_overages[i - 1].0.as_str(), backend_id) {
                let key = self.post_usage_overages[i - 1].0.clone();
                self.post_usage_overages.set(i - 1, (key, count + 1));
                proof {
                    lemma_count_update(e, i - 1, (count + 1) as u64, backend_id@);
                }
                return;
            }
            i = i - 1;
        }
        proof {
            lemma_count_absent(e, backend_id@);
        }
        self.post_usage_overages.push((String::from_str(backend_id), count + 1));
        proof {
            assert(self.post_usage_overages@.drop_last() =~= e);
        }
    }
}

proof fn lemma_count_absent(e: Seq<(String, u64)>, key: Seq<char>)
    requires
        forall|j: int| 0 <= j < e.len() ==> (#[trigger] e[j]).0@ != key,
    ensures
        count_of(e, key) == 0,
    decreases e.len(),
{
    if e.len() > 0 {
        assert forall|j: int| 0 <= j < e.drop_last().len() implies (#[trigger] e.drop_last()[j]).0@
            != key by {
            assert(e.drop_last()[j] == e[j]);
        }
        lemma_count_absent(e.drop_last(), key);
    }
}

proof fn lemma_count_update(e: Seq<(String, u64)>, i: int, v: u64, key: Seq<char>)
    requires
        0 <= i < e.len(),
        e[i].0@ == key,
        forall|j: int| i < j < e.len() ==> (#[trigger] e[j]).0@ != key,
    ensures
        count_of(e, key) == e[i].1,
        count_of(e.update(i, (e[i].0, v)), key) == v,
        forall|b: Seq<char>| b != key ==> #[trigger] count_of(e.update(i, (e[i].0, v)), b) == count_of(e, b),
    decreases e.len(),
{
    let u = e.update(i, (e[i].0, v));
    if i < e.len() - 1 {
        assert(u.drop_last() =~= e.drop_last().update(i, (e[i].0, v)));
        assert(u.last() == e.last());
        assert(e[e.len() - 1].0@ != key);
        assert(e.drop_last()[i] == e[i]);
        assert forall|j: int| i < j < e.drop_last().len() implies (#[trigger] e.drop_last()[j]).0@
            != key by {
            assert(e.drop_last()[j] == e[j]);
        }
        lemma_count_update(e.drop_last(), i, v, key);
        assert forall|b: Seq<char>| b != key implies #[trigger] count_of(u, b) == count_of(e, b) by {
            assert(count_of(u.drop_last(), b) == count_of(e.drop_last(), b));
        }
    } else {
        assert(u.drop_last() =~= e.drop_last());
        assert(u.last() == (e[i].0, v));
        assert forall|b: Seq<char>| b != key implies #[trigger] count_of(u, b) == count_of(e, b) by {
            assert(count_of(u, b) == count_of(u.drop_last(), b));
        }
    }
}

} // verus!
