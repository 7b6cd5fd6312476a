//! A batch of intent attempts: they are taken in the order of their attempt
//! ids, each is decided against the survival still available, and the
//! report of the batch keeps each outcome with the survival it reserved and
//! the total of those reservations, refusing a total that does not fit.
//!
//! The ledger that holds the survival stays with the caller: the batch
//! takes the survival available when it starts, lowers it by each
//! reservation it makes, and hands back the reservations, in order, for the
//! caller to apply.
use vstd::prelude::*;

use crate::admission::{
    arithmetic_error, canonical_action_text, derive_action_id, estimate_in_range,
    is_arithmetic_error, reserve_spec, sha256_hex_of, AdmissionDecision, AdmissionResolver,
    ContinuityError, RequestedResources,
};
use crate::affordance::{AffordanceProfile, CostVector};
use crate::text::{lemma_seq_lt_transitive, lemma_seq_lt_trichotomy, seq_lt, str_lt};

verus! {

broadcast use vstd::seq_lib::group_to_multiset_ensures;

/// One attempt of a batch: its id, the affordance it asks for, the size of
/// its serialized payload and the resources it asks for.
#[derive(Debug)]
pub struct BatchAttempt {
    pub attempt_id: String,
    pub endpoint_id: String,
    pub capability_id: String,
    pub payload_len: usize,
    pub requested: RequestedResources,
}

/// `a` comes no later than `b` in the order of texts.
pub open spec fn seq_le(a: Seq<char>, b: Seq<char>) -> bool {
    seq_lt(a, b) || a == b
}

/// The attempts rise by id.
pub open spec fn sorted_by_id(s: Seq<BatchAttempt>) -> bool {
    forall|i: int, j: int|
        0 <= i < j < s.len() ==> seq_le((#[trigger] s[i]).attempt_id@, (#[trigger] s[j]).attempt_id@)
}

proof fn lemma_seq_le_transitive(a: Seq<char>, b: Seq<char>, c: Seq<char>)
    requires
        seq_le(a, b),
        seq_le(b, c),
    ensures
        seq_le(a, c),
{
    if seq_lt(a, b) && seq_lt(b, c) {
        lemma_seq_lt_transitive(a, b, c);
    }
}

/// The same attempts, in the order of their ids.
pub fn sort_attempts_by_id(attempts: Vec<BatchAttempt>) -> (r: Vec<BatchAttempt>)
    ensures
        sorted_by_id(r@),
        r@.to_multiset() == attempts@.to_multiset(),
{
    let ghost input = attempts@;
    let mut rest = attempts;
    let mut out: Vec<BatchAttempt> = Vec::new();
    let total = rest.len();
    let mut k: usize = 0;
    while rest.len() > 0
        invariant
            k + rest@.len() == input.len(),
            input.len() == total,
            rest@ == input.skip(k as int),
            sorted_by_id(out@),
            out@.to_multiset() == input.take(k as int).to_multiset(),
        decreases rest@.len(),
    {
        let x = rest.remove(0);
        assert(x == input[k as int]);
        assert(rest@ =~= input.skip(k + 1));
        assert(input.take(k + 1) =~= input.take(k as int).push(x));
        let mut p: usize = out.len();
        while p > 0 && str_lt(x.attempt_id.as_str(), out[p - 1].attempt_id.as_str())
            invariant
                p <= out@.len(),
                forall|q: int| p <= q < out@.len() ==> seq_lt(x.attempt_id@, (#[trigger] out@[q]).attempt_id@),
            decreases p,
        {
            p = p - 1;
        }
        let ghost old_out = out@;
        proof {
            if p > 0 {
                lemma_seq_lt_trichotomy(x.attempt_id@, old_out[p - 1].attempt_id@);
            }
        }
        out.insert(p, x);
        proof {
            let qs = out@;
            assert forall|a: int, b: int| 0 <= a < b < qs.len() implies seq_le(
                (#[trigger] qs[a]).attempt_id@,
                (#[trigger] qs[b]).attempt_id@,
            ) by {
                if b < p {
                    assert(qs[a] == old_out[a] && qs[b] == old_out[b]);
                } else if b == p {
                    assert(qs[a] == old_out[a]);
                    if a < p - 1 {
                        assert(seq_le(old_out[a].attempt_id@, old_out[p - 1].attempt_id@));
                        lemma_seq_le_transitive(
                            old_out[a].attempt_id@,
                            old_out[p - 1].attempt_id@,
                            x.attempt_id@,
                        );
                    }
                } else if a == p {
                    assert(qs[b] == old_out[b - 1]);
                } else if a < p {
                    assert(qs[a] == old_out[a] && qs[b] == old_out[b - 1]);
                } else {
                    assert(qs[a] == old_out[a - 1] && qs[b] == old_out[b - 1]);
                }
            }
        }
        k = k + 1;
    }
    assert(input.take(k as int) =~= input);
    out
}

/// The outcome of one attempt: its decision and the survival reserved
/// for it, where it was admitted.
#[derive(Debug)]
pub struct AdmissionReportItem {
    pub attempt_id: String,
    pub decision: AdmissionDecision,
    pub reserved_survival_micro: Option<i64>,
}

/// The report of a batch: the outcome of each attempt, in order, and the
/// total survival reserved.
#[derive(Debug)]
pub struct AdmissionReport {
    pub cycle_id: u64,
    pub outcomes: Vec<AdmissionReportItem>,
    pub total_reserved_survival_micro: i64,
}

/// The survival reserved by `items`, summed.
pub open spec fn reserved_sum(items: Seq<AdmissionReportItem>) -> int
    decreases items.len(),
{
    if items.len() == 0 {
        0
    } else {
        reserved_sum(items.drop_last()) + match items.last().reserved_survival_micro {
            Some(x) => x as int,
            None => 0,
        }
    }
}

impl AdmissionReport {
    /// The total is the sum of the outcomes' reservations.
    pub open spec fn wf(&self) -> bool {
        self.total_reserved_survival_micro == reserved_sum(self.outcomes@)
    }

    /// The report of cycle `cycle_id` before any attempt.
    pub fn new(cycle_id: u64) -> (r: AdmissionReport)
        ensures
            r.wf(),
            r.cycle_id == cycle_id,
            r.outcomes@.len() == 0,
            r.total_reserved_survival_micro == 0,
    {
        AdmissionReport { cycle_id, outcomes: Vec::new(), total_reserved_survival_micro: 0 }
    }

    /// Adds the outcome `item`; its reservation is added to the total,
    /// which is refused where it does not fit.
    pub fn record(&mut self, item: AdmissionReportItem) -> (r: Result<(), ContinuityError>)
        requires
            old(self).wf(),
        ensures
            final(self).wf(),
            final(self).cycle_id == old(self).cycle_id,
            match item.reserved_survival_micro {
                Some(x) if old(self).total_reserved_survival_micro + x < i64::MIN
                    || old(self).total_reserved_survival_micro + x > i64::MAX => {
                    &&& r matches Err(e) && is_arithmetic_error(e, "report reserved_survival overflow"@)
                    &&& final(self).outcomes@ == old(self).outcomes@
                    &&& final(self).total_reserved_survival_micro == old(self).total_reserved_survival_micro
                },
                _ => {
                    &&& r is Ok
                    &&& final(self).outcomes@ == old(self).outcomes@.push(item)
                },
            },
    {
        match item.reserved_survival_micro {
            Some(x) => {
                match self.total_reserved_survival_micro.checked_add(x) {
                    Some(t) => {
                        self.total_reserved_survival_micro = t;
                    },
                    None => {
                        return Err(arithmetic_error("report reserved_survival overflow"));
                    },
                }
            },
            None => {},
        }
        let ghost before = self.outcomes@;
        self.outcomes.push(item);
        assert(self.outcomes@.drop_last() =~= before);
        Ok(())
    }
}

/// An attempt the batch admitted, to be carried out.
#[derive(Debug)]
pub struct AdmittedAction {
    pub source_attempt_id: String,
    pub endpoint_id: String,
    pub capability_id: String,
    /// The estimated runtime resources, with the reserved survival.
    pub reserved_cost: CostVector,
    pub degraded: bool,
    pub degradation_index: Option<usize>,
    pub admission_cycle: u64,
}

/// The admitted actions of one cycle.
#[derive(Debug)]
pub struct AdmittedActionBatch {
    pub cycle_id: u64,
    pub actions: Vec<AdmittedAction>,
}

/// A reservation the caller applies to its ledger for an admitted attempt.
#[derive(Debug)]
pub struct Reservation {
    pub attempt_id: String,
    pub survival_micro: i64,
}

impl AdmittedActionBatch {
    /// The action ids of the batch, once the caller's ledger gave the entry
    /// id of each reservation, in order: each derived from the cycle, the
    /// action's attempt and its reservation's entry.
    pub fn action_ids(&self, reserve_entry_ids: &Vec<String>) -> (r: Vec<String>)
        requires
            reserve_entry_ids@.len() == self.actions@.len(),
        ensures
            r@.len() == self.actions@.len(),
            forall|k: int|
                0 <= k < r@.len() ==> (#[trigger] r@[k])@ == "act:"@ + sha256_hex_of(
                    canonical_action_text(
                        self.cycle_id,
                        self.actions@[k].source_attempt_id@,
                        reserve_entry_ids@[k]@,
                    ),
                ).subrange(0, 24),
    {
        let mut out: Vec<String> = Vec::new();
        let mut k: usize = 0;
        while k < self.actions.len()
            invariant
                k <= self.actions@.len(),
                reserve_entry_ids@.len() == self.actions@.len(),
                out@.len() == k,
                forall|j: int|
                    0 <= j < k ==> (#[trigger] out@[j])@ == "act:"@ + sha256_hex_of(
                        canonical_action_text(
                            self.cycle_id,
                            self.actions@[j].source_attempt_id@,
                            reserve_entry_ids@[j]@,
                        ),
                    ).subrange(0, 24),
            decreases self.actions@.len() - k,
        {
            let id = derive_action_id(
                self.cycle_id,
                self.actions[k].source_attempt_id.as_str(),
                reserve_entry_ids[k].as_str(),
            );
            out.push(id);
            k = k + 1;
        }
        out
    }
}

/// The survival left when `amount` is taken from `available`, held within
/// the range of `i64`.
pub open spec fn after_reserve(available: i64, amount: i64) -> i64 {
    if available - amount < i64::MIN {
        i64::MIN
    } else if available - amount > i64::MAX {
        i64::MAX
    } else {
        (available - amount) as i64
    }
}

/// The survival available after the reservations of `outcomes`, starting
/// from `available`.
pub open spec fn available_after(available: i64, outcomes: Seq<AdmissionReportItem>) -> i64
    decreases outcomes.len(),
{
    if outcomes.len() == 0 {
        available
    } else {
        let before = available_after(available, outcomes.drop_last());
        match outcomes.last().reserved_survival_micro {
            Some(x) => after_reserve(before, x),
            None => before,
        }
    }
}

/// The number of outcomes that reserved survival, that is, were admitted.
pub open spec fn admitted_count(outcomes: Seq<AdmissionReportItem>) -> nat
    decreases outcomes.len(),
{
    if outcomes.len() == 0 {
        0
    } else {
        admitted_count(outcomes.drop_last()) + if outcomes.last().reserved_survival_micro is Some {
            1nat
        } else {
            0nat
        }
    }
}

/// Each partial total of the reservations of `outcomes` fits an `i64`.
pub open spec fn totals_fit(outcomes: Seq<AdmissionReportItem>) -> bool {
    forall|k: int|
        0 <= k <= outcomes.len() ==> i64::MIN <= #[trigger] reserved_sum(outcomes.take(k)) <= i64::MAX
}

/// `s` holds the attempts in the order of their ids.
pub open spec fn ordering_of(attempts: Seq<BatchAttempt>, s: Seq<BatchAttempt>) -> bool {
    &&& sorted_by_id(s)
    &&& s.to_multiset() == attempts.to_multiset()
}

/// The survival to reserve for an admitted cost: the reserve of its
/// survival, taken as 0 where it is negative.
pub open spec fn reserve_for(resolver: AdmissionResolver, cost: CostVector) -> Result<i64, Seq<char>> {
    reserve_spec(resolver.cost_policy, if cost.survival_micro > 0 { cost.survival_micro } else { 0 })
}

impl AdmissionResolver {
    /// The cost of the attempt's affordance can be estimated without
    /// overflow.
    pub open spec fn attempt_in_range(&self, a: BatchAttempt) -> bool {
        forall|p: AffordanceProfile|
            self.registry.get_spec((a.endpoint_id@, a.capability_id@)) == Some(p) ==> estimate_in_range(
                self.cost_policy,
                p.base_cost,
                a.requested,
            )
    }

    /// `o` is the outcome of attempt `a` with `available` survival: the
    /// admission decision, and a reservation exactly when admitted.
    pub open spec fn outcome_ok(&self, a: BatchAttempt, available: i64, o: AdmissionReportItem) -> bool {
        &&& o.attempt_id == a.attempt_id
        &&& self.decision_ok(a.endpoint_id@, a.capability_id@, a.payload_len, a.requested, available, Ok(o.decision))
        &&& match o.decision {
            AdmissionDecision::Admitted { cost, .. } => reserve_for(*self, cost) matches Ok(x)
                && o.reserved_survival_micro == Some(x),
            _ => o.reserved_survival_micro is None,
        }
    }

    /// The first `outcomes.len()` attempts of `s` were decided in turn,
    /// each against the survival left by the ones before it, and no partial
    /// total overflowed.
    pub open spec fn prefix_ok(&self, s: Seq<BatchAttempt>, available: i64, outcomes: Seq<AdmissionReportItem>) -> bool {
        &&& outcomes.len() <= s.len()
        &&& forall|i: int|
            0 <= i < outcomes.len() ==> self.outcome_ok(
                s[i],
                available_after(available, outcomes.take(i)),
                #[trigger] outcomes[i],
            )
        &&& totals_fit(outcomes)
    }

    /// The action and reservation of admitted outcome `o` of attempt `a`.
    pub open spec fn action_ok(
        &self,
        cycle_id: u64,
        a: BatchAttempt,
        o: AdmissionReportItem,
        act: AdmittedAction,
        res: Reservation,
    ) -> bool {
        &&& o.decision matches AdmissionDecision::Admitted { degraded, degradation_index, cost }
            && act.degraded == degraded && act.degradation_index == degradation_index
            && o.reserved_survival_micro == Some(act.reserved_cost.survival_micro)
            && act.reserved_cost.time_ms == cost.time_ms && act.reserved_cost.io_units == cost.io_units
            && act.reserved_cost.token_units == cost.token_units
        &&& act.source_attempt_id == a.attempt_id
        &&& act.endpoint_id == a.endpoint_id
        &&& act.capability_id == a.capability_id
        &&& act.admission_cycle == cycle_id
        &&& res.attempt_id == a.attempt_id
        &&& res.survival_micro == act.reserved_cost.survival_micro
    }

    /// The actions and reservations of the outcomes so far: one for each
    /// admitted outcome, in the order of the outcomes.
    pub open spec fn actions_ok(
        &self,
        cycle_id: u64,
        s: Seq<BatchAttempt>,
        outcomes: Seq<AdmissionReportItem>,
        actions: Seq<AdmittedAction>,
        reservations: Seq<Reservation>,
    ) -> bool {
        &&& actions.len() == admitted_count(outcomes)
        &&& reservations.len() == actions.len()
        &&& forall|i: int|
            0 <= i < outcomes.len() && (#[trigger] outcomes[i]).reserved_survival_micro is Some ==> {
                let k = admitted_count(outcomes.take(i)) as int;
                self.action_ok(cycle_id, s[i], outcomes[i], actions[k], reservations[k])
            }
    }

    /// A whole batch: every attempt decided in id order, with its actions
    /// and reservations.
    pub open spec fn batch_done(
        &self,
        cycle_id: u64,
        attempts: Seq<BatchAttempt>,
        available: i64,
        s: Seq<BatchAttempt>,
        outcomes: Seq<AdmissionReportItem>,
        actions: Seq<AdmittedAction>,
        reservations: Seq<Reservation>,
    ) -> bool {
        &&& ordering_of(attempts, s)
        &&& outcomes.len() == s.len()
        &&& self.prefix_ok(s, available, outcomes)
        &&& self.actions_ok(cycle_id, s, outcomes, actions, reservations)
    }

    /// Attempt `a`, with `available` survival and `total` reserved before
    /// it, ends the batch with `e`: its decision fails, or its reserve does,
    /// or the total with its reserve does not fit.
    pub open spec fn step_fails(&self, a: BatchAttempt, available: i64, total: int, e: ContinuityError) -> bool {
        ||| self.decision_ok(a.endpoint_id@, a.capability_id@, a.payload_len, a.requested, available, Err(e))
        ||| exists|d: AdmissionDecision|
            #![trigger self.decision_ok(a.endpoint_id@, a.capability_id@, a.payload_len, a.requested, available, Ok(d))]
            self.decision_ok(a.endpoint_id@, a.capability_id@, a.payload_len, a.requested, available, Ok(d))
                && (d matches AdmissionDecision::Admitted { cost, .. } && match reserve_for(*self, cost) {
                Err(m) => is_arithmetic_error(e, m),
                Ok(x) => (total + x < i64::MIN || total + x > i64::MAX) && is_arithmetic_error(
                    e,
                    "report reserved_survival overflow"@,
                ),
            })
    }

    /// The batch stopped at the attempt after `outcomes`.
    pub open spec fn batch_failed(
        &self,
        attempts: Seq<BatchAttempt>,
        available: i64,
        s: Seq<BatchAttempt>,
        outcomes: Seq<AdmissionReportItem>,
        e: ContinuityError,
    ) -> bool {
        &&& ordering_of(attempts, s)
        &&& outcomes.len() < s.len()
        &&& self.prefix_ok(s, available, outcomes)
        &&& self.step_fails(
            s[outcomes.len() as int],
            available_after(available, outcomes),
            reserved_sum(outcomes),
            e,
        )
    }

    /// Admits the attempts of cycle `cycle_id` while `available_survival_micro`
    /// survival is available: the attempts are taken in the order of their
    /// ids, each is decided against the survival the reservations before it
    /// left, and an admitted one reserves the reserve of its survival cost.
    /// The report holds one outcome per attempt and the total reserved; the
    /// batch holds one action, and the list one reservation, per admitted
    /// attempt, in the same order. An arithmetic failure ends the batch.
    pub fn admit_attempts(&self, cycle_id: u64, attempts: Vec<BatchAttempt>, available_survival_micro: i64) -> (r: Result<
        (AdmissionReport, AdmittedActionBatch, Vec<Reservation>),
        ContinuityError,
    >)
        requires
            forall|i: int| 0 <= i < attempts@.len() ==> self.attempt_in_range(#[trigger] attempts@[i]),
        ensures
            r matches Ok(v) ==> {
                &&& v.0.outcomes@.len() == attempts@.len()
                &&& v.0.cycle_id == cycle_id
                &&& v.1.cycle_id == cycle_id
                &&& v.0.wf()
                &&& exists|s: Seq<BatchAttempt>|
                    #[trigger] self.batch_done(
                        cycle_id,
                        attempts@,
                        available_survival_micro,
                        s,
                        v.0.outcomes@,
                        v.1.actions@,
                        v.2@,
                    )
            },
            r matches Err(e) ==> exists|s: Seq<BatchAttempt>, outcomes: Seq<AdmissionReportItem>|
                #[trigger] self.batch_failed(attempts@, available_survival_micro, s, outcomes, e),
    {
        let ghost input = attempts@;
        let sorted = sort_attempts_by_id(attempts);
        let ghost s = sorted@;
        let mut rest = sorted;
        let mut report = AdmissionReport::new(cycle_id);
        let mut actions: Vec<AdmittedAction> = Vec::new();
        let mut reservations: Vec<Reservation> = Vec::new();
        let mut available = available_survival_micro;
        let total = rest.len();
        let mut k: usize = 0;
        proof {
            assert(report.outcomes@.take(0) =~= report.outcomes@);
            assert(reserved_sum(report.outcomes@.take(0)) == 0);
        }
        while rest.len() > 0
            invariant
                k + rest@.len() == s.len(),
                s.len() == total,
                rest@ == s.skip(k as int),
                ordering_of(input, s),
                input == attempts@,
                forall|i: int| 0 <= i < input.len() ==> self.attempt_in_range(#[trigger] input[i]),
                report.wf(),
                report.cycle_id == cycle_id,
                report.outcomes@.len() == k,
                self.prefix_ok(s, available_survival_micro, report.outcomes@),
                available == available_after(available_survival_micro, report.outcomes@),
                self.actions_ok(cycle_id, s, report.outcomes@, actions@, reservations@),
            decreases rest@.len(),
        {
            let a = rest.remove(0);
            let ghost outs = report.outcomes@;
            proof {
                assert(a == s[k as int]);
                assert(rest@ =~= s.skip(k + 1));
                assert(s.contains(a));
                assert(input.to_multiset().count(a) > 0);
                assert(input.contains(a));
                let j = choose|j: int| 0 <= j < input.len() && input[j] == a;
                assert(self.attempt_in_range(input[j]));
            }
            let decided = self.decide_admission(
                a.endpoint_id.as_str(),
                a.capability_id.as_str(),
                a.payload_len,
                &a.requested,
                available,
            );
            let decision = match decided {
                Err(e) => {
                    proof {
                        assert(self.batch_failed(input, available_survival_micro, s, outs, e));
                    }
                    return Err(e);
                },
                Ok(d) => d,
            };
            let admitted_cost: Option<CostVector> = match &decision {
                AdmissionDecision::Admitted { cost, .. } => Some(*cost),
                _ => None,
            };
            match admitted_cost {
                None => {
                    let item = AdmissionReportItem {
                        attempt_id: a.attempt_id.clone(),
                        decision,
                        reserved_survival_micro: None,
                    };
                    let ghost o = item;
                    let _ = report.record(item);
                    proof {
                        assert(report.outcomes@ == outs.push(o));
                        assert(self.outcome_ok(s[k as int], available_after(available_survival_micro, outs), o));
                        assert(outs.push(o).drop_last() =~= outs);
                        lemma_prefix_push(self, s, available_survival_micro, outs, o);
                        lemma_actions_push_denied(self, cycle_id, s, outs, o, actions@, reservations@);
                    }
                },
                Some(cost) => {
                    let required = if cost.survival_micro > 0 {
                        cost.survival_micro
                    } else {
                        0
                    };
                    let reserve = match self.cost_policy.reserve_amount_micro(required) {
                        Err(e) => {
                            proof {
                                assert(self.decision_ok(
                                    a.endpoint_id@,
                                    a.capability_id@,
                                    a.payload_len,
                                    a.requested,
                                    available,
                                    Ok(decision),
                                ));
                                assert(self.step_fails(a, available, reserved_sum(outs), e));
                                assert(self.batch_failed(input, available_survival_micro, s, outs, e));
                            }
                            return Err(e);
                        },
                        Ok(x) => x,
                    };
                    let degraded = match &decision {
                        AdmissionDecision::Admitted { degraded, .. } => *degraded,
                        _ => false,
                    };
                    let degradation_index = match &decision {
                        AdmissionDecision::Admitted { degradation_index, .. } => *degradation_index,
                        _ => None,
                    };
                    let ghost d = decision;
                    let item = AdmissionReportItem {
                        attempt_id: a.attempt_id.clone(),
                        decision,
                        reserved_survival_micro: Some(reserve),
                    };
                    let ghost o = item;
                    match report.record(item) {
                        Err(e) => {
                            proof {
                                assert(self.decision_ok(
                                    a.endpoint_id@,
                                    a.capability_id@,
                                    a.payload_len,
                                    a.requested,
                                    available,
                                    Ok(d),
                                ));
                                assert(self.step_fails(a, available, reserved_sum(outs), e));
                                assert(self.batch_failed(input, available_survival_micro, s, outs, e));
                            }
                            return Err(e);
                        },
                        Ok(()) => {},
                    }
                    let act = AdmittedAction {
                        source_attempt_id: a.attempt_id.clone(),
                        endpoint_id: a.endpoint_id.clone(),
                        capability_id: a.capability_id.clone(),
                        reserved_cost: CostVector {
                            survival_micro: reserve,
                            time_ms: cost.time_ms,
                            io_units: cost.io_units,
                            token_units: cost.token_units,
                        },
                        degraded,
                        degradation_index,
                        admission_cycle: cycle_id,
                    };
                    let res = Reservation { attempt_id: a.attempt_id.clone(), survival_micro: reserve };
                    let ghost acts0 = actions@;
                    let ghost res0 = reservations@;
                    actions.push(act);
                    reservations.push(res);
                    let left: i128 = (available as i128) - (reserve as i128);
                    available = if left < (i64::MIN as i128) {
                        i64::MIN
                    } else if left > (i64::MAX as i128) {
                        i64::MAX
                    } else {
                        left as i64
                    };
                    proof {
                        assert(report.outcomes@ == outs.push(o));
                        assert(self.outcome_ok(s[k as int], available_after(available_survival_micro, outs), o));
                        assert(outs.push(o).drop_last() =~= outs);
                        lemma_prefix_push(self, s, available_survival_micro, outs, o);
                        lemma_actions_push_admitted(self, cycle_id, s, outs, o, acts0, res0, act, res);
                    }
                },
            }
            k = k + 1;
        }
        let batch = AdmittedActionBatch { cycle_id, actions };
        let out = (report, batch, reservations);
        proof {
            assert(s.len() == s.to_multiset().len());
            assert(input.len() == input.to_multiset().len());
            assert(self.batch_done(
                cycle_id,
                attempts@,
                available_survival_micro,
                s,
                out.0.outcomes@,
                out.1.actions@,
                out.2@,
            ));
        }
        Ok(out)
    }
}

proof fn lemma_count_before_admitted(outs: Seq<AdmissionReportItem>, i: int)
    requires
        0 <= i < outs.len(),
        outs[i].reserved_survival_micro is Some,
    ensures
        admitted_count(outs.take(i)) < admitted_count(outs),
    decreases outs.len(),
{
    if i == outs.len() - 1 {
        assert(outs.take(i) =~= outs.drop_last());
    } else {
        assert(outs.drop_last()[i] == outs[i]);
        assert(outs.drop_last().take(i) =~= outs.take(i));
        lemma_count_before_admitted(outs.drop_last(), i);
    }
}

/// The prefix facts carry over when outcome `o` is appended.
proof fn lemma_prefix_push(
    resolver: &AdmissionResolver,
    s: Seq<BatchAttempt>,
    available: i64,
    outs: Seq<AdmissionReportItem>,
    o: AdmissionReportItem,
)
    requires
        resolver.prefix_ok(s, available, outs),
        outs.len() < s.len(),
        resolver.outcome_ok(s[outs.len() as int], available_after(available, outs), o),
        i64::MIN <= reserved_sum(outs.push(o)) <= i64::MAX,
    ensures
        resolver.prefix_ok(s, available, outs.push(o)),
        available_after(available, outs.push(o)) == match o.reserved_survival_micro {
            Some(x) => after_reserve(available_after(available, outs), x),
            None => available_after(available, outs),
        },
        admitted_count(outs.push(o)) == admitted_count(outs) + if o.reserved_survival_micro is Some {
            1nat
        } else {
            0nat
        },
{
    let n = outs.len() as int;
    let t = outs.push(o);
    assert(t.drop_last() =~= outs);
    assert forall|i: int| 0 <= i < t.len() implies resolver.outcome_ok(
        s[i],
        available_after(available, t.take(i)),
        #[trigger] t[i],
    ) by {
        if i < n {
            assert(t.take(i) =~= outs.take(i));
            assert(t[i] == outs[i]);
        } else {
            assert(t.take(i) =~= outs);
        }
    }
    assert forall|k: int| 0 <= k <= t.len() implies i64::MIN <= #[trigger] reserved_sum(t.take(k))
        <= i64::MAX by {
        if k <= n {
            assert(t.take(k) =~= outs.take(k));
        } else {
            assert(t.take(k) =~= t);
        }
    }
}

/// The actions and reservations carry over when an outcome that was not
/// admitted is appended.
proof fn lemma_actions_push_denied(
    resolver: &AdmissionResolver,
    cycle_id: u64,
    s: Seq<BatchAttempt>,
    outs: Seq<AdmissionReportItem>,
    o: AdmissionReportItem,
    acts: Seq<AdmittedAction>,
    ress: Seq<Reservation>,
)
    requires
        resolver.actions_ok(cycle_id, s, outs, acts, ress),
        o.reserved_survival_micro is None,
        admitted_count(outs.push(o)) == admitted_count(outs),
    ensures
        resolver.actions_ok(cycle_id, s, outs.push(o), acts, ress),
{
    let t = outs.push(o);
    assert forall|i: int|
        0 <= i < t.len() && (#[trigger] t[i]).reserved_survival_micro is Some implies {
        let k = admitted_count(t.take(i)) as int;
        resolver.action_ok(cycle_id, s[i], t[i], acts[k], ress[k])
    } by {
        assert(i < outs.len());
        assert(t.take(i) =~= outs.take(i));
        assert(t[i] == outs[i]);
    }
}

/// The actions and reservations grow by one when an admitted outcome is
/// appended.
proof fn lemma_actions_push_admitted(
    resolver: &AdmissionResolver,
    cycle_id: u64,
    s: Seq<BatchAttempt>,
    outs: Seq<AdmissionReportItem>,
    o: AdmissionReportItem,
    acts: Seq<AdmittedAction>,
    ress: Seq<Reservation>,
    act: AdmittedAction,
    res: Reservation,
)
    requires
        resolver.actions_ok(cycle_id, s, outs, acts, ress),
        outs.len() < s.len(),
        o.reserved_survival_micro is Some,
        admitted_count(outs.push(o)) == admitted_count(outs) + 1,
        resolver.action_ok(cycle_id, s[outs.len() as int], o, act, res),
    ensures
        resolver.actions_ok(cycle_id, s, outs.push(o), acts.push(act), ress.push(res)),
{
    let t = outs.push(o);
    let n = outs.len() as int;
    assert forall|i: int|
        0 <= i < t.len() && (#[trigger] t[i]).reserved_survival_micro is Some implies {
        let k = admitted_count(t.take(i)) as int;
        resolver.action_ok(cycle_id, s[i], t[i], acts.push(act)[k], ress.push(res)[k])
    } by {
        if i < n {
            assert(t.take(i) =~= outs.take(i));
            assert(t[i] == outs[i]);
            lemma_count_before_admitted(outs, i);
        } else {
            assert(t.take(i) =~= outs);
        }
    }
}

} // verus!
