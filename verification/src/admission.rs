//! Admission of intent attempts: cost estimates, affordability, the choice
//! of a degraded variant, the economic denial codes and action ids.
use vstd::prelude::*;

use sha2::{Digest, Sha256};

use crate::affordance::{AffordanceProfile, AffordanceRegistry, CostVector, DegradationProfile};
use crate::json::{json_quote, json_quoted};
use crate::text::{
    decimal, decimal_seq, take_chars, lemma_seq_lt_transitive, lemma_seq_lt_trichotomy, seq_lt, str_eq, str_lt,
};

verus! {

/// Which degraded variant is tried first.
#[derive(Debug, Clone, Copy, PartialEq, Eq, Structural)]
pub enum DegradationPreference {
    LeastCapabilityLossFirst,
    CheapestFirst,
}

#[derive(Debug, Clone, Copy, PartialEq, Eq, Structural)]
pub struct AdmissionResolverConfig {
    pub reservation_ttl_cycles: u64,
    pub max_degradation_variants: usize,
    pub max_degradation_depth: u8,
    pub degradation_preference: DegradationPreference,
}

impl Default for AdmissionResolverConfig {
    fn default() -> (c: AdmissionResolverConfig)
        ensures
            c == (AdmissionResolverConfig {
                reservation_ttl_cycles: 8,
                max_degradation_variants: 8,
                max_degradation_depth: 2,
                degradation_preference: DegradationPreference::LeastCapabilityLossFirst,
            }),
    {
        AdmissionResolverConfig {
            reservation_ttl_cycles: 8,
            max_degradation_variants: 8,
            max_degradation_depth: 2,
            degradation_preference: DegradationPreference::LeastCapabilityLossFirst,
        }
    }
}

/// The runtime limits of one action and the rates at which its runtime
/// resources convert to survival micro-units.
#[derive(Debug, Clone, Copy, PartialEq, Eq, Structural)]
pub struct CostAdmissionPolicy {
    pub max_time_ms_per_action: u64,
    pub max_io_units_per_action: u64,
    pub max_token_units_per_action: u64,
    pub reserve_ratio_milli: u16,
    pub time_to_survival_micro: u64,
    pub io_to_survival_micro: u64,
    pub token_to_survival_micro: u64,
}

impl Default for CostAdmissionPolicy {
    fn default() -> (p: CostAdmissionPolicy)
        ensures
            p == (CostAdmissionPolicy {
                max_time_ms_per_action: 5_000,
                max_io_units_per_action: 64,
                max_token_units_per_action: 16_384,
                reserve_ratio_milli: 1_000,
                time_to_survival_micro: 1,
                io_to_survival_micro: 40,
                token_to_survival_micro: 1,
            }),
    {
        CostAdmissionPolicy {
            max_time_ms_per_action: 5_000,
            max_io_units_per_action: 64,
            max_token_units_per_action: 16_384,
            reserve_ratio_milli: 1_000,
            time_to_survival_micro: 1,
            io_to_survival_micro: 40,
            token_to_survival_micro: 1,
        }
    }
}

/// The resources an attempt asks for.
#[derive(Debug, Clone, Copy, PartialEq, Eq, Structural)]
pub struct RequestedResources {
    pub survival_micro: i64,
    pub time_ms: u64,
    pub io_units: u64,
    pub token_units: u64,
}

/// What an estimated cost needs against what is available and allowed.
#[derive(Debug, Clone, Copy, PartialEq, Eq, Structural)]
pub struct AffordabilitySnapshot {
    pub available_survival_micro: i64,
    pub required_survival_micro: i64,
    pub required_time_ms: u64,
    pub required_io_units: u64,
    pub required_token_units: u64,
    pub max_time_ms: u64,
    pub max_io_units: u64,
    pub max_token_units: u64,
}

impl AffordabilitySnapshot {
    pub open spec fn within_limits_spec(&self) -> bool {
        &&& self.required_time_ms <= self.max_time_ms
        &&& self.required_io_units <= self.max_io_units
        &&& self.required_token_units <= self.max_token_units
    }

    pub open spec fn affordable_spec(&self) -> bool {
        self.required_survival_micro <= self.available_survival_micro
    }

    /// Each runtime resource stays within its limit.
    pub fn within_runtime_limits(&self) -> (r: bool)
        ensures
            r == self.within_limits_spec(),
    {
        self.required_time_ms <= self.max_time_ms && self.required_io_units <= self.max_io_units
            && self.required_token_units <= self.max_token_units
    }

    /// The survival budget covers the cost.
    pub fn survival_affordable(&self) -> (r: bool)
        ensures
            r == self.affordable_spec(),
    {
        self.required_survival_micro <= self.available_survival_micro
    }
}

#[derive(Debug, Clone, Copy, PartialEq, Eq, Structural)]
pub enum ContinuityErrorKind {
    Arithmetic,
    InvalidRequest,
}

/// An error of the admission arithmetic or of a request.
#[derive(Debug)]
pub struct ContinuityError {
    pub kind: ContinuityErrorKind,
    pub message: String,
}

pub open spec fn is_arithmetic_error(e: ContinuityError, message: Seq<char>) -> bool {
    e.kind == ContinuityErrorKind::Arithmetic && e.message@ == message
}

pub fn arithmetic_error(message: &str) -> (e: ContinuityError)
    ensures
        is_arithmetic_error(e, message@),
{
    ContinuityError { kind: ContinuityErrorKind::Arithmetic, message: String::from_str(message) }
}

/// `x / d` rounded toward zero, as integer division in Rust does.
pub open spec fn div_trunc(x: int, d: int) -> int {
    if x >= 0 {
        x / d
    } else {
        -((-x) / d)
    }
}

pub open spec fn max_u64(a: u64, b: u64) -> u64 {
    if a >= b {
        a
    } else {
        b
    }
}

pub open spec fn nonneg(x: i64) -> int {
    if x >= 0 {
        x as int
    } else {
        0
    }
}

/// The reserve for a required survival amount: scaled by the reserve
/// ratio in thousandths, rounded toward zero, and refused where it does not
/// fit in 64 bits.
pub open spec fn reserve_spec(policy: CostAdmissionPolicy, required: i64) -> Result<i64, Seq<char>> {
    let amount = div_trunc(required * policy.reserve_ratio_milli, 1000);
    if i64::MIN <= amount <= i64::MAX {
        Ok(amount as i64)
    } else {
        Err("reserve amount conversion overflow"@)
    }
}

/// The estimated cost of a profile for a request, scaled by `multiplier`
/// thousandths: each runtime resource is the larger of the two; survival is
/// the non-negative parts of both plus the converted runtime resources.
pub open spec fn estimate_spec(
    policy: CostAdmissionPolicy,
    base: CostVector,
    req: RequestedResources,
    multiplier: int,
) -> Result<CostVector, Seq<char>> {
    let time = max_u64(base.time_ms, req.time_ms);
    let io = max_u64(base.io_units, req.io_units);
    let token = max_u64(base.token_units, req.token_units);
    let survival = nonneg(base.survival_micro) + nonneg(req.survival_micro);
    let conv1 = time * policy.time_to_survival_micro;
    let conv2 = conv1 + io * policy.io_to_survival_micro;
    let conv3 = conv2 + token * policy.token_to_survival_micro;
    let unscaled = survival + conv3;
    let product = unscaled * multiplier;
    if survival > i64::MAX {
        Err("survival estimate overflow"@)
    } else if conv1 > i128::MAX || conv2 > i128::MAX || conv3 > i128::MAX {
        Err("survival conversion overflow"@)
    } else if unscaled > i128::MAX {
        Err("survival estimate overflow"@)
    } else if product > i128::MAX {
        Err("scaled survival estimate overflow"@)
    } else if product / 1000 > i64::MAX {
        Err("survival estimate conversion overflow"@)
    } else {
        Ok(
            CostVector {
                survival_micro: (product / 1000) as i64,
                time_ms: time,
                io_units: io,
                token_units: token,
            },
        )
    }
}

/// The estimate does not overflow 128 bits in the products that are not
/// checked.
pub open spec fn estimate_in_range(policy: CostAdmissionPolicy, base: CostVector, req: RequestedResources) -> bool {
    &&& max_u64(base.io_units, req.io_units) * policy.io_to_survival_micro <= i128::MAX
    &&& max_u64(base.token_units, req.token_units) * policy.token_to_survival_micro <= i128::MAX
}

/// The snapshot of an estimated cost against the available survival.
pub open spec fn snapshot_spec(policy: CostAdmissionPolicy, available: i64, c: CostVector) -> AffordabilitySnapshot {
    AffordabilitySnapshot {
        available_survival_micro: available,
        required_survival_micro: c.survival_micro,
        required_time_ms: c.time_ms,
        required_io_units: c.io_units,
        required_token_units: c.token_units,
        max_time_ms: policy.max_time_ms_per_action,
        max_io_units: policy.max_io_units_per_action,
        max_token_units: policy.max_token_units_per_action,
    }
}

impl CostAdmissionPolicy {
    /// The survival amount to reserve for `required_survival_micro`.
    pub fn reserve_amount_micro(&self, required_survival_micro: i64) -> (r: Result<i64, ContinuityError>)
        ensures
            match reserve_spec(*self, required_survival_micro) {
                Ok(v) => r == Ok::<i64, ContinuityError>(v),
                Err(m) => r matches Err(e) && is_arithmetic_error(e, m),
            },
    {
        proof {
            let x = required_survival_micro as int;
            let y = self.reserve_ratio_milli as int;
            assert(-0x8000_0000_0000_0000 * 65535 <= x * y <= 0x7fff_ffff_ffff_ffff * 65535)
                by (nonlinear_arith)
                requires
                    -0x8000_0000_0000_0000 <= x <= 0x7fff_ffff_ffff_ffff,
                    0 <= y <= 65535,
            ;
        }
        let scaled: i128 = match (required_survival_micro as i128).checked_mul(
            self.reserve_ratio_milli as i128,
        ) {
            Some(v) => v,
            None => {
                return Err(arithmetic_error("reserve amount overflow"));
            },
        };
        let amount: i128 = if scaled >= 0 {
            scaled / 1000
        } else {
            -((-scaled) / 1000)
        };
        if amount < (i64::MIN as i128) || amount > (i64::MAX as i128) {
            return Err(arithmetic_error("reserve amount conversion overflow"));
        }
        Ok(amount as i64)
    }

    /// The cost of `profile` for `requested`, under `degradation` if one is
    /// given.
    pub fn estimate_cost(
        &self,
        profile: &AffordanceProfile,
        requested: &RequestedResources,
        degradation: Option<&DegradationProfile>,
    ) -> (r: Result<CostVector, ContinuityError>)
        requires
            estimate_in_range(*self, profile.base_cost, *requested),
        ensures
            match estimate_spec(
                *self,
                profile.base_cost,
                *requested,
                match degradation {
                    Some(d) => d.cost_multiplier_milli as int,
                    None => 1000,
                },
            ) {
                Ok(c) => r == Ok::<CostVector, ContinuityError>(c),
                Err(m) => r matches Err(e) && is_arithmetic_error(e, m),
            },
    {
        let multiplier: i128 = match degradation {
            Some(candidate) => candidate.cost_multiplier_milli as i128,
            None => 1000,
        };
        let base = profile.base_cost;
        let required_time_ms = if base.time_ms >= requested.time_ms {
            base.time_ms
        } else {
            requested.time_ms
        };
        let required_io_units = if base.io_units >= requested.io_units {
            base.io_units
        } else {
            requested.io_units
        };
        let required_token_units = if base.token_units >= requested.token_units {
            base.token_units
        } else {
            requested.token_units
        };
        let base_survival = if base.survival_micro >= 0 {
            base.survival_micro
        } else {
            0
        };
        let requested_survival = if requested.survival_micro >= 0 {
            requested.survival_micro
        } else {
            0
        };
        let base_survival_micro: i64 = match base_survival.checked_add(requested_survival) {
            Some(v) => v,
            None => {
                return Err(arithmetic_error("survival estimate overflow"));
            },
        };
        let io_part: i128 = (required_io_units as i128) * (self.io_to_survival_micro as i128);
        let token_part: i128 = (required_token_units as i128) * (
        self.token_to_survival_micro as i128);
        let conversion: i128 = match (required_time_ms as i128).checked_mul(
            self.time_to_survival_micro as i128,
        ) {
            Some(v) => match v.checked_add(io_part) {
                Some(w) => match w.checked_add(token_part) {
                    Some(x) => x,
                    None => {
                        return Err(arithmetic_error("survival conversion overflow"));
                    },
                },
                None => {
                    return Err(arithmetic_error("survival conversion overflow"));
                },
            },
            None => {
                return Err(arithmetic_error("survival conversion overflow"));
            },
        };
        let unscaled: i128 = match (base_survival_micro as i128).checked_add(conversion) {
            Some(v) => v,
            None => {
                return Err(arithmetic_error("survival estimate overflow"));
            },
        };
        let product: i128 = match unscaled.checked_mul(multiplier) {
            Some(v) => v,
            None => {
                return Err(arithmetic_error("scaled survival estimate overflow"));
            },
        };
        let scaled: i128 = product / 1000;
        if scaled > (i64::MAX as i128) {
            return Err(arithmetic_error("survival estimate conversion overflow"));
        }
        Ok(
            CostVector {
                survival_micro: scaled as i64,
                time_ms: required_time_ms,
                io_units: required_io_units,
                token_units: required_token_units,
            },
        )
    }

    /// The snapshot of `estimated` against `available_survival_micro` and
    /// this policy's limits.
    pub fn affordability_snapshot(&self, available_survival_micro: i64, estimated: &CostVector) -> (r:
        AffordabilitySnapshot)
        ensures
            r == snapshot_spec(*self, available_survival_micro, *estimated),
    {
        AffordabilitySnapshot {
            available_survival_micro,
            required_survival_micro: estimated.survival_micro,
            required_time_ms: estimated.time_ms,
            required_io_units: estimated.io_units,
            required_token_units: estimated.token_units,
            max_time_ms: self.max_time_ms_per_action,
            max_io_units: self.max_io_units_per_action,
            max_token_units: self.max_token_units_per_action,
        }
    }
}

/// The code of an economic denial: the first runtime limit exceeded, else
/// the survival budget.
pub open spec fn economic_code_spec(s: AffordabilitySnapshot) -> Seq<char> {
    if s.required_time_ms > s.max_time_ms {
        "time_budget_exceeded"@
    } else if s.required_io_units > s.max_io_units {
        "io_budget_exceeded"@
    } else if s.required_token_units > s.max_token_units {
        "token_budget_exceeded"@
    } else {
        "insufficient_survival_budget"@
    }
}

/// A snapshot within the runtime limits whose survival cost is covered.
pub open spec fn affordable(policy: CostAdmissionPolicy, available: i64, c: CostVector) -> bool {
    snapshot_spec(policy, available, c).within_limits_spec() && snapshot_spec(
        policy,
        available,
        c,
    ).affordable_spec()
}

/// Whether candidate `a` is tried before candidate `b`: by capability loss,
/// survival cost and profile id, or by survival cost, capability loss and
/// profile id; the earlier position breaks ties.
pub open spec fn cand_before(
    pref: DegradationPreference,
    dps: Seq<DegradationProfile>,
    a: (int, CostVector),
    b: (int, CostVector),
) -> bool {
    let la = dps[a.0].capability_loss_score;
    let lb = dps[b.0].capability_loss_score;
    let sa = a.1.survival_micro;
    let sb = b.1.survival_micro;
    let ida = dps[a.0].profile_id@;
    let idb = dps[b.0].profile_id@;
    let rest = seq_lt(ida, idb) || (ida == idb && a.0 < b.0);
    match pref {
        DegradationPreference::LeastCapabilityLossFirst => la < lb || (la == lb && (sa < sb || (sa
            == sb && rest))),
        DegradationPreference::CheapestFirst => sa < sb || (sa == sb && (la < lb || (la == lb
            && rest))),
    }
}

/// The degraded variants among the first `n` that are no deeper than
/// `max_depth`, each with its estimated cost, in order.
pub open spec fn degradation_candidates(
    policy: CostAdmissionPolicy,
    profile: AffordanceProfile,
    req: RequestedResources,
    max_depth: u8,
    n: int,
) -> Seq<(int, CostVector)>
    decreases n,
{
    if n <= 0 {
        Seq::empty()
    } else {
        let prev = degradation_candidates(policy, profile, req, max_depth, n - 1);
        let d = profile.degradation_profiles@[n - 1];
        if d.depth <= max_depth {
            match estimate_spec(policy, profile.base_cost, req, d.cost_multiplier_milli as int) {
                Ok(c) => prev.push((n - 1, c)),
                Err(_) => prev,
            }
        } else {
            prev
        }
    }
}

/// The error of the first eligible variant among the first `n` whose cost
/// cannot be estimated.
pub open spec fn first_candidate_error(
    policy: CostAdmissionPolicy,
    profile: AffordanceProfile,
    req: RequestedResources,
    max_depth: u8,
    n: int,
) -> Option<Seq<char>>
    decreases n,
{
    if n <= 0 {
        None
    } else {
        match first_candidate_error(policy, profile, req, max_depth, n - 1) {
            Some(m) => Some(m),
            None => {
                let d = profile.degradation_profiles@[n - 1];
                if d.depth <= max_depth {
                    match estimate_spec(
                        policy,
                        profile.base_cost,
                        req,
                        d.cost_multiplier_milli as int,
                    ) {
                        Ok(_) => None,
                        Err(m) => Some(m),
                    }
                } else {
                    None
                }
            },
        }
    }
}

/// How many of the first `m` candidates are tried before candidate `j`.
pub open spec fn cand_rank(
    pref: DegradationPreference,
    dps: Seq<DegradationProfile>,
    cands: Seq<(int, CostVector)>,
    j: int,
    m: int,
) -> nat
    decreases m,
{
    if m <= 0 {
        0
    } else {
        cand_rank(pref, dps, cands, j, m - 1) + if cand_before(pref, dps, cands[m - 1], cands[j]) {
            1nat
        } else {
            0nat
        }
    }
}

/// Candidate `j` is affordable and among the first `k` in the order.
pub open spec fn selectable(
    policy: CostAdmissionPolicy,
    pref: DegradationPreference,
    dps: Seq<DegradationProfile>,
    cands: Seq<(int, CostVector)>,
    available: i64,
    k: usize,
    j: int,
) -> bool {
    &&& affordable(policy, available, cands[j].1)
    &&& cand_rank(pref, dps, cands, j, cands.len() as int) < k
}

/// The degraded choice: the affordable candidate that comes first in the
/// order among the first `k`, or none.
pub open spec fn degraded_choice(
    policy: CostAdmissionPolicy,
    pref: DegradationPreference,
    dps: Seq<DegradationProfile>,
    cands: Seq<(int, CostVector)>,
    available: i64,
    k: usize,
    r: Option<(usize, CostVector)>,
) -> bool {
    match r {
        Some((i, c)) => exists|j: int|
            0 <= j < cands.len() && #[trigger] cands[j] == (i as int, c) && selectable(
                policy,
                pref,
                dps,
                cands,
                available,
                k,
                j,
            ) && forall|j2: int|
                0 <= j2 < cands.len() && selectable(policy, pref, dps, cands, available, k, j2)
                    ==> cand_rank(pref, dps, cands, j, cands.len() as int) <= cand_rank(
                    pref,
                    dps,
                    cands,
                    j2,
                    cands.len() as int,
                ),
        None => forall|j: int|
            0 <= j < cands.len() ==> !selectable(policy, pref, dps, cands, available, k, j),
    }
}

/// Decides admission of attempts against the registered affordances.
#[derive(Debug)]
pub struct AdmissionResolver {
    pub registry: AffordanceRegistry,
    pub cost_policy: CostAdmissionPolicy,
    pub config: AdmissionResolverConfig,
}

impl AdmissionResolver {
    pub fn new(
        registry: AffordanceRegistry,
        cost_policy: CostAdmissionPolicy,
        config: AdmissionResolverConfig,
    ) -> (r: AdmissionResolver)
        ensures
            r.registry == registry,
            r.cost_policy == cost_policy,
            r.config == config,
    {
        AdmissionResolver { registry, cost_policy, config }
    }

    fn cand_before_exec(&self, profile: &AffordanceProfile, a: (usize, CostVector), b: (
        usize,
        CostVector,
    )) -> (r: bool)
        requires
            a.0 < profile.degradation_profiles@.len(),
            b.0 < profile.degradation_profiles@.len(),
        ensures
            r == cand_before(
                self.config.degradation_preference,
                profile.degradation_profiles@,
                (a.0 as int, a.1),
                (b.0 as int, b.1),
            ),
    {
        let da = &profile.degradation_profiles[a.0];
        let db = &profile.degradation_profiles[b.0];
        let la = da.capability_loss_score;
        let lb = db.capability_loss_score;
        let sa = a.1.survival_micro;
        let sb = b.1.survival_micro;
        let rest = str_lt(da.profile_id.as_str(), db.profile_id.as_str()) || (str_eq(
            da.profile_id.as_str(),
            db.profile_id.as_str(),
        ) && a.0 < b.0);
        match self.config.degradation_preference {
            DegradationPreference::LeastCapabilityLossFirst => la < lb || (la == lb && (sa < sb || (
            sa == sb && rest))),
            DegradationPreference::CheapestFirst => sa < sb || (sa == sb && (la < lb || (la == lb
                && rest))),
        }
    }

    /// The degraded variant to admit instead: of the variants no deeper
    /// than the configured depth, ordered by the configured preference, the
    /// first affordable one among the first `max_degradation_variants`.
    pub fn find_degraded_candidate(
        &self,
        available_survival_micro: i64,
        profile: &AffordanceProfile,
        requested: &RequestedResources,
    ) -> (r: Result<Option<(usize, CostVector)>, ContinuityError>)
        requires
            estimate_in_range(self.cost_policy, profile.base_cost, *requested),
        ensures
            match first_candidate_error(
                self.cost_policy,
                *profile,
                *requested,
                self.config.max_degradation_depth,
                profile.degradation_profiles@.len() as int,
            ) {
                Some(m) => r matches Err(e) && is_arithmetic_error(e, m),
                None => r matches Ok(choice) && degraded_choice(
                    self.cost_policy,
                    self.config.degradation_preference,
                    profile.degradation_profiles@,
                    degradation_candidates(
                        self.cost_policy,
                        *profile,
                        *requested,
                        self.config.max_degradation_depth,
                        profile.degradation_profiles@.len() as int,
                    ),
                    available_survival_micro,
                    self.config.max_degradation_variants,
                    choice,
                ),
            },
    {
        let ghost dps = profile.degradation_profiles@;
        let ghost pol = self.cost_policy;
        let ghost pref = self.config.degradation_preference;
        let ghost depth = self.config.max_degradation_depth;
        let n = profile.degradation_profiles.len();
        let mut cands: Vec<(usize, CostVector)> = Vec::new();
        let mut i: usize = 0;
        while i < n
            invariant
                n == dps.len(),
                dps == profile.degradation_profiles@,
                pol == self.cost_policy,
                depth == self.config.max_degradation_depth,
                estimate_in_range(self.cost_policy, profile.base_cost, *requested),
                i <= n,
                first_candidate_error(pol, *profile, *requested, depth, i as int) is None,
                cands@.map_values(|c: (usize, CostVector)| (c.0 as int, c.1))
                    == degradation_candidates(pol, *profile, *requested, depth, i as int),
                forall|j: int| 0 <= j < cands@.len() ==> (#[trigger] cands@[j]).0 < i,
            decreases n - i,
        {
            let candidate = &profile.degradation_profiles[i];
            if candidate.depth <= self.config.max_degradation_depth {
                match self.cost_policy.estimate_cost(profile, requested, Some(candidate)) {
                    Ok(cost) => {
                        let ghost before = cands@;
                        cands.push((i, cost));
                        assert(cands@.map_values(|c: (usize, CostVector)| (c.0 as int, c.1))
                            =~= before.map_values(|c: (usize, CostVector)| (c.0 as int, c.1)).push(
                            (i as int, cost),
                        ));
                    },
                    Err(e) => {
                        proof {
                            lemma_first_candidate_error_prefix(
                                pol,
                                *profile,
                                *requested,
                                depth,
                                i + 1,
                                n as int,
                            );
                        }
                        return Err(e);
                    },
                }
            }
            i = i + 1;
        }
        let ghost cs = cands@.map_values(|c: (usize, CostVector)| (c.0 as int, c.1));
        assert(cs == degradation_candidates(pol, *profile, *requested, depth, n as int));
        let total = cands.len();
        let mut ranks: Vec<usize> = Vec::new();
        let mut j: usize = 0;
        while j < total
            invariant
                total == cands@.len(),
                cs == cands@.map_values(|c: (usize, CostVector)| (c.0 as int, c.1)),
                dps == profile.degradation_profiles@,
                pref == self.config.degradation_preference,
                forall|x: int| 0 <= x < cands@.len() ==> (#[trigger] cands@[x]).0 < dps.len(),
                j <= total,
                ranks@.len() == j,
                forall|x: int| 0 <= x < j ==> #[trigger] ranks@[x] == cand_rank(pref, dps, cs, x, total as int),
            decreases total - j,
        {
            let mut count: usize = 0;
            let mut m: usize = 0;
            while m < total
                invariant
                    total == cands@.len(),
                    cs == cands@.map_values(|c: (usize, CostVector)| (c.0 as int, c.1)),
                    dps == profile.degradation_profiles@,
                    pref == self.config.degradation_preference,
                    forall|x: int| 0 <= x < cands@.len() ==> (#[trigger] cands@[x]).0 < dps.len(),
                    j < total,
                    m <= total,
                    count <= m,
                    count == cand_rank(pref, dps, cs, j as int, m as int),
                decreases total - m,
            {
                if self.cand_before_exec(profile, cands[m], cands[j]) {
                    count = count + 1;
                }
                m = m + 1;
            }
            ranks.push(count);
            j = j + 1;
        }
        let mut best: Option<usize> = None;
        let mut x: usize = 0;
        while x < total
            invariant
                total == cands@.len(),
                total == ranks@.len(),
                cs == cands@.map_values(|c: (usize, CostVector)| (c.0 as int, c.1)),
                dps == profile.degradation_profiles@,
                pref == self.config.degradation_preference,
                pol == self.cost_policy,
                forall|y: int| 0 <= y < total ==> #[trigger] ranks@[y] == cand_rank(pref, dps, cs, y, total as int),
                x <= total,
                match best {
                    Some(b) => b < x && selectable(
                        pol,
                        pref,
                        dps,
                        cs,
                        available_survival_micro,
                        self.config.max_degradation_variants,
                        b as int,
                    ) && forall|y: int|
                        0 <= y < x && selectable(
                            pol,
                            pref,
                            dps,
                            cs,
                            available_survival_micro,
                            self.config.max_degradation_variants,
                            y,
                        ) ==> ranks@[b as int] <= #[trigger] ranks@[y],
                    None => forall|y: int|
                        0 <= y < x ==> !selectable(
                            pol,
                            pref,
                            dps,
                            cs,
                            available_survival_micro,
                            self.config.max_degradation_variants,
                            y,
                        ),
                },
            decreases total - x,
        {
            let cost = cands[x].1;
            let snapshot = self.cost_policy.affordability_snapshot(available_survival_micro, &cost);
            if snapshot.within_runtime_limits() && snapshot.survival_affordable() && ranks[x]
                < self.config.max_degradation_variants {
                let better = match best {
                    Some(b) => ranks[x] < ranks[b],
                    None => true,
                };
                if better {
                    best = Some(x);
                }
            }
            x = x + 1;
        }
        match best {
            Some(b) => {
                let chosen = cands[b];
                proof {
                    assert(cs[b as int] == (chosen.0 as int, chosen.1));
                    assert(cs.len() == total);
                    let k = self.config.max_degradation_variants;
                    assert forall|j2: int|
                        0 <= j2 < cs.len() && selectable(
                            pol,
                            pref,
                            dps,
                            cs,
                            available_survival_micro,
                            k,
                            j2,
                        ) implies cand_rank(pref, dps, cs, b as int, cs.len() as int) <= cand_rank(
                        pref,
                        dps,
                        cs,
                        j2,
                        cs.len() as int,
                    ) by {
                        assert(ranks@[j2] == cand_rank(pref, dps, cs, j2, total as int));
                        assert(ranks@[b as int] == cand_rank(pref, dps, cs, b as int, total as int));
                    }
                    assert(degraded_choice(
                        pol,
                        pref,
                        dps,
                        cs,
                        available_survival_micro,
                        self.config.max_degradation_variants,
                        Some(chosen),
                    ));
                }
                Ok(Some(chosen))
            },
            None => {
                assert(cs.len() == total);
                Ok(None)
            },
        }
    }

    /// The code of an economic denial for `snapshot`.
    pub fn economic_denial_code(snapshot: &AffordabilitySnapshot) -> (r: String)
        ensures
            r@ == economic_code_spec(*snapshot),
    {
        if snapshot.required_time_ms > snapshot.max_time_ms {
            return String::from_str("time_budget_exceeded");
        }
        if snapshot.required_io_units > snapshot.max_io_units {
            return String::from_str("io_budget_exceeded");
        }
        if snapshot.required_token_units > snapshot.max_token_units {
            return String::from_str("token_budget_exceeded");
        }
        String::from_str("insufficient_survival_budget")
    }
}

proof fn lemma_first_candidate_error_prefix(
    policy: CostAdmissionPolicy,
    profile: AffordanceProfile,
    req: RequestedResources,
    max_depth: u8,
    k: int,
    n: int,
)
    requires
        0 <= k <= n,
        first_candidate_error(policy, profile, req, max_depth, k) is Some,
    ensures
        first_candidate_error(policy, profile, req, max_depth, n) == first_candidate_error(
            policy,
            profile,
            req,
            max_depth,
            k,
        ),
    decreases n - k,
{
    if k < n {
        lemma_first_candidate_error_prefix(policy, profile, req, max_depth, k, n - 1);
    }
}

proof fn lemma_cand_before_irreflexive(
    pref: DegradationPreference,
    dps: Seq<DegradationProfile>,
    a: (int, CostVector),
)
    ensures
        !cand_before(pref, dps, a, a),
{
    lemma_seq_lt_trichotomy(dps[a.0].profile_id@, dps[a.0].profile_id@);
}

proof fn lemma_cand_before_total(
    pref: DegradationPreference,
    dps: Seq<DegradationProfile>,
    a: (int, CostVector),
    b: (int, CostVector),
)
    requires
        a.0 != b.0,
    ensures
        cand_before(pref, dps, a, b) || cand_before(pref, dps, b, a),
{
    lemma_seq_lt_trichotomy(dps[a.0].profile_id@, dps[b.0].profile_id@);
}

proof fn lemma_cand_before_transitive(
    pref: DegradationPreference,
    dps: Seq<DegradationProfile>,
    a: (int, CostVector),
    b: (int, CostVector),
    c: (int, CostVector),
)
    requires
        cand_before(pref, dps, a, b),
        cand_before(pref, dps, b, c),
    ensures
        cand_before(pref, dps, a, c),
{
    let ia = dps[a.0].profile_id@;
    let ib = dps[b.0].profile_id@;
    let ic = dps[c.0].profile_id@;
    if seq_lt(ia, ib) && seq_lt(ib, ic) {
        lemma_seq_lt_transitive(ia, ib, ic);
    }
}

/// The candidates are listed by rising position, each below `n`.
proof fn lemma_candidates_sorted(
    policy: CostAdmissionPolicy,
    profile: AffordanceProfile,
    req: RequestedResources,
    max_depth: u8,
    n: int,
)
    requires
        0 <= n,
    ensures
        forall|j: int|
            0 <= j < degradation_candidates(policy, profile, req, max_depth, n).len() ==> 0
                <= #[trigger] degradation_candidates(policy, profile, req, max_depth, n)[j].0 < n,
        forall|j: int, k: int|
            0 <= j < k < degradation_candidates(policy, profile, req, max_depth, n).len()
                ==> #[trigger] degradation_candidates(policy, profile, req, max_depth, n)[j].0
                < #[trigger] degradation_candidates(policy, profile, req, max_depth, n)[k].0,
    decreases n,
{
    if n > 0 {
        lemma_candidates_sorted(policy, profile, req, max_depth, n - 1);
        let prev = degradation_candidates(policy, profile, req, max_depth, n - 1);
        let cur = degradation_candidates(policy, profile, req, max_depth, n);
        if cur.len() > prev.len() {
            assert forall|j: int| 0 <= j < cur.len() implies 0 <= #[trigger] cur[j].0 < n by {
                if j < prev.len() {
                    assert(cur[j] == prev[j]);
                }
            }
            assert forall|j: int, k: int| 0 <= j < k < cur.len() implies #[trigger] cur[j].0
                < #[trigger] cur[k].0 by {
                assert(cur[j] == prev[j]);
                if k < prev.len() {
                    assert(cur[k] == prev[k]);
                }
            }
        }
    }
}

/// Counting over the first `m` candidates: if `a` comes before `b`, every
/// candidate before `a` is before `b` too, and `a` itself is.
proof fn lemma_rank_step(
    pref: DegradationPreference,
    dps: Seq<DegradationProfile>,
    cands: Seq<(int, CostVector)>,
    ja: int,
    jb: int,
    m: int,
)
    requires
        0 <= ja < cands.len(),
        0 <= jb < cands.len(),
        0 <= m <= cands.len(),
        cand_before(pref, dps, cands[ja], cands[jb]),
    ensures
        cand_rank(pref, dps, cands, jb, m) >= cand_rank(pref, dps, cands, ja, m) + if ja < m {
            1int
        } else {
            0int
        },
    decreases m,
{
    if m > 0 {
        lemma_rank_step(pref, dps, cands, ja, jb, m - 1);
        let c = cands[m - 1];
        if cand_before(pref, dps, c, cands[ja]) {
            lemma_cand_before_transitive(pref, dps, c, cands[ja], cands[jb]);
        }
        if m - 1 == ja {
            lemma_cand_before_irreflexive(pref, dps, cands[ja]);
        }
    }
}

/// Law: no two degraded candidates share a rank, so at most one
/// affordable candidate has the least rank and the choice of
/// `find_degraded_candidate` is determined.
pub proof fn lemma_candidate_ranks_distinct(
    policy: CostAdmissionPolicy,
    pref: DegradationPreference,
    profile: AffordanceProfile,
    req: RequestedResources,
    max_depth: u8,
    j1: int,
    j2: int,
)
    requires
        ({
            let cands = degradation_candidates(
                policy,
                profile,
                req,
                max_depth,
                profile.degradation_profiles@.len() as int,
            );
            0 <= j1 < cands.len() && 0 <= j2 < cands.len() && j1 != j2
        }),
    ensures
        ({
            let dps = profile.degradation_profiles@;
            let cands = degradation_candidates(policy, profile, req, max_depth, dps.len() as int);
            cand_rank(pref, dps, cands, j1, cands.len() as int) != cand_rank(
                pref,
                dps,
                cands,
                j2,
                cands.len() as int,
            )
        }),
{
    let dps = profile.degradation_profiles@;
    let n = dps.len() as int;
    let cands = degradation_candidates(policy, profile, req, max_depth, n);
    lemma_candidates_sorted(policy, profile, req, max_depth, n);
    if j1 < j2 {
        assert(cands[j1].0 < cands[j2].0);
    } else {
        assert(cands[j2].0 < cands[j1].0);
    }
    lemma_cand_before_total(pref, dps, cands[j1], cands[j2]);
    if cand_before(pref, dps, cands[j1], cands[j2]) {
        lemma_rank_step(pref, dps, cands, j1, j2, cands.len() as int);
    } else {
        lemma_rank_step(pref, dps, cands, j2, j1, cands.len() as int);
    }
}

/// The lowercase hex SHA-256 digest of the UTF-8 bytes of a text.
pub uninterp spec fn sha256_hex_of(text: Seq<char>) -> Seq<char>;

/// `sha2::Sha256::digest` of the UTF-8 bytes of `text`, written with
/// `format!("{:x}", ..)`: the digest's 32 bytes as 64 lowercase hex digits.
/// The digest itself is named, not described.
#[verifier::external_body]
fn sha256_hex(text: &str) -> (r: String)
    ensures
        r@ == sha256_hex_of(text@),
        r@.len() == 64,
{
    format!("{:x}", Sha256::digest(text.as_bytes()))
}

/// The canonical JSON object of an action's identity: its keys sorted,
/// no spaces.
pub open spec fn canonical_action_text(cycle_id: u64, source_attempt_id: Seq<char>, reserve_entry_id: Seq<char>) -> Seq<char> {
    "{\"cycle_id\":"@ + decimal_seq(cycle_id as nat) + ",\"reserve_entry_id\":"@ + json_quoted(
        reserve_entry_id,
    ) + ",\"source_attempt_id\":"@ + json_quoted(source_attempt_id) + "}"@
}

/// The id of an admitted action: `act:` and the first 24 hex digits of the
/// SHA-256 digest of its canonical identity.
pub fn derive_action_id(cycle_id: u64, source_attempt_id: &str, reserve_entry_id: &str) -> (r: String)
    ensures
        r@ == "act:"@ + sha256_hex_of(
            canonical_action_text(cycle_id, source_attempt_id@, reserve_entry_id@),
        ).subrange(0, 24),
{
    let mut canonical = String::from_str("{\"cycle_id\":");
    canonical.append(decimal(cycle_id).as_str());
    canonical.append(",\"reserve_entry_id\":");
    canonical.append(json_quote(reserve_entry_id).as_str());
    canonical.append(",\"source_attempt_id\":");
    canonical.append(json_quote(source_attempt_id).as_str());
    canonical.append("}");
    let hex = sha256_hex(canonical.as_str());
    let mut id = String::from_str("act:");
    id.append(take_chars(hex.as_str(), 24).as_str());
    id
}

/// What admission decides for one attempt.
#[derive(Debug)]
pub enum AdmissionDecision {
    DeniedHard { code: String },
    Admitted { degraded: bool, degradation_index: Option<usize>, cost: CostVector },
    DeniedEconomic { code: String, available_survival_micro: i64, required_survival_micro: i64 },
}

impl AdmissionResolver {
    /// `r` is the admission of an attempt on (`endpoint_id`, `capability_id`)
    /// with a payload of `payload_len` bytes that asks for `requested`, while
    /// `available_survival_micro` is available.
    pub open spec fn decision_ok(
        &self,
        endpoint_id: Seq<char>,
        capability_id: Seq<char>,
        payload_len: usize,
        requested: RequestedResources,
        available_survival_micro: i64,
        r: Result<AdmissionDecision, ContinuityError>,
    ) -> bool {
        match self.registry.get_spec((endpoint_id, capability_id)) {
            None => r matches Ok(AdmissionDecision::DeniedHard { code }) && code@
                == "unknown_affordance"@,
            Some(p) => if payload_len > p.max_payload_bytes {
                r matches Ok(AdmissionDecision::DeniedHard { code }) && code@
                    == "payload_too_large"@
            } else {
                match estimate_spec(self.cost_policy, p.base_cost, requested, 1000) {
                    Err(m) => r matches Err(e) && is_arithmetic_error(e, m),
                    Ok(c) => if affordable(self.cost_policy, available_survival_micro, c) {
                        r matches Ok(
                            AdmissionDecision::Admitted { degraded, degradation_index, cost },
                        ) && !degraded && degradation_index is None && cost == c
                    } else {
                        let dps = p.degradation_profiles@;
                        let cands = degradation_candidates(
                            self.cost_policy,
                            p,
                            requested,
                            self.config.max_degradation_depth,
                            dps.len() as int,
                        );
                        match first_candidate_error(
                            self.cost_policy,
                            p,
                            requested,
                            self.config.max_degradation_depth,
                            dps.len() as int,
                        ) {
                            Some(m) => r matches Err(e) && is_arithmetic_error(e, m),
                            None => match r {
                                Ok(
                                    AdmissionDecision::Admitted {
                                        degraded,
                                        degradation_index: Some(i),
                                        cost,
                                    },
                                ) => degraded && degraded_choice(
                                    self.cost_policy,
                                    self.config.degradation_preference,
                                    dps,
                                    cands,
                                    available_survival_micro,
                                    self.config.max_degradation_variants,
                                    Some((i, cost)),
                                ),
                                Ok(
                                    AdmissionDecision::DeniedEconomic {
                                        code,
                                        available_survival_micro: a,
                                        required_survival_micro: q,
                                    },
                                ) => degraded_choice(
                                    self.cost_policy,
                                    self.config.degradation_preference,
                                    dps,
                                    cands,
                                    available_survival_micro,
                                    self.config.max_degradation_variants,
                                    None,
                                ) && code@ == economic_code_spec(
                                    snapshot_spec(self.cost_policy, available_survival_micro, c),
                                ) && a == available_survival_micro && q == c.survival_micro,
                                _ => false,
                            },
                        }
                    },
                }
            },
        }
    }

    /// The admission of an attempt on (`endpoint_id`, `capability_id`) with
    /// a payload of `payload_len` bytes that asks for `requested`, while
    /// `available_survival_micro` is available: refused when the affordance
    /// is unknown or the payload too large; admitted at its estimated cost
    /// when affordable; else admitted in the degraded variant that
    /// `find_degraded_candidate` chooses; else refused with the economic
    /// code of the undegraded estimate.
    pub fn decide_admission(
        &self,
        endpoint_id: &str,
        capability_id: &str,
        payload_len: usize,
        requested: &RequestedResources,
        available_survival_micro: i64,
    ) -> (r: Result<AdmissionDecision, ContinuityError>)
        requires
            forall|p: AffordanceProfile|
                self.registry.get_spec((endpoint_id@, capability_id@)) == Some(p) ==> estimate_in_range(
                    self.cost_policy,
                    p.base_cost,
                    *requested,
                ),
        ensures
            self.decision_ok(endpoint_id@, capability_id@, payload_len, *requested, available_survival_micro, r),
    {
        let profile = match self.registry.resolve(endpoint_id, capability_id) {
            None => {
                return Ok(
                    AdmissionDecision::DeniedHard { code: String::from_str("unknown_affordance") },
                );
            },
            Some(p) => p,
        };
        if payload_len > profile.max_payload_bytes {
            return Ok(AdmissionDecision::DeniedHard { code: String::from_str("payload_too_large") });
        }
        let estimated_cost = match self.cost_policy.estimate_cost(profile, requested, None) {
            Err(e) => {
                return Err(e);
            },
            Ok(c) => c,
        };
        let snapshot = self.cost_policy.affordability_snapshot(
            available_survival_micro,
            &estimated_cost,
        );
        if snapshot.within_runtime_limits() && snapshot.survival_affordable() {
            return Ok(
                AdmissionDecision::Admitted {
                    degraded: false,
                    degradation_index: None,
                    cost: estimated_cost,
                },
            );
        }
        match self.find_degraded_candidate(available_survival_micro, profile, requested) {
            Err(e) => Err(e),
            Ok(Some((index, cost))) => Ok(
                AdmissionDecision::Admitted { degraded: true, degradation_index: Some(index), cost },
            ),
            Ok(None) => Ok(
                AdmissionDecision::DeniedEconomic {
                    code: Self::economic_denial_code(&snapshot),
                    available_survival_micro: snapshot.available_survival_micro,
                    required_survival_micro: snapshot.required_survival_micro,
                },
            ),
        }
    }
}

} // verus!
