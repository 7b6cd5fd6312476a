//! Affordance profiles and their registry: a map from (endpoint id,
//! capability id) to a profile, where a later profile under the same key
//! replaces an earlier one, kept in the order of its keys.
use vstd::prelude::*;

use crate::text::{lemma_seq_lt_transitive, lemma_seq_lt_trichotomy, seq_lt, str_eq, str_lt};

verus! {

/// A cost in survival micro-units and in runtime resources.
#[derive(Debug, Clone, Copy, PartialEq, Eq, Structural)]
pub struct CostVector {
    pub survival_micro: i64,
    pub time_ms: u64,
    pub io_units: u64,
    pub token_units: u64,
}

/// A cheaper, less capable variant of an affordance.
#[derive(Debug, PartialEq, Eq)]
pub struct DegradationProfile {
    pub profile_id: String,
    pub depth: u8,
    pub capability_loss_score: u16,
    pub cost_multiplier_milli: u16,
    pub capability_id_override: Option<String>,
}

/// What an endpoint capability costs and how it may be degraded.
#[derive(Debug)]
pub struct AffordanceProfile {
    pub profile_id: String,
    pub endpoint_id: String,
    pub capability_id: String,
    pub max_payload_bytes: usize,
    pub base_cost: CostVector,
    pub degradation_profiles: Vec<DegradationProfile>,
}

impl Default for AffordanceProfile {
    fn default() -> (p: AffordanceProfile)
        ensures
            p.profile_id@ == "default-deliberation"@,
            p.endpoint_id@ == "core.mind"@,
            p.capability_id@ == "deliberate.plan"@,
            p.max_payload_bytes == 16_384,
            p.base_cost == (CostVector {
                survival_micro: 250,
                time_ms: 120,
                io_units: 1,
                token_units: 128,
            }),
            p.degradation_profiles@.len() == 2,
            p.degradation_profiles@[0].profile_id@ == "deliberate.plan-lite"@,
            p.degradation_profiles@[0].depth == 1,
            p.degradation_profiles@[0].capability_loss_score == 10,
            p.degradation_profiles@[0].cost_multiplier_milli == 700,
            p.degradation_profiles@[0].capability_id_override matches Some(c) && c@
                == "deliberate.plan.lite"@,
            p.degradation_profiles@[1].profile_id@ == "deliberate.plan-minimal"@,
            p.degradation_profiles@[1].depth == 2,
            p.degradation_profiles@[1].capability_loss_score == 40,
            p.degradation_profiles@[1].cost_multiplier_milli == 450,
            p.degradation_profiles@[1].capability_id_override matches Some(c) && c@
                == "deliberate.plan.minimal"@,
    {
        let mut degradation_profiles: Vec<DegradationProfile> = Vec::new();
        degradation_profiles.push(
            DegradationProfile {
                profile_id: String::from_str("deliberate.plan-lite"),
                depth: 1,
                capability_loss_score: 10,
                cost_multiplier_milli: 700,
                capability_id_override: Some(String::from_str("deliberate.plan.lite")),
            },
        );
        degradation_profiles.push(
            DegradationProfile {
                profile_id: String::from_str("deliberate.plan-minimal"),
                depth: 2,
                capability_loss_score: 40,
                cost_multiplier_milli: 450,
                capability_id_override: Some(String::from_str("deliberate.plan.minimal")),
            },
        );
        AffordanceProfile {
            profile_id: String::from_str("default-deliberation"),
            endpoint_id: String::from_str("core.mind"),
            capability_id: String::from_str("deliberate.plan"),
            max_payload_bytes: 16_384,
            base_cost: CostVector { survival_micro: 250, time_ms: 120, io_units: 1, token_units: 128 },
            degradation_profiles,
        }
    }
}

/// The key a profile is registered under.
pub open spec fn key_of(p: AffordanceProfile) -> (Seq<char>, Seq<char>) {
    (p.endpoint_id@, p.capability_id@)
}

/// The order of keys: by endpoint id, then by capability id.
pub open spec fn key_lt(a: (Seq<char>, Seq<char>), b: (Seq<char>, Seq<char>)) -> bool {
    seq_lt(a.0, b.0) || (a.0 == b.0 && seq_lt(a.1, b.1))
}

proof fn lemma_key_lt_trichotomy(a: (Seq<char>, Seq<char>), b: (Seq<char>, Seq<char>))
    ensures
        key_lt(a, b) || key_lt(b, a) || a == b,
        !(key_lt(a, b) && key_lt(b, a)),
        !(key_lt(a, b) && a == b),
{
    lemma_seq_lt_trichotomy(a.0, b.0);
    lemma_seq_lt_trichotomy(a.1, b.1);
}

proof fn lemma_key_lt_transitive(
    a: (Seq<char>, Seq<char>),
    b: (Seq<char>, Seq<char>),
    c: (Seq<char>, Seq<char>),
)
    requires
        key_lt(a, b),
        key_lt(b, c),
    ensures
        key_lt(a, c),
{
    if seq_lt(a.0, b.0) && seq_lt(b.0, c.0) {
        lemma_seq_lt_transitive(a.0, b.0, c.0);
    } else if seq_lt(a.1, b.1) && seq_lt(b.1, c.1) {
        lemma_seq_lt_transitive(a.1, b.1, c.1);
    }
}

/// The last profile of `ps` under `k`.
pub open spec fn last_with_key(ps: Seq<AffordanceProfile>, k: (Seq<char>, Seq<char>)) -> Option<
    AffordanceProfile,
>
    decreases ps.len(),
{
    if ps.len() == 0 {
        None
    } else if key_of(ps.last()) == k {
        Some(ps.last())
    } else {
        last_with_key(ps.drop_last(), k)
    }
}

/// The keys of `ps` rise strictly.
pub open spec fn keys_sorted(ps: Seq<AffordanceProfile>) -> bool {
    forall|i: int, j: int| 0 <= i < j < ps.len() ==> key_lt(key_of(#[trigger] ps[i]), key_of(#[trigger] ps[j]))
}

proof fn lemma_last_with_key_absent(ps: Seq<AffordanceProfile>, k: (Seq<char>, Seq<char>))
    requires
        forall|i: int| 0 <= i < ps.len() ==> key_of(#[trigger] ps[i]) != k,
    ensures
        last_with_key(ps, k) is None,
    decreases ps.len(),
{
    if ps.len() > 0 {
        lemma_last_with_key_absent(ps.drop_last(), k);
    }
}

proof fn lemma_last_with_key_unique(ps: Seq<AffordanceProfile>, i: int)
    requires
        0 <= i < ps.len(),
        forall|j: int| 0 <= j < ps.len() && j != i ==> key_of(#[trigger] ps[j]) != key_of(ps[i]),
    ensures
        last_with_key(ps, key_of(ps[i])) == Some(ps[i]),
    decreases ps.len(),
{
    if i < ps.len() - 1 {
        lemma_last_with_key_unique(ps.drop_last(), i);
    }
}

proof fn lemma_last_with_key_found(ps: Seq<AffordanceProfile>, k: (Seq<char>, Seq<char>))
    requires
        last_with_key(ps, k) is Some,
    ensures
        exists|m: int| 0 <= m < ps.len() && key_of(#[trigger] ps[m]) == k,
    decreases ps.len(),
{
    if key_of(ps.last()) == k {
        assert(key_of(ps[ps.len() - 1]) == k);
    } else {
        lemma_last_with_key_found(ps.drop_last(), k);
        let m = choose|m: int| 0 <= m < ps.len() - 1 && key_of(#[trigger] ps.drop_last()[m]) == k;
        assert(ps.drop_last()[m] == ps[m]);
    }
}

proof fn lemma_last_with_key_present(ps: Seq<AffordanceProfile>, m: int)
    requires
        0 <= m < ps.len(),
    ensures
        last_with_key(ps, key_of(ps[m])) is Some,
    decreases ps.len(),
{
    if m < ps.len() - 1 && key_of(ps.last()) != key_of(ps[m]) {
        assert(ps.drop_last()[m] == ps[m]);
        lemma_last_with_key_present(ps.drop_last(), m);
    }
}

proof fn lemma_sorted_at(ps: Seq<AffordanceProfile>, i: int)
    requires
        keys_sorted(ps),
        0 <= i < ps.len(),
    ensures
        last_with_key(ps, key_of(ps[i])) == Some(ps[i]),
{
    assert forall|j: int| 0 <= j < ps.len() && j != i implies key_of(#[trigger] ps[j]) != key_of(
        ps[i],
    ) by {
        if j < i {
            lemma_key_lt_trichotomy(key_of(ps[j]), key_of(ps[i]));
        } else {
            lemma_key_lt_trichotomy(key_of(ps[i]), key_of(ps[j]));
        }
    }
    lemma_last_with_key_unique(ps, i);
}

/// Profiles by (endpoint id, capability id), in the order of their keys.
#[derive(Debug)]
pub struct AffordanceRegistry {
    profiles: Vec<AffordanceProfile>,
}

impl AffordanceRegistry {
    pub closed spec fn profiles_spec(&self) -> Seq<AffordanceProfile> {
        self.profiles@
    }

    /// The keys rise strictly, so each is held once.
    pub open spec fn wf(&self) -> bool {
        keys_sorted(self.profiles_spec())
    }

    /// The profile registered under `k`.
    pub open spec fn get_spec(&self, k: (Seq<char>, Seq<char>)) -> Option<AffordanceProfile> {
        last_with_key(self.profiles_spec(), k)
    }

    /// A registry of `profiles`; of two profiles under one key the later
    /// one stays.
    pub fn new(profiles: Vec<AffordanceProfile>) -> (r: AffordanceRegistry)
        ensures
            r.wf(),
            forall|k: (Seq<char>, Seq<char>)| #[trigger] r.get_spec(k) == last_with_key(profiles@, k),
    {
        let ghost input = profiles@;
        let mut rest = profiles;
        let mut registry = AffordanceRegistry { profiles: Vec::new() };
        let total = rest.len();
        let mut index: usize = 0;
        while rest.len() > 0
            invariant
                index + rest@.len() == input.len(),
                input.len() == total,
                rest@ == input.skip(index as int),
                registry.wf(),
                forall|k: (Seq<char>, Seq<char>)| #[trigger] registry.get_spec(k) == last_with_key(
                    input.take(index as int),
                    k,
                ),
            decreases rest@.len(),
        {
            let profile = rest.remove(0);
            assert(profile == input[index as int]);
            assert(rest@ =~= input.skip(index + 1));
            assert(input.take(index + 1).drop_last() =~= input.take(index as int));
            registry.insert(profile);
            index = index + 1;
        }
        assert(input.take(index as int) =~= input);
        registry
    }

    /// The profile registered under (`endpoint_id`, `capability_id`).
    pub fn resolve(&self, endpoint_id: &str, capability_id: &str) -> (r: Option<&AffordanceProfile>)
        ensures
            match self.get_spec((endpoint_id@, capability_id@)) {
                Some(p) => r matches Some(x) && *x == p,
                None => r is None,
            },
    {
        let ghost k = (endpoint_id@, capability_id@);
        let mut i: usize = self.profiles.len();
        assert(self.profiles@.take(i as int) =~= self.profiles@);
        while i > 0
            invariant
                i <= self.profiles@.len(),
                k == (endpoint_id@, capability_id@),
                last_with_key(self.profiles@, k) == last_with_key(self.profiles@.take(i as int), k),
            decreases i,
        {
            let p = &self.profiles[i - 1];
            assert(self.profiles@.take(i as int).drop_last() =~= self.profiles@.take(i - 1));
            assert(self.profiles@.take(i as int).last() == *p);
            if str_eq(p.endpoint_id.as_str(), endpoint_id) && str_eq(
                p.capability_id.as_str(),
                capability_id,
            ) {
                return Some(p);
            }
            i = i - 1;
        }
        None
    }

    /// The registered keys, in their order.
    pub fn keys(&self) -> (r: Vec<(String, String)>)
        ensures
            r@.len() == self.profiles_spec().len(),
            forall|i: int|
                0 <= i < r@.len() ==> ((#[trigger] r@[i]).0@, r@[i].1@) == key_of(
                    self.profiles_spec()[i],
                ),
            self.wf() ==> forall|i: int, j: int|
                0 <= i < j < r@.len() ==> key_lt(
                    ((#[trigger] r@[i]).0@, r@[i].1@),
                    ((#[trigger] r@[j]).0@, r@[j].1@),
                ),
    {
        let mut out: Vec<(String, String)> = Vec::new();
        let mut i: usize = 0;
        while i < self.profiles.len()
            invariant
                i <= self.profiles@.len(),
                out@.len() == i,
                forall|j: int|
                    0 <= j < i ==> ((#[trigger] out@[j]).0@, out@[j].1@) == key_of(self.profiles@[j]),
            decreases self.profiles@.len() - i,
        {
            let p = &self.profiles[i];
            out.push((p.endpoint_id.clone(), p.capability_id.clone()));
            i = i + 1;
        }
        proof {
            if self.wf() {
                assert forall|i: int, j: int| 0 <= i < j < out@.len() implies key_lt(
                    ((#[trigger] out@[i]).0@, out@[i].1@),
                    ((#[trigger] out@[j]).0@, out@[j].1@),
                ) by {
                    assert(key_lt(key_of(self.profiles@[i]), key_of(self.profiles@[j])));
                }
            }
        }
        out
    }

    /// Stores `profile` under its key, replacing what was there.
    fn insert(&mut self, profile: AffordanceProfile)
        requires
            old(self).wf(),
        ensures
            final(self).wf(),
            forall|k: (Seq<char>, Seq<char>)|
                #[trigger] final(self).get_spec(k) == if k == key_of(profile) {
                    Some(profile)
                } else {
                    old(self).get_spec(k)
                },
    {
        let ghost ps = self.profiles@;
        let ghost pk = key_of(profile);
        let mut i: usize = 0;
        while i < self.profiles.len() && key_lt_exec(&self.profiles[i], &profile)
            invariant
                i <= self.profiles@.len(),
                self.profiles@ == ps,
                ps == old(self).profiles@,
                keys_sorted(ps),
                pk == key_of(profile),
                forall|j: int| 0 <= j < i ==> key_lt(key_of(#[trigger] ps[j]), pk),
            decreases self.profiles@.len() - i,
        {
            i = i + 1;
        }
        let same = i < self.profiles.len() && str_eq(
            self.profiles[i].endpoint_id.as_str(),
            profile.endpoint_id.as_str(),
        ) && str_eq(self.profiles[i].capability_id.as_str(), profile.capability_id.as_str());
        proof {
            if i < ps.len() {
                lemma_key_lt_trichotomy(key_of(ps[i as int]), pk);
            }
        }
        if same {
            self.profiles.set(i, profile);
        } else {
            self.profiles.insert(i, profile);
        }
        proof {
            let qs = self.profiles@;
            assert(qs[i as int] == profile);
            assert forall|a: int, b: int| 0 <= a < b < qs.len() implies key_lt(
                key_of(#[trigger] qs[a]),
                key_of(#[trigger] qs[b]),
            ) by {
                if same {
                    if a == i {
                        assert(qs[b] == ps[b]);
                    } else if b == i {
                        assert(qs[a] == ps[a]);
                    } else {
                        assert(qs[a] == ps[a] && qs[b] == ps[b]);
                    }
                } else {
                    if a < i && b == i {
                        assert(qs[a] == ps[a]);
                    } else if a < i && b > i {
                        assert(qs[a] == ps[a] && qs[b] == ps[b - 1]);
                    } else if a == i {
                        assert(qs[b] == ps[b - 1]);
                        if b - 1 > i {
                            lemma_key_lt_transitive(pk, key_of(ps[i as int]), key_of(ps[b - 1]));
                        }
                    } else if a < i {
                        assert(qs[a] == ps[a] && qs[b] == ps[b]);
                    } else {
                        assert(qs[a] == ps[a - 1] && qs[b] == ps[b - 1]);
                    }
                }
            }
            assert(keys_sorted(qs));
            assert forall|k: (Seq<char>, Seq<char>)|
                #[trigger] last_with_key(qs, k) == if k == pk {
                    Some(profile)
                } else {
                    last_with_key(ps, k)
                } by {
                if k == pk {
                    lemma_sorted_at(qs, i as int);
                } else if exists|j: int| 0 <= j < ps.len() && key_of(#[trigger] ps[j]) == k {
                    let j = choose|j: int| 0 <= j < ps.len() && key_of(#[trigger] ps[j]) == k;
                    lemma_sorted_at(ps, j);
                    if same {
                        assert(j != i);
                        assert(qs[j] == ps[j]);
                        lemma_sorted_at(qs, j);
                    } else if j < i {
                        assert(qs[j] == ps[j]);
                        lemma_sorted_at(qs, j);
                    } else {
                        assert(qs[j + 1] == ps[j]);
                        lemma_sorted_at(qs, j + 1);
                    }
                } else {
                    lemma_last_with_key_absent(ps, k);
                    assert forall|a: int| 0 <= a < qs.len() implies key_of(#[trigger] qs[a]) != k by {
                        if a != i {
                            if same || a < i {
                                assert(qs[a] == ps[a]);
                            } else {
                                assert(qs[a] == ps[a - 1]);
                            }
                        }
                    }
                    lemma_last_with_key_absent(qs, k);
                }
            }
        }
    }
}

/// The view of a key pair as handed out by `keys`.
pub open spec fn pair_view(p: (String, String)) -> (Seq<char>, Seq<char>) {
    (p.0@, p.1@)
}

/// Law (`AffordanceRegistry::new`, `keys`, `resolve`): a registry built
/// from `ps` lists as its keys exactly the distinct (endpoint id, capability
/// id) pairs of `ps`: each once, in strictly rising order, and each one
/// resolves to a profile. The requirements are the contracts of `new` (the
/// registry under each key is the last profile of `ps` with that key) and of
/// `keys` (`ks` is what it returned); `resolve` answers `get_spec`.
pub proof fn lemma_registry_keys_are_distinct_input_keys(
    reg: AffordanceRegistry,
    ps: Seq<AffordanceProfile>,
    ks: Seq<(String, String)>,
)
    requires
        reg.wf(),
        forall|k: (Seq<char>, Seq<char>)| #[trigger] reg.get_spec(k) == last_with_key(ps, k),
        ks.len() == reg.profiles_spec().len(),
        forall|i: int|
            0 <= i < ks.len() ==> pair_view(#[trigger] ks[i]) == key_of(reg.profiles_spec()[i]),
    ensures
        forall|i: int, j: int|
            0 <= i < j < ks.len() ==> key_lt(pair_view(#[trigger] ks[i]), pair_view(#[trigger] ks[j])),
        forall|i: int|
            #![trigger ks[i]]
            0 <= i < ks.len() ==> exists|m: int|
                0 <= m < ps.len() && key_of(#[trigger] ps[m]) == pair_view(ks[i]),
        forall|m: int|
            #![trigger ps[m]]
            0 <= m < ps.len() ==> exists|i: int|
                0 <= i < ks.len() && pair_view(#[trigger] ks[i]) == key_of(ps[m]),
        forall|i: int| 0 <= i < ks.len() ==> (#[trigger] reg.get_spec(pair_view(ks[i]))) is Some,
{
    let qs = reg.profiles_spec();
    assert forall|i: int, j: int| 0 <= i < j < ks.len() implies key_lt(
        pair_view(#[trigger] ks[i]),
        pair_view(#[trigger] ks[j]),
    ) by {
        assert(key_lt(key_of(qs[i]), key_of(qs[j])));
    }
    assert forall|i: int| 0 <= i < ks.len() implies (#[trigger] reg.get_spec(
        pair_view(ks[i]),
    )) is Some by {
        lemma_sorted_at(qs, i);
    }
    assert forall|i: int| #![trigger ks[i]] 0 <= i < ks.len() implies exists|m: int|
        0 <= m < ps.len() && key_of(#[trigger] ps[m]) == pair_view(ks[i]) by {
        lemma_sorted_at(qs, i);
        assert(reg.get_spec(pair_view(ks[i])) is Some);
        lemma_last_with_key_found(ps, pair_view(ks[i]));
    }
    assert forall|m: int| #![trigger ps[m]] 0 <= m < ps.len() implies exists|i: int|
        0 <= i < ks.len() && pair_view(#[trigger] ks[i]) == key_of(ps[m]) by {
        let k = key_of(ps[m]);
        lemma_last_with_key_present(ps, m);
        assert(reg.get_spec(k) is Some);
        lemma_last_with_key_found(qs, k);
        let i = choose|i: int| 0 <= i < qs.len() && key_of(#[trigger] qs[i]) == k;
        assert(pair_view(ks[i]) == k);
    }
}

/// Whether the key of `a` comes before the key of `b`.
fn key_lt_exec(a: &AffordanceProfile, b: &AffordanceProfile) -> (r: bool)
    ensures
        r == key_lt(key_of(*a), key_of(*b)),
{
    str_lt(a.endpoint_id.as_str(), b.endpoint_id.as_str()) || (str_eq(
        a.endpoint_id.as_str(),
        b.endpoint_id.as_str(),
    ) && str_lt(a.capability_id.as_str(), b.capability_id.as_str()))
}

} // verus!
