use beluna::admission::{
    derive_action_id, AdmissionDecision, AdmissionResolver, AdmissionResolverConfig,
    AffordabilitySnapshot, ContinuityErrorKind, CostAdmissionPolicy, DegradationPreference,
    RequestedResources,
};
use beluna::admission_batch::{
    sort_attempts_by_id, AdmissionReport, AdmissionReportItem, BatchAttempt,
};
use beluna::affordance::{AffordanceProfile, AffordanceRegistry, CostVector, DegradationProfile};

fn profile(endpoint: &str, capability: &str, profile_id: &str) -> AffordanceProfile {
    AffordanceProfile {
        profile_id: profile_id.to_string(),
        endpoint_id: endpoint.to_string(),
        capability_id: capability.to_string(),
        ..AffordanceProfile::default()
    }
}

fn req(survival: i64, time: u64) -> RequestedResources {
    RequestedResources { survival_micro: survival, time_ms: time, io_units: 0, token_units: 0 }
}

#[test]
fn registry_later_profile_wins_and_keys_are_sorted() {
    let reg = AffordanceRegistry::new(vec![
        profile("b", "x", "p1"),
        profile("a", "y", "p2"),
        profile("b", "x", "p3"),
        profile("a", "x", "p4"),
    ]);
    assert_eq!(reg.resolve("b", "x").unwrap().profile_id, "p3");
    assert_eq!(reg.resolve("a", "y").unwrap().profile_id, "p2");
    assert!(reg.resolve("c", "x").is_none());
    let keys: Vec<(String, String)> = reg.keys();
    assert_eq!(
        keys,
        vec![
            ("a".to_string(), "x".to_string()),
            ("a".to_string(), "y".to_string()),
            ("b".to_string(), "x".to_string())
        ]
    );
}

#[test]
fn default_profile_matches_documented_costs() {
    let p = AffordanceProfile::default();
    assert_eq!(p.endpoint_id, "core.mind");
    assert_eq!(p.base_cost, CostVector { survival_micro: 250, time_ms: 120, io_units: 1, token_units: 128 });
    assert_eq!(p.degradation_profiles.len(), 2);
    assert_eq!(p.degradation_profiles[1].cost_multiplier_milli, 450);
}

#[test]
fn estimate_cost_formula() {
    let policy = CostAdmissionPolicy::default();
    let p = AffordanceProfile::default();
    // time 200 * 1 + io 1 * 40 + token 128 * 1 = 368, plus 250 + 10 survival
    let c = policy.estimate_cost(&p, &req(10, 200), None).unwrap();
    assert_eq!(c, CostVector { survival_micro: 628, time_ms: 200, io_units: 1, token_units: 128 });
    let lite = &p.degradation_profiles[0];
    let c = policy.estimate_cost(&p, &req(10, 200), Some(lite)).unwrap();
    assert_eq!(c.survival_micro, 628 * 700 / 1000);
    let c = policy.estimate_cost(&p, &req(-50, 0), None).unwrap();
    assert_eq!(c.survival_micro, 250 + 120 + 40 + 128);
}

#[test]
fn estimate_cost_overflow_errors() {
    let policy = CostAdmissionPolicy::default();
    let mut p = AffordanceProfile::default();
    p.base_cost.survival_micro = i64::MAX;
    let e = policy.estimate_cost(&p, &req(1, 0), None).unwrap_err();
    assert_eq!(e.kind, ContinuityErrorKind::Arithmetic);
    assert_eq!(e.message, "survival estimate overflow");
    let p = AffordanceProfile::default();
    let e = policy.estimate_cost(&p, &req(i64::MAX - 450, 0), None).unwrap_err();
    assert_eq!(e.message, "survival estimate conversion overflow");
}

#[test]
fn reserve_amount_scales_and_truncates() {
    let mut policy = CostAdmissionPolicy::default();
    assert_eq!(policy.reserve_amount_micro(1234).unwrap(), 1234);
    policy.reserve_ratio_milli = 1500;
    assert_eq!(policy.reserve_amount_micro(1001).unwrap(), 1501);
    assert_eq!(policy.reserve_amount_micro(-1001).unwrap(), -1501);
    policy.reserve_ratio_milli = 2000;
    let e = policy.reserve_amount_micro(i64::MAX).unwrap_err();
    assert_eq!(e.message, "reserve amount conversion overflow");
}

#[test]
fn economic_codes_in_order() {
    let s = AffordabilitySnapshot {
        available_survival_micro: 0,
        required_survival_micro: 10,
        required_time_ms: 10,
        required_io_units: 10,
        required_token_units: 10,
        max_time_ms: 5,
        max_io_units: 5,
        max_token_units: 5,
    };
    assert_eq!(AdmissionResolver::economic_denial_code(&s), "time_budget_exceeded");
    let s = AffordabilitySnapshot { max_time_ms: 10, ..s };
    assert_eq!(AdmissionResolver::economic_denial_code(&s), "io_budget_exceeded");
    let s = AffordabilitySnapshot { max_io_units: 10, ..s };
    assert_eq!(AdmissionResolver::economic_denial_code(&s), "token_budget_exceeded");
    let s = AffordabilitySnapshot { max_token_units: 10, ..s };
    assert_eq!(AdmissionResolver::economic_denial_code(&s), "insufficient_survival_budget");
    assert!(s.within_runtime_limits());
    assert!(!s.survival_affordable());
}

fn resolver(pref: DegradationPreference) -> AdmissionResolver {
    AdmissionResolver::new(
        AffordanceRegistry::new(vec![AffordanceProfile::default()]),
        CostAdmissionPolicy::default(),
        AdmissionResolverConfig { degradation_preference: pref, ..AdmissionResolverConfig::default() },
    )
}

#[test]
fn degraded_candidate_by_preference() {
    let p = AffordanceProfile::default();
    // full cost 538; lite 376; minimal 242
    let r = resolver(DegradationPreference::LeastCapabilityLossFirst);
    let (i, c) = r.find_degraded_candidate(400, &p, &req(0, 0)).unwrap().unwrap();
    assert_eq!((i, c.survival_micro), (0, 376));
    let (i, _) = r.find_degraded_candidate(300, &p, &req(0, 0)).unwrap().unwrap();
    assert_eq!(i, 1);
    assert!(r.find_degraded_candidate(100, &p, &req(0, 0)).unwrap().is_none());
    let r = resolver(DegradationPreference::CheapestFirst);
    let (i, c) = r.find_degraded_candidate(400, &p, &req(0, 0)).unwrap().unwrap();
    assert_eq!((i, c.survival_micro), (1, 242));
}

#[test]
fn degradation_depth_and_variant_limits() {
    let p = AffordanceProfile::default();
    let mut r = resolver(DegradationPreference::LeastCapabilityLossFirst);
    r.config.max_degradation_depth = 1;
    assert!(r.find_degraded_candidate(300, &p, &req(0, 0)).unwrap().is_none());
    r.config.max_degradation_depth = 2;
    r.config.max_degradation_variants = 1;
    assert!(r.find_degraded_candidate(300, &p, &req(0, 0)).unwrap().is_none());
}

#[test]
fn decide_admission_outcomes() {
    let r = resolver(DegradationPreference::LeastCapabilityLossFirst);
    match r.decide_admission("core.mind", "nope", 1, &req(0, 0), 1000).unwrap() {
        AdmissionDecision::DeniedHard { code } => assert_eq!(code, "unknown_affordance"),
        other => panic!("unexpected {other:?}"),
    }
    match r.decide_admission("core.mind", "deliberate.plan", 20_000, &req(0, 0), 1000).unwrap() {
        AdmissionDecision::DeniedHard { code } => assert_eq!(code, "payload_too_large"),
        other => panic!("unexpected {other:?}"),
    }
    match r.decide_admission("core.mind", "deliberate.plan", 10, &req(0, 0), 1000).unwrap() {
        AdmissionDecision::Admitted { degraded, degradation_index, cost } => {
            assert!(!degraded);
            assert_eq!(degradation_index, None);
            assert_eq!(cost.survival_micro, 538);
        }
        other => panic!("unexpected {other:?}"),
    }
    match r.decide_admission("core.mind", "deliberate.plan", 10, &req(0, 0), 400).unwrap() {
        AdmissionDecision::Admitted { degraded, degradation_index, .. } => {
            assert!(degraded);
            assert_eq!(degradation_index, Some(0));
        }
        other => panic!("unexpected {other:?}"),
    }
    match r.decide_admission("core.mind", "deliberate.plan", 10, &req(0, 0), 10).unwrap() {
        AdmissionDecision::DeniedEconomic { code, available_survival_micro, required_survival_micro } => {
            assert_eq!(code, "insufficient_survival_budget");
            assert_eq!(available_survival_micro, 10);
            assert_eq!(required_survival_micro, 538);
        }
        other => panic!("unexpected {other:?}"),
    }
    match r.decide_admission("core.mind", "deliberate.plan", 10, &req(0, 10_000), 1_000_000).unwrap() {
        AdmissionDecision::DeniedEconomic { code, .. } => assert_eq!(code, "time_budget_exceeded"),
        other => panic!("unexpected {other:?}"),
    }
}

#[test]
fn action_id_shape_and_determinism() {
    let a = derive_action_id(7, "att:1", "res:1");
    let b = derive_action_id(7, "att:1", "res:1");
    let c = derive_action_id(8, "att:1", "res:1");
    assert_eq!(a, b);
    assert_ne!(a, c);
    assert!(a.starts_with("act:"));
    assert_eq!(a.len(), 4 + 24);
    assert!(a[4..].chars().all(|ch| ch.is_ascii_hexdigit() && !ch.is_ascii_uppercase()));
}

#[test]
fn degradation_profile_equality() {
    let d = DegradationProfile {
        profile_id: "x".to_string(),
        depth: 1,
        capability_loss_score: 1,
        cost_multiplier_milli: 1,
        capability_id_override: None,
    };
    assert_eq!(d.depth, 1);
}

fn batch_attempt(id: &str, payload_len: usize) -> BatchAttempt {
    BatchAttempt {
        attempt_id: id.to_string(),
        endpoint_id: "core.mind".to_string(),
        capability_id: "deliberate.plan".to_string(),
        payload_len,
        requested: req(1, 1),
    }
}

#[test]
fn batch_attempts_are_taken_in_id_order() {
    let sorted = sort_attempts_by_id(vec![
        batch_attempt("c", 1),
        batch_attempt("a", 2),
        batch_attempt("b", 3),
        batch_attempt("a", 4),
    ]);
    let ids: Vec<&str> = sorted.iter().map(|a| a.attempt_id.as_str()).collect();
    assert_eq!(ids, vec!["a", "a", "b", "c"]);
    let mut lens: Vec<usize> = sorted.iter().map(|a| a.payload_len).collect();
    lens.sort();
    assert_eq!(lens, vec![1, 2, 3, 4]);
    assert!(sort_attempts_by_id(vec![]).is_empty());
}

#[test]
fn batch_report_totals_reservations_and_refuses_overflow() {
    let mut report = AdmissionReport::new(7);
    report
        .record(AdmissionReportItem {
            attempt_id: "a".to_string(),
            decision: AdmissionDecision::DeniedHard { code: "unknown_affordance".to_string() },
            reserved_survival_micro: None,
        })
        .unwrap();
    report
        .record(AdmissionReportItem {
            attempt_id: "b".to_string(),
            decision: AdmissionDecision::Admitted {
                degraded: false,
                degradation_index: None,
                cost: CostVector { survival_micro: 300, time_ms: 1, io_units: 0, token_units: 0 },
            },
            reserved_survival_micro: Some(300),
        })
        .unwrap();
    report
        .record(AdmissionReportItem {
            attempt_id: "c".to_string(),
            decision: AdmissionDecision::Admitted {
                degraded: true,
                degradation_index: Some(0),
                cost: CostVector { survival_micro: 45, time_ms: 1, io_units: 0, token_units: 0 },
            },
            reserved_survival_micro: Some(45),
        })
        .unwrap();
    assert_eq!(report.cycle_id, 7);
    assert_eq!(report.outcomes.len(), 3);
    assert_eq!(report.total_reserved_survival_micro, 345);
    let err = report
        .record(AdmissionReportItem {
            attempt_id: "d".to_string(),
            decision: AdmissionDecision::Admitted {
                degraded: false,
                degradation_index: None,
                cost: CostVector { survival_micro: i64::MAX, time_ms: 1, io_units: 0, token_units: 0 },
            },
            reserved_survival_micro: Some(i64::MAX),
        })
        .unwrap_err();
    assert_eq!(err.kind, ContinuityErrorKind::Arithmetic);
    assert_eq!(err.message, "report reserved_survival overflow");
    assert_eq!(report.outcomes.len(), 3);
    assert_eq!(report.total_reserved_survival_micro, 345);
}

fn attempt_on(id: &str, capability: &str) -> BatchAttempt {
    BatchAttempt {
        attempt_id: id.to_string(),
        endpoint_id: "core.mind".to_string(),
        capability_id: capability.to_string(),
        payload_len: 10,
        requested: req(0, 0),
    }
}

#[test]
fn admission_batch_runs_in_id_order_against_the_remaining_survival() {
    let r = resolver(DegradationPreference::LeastCapabilityLossFirst);
    let (report, batch, reservations) = r
        .admit_attempts(
            9,
            vec![
                attempt_on("d", "deliberate.plan"),
                attempt_on("c", "unknown.capability"),
                attempt_on("a", "deliberate.plan"),
                attempt_on("b", "deliberate.plan"),
            ],
            1000,
        )
        .unwrap();
    assert_eq!(report.cycle_id, 9);
    assert_eq!(batch.cycle_id, 9);
    let ids: Vec<&str> = report.outcomes.iter().map(|o| o.attempt_id.as_str()).collect();
    assert_eq!(ids, vec!["a", "b", "c", "d"]);
    match &report.outcomes[0].decision {
        AdmissionDecision::Admitted { degraded, cost, .. } => {
            assert!(!degraded);
            assert_eq!(cost.survival_micro, 538);
        }
        other => panic!("unexpected {other:?}"),
    }
    match &report.outcomes[1].decision {
        AdmissionDecision::Admitted { degraded, degradation_index, cost } => {
            assert!(degraded);
            assert_eq!(*degradation_index, Some(0));
            assert_eq!(cost.survival_micro, 376);
        }
        other => panic!("unexpected {other:?}"),
    }
    match &report.outcomes[2].decision {
        AdmissionDecision::DeniedHard { code } => assert_eq!(code, "unknown_affordance"),
        other => panic!("unexpected {other:?}"),
    }
    assert_eq!(report.outcomes[2].reserved_survival_micro, None);
    match &report.outcomes[3].decision {
        AdmissionDecision::DeniedEconomic { available_survival_micro, .. } => {
            assert_eq!(*available_survival_micro, 86)
        }
        other => panic!("unexpected {other:?}"),
    }
    assert_eq!(report.outcomes[3].reserved_survival_micro, None);
    assert_eq!(report.total_reserved_survival_micro, 914);
    assert_eq!(batch.actions.len(), 2);
    assert_eq!(batch.actions[0].source_attempt_id, "a");
    assert_eq!(batch.actions[1].source_attempt_id, "b");
    assert_eq!(batch.actions[1].reserved_cost.survival_micro, 376);
    assert!(batch.actions[1].degraded);
    assert_eq!(batch.actions[0].admission_cycle, 9);
    assert_eq!(reservations.len(), 2);
    assert_eq!(reservations[0].attempt_id, "a");
    assert_eq!(reservations[0].survival_micro, 538);
    assert_eq!(reservations[1].survival_micro, 376);
    let action_ids = batch.action_ids(&vec!["res:1".to_string(), "res:2".to_string()]);
    assert_eq!(action_ids[0], derive_action_id(9, "a", "res:1"));
    assert_eq!(action_ids[1], derive_action_id(9, "b", "res:2"));
}

#[test]
fn admission_batch_of_nothing_is_empty() {
    let r = resolver(DegradationPreference::LeastCapabilityLossFirst);
    let (report, batch, reservations) = r.admit_attempts(1, vec![], 0).unwrap();
    assert!(report.outcomes.is_empty());
    assert_eq!(report.total_reserved_survival_micro, 0);
    assert!(batch.actions.is_empty());
    assert!(reservations.is_empty());
}
