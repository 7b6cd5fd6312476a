use beluna::error::{map_http_error, GatewayError, GatewayErrorKind};
use beluna::router::{BackendRouter, ChatRouteAlias, ChatRouteKey, ChatRouteRef};
use beluna::types::{
    AIGatewayConfig, BackendCapabilities, BackendDialect, BackendProfile, BudgetConfig, ChatConfig,
    CredentialRef, ModelProfile, ReliabilityConfig,
};

fn model(id: &str, aliases: &[&str]) -> ModelProfile {
    ModelProfile { id: id.to_string(), aliases: aliases.iter().map(|a| a.to_string()).collect() }
}

fn backend(id: &str, models: Vec<ModelProfile>) -> BackendProfile {
    BackendProfile {
        id: id.to_string(),
        dialect: BackendDialect::OpenAiCompatible,
        endpoint: None,
        credential: CredentialRef::NoCredential,
        models,
        capabilities: None,
        copilot: None,
    }
}

fn config(backends: Vec<BackendProfile>) -> AIGatewayConfig {
    AIGatewayConfig {
        backends,
        chat: ChatConfig::default(),
        reliability: ReliabilityConfig::default(),
        budget: BudgetConfig::default(),
    }
}

#[test]
fn router_selects_default_alias() {
    let router = BackendRouter::new(&config(vec![backend(
        "b1",
        vec![model("m1", &["default"]), model("m2", &["fast"])],
    )]))
    .unwrap();
    let sel = router.select_route_ref(None).unwrap();
    assert_eq!(sel.backend_id, "b1");
    assert_eq!(sel.resolved_model, "m1");
    let fast = ChatRouteRef::Alias(ChatRouteAlias {
        capability: "chat".to_string(),
        alias: " fast ".to_string(),
    });
    let sel = router.select_route_ref(Some(&fast)).unwrap();
    assert_eq!(sel.resolved_model, "m2");
}

#[test]
fn router_rejects_bad_configs() {
    let err = BackendRouter::new(&config(vec![])).err().unwrap();
    assert_eq!(err.message, "ai_gateway.backends must not be empty");
    assert_eq!(err.kind, GatewayErrorKind::InvalidRequest);
    let err = BackendRouter::new(&config(vec![backend("b1", vec![])])).err().unwrap();
    assert_eq!(err.message, "backend 'b1' must define at least one model");
    let err = BackendRouter::new(&config(vec![backend(
        "b1",
        vec![model("m1", &["default"]), model("m1", &[])],
    )]))
    .err()
    .unwrap();
    assert_eq!(err.message, "backend 'b1' has duplicate model id 'm1'");
    let err = BackendRouter::new(&config(vec![backend(
        "b1",
        vec![model("m1", &["default"]), model("m2", &["default"])],
    )]))
    .err()
    .unwrap();
    assert_eq!(err.message, "duplicate alias 'default' in ai_gateway.backends");
    let err = BackendRouter::new(&config(vec![backend("b1", vec![model("m1", &["fast"])])]))
        .err()
        .unwrap();
    assert_eq!(err.message, "ai_gateway.backends must define alias 'default' on some model");
    let err = BackendRouter::new(&config(vec![
        backend("b1", vec![model("m1", &["default"])]),
        backend("b1", vec![model("m2", &[])]),
    ]))
    .err()
    .unwrap();
    assert_eq!(err.message, "duplicate backend id 'b1' in ai_gateway.backends");
}

#[test]
fn router_reports_unknown_routes() {
    let router =
        BackendRouter::new(&config(vec![backend("b1", vec![model("m1", &["default"])])])).unwrap();
    let bad = ChatRouteRef::Alias(ChatRouteAlias {
        capability: "chat".to_string(),
        alias: "nope".to_string(),
    });
    let err = router.select_route_ref(Some(&bad)).err().unwrap();
    assert_eq!(err.message, "unknown route alias 'nope'; expected one configured chat alias");
    let wrong = ChatRouteRef::Key(ChatRouteKey {
        capability: "vision".to_string(),
        binding_id: "x".to_string(),
    });
    let err = router.select_route_ref(Some(&wrong)).err().unwrap();
    assert_eq!(err.message, "unsupported capability 'vision' in route key; expected 'chat'");
}

#[test]
fn router_alias_and_key_refs_agree() {
    let router = BackendRouter::new(&config(vec![
        backend("b1", vec![model("m1", &["default"])]),
        backend("b2", vec![model("m2", &["fast"])]),
    ]))
    .unwrap();
    for selector in [" fast ", "default", "missing", ""] {
        let by_alias = ChatRouteRef::Alias(ChatRouteAlias {
            capability: "chat".to_string(),
            alias: selector.to_string(),
        });
        let by_key = ChatRouteRef::Key(ChatRouteKey {
            capability: "chat".to_string(),
            binding_id: selector.to_string(),
        });
        let a = router.select_route_ref(Some(&by_alias));
        let k = router.select_route_ref(Some(&by_key));
        assert_eq!(a.is_ok(), k.is_ok());
        if let (Ok(a), Ok(k)) = (a, k) {
            assert_eq!(a.backend_id, k.backend_id);
            assert_eq!(a.resolved_model, k.resolved_model);
        }
    }
    let sel = router
        .select_route_ref(Some(&ChatRouteRef::Key(ChatRouteKey {
            capability: "chat".to_string(),
            binding_id: " fast ".to_string(),
        })))
        .unwrap();
    assert_eq!(sel.backend_id, "b2");
    assert_eq!(sel.resolved_model, "m2");
    let err = router
        .select_route_ref(Some(&ChatRouteRef::Alias(ChatRouteAlias {
            capability: "vision".to_string(),
            alias: "fast".to_string(),
        })))
        .err()
        .unwrap();
    assert_eq!(err.kind, GatewayErrorKind::InvalidRequest);
}

#[test]
fn http_errors_map_to_kinds() {
    let e = map_http_error(401, "b", "");
    assert_eq!(e.kind, GatewayErrorKind::Authentication);
    assert!(!e.retryable);
    assert_eq!(e.message, "authentication failed");
    let e = map_http_error(429, "b", "slow down");
    assert_eq!(e.kind, GatewayErrorKind::RateLimited);
    assert!(e.retryable);
    assert_eq!(e.message, "backend returned status 429: slow down");
    let e = map_http_error(503, "b", "");
    assert_eq!(e.kind, GatewayErrorKind::BackendTransient);
    assert!(e.retryable);
    let e = map_http_error(404, "b", &"x".repeat(300));
    assert_eq!(e.kind, GatewayErrorKind::InvalidRequest);
    assert_eq!(e.message.len(), "backend returned status 404: ".len() + 240);
    assert_eq!(e.backend_id.as_deref(), Some("b"));
}

#[test]
fn gateway_error_builders() {
    let e = GatewayError::new(GatewayErrorKind::Timeout, "late");
    assert!(e.retryable);
    let e = e.with_retryable(false).with_backend_id("b1").with_provider_code("c9");
    assert!(!e.retryable);
    assert_eq!(e.to_display_string(), "late (backend=b1, provider_code=c9)");
    let e = GatewayError::new(GatewayErrorKind::Internal, "x");
    assert!(!e.retryable);
    assert_eq!(e.to_display_string(), "x");
}

#[test]
fn capabilities_default_is_conservative() {
    let c = BackendCapabilities::default();
    assert!(c.streaming);
}
