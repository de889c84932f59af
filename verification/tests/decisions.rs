use riversd::admin_access::{
    admin_auth_decision, admin_refusal, admin_request_checks, build_admin_auth_config_for_rbac,
    path_to_admin_permission, AdminAuthOutcome, AdminPermission, AdminRequestChecks, RbacConfig,
};
use riversd::security::{csrf_token, has_bearer_token, security_verdict, GuardAction, SecurityInputs, SecurityVerdict};
use riversd::streaming::{sse_step, stream_timeout_ms, ws_step, SseAction, SseEvent, WsAction, WsEvent};
use riversd::view_rules::{
    circuit_open_response, guard_session_subject, mcp_call_action, mcp_needs_session, mcp_route,
    namespaced_dataview, query_length_error, reads_body, view_kind, view_rate_limit_config, Claim,
    McpCallAction, McpRoute, ViewKind,
};

#[test]
fn admin_paths_map_to_permissions() {
    assert_eq!(path_to_admin_permission("/admin/status"), Some(AdminPermission::StatusRead));
    assert_eq!(path_to_admin_permission("/admin/deploy/test"), Some(AdminPermission::DeployWrite));
    assert_eq!(path_to_admin_permission("/admin/deploy/reject"), Some(AdminPermission::DeployApprove));
    assert_eq!(path_to_admin_permission("/admin/deploy/promote"), Some(AdminPermission::DeployPromote));
    assert_eq!(path_to_admin_permission("/admin/deployments"), Some(AdminPermission::DeployRead));
    assert_eq!(path_to_admin_permission("/admin/log/level"), Some(AdminPermission::Admin));
    assert_eq!(path_to_admin_permission("/admin/shutdown"), Some(AdminPermission::Admin));
    assert_eq!(path_to_admin_permission("/admin/other"), None);
}

#[test]
fn rbac_roles_skip_unknown_permissions() {
    let rbac = RbacConfig {
        roles: vec![("ops".into(), vec!["status_read".into(), "bogus".into(), "admin".into()])],
        bindings: vec![("abc".into(), "ops".into())],
    };
    let cfg = build_admin_auth_config_for_rbac(Some(&rbac), None);
    assert_eq!(cfg.roles[0].1, vec![AdminPermission::StatusRead, AdminPermission::Admin]);
    assert_eq!(cfg.identity_roles[0].1, "ops");
    assert!(!cfg.no_auth);
}

fn all_ok() -> AdminRequestChecks {
    AdminRequestChecks {
        no_auth: false,
        key_parses: true,
        headers_present: true,
        timestamp_fresh: true,
        signature: Some(vec![0xab, 0xcd]),
        body_hash: Some("00".repeat(32)),
        signature_valid: true,
        ip_allowed: true,
        permitted: true,
    }
}

#[test]
fn admin_decisions() {
    assert_eq!(admin_auth_decision(&all_ok()), AdminAuthOutcome::Pass);
    let mut c = all_ok();
    c.signature_valid = false;
    assert_eq!(admin_auth_decision(&c), AdminAuthOutcome::SignatureRejected);
    c.headers_present = false;
    assert_eq!(admin_auth_decision(&c), AdminAuthOutcome::MissingHeaders);
    c.no_auth = true;
    assert_eq!(admin_auth_decision(&c), AdminAuthOutcome::Pass);
    let mut c = all_ok();
    c.signature = None;
    assert_eq!(admin_auth_decision(&c), AdminAuthOutcome::BadSignatureEncoding);
    let mut c = all_ok();
    c.body_hash = None;
    assert_eq!(admin_auth_decision(&c), AdminAuthOutcome::BodyTooLarge);
    let (status, msg) = admin_refusal(AdminAuthOutcome::IpNotAllowed, "").unwrap();
    assert_eq!((status, msg.as_str()), (403, "IP not in admin allowlist"));
}

fn inputs(is_public: bool, valid: bool) -> SecurityInputs {
    SecurityInputs {
        is_public,
        has_session_manager: true,
        has_session_id: true,
        session_valid: valid,
        is_guard_view: false,
        has_csrf_manager: true,
        csrf_exempt: false,
        csrf_token_valid: true,
    }
}

#[test]
fn security_pipeline_decisions() {
    match security_verdict(&inputs(false, false), GuardAction::Redirect("/login".into()), GuardAction::Allow) {
        SecurityVerdict::Redirect { url, clear_cookie } => {
            assert_eq!(url, "/login");
            assert!(clear_cookie);
        }
        _ => panic!("expected redirect"),
    }
    assert!(matches!(
        security_verdict(&inputs(false, false), GuardAction::Reject, GuardAction::Allow),
        SecurityVerdict::Unauthorized
    ));
    let mut i = inputs(false, true);
    i.csrf_token_valid = false;
    assert!(matches!(security_verdict(&i, GuardAction::Reject, GuardAction::Allow), SecurityVerdict::CsrfRejected));
    i.has_session_manager = false;
    assert!(matches!(security_verdict(&i, GuardAction::Allow, GuardAction::Allow), SecurityVerdict::NoSessionManager));
    assert!(matches!(
        security_verdict(&inputs(true, false), GuardAction::Reject, GuardAction::Allow),
        SecurityVerdict::Proceed { session_valid: false, clear_cookie: false }
    ));
    assert!(has_bearer_token(Some("Bearer abc")));
    assert!(!has_bearer_token(Some("Basic abc")));
    assert_eq!(csrf_token(None, Some("t")), "t");
    assert_eq!(csrf_token(None, None), "");
}

#[test]
fn view_dispatch_decisions() {
    let c = view_rate_limit_config(Some(100), None).unwrap();
    assert_eq!((c.requests_per_minute, c.burst_size), (100, 50));
    assert_eq!(view_rate_limit_config(Some(1), None).unwrap().burst_size, 1);
    assert_eq!(view_rate_limit_config(Some(10), Some(0)).unwrap().burst_size, 1);
    assert!(view_rate_limit_config(Some(0), Some(5)).is_none());
    assert_eq!(view_kind("Mcp"), ViewKind::Mcp);
    assert_eq!(view_kind("Rest"), ViewKind::Rest);
    let long = "a".repeat(8193);
    assert_eq!(
        query_length_error(Some(&long)).unwrap(),
        "query string exceeds maximum length (8193 > 8192 bytes)"
    );
    assert!(query_length_error(Some("a=1")).is_none());
    assert!(!reads_body("GET"));
    assert!(reads_body("POST"));
    assert_eq!(namespaced_dataview("shop", "orders"), "shop:orders");
    assert_eq!(namespaced_dataview("", "orders"), "orders");
    assert_eq!(guard_session_subject(Claim::Absent, Claim::Text("bob".into()), Claim::Absent), "bob");
    assert_eq!(guard_session_subject(Claim::Other, Claim::Text("bob".into()), Claim::Absent), "anonymous");
    let (status, retry, body) = circuit_open_response("cb1");
    assert_eq!((status, retry), (503, 30));
    let v: serde_json::Value = serde_json::from_str(&body).unwrap();
    assert_eq!(v["breakerId"], "cb1");
    assert_eq!(v["error"], "circuit breaker 'cb1' is open");
    assert_eq!(v["retryable"], true);
}

#[test]
fn mcp_decisions() {
    assert_eq!(mcp_route(true, true, false), McpRoute::MissingSession);
    assert_eq!(mcp_route(true, false, false), McpRoute::Instructions);
    assert_eq!(mcp_route(false, true, true), McpRoute::JsonRpc);
    assert!(!mcp_needs_session("initialize", true));
    assert!(mcp_needs_session("tools/call", true));
    assert_eq!(mcp_call_action(false, true, false), McpCallAction::NoAnswer);
    assert_eq!(mcp_call_action(true, true, false), McpCallAction::SessionRequired);
}

#[test]
fn streaming_steps() {
    match sse_step(SseEvent::Lagged(5)) {
        SseAction::Send(s) => assert_eq!(s, ": lagged 5 events\n\n"),
        _ => panic!(),
    }
    match sse_step(SseEvent::SessionChecked { valid: false }) {
        SseAction::SendAndClose(s) => assert_eq!(s, ": session expired\n\n"),
        _ => panic!(),
    }
    assert!(matches!(sse_step(SseEvent::Closed), SseAction::Close));
    assert!(matches!(ws_step(WsEvent::Text("x".into()), false), WsAction::Drop));
    assert!(matches!(ws_step(WsEvent::OutboundLagged, true), WsAction::Continue));
    assert_eq!(stream_timeout_ms(None), 120_000);
}

#[test]
fn admin_checks_from_raw_request_parts() {
    let c = admin_request_checks(false, true, Some("ABcd01"), Some("123"), true, Some(b"abc"), true, true, true);
    assert!(c.headers_present);
    assert_eq!(c.signature, Some(vec![0xab, 0xcd, 0x01]));
    assert_eq!(
        c.body_hash.as_deref(),
        Some("ba7816bf8f01cfea414140de5dae2223b00361a396177a9cb410ff61f20015ad")
    );
    assert_eq!(admin_auth_decision(&c), AdminAuthOutcome::Pass);
    let c = admin_request_checks(false, true, Some("abc"), Some("1"), true, Some(b""), true, true, true);
    assert_eq!(c.signature, None);
    assert_eq!(admin_auth_decision(&c), AdminAuthOutcome::BadSignatureEncoding);
    let c = admin_request_checks(false, true, Some("zz"), None, true, None, true, true, true);
    assert!(!c.headers_present);
    assert_eq!(c.body_hash, None);
    assert_eq!(admin_auth_decision(&c), AdminAuthOutcome::MissingHeaders);
    let c = admin_request_checks(false, true, Some(""), Some("1"), true, None, true, true, true);
    assert_eq!(c.signature, Some(vec![]));
    assert_eq!(admin_auth_decision(&c), AdminAuthOutcome::BodyTooLarge);
}
