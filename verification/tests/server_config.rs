use riversd::server_config::{
    admin_access_checked, admin_cert_source, admin_port, drivers_to_register,
    https_redirect_target, metrics_port, node_id, static_plugin_inventory, storage_plan,
    redirect_listener, startup_plan, validate_admin_access_control, validate_server_tls,
    AdminApiSettings, AdminCertSource, RedirectListener, RedirectSettings, ServerError,
    StartupInputs, StartupPlan, TlsSettings,
};

fn admin(public_key: Option<&str>) -> AdminApiSettings {
    AdminApiSettings {
        enabled: true,
        port: None,
        public_key: public_key.map(|s| s.to_string()),
        no_auth: None,
        tls_cert: None,
        tls_key: None,
    }
}

#[test]
fn server_admin_access_control_rejects_no_public_key() {
    let result = validate_admin_access_control(&admin(None));
    assert!(result.is_err());
    assert!(result.unwrap_err().contains("public_key"));
}

#[test]
fn server_admin_access_control_accepts_with_public_key() {
    let result = validate_admin_access_control(&admin(Some("/etc/admin.pub")));
    assert!(result.is_ok());
}

#[test]
fn mod_admin_access_control_rejects_no_public_key() {
    let result = validate_admin_access_control(&admin(None));
    assert_eq!(
        result.unwrap_err(),
        "admin API requires public_key to be configured (Ed25519 auth is mandatory)"
    );
}

#[test]
fn mod_admin_access_control_accepts_with_public_key() {
    assert!(validate_admin_access_control(&admin(Some("/etc/admin.pub"))).is_ok());
}

#[test]
fn tls_validation_order() {
    let s = TlsSettings { admin_api_enabled: false, tls_configured: false, http2_enabled: false };
    assert!(validate_server_tls(&s, true, Ok(()), Err("no tls".into()), Ok(())).is_ok());
    assert_eq!(
        validate_server_tls(&s, false, Ok(()), Err("no tls".into()), Ok(())).unwrap_err(),
        "no tls"
    );
    let s = TlsSettings { admin_api_enabled: true, tls_configured: false, http2_enabled: true };
    assert_eq!(
        validate_server_tls(&s, true, Err("admin tls".into()), Ok(()), Ok(())).unwrap_err(),
        "admin tls"
    );
    assert_eq!(
        validate_server_tls(&s, false, Ok(()), Ok(()), Err("port".into())).unwrap_err(),
        "HTTP/2 requires TLS: add [base.tls] to your config"
    );
    let s = TlsSettings { admin_api_enabled: false, tls_configured: true, http2_enabled: true };
    assert_eq!(
        validate_server_tls(&s, false, Ok(()), Ok(()), Err("port".into())).unwrap_err(),
        "port"
    );
}

#[test]
fn server_error_texts() {
    assert_eq!(ServerError::Config("x".into()).to_text(), "config error: x");
    assert_eq!(ServerError::Bind("y".into()).to_text(), "bind error: y");
    assert_eq!(ServerError::Serve("z".into()).to_text(), "serve error: z");
}

#[test]
fn defaults() {
    assert_eq!(admin_port(None), 9090);
    assert_eq!(admin_port(Some(1)), 1);
    assert_eq!(metrics_port(None), 9091);
    assert_eq!(node_id(None), "node-0");
    assert_eq!(node_id(Some("n1")), "n1");
    assert!(admin_access_checked(false, Some(true)));
    assert!(!admin_access_checked(true, Some(true)));
    assert!(admin_access_checked(true, None));
}

#[test]
fn admin_certificates() {
    match admin_cert_source(Some("c"), Some("k"), None, None).unwrap() {
        AdminCertSource::Configured { cert, key } => assert_eq!((cert.as_str(), key.as_str()), ("c", "k")),
        _ => panic!("expected configured"),
    }
    match admin_cert_source(None, None, None, Some("app")).unwrap() {
        AdminCertSource::Generated { data_dir, app_id } => {
            assert_eq!((data_dir.as_str(), app_id.as_str()), ("data", "app"))
        }
        _ => panic!("expected generated"),
    }
    assert_eq!(
        admin_cert_source(Some("c"), None, None, None).err().unwrap(),
        "cert and key must both be specified or both absent"
    );
}

#[test]
fn storage_plans() {
    let p = storage_plan("none", None, 10);
    assert!(!p.create && p.sentinel_node.is_none() && p.sweep_every_s.is_none());
    let p = storage_plan("redis", None, 0);
    assert!(p.create);
    assert_eq!(p.sentinel_node.as_deref(), Some("node-0"));
    assert_eq!(p.sweep_every_s, None);
    let p = storage_plan("sqlite", Some("a"), 5);
    assert!(p.sentinel_node.is_none());
    assert_eq!(p.sweep_every_s, Some(5));
}

#[test]
fn redirect_server_responds_with_301_location() {
    let location = https_redirect_target(Some("example.com:8080"), 443, Some("/foo?bar=1"));
    assert_eq!(location, "https://example.com/foo?bar=1");
    assert!(location.starts_with("https://"));
    assert_eq!(https_redirect_target(None, 8443, None), "https://localhost:8443/");
}

#[test]
fn static_plugin_inventory_is_complete() {
    let names: Vec<&str> = static_plugin_inventory().iter().map(|(n, _)| *n).collect();
    let expected = [
        "cassandra", "couchdb", "mongodb", "elasticsearch", "influxdb", "ldap", "kafka",
        "rabbitmq", "nats", "redis-streams", "rivers-exec", "neo4j",
    ];
    for name in expected {
        assert!(names.contains(&name), "missing {name}");
    }
    assert_eq!(names.len(), 12);
}

#[test]
fn ignored_drivers_are_not_registered() {
    let ignore = vec!["cassandra".to_string(), "nats".to_string()];
    let names: Vec<&str> = drivers_to_register(&ignore).iter().map(|(n, _)| *n).collect();
    assert!(!names.contains(&"cassandra"), "cassandra should be ignored");
    assert!(!names.contains(&"nats"), "nats should be ignored");
    assert_eq!(names.len(), 10);
}

fn plain_settings() -> TlsSettings {
    TlsSettings { admin_api_enabled: false, tls_configured: false, http2_enabled: false }
}

const MISSING_TLS: &str = "TLS is required: add a [base.tls] section or run with --no-ssl";

#[test]
fn server_run_server_rejects_missing_tls_config() {
    let result = validate_server_tls(&plain_settings(), false, Ok(()), Err(MISSING_TLS.to_string()), Ok(()));
    assert!(result.is_err());
    let msg = result.unwrap_err();
    assert!(msg.contains("TLS is required") || msg.contains("[base.tls]"));
}

#[test]
fn server_run_server_skips_tls_validation_with_no_ssl() {
    let result = validate_server_tls(&plain_settings(), true, Ok(()), Err(MISSING_TLS.to_string()), Ok(()));
    assert!(result.is_ok());
}

#[test]
fn mod_run_server_rejects_missing_tls_config() {
    let result = validate_server_tls(&plain_settings(), false, Ok(()), Err(MISSING_TLS.to_string()), Ok(()));
    assert!(result.is_err());
    let msg = result.unwrap_err();
    assert!(msg.contains("TLS is required") || msg.contains("[base.tls]"));
}

#[test]
fn mod_run_server_skips_tls_validation_with_no_ssl() {
    let result = validate_server_tls(&plain_settings(), true, Ok(()), Err(MISSING_TLS.to_string()), Ok(()));
    assert!(result.is_ok());
}

#[test]
fn server_redirect_server_responds_with_301() {
    let location = https_redirect_target(Some("127.0.0.1:50"), 443, Some("/foo?bar=1"));
    assert!(location.starts_with("https://"), "location was: {location}");
    assert!(location.ends_with("/foo?bar=1"), "location was: {location}");
    assert_eq!(location, "https://127.0.0.1/foo?bar=1");
}

#[test]
fn mod_redirect_server_responds_with_301() {
    let location = https_redirect_target(Some("127.0.0.1:50"), 443, Some("/foo?bar=1"));
    assert!(location.starts_with("https://"), "location was: {location}");
    assert!(location.ends_with("/foo?bar=1"), "location was: {location}");
}

#[test]
fn redirect_server_only_with_tls_redirect_on() {
    assert_eq!(redirect_listener(None, 8443), None);
    assert_eq!(
        redirect_listener(Some(RedirectSettings { redirect: false, redirect_port: 80 }), 8443),
        None
    );
    assert_eq!(
        redirect_listener(Some(RedirectSettings { redirect: true, redirect_port: 8080 }), 8443),
        Some(RedirectListener { listen_port: 8080, https_port: 8443 })
    );
}

#[test]
fn startup_plan_follows_the_config() {
    let bare = StartupInputs {
        admin_api_enabled: false,
        admin_port: Some(1),
        metrics: None,
        tls: None,
        main_port: 443,
        has_storage_engine: false,
        has_app_log_dir: false,
        has_config_path: false,
    };
    assert_eq!(
        startup_plan(&bare),
        StartupPlan {
            admin_port: None,
            metrics_port: None,
            redirect: None,
            session_managers: false,
            app_log_router: false,
            hot_reload: false,
        }
    );
    let full = StartupInputs {
        admin_api_enabled: true,
        admin_port: None,
        metrics: Some((true, None)),
        tls: Some(RedirectSettings { redirect: true, redirect_port: 80 }),
        main_port: 443,
        has_storage_engine: true,
        has_app_log_dir: true,
        has_config_path: true,
    };
    assert_eq!(
        startup_plan(&full),
        StartupPlan {
            admin_port: Some(9090),
            metrics_port: Some(9091),
            redirect: Some(RedirectListener { listen_port: 80, https_port: 443 }),
            session_managers: true,
            app_log_router: true,
            hot_reload: true,
        }
    );
    let metrics_off = StartupInputs { metrics: Some((false, Some(7000))), ..full };
    assert_eq!(startup_plan(&metrics_off).metrics_port, None);
    let metrics_port_set = StartupInputs { metrics: Some((true, Some(7000))), admin_port: Some(9100), ..full };
    assert_eq!(startup_plan(&metrics_port_set).metrics_port, Some(7000));
    assert_eq!(startup_plan(&metrics_port_set).admin_port, Some(9100));
}
