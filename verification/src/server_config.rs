//! Startup rules of the server: configuration validation, the errors the
//! server reports, the defaults it applies, the plain-HTTP redirect to
//! HTTPS and the statically linked driver inventory.

use vstd::prelude::*;
use crate::text::{chars_of, decimal, push_decimal, push_str, str_eq};

verus! {

/// The admin API part of the server configuration.
pub struct AdminApiSettings {
    pub enabled: bool,
    pub port: Option<u16>,
    pub public_key: Option<String>,
    pub no_auth: Option<bool>,
    pub tls_cert: Option<String>,
    pub tls_key: Option<String>,
}

/// The admin API must be configured with a public key: Ed25519 request
/// signing is mandatory.
pub fn validate_admin_access_control(admin: &AdminApiSettings) -> (r: Result<(), String>)
    ensures
        admin.public_key is Some <==> r is Ok,
        r matches Err(m) ==> m@
            == "admin API requires public_key to be configured (Ed25519 auth is mandatory)"@,
{
    if admin.public_key.is_none() {
        return Err(
            "admin API requires public_key to be configured (Ed25519 auth is mandatory)".to_owned(),
        );
    }
    Ok(())
}

/// The TLS-related parts of the server configuration.
pub struct TlsSettings {
    pub admin_api_enabled: bool,
    pub tls_configured: bool,
    pub http2_enabled: bool,
}

/// The outcome of the TLS validation: the admin TLS check when the admin
/// API is enabled; without `--no-ssl`, the main TLS check, the redirect
/// port check when TLS is configured, and the rule that HTTP/2 needs TLS.
/// The checks of the TLS section itself are given as their outcomes.
pub open spec fn tls_validation(
    s: TlsSettings,
    no_ssl: bool,
    admin_tls: Result<(), Seq<char>>,
    tls: Result<(), Seq<char>>,
    redirect: Result<(), Seq<char>>,
) -> Result<(), Seq<char>> {
    if s.admin_api_enabled && admin_tls is Err {
        admin_tls
    } else if no_ssl {
        Ok(())
    } else if tls is Err {
        tls
    } else if s.tls_configured && redirect is Err {
        redirect
    } else if s.http2_enabled && !s.tls_configured {
        Err("HTTP/2 requires TLS: add [base.tls] to your config"@)
    } else {
        Ok(())
    }
}

/// The view of a validation outcome.
pub open spec fn check_view(r: Result<(), String>) -> Result<(), Seq<char>> {
    match r {
        Ok(()) => Ok(()),
        Err(e) => Err(e@),
    }
}

/// Validates the server's TLS configuration.
pub fn validate_server_tls(
    s: &TlsSettings,
    no_ssl: bool,
    admin_tls: Result<(), String>,
    tls: Result<(), String>,
    redirect: Result<(), String>,
) -> (r: Result<(), String>)
    ensures
        check_view(r) == tls_validation(
            *s,
            no_ssl,
            check_view(admin_tls),
            check_view(tls),
            check_view(redirect),
        ),
{
    if s.admin_api_enabled {
        if let Err(e) = admin_tls {
            return Err(e);
        }
    }
    if no_ssl {
        return Ok(());
    }
    if let Err(e) = tls {
        return Err(e);
    }
    if s.tls_configured {
        if let Err(e) = redirect {
            return Err(e);
        }
    }
    if s.http2_enabled && !s.tls_configured {
        return Err("HTTP/2 requires TLS: add [base.tls] to your config".to_owned());
    }
    Ok(())
}

/// Server startup and run errors.
#[derive(Debug)]
pub enum ServerError {
    Config(String),
    Bind(String),
    Serve(String),
}

impl ServerError {
    /// The error's message: `config error: `, `bind error: ` or
    /// `serve error: ` followed by the cause.
    pub fn to_text(&self) -> (r: String)
        ensures
            r@ == match self {
                ServerError::Config(m) => "config error: "@ + m@,
                ServerError::Bind(m) => "bind error: "@ + m@,
                ServerError::Serve(m) => "serve error: "@ + m@,
            },
    {
        let mut s = String::new();
        match self {
            ServerError::Config(m) => {
                push_str(&mut s, "config error: ");
                push_str(&mut s, m.as_str());
            },
            ServerError::Bind(m) => {
                push_str(&mut s, "bind error: ");
                push_str(&mut s, m.as_str());
            },
            ServerError::Serve(m) => {
                push_str(&mut s, "serve error: ");
                push_str(&mut s, m.as_str());
            },
        }
        s
    }
}

/// The admin API port (9090 when not configured).
pub fn admin_port(port: Option<u16>) -> (r: u16)
    ensures
        r == match port {
            Some(p) => p,
            None => 9090u16,
        },
{
    match port {
        Some(p) => p,
        None => 9090,
    }
}

/// The metrics exporter port (9091 when not configured).
pub fn metrics_port(port: Option<u16>) -> (r: u16)
    ensures
        r == match port {
            Some(p) => p,
            None => 9091u16,
        },
{
    match port {
        Some(p) => p,
        None => 9091,
    }
}

/// The node identity used for the storage sentinel and the log handler:
/// the configured app id, or `node-0`.
pub fn node_id(app_id: Option<&str>) -> (r: String)
    ensures
        r@ == match app_id {
            Some(a) => a@,
            None => "node-0"@,
        },
{
    match app_id {
        Some(a) => a.to_owned(),
        None => "node-0".to_owned(),
    }
}

/// Whether startup checks the admin access control: always with TLS; in
/// plain-HTTP mode only when authentication is not switched off.
pub fn admin_access_checked(no_ssl: bool, no_auth: Option<bool>) -> (r: bool)
    ensures
        r == (!no_ssl || no_auth != Some(true)),
{
    !no_ssl || !(match no_auth {
        Some(b) => b,
        None => false,
    })
}

/// Where the admin API's TLS certificate comes from.
pub enum AdminCertSource {
    /// Configured certificate and key paths.
    Configured { cert: String, key: String },
    /// A certificate generated under the data directory for the app id.
    Generated { data_dir: String, app_id: String },
}

/// The admin certificate source: both paths configured, or neither (a
/// certificate is generated under the data directory, `data` by default,
/// for the app id, `default` by default); one without the other is a
/// configuration error.
pub fn admin_cert_source(
    cert: Option<&str>,
    key: Option<&str>,
    data_dir: Option<&str>,
    app_id: Option<&str>,
) -> (r: Result<AdminCertSource, String>)
    ensures
        match (cert, key) {
            (Some(c), Some(k)) => r matches Ok(AdminCertSource::Configured { cert: rc, key: rk })
                && rc@ == c@ && rk@ == k@,
            (None, None) => r matches Ok(AdminCertSource::Generated { data_dir: d, app_id: a })
                && d@ == (match data_dir {
                Some(x) => x@,
                None => "data"@,
            }) && a@ == (match app_id {
                Some(x) => x@,
                None => "default"@,
            }),
            _ => r matches Err(m) && m@ == "cert and key must both be specified or both absent"@,
        },
{
    match (cert, key) {
        (Some(c), Some(k)) => Ok(AdminCertSource::Configured { cert: c.to_owned(), key: k.to_owned() }),
        (None, None) => {
            let d = match data_dir {
                Some(x) => x.to_owned(),
                None => "data".to_owned(),
            };
            let a = match app_id {
                Some(x) => x.to_owned(),
                None => "default".to_owned(),
            };
            Ok(AdminCertSource::Generated { data_dir: d, app_id: a })
        },
        _ => Err("cert and key must both be specified or both absent".to_owned()),
    }
}

/// What startup does with the storage engine configuration.
pub struct StoragePlan {
    /// Create the engine.
    pub create: bool,
    /// Claim the cluster sentinel under this node id (Redis only).
    pub sentinel_node: Option<String>,
    /// Sweep expired entries every so many seconds.
    pub sweep_every_s: Option<u64>,
}

/// The storage plan: no engine for backend `none`; otherwise create it,
/// claim the sentinel under the node id for `redis`, and sweep when the
/// interval is positive.
pub fn storage_plan(backend: &str, app_id: Option<&str>, sweep_interval_s: u64) -> (r: StoragePlan)
    ensures
        r.create == (backend@ != "none"@),
        r.create && backend@ == "redis"@ ==> (r.sentinel_node matches Some(n) && n@ == (match app_id {
            Some(a) => a@,
            None => "node-0"@,
        })),
        !(r.create && backend@ == "redis"@) ==> r.sentinel_node is None,
        r.sweep_every_s == if r.create && sweep_interval_s > 0 {
            Some(sweep_interval_s)
        } else {
            None::<u64>
        },
{
    let create = !str_eq(backend, "none");
    let sentinel_node = if create && str_eq(backend, "redis") {
        Some(node_id(app_id))
    } else {
        None
    };
    let sweep_every_s = if create && sweep_interval_s > 0 {
        Some(sweep_interval_s)
    } else {
        None
    };
    StoragePlan { create, sentinel_node, sweep_every_s }
}

/// The error reported when the storage sentinel cannot be claimed.
pub fn sentinel_error(cause: &str) -> (r: ServerError)
    ensures
        r matches ServerError::Config(m) && m@ == "sentinel claim failed (another node active?): "@
            + cause@,
{
    let mut m = String::new();
    push_str(&mut m, "sentinel claim failed (another node active?): ");
    push_str(&mut m, cause);
    ServerError::Config(m)
}

/// The host part of a `Host` header: the text before the first `:`.
pub open spec fn host_name(h: Seq<char>) -> Seq<char> {
    h.take(crate::query::first_index(h, ':'))
}

/// The HTTPS location a plain-HTTP request is redirected to: the request's
/// host (`localhost` without a `Host` header) without its port, the HTTPS
/// port unless it is 443, and the path and query (`/` when absent).
pub open spec fn https_location(host: Option<Seq<char>>, https_port: u16, path_and_query: Option<
    Seq<char>,
>) -> Seq<char> {
    "https://"@ + host_name(
        match host {
            Some(h) => h,
            None => "localhost"@,
        },
    ) + (if https_port == 443 {
        Seq::empty()
    } else {
        ":"@ + decimal(https_port as nat)
    }) + match path_and_query {
        Some(p) => p,
        None => "/"@,
    }
}

/// The redirect target for a plain-HTTP request.
pub fn https_redirect_target(host: Option<&str>, https_port: u16, path_and_query: Option<&str>) -> (r:
    String)
    ensures
        r@ == https_location(
            match host {
                Some(h) => Some(h@),
                None => None,
            },
            https_port,
            match path_and_query {
                Some(p) => Some(p@),
                None => None,
            },
        ),
{
    let h = match host {
        Some(h) => chars_of(h),
        None => chars_of("localhost"),
    };
    let mut n: usize = 0;
    proof {
        assert(h@.skip(0) =~= h@);
    }
    while n < h.len() && h[n] != ':'
        invariant
            n <= h@.len(),
            crate::query::first_index(h@, ':') == n + crate::query::first_index(h@.skip(n as int), ':'),
        decreases h@.len() - n,
    {
        proof {
            assert(h@.skip(n as int).drop_first() =~= h@.skip(n + 1));
        }
        n = n + 1;
    }
    proof {
        assert(crate::query::first_index(h@.skip(n as int), ':') == 0);
    }
    let name = crate::text::slice_prefix(h.as_slice(), n);
    let mut out = String::new();
    push_str(&mut out, "https://");
    let name_s = crate::text::string_of(name.as_slice());
    push_str(&mut out, name_s.as_str());
    if https_port != 443 {
        push_str(&mut out, ":");
        push_decimal(&mut out, https_port as u64);
    }
    match path_and_query {
        Some(p) => push_str(&mut out, p),
        None => push_str(&mut out, "/"),
    }
    proof {
        assert(name@ == host_name(
            match host {
                Some(x) => x@,
                None => "localhost"@,
            },
        ));
        assert(out@ =~= https_location(
            match host {
                Some(x) => Some(x@),
                None => None,
            },
            https_port,
            match path_and_query {
                Some(p) => Some(p@),
                None => None,
            },
        ));
    }
    out
}

/// The kind of a statically linked driver.
#[derive(PartialEq, Eq, Structural, Clone, Copy, Debug)]
pub enum DriverKind {
    Database,
    Broker,
}

/// The statically linked plugin drivers, in registration order.
pub open spec fn plugin_inventory() -> Seq<(Seq<char>, DriverKind)> {
    seq![
        ("cassandra"@, DriverKind::Database),
        ("couchdb"@, DriverKind::Database),
        ("mongodb"@, DriverKind::Database),
        ("elasticsearch"@, DriverKind::Database),
        ("influxdb"@, DriverKind::Database),
        ("ldap"@, DriverKind::Database),
        ("kafka"@, DriverKind::Broker),
        ("rabbitmq"@, DriverKind::Broker),
        ("nats"@, DriverKind::Broker),
        ("redis-streams"@, DriverKind::Broker),
        ("rivers-exec"@, DriverKind::Database),
        ("neo4j"@, DriverKind::Database),
    ]
}

/// The statically linked plugin drivers.
pub fn static_plugin_inventory() -> (r: Vec<(&'static str, DriverKind)>)
    ensures
        r@.len() == plugin_inventory().len(),
        forall|i: int|
            0 <= i < r@.len() ==> r@[i].0@ == plugin_inventory()[i].0 && r@[i].1
                == plugin_inventory()[i].1,
{
    let r = vec![
        ("cassandra", DriverKind::Database),
        ("couchdb", DriverKind::Database),
        ("mongodb", DriverKind::Database),
        ("elasticsearch", DriverKind::Database),
        ("influxdb", DriverKind::Database),
        ("ldap", DriverKind::Database),
        ("kafka", DriverKind::Broker),
        ("rabbitmq", DriverKind::Broker),
        ("nats", DriverKind::Broker),
        ("redis-streams", DriverKind::Broker),
        ("rivers-exec", DriverKind::Database),
        ("neo4j", DriverKind::Database),
    ];
    r
}

/// Whether `name` is on the ignore list.
pub open spec fn ignored(name: Seq<char>, ignore: Seq<Seq<char>>) -> bool {
    exists|j: int| 0 <= j < ignore.len() && ignore[j] == name
}

/// The plugin drivers to register: the inventory without the ignored
/// ones, in inventory order.
pub fn drivers_to_register(ignore: &Vec<String>) -> (r: Vec<(&'static str, DriverKind)>)
    ensures
        forall|i: int|
            0 <= i < r@.len() ==> !ignored(r@[i].0@, crate::text::strings_view(ignore@)) && exists|
                k: int,
            |
                0 <= k < plugin_inventory().len() && plugin_inventory()[k].0 == r@[i].0@
                    && plugin_inventory()[k].1 == r@[i].1,
        forall|k: int|
            0 <= k < plugin_inventory().len() && !ignored(
                plugin_inventory()[k].0,
                crate::text::strings_view(ignore@),
            ) ==> exists|i: int| 0 <= i < r@.len() && r@[i].0@ == plugin_inventory()[k].0,
{
    let all = static_plugin_inventory();
    let ghost iv = crate::text::strings_view(ignore@);
    let mut r: Vec<(&'static str, DriverKind)> = Vec::new();
    let mut i: usize = 0;
    while i < all.len()
        invariant
            iv == crate::text::strings_view(ignore@),
            all@.len() == plugin_inventory().len(),
            forall|x: int|
                0 <= x < all@.len() ==> all@[x].0@ == plugin_inventory()[x].0 && all@[x].1
                    == plugin_inventory()[x].1,
            i <= all@.len(),
            forall|x: int|
                0 <= x < r@.len() ==> !ignored(r@[x].0@, iv) && exists|k: int|
                    0 <= k < plugin_inventory().len() && plugin_inventory()[k].0 == r@[x].0@
                        && plugin_inventory()[k].1 == r@[x].1,
            forall|k: int|
                0 <= k < i && !ignored(plugin_inventory()[k].0, iv) ==> exists|x: int|
                    0 <= x < r@.len() && r@[x].0@ == plugin_inventory()[k].0,
        decreases all@.len() - i,
    {
        let (name, kind) = all[i];
        let mut skip = false;
        let mut j: usize = 0;
        while j < ignore.len()
            invariant
                iv == crate::text::strings_view(ignore@),
                j <= ignore@.len(),
                skip <==> exists|m: int| 0 <= m < j && iv[m] == name@,
            decreases ignore@.len() - j,
        {
            proof {
                assert(iv[j as int] == ignore@[j as int]@);
            }
            if str_eq(ignore[j].as_str(), name) {
                skip = true;
            }
            proof {
                if skip {
                    assert(exists|m: int| 0 <= m < j + 1 && iv[m] == name@);
                } else {
                    assert forall|m: int| 0 <= m < j + 1 implies iv[m] != name@ by {
                        if m < j {
                        }
                    }
                }
            }
            j = j + 1;
        }
        if !skip {
            let ghost before = r@;
            r.push((name, kind));
            proof {
                assert(r@[before.len() as int].0@ == plugin_inventory()[i as int].0);
                assert forall|k: int|
                    0 <= k < i + 1 && !ignored(plugin_inventory()[k].0, iv) implies exists|x: int|
                    0 <= x < r@.len() && r@[x].0@ == plugin_inventory()[k].0 by {
                    if k < i {
                        let x = choose|x: int|
                            0 <= x < before.len() && before[x].0@ == plugin_inventory()[k].0;
                        assert(r@[x] == before[x]);
                    } else {
                        assert(r@[before.len() as int].0@ == plugin_inventory()[k].0);
                    }
                }
                assert forall|x: int| 0 <= x < r@.len() implies !ignored(r@[x].0@, iv) && exists|
                    k: int,
                |
                    0 <= k < plugin_inventory().len() && plugin_inventory()[k].0 == r@[x].0@
                        && plugin_inventory()[k].1 == r@[x].1 by {
                    if x < before.len() {
                        assert(r@[x] == before[x]);
                    } else {
                        assert(plugin_inventory()[i as int].0 == r@[x].0@);
                    }
                }
            }
        }
        i = i + 1;
    }
    r
}

/// The TLS section's redirect settings: whether plain HTTP is redirected,
/// and the port the redirect server listens on.
#[derive(Clone, Copy, Debug)]
pub struct RedirectSettings {
    pub redirect: bool,
    pub redirect_port: u16,
}

/// A plain-HTTP redirect server: the port it listens on and the HTTPS
/// port it sends clients to.
#[derive(Clone, Copy, Debug, PartialEq, Eq, Structural)]
pub struct RedirectListener {
    pub listen_port: u16,
    pub https_port: u16,
}

/// The plain-HTTP redirect server to start, if any: when TLS is configured
/// and its redirect is on, one listening on the redirect port and pointing
/// at the main (HTTPS) port.
pub open spec fn redirect_listener_spec(tls: Option<RedirectSettings>, main_port: u16) -> Option<
    RedirectListener,
> {
    match tls {
        Some(t) => if t.redirect {
            Some(RedirectListener { listen_port: t.redirect_port, https_port: main_port })
        } else {
            None
        },
        None => None,
    }
}

/// Chooses the plain-HTTP redirect server to start, if any.
pub fn redirect_listener(tls: Option<RedirectSettings>, main_port: u16) -> (r: Option<
    RedirectListener,
>)
    ensures
        r == redirect_listener_spec(tls, main_port),
{
    match tls {
        Some(t) => if t.redirect {
            Some(RedirectListener { listen_port: t.redirect_port, https_port: main_port })
        } else {
            None
        },
        None => None,
    }
}

/// What the server's configuration and context say about startup.
#[derive(Clone, Copy, Debug)]
pub struct StartupInputs {
    pub admin_api_enabled: bool,
    pub admin_port: Option<u16>,
    /// The metrics section, when there is one: whether it is enabled, and
    /// its port.
    pub metrics: Option<(bool, Option<u16>)>,
    /// The TLS section's redirect settings, when TLS is configured.
    pub tls: Option<RedirectSettings>,
    pub main_port: u16,
    pub has_storage_engine: bool,
    pub has_app_log_dir: bool,
    pub has_config_path: bool,
}

/// What the server starts besides the main listener.
#[derive(Clone, Copy, Debug, PartialEq, Eq, Structural)]
pub struct StartupPlan {
    /// Port of the admin API server, when the admin API is enabled.
    pub admin_port: Option<u16>,
    /// Port of the Prometheus exporter, when metrics are enabled.
    pub metrics_port: Option<u16>,
    /// The plain-HTTP redirect server.
    pub redirect: Option<RedirectListener>,
    /// Whether the session and CSRF managers are built (there is a storage
    /// engine).
    pub session_managers: bool,
    /// Whether the per-app log router is made (an app log directory is
    /// configured).
    pub app_log_router: bool,
    /// Whether the hot-reload watcher runs (the server knows its config
    /// path).
    pub hot_reload: bool,
}

/// The startup plan for given inputs: the admin server on its port (9090
/// by default) when the admin API is enabled; the metrics exporter on its
/// port (9091 by default) when a metrics section enables it; the redirect
/// server as `redirect_listener_spec` says; the session managers, the app
/// log router and the hot-reload watcher when their inputs are there.
pub open spec fn startup_plan_spec(i: StartupInputs) -> StartupPlan {
    StartupPlan {
        admin_port: if i.admin_api_enabled {
            Some(
                match i.admin_port {
                    Some(p) => p,
                    None => 9090u16,
                },
            )
        } else {
            None
        },
        metrics_port: match i.metrics {
            Some((true, p)) => Some(
                match p {
                    Some(q) => q,
                    None => 9091u16,
                },
            ),
            _ => None,
        },
        redirect: redirect_listener_spec(i.tls, i.main_port),
        session_managers: i.has_storage_engine,
        app_log_router: i.has_app_log_dir,
        hot_reload: i.has_config_path,
    }
}

/// Decides what the server starts besides the main listener.
pub fn startup_plan(i: &StartupInputs) -> (r: StartupPlan)
    ensures
        r == startup_plan_spec(*i),
{
    let admin = if i.admin_api_enabled {
        Some(admin_port(i.admin_port))
    } else {
        None
    };
    let metrics = match i.metrics {
        Some((true, p)) => Some(metrics_port(p)),
        _ => None,
    };
    StartupPlan {
        admin_port: admin,
        metrics_port: metrics,
        redirect: redirect_listener(i.tls, i.main_port),
        session_managers: i.has_storage_engine,
        app_log_router: i.has_app_log_dir,
        hot_reload: i.has_config_path,
    }
}

/// The names among `names` that are not on the ignore list, in order.
pub open spec fn not_ignored(names: Seq<Seq<char>>, ignore: Seq<Seq<char>>) -> Seq<Seq<char>>
    decreases names.len(),
{
    if names.len() == 0 {
        Seq::empty()
    } else if ignored(names.last(), ignore) {
        not_ignored(names.drop_last(), ignore)
    } else {
        not_ignored(names.drop_last(), ignore).push(names.last())
    }
}

/// The names among `names` that are on the ignore list, in order.
pub open spec fn only_ignored(names: Seq<Seq<char>>, ignore: Seq<Seq<char>>) -> Seq<Seq<char>>
    decreases names.len(),
{
    if names.len() == 0 {
        Seq::empty()
    } else if ignored(names.last(), ignore) {
        only_ignored(names.drop_last(), ignore).push(names.last())
    } else {
        only_ignored(names.drop_last(), ignore)
    }
}

fn is_ignored(name: &str, ignore: &Vec<String>) -> (r: bool)
    ensures
        r == ignored(name@, crate::text::strings_view(ignore@)),
{
    let ghost iv = crate::text::strings_view(ignore@);
    let mut j: usize = 0;
    while j < ignore.len()
        invariant
            iv == crate::text::strings_view(ignore@),
            j <= ignore@.len(),
            forall|m: int| 0 <= m < j ==> iv[m] != name@,
        decreases ignore@.len() - j,
    {
        if str_eq(ignore[j].as_str(), name) {
            proof {
                assert(iv[j as int] == name@);
            }
            return true;
        }
        j = j + 1;
    }
    false
}

/// Splits the driver names a dynamically loaded library or plugin
/// provides by the `[plugins].ignore` list: the names to keep registered,
/// and the ignored ones (which bundles then cannot use), each in the
/// library's order.
pub fn split_ignored_drivers(names: &Vec<String>, ignore: &Vec<String>) -> (r: (
    Vec<String>,
    Vec<String>,
))
    ensures
        crate::text::strings_view(r.0@) == not_ignored(
            crate::text::strings_view(names@),
            crate::text::strings_view(ignore@),
        ),
        crate::text::strings_view(r.1@) == only_ignored(
            crate::text::strings_view(names@),
            crate::text::strings_view(ignore@),
        ),
{
    let ghost nv = crate::text::strings_view(names@);
    let ghost iv = crate::text::strings_view(ignore@);
    let mut kept: Vec<String> = Vec::new();
    let mut dropped: Vec<String> = Vec::new();
    let mut i: usize = 0;
    while i < names.len()
        invariant
            nv == crate::text::strings_view(names@),
            iv == crate::text::strings_view(ignore@),
            i <= names@.len(),
            crate::text::strings_view(kept@) == not_ignored(nv.take(i as int), iv),
            crate::text::strings_view(dropped@) == only_ignored(nv.take(i as int), iv),
        decreases names@.len() - i,
    {
        let ghost pre_k = kept@;
        let ghost pre_d = dropped@;
        proof {
            assert(nv.take(i + 1).drop_last() =~= nv.take(i as int));
            assert(nv.take(i + 1).last() == names@[i as int]@);
        }
        let n = names[i].clone();
        if is_ignored(names[i].as_str(), ignore) {
            dropped.push(n);
            proof {
                assert(crate::text::strings_view(dropped@) =~= crate::text::strings_view(pre_d).push(
                    names@[i as int]@,
                ));
            }
        } else {
            kept.push(n);
            proof {
                assert(crate::text::strings_view(kept@) =~= crate::text::strings_view(pre_k).push(
                    names@[i as int]@,
                ));
            }
        }
        i = i + 1;
    }
    proof {
        assert(nv.take(names@.len() as int) =~= nv);
    }
    (kept, dropped)
}

/// Every name a dynamically loaded library provides ends up on exactly one
/// side of the split: the kept names are never on the ignore list, the
/// ignored ones always are, and together they hold as many names as the
/// library.
pub proof fn law_ignore_list_applies_to_loaded_drivers(names: Seq<Seq<char>>, ignore: Seq<Seq<char>>)
    ensures
        forall|i: int|
            0 <= i < not_ignored(names, ignore).len() ==> !ignored(
                #[trigger] not_ignored(names, ignore)[i],
                ignore,
            ),
        forall|i: int|
            0 <= i < only_ignored(names, ignore).len() ==> ignored(
                #[trigger] only_ignored(names, ignore)[i],
                ignore,
            ),
        not_ignored(names, ignore).len() + only_ignored(names, ignore).len() == names.len(),
    decreases names.len(),
{
    if names.len() > 0 {
        law_ignore_list_applies_to_loaded_drivers(names.drop_last(), ignore);
    }
}

} // verus!
