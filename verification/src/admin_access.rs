//! Access control for the admin API: the permission each admin path needs,
//! the role table built from the RBAC configuration, and the decision the
//! signature-checking middleware takes for a request.

use vstd::prelude::*;
use crate::crypto::{admin_body_hash, decode_signature_hex, hex_bytes, hex_lower, is_hex_pairs, sha256_digest};
use crate::text::{chars_of, str_eq, starts_with};

verus! {

/// A permission of the admin API.
#[derive(PartialEq, Eq, Structural, Clone, Copy, Debug)]
pub enum AdminPermission {
    StatusRead,
    DeployWrite,
    DeployApprove,
    DeployPromote,
    DeployRead,
    Admin,
}

/// The permission an admin path requires, if any.
pub open spec fn permission_for_path(path: Seq<char>) -> Option<AdminPermission> {
    if path == "/admin/status"@ || path == "/admin/drivers"@ || path == "/admin/datasources"@ {
        Some(AdminPermission::StatusRead)
    } else if path == "/admin/deploy"@ || path == "/admin/deploy/test"@ {
        Some(AdminPermission::DeployWrite)
    } else if path == "/admin/deploy/approve"@ || path == "/admin/deploy/reject"@ {
        Some(AdminPermission::DeployApprove)
    } else if path == "/admin/deploy/promote"@ {
        Some(AdminPermission::DeployPromote)
    } else if path == "/admin/deployments"@ {
        Some(AdminPermission::DeployRead)
    } else if crate::text::has_prefix(path, "/admin/log"@) {
        Some(AdminPermission::Admin)
    } else if path == "/admin/shutdown"@ {
        Some(AdminPermission::Admin)
    } else {
        None
    }
}

/// The permission an admin path requires: status reads for status,
/// drivers and datasources; deploy write, approve, promote and read for
/// the deployment endpoints; full admin for log control and shutdown.
/// Other paths need none.
pub fn path_to_admin_permission(path: &str) -> (r: Option<AdminPermission>)
    ensures
        r == permission_for_path(path@),
{
    if str_eq(path, "/admin/status") || str_eq(path, "/admin/drivers") || str_eq(
        path,
        "/admin/datasources",
    ) {
        Some(AdminPermission::StatusRead)
    } else if str_eq(path, "/admin/deploy") || str_eq(path, "/admin/deploy/test") {
        Some(AdminPermission::DeployWrite)
    } else if str_eq(path, "/admin/deploy/approve") || str_eq(path, "/admin/deploy/reject") {
        Some(AdminPermission::DeployApprove)
    } else if str_eq(path, "/admin/deploy/promote") {
        Some(AdminPermission::DeployPromote)
    } else if str_eq(path, "/admin/deployments") {
        Some(AdminPermission::DeployRead)
    } else {
        let p = chars_of(path);
        let prefix = chars_of("/admin/log");
        if starts_with(p.as_slice(), prefix.as_slice()) {
            Some(AdminPermission::Admin)
        } else if str_eq(path, "/admin/shutdown") {
            Some(AdminPermission::Admin)
        } else {
            None
        }
    }
}

/// The permission named in the RBAC configuration, if the name is known.
pub open spec fn permission_named(name: Seq<char>) -> Option<AdminPermission> {
    if name == "status_read"@ {
        Some(AdminPermission::StatusRead)
    } else if name == "deploy_write"@ {
        Some(AdminPermission::DeployWrite)
    } else if name == "deploy_approve"@ {
        Some(AdminPermission::DeployApprove)
    } else if name == "deploy_promote"@ {
        Some(AdminPermission::DeployPromote)
    } else if name == "deploy_read"@ {
        Some(AdminPermission::DeployRead)
    } else if name == "admin"@ {
        Some(AdminPermission::Admin)
    } else {
        None
    }
}

/// Reads a permission name.
pub fn permission_from_name(name: &str) -> (r: Option<AdminPermission>)
    ensures
        r == permission_named(name@),
{
    if str_eq(name, "status_read") {
        Some(AdminPermission::StatusRead)
    } else if str_eq(name, "deploy_write") {
        Some(AdminPermission::DeployWrite)
    } else if str_eq(name, "deploy_approve") {
        Some(AdminPermission::DeployApprove)
    } else if str_eq(name, "deploy_promote") {
        Some(AdminPermission::DeployPromote)
    } else if str_eq(name, "deploy_read") {
        Some(AdminPermission::DeployRead)
    } else if str_eq(name, "admin") {
        Some(AdminPermission::Admin)
    } else {
        None
    }
}

/// The known permissions among `names`, in order; unknown names are
/// skipped.
pub open spec fn known_permissions(names: Seq<Seq<char>>) -> Seq<AdminPermission>
    decreases names.len(),
{
    if names.len() == 0 {
        Seq::empty()
    } else {
        match permission_named(names.last()) {
            Some(p) => known_permissions(names.drop_last()).push(p),
            None => known_permissions(names.drop_last()),
        }
    }
}

/// The RBAC section of the admin API configuration: permission names per
/// role, and role bindings per identity.
pub struct RbacConfig {
    pub roles: Vec<(String, Vec<String>)>,
    pub bindings: Vec<(String, String)>,
}

/// The admin authorization table.
pub struct AdminAuthConfig {
    pub roles: Vec<(String, Vec<AdminPermission>)>,
    pub identity_roles: Vec<(String, String)>,
    pub no_auth: bool,
}

/// Reads the permission names of one role.
pub fn role_permissions(names: &Vec<String>) -> (r: Vec<AdminPermission>)
    ensures
        r@ == known_permissions(crate::text::strings_view(names@)),
{
    let ghost v = crate::text::strings_view(names@);
    let mut r: Vec<AdminPermission> = Vec::new();
    let mut i: usize = 0;
    while i < names.len()
        invariant
            v == crate::text::strings_view(names@),
            i <= names@.len(),
            r@ == known_permissions(v.take(i as int)),
        decreases names@.len() - i,
    {
        proof {
            assert(v.take(i + 1).drop_last() =~= v.take(i as int));
            assert(v.take(i + 1).last() == names@[i as int]@);
        }
        match permission_from_name(names[i].as_str()) {
            Some(p) => r.push(p),
            None => {},
        }
        i = i + 1;
    }
    proof {
        assert(v.take(names@.len() as int) =~= v);
    }
    r
}

/// Builds the admin authorization table from the RBAC configuration:
/// each role with its known permissions (unknown permission names are
/// skipped), the identity bindings as configured, and the no-auth flag
/// (off unless set).
pub fn build_admin_auth_config_for_rbac(rbac: Option<&RbacConfig>, no_auth: Option<bool>) -> (r:
    AdminAuthConfig)
    ensures
        r.no_auth == (no_auth == Some(true)),
        match rbac {
            None => r.roles@.len() == 0 && r.identity_roles@.len() == 0,
            Some(c) => {
                &&& r.roles@.len() == c.roles@.len()
                &&& forall|i: int|
                    0 <= i < c.roles@.len() ==> r.roles@[i].0@ == c.roles@[i].0@ && r.roles@[i].1@
                        == known_permissions(crate::text::strings_view(c.roles@[i].1@))
                &&& r.identity_roles@.len() == c.bindings@.len()
                &&& forall|i: int|
                    0 <= i < c.bindings@.len() ==> r.identity_roles@[i].0@ == c.bindings@[i].0@
                        && r.identity_roles@[i].1@ == c.bindings@[i].1@
            },
        },
{
    let flag = match no_auth {
        Some(b) => b,
        None => false,
    };
    let mut roles: Vec<(String, Vec<AdminPermission>)> = Vec::new();
    let mut bindings: Vec<(String, String)> = Vec::new();
    match rbac {
        None => {},
        Some(c) => {
            let mut i: usize = 0;
            while i < c.roles.len()
                invariant
                    i <= c.roles@.len(),
                    roles@.len() == i,
                    forall|j: int|
                        0 <= j < i ==> roles@[j].0@ == c.roles@[j].0@ && roles@[j].1@
                            == known_permissions(crate::text::strings_view(c.roles@[j].1@)),
                decreases c.roles@.len() - i,
            {
                let perms = role_permissions(&c.roles[i].1);
                roles.push((c.roles[i].0.clone(), perms));
                i = i + 1;
            }
            let mut k: usize = 0;
            while k < c.bindings.len()
                invariant
                    k <= c.bindings@.len(),
                    bindings@.len() == k,
                    forall|j: int|
                        0 <= j < k ==> bindings@[j].0@ == c.bindings@[j].0@ && bindings@[j].1@
                            == c.bindings@[j].1@,
                decreases c.bindings@.len() - k,
            {
                bindings.push((c.bindings[k].0.clone(), c.bindings[k].1.clone()));
                k = k + 1;
            }
        },
    }
    AdminAuthConfig { roles, identity_roles: bindings, no_auth: flag }
}

/// What the admin middleware does with a request.
#[derive(PartialEq, Eq, Structural, Clone, Copy, Debug)]
pub enum AdminAuthOutcome {
    /// Pass the request on.
    Pass,
    /// 500: the configured public key does not parse.
    Misconfigured,
    /// 401: a signature or timestamp header is missing.
    MissingHeaders,
    /// 401: the timestamp is outside the accepted window.
    StaleTimestamp,
    /// 401: the signature is not hexadecimal.
    BadSignatureEncoding,
    /// 413: the body could not be read within the limit.
    BodyTooLarge,
    /// 401: the signature does not verify.
    SignatureRejected,
    /// 403: the caller's address is not on the allowlist.
    IpNotAllowed,
    /// 403: the caller lacks the permission the path needs.
    PermissionDenied,
}

/// The results of the checks the middleware makes for a request, in the
/// order it makes them.
pub struct AdminRequestChecks {
    /// Authentication is switched off for the admin API.
    pub no_auth: bool,
    /// The configured public key parses.
    pub key_parses: bool,
    /// The signature and timestamp headers are both present.
    pub headers_present: bool,
    /// The timestamp is within the accepted window.
    pub timestamp_fresh: bool,
    /// The signature header as `decode_signature_hex` decodes it: `None`
    /// when it is not pairs of hexadecimal digits (or is missing).
    pub signature: Option<Vec<u8>>,
    /// `admin_body_hash` of the body, which the signature covers with the
    /// method, the path and the timestamp: `None` when the body could not
    /// be read within the size limit.
    pub body_hash: Option<String>,
    /// The signature verifies over method, path, timestamp and body hash.
    pub signature_valid: bool,
    /// The allowlist is empty or holds the caller's address.
    pub ip_allowed: bool,
    /// The path needs no permission, or the caller's identity has it.
    pub permitted: bool,
}

/// The middleware's decision: checks in order, the first failing one
/// decides; with authentication switched off every request passes.
pub open spec fn admin_outcome(c: AdminRequestChecks) -> AdminAuthOutcome {
    if c.no_auth {
        AdminAuthOutcome::Pass
    } else if !c.key_parses {
        AdminAuthOutcome::Misconfigured
    } else if !c.headers_present {
        AdminAuthOutcome::MissingHeaders
    } else if !c.timestamp_fresh {
        AdminAuthOutcome::StaleTimestamp
    } else if c.signature is None {
        AdminAuthOutcome::BadSignatureEncoding
    } else if c.body_hash is None {
        AdminAuthOutcome::BodyTooLarge
    } else if !c.signature_valid {
        AdminAuthOutcome::SignatureRejected
    } else if !c.ip_allowed {
        AdminAuthOutcome::IpNotAllowed
    } else if !c.permitted {
        AdminAuthOutcome::PermissionDenied
    } else {
        AdminAuthOutcome::Pass
    }
}

/// Decides what the admin middleware does with a request.
pub fn admin_auth_decision(c: &AdminRequestChecks) -> (r: AdminAuthOutcome)
    ensures
        r == admin_outcome(*c),
{
    if c.no_auth {
        AdminAuthOutcome::Pass
    } else if !c.key_parses {
        AdminAuthOutcome::Misconfigured
    } else if !c.headers_present {
        AdminAuthOutcome::MissingHeaders
    } else if !c.timestamp_fresh {
        AdminAuthOutcome::StaleTimestamp
    } else if c.signature.is_none() {
        AdminAuthOutcome::BadSignatureEncoding
    } else if c.body_hash.is_none() {
        AdminAuthOutcome::BodyTooLarge
    } else if !c.signature_valid {
        AdminAuthOutcome::SignatureRejected
    } else if !c.ip_allowed {
        AdminAuthOutcome::IpNotAllowed
    } else if !c.permitted {
        AdminAuthOutcome::PermissionDenied
    } else {
        AdminAuthOutcome::Pass
    }
}

/// The checks for a request, from its raw parts: the signature header is
/// decoded with `decode_signature_hex` and the body hashed with
/// `admin_body_hash` (`body` is `None` when it could not be read within
/// the size limit); both headers must be there. The outcomes of the checks
/// made elsewhere (the key, the timestamp window, the signature over
/// method, path, timestamp and body hash, the allowlist, and the
/// permission of the identity `admin_identity` gives) are passed in.
pub fn admin_request_checks(
    no_auth: bool,
    key_parses: bool,
    signature_header: Option<&str>,
    timestamp_header: Option<&str>,
    timestamp_fresh: bool,
    body: Option<&[u8]>,
    signature_valid: bool,
    ip_allowed: bool,
    permitted: bool,
) -> (r: AdminRequestChecks)
    ensures
        r.no_auth == no_auth,
        r.key_parses == key_parses,
        r.headers_present == (signature_header is Some && timestamp_header is Some),
        r.timestamp_fresh == timestamp_fresh,
        match signature_header {
            Some(h) => (r.signature is Some <==> is_hex_pairs(h@)) && (r.signature matches Some(
                b,
            ) ==> b@ == hex_bytes(h@)),
            None => r.signature is None,
        },
        match body {
            Some(b) => r.body_hash matches Some(h) && h@ == hex_lower(sha256_digest(b@)),
            None => r.body_hash is None,
        },
        r.signature_valid == signature_valid,
        r.ip_allowed == ip_allowed,
        r.permitted == permitted,
{
    let signature = match signature_header {
        Some(h) => decode_signature_hex(h),
        None => None,
    };
    let body_hash = match body {
        Some(b) => Some(admin_body_hash(b)),
        None => None,
    };
    AdminRequestChecks {
        no_auth,
        key_parses,
        headers_present: signature_header.is_some() && timestamp_header.is_some(),
        timestamp_fresh,
        signature,
        body_hash,
        signature_valid,
        ip_allowed,
        permitted,
    }
}

/// The HTTP status and message of a refusal. A stale timestamp is
/// reported with the timestamp validator's own message; a body over the
/// limit has an empty body.
pub fn admin_refusal(o: AdminAuthOutcome, timestamp_error: &str) -> (r: Option<(u16, String)>)
    ensures
        o == AdminAuthOutcome::Pass <==> r is None,
        o == AdminAuthOutcome::Misconfigured ==> (r matches Some((s, m)) && s == 500 && m@
            == "admin auth misconfigured"@),
        o == AdminAuthOutcome::MissingHeaders ==> (r matches Some((s, m)) && s == 401 && m@
            == "missing X-Rivers-Signature or X-Rivers-Timestamp header"@),
        o == AdminAuthOutcome::StaleTimestamp ==> (r matches Some((s, m)) && s == 401 && m@
            == timestamp_error@),
        o == AdminAuthOutcome::BadSignatureEncoding ==> (r matches Some((s, m)) && s == 401 && m@
            == "invalid signature encoding"@),
        o == AdminAuthOutcome::BodyTooLarge ==> (r matches Some((s, m)) && s == 413 && m@.len()
            == 0),
        o == AdminAuthOutcome::SignatureRejected ==> (r matches Some((s, m)) && s == 401 && m@
            == "signature verification failed"@),
        o == AdminAuthOutcome::IpNotAllowed ==> (r matches Some((s, m)) && s == 403 && m@
            == "IP not in admin allowlist"@),
        o == AdminAuthOutcome::PermissionDenied ==> (r matches Some((s, m)) && s == 403 && m@
            == "permission denied"@),
{
    match o {
        AdminAuthOutcome::Pass => None,
        AdminAuthOutcome::Misconfigured => Some((500, "admin auth misconfigured".to_owned())),
        AdminAuthOutcome::MissingHeaders => Some(
            (401, "missing X-Rivers-Signature or X-Rivers-Timestamp header".to_owned()),
        ),
        AdminAuthOutcome::StaleTimestamp => Some((401, timestamp_error.to_owned())),
        AdminAuthOutcome::BadSignatureEncoding => Some(
            (401, "invalid signature encoding".to_owned()),
        ),
        AdminAuthOutcome::BodyTooLarge => Some((413, String::new())),
        AdminAuthOutcome::SignatureRejected => Some(
            (401, "signature verification failed".to_owned()),
        ),
        AdminAuthOutcome::IpNotAllowed => Some((403, "IP not in admin allowlist".to_owned())),
        AdminAuthOutcome::PermissionDenied => Some((403, "permission denied".to_owned())),
    }
}

/// A request reaches the admin API only when authentication is off, or
/// when it carries a fresh timestamp and a valid signature, comes from an
/// allowed address and holds the permission its path needs.
pub proof fn law_admin_requests_are_authenticated(c: AdminRequestChecks)
    ensures
        admin_outcome(c) == AdminAuthOutcome::Pass ==> c.no_auth || (c.key_parses
            && c.headers_present && c.timestamp_fresh && c.signature_valid && c.ip_allowed
            && c.permitted),
{
}

} // verus!
