//! The sockets through which the router reaches the other services: each has
//! a documented default, departures from it must give a reason, and none may
//! grant privileged mutation authority or cross-user journal access.
use super::errors::{fail, ContractError, ContractErrorCode};
use super::router::{
    reports, Verdict, HEALTH_METRICS_SOCKET_PATH_V1, INFERENCE_SOCKET_PATH_V1,
    LOCAL_BROKER_SOCKET_PATH_V1, USER_ROUTER_SOCKET_TEMPLATE_V1,
};
use crate::text::{concat, str_eq};
use vstd::prelude::*;

verus! {

#[derive(Debug, Clone, Copy, PartialEq, Eq, Structural)]
pub enum IntegrationRole {
    InferencePrivate,
    LocalBroker,
    HealthMetrics,
    UserRouter,
}

#[derive(Debug, Clone, Copy, PartialEq, Eq, Structural)]
pub enum AccessScope {
    PrivateSystem,
    LocalMultiUser,
    PerUser,
}

#[derive(Debug, Clone, PartialEq, Eq)]
pub struct IntegrationSocket {
    pub role: IntegrationRole,
    pub access_scope: AccessScope,
    pub path: String,
    pub owner_user: Option<String>,
    pub directory_mode_octal: String,
    pub socket_mode_octal: String,
    pub require_peer_uid_check: bool,
    pub enforce_peer_uid_quotas: bool,
    pub nonsecret_metrics_only: bool,
    pub allow_cross_user_journal_access: bool,
    pub privileged_mutation_authority: bool,
    pub deviation_reason: Option<String>,
}

/// The four integration sockets of the router.
#[derive(Debug, Clone, PartialEq, Eq)]
pub struct IntegrationSocketDefaults {
    pub inference: IntegrationSocket,
    pub local_broker: IntegrationSocket,
    pub health_metrics: IntegrationSocket,
    pub user_router: IntegrationSocket,
}

pub open spec fn default_scope(role: IntegrationRole) -> AccessScope {
    match role {
        IntegrationRole::InferencePrivate => AccessScope::PrivateSystem,
        IntegrationRole::UserRouter => AccessScope::PerUser,
        _ => AccessScope::LocalMultiUser,
    }
}

pub open spec fn default_path(role: IntegrationRole) -> Seq<char> {
    match role {
        IntegrationRole::InferencePrivate => INFERENCE_SOCKET_PATH_V1@,
        IntegrationRole::LocalBroker => LOCAL_BROKER_SOCKET_PATH_V1@,
        IntegrationRole::HealthMetrics => HEALTH_METRICS_SOCKET_PATH_V1@,
        IntegrationRole::UserRouter => USER_ROUTER_SOCKET_TEMPLATE_V1@,
    }
}

/// Private sockets live in a 0700 directory with an owner-only socket;
/// shared ones in a 0755 directory with a group socket.
pub open spec fn is_private(role: IntegrationRole) -> bool {
    role == IntegrationRole::InferencePrivate || role == IntegrationRole::UserRouter
}

pub open spec fn default_directory_mode(role: IntegrationRole) -> Seq<char> {
    if is_private(role) {
        "0700"@
    } else {
        "0755"@
    }
}

pub open spec fn default_socket_mode(role: IntegrationRole) -> Seq<char> {
    if is_private(role) {
        "0600"@
    } else {
        "0660"@
    }
}

pub open spec fn push_if(v: Seq<Seq<char>>, c: bool, t: Seq<char>) -> Seq<Seq<char>> {
    if c {
        v.push(t)
    } else {
        v
    }
}

/// The fields of socket `name` that depart from the default for `role`,
/// as `name.field`, in field order.
pub open spec fn socket_deviations(
    name: Seq<char>,
    s: IntegrationSocket,
    role: IntegrationRole,
) -> Seq<Seq<char>> {
    let v0 = push_if(Seq::empty(), s.role != role, name + ".role"@);
    let v1 = push_if(v0, s.access_scope != default_scope(role), name + ".access_scope"@);
    let v2 = push_if(v1, s.path@ != default_path(role), name + ".path"@);
    let v3 = push_if(
        v2,
        s.directory_mode_octal@ != default_directory_mode(role),
        name + ".directory_mode_octal"@,
    );
    let v4 = push_if(
        v3,
        s.socket_mode_octal@ != default_socket_mode(role),
        name + ".socket_mode_octal"@,
    );
    let v5 = push_if(v4, !s.require_peer_uid_check, name + ".require_peer_uid_check"@);
    let v6 = push_if(v5, !s.enforce_peer_uid_quotas, name + ".enforce_peer_uid_quotas"@);
    push_if(
        v6,
        s.nonsecret_metrics_only != (role == IntegrationRole::HealthMetrics),
        name + ".nonsecret_metrics_only"@,
    )
}

pub open spec fn all_deviations(d: IntegrationSocketDefaults) -> Seq<Seq<char>> {
    socket_deviations("inference"@, d.inference, IntegrationRole::InferencePrivate)
        + socket_deviations("local_broker"@, d.local_broker, IntegrationRole::LocalBroker)
        + socket_deviations("health_metrics"@, d.health_metrics, IntegrationRole::HealthMetrics)
        + socket_deviations("user_router"@, d.user_router, IntegrationRole::UserRouter)
}

pub open spec fn has_reason(s: IntegrationSocket) -> bool {
    s.deviation_reason matches Some(t) && t@.len() > 0
}

/// A socket is refused when it grants privileged mutation authority, when
/// it exposes the journals of other users, or when it departs from its
/// default without a documented reason.
pub open spec fn socket_verdict(name: Seq<char>, s: IntegrationSocket, role: IntegrationRole) -> Verdict {
    if s.privileged_mutation_authority {
        Some(
            (
                ContractErrorCode::ValidationFailed,
                "integration socket must not grant privileged mutation authority"@,
            ),
        )
    } else if s.allow_cross_user_journal_access {
        Some(
            (
                ContractErrorCode::ValidationFailed,
                "integration socket must not expose cross-user journal access"@,
            ),
        )
    } else if socket_deviations(name, s, role).len() > 0 && !has_reason(s) {
        Some(
            (
                ContractErrorCode::ValidationFailed,
                "integration socket deviation requires a documented reason"@,
            ),
        )
    } else {
        None
    }
}

pub open spec fn first_verdict(a: Verdict, b: Verdict) -> Verdict {
    if a is Some {
        a
    } else {
        b
    }
}

pub open spec fn integration_verdict(d: IntegrationSocketDefaults) -> Verdict {
    first_verdict(
        socket_verdict("inference"@, d.inference, IntegrationRole::InferencePrivate),
        first_verdict(
            socket_verdict("local_broker"@, d.local_broker, IntegrationRole::LocalBroker),
            first_verdict(
                socket_verdict("health_metrics"@, d.health_metrics, IntegrationRole::HealthMetrics),
                socket_verdict("user_router"@, d.user_router, IntegrationRole::UserRouter),
            ),
        ),
    )
}

fn scope_of(role: IntegrationRole) -> (r: AccessScope)
    ensures
        r == default_scope(role),
{
    match role {
        IntegrationRole::InferencePrivate => AccessScope::PrivateSystem,
        IntegrationRole::UserRouter => AccessScope::PerUser,
        _ => AccessScope::LocalMultiUser,
    }
}

fn path_of(role: IntegrationRole) -> (r: &'static str)
    ensures
        r@ == default_path(role),
{
    match role {
        IntegrationRole::InferencePrivate => INFERENCE_SOCKET_PATH_V1,
        IntegrationRole::LocalBroker => LOCAL_BROKER_SOCKET_PATH_V1,
        IntegrationRole::HealthMetrics => HEALTH_METRICS_SOCKET_PATH_V1,
        IntegrationRole::UserRouter => USER_ROUTER_SOCKET_TEMPLATE_V1,
    }
}

fn private_role(role: IntegrationRole) -> (r: bool)
    ensures
        r == is_private(role),
{
    role == IntegrationRole::InferencePrivate || role == IntegrationRole::UserRouter
}

fn push_field(v: &mut Vec<String>, c: bool, name: &str, field: &str)
    ensures
        final(v)@.map_values(|x: String| x@) == push_if(
            old(v)@.map_values(|x: String| x@),
            c,
            name@ + field@,
        ),
{
    if c {
        let t = concat(name, field);
        v.push(t);
        assert(final(v)@.map_values(|x: String| x@) =~= old(v)@.map_values(|x: String| x@).push(
            name@ + field@,
        ));
    }
}

/// Appends the departures of socket `name` from the default for `role`.
fn collect_deviations(v: &mut Vec<String>, name: &str, s: &IntegrationSocket, role: IntegrationRole)
    ensures
        final(v)@.map_values(|x: String| x@) == old(v)@.map_values(|x: String| x@)
            + socket_deviations(name@, *s, role),
{
    let ghost base = v@.map_values(|x: String| x@);
    let private = private_role(role);
    push_field(v, s.role != role, name, ".role");
    push_field(v, s.access_scope != scope_of(role), name, ".access_scope");
    push_field(v, !str_eq(s.path.as_str(), path_of(role)), name, ".path");
    let dir = if private {
        "0700"
    } else {
        "0755"
    };
    push_field(v, !str_eq(s.directory_mode_octal.as_str(), dir), name, ".directory_mode_octal");
    let sock = if private {
        "0600"
    } else {
        "0660"
    };
    push_field(v, !str_eq(s.socket_mode_octal.as_str(), sock), name, ".socket_mode_octal");
    push_field(v, !s.require_peer_uid_check, name, ".require_peer_uid_check");
    push_field(v, !s.enforce_peer_uid_quotas, name, ".enforce_peer_uid_quotas");
    push_field(
        v,
        s.nonsecret_metrics_only != (role == IntegrationRole::HealthMetrics),
        name,
        ".nonsecret_metrics_only",
    );
    proof {
        lemma_push_if_append(base, socket_deviations(name@, *s, role), name@, *s, role);
    }
}

/// A conditional push onto a concatenation pushes onto its second part.
proof fn lemma_push_if_shift(base: Seq<Seq<char>>, v: Seq<Seq<char>>, c: bool, t: Seq<char>)
    ensures
        push_if(base + v, c, t) == base + push_if(v, c, t),
{
    if c {
        assert((base + v).push(t) =~= base + v.push(t));
    }
}

/// The pushes of `socket_deviations` made onto `base` give `base` followed
/// by the deviations.
proof fn lemma_push_if_append(
    base: Seq<Seq<char>>,
    d: Seq<Seq<char>>,
    name: Seq<char>,
    s: IntegrationSocket,
    role: IntegrationRole,
)
    requires
        d == socket_deviations(name, s, role),
    ensures
        ({
            let w0 = push_if(base, s.role != role, name + ".role"@);
            let w1 = push_if(w0, s.access_scope != default_scope(role), name + ".access_scope"@);
            let w2 = push_if(w1, s.path@ != default_path(role), name + ".path"@);
            let w3 = push_if(
                w2,
                s.directory_mode_octal@ != default_directory_mode(role),
                name + ".directory_mode_octal"@,
            );
            let w4 = push_if(
                w3,
                s.socket_mode_octal@ != default_socket_mode(role),
                name + ".socket_mode_octal"@,
            );
            let w5 = push_if(w4, !s.require_peer_uid_check, name + ".require_peer_uid_check"@);
            let w6 = push_if(w5, !s.enforce_peer_uid_quotas, name + ".enforce_peer_uid_quotas"@);
            push_if(
                w6,
                s.nonsecret_metrics_only != (role == IntegrationRole::HealthMetrics),
                name + ".nonsecret_metrics_only"@,
            ) == base + d
        }),
{
    let e = Seq::<Seq<char>>::empty();
    assert(base + e =~= base);
    let v0 = push_if(e, s.role != role, name + ".role"@);
    lemma_push_if_shift(base, e, s.role != role, name + ".role"@);
    let v1 = push_if(v0, s.access_scope != default_scope(role), name + ".access_scope"@);
    lemma_push_if_shift(base, v0, s.access_scope != default_scope(role), name + ".access_scope"@);
    let v2 = push_if(v1, s.path@ != default_path(role), name + ".path"@);
    lemma_push_if_shift(base, v1, s.path@ != default_path(role), name + ".path"@);
    let v3 = push_if(
        v2,
        s.directory_mode_octal@ != default_directory_mode(role),
        name + ".directory_mode_octal"@,
    );
    lemma_push_if_shift(
        base,
        v2,
        s.directory_mode_octal@ != default_directory_mode(role),
        name + ".directory_mode_octal"@,
    );
    let v4 = push_if(
        v3,
        s.socket_mode_octal@ != default_socket_mode(role),
        name + ".socket_mode_octal"@,
    );
    lemma_push_if_shift(
        base,
        v3,
        s.socket_mode_octal@ != default_socket_mode(role),
        name + ".socket_mode_octal"@,
    );
    let v5 = push_if(v4, !s.require_peer_uid_check, name + ".require_peer_uid_check"@);
    lemma_push_if_shift(base, v4, !s.require_peer_uid_check, name + ".require_peer_uid_check"@);
    let v6 = push_if(v5, !s.enforce_peer_uid_quotas, name + ".enforce_peer_uid_quotas"@);
    lemma_push_if_shift(base, v5, !s.enforce_peer_uid_quotas, name + ".enforce_peer_uid_quotas"@);
    lemma_push_if_shift(
        base,
        v6,
        s.nonsecret_metrics_only != (role == IntegrationRole::HealthMetrics),
        name + ".nonsecret_metrics_only"@,
    );
}

fn socket_check(name: &str, s: &IntegrationSocket, role: IntegrationRole) -> (r: Result<(), ContractError>)
    ensures
        reports(r, socket_verdict(name@, *s, role)),
{
    if s.privileged_mutation_authority {
        return Err(
            fail(
                ContractErrorCode::ValidationFailed,
                "integration socket must not grant privileged mutation authority",
            ),
        );
    }
    if s.allow_cross_user_journal_access {
        return Err(
            fail(
                ContractErrorCode::ValidationFailed,
                "integration socket must not expose cross-user journal access",
            ),
        );
    }
    let mut v: Vec<String> = Vec::new();
    collect_deviations(&mut v, name, s, role);
    assert(v@.map_values(|x: String| x@).len() == v@.len());
    let reasoned = match &s.deviation_reason {
        Some(t) => !t.as_str().is_empty(),
        None => false,
    };
    if v.len() > 0 && !reasoned {
        return Err(
            fail(
                ContractErrorCode::ValidationFailed,
                "integration socket deviation requires a documented reason",
            ),
        );
    }
    Ok(())
}

impl IntegrationSocketDefaults {
    /// The fields of each socket that depart from its default, as
    /// `socket.field`: inference, local broker, health metrics, user router.
    pub fn deviations(&self) -> (r: Vec<String>)
        ensures
            r@.map_values(|x: String| x@) == all_deviations(*self),
    {
        let mut v: Vec<String> = Vec::new();
        assert(v@.map_values(|x: String| x@) =~= Seq::<Seq<char>>::empty());
        collect_deviations(&mut v, "inference", &self.inference, IntegrationRole::InferencePrivate);
        collect_deviations(&mut v, "local_broker", &self.local_broker, IntegrationRole::LocalBroker);
        collect_deviations(
            &mut v,
            "health_metrics",
            &self.health_metrics,
            IntegrationRole::HealthMetrics,
        );
        collect_deviations(&mut v, "user_router", &self.user_router, IntegrationRole::UserRouter);
        assert(v@.map_values(|x: String| x@) =~= all_deviations(*self));
        v
    }

    /// Checks the sockets in order: inference, local broker, health
    /// metrics, user router.
    pub fn validate(&self) -> (r: Result<(), ContractError>)
        ensures
            reports(r, integration_verdict(*self)),
    {
        match socket_check("inference", &self.inference, IntegrationRole::InferencePrivate) {
            Err(e) => return Err(e),
            Ok(()) => {},
        }
        match socket_check("local_broker", &self.local_broker, IntegrationRole::LocalBroker) {
            Err(e) => return Err(e),
            Ok(()) => {},
        }
        match socket_check("health_metrics", &self.health_metrics, IntegrationRole::HealthMetrics) {
            Err(e) => return Err(e),
            Ok(()) => {},
        }
        socket_check("user_router", &self.user_router, IntegrationRole::UserRouter)
    }
}

} // verus!
