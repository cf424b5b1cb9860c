//! The privileged broker: the operations it may run for a desktop session,
//! their validation, the one-shot plans a caller must approve, and the rules
//! for reading the package worker's answers.
pub mod executor;
pub mod plans;
pub mod worker;

use crate::text::{
    all_digits, chars_contains, chars_of, chars_ends_with, contains, ends_with, is_digit,
    is_lower, is_upper, owned, parse_u64, parse_u64_chars, rfind_char, last_index_of, slice_of,
    split_words, str_eq, utf8_len, utf8_len_sat, views, words,
};
use crate::retrieval::indexer::{hex_encode, hex_text, lemma_hex_len, sha256, sha256_digest};
use vstd::prelude::*;

verus! {

pub const BUS_NAME: &'static str = "org.sentia.System1";

pub const OBJECT_PATH: &'static str = "/org/sentia/System1";

pub const PLAN_LIFETIME_SECONDS: u64 = 120;

pub const MAX_REQUEST_BYTES: usize = 16_384;

/// A refusal, named by a stable code.
#[derive(Debug, Clone, Copy, PartialEq, Eq)]
pub struct BrokerError(pub &'static str);

/// The lowercase hexadecimal SHA-256 digest of a value's JSON bytes, as
/// plans and operations are digested.
pub fn json_digest(json: &[u8]) -> (r: String)
    ensures
        r@ == hex_text(sha256_digest(json@)),
        r@.len() == 64,
{
    let d = sha256(json);
    let r = hex_encode(d.as_slice());
    proof {
        lemma_hex_len(d@);
    }
    r
}

/// `r` is the refusal with code `code`.
pub open spec fn refused<T>(r: Result<T, BrokerError>, code: Seq<char>) -> bool {
    r matches Err(e) && e.0@ == code
}

impl BrokerError {
    /// The code, as `Display` writes it.
    pub fn text(&self) -> (r: &'static str)
        ensures
            r@ == self.0@,
    {
        self.0
    }
}

#[derive(Debug, Clone, Copy, PartialEq, Eq, Structural)]
pub enum ServiceAction {
    Start,
    Stop,
    Restart,
    Enable,
}

pub open spec fn service_verb(a: ServiceAction) -> Seq<char> {
    match a {
        ServiceAction::Start => "start"@,
        ServiceAction::Stop => "stop"@,
        ServiceAction::Restart => "restart"@,
        ServiceAction::Enable => "enable"@,
    }
}

impl ServiceAction {
    pub fn argument(&self) -> (r: &'static str)
        ensures
            r@ == service_verb(*self),
    {
        match self {
            ServiceAction::Start => "start",
            ServiceAction::Stop => "stop",
            ServiceAction::Restart => "restart",
            ServiceAction::Enable => "enable",
        }
    }
}

#[derive(Debug, PartialEq, Eq)]
pub enum Operation {
    Service { action: ServiceAction, unit: String },
    ProcessKill { pid: u32 },
    AptInstall { packages: Vec<String> },
    AptRemove { packages: Vec<String> },
    AptUpdate,
    AptUpgrade,
}

pub open spec fn texts_of(v: Seq<String>) -> Seq<Seq<char>> {
    v.map_values(|s: String| s@)
}

/// Two operations ask for the same thing.
pub open spec fn same_operation(a: Operation, b: Operation) -> bool {
    match (a, b) {
        (Operation::Service { action: x, unit: u }, Operation::Service { action: y, unit: v }) => x
            == y && u@ == v@,
        (Operation::ProcessKill { pid: p }, Operation::ProcessKill { pid: q }) => p == q,
        (Operation::AptInstall { packages: p }, Operation::AptInstall { packages: q }) => texts_of(
            p@,
        ) == texts_of(q@),
        (Operation::AptRemove { packages: p }, Operation::AptRemove { packages: q }) => texts_of(
            p@,
        ) == texts_of(q@),
        (Operation::AptUpdate, Operation::AptUpdate) => true,
        (Operation::AptUpgrade, Operation::AptUpgrade) => true,
        _ => false,
    }
}

pub(crate) fn clone_strings(v: &Vec<String>) -> (r: Vec<String>)
    ensures
        r@ == v@,
{
    let mut r: Vec<String> = Vec::new();
    let mut i: usize = 0;
    while i < v.len()
        invariant
            i <= v.len(),
            r@ == v@.take(i as int),
        decreases v.len() - i,
    {
        let c = v[i].clone();
        r.push(c);
        i = i + 1;
        assert(r@ =~= v@.take(i as int));
    }
    assert(v@.take(v.len() as int) =~= v@);
    r
}

impl Clone for Operation {
    fn clone(&self) -> (r: Self)
        ensures
            same_operation(r, *self),
    {
        match self {
            Operation::Service { action, unit } => Operation::Service {
                action: *action,
                unit: unit.clone(),
            },
            Operation::ProcessKill { pid } => Operation::ProcessKill { pid: *pid },
            Operation::AptInstall { packages } => Operation::AptInstall {
                packages: clone_strings(packages),
            },
            Operation::AptRemove { packages } => Operation::AptRemove {
                packages: clone_strings(packages),
            },
            Operation::AptUpdate => Operation::AptUpdate,
            Operation::AptUpgrade => Operation::AptUpgrade,
        }
    }
}

/// Whether two operations ask for the same thing.
pub fn operations_equal(a: &Operation, b: &Operation) -> (r: bool)
    ensures
        r == same_operation(*a, *b),
{
    match (a, b) {
        (Operation::Service { action: x, unit: u }, Operation::Service { action: y, unit: v }) => *x
            == *y && str_eq(u.as_str(), v.as_str()),
        (Operation::ProcessKill { pid: p }, Operation::ProcessKill { pid: q }) => *p == *q,
        (Operation::AptInstall { packages: p }, Operation::AptInstall { packages: q }) => strings_equal(p, q),
        (Operation::AptRemove { packages: p }, Operation::AptRemove { packages: q }) => strings_equal(p, q),
        (Operation::AptUpdate, Operation::AptUpdate) => true,
        (Operation::AptUpgrade, Operation::AptUpgrade) => true,
        _ => false,
    }
}

fn strings_equal(a: &Vec<String>, b: &Vec<String>) -> (r: bool)
    ensures
        r == (texts_of(a@) == texts_of(b@)),
{
    if a.len() != b.len() {
        assert(texts_of(a@).len() != texts_of(b@).len());
        return false;
    }
    let mut i: usize = 0;
    while i < a.len()
        invariant
            i <= a.len() == b.len(),
            forall|j: int| 0 <= j < i ==> a@[j]@ == b@[j]@,
        decreases a.len() - i,
    {
        if !str_eq(a[i].as_str(), b[i].as_str()) {
            assert(texts_of(a@)[i as int] != texts_of(b@)[i as int]);
            return false;
        }
        i = i + 1;
    }
    assert(texts_of(a@) =~= texts_of(b@));
    true
}

/// A name of a plain `.service` unit: letters, digits and `_.-` only, a
/// letter or digit first, no `..`, at most 255 bytes. Narrower than
/// systemd's grammar on purpose: no templates, escapes, paths or globs.
pub open spec fn unit_name_ok(unit: Seq<char>) -> bool {
    let stem = unit.take(unit.len() - 8);
    &&& ends_with(unit, ".service"@)
    &&& utf8_len(unit) <= 255
    &&& stem.len() > 0
    &&& ascii_alnum(stem[0])
    &&& forall|i: int| 0 <= i < stem.len() ==> unit_char(#[trigger] stem[i])
    &&& !contains(unit, ".."@)
}

pub open spec fn ascii_alnum(c: char) -> bool {
    is_digit(c) || is_lower(c) || is_upper(c)
}

pub open spec fn unit_char(c: char) -> bool {
    ascii_alnum(c) || c == '_' || c == '.' || c == '-'
}

pub fn validate_unit(unit: &str) -> (r: Result<(), BrokerError>)
    ensures
        r is Ok <==> unit_name_ok(unit@),
        r is Err ==> refused(r, "invalid_unit"@),
{
    proof {
        reveal_strlit(".service");
        reveal_strlit("..");
    }
    let u = chars_of(unit);
    if !chars_ends_with(u.as_slice(), chars_of(".service").as_slice()) {
        return Err(BrokerError("invalid_unit"));
    }
    let stem_len = u.len() - 8;
    if utf8_len_sat(u.as_slice()) > 255 || stem_len == 0 {
        return Err(BrokerError("invalid_unit"));
    }
    let c0 = u[0];
    if !(('0' <= c0 && c0 <= '9') || ('a' <= c0 && c0 <= 'z') || ('A' <= c0 && c0 <= 'Z')) {
        return Err(BrokerError("invalid_unit"));
    }
    let mut i: usize = 0;
    while i < stem_len
        invariant
            i <= stem_len,
            stem_len + 8 == u@.len(),
            u@ == unit@,
            forall|j: int| 0 <= j < i ==> unit_char(#[trigger] u@.take(stem_len as int)[j]),
        decreases stem_len - i,
    {
        let c = u[i];
        assert(u@.take(stem_len as int)[i as int] == c);
        if !(('0' <= c && c <= '9') || ('a' <= c && c <= 'z') || ('A' <= c && c <= 'Z') || c == '_'
            || c == '.' || c == '-') {
            return Err(BrokerError("invalid_unit"));
        }
        i = i + 1;
    }
    if chars_contains(u.as_slice(), chars_of("..").as_slice()) {
        return Err(BrokerError("invalid_unit"));
    }
    Ok(())
}

/// A Debian package name: lowercase letters, digits and `+.-`, starting with
/// a letter or digit, 2 to 128 bytes.
pub open spec fn package_name_ok(p: Seq<char>) -> bool {
    &&& 2 <= utf8_len(p) <= 128
    &&& (is_lower(p[0]) || is_digit(p[0]))
    &&& forall|i: int| 0 <= i < p.len() ==> package_char(#[trigger] p[i])
}

pub open spec fn package_char(c: char) -> bool {
    is_lower(c) || is_digit(c) || c == '+' || c == '.' || c == '-'
}

pub fn validate_package(package: &str) -> (r: Result<(), BrokerError>)
    ensures
        r is Ok <==> package_name_ok(package@),
        r is Err ==> refused(r, "invalid_package"@),
{
    let p = chars_of(package);
    let n = utf8_len_sat(p.as_slice());
    if n < 2 || n > 128 {
        return Err(BrokerError("invalid_package"));
    }
    proof {
        if p@.len() == 0 {
            assert(utf8_len(p@) == 0) by {
                assert(vstd::utf8::encode_utf8(p@) =~= Seq::<u8>::empty());
            }
        }
    }
    let c0 = p[0];
    if !(('a' <= c0 && c0 <= 'z') || ('0' <= c0 && c0 <= '9')) {
        return Err(BrokerError("invalid_package"));
    }
    let mut i: usize = 0;
    while i < p.len()
        invariant
            i <= p.len(),
            p@ == package@,
            forall|j: int| 0 <= j < i ==> package_char(#[trigger] p@[j]),
        decreases p.len() - i,
    {
        let c = p[i];
        if !(('a' <= c && c <= 'z') || ('0' <= c && c <= '9') || c == '+' || c == '.' || c == '-') {
            return Err(BrokerError("invalid_package"));
        }
        i = i + 1;
    }
    Ok(())
}

/// Why a package list is refused: empty or longer than 64, a bad name, or a
/// name given twice; the first offending entry decides.
pub open spec fn packages_problem(ps: Seq<Seq<char>>) -> Option<Seq<char>> {
    if ps.len() == 0 || ps.len() > 64 {
        Some("invalid_packages"@)
    } else {
        package_entries_problem(ps, 0)
    }
}

pub open spec fn package_entries_problem(ps: Seq<Seq<char>>, i: int) -> Option<Seq<char>>
    decreases ps.len() - i,
{
    if i < 0 || i >= ps.len() {
        None
    } else if !package_name_ok(ps[i]) {
        Some("invalid_package"@)
    } else if exists|j: int| 0 <= j < i && ps[j] == ps[i] {
        Some("duplicate_package"@)
    } else {
        package_entries_problem(ps, i + 1)
    }
}

/// Why an operation is refused, if it is.
pub open spec fn operation_problem(op: Operation) -> Option<Seq<char>> {
    match op {
        Operation::Service { unit, .. } => if unit_name_ok(unit@) {
            None
        } else {
            Some("invalid_unit"@)
        },
        Operation::ProcessKill { pid } => if pid <= 1 || pid > i32::MAX {
            Some("invalid_pid"@)
        } else {
            None
        },
        Operation::AptInstall { packages } => packages_problem(texts_of(packages@)),
        Operation::AptRemove { packages } => packages_problem(texts_of(packages@)),
        _ => None,
    }
}

/// `r` reports exactly the problem `p`.
pub open spec fn reports_problem(r: Result<(), BrokerError>, p: Option<Seq<char>>) -> bool {
    match p {
        None => r is Ok,
        Some(code) => refused(r, code),
    }
}

fn validate_packages(packages: &Vec<String>) -> (r: Result<(), BrokerError>)
    ensures
        reports_problem(r, packages_problem(texts_of(packages@))),
{
    let ghost ps = texts_of(packages@);
    if packages.len() == 0 || packages.len() > 64 {
        return Err(BrokerError("invalid_packages"));
    }
    let mut i: usize = 0;
    while i < packages.len()
        invariant
            i <= packages.len(),
            ps == texts_of(packages@),
            packages@.len() > 0 && packages@.len() <= 64,
            packages_problem(ps) == package_entries_problem(ps, i as int),
        decreases packages.len() - i,
    {
        assert(ps[i as int] == packages@[i as int]@);
        validate_package(packages[i].as_str())?;
        let mut j: usize = 0;
        while j < i
            invariant
                j <= i < packages.len(),
                ps == texts_of(packages@),
                package_name_ok(ps[i as int]),
                packages_problem(ps) == package_entries_problem(ps, i as int),
                forall|k: int| 0 <= k < j ==> ps[k] != ps[i as int],
            decreases i - j,
        {
            assert(ps[j as int] == packages@[j as int]@);
            if str_eq(packages[j].as_str(), packages[i].as_str()) {
                assert(ps[j as int] == ps[i as int]);
                return Err(BrokerError("duplicate_package"));
            }
            j = j + 1;
        }
        i = i + 1;
    }
    Ok(())
}

/// The polkit action that authorizes an operation.
pub open spec fn action_of(op: Operation) -> Seq<char> {
    match op {
        Operation::Service { action, .. } => match action {
            ServiceAction::Start => "org.sentia.system.service-start"@,
            ServiceAction::Stop => "org.sentia.system.service-stop"@,
            ServiceAction::Restart => "org.sentia.system.service-restart"@,
            ServiceAction::Enable => "org.sentia.system.service-enable"@,
        },
        Operation::ProcessKill { .. } => "org.sentia.system.process-terminate"@,
        Operation::AptInstall { .. } => "org.sentia.system.package-install"@,
        Operation::AptRemove { .. } => "org.sentia.system.package-remove"@,
        Operation::AptUpdate => "org.sentia.system.package-update"@,
        Operation::AptUpgrade => "org.sentia.system.package-upgrade"@,
    }
}

impl Operation {
    /// Checks the unit name, the process id (2 up to the largest `i32`), or
    /// the package list: 1 to 64 valid, distinct names.
    pub fn validate(&self) -> (r: Result<(), BrokerError>)
        ensures
            reports_problem(r, operation_problem(*self)),
    {
        match self {
            Operation::Service { unit, .. } => validate_unit(unit.as_str()),
            Operation::ProcessKill { pid } => {
                if *pid <= 1 || *pid > 0x7fff_ffffu32 {
                    Err(BrokerError("invalid_pid"))
                } else {
                    Ok(())
                }
            },
            Operation::AptInstall { packages } => validate_packages(packages),
            Operation::AptRemove { packages } => validate_packages(packages),
            _ => Ok(()),
        }
    }

    pub fn action_id(&self) -> (r: &'static str)
        ensures
            r@ == action_of(*self),
    {
        match self {
            Operation::Service { action, .. } => match action {
                ServiceAction::Start => "org.sentia.system.service-start",
                ServiceAction::Stop => "org.sentia.system.service-stop",
                ServiceAction::Restart => "org.sentia.system.service-restart",
                ServiceAction::Enable => "org.sentia.system.service-enable",
            },
            Operation::ProcessKill { .. } => "org.sentia.system.process-terminate",
            Operation::AptInstall { .. } => "org.sentia.system.package-install",
            Operation::AptRemove { .. } => "org.sentia.system.package-remove",
            Operation::AptUpdate => "org.sentia.system.package-update",
            Operation::AptUpgrade => "org.sentia.system.package-upgrade",
        }
    }
}

/// A request to prepare a plan, as the caller sent it.
#[derive(Debug, Clone, PartialEq, Eq)]
pub struct PrepareRequest {
    pub version: u32,
    pub operation: Operation,
}

/// Accepts a parsed request: the text was at most `MAX_REQUEST_BYTES` long,
/// it parsed, it is of version 1, and its operation is valid.
pub fn accept_request(json_len: usize, parsed: Option<PrepareRequest>) -> (r: Result<Operation, BrokerError>)
    ensures
        json_len > MAX_REQUEST_BYTES ==> refused(r, "request_too_large"@),
        json_len <= MAX_REQUEST_BYTES ==> match parsed {
            None => refused(r, "invalid_request"@),
            Some(q) => if q.version != 1 {
                refused(r, "unsupported_version"@)
            } else {
                match operation_problem(q.operation) {
                    Some(code) => refused(r, code),
                    None => r == Ok::<Operation, BrokerError>(q.operation),
                }
            },
        },
{
    if json_len > MAX_REQUEST_BYTES {
        return Err(BrokerError("request_too_large"));
    }
    let request = match parsed {
        None => return Err(BrokerError("invalid_request")),
        Some(q) => q,
    };
    if request.version != 1 {
        return Err(BrokerError("unsupported_version"));
    }
    match request.operation.validate() {
        Err(e) => Err(e),
        Ok(()) => Ok(request.operation),
    }
}

/// The `systemctl` arguments for a service action on a valid unit.
pub open spec fn service_args(action: ServiceAction, unit: Seq<char>) -> Seq<Seq<char>> {
    seq!["--no-ask-password"@, "--no-pager"@, service_verb(action), "--"@, unit]
}

pub fn service_arguments(action: &ServiceAction, unit: &str) -> (r: Result<Vec<String>, BrokerError>)
    ensures
        !unit_name_ok(unit@) ==> refused(r, "invalid_unit"@),
        unit_name_ok(unit@) ==> (r matches Ok(v) && texts_of(v@) == service_args(*action, unit@)),
{
    validate_unit(unit)?;
    let v = vec![
        owned("--no-ask-password"),
        owned("--no-pager"),
        owned(action.argument()),
        owned("--"),
        owned(unit),
    ];
    assert(texts_of(v@) =~= service_args(*action, unit@));
    Ok(v)
}

/// The process start time, the 20th field after the command name in
/// `/proc/<pid>/stat` (the command name ends at the last `)`).
pub open spec fn start_ticks_of(stat: Seq<char>) -> Option<u64> {
    let close = last_index_of(stat, ')');
    if close < 0 {
        None
    } else {
        let f = words(stat.skip(close + 1));
        if f.len() < 20 {
            None
        } else {
            parse_u64(f[19])
        }
    }
}

pub fn parse_start_ticks(stat: &str) -> (r: Result<u64, BrokerError>)
    ensures
        match start_ticks_of(stat@) {
            Some(t) => r == Ok::<u64, BrokerError>(t),
            None => refused(r, "invalid_process_state"@),
        },
{
    let s = chars_of(stat);
    let close = match rfind_char(s.as_slice(), ')') {
        None => return Err(BrokerError("invalid_process_state")),
        Some(i) => i,
    };
    let rest = slice_of(s.as_slice(), close + 1, s.len());
    assert(rest@ =~= s@.skip(close + 1));
    let f = split_words(rest.as_slice());
    if f.len() < 20 {
        return Err(BrokerError("invalid_process_state"));
    }
    assert(views(f@)[19] == f@[19]@);
    match parse_u64_chars(f[19].as_slice()) {
        Some(t) => Ok(t),
        None => Err(BrokerError("invalid_process_state")),
    }
}

/// The polkit actions that the broker may ask about.
pub open spec fn known_action(a: Seq<char>) -> bool {
    ||| a == "org.sentia.system.service-start"@
    ||| a == "org.sentia.system.service-stop"@
    ||| a == "org.sentia.system.service-restart"@
    ||| a == "org.sentia.system.service-enable"@
    ||| a == "org.sentia.system.process-terminate"@
    ||| a == "org.sentia.system.package-install"@
    ||| a == "org.sentia.system.package-remove"@
    ||| a == "org.sentia.system.package-update"@
    ||| a == "org.sentia.system.package-upgrade"@
}

/// Refuses an action that the broker does not know before asking polkit.
pub fn check_action(action: &str) -> (r: Result<(), BrokerError>)
    ensures
        known_action(action@) ==> r is Ok,
        !known_action(action@) ==> refused(r, "invalid_action"@),
{
    if str_eq(action, "org.sentia.system.service-start") || str_eq(action, "org.sentia.system.service-stop")
        || str_eq(action, "org.sentia.system.service-restart") || str_eq(
        action,
        "org.sentia.system.service-enable",
    ) || str_eq(action, "org.sentia.system.process-terminate") || str_eq(
        action,
        "org.sentia.system.package-install",
    ) || str_eq(action, "org.sentia.system.package-remove") || str_eq(
        action,
        "org.sentia.system.package-update",
    ) || str_eq(action, "org.sentia.system.package-upgrade") {
        Ok(())
    } else {
        Err(BrokerError("invalid_action"))
    }
}

/// The codes that D-Bus reports as access denied rather than as a failure.
pub open spec fn denial_code(code: Seq<char>) -> bool {
    code == "authorization_denied"@ || code == "inactive_or_remote_session"@ || code
        == "caller_changed"@
}

pub fn is_access_denial(error: BrokerError) -> (r: bool)
    ensures
        r == denial_code(error.0@),
{
    str_eq(error.0, "authorization_denied") || str_eq(error.0, "inactive_or_remote_session") || str_eq(
        error.0,
        "caller_changed",
    )
}

/// A unique bus name: it starts with `:` and holds at most 255 bytes.
pub fn check_bus_sender(unique_name: &str) -> (r: Result<(), BrokerError>)
    ensures
        (unique_name@.len() > 0 && unique_name@[0] == ':' && utf8_len(unique_name@) <= 255) ==> r is Ok,
        !(unique_name@.len() > 0 && unique_name@[0] == ':' && utf8_len(unique_name@) <= 255)
            ==> refused(r, "invalid_bus_sender"@),
{
    let s = chars_of(unique_name);
    if !(s.len() > 0 && s[0] == ':') || utf8_len_sat(s.as_slice()) > 255 {
        return Err(BrokerError("invalid_bus_sender"));
    }
    Ok(())
}

/// The session that logind reports for the caller may act: it is active,
/// local, of class `user`, and belongs to the caller's user.
pub fn check_session(active: bool, remote: bool, class: &str, session_uid: u32, uid: u32) -> (r: Result<(), BrokerError>)
    ensures
        (active && !remote && class@ == "user"@ && session_uid == uid) ==> r is Ok,
        !(active && !remote && class@ == "user"@ && session_uid == uid) ==> refused(
            r,
            "inactive_or_remote_session"@,
        ),
{
    if !active || remote || !str_eq(class, "user") || session_uid != uid {
        return Err(BrokerError("inactive_or_remote_session"));
    }
    Ok(())
}

} // verus!
