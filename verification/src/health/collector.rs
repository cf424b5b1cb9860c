//! The decisions of the health collector: which mounts to skip, how counters
//! advance, and what the output of `systemctl`, `journalctl` and `smartctl`
//! says.
use super::procfs::{sanitize_checked, sanitize_log_message, sanitized, drop_n};
use super::schema::{
    capability_is, Capability, CapabilityState, DiskHealthState, FailedUnit, KernelError,
    KernelStatus, SystemdStatus,
};
use crate::text::{join, join_from, push_chars, replace_all, replace_chars};
use crate::text::{
    chars_contains, chars_eq, chars_of, concat, contains, lines, lower_chars, lower_seq, owned,
    parse_u64, parse_u64_chars, split_lines, split_words, string_of, trim, trim_bounds, views,
    words,
};
use crate::json::{json_doc_parses, json_parses, json_text, json_text_at, json_u64, json_u64_at};
use vstd::prelude::*;
use vstd::utf8::encode_utf8;

verus! {

/// Limits on how much of each kind of sample one snapshot keeps.
#[derive(Debug, Clone, Copy, PartialEq, Eq, Structural)]
pub struct CollectorConfig {
    pub max_filesystems: usize,
    pub max_processes: usize,
    pub max_kernel_errors: usize,
    pub max_failed_units: usize,
    pub max_network_interfaces: usize,
    pub max_disks: usize,
    pub max_disk_health_devices: usize,
}

impl CollectorConfig {
    /// The default limits.
    pub open spec fn spec_default_limits() -> CollectorConfig {
        CollectorConfig {
            max_filesystems: 32,
            max_processes: 10,
            max_kernel_errors: 16,
            max_failed_units: 32,
            max_network_interfaces: 16,
            max_disks: 16,
            max_disk_health_devices: 8,
        }
    }
}

impl Default for CollectorConfig {
    fn default() -> (r: Self)
        ensures
            r == CollectorConfig::spec_default_limits(),
    {
        Self {
            max_filesystems: 32,
            max_processes: 10,
            max_kernel_errors: 16,
            max_failed_units: 32,
            max_network_interfaces: 16,
            max_disks: 16,
            max_disk_health_devices: 8,
        }
    }
}

/// What a fixed diagnostic command printed, and whether it exited with success.
#[derive(Debug, Clone, PartialEq, Eq)]
pub struct FixedCommandOutput {
    pub stdout: String,
    pub stderr: String,
    pub success: bool,
}

/// Pseudo and virtual file systems that the disk usage report leaves out.
pub open spec fn skipped_fs(t: Seq<char>) -> bool {
    ||| t == "proc"@
    ||| t == "sysfs"@
    ||| t == "tmpfs"@
    ||| t == "devtmpfs"@
    ||| t == "devpts"@
    ||| t == "cgroup"@
    ||| t == "cgroup2"@
    ||| t == "pstore"@
    ||| t == "efivarfs"@
    ||| t == "securityfs"@
    ||| t == "overlay"@
    ||| t == "squashfs"@
    ||| t == "tracefs"@
    ||| t == "configfs"@
    ||| t == "ramfs"@
    ||| t == "autofs"@
    ||| t == "mqueue"@
    ||| t == "debugfs"@
    ||| t == "fusectl"@
}

pub fn should_skip_fs(fs_type: &str) -> (r: bool)
    ensures
        r == skipped_fs(fs_type@),
{
    let t = chars_of(fs_type);
    let names: [&str; 19] = [
        "proc",
        "sysfs",
        "tmpfs",
        "devtmpfs",
        "devpts",
        "cgroup",
        "cgroup2",
        "pstore",
        "efivarfs",
        "securityfs",
        "overlay",
        "squashfs",
        "tracefs",
        "configfs",
        "ramfs",
        "autofs",
        "mqueue",
        "debugfs",
        "fusectl",
    ];
    let mut i: usize = 0;
    while i < 19
        invariant
            i <= 19,
            t@ == fs_type@,
            names@ == seq![
                "proc",
                "sysfs",
                "tmpfs",
                "devtmpfs",
                "devpts",
                "cgroup",
                "cgroup2",
                "pstore",
                "efivarfs",
                "securityfs",
                "overlay",
                "squashfs",
                "tracefs",
                "configfs",
                "ramfs",
                "autofs",
                "mqueue",
                "debugfs",
                "fusectl",
            ],
            forall|j: int| 0 <= j < i ==> fs_type@ != (#[trigger] names@[j])@,
        decreases 19 - i,
    {
        let n = chars_of(names[i]);
        if chars_eq(t.as_slice(), n.as_slice()) {
            return true;
        }
        i = i + 1;
    }
    assert(!skipped_fs(fs_type@)) by {
        assert(fs_type@ != names@[0]@);
        assert(fs_type@ != names@[1]@);
        assert(fs_type@ != names@[2]@);
        assert(fs_type@ != names@[3]@);
        assert(fs_type@ != names@[4]@);
        assert(fs_type@ != names@[5]@);
        assert(fs_type@ != names@[6]@);
        assert(fs_type@ != names@[7]@);
        assert(fs_type@ != names@[8]@);
        assert(fs_type@ != names@[9]@);
        assert(fs_type@ != names@[10]@);
        assert(fs_type@ != names@[11]@);
        assert(fs_type@ != names@[12]@);
        assert(fs_type@ != names@[13]@);
        assert(fs_type@ != names@[14]@);
        assert(fs_type@ != names@[15]@);
        assert(fs_type@ != names@[16]@);
        assert(fs_type@ != names@[17]@);
        assert(fs_type@ != names@[18]@);
    }
    false
}

/// How far a counter advanced, and whether it went back (a reset).
pub fn counter_delta(current: u64, previous: u64) -> (r: (u64, bool))
    ensures
        current >= previous ==> r == (((current - previous) as u64, false)),
        current < previous ==> r == (0u64, true),
{
    if current >= previous {
        (current - previous, false)
    } else {
        (0, true)
    }
}

/// Text that reports a refused permission, in any letter case.
pub open spec fn reports_permission_denied(content: Seq<char>) -> bool {
    contains(lower_seq(content), "permission denied"@) || contains(
        lower_seq(content),
        "operation not permitted"@,
    )
}

pub fn is_permission_denied(content: &str) -> (r: bool)
    ensures
        r == reports_permission_denied(content@),
{
    let lower = lower_chars(chars_of(content).as_slice());
    chars_contains(lower.as_slice(), chars_of("permission denied").as_slice()) || chars_contains(
        lower.as_slice(),
        chars_of("operation not permitted").as_slice(),
    )
}


/// The octal escapes that `/proc/mounts` uses for space, tab, newline and
/// backslash, decoded in that order.
pub open spec fn unescaped_mount(raw: Seq<char>) -> Seq<char> {
    replace_all(
        replace_all(
            replace_all(replace_all(raw, "\\040"@, " "@), "\\011"@, "\t"@),
            "\\012"@,
            "\n"@,
        ),
        "\\134"@,
        "\\"@,
    )
}

pub fn unescape_mount(raw: &str) -> (r: String)
    ensures
        r@ == unescaped_mount(raw@),
{
    proof {
        reveal_strlit("\\040");
        reveal_strlit("\\011");
        reveal_strlit("\\012");
        reveal_strlit("\\134");
    }
    let a = replace_chars(chars_of(raw).as_slice(), chars_of("\\040").as_slice(), chars_of(" ").as_slice());
    let b = replace_chars(a.as_slice(), chars_of("\\011").as_slice(), chars_of("\t").as_slice());
    let c = replace_chars(b.as_slice(), chars_of("\\012").as_slice(), chars_of("\n").as_slice());
    let d = replace_chars(c.as_slice(), chars_of("\\134").as_slice(), chars_of("\\").as_slice());
    string_of(d.as_slice())
}

/// One line of `systemctl --failed --plain --no-legend`: unit, active state,
/// sub state and description, when the line has at least four fields.
pub open spec fn failed_unit_entry(line: Seq<char>) -> Option<(Seq<char>, Seq<char>, Seq<char>, Seq<char>)> {
    let w = words(line);
    if w.len() < 4 {
        None
    } else {
        Some((w[0], w[2], w[3], join(w.skip(4), " "@)))
    }
}

pub open spec fn failed_unit_entries(ls: Seq<Seq<char>>) -> Seq<(Seq<char>, Seq<char>, Seq<char>, Seq<char>)>
    decreases ls.len(),
{
    if ls.len() == 0 {
        Seq::empty()
    } else {
        match failed_unit_entry(ls.last()) {
            Some(e) => failed_unit_entries(ls.drop_last()).push(e),
            None => failed_unit_entries(ls.drop_last()),
        }
    }
}

pub open spec fn unit_view(u: FailedUnit) -> (Seq<char>, Seq<char>, Seq<char>, Seq<char>) {
    (u.unit@, u.active_state@, u.sub_state@, u.description@)
}

pub open spec fn units_view(us: Seq<FailedUnit>) -> Seq<(Seq<char>, Seq<char>, Seq<char>, Seq<char>)> {
    us.map_values(|u: FailedUnit| unit_view(u))
}

/// The first `n` items of `s`, or all of them.
pub open spec fn take_at_most<A>(s: Seq<A>, n: int) -> Seq<A> {
    if s.len() <= n {
        s
    } else {
        s.take(n)
    }
}

fn failed_unit_line(line: &[char]) -> (r: Option<FailedUnit>)
    ensures
        match r {
            Some(u) => failed_unit_entry(line@) == Some(unit_view(u)),
            None => failed_unit_entry(line@) is None,
        },
{
    let w = split_words(line);
    if w.len() < 4 {
        return None;
    }
    assert(views(w@)[0] == w@[0]@);
    assert(views(w@)[2] == w@[2]@);
    assert(views(w@)[3] == w@[3]@);
    let description = join_from(&w, 4, chars_of(" ").as_slice());
    Some(
        FailedUnit {
            unit: string_of(w[0].as_slice()),
            active_state: string_of(w[2].as_slice()),
            sub_state: string_of(w[3].as_slice()),
            description: string_of(description.as_slice()),
        },
    )
}

/// The failed units that `systemctl` listed, at most `max` of them.
pub fn failed_units_from_listing(stdout: &str, max: usize) -> (r: Vec<FailedUnit>)
    ensures
        units_view(r@) == take_at_most(failed_unit_entries(lines(stdout@)), max as int),
{
    let ls = split_lines(chars_of(stdout).as_slice());
    let ghost all = lines(stdout@);
    let mut units: Vec<FailedUnit> = Vec::new();
    let mut i: usize = 0;
    assert(all.take(0) =~= Seq::<Seq<char>>::empty());
    assert(units_view(units@) =~= Seq::empty());
    while i < ls.len()
        invariant
            i <= ls.len(),
            views(ls@) == all,
            all == lines(stdout@),
            units_view(units@) == failed_unit_entries(all.take(i as int)),
        decreases ls.len() - i,
    {
        assert(ls@[i as int]@ == all[i as int]);
        assert(all.take(i + 1).drop_last() =~= all.take(i as int));
        assert(all.take(i + 1).last() == all[i as int]);
        match failed_unit_line(ls[i].as_slice()) {
            Some(u) => {
                let ghost before = units@;
                units.push(u);
                assert(units_view(units@) =~= units_view(before).push(unit_view(u)));
            },
            None => {},
        }
        i = i + 1;
    }
    assert(all.take(ls.len() as int) =~= all);
    if units.len() > max {
        let ghost full = units@;
        units.truncate(max);
        assert(units_view(units@) =~= units_view(full).take(max as int));
    }
    units
}

/// What a failed `systemctl` run means: systemd not running, access denied,
/// or a plain failure.
pub open spec fn systemctl_failure(stdout: Seq<char>, stderr: Seq<char>) -> (CapabilityState, Seq<char>) {
    let joined = stdout + "\n"@ + stderr;
    if contains(joined, "System has not been booted with systemd"@) {
        (CapabilityState::Unavailable, "systemd not running"@)
    } else if reports_permission_denied(joined) {
        (CapabilityState::PermissionDenied, "systemctl access denied"@)
    } else {
        (CapabilityState::Error, "systemctl execution failed"@)
    }
}

/// The systemd report from the outcome of `systemctl --failed`: the
/// capability is reported twice, in the status and beside it.
pub fn systemd_status_from_output(outcome: Result<FixedCommandOutput, Capability>, max: usize) -> (r: (
    SystemdStatus,
    Capability,
))
    ensures
        r.0.capability == r.1,
        match outcome {
            Err(c) => r.1 == c && r.0.failed_units@.len() == 0,
            Ok(o) => if o.success {
                r.1.state == CapabilityState::Available && r.1.detail is None && units_view(
                    r.0.failed_units@,
                ) == take_at_most(failed_unit_entries(lines(o.stdout@)), max as int)
            } else {
                capability_is(
                    r.1,
                    systemctl_failure(o.stdout@, o.stderr@).0,
                    systemctl_failure(o.stdout@, o.stderr@).1,
                ) && r.0.failed_units@.len() == 0
            },
        },
{
    match outcome {
        Err(capability) => (
            SystemdStatus { failed_units: Vec::new(), capability: capability.clone() },
            capability,
        ),
        Ok(output) => {
            if !output.success {
                let joined = concat(concat(output.stdout.as_str(), "\n").as_str(), output.stderr.as_str());
                let capability = if chars_contains(
                    chars_of(joined.as_str()).as_slice(),
                    chars_of("System has not been booted with systemd").as_slice(),
                ) {
                    Capability::unavailable("systemd not running")
                } else if is_permission_denied(joined.as_str()) {
                    Capability::permission_denied("systemctl access denied")
                } else {
                    Capability::error("systemctl execution failed")
                };
                return (
                    SystemdStatus { failed_units: Vec::new(), capability: capability.clone() },
                    capability,
                );
            }
            let units = failed_units_from_listing(output.stdout.as_str(), max);
            let capability = Capability::available();
            (SystemdStatus { failed_units: units, capability: capability.clone() }, capability)
        },
    }
}

/// The disk health over all devices: degraded if any is, else healthy if any
/// is, else unknown.
pub open spec fn overall_health(states: Seq<DiskHealthState>) -> DiskHealthState {
    if exists|i: int| 0 <= i < states.len() && states[i] == DiskHealthState::Degraded {
        DiskHealthState::Degraded
    } else if exists|i: int| 0 <= i < states.len() && states[i] == DiskHealthState::Healthy {
        DiskHealthState::Healthy
    } else {
        DiskHealthState::Unknown
    }
}

/// How much a disk state weighs in the overall state: a degraded disk
/// outweighs a healthy one, which outweighs an unknown one.
pub open spec fn health_rank(s: DiskHealthState) -> int {
    match s {
        DiskHealthState::Unknown => 0,
        DiskHealthState::Healthy => 1,
        DiskHealthState::Degraded => 2,
    }
}

/// The overall disk state is the weightiest of the devices' states: one
/// degraded disk makes it degraded whatever the others report, it is never
/// lighter than any device, it is the state of some device when there is
/// one, and it is unknown without devices.
pub proof fn lemma_overall_is_the_worst(states: Seq<DiskHealthState>)
    ensures
        states.contains(DiskHealthState::Degraded) ==> overall_health(states)
            == DiskHealthState::Degraded,
        forall|i: int| 0 <= i < states.len() ==> health_rank(#[trigger] states[i]) <= health_rank(
            overall_health(states),
        ),
        states.len() > 0 ==> states.contains(overall_health(states)),
        states.len() == 0 ==> overall_health(states) == DiskHealthState::Unknown,
{
    if states.contains(DiskHealthState::Degraded) {
        let i = choose|i: int| 0 <= i < states.len() && states[i] == DiskHealthState::Degraded;
        assert(states[i] == DiskHealthState::Degraded);
    }
    if states.len() > 0 {
        let o = overall_health(states);
        if o == DiskHealthState::Unknown {
            assert(states[0] == DiskHealthState::Unknown);
        }
    }
}

pub fn overall_disk_health(states: &[DiskHealthState]) -> (r: DiskHealthState)
    ensures
        r == overall_health(states@),
{
    let mut degraded = false;
    let mut healthy = false;
    let mut i: usize = 0;
    while i < states.len()
        invariant
            i <= states.len(),
            degraded == exists|j: int| 0 <= j < i && states@[j] == DiskHealthState::Degraded,
            healthy == exists|j: int| 0 <= j < i && states@[j] == DiskHealthState::Healthy,
        decreases states.len() - i,
    {
        if states[i] == DiskHealthState::Degraded {
            degraded = true;
        }
        if states[i] == DiskHealthState::Healthy {
            healthy = true;
        }
        i = i + 1;
    }
    if degraded {
        DiskHealthState::Degraded
    } else if healthy {
        DiskHealthState::Healthy
    } else {
        DiskHealthState::Unknown
    }
}

/// What `smartctl -H` reports for a device: the health it prints, a note,
/// and the capability of the probe.
pub open spec fn smartctl_verdict(outcome: Result<FixedCommandOutput, Capability>) -> (DiskHealthState, Option<Seq<char>>, Option<(CapabilityState, Seq<char>)>) {
    match outcome {
        Err(c) => (DiskHealthState::Unknown, Some("smartctl unavailable"@), None),
        Ok(o) => {
            let body = o.stdout@ + "\n"@ + o.stderr@;
            if reports_permission_denied(body) {
                (
                    DiskHealthState::Unknown,
                    Some("read-only probe blocked by permission"@),
                    Some((CapabilityState::PermissionDenied, "smartctl denied for "@)),
                )
            } else {
                let lower = lower_seq(body);
                let health = if contains(lower, "test result: passed"@) || contains(
                    lower,
                    "health status: ok"@,
                ) {
                    DiskHealthState::Healthy
                } else if contains(lower, "test result: failed"@) || contains(
                    lower,
                    "health status: critical"@,
                ) {
                    DiskHealthState::Degraded
                } else {
                    DiskHealthState::Unknown
                };
                let note = if !o.success && health == DiskHealthState::Unknown {
                    Some("smartctl returned non-zero status"@)
                } else {
                    None
                };
                (health, note, None)
            }
        },
    }
}

/// The health reading of one `smartctl -H` probe of `device`: its health, a
/// note, and the capability of the probe (the outcome's own on failure, a
/// refusal naming the device, or available).
pub fn smartctl_probe(device: &str, outcome: Result<FixedCommandOutput, Capability>) -> (r: (
    DiskHealthState,
    Option<String>,
    Capability,
))
    ensures
        r.0 == smartctl_verdict(outcome).0,
        match (r.1, smartctl_verdict(outcome).1) {
            (Some(n), Some(m)) => n@ == m,
            (None, None) => true,
            _ => false,
        },
        match outcome {
            Err(c) => r.2 == c,
            Ok(o) => if smartctl_verdict(outcome).2 is Some {
                capability_is(r.2, CapabilityState::PermissionDenied, "smartctl denied for "@ + device@)
            } else {
                r.2.state == CapabilityState::Available && r.2.detail is None
            },
        },
{
    let ghost spec_outcome = outcome;
    match outcome {
        Err(capability) => (DiskHealthState::Unknown, Some(owned("smartctl unavailable")), capability),
        Ok(output) => {
            let body = concat(concat(output.stdout.as_str(), "\n").as_str(), output.stderr.as_str());
            if is_permission_denied(body.as_str()) {
                let detail = concat("smartctl denied for ", device);
                return (
                    DiskHealthState::Unknown,
                    Some(owned("read-only probe blocked by permission")),
                    Capability::permission_denied(detail.as_str()),
                );
            }
            let lower = lower_chars(chars_of(body.as_str()).as_slice());
            let l = lower.as_slice();
            let health = if chars_contains(l, chars_of("test result: passed").as_slice())
                || chars_contains(l, chars_of("health status: ok").as_slice()) {
                DiskHealthState::Healthy
            } else if chars_contains(l, chars_of("test result: failed").as_slice())
                || chars_contains(l, chars_of("health status: critical").as_slice()) {
                DiskHealthState::Degraded
            } else {
                DiskHealthState::Unknown
            };
            let note = if !output.success && health == DiskHealthState::Unknown {
                Some(owned("smartctl returned non-zero status"))
            } else {
                None
            };
            (health, note, Capability::available())
        },
    }
}


/// What an `nvme smart-log -o json` probe says: its health, a note, and
/// whether the probe was refused.
pub open spec fn nvme_verdict(outcome: Result<FixedCommandOutput, Capability>) -> (DiskHealthState, Option<Seq<char>>, bool) {
    match outcome {
        Err(c) => (DiskHealthState::Unknown, Some("nvme tool unavailable"@), false),
        Ok(o) => {
            let doc = vstd::utf8::encode_utf8(o.stdout@);
            if reports_permission_denied(o.stdout@ + "\n"@ + o.stderr@) {
                (DiskHealthState::Unknown, Some("read-only probe blocked by permission"@), true)
            } else if !json_parses(doc) {
                (DiskHealthState::Unknown, Some("nvme output parse failed"@), false)
            } else if json_u64_at(doc, "/critical_warning"@) matches Some(w) && w != 0 {
                (DiskHealthState::Degraded, None, false)
            } else {
                (DiskHealthState::Healthy, None, false)
            }
        },
    }
}

/// The health reading of one NVMe SMART log probe of `device`: its health
/// (degraded exactly when the log reports a non-zero critical warning), a
/// note, and the capability of the probe (the outcome's own on failure, a
/// refusal naming the device, or available).
pub fn nvme_probe(device: &str, outcome: Result<FixedCommandOutput, Capability>) -> (r: (
    DiskHealthState,
    Option<String>,
    Capability,
))
    ensures
        r.0 == nvme_verdict(outcome).0,
        match (r.1, nvme_verdict(outcome).1) {
            (Some(n), Some(m)) => n@ == m,
            (None, None) => true,
            _ => false,
        },
        match outcome {
            Err(c) => r.2 == c,
            Ok(o) => if nvme_verdict(outcome).2 {
                capability_is(r.2, CapabilityState::PermissionDenied, "nvme denied for "@ + device@)
            } else {
                r.2.state == CapabilityState::Available && r.2.detail is None
            },
        },
{
    match outcome {
        Err(capability) => (DiskHealthState::Unknown, Some(owned("nvme tool unavailable")), capability),
        Ok(output) => {
            let body = concat(concat(output.stdout.as_str(), "\n").as_str(), output.stderr.as_str());
            if is_permission_denied(body.as_str()) {
                let detail = concat("nvme denied for ", device);
                return (
                    DiskHealthState::Unknown,
                    Some(owned("read-only probe blocked by permission")),
                    Capability::permission_denied(detail.as_str()),
                );
            }
            let doc = output.stdout.as_str().as_bytes();
            if !json_doc_parses(doc) {
                return (
                    DiskHealthState::Unknown,
                    Some(owned("nvme output parse failed")),
                    Capability::available(),
                );
            }
            let health = match json_u64(doc, "/critical_warning") {
                Some(w) => if w != 0 {
                    DiskHealthState::Degraded
                } else {
                    DiskHealthState::Healthy
                },
                None => DiskHealthState::Healthy,
            };
            (health, None, Capability::available())
        },
    }
}

/// The string fields of one `journalctl --output=json` record that the
/// report reads: message, realtime timestamp, priority and syslog identifier.
#[derive(Debug, Clone, PartialEq, Eq)]
pub struct JournalFields {
    pub message: Option<String>,
    pub timestamp: Option<String>,
    pub priority: Option<String>,
    pub identifier: Option<String>,
}

pub open spec fn opt_view(o: Option<String>) -> Option<Seq<char>> {
    match o {
        Some(s) => Some(s@),
        None => None,
    }
}

pub open spec fn journal_view(f: JournalFields) -> (
    Option<Seq<char>>,
    Option<Seq<char>>,
    Option<Seq<char>>,
    Option<Seq<char>>,
) {
    (opt_view(f.message), opt_view(f.timestamp), opt_view(f.priority), opt_view(f.identifier))
}

/// The fields of a journal line: `None` when it is not JSON, and each field
/// when the line holds a string under that key.
pub open spec fn journal_json_fields(line: Seq<char>) -> Option<
    (Option<Seq<char>>, Option<Seq<char>>, Option<Seq<char>>, Option<Seq<char>>),
> {
    let doc = encode_utf8(line);
    if !json_parses(doc) {
        None
    } else {
        Some(
            (
                json_text_at(doc, "/MESSAGE"@),
                json_text_at(doc, "/__REALTIME_TIMESTAMP"@),
                json_text_at(doc, "/PRIORITY"@),
                json_text_at(doc, "/SYSLOG_IDENTIFIER"@),
            ),
        )
    }
}

/// Reads the fields of one journal line.
fn parse_journal_line(line: &str) -> (r: Option<JournalFields>)
    ensures
        match r {
            Some(f) => journal_json_fields(line@) == Some(journal_view(f)),
            None => journal_json_fields(line@) is None,
        },
{
    let doc = line.as_bytes();
    if !json_doc_parses(doc) {
        return None;
    }
    Some(
        JournalFields {
            message: json_text(doc, "/MESSAGE"),
            timestamp: json_text(doc, "/__REALTIME_TIMESTAMP"),
            priority: json_text(doc, "/PRIORITY"),
            identifier: json_text(doc, "/SYSLOG_IDENTIFIER"),
        },
    )
}

/// `u8::from_str`.
pub open spec fn parse_u8(s: Seq<char>) -> Option<u8> {
    match parse_u64(s) {
        Some(v) => if v <= 255 {
            Some(v as u8)
        } else {
            None
        },
        None => None,
    }
}

pub open spec fn msg_or_empty(m: Option<Seq<char>>) -> Seq<char> {
    match m {
        Some(s) => s,
        None => Seq::empty(),
    }
}

/// The kernel error that a journal record gives: its message redacted and cut
/// to 180 bytes, its timestamp and identifier, and its priority when that is
/// a number below 256.
pub open spec fn kernel_error_of(
    j: (Option<Seq<char>>, Option<Seq<char>>, Option<Seq<char>>, Option<Seq<char>>),
) -> (Option<Seq<char>>, Option<u8>, Option<Seq<char>>, Seq<char>) {
    (
        j.1,
        match j.2 {
            Some(p) => parse_u8(p),
            None => None,
        },
        j.3,
        sanitized(msg_or_empty(j.0), 180)->0,
    )
}

pub open spec fn kernel_error_view(e: KernelError) -> (Option<Seq<char>>, Option<u8>, Option<Seq<char>>, Seq<char>) {
    (opt_view(e.timestamp), e.priority, opt_view(e.identifier), e.message@)
}

fn opt_string_clone(o: &Option<String>) -> (r: Option<String>)
    ensures
        opt_view(r) == opt_view(*o),
{
    match o {
        Some(s) => Some(s.clone()),
        None => None,
    }
}

/// The kernel error that one journal record describes.
pub fn kernel_error_from_fields(f: &JournalFields) -> (r: KernelError)
    requires
        sanitized(msg_or_empty(opt_view(f.message)), 180) is Some,
    ensures
        kernel_error_view(r) == kernel_error_of(journal_view(*f)),
{
    proof {
        reveal_strlit("");
        assert(""@ =~= Seq::<char>::empty());
    }
    let message = match &f.message {
        Some(m) => sanitize_log_message(m.as_str(), 180),
        None => sanitize_log_message("", 180),
    };
    let priority = match &f.priority {
        Some(p) => match parse_u64_chars(chars_of(p.as_str()).as_slice()) {
            Some(v) => if v <= 255 {
                Some(v as u8)
            } else {
                None
            },
            None => None,
        },
        None => None,
    };
    proof {
        reveal_strlit("");
        assert(""@ =~= Seq::<char>::empty());
    }
    KernelError {
        timestamp: opt_string_clone(&f.timestamp),
        priority,
        identifier: opt_string_clone(&f.identifier),
        message,
    }
}

/// The journal records of the non-blank lines that parse as JSON.
pub open spec fn journal_records(ls: Seq<Seq<char>>) -> Seq<
    (Option<Seq<char>>, Option<Seq<char>>, Option<Seq<char>>, Option<Seq<char>>),
>
    decreases ls.len(),
{
    if ls.len() == 0 {
        Seq::empty()
    } else if trim(ls.last()).len() == 0 || journal_json_fields(ls.last()) is None {
        journal_records(ls.drop_last())
    } else {
        journal_records(ls.drop_last()).push(journal_json_fields(ls.last())->0)
    }
}

/// Every record's message can be cut at 180 bytes.
pub open spec fn records_cuttable(
    rs: Seq<(Option<Seq<char>>, Option<Seq<char>>, Option<Seq<char>>, Option<Seq<char>>)>,
) -> bool {
    forall|i: int| 0 <= i < rs.len() ==> (#[trigger] sanitized(msg_or_empty(rs[i].0), 180)) is Some
}

/// What a failed `journalctl` run means.
pub open spec fn journalctl_failure(stdout: Seq<char>, stderr: Seq<char>) -> (CapabilityState, Seq<char>) {
    let joined = stdout + "\n"@ + stderr;
    if reports_permission_denied(joined) || contains(
        joined,
        "No journal files were opened due to insufficient permissions"@,
    ) {
        (CapabilityState::PermissionDenied, "journalctl requires journal read permission"@)
    } else if contains(joined, "No journal files were found"@) {
        (CapabilityState::Unavailable, "journal unavailable"@)
    } else {
        (CapabilityState::Error, "journalctl execution failed"@)
    }
}

/// The kernel error report from the outcome of `journalctl -k -o json`,
/// keeping at most `max` records; `None` where a message could not be cut
/// at a character boundary.
pub fn kernel_status_from_output(outcome: Result<FixedCommandOutput, Capability>, max: usize) -> (r: Option<
    (KernelStatus, Capability),
>)
    ensures
        match r {
            None => outcome matches Ok(o) && o.success && !records_cuttable(
                journal_records(lines(o.stdout@)),
            ),
            Some(p) => p.0.capability == p.1 && match outcome {
                Err(c) => p.1 == c && p.0.recent_errors@.len() == 0 && !p.0.truncated,
                Ok(o) => if o.success {
                    let rs = journal_records(lines(o.stdout@));
                    &&& records_cuttable(rs)
                    &&& p.1.state == CapabilityState::Available
                    &&& p.1.detail is None
                    &&& p.0.recent_errors@.map_values(|e: KernelError| kernel_error_view(e))
                        == take_at_most(rs.map_values(|j| kernel_error_of(j)), max as int)
                    &&& p.0.truncated == (rs.len() >= max)
                } else {
                    &&& capability_is(
                        p.1,
                        journalctl_failure(o.stdout@, o.stderr@).0,
                        journalctl_failure(o.stdout@, o.stderr@).1,
                    )
                    &&& p.0.recent_errors@.len() == 0
                    &&& !p.0.truncated
                },
            },
        },
{
    let output = match outcome {
        Err(capability) => {
            return Some(
                (
                    KernelStatus {
                        recent_errors: Vec::new(),
                        truncated: false,
                        capability: capability.clone(),
                    },
                    capability,
                ),
            );
        },
        Ok(o) => o,
    };
    if !output.success {
        let joined = concat(concat(output.stdout.as_str(), "\n").as_str(), output.stderr.as_str());
        let j = chars_of(joined.as_str());
        let capability = if is_permission_denied(joined.as_str()) || chars_contains(
            j.as_slice(),
            chars_of("No journal files were opened due to insufficient permissions").as_slice(),
        ) {
            Capability::permission_denied("journalctl requires journal read permission")
        } else if chars_contains(j.as_slice(), chars_of("No journal files were found").as_slice()) {
            Capability::unavailable("journal unavailable")
        } else {
            Capability::error("journalctl execution failed")
        };
        return Some(
            (
                KernelStatus {
                    recent_errors: Vec::new(),
                    truncated: false,
                    capability: capability.clone(),
                },
                capability,
            ),
        );
    }
    let ls = split_lines(chars_of(output.stdout.as_str()).as_slice());
    let ghost all = lines(output.stdout@);
    let mut errors: Vec<KernelError> = Vec::new();
    let mut count: usize = 0;
    let mut i: usize = 0;
    assert(all.take(0) =~= Seq::<Seq<char>>::empty());
    while i < ls.len()
        invariant
            i <= ls.len(),
            views(ls@) == all,
            all == lines(output.stdout@),
            outcome == Ok::<FixedCommandOutput, Capability>(output),
            output.success,
            records_cuttable(journal_records(all.take(i as int))),
            count == journal_records(all.take(i as int)).len(),
            count <= i,
            errors@.map_values(|e: KernelError| kernel_error_view(e)) == journal_records(
                all.take(i as int),
            ).map_values(|j| kernel_error_of(j)),
        decreases ls.len() - i,
    {
        let ghost line = all[i as int];
        assert(ls@[i as int]@ == line);
        assert(all.take(i + 1).drop_last() =~= all.take(i as int));
        assert(all.take(i + 1).last() == line);
        let ghost before = journal_records(all.take(i as int));
        let (a, b) = trim_bounds(ls[i].as_slice(), 0, ls[i].len());
        assert(ls@[i as int]@.subrange(0, ls@[i as int]@.len() as int) =~= line);
        if a < b {
            let text = string_of(ls[i].as_slice());
            match parse_journal_line(text.as_str()) {
                None => {},
                Some(f) => {
                    let cut = match &f.message {
                        Some(m) => sanitize_checked(m.as_str(), 180),
                        None => sanitize_checked("", 180),
                    };
                    proof {
                        reveal_strlit("");
                        assert(""@ =~= Seq::<char>::empty());
                    }
                    if cut.is_none() {
                        proof {
                            assert(journal_records(all.take(i + 1)) == before.push(journal_view(f)));
                            lemma_records_uncuttable(all, i as int + 1, before.len() as int);
                        }
                        return None;
                    }
                    let e = kernel_error_from_fields(&f);
                    let ghost old_e = errors@;
                    errors.push(e);
                    count = count + 1;
                    proof {
                        assert(journal_records(all.take(i + 1)) == before.push(journal_view(f)));
                        assert(errors@.map_values(|e: KernelError| kernel_error_view(e))
                            =~= old_e.map_values(|e: KernelError| kernel_error_view(e)).push(
                            kernel_error_view(e),
                        ));
                        assert(before.push(journal_view(f)).map_values(|j| kernel_error_of(j))
                            =~= before.map_values(|j| kernel_error_of(j)).push(
                            kernel_error_of(journal_view(f)),
                        ));
                        let rs = before.push(journal_view(f));
                        assert forall|k: int| 0 <= k < rs.len() implies (#[trigger] sanitized(
                            msg_or_empty(rs[k].0),
                            180,
                        )) is Some by {
                            if k < before.len() {
                                assert(rs[k] == before[k]);
                            }
                        }
                    }
                },
            }
        }
        i = i + 1;
    }
    assert(all.take(ls.len() as int) =~= all);
    let truncated = count >= max;
    if errors.len() > max {
        let ghost full = errors@;
        errors.truncate(max);
        assert(errors@.map_values(|e: KernelError| kernel_error_view(e)) =~= full.map_values(
            |e: KernelError| kernel_error_view(e),
        ).take(max as int));
    }
    let capability = Capability::available();
    Some(
        (KernelStatus { recent_errors: errors, truncated, capability: capability.clone() }, capability),
    )
}

proof fn lemma_records_prefix(all: Seq<Seq<char>>, k: int, m: int)
    requires
        0 <= k <= m <= all.len(),
    ensures
        journal_records(all.take(k)) == journal_records(all.take(m)).take(
            journal_records(all.take(k)).len() as int,
        ),
        journal_records(all.take(k)).len() <= journal_records(all.take(m)).len(),
    decreases m - k,
{
    if k < m {
        lemma_records_prefix(all, k, m - 1);
        assert(all.take(m).drop_last() =~= all.take(m - 1));
        let a = journal_records(all.take(k));
        let b = journal_records(all.take(m - 1));
        let c = journal_records(all.take(m));
        if c.len() > b.len() {
            assert(c.drop_last() == b);
            assert(c.take(a.len() as int) =~= b.take(a.len() as int));
        } else {
            assert(c == b);
        }
    } else {
        assert(journal_records(all.take(k)).take(journal_records(all.take(k)).len() as int)
            =~= journal_records(all.take(k)));
    }
}

proof fn lemma_records_uncuttable(all: Seq<Seq<char>>, k: int, idx: int)
    requires
        0 <= k <= all.len(),
        0 <= idx < journal_records(all.take(k)).len(),
        sanitized(msg_or_empty(journal_records(all.take(k))[idx].0), 180) is None,
    ensures
        !records_cuttable(journal_records(all)),
{
    lemma_records_prefix(all, k, all.len() as int);
    assert(all.take(all.len() as int) =~= all);
    let rs = journal_records(all);
    assert(rs[idx] == journal_records(all.take(k))[idx]);
    assert(sanitized(msg_or_empty(rs[idx].0), 180) is None);
}

} // verus!
