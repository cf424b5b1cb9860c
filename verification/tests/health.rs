use sentia::health::alert::{AlertLog, AlertTransition, ConditionCounters, SampleReading};
use sentia::health::cli::Cli;
use sentia::health::collector::{nvme_probe, FixedCommandOutput};
use sentia::health::schema::{Capability, CapabilityState, DiskHealthState};
use sentia::health::monitor::{next_interval, AdaptiveIntervals, DaemonConfig, IntervalChoice, MonitorConfig};

fn hot() -> SampleReading {
    SampleReading { at_or_above_activate: true, at_or_below_clear: false, significant_change: true }
}

fn cold() -> SampleReading {
    SampleReading { at_or_above_activate: false, at_or_below_clear: true, significant_change: true }
}

fn middle() -> SampleReading {
    SampleReading { at_or_above_activate: false, at_or_below_clear: false, significant_change: false }
}

#[test]
fn alerts_need_a_full_streak_and_clear_only_when_low() {
    let mut c = ConditionCounters::fresh(0);
    assert_eq!(c.step(hot(), 2, 10), AlertTransition::Unchanged);
    assert_eq!(c.step(cold(), 2, 20), AlertTransition::Unchanged);
    assert_eq!(c.step(hot(), 2, 30), AlertTransition::Unchanged);
    assert_eq!(c.step(hot(), 2, 40), AlertTransition::Activated);
    assert!(c.active);
    assert_eq!(c.step(middle(), 2, 50), AlertTransition::Unchanged);
    assert_eq!(c.step(cold(), 2, 60), AlertTransition::Unchanged);
    assert_eq!(c.step(cold(), 2, 70), AlertTransition::Resolved);
    assert!(!c.active);
}

#[test]
fn alert_log_keeps_the_most_recent_records() {
    let mut log: AlertLog<u32> = AlertLog::new(3);
    for i in 0..5u32 {
        log.push(i);
    }
    assert_eq!(log.as_slice(), &[2, 3, 4]);
}

#[test]
fn sampling_interval_follows_activity() {
    let mut stable = 0usize;
    assert_eq!(next_interval(&mut stable, false, true), IntervalChoice::Normal);
    for _ in 0..4 {
        assert_eq!(next_interval(&mut stable, false, false), IntervalChoice::Normal);
    }
    assert_eq!(next_interval(&mut stable, false, false), IntervalChoice::Max);
    assert_eq!(next_interval(&mut stable, true, false), IntervalChoice::Min);
    assert_eq!(stable, 0);
}

#[test]
fn command_line_intervals_are_clamped() {
    let mut cli = Cli::default();
    cli.min_interval_ms = 100;
    cli.normal_interval_ms = 50;
    cli.max_interval_ms = 40;
    cli.max_kernel_errors = 3;
    let intervals = AdaptiveIntervals::from_cli(&cli);
    assert_eq!(intervals, AdaptiveIntervals { min_ms: 250, normal_ms: 100, max_ms: 50 });
    assert_eq!(intervals.interval_ms(IntervalChoice::Max), 50);
    let config = MonitorConfig::from_cli(&cli);
    assert_eq!(config.collector.max_kernel_errors, 3);
    assert_eq!(config.collector.max_processes, 10);
    assert_eq!(config.alert_log_capacity, 256);
    let daemon = DaemonConfig::default();
    assert_eq!(daemon.socket_path, "/run/sentia/health.sock");
    assert_eq!(daemon.poll_sleep_ms, 200);
    assert_eq!(daemon.monitor.intervals, AdaptiveIntervals::default());
}

#[test]
fn an_active_alert_stays_until_its_last_readings_are_low() {
    // cpu_high: activate at 90, clear below 80, two samples.
    let mut c = ConditionCounters::fresh(0);
    assert_eq!(c.step(hot(), 2, 1), AlertTransition::Unchanged);
    assert_eq!(c.step(hot(), 2, 2), AlertTransition::Activated);
    // 85 % after activation keeps the alert.
    assert_eq!(c.step(middle(), 2, 3), AlertTransition::Unchanged);
    assert!(c.active);
    // One low reading, then a middle one: the low streak starts over.
    assert_eq!(c.step(cold(), 2, 4), AlertTransition::Unchanged);
    assert_eq!(c.step(middle(), 2, 5), AlertTransition::Unchanged);
    assert!(c.active);
    // Two low readings in a row clear it.
    assert_eq!(c.step(cold(), 2, 6), AlertTransition::Unchanged);
    assert_eq!(c.step(cold(), 2, 7), AlertTransition::Resolved);
    assert!(!c.active);
}

fn output(stdout: &str, stderr: &str) -> FixedCommandOutput {
    FixedCommandOutput { stdout: stdout.to_owned(), stderr: stderr.to_owned(), success: true }
}

#[test]
fn nvme_probes_read_the_critical_warning() {
    let (h, note, cap) = nvme_probe("nvme0n1", Ok(output("{\"critical_warning\":0,\"temperature\":310}", "")));
    assert_eq!((h, note), (DiskHealthState::Healthy, None));
    assert_eq!(cap.state, CapabilityState::Available);
    let (h, _, _) = nvme_probe("nvme0n1", Ok(output("{\"critical_warning\":4}", "")));
    assert_eq!(h, DiskHealthState::Degraded);
    let (h, _, _) = nvme_probe("nvme0n1", Ok(output("{\"temperature\":310}", "")));
    assert_eq!(h, DiskHealthState::Healthy);
    let (h, note, cap) = nvme_probe("nvme0n1", Ok(output("not json", "")));
    assert_eq!((h, note.as_deref()), (DiskHealthState::Unknown, Some("nvme output parse failed")));
    assert_eq!(cap.state, CapabilityState::Available);
    let (h, note, cap) = nvme_probe("nvme0n1", Ok(output("", "open: Permission denied")));
    assert_eq!(h, DiskHealthState::Unknown);
    assert_eq!(note.as_deref(), Some("read-only probe blocked by permission"));
    assert_eq!(cap.state, CapabilityState::PermissionDenied);
    assert_eq!(cap.detail.as_deref(), Some("nvme denied for nvme0n1"));
    let (h, note, cap) = nvme_probe("nvme0n1", Err(Capability::missing_tool("nvme")));
    assert_eq!((h, note.as_deref()), (DiskHealthState::Unknown, Some("nvme tool unavailable")));
    assert_eq!(cap.state, CapabilityState::MissingTool);
}

#[test]
fn an_active_alert_needs_a_full_streak_of_low_readings() {
    let mut c = ConditionCounters::fresh(0);
    c.step(hot(), 3, 1);
    c.step(hot(), 3, 2);
    assert_eq!(c.step(hot(), 3, 3), AlertTransition::Activated);
    assert_eq!(c.step(cold(), 3, 4), AlertTransition::Unchanged);
    assert_eq!(c.step(cold(), 3, 5), AlertTransition::Unchanged);
    assert!(c.active);
    assert_eq!(c.step(cold(), 3, 6), AlertTransition::Resolved);
}
