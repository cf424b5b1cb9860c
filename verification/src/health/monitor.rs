//! The sampling interval policy: sample fast while alerts are active, at the
//! normal pace after a change, and slow down once the host has been stable
//! for five samples in a row.
use super::cli::Cli;
use super::collector::CollectorConfig;
use vstd::prelude::*;

verus! {

/// Which of the configured intervals comes next.
#[derive(Debug, Clone, Copy, PartialEq, Eq, Structural)]
pub enum IntervalChoice {
    Min,
    Normal,
    Max,
}

/// The samples in a row without a significant change after which the
/// interval stretches to the maximum.
pub const STABLE_TICKS_FOR_MAX: usize = 5;

/// The next interval and stable-sample count after a sample.
pub open spec fn interval_step(stable_ticks: usize, has_active_alerts: bool, significant_change: bool) -> (
    usize,
    IntervalChoice,
) {
    if has_active_alerts {
        (0, IntervalChoice::Min)
    } else if significant_change {
        (0, IntervalChoice::Normal)
    } else {
        let t = if stable_ticks == usize::MAX {
            stable_ticks
        } else {
            (stable_ticks + 1) as usize
        };
        (t, if t >= STABLE_TICKS_FOR_MAX {
            IntervalChoice::Max
        } else {
            IntervalChoice::Normal
        })
    }
}

/// Updates the count of stable samples and picks the next interval; the
/// first sample, with nothing to compare to, counts as a significant change.
pub fn next_interval(stable_ticks: &mut usize, has_active_alerts: bool, significant_change: bool) -> (r:
    IntervalChoice)
    ensures
        (*final(stable_ticks), r) == interval_step(*old(stable_ticks), has_active_alerts, significant_change),
{
    if has_active_alerts {
        *stable_ticks = 0;
        return IntervalChoice::Min;
    }
    if significant_change {
        *stable_ticks = 0;
        IntervalChoice::Normal
    } else {
        *stable_ticks = stable_ticks.saturating_add(1);
        if *stable_ticks >= STABLE_TICKS_FOR_MAX {
            IntervalChoice::Max
        } else {
            IntervalChoice::Normal
        }
    }
}

/// The three sampling intervals, in milliseconds.
#[derive(Debug, Clone, Copy, PartialEq, Eq, Structural)]
pub struct AdaptiveIntervals {
    pub min_ms: u64,
    pub normal_ms: u64,
    pub max_ms: u64,
}

impl Default for AdaptiveIntervals {
    fn default() -> (r: Self)
        ensures
            r == (AdaptiveIntervals { min_ms: 2_000, normal_ms: 5_000, max_ms: 20_000 }),
    {
        AdaptiveIntervals { min_ms: 2_000, normal_ms: 5_000, max_ms: 20_000 }
    }
}

pub open spec fn max_u64(a: u64, b: u64) -> u64 {
    if a >= b {
        a
    } else {
        b
    }
}

impl AdaptiveIntervals {
    /// The intervals that the command line asks for: the minimum is at least
    /// 250 ms, the normal interval at least the requested minimum, and the
    /// maximum at least the requested normal interval.
    pub fn from_cli(cli: &Cli) -> (r: Self)
        ensures
            r.min_ms == max_u64(cli.min_interval_ms, 250),
            r.normal_ms == max_u64(cli.normal_interval_ms, cli.min_interval_ms),
            r.max_ms == max_u64(cli.max_interval_ms, cli.normal_interval_ms),
    {
        let min_ms = if cli.min_interval_ms >= 250 {
            cli.min_interval_ms
        } else {
            250
        };
        let normal_ms = if cli.normal_interval_ms >= cli.min_interval_ms {
            cli.normal_interval_ms
        } else {
            cli.min_interval_ms
        };
        let max_ms = if cli.max_interval_ms >= cli.normal_interval_ms {
            cli.max_interval_ms
        } else {
            cli.normal_interval_ms
        };
        AdaptiveIntervals { min_ms, normal_ms, max_ms }
    }

    /// The interval, in milliseconds, that a choice stands for.
    pub fn interval_ms(&self, choice: IntervalChoice) -> (r: u64)
        ensures
            r == match choice {
                IntervalChoice::Min => self.min_ms,
                IntervalChoice::Normal => self.normal_ms,
                IntervalChoice::Max => self.max_ms,
            },
    {
        match choice {
            IntervalChoice::Min => self.min_ms,
            IntervalChoice::Normal => self.normal_ms,
            IntervalChoice::Max => self.max_ms,
        }
    }
}

/// What the monitor is built from: the collector's limits, the intervals,
/// and how many alert records the log keeps.
#[derive(Debug, Clone, Copy, PartialEq, Eq, Structural)]
pub struct MonitorConfig {
    pub collector: CollectorConfig,
    pub intervals: AdaptiveIntervals,
    pub alert_log_capacity: usize,
}

impl Default for MonitorConfig {
    fn default() -> (r: Self)
        ensures
            r.collector == CollectorConfig::spec_default_limits(),
            r.intervals == (AdaptiveIntervals { min_ms: 2_000, normal_ms: 5_000, max_ms: 20_000 }),
            r.alert_log_capacity == 256,
    {
        MonitorConfig {
            collector: CollectorConfig::default(),
            intervals: AdaptiveIntervals::default(),
            alert_log_capacity: 256,
        }
    }
}

impl MonitorConfig {
    /// The configuration that the command line asks for: its kernel error
    /// limit and intervals, and the defaults otherwise.
    pub fn from_cli(cli: &Cli) -> (r: Self)
        ensures
            r.collector == (CollectorConfig {
                max_kernel_errors: cli.max_kernel_errors,
                ..CollectorConfig::spec_default_limits()
            }),
            r.intervals.min_ms == max_u64(cli.min_interval_ms, 250),
            r.intervals.normal_ms == max_u64(cli.normal_interval_ms, cli.min_interval_ms),
            r.intervals.max_ms == max_u64(cli.max_interval_ms, cli.normal_interval_ms),
            r.alert_log_capacity == 256,
    {
        let mut collector = CollectorConfig::default();
        collector.max_kernel_errors = cli.max_kernel_errors;
        MonitorConfig { collector, intervals: AdaptiveIntervals::from_cli(cli), alert_log_capacity: 256 }
    }
}

/// The daemon's socket, monitor and the pause between polls of the socket.
#[derive(Debug, Clone, PartialEq, Eq)]
pub struct DaemonConfig {
    pub socket_path: String,
    pub monitor: MonitorConfig,
    pub poll_sleep_ms: u64,
}

impl Default for DaemonConfig {
    fn default() -> (r: Self)
        ensures
            r.socket_path@ == "/run/sentia/health.sock"@,
            r.monitor.collector == CollectorConfig::spec_default_limits(),
            r.monitor.intervals == (AdaptiveIntervals { min_ms: 2_000, normal_ms: 5_000, max_ms: 20_000 }),
            r.monitor.alert_log_capacity == 256,
            r.poll_sleep_ms == 200,
    {
        DaemonConfig {
            socket_path: crate::text::owned("/run/sentia/health.sock"),
            monitor: MonitorConfig::default(),
            poll_sleep_ms: 200,
        }
    }
}

/// The choices over a run of samples, each with its alert flag and change flag.
pub open spec fn run_intervals(t: usize, samples: Seq<(bool, bool)>) -> (usize, IntervalChoice)
    decreases samples.len(),
{
    if samples.len() == 0 {
        (t, IntervalChoice::Normal)
    } else if samples.len() == 1 {
        interval_step(t, samples[0].0, samples[0].1)
    } else {
        let n = interval_step(t, samples[0].0, samples[0].1);
        run_intervals(n.0, samples.drop_first())
    }
}

/// Any active alert brings the interval down to the minimum, and a quiet,
/// unchanging host is sampled at the maximum interval from its fifth stable
/// sample in a row on, and at the normal one before.
pub proof fn lemma_interval_policy(t: usize, samples: Seq<(bool, bool)>)
    requires
        samples.len() > 0,
        t == 0,
        forall|i: int| 0 <= i < samples.len() ==> !(#[trigger] samples[i]).0 && !samples[i].1,
        samples.len() < usize::MAX,
    ensures
        run_intervals(t, samples).0 == samples.len(),
        run_intervals(t, samples).1 == (if samples.len() >= STABLE_TICKS_FOR_MAX {
            IntervalChoice::Max
        } else {
            IntervalChoice::Normal
        }),
        forall|s: usize, c: bool| #[trigger] interval_step(s, true, c) == (0usize, IntervalChoice::Min),
{
    lemma_quiet_run(t, samples);
}

proof fn lemma_quiet_run(t: usize, samples: Seq<(bool, bool)>)
    requires
        samples.len() > 0,
        t + samples.len() < usize::MAX,
        forall|i: int| 0 <= i < samples.len() ==> !(#[trigger] samples[i]).0 && !samples[i].1,
    ensures
        run_intervals(t, samples).0 == t + samples.len(),
        run_intervals(t, samples).1 == (if t + samples.len() >= STABLE_TICKS_FOR_MAX {
            IntervalChoice::Max
        } else {
            IntervalChoice::Normal
        }),
    decreases samples.len(),
{
    assert(!samples[0].0 && !samples[0].1);
    if samples.len() > 1 {
        assert forall|i: int| 0 <= i < samples.drop_first().len() implies !(
        #[trigger] samples.drop_first()[i]).0 && !samples.drop_first()[i].1 by {
            assert(samples.drop_first()[i] == samples[i + 1]);
        }
        lemma_quiet_run((t + 1) as usize, samples.drop_first());
    }
}

} // verus!
