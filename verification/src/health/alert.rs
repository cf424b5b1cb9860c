//! Alert hysteresis: an alert condition turns active after enough samples in
//! a row at or above its threshold, and clears after enough samples in a row
//! at or below a lower one. The comparisons of the sampled value with the
//! thresholds come in as a reading; this module keeps the counters and
//! decides what to report.
use vstd::prelude::*;

verus! {

/// The counters of one alert condition.
#[derive(Debug, Clone, Copy, PartialEq, Eq, Structural)]
pub struct ConditionCounters {
    pub active: bool,
    pub above_samples: usize,
    pub below_samples: usize,
    pub first_seen_unix_ms: u64,
    pub last_seen_unix_ms: u64,
}

/// How one sample compares with the rule of its condition.
#[derive(Debug, Clone, Copy, PartialEq, Eq, Structural)]
pub struct SampleReading {
    /// The value is at or above the activation threshold.
    pub at_or_above_activate: bool,
    /// The value is at or below the clearing threshold.
    pub at_or_below_clear: bool,
    /// The value moved from the last reported one by at least the rule's
    /// significant delta.
    pub significant_change: bool,
}

/// What a sample makes the condition report.
#[derive(Debug, Clone, Copy, PartialEq, Eq, Structural)]
pub enum AlertTransition {
    Unchanged,
    Activated,
    Updated,
    Resolved,
}

pub open spec fn sat_inc(n: usize) -> usize {
    if n == usize::MAX {
        n
    } else {
        (n + 1) as usize
    }
}

/// The counters of a condition seen for the first time.
pub open spec fn fresh_counters(now: u64) -> ConditionCounters {
    ConditionCounters {
        active: false,
        above_samples: 0,
        below_samples: 0,
        first_seen_unix_ms: now,
        last_seen_unix_ms: now,
    }
}

/// One step of the hysteresis: the new counters and what to report.
pub open spec fn condition_step(
    c: ConditionCounters,
    r: SampleReading,
    required: usize,
    now: u64,
) -> (ConditionCounters, AlertTransition) {
    if c.active {
        let below = if r.at_or_below_clear {
            sat_inc(c.below_samples)
        } else {
            0
        };
        if below >= required {
            (
                ConditionCounters {
                    active: false,
                    above_samples: 0,
                    below_samples: below,
                    last_seen_unix_ms: now,
                    ..c
                },
                AlertTransition::Resolved,
            )
        } else if !r.at_or_below_clear && r.significant_change {
            (
                ConditionCounters { below_samples: below, last_seen_unix_ms: now, ..c },
                AlertTransition::Updated,
            )
        } else {
            (ConditionCounters { below_samples: below, ..c }, AlertTransition::Unchanged)
        }
    } else if r.at_or_above_activate {
        let above = sat_inc(c.above_samples);
        if above >= required {
            (
                ConditionCounters {
                    active: true,
                    above_samples: above,
                    below_samples: 0,
                    first_seen_unix_ms: now,
                    last_seen_unix_ms: now,
                },
                AlertTransition::Activated,
            )
        } else {
            (ConditionCounters { above_samples: above, ..c }, AlertTransition::Unchanged)
        }
    } else {
        (ConditionCounters { above_samples: 0, ..c }, AlertTransition::Unchanged)
    }
}

impl ConditionCounters {
    pub fn fresh(now: u64) -> (r: Self)
        ensures
            r == fresh_counters(now),
    {
        ConditionCounters {
            active: false,
            above_samples: 0,
            below_samples: 0,
            first_seen_unix_ms: now,
            last_seen_unix_ms: now,
        }
    }

    /// Feeds one sample to the condition.
    pub fn step(&mut self, reading: SampleReading, required_samples: usize, now: u64) -> (r:
        AlertTransition)
        ensures
            (*final(self), r) == condition_step(*old(self), reading, required_samples, now),
    {
        if self.active {
            if reading.at_or_below_clear {
                self.below_samples = self.below_samples.saturating_add(1);
            } else {
                self.below_samples = 0;
            }
            if self.below_samples >= required_samples {
                self.active = false;
                self.above_samples = 0;
                self.last_seen_unix_ms = now;
                AlertTransition::Resolved
            } else if !reading.at_or_below_clear && reading.significant_change {
                self.last_seen_unix_ms = now;
                AlertTransition::Updated
            } else {
                AlertTransition::Unchanged
            }
        } else if reading.at_or_above_activate {
            self.above_samples = self.above_samples.saturating_add(1);
            if self.above_samples >= required_samples {
                self.active = true;
                self.below_samples = 0;
                self.first_seen_unix_ms = now;
                self.last_seen_unix_ms = now;
                AlertTransition::Activated
            } else {
                AlertTransition::Unchanged
            }
        } else {
            self.above_samples = 0;
            AlertTransition::Unchanged
        }
    }
}

/// Feeds the readings, in order, all at time `now`.
pub open spec fn run_readings(
    c: ConditionCounters,
    rs: Seq<SampleReading>,
    required: usize,
    now: u64,
) -> ConditionCounters
    decreases rs.len(),
{
    if rs.len() == 0 {
        c
    } else {
        run_readings(condition_step(c, rs[0], required, now).0, rs.drop_first(), required, now)
    }
}

/// A reading at or above the activation threshold.
pub open spec fn hot(r: SampleReading) -> bool {
    r.at_or_above_activate
}

/// An inactive condition turns active exactly on the sample that completes
/// `required` readings in a row at or above the threshold, and not before.
pub proof fn lemma_activation_needs_a_full_streak(
    c: ConditionCounters,
    rs: Seq<SampleReading>,
    required: usize,
    now: u64,
)
    requires
        !c.active,
        c.above_samples == 0,
        required > 0,
        rs.len() <= required,
        forall|i: int| 0 <= i < rs.len() ==> hot(#[trigger] rs[i]),
    ensures
        run_readings(c, rs, required, now).active == (rs.len() == required),
        !run_readings(c, rs, required, now).active ==> run_readings(c, rs, required, now).above_samples
            == rs.len(),
    decreases rs.len(),
{
    lemma_streak(c, rs, required, now);
}

proof fn lemma_streak(c: ConditionCounters, rs: Seq<SampleReading>, required: usize, now: u64)
    requires
        !c.active,
        c.above_samples + rs.len() <= required,
        required > 0,
        forall|i: int| 0 <= i < rs.len() ==> hot(#[trigger] rs[i]),
    ensures
        run_readings(c, rs, required, now).active == (c.above_samples + rs.len() == required
            && rs.len() > 0),
        !run_readings(c, rs, required, now).active ==> run_readings(c, rs, required, now).above_samples
            == c.above_samples + rs.len(),
    decreases rs.len(),
{
    if rs.len() > 0 {
        assert(hot(rs[0]));
        let next = condition_step(c, rs[0], required, now).0;
        assert(run_readings(c, rs, required, now) == run_readings(next, rs.drop_first(), required, now));
        assert(next.above_samples == c.above_samples + 1);
        if next.active {
            assert(c.above_samples + 1 == required);
            assert(rs.len() == 1);
            assert(rs.drop_first().len() == 0);
        } else {
            assert forall|i: int| 0 <= i < rs.drop_first().len() implies hot(
                #[trigger] rs.drop_first()[i],
            ) by {
                assert(rs.drop_first()[i] == rs[i + 1]);
            }
            lemma_streak(next, rs.drop_first(), required, now);
        }
    }
}

/// A reading below the activation threshold ends a streak: the count of
/// readings in a row at or above the threshold starts over.
pub proof fn lemma_cold_reading_resets_streak(
    c: ConditionCounters,
    r: SampleReading,
    required: usize,
    now: u64,
)
    requires
        !c.active,
        !r.at_or_above_activate,
    ensures
        !condition_step(c, r, required, now).0.active,
        condition_step(c, r, required, now).0.above_samples == 0,
        condition_step(c, r, required, now).1 == AlertTransition::Unchanged,
{
}

/// An active alert only clears on a reading at or below the clearing
/// threshold, and it reports `Resolved` exactly when it clears.
pub proof fn lemma_clears_only_when_low(
    c: ConditionCounters,
    r: SampleReading,
    required: usize,
    now: u64,
)
    requires
        c.active,
    ensures
        !condition_step(c, r, required, now).0.active ==> r.at_or_below_clear || required == 0,
        !condition_step(c, r, required, now).0.active <==> condition_step(c, r, required, now).1
            == AlertTransition::Resolved,
        condition_step(c, r, required, now).0.first_seen_unix_ms == c.first_seen_unix_ms,
{
}

/// An active condition clears exactly on the sample that completes
/// `required` readings in a row at or below the clearing threshold, and not
/// before.
pub proof fn lemma_clearing_needs_a_full_streak(
    c: ConditionCounters,
    rs: Seq<SampleReading>,
    required: usize,
    now: u64,
)
    requires
        c.active,
        c.below_samples == 0,
        required > 0,
        rs.len() <= required,
        forall|i: int| 0 <= i < rs.len() ==> low(#[trigger] rs[i]),
    ensures
        !run_readings(c, rs, required, now).active == (rs.len() == required),
        run_readings(c, rs, required, now).active ==> run_readings(c, rs, required, now).below_samples
            == rs.len(),
{
    lemma_low_streak(c, rs, required, now);
}

proof fn lemma_low_streak(c: ConditionCounters, rs: Seq<SampleReading>, required: usize, now: u64)
    requires
        c.active,
        c.below_samples + rs.len() <= required,
        required > 0,
        forall|i: int| 0 <= i < rs.len() ==> low(#[trigger] rs[i]),
    ensures
        !run_readings(c, rs, required, now).active == (c.below_samples + rs.len() == required
            && rs.len() > 0),
        run_readings(c, rs, required, now).active ==> run_readings(c, rs, required, now).below_samples
            == c.below_samples + rs.len(),
    decreases rs.len(),
{
    if rs.len() > 0 {
        assert(low(rs[0]));
        let next = condition_step(c, rs[0], required, now).0;
        assert(run_readings(c, rs, required, now) == run_readings(next, rs.drop_first(), required, now));
        if !next.active {
            assert(c.below_samples + 1 == required);
            assert(rs.drop_first().len() == 0);
        } else {
            assert(next.below_samples == c.below_samples + 1);
            assert forall|i: int| 0 <= i < rs.drop_first().len() implies low(
                #[trigger] rs.drop_first()[i],
            ) by {
                assert(rs.drop_first()[i] == rs[i + 1]);
            }
            lemma_low_streak(next, rs.drop_first(), required, now);
        }
    }
}

/// A reading above the clearing threshold ends a clearing streak: an active
/// condition stays active and its count of low readings in a row starts over.
pub proof fn lemma_high_reading_resets_clearing(
    c: ConditionCounters,
    r: SampleReading,
    required: usize,
    now: u64,
)
    requires
        c.active,
        !r.at_or_below_clear,
        required > 0,
    ensures
        condition_step(c, r, required, now).0.active,
        condition_step(c, r, required, now).0.below_samples == 0,
{
}

/// A reading at or below the clearing threshold.
pub open spec fn low(r: SampleReading) -> bool {
    r.at_or_below_clear
}

proof fn lemma_run_append(
    c: ConditionCounters,
    a: Seq<SampleReading>,
    b: Seq<SampleReading>,
    required: usize,
    now: u64,
)
    ensures
        run_readings(c, a + b, required, now) == run_readings(run_readings(c, a, required, now), b, required, now),
    decreases a.len(),
{
    if a.len() == 0 {
        assert(a + b =~= b);
    } else {
        let next = condition_step(c, a[0], required, now).0;
        assert((a + b)[0] == a[0]);
        assert((a + b).drop_first() =~= a.drop_first() + b);
        lemma_run_append(next, a.drop_first(), b, required, now);
    }
}

proof fn lemma_hot_run_activates(d: ConditionCounters, h: Seq<SampleReading>, required: usize, now: u64)
    requires
        required > 0,
        d.active || d.above_samples + h.len() >= required,
        forall|i: int| 0 <= i < h.len() ==> hot(#[trigger] h[i]) && !low(h[i]),
    ensures
        h.len() > 0 || d.active ==> run_readings(d, h, required, now).active,
    decreases h.len(),
{
    if h.len() > 0 {
        assert(hot(h[0]) && !low(h[0]));
        let next = condition_step(d, h[0], required, now).0;
        assert forall|i: int| 0 <= i < h.drop_first().len() implies hot(#[trigger] h.drop_first()[i])
            && !low(h.drop_first()[i]) by {
            assert(h.drop_first()[i] == h[i + 1]);
        }
        assert(next.active || next.above_samples + h.drop_first().len() >= required);
        lemma_hot_run_activates(next, h.drop_first(), required, now);
    }
}

proof fn lemma_low_run_clears(d: ConditionCounters, l: Seq<SampleReading>, required: usize, now: u64)
    requires
        !d.active || d.below_samples + l.len() >= required,
        forall|i: int| 0 <= i < l.len() ==> low(#[trigger] l[i]) && !hot(l[i]),
    ensures
        l.len() > 0 || !d.active ==> !run_readings(d, l, required, now).active,
    decreases l.len(),
{
    if l.len() > 0 {
        assert(low(l[0]) && !hot(l[0]));
        let next = condition_step(d, l[0], required, now).0;
        assert forall|i: int| 0 <= i < l.drop_first().len() implies low(#[trigger] l.drop_first()[i])
            && !hot(l.drop_first()[i]) by {
            assert(l.drop_first()[i] == l[i + 1]);
        }
        assert(!next.active || next.below_samples + l.drop_first().len() >= required);
        lemma_low_run_clears(next, l.drop_first(), required, now);
    }
}

/// After any run of readings, the last `required` of them decide the alert
/// when they agree: all at or above the activation threshold leave it
/// active, all at or below the clearing threshold leave it cleared, whatever
/// came before (for rules whose thresholds no reading meets both of). And an
/// active alert only ever clears on a run that holds a low reading.
pub proof fn lemma_last_readings_decide(
    c: ConditionCounters,
    rs: Seq<SampleReading>,
    required: usize,
    now: u64,
)
    requires
        required > 0,
        rs.len() >= required,
        forall|i: int| 0 <= i < rs.len() ==> !(hot(#[trigger] rs[i]) && low(rs[i])),
    ensures
        (forall|i: int| rs.len() - required <= i < rs.len() ==> hot(#[trigger] rs[i]))
            ==> run_readings(c, rs, required, now).active,
        (forall|i: int| rs.len() - required <= i < rs.len() ==> low(#[trigger] rs[i]))
            ==> !run_readings(c, rs, required, now).active,
        c.active && !run_readings(c, rs, required, now).active ==> exists|i: int|
            0 <= i < rs.len() && low(#[trigger] rs[i]),
{
    let k = rs.len() - required;
    let pre = rs.subrange(0, k as int);
    let last = rs.subrange(k as int, rs.len() as int);
    assert(pre + last =~= rs);
    lemma_run_append(c, pre, last, required, now);
    let d = run_readings(c, pre, required, now);
    if forall|i: int| rs.len() - required <= i < rs.len() ==> hot(#[trigger] rs[i]) {
        assert forall|i: int| 0 <= i < last.len() implies hot(#[trigger] last[i]) && !low(last[i]) by {
            assert(last[i] == rs[k + i]);
        }
        lemma_hot_run_activates(d, last, required, now);
    }
    if forall|i: int| rs.len() - required <= i < rs.len() ==> low(#[trigger] rs[i]) {
        assert forall|i: int| 0 <= i < last.len() implies low(#[trigger] last[i]) && !hot(last[i]) by {
            assert(last[i] == rs[k + i]);
        }
        lemma_low_run_clears(d, last, required, now);
    }
    if c.active && !run_readings(c, rs, required, now).active {
        lemma_clears_on_low(c, rs, required, now);
    }
}

proof fn lemma_clears_on_low(c: ConditionCounters, rs: Seq<SampleReading>, required: usize, now: u64)
    requires
        required > 0,
        c.active,
        !run_readings(c, rs, required, now).active,
    ensures
        exists|i: int| 0 <= i < rs.len() && low(#[trigger] rs[i]),
    decreases rs.len(),
{
    assert(rs.len() > 0);
    let next = condition_step(c, rs[0], required, now).0;
    if low(rs[0]) {
        assert(low(rs[0]));
    } else {
        assert(next.active);
        lemma_clears_on_low(next, rs.drop_first(), required, now);
        let j = choose|j: int| 0 <= j < rs.drop_first().len() && low(#[trigger] rs.drop_first()[j]);
        assert(rs.drop_first()[j] == rs[j + 1]);
        assert(low(rs[j + 1]));
    }
}

/// The most recent records, at most `capacity` of them, oldest first.
pub struct AlertLog<T> {
    entries: Vec<T>,
    capacity: usize,
}

/// The last `cap` items of `s`, or all of them.
pub open spec fn keep_last<T>(s: Seq<T>, cap: nat) -> Seq<T> {
    if s.len() <= cap {
        s
    } else {
        s.skip(s.len() - cap)
    }
}

/// The log after one push, as `AlertLog::push` makes it.
pub open spec fn log_push<T>(s: Seq<T>, cap: nat, x: T) -> Seq<T> {
    if cap == 0 {
        s
    } else if s.len() >= cap {
        s.drop_first().push(x)
    } else {
        s.push(x)
    }
}

impl<T> View for AlertLog<T> {
    type V = Seq<T>;

    closed spec fn view(&self) -> Seq<T> {
        self.entries@
    }
}

impl<T> AlertLog<T> {
    #[verifier::type_invariant]
    closed spec fn within_capacity(self) -> bool {
        self.entries@.len() <= self.capacity
    }

    pub closed spec fn cap(&self) -> nat {
        self.capacity as nat
    }

    pub fn new(capacity: usize) -> (r: Self)
        ensures
            r@ == Seq::<T>::empty(),
            r.cap() == capacity,
    {
        AlertLog { entries: Vec::new(), capacity }
    }

    /// Appends a record, dropping the oldest when the log is full; a log of
    /// capacity zero keeps nothing.
    pub fn push(&mut self, record: T)
        ensures
            final(self)@ == log_push(old(self)@, old(self).cap(), record),
            final(self).cap() == old(self).cap(),
            final(self)@.len() <= final(self).cap(),
    {
        proof {
            use_type_invariant(&*self);
        }
        if self.capacity == 0 {
            return;
        }
        let mut entries: Vec<T> = Vec::new();
        std::mem::swap(&mut entries, &mut self.entries);
        if entries.len() >= self.capacity {
            entries.remove(0);
        }
        entries.push(record);
        self.entries = entries;
    }

    pub fn as_slice(&self) -> (r: &[T])
        ensures
            r@ == self@,
            r@.len() <= self.cap(),
    {
        proof {
            use_type_invariant(self);
        }
        self.entries.as_slice()
    }
}

/// A log holds the last `capacity` records pushed into it: pushing onto the
/// kept suffix of a history keeps the suffix of the longer history.
pub proof fn lemma_log_keeps_most_recent<T>(history: Seq<T>, cap: nat, x: T)
    ensures
        log_push(keep_last(history, cap), cap, x) == keep_last(history.push(x), cap),
{
    let k = keep_last(history, cap);
    if cap == 0 {
        assert(keep_last(history, cap) =~= keep_last(history.push(x), cap));
    } else if history.len() < cap {
        assert(log_push(k, cap, x) =~= keep_last(history.push(x), cap));
    } else {
        assert(k.len() == cap);
        assert(log_push(k, cap, x) =~= keep_last(history.push(x), cap));
    }
}

} // verus!
