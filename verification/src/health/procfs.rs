//! Parsers for the `/proc` files that the health sampler reads.
use crate::text::{
    chars_has, chars_of, chars_starts_with, digit, index_of, lines, parse_i64, parse_i64_chars,
    parse_u32, parse_u32_chars, parse_u64, parse_u64_chars, slice_of, split_lines, split_words,
    starts_with, string_of, trim, trim_bounds, views, words, has_char, is_digit, find_from,
    lemma_index_of_bounds,
};
use crate::kv::{distinct_keys, entries_map, lookup, pairs_view, upsert};
use crate::text::{
    all_alnum, alnum, char_utf8_len, chars_contains, contains, lemma_alnum_utf8_len,
    lemma_utf8_len_concat, lower_chars, lower_seq, utf8_len, utf8_len_sat, utf8_prefix,
    utf8_prefix_checked,
};
use crate::text::{last_index_of, rfind_char, split_once};
use vstd::prelude::*;

verus! {

/// `u64::saturating_add`.
pub open spec fn sat_add(a: u64, b: u64) -> u64 {
    if a + b > u64::MAX {
        u64::MAX
    } else {
        (a + b) as u64
    }
}

/// `u64::saturating_mul`.
pub open spec fn sat_mul(a: u64, b: u64) -> u64 {
    if a * b > u64::MAX {
        u64::MAX
    } else {
        (a * b) as u64
    }
}

/// Cumulative CPU time counters, in clock ticks, as `/proc/stat` reports them.
#[derive(Debug, Clone, Copy, PartialEq, Eq, Structural)]
pub struct CpuTimes {
    pub user: u64,
    pub nice: u64,
    pub system: u64,
    pub idle: u64,
    pub iowait: u64,
    pub irq: u64,
    pub softirq: u64,
    pub steal: u64,
}

pub open spec fn cpu_active(t: CpuTimes) -> u64 {
    sat_add(sat_add(sat_add(sat_add(sat_add(t.user, t.nice), t.system), t.irq), t.softirq), t.steal)
}

pub open spec fn cpu_total(t: CpuTimes) -> u64 {
    sat_add(sat_add(cpu_active(t), t.idle), t.iowait)
}

#[derive(Debug, Clone, Copy, PartialEq, Eq, Structural)]
pub struct CpuDelta {
    pub total: u64,
    pub active: u64,
}

impl CpuTimes {
    /// Busy time: everything but idle and I/O wait, saturating.
    pub fn active(self) -> (r: u64)
        ensures
            r == cpu_active(self),
    {
        self.user.saturating_add(self.nice).saturating_add(self.system).saturating_add(
            self.irq,
        ).saturating_add(self.softirq).saturating_add(self.steal)
    }

    /// Busy plus idle time, saturating.
    pub fn total(self) -> (r: u64)
        ensures
            r == cpu_total(self),
    {
        self.active().saturating_add(self.idle).saturating_add(self.iowait)
    }

    /// The progress since `previous`, or `None` when a counter went back.
    pub fn delta(self, previous: Self) -> (r: Option<CpuDelta>)
        ensures
            match r {
                Some(d) => cpu_total(self) >= cpu_total(previous) && cpu_active(self)
                    >= cpu_active(previous) && d.total == cpu_total(self) - cpu_total(previous)
                    && d.active == cpu_active(self) - cpu_active(previous),
                None => cpu_total(self) < cpu_total(previous) || cpu_active(self) < cpu_active(
                    previous,
                ),
            },
    {
        let total_now = self.total();
        let total_prev = previous.total();
        let active_now = self.active();
        let active_prev = previous.active();
        if total_now < total_prev || active_now < active_prev {
            return None;
        }
        Some(CpuDelta { total: total_now - total_prev, active: active_now - active_prev })
    }
}

/// The first of `ls` that starts with `p`.
pub open spec fn first_with_prefix(ls: Seq<Seq<char>>, p: Seq<char>) -> Option<Seq<char>>
    decreases ls.len(),
{
    if ls.len() == 0 {
        None
    } else if starts_with(ls[0], p) {
        Some(ls[0])
    } else {
        first_with_prefix(ls.drop_first(), p)
    }
}

/// The `k`-th counter on a `cpu` line, zero when the line is shorter.
pub open spec fn cpu_field(w: Seq<Seq<char>>, k: int) -> Option<u64> {
    if k + 1 < w.len() {
        parse_u64(w[k + 1])
    } else {
        Some(0)
    }
}

/// What `parse_cpu_total` reads from the text of `/proc/stat`.
pub open spec fn cpu_total_of(content: Seq<char>) -> Option<CpuTimes> {
    match first_with_prefix(lines(content), "cpu "@) {
        None => None,
        Some(line) => {
            let w = words(line);
            if exists|k: int| 0 <= k < 8 && #[trigger] cpu_field(w, k) is None {
                None
            } else {
                Some(
                    CpuTimes {
                        user: cpu_field(w, 0)->0,
                        nice: cpu_field(w, 1)->0,
                        system: cpu_field(w, 2)->0,
                        idle: cpu_field(w, 3)->0,
                        iowait: cpu_field(w, 4)->0,
                        irq: cpu_field(w, 5)->0,
                        softirq: cpu_field(w, 6)->0,
                        steal: cpu_field(w, 7)->0,
                    },
                )
            }
        },
    }
}

/// The counters of the first `cpu ` line of `/proc/stat` are its words after
/// the label, in the kernel's order: user, nice, system, idle, iowait, irq,
/// softirq, steal, each the decimal value of its word.
pub proof fn lemma_cpu_counters_in_kernel_order(content: Seq<char>, line: Seq<char>)
    requires
        first_with_prefix(lines(content), "cpu "@) == Some(line),
        words(line).len() >= 9,
        forall|k: int| 1 <= k <= 8 ==> (#[trigger] parse_u64(words(line)[k])) is Some,
    ensures
        cpu_total_of(content) == Some(
            CpuTimes {
                user: parse_u64(words(line)[1])->0,
                nice: parse_u64(words(line)[2])->0,
                system: parse_u64(words(line)[3])->0,
                idle: parse_u64(words(line)[4])->0,
                iowait: parse_u64(words(line)[5])->0,
                irq: parse_u64(words(line)[6])->0,
                softirq: parse_u64(words(line)[7])->0,
                steal: parse_u64(words(line)[8])->0,
            },
        ),
{
    let w = words(line);
    assert(parse_u64(w[1]) is Some);
    assert(parse_u64(w[2]) is Some);
    assert(parse_u64(w[3]) is Some);
    assert(parse_u64(w[4]) is Some);
    assert(parse_u64(w[5]) is Some);
    assert(parse_u64(w[6]) is Some);
    assert(parse_u64(w[7]) is Some);
    assert(parse_u64(w[8]) is Some);
    assert forall|k: int| 0 <= k < 8 implies #[trigger] cpu_field(w, k) is Some by {
        assert(parse_u64(w[k + 1]) is Some);
    }
}

proof fn lemma_first_with_prefix_skip(ls: Seq<Seq<char>>, p: Seq<char>, i: int)
    requires
        0 <= i < ls.len(),
        forall|j: int| 0 <= j < i ==> !starts_with(#[trigger] ls[j], p),
    ensures
        first_with_prefix(ls, p) == first_with_prefix(ls.skip(i), p),
    decreases i,
{
    if i > 0 {
        assert forall|j: int| 0 <= j < i - 1 implies !starts_with(#[trigger] ls.drop_first()[j], p) by {
            assert(ls.drop_first()[j] == ls[j + 1]);
        }
        lemma_first_with_prefix_skip(ls.drop_first(), p, i - 1);
        assert(ls.drop_first().skip(i - 1) =~= ls.skip(i));
    } else {
        assert(ls.skip(0) =~= ls);
    }
}

proof fn lemma_first_with_prefix_none(ls: Seq<Seq<char>>, p: Seq<char>)
    requires
        forall|j: int| 0 <= j < ls.len() ==> !starts_with(#[trigger] ls[j], p),
    ensures
        first_with_prefix(ls, p) is None,
    decreases ls.len(),
{
    if ls.len() > 0 {
        assert forall|j: int| 0 <= j < ls.len() - 1 implies !starts_with(
            #[trigger] ls.drop_first()[j],
            p,
        ) by {
            assert(ls.drop_first()[j] == ls[j + 1]);
        }
        lemma_first_with_prefix_none(ls.drop_first(), p);
    }
}

/// Reads the aggregate `cpu` line of `/proc/stat`.
pub fn parse_cpu_total(line_data: &str) -> (r: Option<CpuTimes>)
    ensures
        r == cpu_total_of(line_data@),
{
    let content = chars_of(line_data);
    let ls = split_lines(content.as_slice());
    let prefix = chars_of("cpu ");
    let ghost all = lines(line_data@);
    let mut i: usize = 0;
    while i < ls.len() && !chars_starts_with(ls[i].as_slice(), prefix.as_slice())
        invariant
            i <= ls.len(),
            views(ls@) == all,
            all == lines(line_data@),
            prefix@ == "cpu "@,
            forall|j: int| 0 <= j < i ==> !starts_with(#[trigger] all[j], "cpu "@),
        decreases ls.len() - i,
    {
        assert(ls@[i as int]@ == all[i as int]);
        i = i + 1;
    }
    assert(i < ls.len() ==> ls@[i as int]@ == all[i as int]);
    if i == ls.len() {
        proof {
            lemma_first_with_prefix_none(all, "cpu "@);
        }
        return None;
    }
    proof {
        lemma_first_with_prefix_skip(all, "cpu "@, i as int);
        assert(all.skip(i as int)[0] == all[i as int]);
    }
    let w = split_words(ls[i].as_slice());
    let ghost wv = words(all[i as int]);
    assert(views(w@) == wv);
    assert(first_with_prefix(lines(line_data@), "cpu "@) == Some(all[i as int]));
    let mut values: Vec<u64> = Vec::new();
    let mut k: usize = 0;
    while k < 8
        invariant
            k <= 8,
            views(w@) == wv,
            first_with_prefix(lines(line_data@), "cpu "@) == Some(all[i as int]),
            wv == words(all[i as int]),
            values@.len() == k,
            forall|j: int| 0 <= j < k ==> #[trigger] cpu_field(wv, j) == Some(values@[j]),
        decreases 8 - k,
    {
        if k + 1 < w.len() {
            assert(w@[k + 1]@ == wv[k + 1]);
            match parse_u64_chars(w[k + 1].as_slice()) {
                Some(v) => values.push(v),
                None => {
                    assert(cpu_field(wv, k as int) is None);
                    return None;
                },
            }
        } else {
            values.push(0);
        }
        k = k + 1;
    }
    assert(!exists|j: int| 0 <= j < 8 && #[trigger] cpu_field(wv, j) is None);
    Some(
        CpuTimes {
            user: values[0],
            nice: values[1],
            system: values[2],
            idle: values[3],
            iowait: values[4],
            irq: values[5],
            softirq: values[6],
            steal: values[7],
        },
    )
}

/// Whether a `/sys/block` name is a whole device rather than a partition or a
/// virtual device.
pub open spec fn primary_block_device(d: Seq<char>) -> bool {
    if starts_with(d, "loop"@) || starts_with(d, "ram"@) {
        false
    } else if starts_with(d, "nvme"@) || starts_with(d, "mmcblk"@) {
        !has_char(d, 'p')
    } else {
        !(d.len() > 0 && is_digit(d.last()))
    }
}

pub fn is_primary_block_device(device: &str) -> (r: bool)
    ensures
        r == primary_block_device(device@),
{
    let d = chars_of(device);
    let s = d.as_slice();
    if chars_starts_with(s, chars_of("loop").as_slice()) || chars_starts_with(
        s,
        chars_of("ram").as_slice(),
    ) {
        return false;
    }
    if chars_starts_with(s, chars_of("nvme").as_slice()) {
        return !chars_has(s, 'p');
    }
    if chars_starts_with(s, chars_of("mmcblk").as_slice()) {
        return !chars_has(s, 'p');
    }
    !(s.len() > 0 && digit(s[s.len() - 1]))
}


/// `s` without the run of `c` at its end (`str::trim_end_matches`).
pub open spec fn trim_end_char(s: Seq<char>, c: char) -> Seq<char>
    decreases s.len(),
{
    if s.len() > 0 && s.last() == c {
        trim_end_char(s.drop_last(), c)
    } else {
        s
    }
}

fn trim_end_char_exec(s: &[char], c: char) -> (r: Vec<char>)
    ensures
        r@ == trim_end_char(s@, c),
{
    let mut n = s.len();
    assert(s@.take(n as int) =~= s@);
    while n > 0 && s[n - 1] == c
        invariant
            n <= s.len(),
            trim_end_char(s@, c) == trim_end_char(s@.take(n as int), c),
        decreases n,
    {
        assert(s@.take(n as int).drop_last() =~= s@.take(n - 1));
        n = n - 1;
    }
    slice_of(s, 0, n)
}

/// The value of a key in a map, if present.
pub open spec fn get<V>(m: Map<Seq<char>, V>, k: Seq<char>) -> Option<V> {
    if m.contains_key(k) {
        Some(m[k])
    } else {
        None
    }
}

/// One line of `/proc/meminfo`: its key without the colon and its value in
/// kibibytes; `None` when the line lacks a key or a number.
pub open spec fn meminfo_entry(line: Seq<char>) -> Option<(Seq<char>, u64)> {
    let w = words(line);
    if w.len() < 2 {
        None
    } else {
        match parse_u64(w[1]) {
            Some(v) => Some((trim_end_char(w[0], ':'), v)),
            None => None,
        }
    }
}

/// The entries of all lines, or `None` when one line is malformed.
pub open spec fn meminfo_entries(ls: Seq<Seq<char>>) -> Option<Seq<(Seq<char>, u64)>>
    decreases ls.len(),
{
    if ls.len() == 0 {
        Some(Seq::empty())
    } else {
        match (meminfo_entries(ls.drop_last()), meminfo_entry(ls.last())) {
            (Some(es), Some(e)) => Some(es.push(e)),
            _ => None,
        }
    }
}

#[derive(Debug, Clone, Copy, PartialEq, Eq, Structural)]
pub struct MemInfo {
    pub total_bytes: u64,
    pub available_bytes: u64,
    pub free_bytes: u64,
    pub buffers_bytes: u64,
    pub cached_bytes: u64,
    pub swap_total_bytes: u64,
    pub swap_free_bytes: u64,
}

/// The available memory: `MemAvailable`, or else free plus buffers.
pub open spec fn meminfo_available(m: Map<Seq<char>, u64>) -> Option<u64> {
    match get(m, "MemAvailable"@) {
        Some(a) => Some(a),
        None => match (get(m, "MemFree"@), get(m, "Buffers"@)) {
            (Some(f), Some(b)) => Some(sat_add(f, b)),
            _ => None,
        },
    }
}

pub open spec fn or_zero(v: Option<u64>) -> u64 {
    match v {
        Some(x) => x,
        None => 0,
    }
}

/// The table of `/proc/meminfo` when the totals that the report needs are there.
pub open spec fn meminfo_table(content: Seq<char>) -> Option<Map<Seq<char>, u64>> {
    match meminfo_entries(lines(content)) {
        None => None,
        Some(es) => {
            let m = entries_map(es);
            if get(m, "MemTotal"@) is None || meminfo_available(m) is None {
                None
            } else {
                Some(m)
            }
        },
    }
}

/// The optional fields are scaled to bytes by a plain multiplication, which
/// overflows on values above `u64::MAX / 1024` kibibytes.
pub open spec fn meminfo_overflows(content: Seq<char>) -> bool {
    match meminfo_table(content) {
        None => false,
        Some(m) => {
            ||| or_zero(get(m, "MemFree"@)) * 1024 > u64::MAX
            ||| or_zero(get(m, "Buffers"@)) * 1024 > u64::MAX
            ||| or_zero(get(m, "Cached"@)) * 1024 > u64::MAX
            ||| or_zero(get(m, "SwapTotal"@)) * 1024 > u64::MAX
            ||| or_zero(get(m, "SwapFree"@)) * 1024 > u64::MAX
        },
    }
}

/// What `parse_meminfo` reads from the text of `/proc/meminfo`.
pub open spec fn meminfo_of(content: Seq<char>) -> Option<MemInfo> {
    match meminfo_table(content) {
        None => None,
        Some(m) => Some(
            MemInfo {
                total_bytes: sat_mul(get(m, "MemTotal"@)->0, 1024),
                available_bytes: sat_mul(meminfo_available(m)->0, 1024),
                free_bytes: (or_zero(get(m, "MemFree"@)) * 1024) as u64,
                buffers_bytes: (or_zero(get(m, "Buffers"@)) * 1024) as u64,
                cached_bytes: (or_zero(get(m, "Cached"@)) * 1024) as u64,
                swap_total_bytes: (or_zero(get(m, "SwapTotal"@)) * 1024) as u64,
                swap_free_bytes: (or_zero(get(m, "SwapFree"@)) * 1024) as u64,
            },
        ),
    }
}

fn meminfo_entries_exec(content: &str) -> (r: Option<Vec<(String, u64)>>)
    ensures
        match r {
            Some(t) => meminfo_entries(lines(content@)) matches Some(es) && distinct_keys(
                pairs_view(t@),
            ) && entries_map(pairs_view(t@)) == entries_map(es),
            None => meminfo_entries(lines(content@)) is None,
        },
{
    let c = chars_of(content);
    let ls = split_lines(c.as_slice());
    let ghost all = lines(content@);
    let mut table: Vec<(String, u64)> = Vec::new();
    let mut i: usize = 0;
    assert(all.take(0) =~= Seq::<Seq<char>>::empty());
    assert(pairs_view(table@) =~= Seq::<(Seq<char>, u64)>::empty());
    while i < ls.len()
        invariant
            i <= ls.len(),
            views(ls@) == all,
            all == lines(content@),
            distinct_keys(pairs_view(table@)),
            meminfo_entries(all.take(i as int)) matches Some(es) && entries_map(es)
                == entries_map(pairs_view(table@)),
        decreases ls.len() - i,
    {
        let ghost line = all[i as int];
        assert(ls@[i as int]@ == line);
        assert(all.take(i + 1).drop_last() =~= all.take(i as int));
        assert(all.take(i + 1).last() == line);
        let w = split_words(ls[i].as_slice());
        if w.len() < 2 {
            assert(meminfo_entry(line) is None);
            proof {
                lemma_meminfo_entries_prefix_none(all, i as int);
            }
            return None;
        }
        assert(w@[1]@ == words(line)[1]);
        assert(w@[0]@ == words(line)[0]);
        match parse_u64_chars(w[1].as_slice()) {
            None => {
                assert(meminfo_entry(line) is None);
                proof {
                    lemma_meminfo_entries_prefix_none(all, i as int);
                }
                return None;
            },
            Some(v) => {
                let key = trim_end_char_exec(w[0].as_slice(), ':');
                let ks = string_of(key.as_slice());
                let ghost es = meminfo_entries(all.take(i as int))->0;
                upsert(&mut table, ks, v);
                assert(meminfo_entries(all.take(i + 1)) == Some(es.push((key@, v))));
                assert(es.push((key@, v)).drop_last() =~= es);
            },
        }
        i = i + 1;
    }
    assert(all.take(ls.len() as int) =~= all);
    Some(table)
}

proof fn lemma_meminfo_entries_prefix_none(all: Seq<Seq<char>>, i: int)
    requires
        0 <= i < all.len(),
        meminfo_entry(all[i]) is None,
    ensures
        meminfo_entries(all) is None,
{
    assert(all.take(i + 1).drop_last() =~= all.take(i));
    assert(all.take(i + 1).last() == all[i]);
    lemma_meminfo_entries_extend_none(all, i + 1);
}

proof fn lemma_meminfo_entries_extend_none(all: Seq<Seq<char>>, k: int)
    requires
        0 <= k <= all.len(),
        meminfo_entries(all.take(k)) is None,
    ensures
        meminfo_entries(all) is None,
    decreases all.len() - k,
{
    if k == all.len() {
        assert(all.take(k) =~= all);
    } else {
        assert(all.take(k + 1).drop_last() =~= all.take(k));
        lemma_meminfo_entries_extend_none(all, k + 1);
    }
}

/// Whether scaling the optional `/proc/meminfo` fields to bytes overflows.
pub fn meminfo_fits(content: &str) -> (r: bool)
    ensures
        r == !meminfo_overflows(content@),
{
    match meminfo_entries_exec(content) {
        None => true,
        Some(t) => {
            let total = lookup(&t, "MemTotal");
            let avail = lookup(&t, "MemAvailable");
            let free = lookup(&t, "MemFree");
            let buffers = lookup(&t, "Buffers");
            if total.is_none() || (avail.is_none() && (free.is_none() || buffers.is_none())) {
                return true;
            }
            let lim: u64 = u64::MAX / 1024;
            let cached = lookup(&t, "Cached");
            let swap_total = lookup(&t, "SwapTotal");
            let swap_free = lookup(&t, "SwapFree");
            let over = |v: Option<u64>| -> (b: bool)
                ensures
                    b == (or_zero(v) * 1024 > u64::MAX),
                {
                    match v {
                        Some(x) => x > lim,
                        None => false,
                    }
                };
            !(over(free) || over(buffers) || over(cached) || over(swap_total) || over(swap_free))
        },
    }
}

/// Reads `/proc/meminfo`; `None` when a line is malformed or the total or
/// available memory is missing.
pub fn parse_meminfo(content: &str) -> (r: Option<MemInfo>)
    requires
        !meminfo_overflows(content@),
    ensures
        r == meminfo_of(content@),
{
    let t = match meminfo_entries_exec(content) {
        None => return None,
        Some(t) => t,
    };
    let total = match lookup(&t, "MemTotal") {
        None => return None,
        Some(v) => v,
    };
    let free = lookup(&t, "MemFree");
    let buffers = lookup(&t, "Buffers");
    let available = match lookup(&t, "MemAvailable") {
        Some(a) => a,
        None => match (free, buffers) {
            (Some(f), Some(b)) => f.saturating_add(b),
            _ => return None,
        },
    };
    let cached = lookup(&t, "Cached");
    let swap_total = lookup(&t, "SwapTotal");
    let swap_free = lookup(&t, "SwapFree");
    Some(
        MemInfo {
            total_bytes: saturating_mul(total, 1024),
            available_bytes: saturating_mul(available, 1024),
            free_bytes: unwrap_or_zero(free) * 1024,
            buffers_bytes: unwrap_or_zero(buffers) * 1024,
            cached_bytes: unwrap_or_zero(cached) * 1024,
            swap_total_bytes: unwrap_or_zero(swap_total) * 1024,
            swap_free_bytes: unwrap_or_zero(swap_free) * 1024,
        },
    )
}

/// `u64::saturating_mul`.
pub fn saturating_mul(a: u64, b: u64) -> (r: u64)
    ensures
        r == sat_mul(a, b),
{
    match a.checked_mul(b) {
        Some(v) => v,
        None => u64::MAX,
    }
}

fn unwrap_or_zero(v: Option<u64>) -> (r: u64)
    ensures
        r == or_zero(v),
{
    match v {
        Some(x) => x,
        None => 0,
    }
}


#[derive(Debug, Clone, Copy, PartialEq, Eq, Structural)]
pub struct NetCounters {
    pub rx_bytes: u64,
    pub tx_bytes: u64,
}

/// All but the first `n` items of `s`, or none when it is shorter.
pub open spec fn drop_n<A>(s: Seq<A>, n: int) -> Seq<A> {
    if s.len() <= n {
        Seq::empty()
    } else {
        s.skip(n)
    }
}

/// One interface line of `/proc/net/dev`: its trimmed name and its received
/// and transmitted byte counters.
pub open spec fn net_dev_entry(line: Seq<char>) -> Option<(Seq<char>, NetCounters)> {
    match split_once(line, ':') {
        None => None,
        Some((iface, data)) => {
            let f = words(data);
            if f.len() < 16 {
                None
            } else {
                match (parse_u64(f[0]), parse_u64(f[8])) {
                    (Some(rx), Some(tx)) => Some(
                        (trim(iface), NetCounters { rx_bytes: rx, tx_bytes: tx }),
                    ),
                    _ => None,
                }
            }
        },
    }
}

/// The entries of the lines that hold one, in order.
pub open spec fn net_dev_entries(ls: Seq<Seq<char>>) -> Seq<(Seq<char>, NetCounters)>
    decreases ls.len(),
{
    if ls.len() == 0 {
        Seq::empty()
    } else {
        match net_dev_entry(ls.last()) {
            Some(e) => net_dev_entries(ls.drop_last()).push(e),
            None => net_dev_entries(ls.drop_last()),
        }
    }
}

/// The interface table that `/proc/net/dev` gives, past its two header lines.
pub open spec fn net_dev_of(content: Seq<char>) -> Map<Seq<char>, NetCounters> {
    entries_map(net_dev_entries(drop_n(lines(content), 2)))
}

fn net_dev_line(line: &[char]) -> (r: Option<(String, NetCounters)>)
    ensures
        match r {
            Some(e) => net_dev_entry(line@) == Some((e.0@, e.1)),
            None => net_dev_entry(line@) is None,
        },
{
    let colon = find_from(line, 0, ':');
    proof {
        assert(line@.skip(0) =~= line@);
        lemma_index_of_bounds(line@, ':');
    }
    if colon == line.len() {
        return None;
    }
    let data = slice_of(line, colon + 1, line.len());
    assert(data@ =~= line@.skip(colon + 1));
    let f = split_words(data.as_slice());
    if f.len() < 16 {
        return None;
    }
    assert(f@[0]@ == words(data@)[0]);
    assert(f@[8]@ == words(data@)[8]);
    let rx = parse_u64_chars(f[0].as_slice());
    let tx = parse_u64_chars(f[8].as_slice());
    match (rx, tx) {
        (Some(rx), Some(tx)) => {
            let (a, b) = trim_bounds(line, 0, colon);
            assert(line@.subrange(0, colon as int) =~= line@.take(colon as int));
            let name = slice_of(line, a, b);
            Some((string_of(name.as_slice()), NetCounters { rx_bytes: rx, tx_bytes: tx }))
        },
        _ => None,
    }
}

/// Reads the per-interface byte counters of `/proc/net/dev`, keyed by
/// interface name; a later line for the same name replaces an earlier one.
pub fn parse_net_dev(content: &str) -> (r: Vec<(String, NetCounters)>)
    ensures
        distinct_keys(pairs_view(r@)),
        entries_map(pairs_view(r@)) == net_dev_of(content@),
{
    let c = chars_of(content);
    let ls = split_lines(c.as_slice());
    let ghost all = lines(content@);
    let ghost rest = drop_n(all, 2);
    let mut out: Vec<(String, NetCounters)> = Vec::new();
    if ls.len() <= 2 {
        assert(pairs_view(out@) =~= Seq::<(Seq<char>, NetCounters)>::empty());
        return out;
    }
    let mut i: usize = 2;
    assert(rest.take(0) =~= Seq::<Seq<char>>::empty());
    assert(pairs_view(out@) =~= Seq::<(Seq<char>, NetCounters)>::empty());
    while i < ls.len()
        invariant
            2 <= i <= ls.len(),
            views(ls@) == all,
            all == lines(content@),
            rest == drop_n(all, 2),
            rest.len() == all.len() - 2,
            distinct_keys(pairs_view(out@)),
            entries_map(pairs_view(out@)) == entries_map(net_dev_entries(rest.take(i - 2))),
        decreases ls.len() - i,
    {
        let ghost line = all[i as int];
        assert(ls@[i as int]@ == line);
        assert(rest[i - 2] == line);
        assert(rest.take(i - 1).drop_last() =~= rest.take(i - 2));
        assert(rest.take(i - 1).last() == line);
        match net_dev_line(ls[i].as_slice()) {
            Some(e) => {
                let ghost k = e.0@;
                let ghost v = e.1;
                upsert(&mut out, e.0, e.1);
                assert(net_dev_entries(rest.take(i - 1)) == net_dev_entries(rest.take(i - 2)).push(
                    (k, v),
                ));
                assert(net_dev_entries(rest.take(i - 2)).push((k, v)).drop_last()
                    =~= net_dev_entries(rest.take(i - 2)));
            },
            None => {},
        }
        i = i + 1;
    }
    assert(rest.take(ls.len() - 2) =~= rest);
    out
}

#[derive(Debug, Clone, Copy, PartialEq, Eq, Structural)]
pub struct DiskCounters {
    pub read_bytes: u64,
    pub write_bytes: u64,
    pub io_time_ms: u64,
}

/// One line of `/proc/diskstats` for a whole device: its name, the bytes
/// read and written (sectors of 512 bytes, saturating) and the I/O time.
pub open spec fn diskstats_entry(line: Seq<char>) -> Option<(Seq<char>, DiskCounters)> {
    let f = words(line);
    if f.len() < 14 || !primary_block_device(f[2]) {
        None
    } else {
        match (parse_u64(f[5]), parse_u64(f[9]), parse_u64(f[12])) {
            (Some(r), Some(w), Some(t)) => Some(
                (
                    f[2],
                    DiskCounters {
                        read_bytes: sat_mul(r, 512),
                        write_bytes: sat_mul(w, 512),
                        io_time_ms: t,
                    },
                ),
            ),
            _ => None,
        }
    }
}

pub open spec fn diskstats_entries(ls: Seq<Seq<char>>) -> Seq<(Seq<char>, DiskCounters)>
    decreases ls.len(),
{
    if ls.len() == 0 {
        Seq::empty()
    } else {
        match diskstats_entry(ls.last()) {
            Some(e) => diskstats_entries(ls.drop_last()).push(e),
            None => diskstats_entries(ls.drop_last()),
        }
    }
}

fn diskstats_line(line: &[char]) -> (r: Option<(String, DiskCounters)>)
    ensures
        match r {
            Some(e) => diskstats_entry(line@) == Some((e.0@, e.1)),
            None => diskstats_entry(line@) is None,
        },
{
    let f = split_words(line);
    if f.len() < 14 {
        return None;
    }
    assert(f@[2]@ == words(line@)[2]);
    assert(f@[5]@ == words(line@)[5]);
    assert(f@[9]@ == words(line@)[9]);
    assert(f@[12]@ == words(line@)[12]);
    let name = string_of(f[2].as_slice());
    if !is_primary_block_device(name.as_str()) {
        return None;
    }
    let r = parse_u64_chars(f[5].as_slice());
    let w = parse_u64_chars(f[9].as_slice());
    let t = parse_u64_chars(f[12].as_slice());
    match (r, w, t) {
        (Some(r), Some(w), Some(t)) => Some(
            (
                name,
                DiskCounters {
                    read_bytes: saturating_mul(r, 512),
                    write_bytes: saturating_mul(w, 512),
                    io_time_ms: t,
                },
            ),
        ),
        _ => None,
    }
}

/// Reads `/proc/diskstats` into a table of whole devices keyed by name; a
/// later line for the same name replaces an earlier one.
pub fn parse_diskstats(content: &str) -> (r: Vec<(String, DiskCounters)>)
    ensures
        distinct_keys(pairs_view(r@)),
        entries_map(pairs_view(r@)) == entries_map(diskstats_entries(lines(content@))),
{
    let c = chars_of(content);
    let ls = split_lines(c.as_slice());
    let ghost all = lines(content@);
    let mut out: Vec<(String, DiskCounters)> = Vec::new();
    let mut i: usize = 0;
    assert(all.take(0) =~= Seq::<Seq<char>>::empty());
    assert(pairs_view(out@) =~= Seq::<(Seq<char>, DiskCounters)>::empty());
    while i < ls.len()
        invariant
            i <= ls.len(),
            views(ls@) == all,
            all == lines(content@),
            distinct_keys(pairs_view(out@)),
            entries_map(pairs_view(out@)) == entries_map(diskstats_entries(all.take(i as int))),
        decreases ls.len() - i,
    {
        let ghost line = all[i as int];
        assert(ls@[i as int]@ == line);
        assert(all.take(i + 1).drop_last() =~= all.take(i as int));
        assert(all.take(i + 1).last() == line);
        match diskstats_line(ls[i].as_slice()) {
            Some(e) => {
                let ghost k = e.0@;
                let ghost v = e.1;
                upsert(&mut out, e.0, e.1);
                assert(diskstats_entries(all.take(i + 1)) == diskstats_entries(
                    all.take(i as int),
                ).push((k, v)));
                assert(diskstats_entries(all.take(i as int)).push((k, v)).drop_last()
                    =~= diskstats_entries(all.take(i as int)));
            },
            None => {},
        }
        i = i + 1;
    }
    assert(all.take(ls.len() as int) =~= all);
    out
}

#[derive(Debug, Clone, PartialEq, Eq)]
pub struct ProcessStat {
    pub pid: u32,
    pub name: String,
    pub cpu_jiffies: u64,
    pub rss_pages: i64,
}

/// The fields that `parse_process_stat` reads from `/proc/<pid>/stat`: the
/// pid, the command name between the first `(` and the last `)`, user plus
/// system time (saturating) and the resident set size in pages.
pub open spec fn process_stat_of(s: Seq<char>) -> Option<(u32, Seq<char>, u64, i64)> {
    let open = index_of(s, '(');
    let close = last_index_of(s, ')');
    if open == s.len() || close < 0 {
        None
    } else {
        match parse_u32(trim(s.take(open))) {
            None => None,
            Some(pid) => {
                let f = words(trim(s.skip(close + 1)));
                if f.len() < 22 {
                    None
                } else {
                    match (parse_u64(f[11]), parse_u64(f[12]), parse_i64(f[21])) {
                        (Some(u), Some(st), Some(rss)) => Some(
                            (pid, s.subrange(open + 1, close), sat_add(u, st), rss),
                        ),
                        _ => None,
                    }
                }
            },
        }
    }
}

/// The name is cut out between the parentheses; a `)` that comes only before
/// the first `(` makes that slice panic.
pub open spec fn process_stat_panics(s: Seq<char>) -> bool {
    let open = index_of(s, '(');
    let close = last_index_of(s, ')');
    open < s.len() && close >= 0 && parse_u32(trim(s.take(open))) is Some && close < open
}

proof fn lemma_last_index_of_bounds(s: Seq<char>, c: char)
    ensures
        -1 <= last_index_of(s, c) < s.len(),
        last_index_of(s, c) >= 0 ==> s[last_index_of(s, c)] == c,
    decreases s.len(),
{
    if s.len() > 0 && s.last() != c {
        lemma_last_index_of_bounds(s.drop_last(), c);
    }
}

/// Reads `/proc/<pid>/stat`.
pub fn parse_process_stat(content: &str) -> (r: Option<ProcessStat>)
    requires
        !process_stat_panics(content@),
    ensures
        match r {
            Some(p) => process_stat_of(content@) == Some((p.pid, p.name@, p.cpu_jiffies, p.rss_pages)),
            None => process_stat_of(content@) is None,
        },
{
    let c = chars_of(content);
    let s = c.as_slice();
    proof {
        assert(s@.skip(0) =~= s@);
        lemma_index_of_bounds(s@, '(');
        lemma_last_index_of_bounds(s@, ')');
    }
    let open = find_from(s, 0, '(');
    if open == s.len() {
        return None;
    }
    let close = match rfind_char(s, ')') {
        None => return None,
        Some(i) => i,
    };
    let (a, b) = trim_bounds(s, 0, open);
    assert(s@.subrange(0, open as int) =~= s@.take(open as int));
    let pid = match parse_u32_chars(slice_of(s, a, b).as_slice()) {
        None => return None,
        Some(p) => p,
    };
    assert(close != open);
    let name = string_of(slice_of(s, open + 1, close).as_slice());
    let (x, y) = trim_bounds(s, close + 1, s.len());
    assert(s@.subrange(close + 1, s.len() as int) =~= s@.skip(close + 1));
    let f = split_words(slice_of(s, x, y).as_slice());
    if f.len() < 22 {
        return None;
    }
    assert(f@[11]@ == words(trim(s@.skip(close + 1)))[11]);
    assert(f@[12]@ == words(trim(s@.skip(close + 1)))[12]);
    assert(f@[21]@ == words(trim(s@.skip(close + 1)))[21]);
    let utime = match parse_u64_chars(f[11].as_slice()) {
        None => return None,
        Some(v) => v,
    };
    let stime = match parse_u64_chars(f[12].as_slice()) {
        None => return None,
        Some(v) => v,
    };
    let rss = match parse_i64_chars(f[21].as_slice()) {
        None => return None,
        Some(v) => v,
    };
    Some(ProcessStat { pid, name, cpu_jiffies: utime.saturating_add(stime), rss_pages: rss })
}


/// A key whose lowercase form names a credential.
pub open spec fn secret_key(key_lower: Seq<char>) -> bool {
    ||| contains(key_lower, "token"@)
    ||| contains(key_lower, "secret"@)
    ||| contains(key_lower, "password"@)
    ||| contains(key_lower, "passwd"@)
    ||| contains(key_lower, "key"@)
}

/// One whitespace-separated token of a log message after redaction: the value
/// of a credential-like `key=value` pair, a long alphanumeric value, or a
/// long alphanumeric token is replaced by `<redacted>`.
pub open spec fn redact_token(t: Seq<char>) -> Seq<char> {
    match split_once(t, '=') {
        Some((k, v)) => if secret_key(lower_seq(k)) || (utf8_len(v) > 48 && all_alnum(v)) {
            k + "=<redacted>"@
        } else {
            t
        },
        None => if utf8_len(t) > 64 && all_alnum(lower_seq(t)) {
            "<redacted>"@
        } else {
            t
        },
    }
}

/// Appends the redacted tokens to `out`, separated by single spaces, and cuts
/// the text to `max` bytes as soon as it reaches that length; `None` when the
/// cut would fall inside a character.
pub open spec fn sanitize_from(out: Seq<char>, toks: Seq<Seq<char>>, max: int) -> Option<Seq<char>>
    decreases toks.len(),
{
    if toks.len() == 0 {
        Some(out)
    } else {
        let next = (if out.len() == 0 {
            out
        } else {
            out.push(' ')
        }) + redact_token(toks[0]);
        if utf8_len(next) >= max {
            utf8_prefix(next, max)
        } else {
            sanitize_from(next, toks.drop_first(), max)
        }
    }
}

/// What `sanitize_log_message` makes of `raw`, or `None` where it panics.
pub open spec fn sanitized(raw: Seq<char>, max: int) -> Option<Seq<char>> {
    sanitize_from(Seq::empty(), words(raw), max)
}

proof fn lemma_lower_alnum(t: Seq<char>)
    ensures
        all_alnum(lower_seq(t)) == all_alnum(t),
{
    if all_alnum(t) {
        assert forall|i: int| 0 <= i < lower_seq(t).len() implies crate::text::is_alnum(
            #[trigger] lower_seq(t)[i],
        ) by {
            assert(crate::text::is_alnum(t[i]));
        }
    }
    if all_alnum(lower_seq(t)) {
        assert forall|i: int| 0 <= i < t.len() implies crate::text::is_alnum(#[trigger] t[i]) by {
            assert(crate::text::is_alnum(lower_seq(t)[i]));
        }
    }
}

fn all_alnum_exec(s: &[char]) -> (r: bool)
    ensures
        r == all_alnum(s@),
{
    let mut i: usize = 0;
    while i < s.len()
        invariant
            i <= s.len(),
            forall|j: int| 0 <= j < i ==> crate::text::is_alnum(#[trigger] s@[j]),
        decreases s.len() - i,
    {
        if !alnum(s[i]) {
            return false;
        }
        i = i + 1;
    }
    true
}

fn redact(t: &[char]) -> (r: Vec<char>)
    ensures
        r@ == redact_token(t@),
{
    let eq = find_from(t, 0, '=');
    proof {
        assert(t@.skip(0) =~= t@);
        lemma_index_of_bounds(t@, '=');
    }
    if eq < t.len() {
        let k = slice_of(t, 0, eq);
        let v = slice_of(t, eq + 1, t.len());
        assert(k@ =~= t@.take(eq as int));
        assert(v@ =~= t@.skip(eq + 1));
        let kl = lower_chars(k.as_slice());
        let secret = chars_contains(kl.as_slice(), chars_of("token").as_slice())
            || chars_contains(kl.as_slice(), chars_of("secret").as_slice())
            || chars_contains(kl.as_slice(), chars_of("password").as_slice())
            || chars_contains(kl.as_slice(), chars_of("passwd").as_slice())
            || chars_contains(kl.as_slice(), chars_of("key").as_slice());
        let long_alnum = all_alnum_exec(v.as_slice()) && v.len() > 48;
        proof {
            if all_alnum(v@) {
                lemma_alnum_utf8_len(v@);
            }
        }
        if secret || long_alnum {
            let mut r = k;
            let tail = chars_of("=<redacted>");
            let mut j: usize = 0;
            let ghost k0 = r@;
            while j < tail.len()
                invariant
                    j <= tail.len(),
                    r@ == k0 + tail@.take(j as int),
                decreases tail.len() - j,
            {
                r.push(tail[j]);
                j = j + 1;
                assert(r@ =~= k0 + tail@.take(j as int));
            }
            assert(tail@.take(tail.len() as int) =~= tail@);
            return r;
        }
        return slice_of(t, 0, t.len());
    }
    let tl = lower_chars(t);
    let long_alnum = all_alnum_exec(tl.as_slice()) && t.len() > 64;
    proof {
        lemma_lower_alnum(t@);
        if all_alnum(t@) {
            lemma_alnum_utf8_len(t@);
        }
    }
    if long_alnum {
        return chars_of("<redacted>");
    }
    assert(t@.subrange(0, t@.len() as int) =~= t@);
    slice_of(t, 0, t.len())
}

/// Rebuilds a log message from its whitespace-separated tokens with secrets
/// redacted, cut to at most `max_len` bytes.
pub fn sanitize_log_message(raw: &str, max_len: usize) -> (r: String)
    requires
        sanitized(raw@, max_len as int) is Some,
    ensures
        sanitized(raw@, max_len as int) == Some(r@),
{
    match sanitize_checked(raw, max_len) {
        Some(s) => s,
        None => {
            assert(false);
            String::new()
        },
    }
}

/// `sanitize_log_message`, or `None` on the messages where its cut would
/// fall inside a character.
pub fn sanitize_checked(raw: &str, max_len: usize) -> (r: Option<String>)
    ensures
        match r {
            Some(s) => sanitized(raw@, max_len as int) == Some(s@),
            None => sanitized(raw@, max_len as int) is None,
        },
{
    let c = chars_of(raw);
    let toks = split_words(c.as_slice());
    let ghost all = words(raw@);
    let mut out: Vec<char> = Vec::new();
    let mut ob: usize = 0;
    let mut i: usize = 0;
    assert(all.skip(0) =~= all);
    while i < toks.len()
        invariant
            i <= toks.len(),
            views(toks@) == all,
            all == words(raw@),
            sanitize_from(out@, all.skip(i as int), max_len as int) == sanitized(
                raw@,
                max_len as int,
            ),
            ob == utf8_len(out@),
            ob < max_len || (i == 0 && out@.len() == 0),
            out@.len() == 0 ==> ob == 0,
        decreases toks.len() - i,
    {
        let ghost rest = all.skip(i as int);
        assert(rest[0] == all[i as int]);
        assert(toks@[i as int]@ == all[i as int]);
        let red = redact(toks[i].as_slice());
        let ghost base = out@;
        let mut extra: usize = 0;
        if out.len() > 0 {
            out.push(' ');
            extra = 1;
        }
        let mut j: usize = 0;
        let ghost mid = out@;
        while j < red.len()
            invariant
                j <= red.len(),
                out@ == mid + red@.take(j as int),
            decreases red.len() - j,
        {
            out.push(red[j]);
            j = j + 1;
            assert(out@ =~= mid + red@.take(j as int));
        }
        assert(red@.take(red.len() as int) =~= red@);
        let ghost next = (if base.len() == 0 {
            base
        } else {
            base.push(' ')
        }) + redact_token(all[i as int]);
        assert(out@ == next);
        proof {
            lemma_utf8_len_concat(mid, red@);
            if base.len() > 0 {
                lemma_utf8_len_concat(base, seq![' ']);
                assert(base.push(' ') =~= base + seq![' ']);
                assert(utf8_len(seq![' ']) == 1) by {
                    lemma_alnum_space();
                }
            } else {
                assert(mid == base);
            }
        }
        let rb = utf8_len_sat(red.as_slice());
        let total: usize = ob.saturating_add(extra).saturating_add(rb);
        assert(total >= max_len <==> utf8_len(next) >= max_len);
        if total >= max_len {
            return match utf8_prefix_checked(out.as_slice(), max_len) {
                Some(cut) => Some(string_of(cut.as_slice())),
                None => None,
            };
        }
        assert(rest.drop_first() =~= all.skip(i + 1));
        ob = total;
        i = i + 1;
    }
    assert(all.skip(i as int).len() == 0);
    Some(string_of(out.as_slice()))
}

proof fn lemma_alnum_space()
    ensures
        utf8_len(seq![' ']) == 1,
{
    assert(seq![' '].drop_first() =~= Seq::<char>::empty());
    assert(vstd::utf8::encode_utf8(seq![' ']) == vstd::utf8::encode_scalar(' ' as u32)
        + vstd::utf8::encode_utf8(Seq::<char>::empty()));
}

} // verus!
