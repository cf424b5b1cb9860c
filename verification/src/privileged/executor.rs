//! The rules of running fixed helpers and of reading what they report:
//! which executables may run, which paths count as trusted, how
//! `systemctl show` output and `/proc/<pid>/stat` are read.
use super::{refused, BrokerError};
use crate::retrieval::indexer::{hex_text, sha256_digest};
use crate::kv::{distinct_keys, entries_map, lookup_text, text_pairs_view, upsert_text};
use crate::text::{chars_of, owned, slice_of, split_lines, split_words, str_eq, views, words};
use vstd::prelude::*;

verus! {

pub const SYSTEMCTL: &'static str = "/usr/bin/systemctl";

pub const APT_WORKER: &'static str = "/usr/libexec/sentia/sentia-apt-worker";

pub const MAX_OUTPUT: usize = 1_048_576;

/// Only the two fixed helpers may be run.
pub fn check_executable(executable: &str) -> (r: Result<(), BrokerError>)
    ensures
        r is Ok <==> (executable@ == SYSTEMCTL@ || executable@ == APT_WORKER@),
        r is Err ==> refused(r, "executable_not_allowed"@),
{
    if !str_eq(executable, SYSTEMCTL) && !str_eq(executable, APT_WORKER) {
        return Err(BrokerError("executable_not_allowed"));
    }
    Ok(())
}

/// A helper must be a regular file that someone may execute.
pub fn check_helper_file(is_file: bool, mode: u32) -> (r: Result<(), BrokerError>)
    ensures
        r is Ok <==> (is_file && (mode & 0o111u32) != 0),
        r is Err ==> refused(r, "helper_unavailable"@),
{
    if !is_file || mode & 0o111u32 == 0 {
        return Err(BrokerError("helper_unavailable"));
    }
    Ok(())
}

/// Every directory on a trusted path, and the file itself, is owned by root,
/// is not a symbolic link, and is writable by no one else.
pub fn check_path_entry(is_symlink: bool, uid: u32, mode: u32) -> (r: Result<(), BrokerError>)
    ensures
        r is Ok <==> (!is_symlink && uid == 0 && (mode & 0o022u32) == 0),
        r is Err ==> refused(r, "untrusted_path"@),
{
    if is_symlink || uid != 0 || mode & 0o022u32 != 0 {
        return Err(BrokerError("untrusted_path"));
    }
    Ok(())
}

/// A unit file must be a regular root-owned file writable by no one else.
pub fn check_unit_file(is_file: bool, uid: u32, mode: u32) -> (r: Result<(), BrokerError>)
    ensures
        r is Ok <==> (is_file && uid == 0 && (mode & 0o022u32) == 0),
        r is Err ==> refused(r, "untrusted_unit_file"@),
{
    if !is_file || uid != 0 || mode & 0o022u32 != 0 {
        return Err(BrokerError("untrusted_unit_file"));
    }
    Ok(())
}

/// Helper output and unit files are read up to a fixed limit.
pub fn check_output_size(len: usize) -> (r: Result<(), BrokerError>)
    ensures
        r is Ok <==> len <= MAX_OUTPUT,
        r is Err ==> refused(r, "subprocess_output_limit"@),
{
    if len > MAX_OUTPUT {
        return Err(BrokerError("subprocess_output_limit"));
    }
    Ok(())
}

/// The lowercase hexadecimal SHA-256 digest of the bytes of a unit file,
/// which must not exceed the read limit.
pub fn unit_file_digest(bytes: &[u8]) -> (r: Result<String, BrokerError>)
    ensures
        bytes@.len() > MAX_OUTPUT ==> refused(r, "unit_file_too_large"@),
        bytes@.len() <= MAX_OUTPUT ==> (r matches Ok(d) && d@ == hex_text(sha256_digest(bytes@))
            && d@.len() == 64),
{
    if bytes.len() > MAX_OUTPUT {
        return Err(BrokerError("unit_file_too_large"));
    }
    Ok(super::json_digest(bytes))
}

/// The segments of a path between its separators, without empty ones and
/// `.` (what `Path::components` yields after the root).
pub open spec fn segments(p: Seq<char>) -> Seq<Seq<char>>
    decreases p.len(),
{
    if p.len() == 0 {
        Seq::empty()
    } else {
        let i = crate::text::index_of(p, '/');
        proof {
            crate::text::lemma_index_of_bounds(p, '/');
        }
        let head = p.take(i);
        let rest = if i < p.len() {
            segments(p.skip(i + 1))
        } else {
            Seq::empty()
        };
        if head.len() == 0 || head == "."@ {
            rest
        } else {
            seq![head] + rest
        }
    }
}

/// The directories and file of an absolute path, each as the path that
/// leads to it: `/`, then `/a`, `/a/b`, ...
pub open spec fn prefixes(segs: Seq<Seq<char>>) -> Seq<Seq<char>>
    decreases segs.len(),
{
    if segs.len() == 0 {
        seq!["/"@]
    } else {
        let before = prefixes(segs.drop_last());
        let last = before.last();
        before.push(
            if last == "/"@ {
                last + segs.last()
            } else {
                last + "/"@ + segs.last()
            },
        )
    }
}

/// The paths to check for a trusted path, or its refusal: it must be
/// absolute and hold no `..`.
pub open spec fn trusted_prefixes(p: Seq<char>) -> Option<Seq<Seq<char>>> {
    if p.len() == 0 || p[0] != '/' || segments(p).contains(".."@) {
        None
    } else {
        Some(prefixes(segments(p)))
    }
}

pub(crate) fn segments_of(p: &[char]) -> (r: Vec<Vec<char>>)
    ensures
        views(r@) == segments(p@),
{
    let mut out: Vec<Vec<char>> = Vec::new();
    let mut pos: usize = 0;
    proof {
        assert(p@.skip(0) =~= p@);
        assert(views(out@) =~= Seq::<Seq<char>>::empty());
    }
    while pos < p.len()
        invariant
            pos <= p.len(),
            views(out@) + segments(p@.skip(pos as int)) == segments(p@),
        decreases p.len() - pos,
    {
        let ghost t = p@.skip(pos as int);
        let end = crate::text::find_from(p, pos, '/');
        proof {
            crate::text::lemma_index_of_bounds(t, '/');
        }
        let head = slice_of(p, pos, end);
        assert(head@ =~= t.take(end - pos));
        let dot = chars_of(".");
        let ghost before = out@;
        let skip = head.len() == 0 || crate::text::chars_eq(head.as_slice(), dot.as_slice());
        if !skip {
            out.push(head);
        }
        if end < p.len() {
            assert(t.skip(end - pos + 1) =~= p@.skip(end + 1));
            proof {
                if !skip {
                    assert(views(out@) =~= views(before).push(head@));
                    assert(views(out@) + segments(p@.skip(end + 1)) =~= views(before) + (seq![head@]
                        + segments(p@.skip(end + 1))));
                }
            }
            pos = end + 1;
        } else {
            proof {
                assert(segments(t) == (if skip {
                    Seq::<Seq<char>>::empty()
                } else {
                    seq![head@]
                }));
                if !skip {
                    assert(views(out@) =~= views(before).push(head@));
                }
                assert(p@.skip(p.len() as int) =~= Seq::<char>::empty());
                assert(views(out@) + segments(p@.skip(p.len() as int)) =~= views(out@));
                if skip {
                    assert(views(before) + Seq::<Seq<char>>::empty() =~= views(before));
                } else {
                    assert(views(before) + seq![head@] =~= views(out@));
                }
            }
            pos = p.len();
        }
    }
    assert(p@.skip(p.len() as int) =~= Seq::<char>::empty());
    assert(views(out@) + Seq::<Seq<char>>::empty() =~= views(out@));
    out
}

/// The paths to examine for a trusted path, from the root down.
pub fn trusted_path_prefixes(path: &str) -> (r: Result<Vec<String>, BrokerError>)
    ensures
        match trusted_prefixes(path@) {
            Some(ps) => r matches Ok(v) && crate::privileged::texts_of(v@) == ps,
            None => refused(r, "untrusted_path"@),
        },
{
    let p = chars_of(path);
    if p.len() == 0 || p[0] != '/' {
        return Err(BrokerError("untrusted_path"));
    }
    let segs = segments_of(p.as_slice());
    let ghost sv = views(segs@);
    let dots = chars_of("..");
    let mut i: usize = 0;
    while i < segs.len()
        invariant
            i <= segs.len(),
            sv == views(segs@),
            sv == segments(path@),
            p@ == path@,
            dots@ == ".."@,
            forall|j: int| 0 <= j < i ==> sv[j] != ".."@,
        decreases segs.len() - i,
    {
        assert(sv[i as int] == segs@[i as int]@);
        if crate::text::chars_eq(segs[i].as_slice(), dots.as_slice()) {
            assert(sv.contains(".."@));
            return Err(BrokerError("untrusted_path"));
        }
        i = i + 1;
    }
    assert(!sv.contains(".."@));
    let mut out: Vec<String> = Vec::new();
    out.push(owned("/"));
    let mut current: String = owned("/");
    let mut k: usize = 0;
    assert(sv.take(0) =~= Seq::<Seq<char>>::empty());
    assert(crate::privileged::texts_of(out@) =~= seq!["/"@]);
    while k < segs.len()
        invariant
            k <= segs.len(),
            sv == views(segs@),
            sv == segments(path@),
            crate::privileged::texts_of(out@) == prefixes(sv.take(k as int)),
            current@ == prefixes(sv.take(k as int)).last(),
        decreases segs.len() - k,
    {
        let seg = crate::text::string_of(segs[k].as_slice());
        assert(sv.take(k + 1).drop_last() =~= sv.take(k as int));
        assert(sv.take(k + 1).last() == seg@);
        let next = if str_eq(current.as_str(), "/") {
            crate::text::concat(current.as_str(), seg.as_str())
        } else {
            let a = crate::text::concat(current.as_str(), "/");
            crate::text::concat(a.as_str(), seg.as_str())
        };
        let ghost before = out@;
        out.push(next.clone());
        assert(crate::privileged::texts_of(out@) =~= crate::privileged::texts_of(before).push(
            next@,
        ));
        current = next;
        k = k + 1;
    }
    assert(sv.take(sv.len() as int) =~= sv);
    Ok(out)
}

/// The roots under which unit files may live.
pub open spec fn under_unit_root(canonical: Seq<char>) -> bool {
    let s = segments(canonical);
    ||| s.take(3) == seq!["etc"@, "systemd"@, "system"@] && s.len() >= 3
    ||| s.take(4) == seq!["usr"@, "lib"@, "systemd"@, "system"@] && s.len() >= 4
    ||| s.take(2) == seq!["run"@, "systemd"@] && s.len() >= 2
}

fn seg_is(segs: &Vec<Vec<char>>, i: usize, w: &str) -> (r: bool)
    requires
        i < segs.len(),
    ensures
        r == (views(segs@)[i as int] == w@),
{
    let c = chars_of(w);
    crate::text::chars_eq(segs[i].as_slice(), c.as_slice())
}

/// A resolved unit file must lie under one of the systemd unit roots.
pub fn check_unit_root(canonical: &str) -> (r: Result<(), BrokerError>)
    ensures
        r is Ok <==> (canonical@.len() > 0 && canonical@[0] == '/' && under_unit_root(canonical@)),
        r is Err ==> refused(r, "untrusted_unit_file"@),
{
    let p = chars_of(canonical);
    if p.len() == 0 || p[0] != '/' {
        return Err(BrokerError("untrusted_unit_file"));
    }
    let segs = segments_of(p.as_slice());
    let ghost s = views(segs@);
    let a = segs.len() >= 3 && seg_is(&segs, 0, "etc") && seg_is(&segs, 1, "systemd") && seg_is(
        &segs,
        2,
        "system",
    );
    let b = segs.len() >= 4 && seg_is(&segs, 0, "usr") && seg_is(&segs, 1, "lib") && seg_is(
        &segs,
        2,
        "systemd",
    ) && seg_is(&segs, 3, "system");
    let c = segs.len() >= 2 && seg_is(&segs, 0, "run") && seg_is(&segs, 1, "systemd");
    proof {
        if s.len() >= 3 {
            assert((s.take(3) == seq!["etc"@, "systemd"@, "system"@]) == (s[0] == "etc"@ && s[1]
                == "systemd"@ && s[2] == "system"@)) by {
                if s[0] == "etc"@ && s[1] == "systemd"@ && s[2] == "system"@ {
                    assert(s.take(3) =~= seq!["etc"@, "systemd"@, "system"@]);
                }
            }
        }
        if s.len() >= 4 {
            assert((s.take(4) == seq!["usr"@, "lib"@, "systemd"@, "system"@]) == (s[0] == "usr"@
                && s[1] == "lib"@ && s[2] == "systemd"@ && s[3] == "system"@)) by {
                if s[0] == "usr"@ && s[1] == "lib"@ && s[2] == "systemd"@ && s[3] == "system"@ {
                    assert(s.take(4) =~= seq!["usr"@, "lib"@, "systemd"@, "system"@]);
                }
            }
        }
        if s.len() >= 2 {
            assert((s.take(2) == seq!["run"@, "systemd"@]) == (s[0] == "run"@ && s[1]
                == "systemd"@)) by {
                if s[0] == "run"@ && s[1] == "systemd"@ {
                    assert(s.take(2) =~= seq!["run"@, "systemd"@]);
                }
            }
        }
    }
    if a || b || c {
        Ok(())
    } else {
        Err(BrokerError("untrusted_unit_file"))
    }
}

// ---------------------------------------------------------------------------
// `systemctl show` output.
// ---------------------------------------------------------------------------

/// The properties of the lines, each `key=value` (a later key replaces an
/// earlier one), or `None` if a line is not of that form.
pub open spec fn properties_of(ls: Seq<Seq<char>>) -> Option<Seq<(Seq<char>, Seq<char>)>>
    decreases ls.len(),
{
    if ls.len() == 0 {
        Some(Seq::empty())
    } else {
        match properties_of(ls.drop_last()) {
            None => None,
            Some(ps) => match crate::text::split_once(ls.last(), '=') {
                None => None,
                Some(kv) => Some(ps.push(kv)),
            },
        }
    }
}

proof fn lemma_properties_fail(ls: Seq<Seq<char>>, i: int)
    requires
        0 <= i < ls.len(),
        crate::text::split_once(ls[i], '=') is None,
    ensures
        properties_of(ls) is None,
    decreases ls.len(),
{
    if i < ls.len() - 1 {
        assert(ls.drop_last()[i] == ls[i]);
        lemma_properties_fail(ls.drop_last(), i);
    }
}

/// Reads `systemctl show` output into its properties.
pub fn parse_unit_properties(text: &str) -> (r: Result<Vec<(String, String)>, BrokerError>)
    ensures
        match properties_of(crate::text::lines(text@)) {
            Some(ps) => r matches Ok(v) && distinct_keys(text_pairs_view(v@)) && entries_map(
                text_pairs_view(v@),
            ) == entries_map(ps),
            None => refused(r, "invalid_helper_output"@),
        },
{
    let c = chars_of(text);
    let ls = split_lines(c.as_slice());
    let ghost all = crate::text::lines(text@);
    let mut out: Vec<(String, String)> = Vec::new();
    let ghost mut ps: Seq<(Seq<char>, Seq<char>)> = Seq::empty();
    let mut i: usize = 0;
    assert(all.take(0) =~= Seq::<Seq<char>>::empty());
    assert(text_pairs_view(out@) =~= Seq::<(Seq<char>, Seq<char>)>::empty());
    while i < ls.len()
        invariant
            i <= ls.len(),
            views(ls@) == all,
            all == crate::text::lines(text@),
            properties_of(all.take(i as int)) == Some(ps),
            distinct_keys(text_pairs_view(out@)),
            entries_map(text_pairs_view(out@)) == entries_map(ps),
        decreases ls.len() - i,
    {
        let line = ls[i].as_slice();
        assert(line@ == all[i as int]);
        assert(all.take(i + 1).drop_last() =~= all.take(i as int));
        assert(all.take(i + 1).last() == all[i as int]);
        let eq = crate::text::find_from(line, 0, '=');
        proof {
            assert(line@.skip(0) =~= line@);
            crate::text::lemma_index_of_bounds(line@, '=');
        }
        if eq == line.len() {
            proof {
                lemma_properties_fail(all, i as int);
            }
            return Err(BrokerError("invalid_helper_output"));
        }
        let k = slice_of(line, 0, eq);
        let v = slice_of(line, eq + 1, line.len());
        assert(k@ =~= line@.take(eq as int));
        assert(v@ =~= line@.skip(eq + 1));
        let ghost e = (k@, v@);
        upsert_text(&mut out, crate::text::string_of(k.as_slice()), crate::text::string_of(v.as_slice()));
        proof {
            assert(ps.push(e).drop_last() =~= ps);
            assert(entries_map(ps.push(e)) == entries_map(ps).insert(e.0, e.1));
            ps = ps.push(e);
        }
        i = i + 1;
    }
    assert(all.take(all.len() as int) =~= all);
    Ok(out)
}

/// The files whose digests pin a unit: its fragment, then each drop-in.
/// A unit that is not loaded, needs a daemon reload, or has no fragment
/// (a transient unit) is refused.
pub open spec fn unit_files_of(m: Map<Seq<char>, Seq<char>>) -> Result<Seq<Seq<char>>, Seq<char>> {
    if !(m.contains_key("LoadState"@) && m["LoadState"@] == "loaded"@) || !(m.contains_key(
        "NeedDaemonReload"@,
    ) && m["NeedDaemonReload"@] == "no"@) {
        Err("unit_unavailable_or_stale"@)
    } else if !m.contains_key("FragmentPath"@) || m["FragmentPath"@].len() == 0 {
        Err("transient_units_not_allowed"@)
    } else {
        Ok(
            seq![m["FragmentPath"@]] + if m.contains_key("DropInPaths"@) {
                words(m["DropInPaths"@])
            } else {
                Seq::empty()
            },
        )
    }
}

fn value_is(props: &Vec<(String, String)>, key: &str, want: &str) -> (r: bool)
    requires
        distinct_keys(text_pairs_view(props@)),
    ensures
        r == (entries_map(text_pairs_view(props@)).contains_key(key@) && entries_map(
            text_pairs_view(props@),
        )[key@] == want@),
{
    match lookup_text(props, key) {
        Some(v) => str_eq(v.as_str(), want),
        None => false,
    }
}

pub fn unit_files(props: &Vec<(String, String)>) -> (r: Result<Vec<String>, BrokerError>)
    requires
        distinct_keys(text_pairs_view(props@)),
    ensures
        match unit_files_of(entries_map(text_pairs_view(props@))) {
            Ok(fs) => r matches Ok(v) && crate::privileged::texts_of(v@) == fs,
            Err(code) => refused(r, code),
        },
{
    if !value_is(props, "LoadState", "loaded") || !value_is(props, "NeedDaemonReload", "no") {
        return Err(BrokerError("unit_unavailable_or_stale"));
    }
    let fragment = match lookup_text(props, "FragmentPath") {
        Some(f) => f,
        None => {
            return Err(BrokerError("transient_units_not_allowed"));
        },
    };
    let fc = chars_of(fragment.as_str());
    if fc.len() == 0 {
        return Err(BrokerError("transient_units_not_allowed"));
    }
    let mut out: Vec<String> = Vec::new();
    out.push(fragment);
    let ghost first = out@;
    let dropins: Vec<Vec<char>> = match lookup_text(props, "DropInPaths") {
        Some(d) => {
            let dc = chars_of(d.as_str());
            split_words(dc.as_slice())
        },
        None => {
            let e: Vec<Vec<char>> = Vec::new();
            assert(views(e@) =~= Seq::<Seq<char>>::empty());
            e
        },
    };
    let ghost ws = views(dropins@);
    let mut i: usize = 0;
    assert(crate::privileged::texts_of(out@) =~= crate::privileged::texts_of(first) + ws.take(0));
    while i < dropins.len()
        invariant
            i <= dropins.len(),
            ws == views(dropins@),
            crate::privileged::texts_of(out@) == crate::privileged::texts_of(first) + ws.take(
                i as int,
            ),
        decreases dropins.len() - i,
    {
        let w = crate::text::string_of(dropins[i].as_slice());
        assert(w@ == ws[i as int]);
        let ghost before = out@;
        out.push(w);
        assert(crate::privileged::texts_of(out@) =~= crate::privileged::texts_of(before).push(
            ws[i as int],
        ));
        assert(ws.take(i + 1) =~= ws.take(i as int).push(ws[i as int]));
        assert(crate::privileged::texts_of(out@) =~= crate::privileged::texts_of(first) + ws.take(
            i + 1,
        ));
        i = i + 1;
    }
    assert(ws.take(ws.len() as int) =~= ws);
    Ok(out)
}

// ---------------------------------------------------------------------------
// Processes.
// ---------------------------------------------------------------------------

/// The command name in `/proc/<pid>/stat`: between the first `(` and the
/// last `)` after it.
pub open spec fn process_name_of(stat: Seq<char>) -> Option<Seq<char>> {
    match crate::text::split_once(stat, '(') {
        None => None,
        Some((_, rest)) => {
            let close = crate::text::last_index_of(rest, ')');
            if close < 0 {
                None
            } else {
                Some(rest.take(close))
            }
        },
    }
}

pub fn process_name(stat: &str) -> (r: Result<String, BrokerError>)
    ensures
        match process_name_of(stat@) {
            Some(n) => r matches Ok(s) && s@ == n,
            None => refused(r, "invalid_process_state"@),
        },
{
    let c = chars_of(stat);
    let open = crate::text::find_from(c.as_slice(), 0, '(');
    proof {
        assert(c@.skip(0) =~= c@);
        crate::text::lemma_index_of_bounds(c@, '(');
    }
    if open == c.len() {
        return Err(BrokerError("invalid_process_state"));
    }
    let rest = slice_of(c.as_slice(), open + 1, c.len());
    assert(rest@ =~= c@.skip(open + 1));
    match crate::text::rfind_char(rest.as_slice(), ')') {
        None => Err(BrokerError("invalid_process_state")),
        Some(close) => {
            let name = slice_of(rest.as_slice(), 0, close);
            assert(name@ =~= rest@.take(close as int));
            Ok(crate::text::string_of(name.as_slice()))
        },
    }
}

/// The broker never terminates itself.
pub fn check_not_self(pid: u32, own_pid: u32) -> (r: Result<(), BrokerError>)
    ensures
        r is Ok <==> pid != own_pid,
        r is Err ==> refused(r, "cannot_terminate_broker"@),
{
    if pid == own_pid {
        return Err(BrokerError("cannot_terminate_broker"));
    }
    Ok(())
}

/// The process must be the one that was approved: same start time, and
/// not yet gone.
pub fn check_same_process(start_before: u64, start_after: u64) -> (r: Result<(), BrokerError>)
    ensures
        r is Ok <==> start_before == start_after,
        r is Err ==> refused(r, "process_changed"@),
{
    if start_before != start_after {
        return Err(BrokerError("process_changed"));
    }
    Ok(())
}

/// A helper that ran: its output when it succeeded, a failure otherwise.
pub fn helper_result(success: bool, stdout: Vec<u8>) -> (r: Result<Vec<u8>, BrokerError>)
    ensures
        success ==> r == Ok::<Vec<u8>, BrokerError>(stdout),
        !success ==> refused(r, "subprocess_failed"@),
{
    if success {
        Ok(stdout)
    } else {
        Err(BrokerError("subprocess_failed"))
    }
}

/// What identifies a process to terminate: its pid, its start time, its
/// owner and its command name.
#[derive(Debug, Clone, PartialEq, Eq)]
pub struct ProcessState {
    pub pid: u32,
    pub start_ticks: u64,
    pub uid: u32,
    pub name: String,
}

} // verus!
