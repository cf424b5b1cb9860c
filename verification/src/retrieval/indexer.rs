//! The rules of document collection: the index budget, which files count as
//! manual pages, how manual pages and the dpkg status file are read, and how
//! a source's documents update the stored ones.
use super::config::{RetrievalConfig, SourceConfig};
use crate::protocol::bounded::byte_len;
use crate::broker::llama::{lossy_text, utf8_lossy};
use super::model::{IndexReport, SourceKind, SourceReport, AUTHORITY_BOUNDARY, COMMON_PROTOCOL_ID, ROUTER_CONTEXT_ID};
use crate::kv::{distinct_keys, entries_map, lemma_entries_map_distinct, lookup_text, text_pairs_view, upsert_text};
use crate::text::{chars_contains, concat, contains, matches_at, occurs_at, split_once};
use crate::kv::{pairs_view, lookup};
use crate::text::{
    chars_ends_with, chars_eq, chars_of, chars_starts_with, ends_with, find_from, index_of,
    lemma_index_of_bounds, lines, lower_chars, lower_seq, owned, push_chars, replace_all,
    replace_chars, slice_of, split_lines, starts_with, str_eq, string_of, trim, trim_bounds, views,
};
use vstd::prelude::*;

verus! {

/// How many documents and bytes the index may still take in.
#[derive(Debug, Clone, Copy, PartialEq, Eq, Structural)]
pub struct Budget {
    pub max_file_count: usize,
    pub max_total_bytes: usize,
    pub consumed_files: usize,
    pub consumed_bytes: usize,
}

/// The budget never runs over its limits.
pub open spec fn budget_within(b: Budget) -> bool {
    b.consumed_files <= b.max_file_count && b.consumed_bytes <= b.max_total_bytes
}

impl Budget {
    pub fn new(max_file_count: usize, max_total_bytes: usize) -> (r: Self)
        ensures
            r == (Budget { max_file_count, max_total_bytes, consumed_files: 0, consumed_bytes: 0 }),
            budget_within(r),
    {
        Budget { max_file_count, max_total_bytes, consumed_files: 0, consumed_bytes: 0 }
    }

    /// Takes one document of `bytes` bytes when both the document count and
    /// the byte total stay within their limits; otherwise takes nothing.
    pub fn try_consume(&mut self, bytes: usize) -> (r: bool)
        requires
            budget_within(*old(self)),
            old(self).consumed_bytes + bytes <= usize::MAX || old(self).max_total_bytes
                < usize::MAX,
        ensures
            budget_within(*final(self)),
            r == (old(self).consumed_files < old(self).max_file_count && old(self).consumed_bytes
                + bytes <= old(self).max_total_bytes),
            r ==> *final(self) == (Budget {
                consumed_files: (old(self).consumed_files + 1) as usize,
                consumed_bytes: (old(self).consumed_bytes + bytes) as usize,
                ..*old(self)
            }),
            !r ==> *final(self) == *old(self),
    {
        if self.consumed_files >= self.max_file_count {
            return false;
        }
        if self.consumed_bytes.saturating_add(bytes) > self.max_total_bytes {
            return false;
        }
        self.consumed_files = self.consumed_files + 1;
        self.consumed_bytes = self.consumed_bytes + bytes;
        true
    }
}

/// The stored name of a source kind.
pub open spec fn source_kind_text(k: SourceKind) -> Seq<char> {
    match k {
        SourceKind::Filesystem => "filesystem"@,
        SourceKind::DpkgStatus => "dpkg_status"@,
        SourceKind::ManDirectory => "man_directory"@,
    }
}

pub fn source_kind_to_string(kind: SourceKind) -> (r: &'static str)
    ensures
        r@ == source_kind_text(kind),
{
    match kind {
        SourceKind::Filesystem => "filesystem",
        SourceKind::DpkgStatus => "dpkg_status",
        SourceKind::ManDirectory => "man_directory",
    }
}

/// A manual page file name: it ends, in any letter case, in `.1` to `.8`,
/// or in one of those followed by `.gz`.
pub open spec fn manpage_name(file_name: Seq<char>) -> bool {
    let n = lower_seq(file_name);
    let len = n.len();
    ||| len >= 2 && n[len - 2] == '.' && '1' <= n[len - 1] <= '8'
    ||| len >= 5 && n[len - 5] == '.' && '1' <= n[len - 4] <= '8' && n[len - 3] == '.' && n[len
        - 2] == 'g' && n[len - 1] == 'z'
}

/// Whether the file, by its name, holds a manual page.
pub fn is_manpage_file(file_name: &str) -> (r: bool)
    ensures
        r == manpage_name(file_name@),
{
    let n = lower_chars(chars_of(file_name).as_slice());
    let len = n.len();
    let plain = len >= 2 && n[len - 2] == '.' && '1' <= n[len - 1] && n[len - 1] <= '8';
    let gz = len >= 5 && n[len - 5] == '.' && '1' <= n[len - 4] && n[len - 4] <= '8' && n[len - 3]
        == '.' && n[len - 2] == 'g' && n[len - 1] == 'z';
    plain || gz
}

/// The page name of a manual page file: the lowercase text before the first
/// dot, once a `.gz` suffix is removed.
pub open spec fn manpage_page_name(file_name: Seq<char>) -> Seq<char> {
    let base = if ends_with(file_name, ".gz"@) {
        file_name.take(file_name.len() - 3)
    } else {
        file_name
    };
    lower_seq(base.take(index_of(base, '.')))
}

pub fn extract_manpage_name(file_name: &str) -> (r: String)
    ensures
        r@ == manpage_page_name(file_name@),
{
    let s = chars_of(file_name);
    let gz = chars_of(".gz");
    proof {
        reveal_strlit(".gz");
    }
    let base = if chars_ends_with(s.as_slice(), gz.as_slice()) {
        slice_of(s.as_slice(), 0, s.len() - 3)
    } else {
        slice_of(s.as_slice(), 0, s.len())
    };
    assert(s@.subrange(0, s@.len() as int) =~= s@);
    assert(s@.subrange(0, s@.len() - 3) =~= s@.take(s@.len() - 3));
    let dot = find_from(base.as_slice(), 0, '.');
    assert(base@.skip(0) =~= base@);
    let head = slice_of(base.as_slice(), 0, dot);
    assert(head@ =~= base@.take(index_of(base@, '.')));
    string_of(lower_chars(head.as_slice()).as_slice())
}

/// The extension as configured: without leading dots, in lowercase.
pub open spec fn normalized_extension(ext: Seq<char>) -> Seq<char>
    decreases ext.len(),
{
    if ext.len() > 0 && ext[0] == '.' {
        normalized_extension(ext.drop_first())
    } else {
        lower_seq(ext)
    }
}

/// The file name, in lowercase, is the extension, ends with a dot and the
/// extension, or simply ends with it.
pub open spec fn extension_matches(file_name: Seq<char>, ext: Seq<char>) -> bool {
    let n = lower_seq(file_name);
    let e = normalized_extension(ext);
    n == e || ends_with(n, seq!['.'] + e) || ends_with(n, e)
}

pub fn matches_extension(file_name: &str, allowed: &Vec<String>) -> (r: bool)
    ensures
        r == exists|i: int| 0 <= i < allowed@.len() && extension_matches(file_name@, #[trigger] allowed@[i]@),
{
    let n = lower_chars(chars_of(file_name).as_slice());
    let mut i: usize = 0;
    while i < allowed.len()
        invariant
            i <= allowed.len(),
            n@ == lower_seq(file_name@),
            forall|j: int| 0 <= j < i ==> !extension_matches(file_name@, #[trigger] allowed@[j]@),
        decreases allowed.len() - i,
    {
        let raw = chars_of(allowed[i].as_str());
        let mut k: usize = 0;
        assert(raw@.skip(0) =~= raw@);
        while k < raw.len() && raw[k] == '.'
            invariant
                k <= raw.len(),
                normalized_extension(raw@) == normalized_extension(raw@.skip(k as int)),
            decreases raw.len() - k,
        {
            assert(raw@.skip(k as int).drop_first() =~= raw@.skip(k + 1));
            k = k + 1;
        }
        proof {
            if k == 0 {
                assert(raw@.skip(0) =~= raw@);
            }
        }
        let e = lower_chars(slice_of(raw.as_slice(), k, raw.len()).as_slice());
        assert(raw@.subrange(k as int, raw@.len() as int) =~= raw@.skip(k as int));
        let mut dotted: Vec<char> = Vec::new();
        dotted.push('.');
        push_chars(&mut dotted, e.as_slice());
        assert(dotted@ =~= seq!['.'] + e@);
        if chars_eq(n.as_slice(), e.as_slice()) || chars_ends_with(n.as_slice(), dotted.as_slice())
            || chars_ends_with(n.as_slice(), e.as_slice()) {
            assert(extension_matches(file_name@, allowed@[i as int]@));
            return true;
        }
        i = i + 1;
    }
    false
}

/// Manual page text without roff requests and comments, with the common
/// escapes for dashes, fonts and quotes removed, one trimmed line each.
pub open spec fn manpage_text(raw: Seq<char>) -> Seq<char> {
    manpage_lines(lines(raw))
}

pub open spec fn clean_manpage_line(t: Seq<char>) -> Seq<char> {
    trim(
        replace_all(
            replace_all(
                replace_all(replace_all(replace_all(t, "\\-"@, "-"@), "\\fB"@, ""@), "\\fI"@, ""@),
                "\\fR"@,
                ""@,
            ),
            "\\(aq"@,
            "'"@,
        ),
    )
}

pub open spec fn manpage_lines(ls: Seq<Seq<char>>) -> Seq<char>
    decreases ls.len(),
{
    if ls.len() == 0 {
        Seq::empty()
    } else {
        let t = trim(ls.last());
        let keep = t.len() > 0 && t[0] != '.' && t[0] != '\'';
        if keep {
            manpage_lines(ls.drop_last()) + clean_manpage_line(t).push('\n')
        } else {
            manpage_lines(ls.drop_last())
        }
    }
}

fn clean_line(t: &[char]) -> (r: Vec<char>)
    ensures
        r@ == clean_manpage_line(t@),
{
    proof {
        reveal_strlit("\\-");
        reveal_strlit("\\fB");
        reveal_strlit("\\fI");
        reveal_strlit("\\fR");
        reveal_strlit("\\(aq");
    }
    let a = replace_chars(t, chars_of("\\-").as_slice(), chars_of("-").as_slice());
    let b = replace_chars(a.as_slice(), chars_of("\\fB").as_slice(), chars_of("").as_slice());
    let c = replace_chars(b.as_slice(), chars_of("\\fI").as_slice(), chars_of("").as_slice());
    let d = replace_chars(c.as_slice(), chars_of("\\fR").as_slice(), chars_of("").as_slice());
    let e = replace_chars(d.as_slice(), chars_of("\\(aq").as_slice(), chars_of("'").as_slice());
    let (x, y) = trim_bounds(e.as_slice(), 0, e.len());
    assert(e@.subrange(0, e@.len() as int) =~= e@);
    slice_of(e.as_slice(), x, y)
}

/// The text of the first member of a gzip stream, if it decodes and the
/// result is UTF-8.
pub uninterp spec fn gunzip_text(data: Seq<u8>) -> Option<Seq<char>>;

/// `flate2::read::GzDecoder` over the bytes, then `Read::read_to_string`:
/// the text of the first gzip member, named. Reading from memory fails only
/// on what the bytes hold, so it fails exactly where the name has no text.
#[verifier::external_body]
fn gunzip(bytes: &[u8]) -> (r: Result<String, std::io::Error>)
    ensures
        r is Ok <==> gunzip_text(bytes@) is Some,
        r matches Ok(s) ==> gunzip_text(bytes@) == Some(s@),
{
    let mut decoded = String::new();
    std::io::Read::read_to_string(&mut flate2::read::GzDecoder::new(bytes), &mut decoded)?;
    Ok(decoded)
}

/// The indexed text of a manual page file: gunzipped when compressed (a
/// stream that does not decode is an error), otherwise its bytes read with
/// invalid UTF-8 replaced; then read as plain text, never running macros.
pub fn manpage_document(bytes: &[u8], gz: bool) -> (r: Result<String, std::io::Error>)
    ensures
        gz ==> (r is Ok <==> gunzip_text(bytes@) is Some),
        gz ==> (r matches Ok(s) ==> s@ == manpage_text(gunzip_text(bytes@)->0)),
        !gz ==> (r matches Ok(s) && s@ == manpage_text(utf8_lossy(bytes@))),
{
    if gz {
        match gunzip(bytes) {
            Ok(raw) => Ok(sanitize_manpage(raw.as_str())),
            Err(e) => Err(e),
        }
    } else {
        let raw = lossy_text(bytes);
        Ok(sanitize_manpage(raw.as_str()))
    }
}

/// Reads a manual page as plain text, never running its macros.
pub fn sanitize_manpage(raw: &str) -> (r: String)
    ensures
        r@ == manpage_text(raw@),
{
    let ls = split_lines(chars_of(raw).as_slice());
    let ghost all = lines(raw@);
    let mut out: Vec<char> = Vec::new();
    let mut i: usize = 0;
    assert(all.take(0) =~= Seq::<Seq<char>>::empty());
    while i < ls.len()
        invariant
            i <= ls.len(),
            views(ls@) == all,
            all == lines(raw@),
            out@ == manpage_lines(all.take(i as int)),
        decreases ls.len() - i,
    {
        assert(ls@[i as int]@ == all[i as int]);
        assert(all.take(i + 1).drop_last() =~= all.take(i as int));
        assert(all.take(i + 1).last() == all[i as int]);
        let line = ls[i].as_slice();
        let (a, b) = trim_bounds(line, 0, line.len());
        assert(line@.subrange(0, line@.len() as int) =~= line@);
        let t = slice_of(line, a, b);
        if t.len() > 0 && t[0] != '.' && t[0] != '\'' {
            let c = clean_line(t.as_slice());
            push_chars(&mut out, c.as_slice());
            out.push('\n');
        }
        i = i + 1;
    }
    assert(all.take(ls.len() as int) =~= all);
    string_of(out.as_slice())
}

/// Lowercase hexadecimal digits, two per byte.
pub open spec fn hex_digit(v: u8) -> char {
    if v < 10 {
        ((v + 48) as u32) as char
    } else {
        ((v + 87) as u32) as char
    }
}

pub open spec fn hex_text(bytes: Seq<u8>) -> Seq<char>
    decreases bytes.len(),
{
    if bytes.len() == 0 {
        Seq::empty()
    } else {
        hex_text(bytes.drop_last()).push(hex_digit(bytes.last() / 16)).push(
            hex_digit(bytes.last() % 16),
        )
    }
}

fn hex_char(v: u8) -> (c: char)
    requires
        v < 16,
    ensures
        c == hex_digit(v),
{
    let table: [char; 16] = [
        '0',
        '1',
        '2',
        '3',
        '4',
        '5',
        '6',
        '7',
        '8',
        '9',
        'a',
        'b',
        'c',
        'd',
        'e',
        'f',
    ];
    let c = table[v as usize];
    assert(c == hex_digit(v)) by {
        assert(table@ == seq!['0', '1', '2', '3', '4', '5', '6', '7', '8', '9', 'a', 'b', 'c', 'd', 'e', 'f']);
    }
    c
}

pub fn hex_encode(bytes: &[u8]) -> (r: String)
    ensures
        r@ == hex_text(bytes@),
{
    let mut out: Vec<char> = Vec::new();
    let mut i: usize = 0;
    assert(bytes@.take(0) =~= Seq::<u8>::empty());
    while i < bytes.len()
        invariant
            i <= bytes.len(),
            out@ == hex_text(bytes@.take(i as int)),
        decreases bytes.len() - i,
    {
        let b = bytes[i];
        assert(b >> 4 < 16) by (bit_vector);
        assert(b & 0x0f < 16) by (bit_vector);
        out.push(hex_char(b >> 4));
        out.push(hex_char(b & 0x0f));
        proof {
            assert(b >> 4 == b / 16) by (bit_vector);
            assert(b & 0x0f == b % 16) by (bit_vector);
            assert(bytes@.take(i + 1).drop_last() =~= bytes@.take(i as int));
        }
        i = i + 1;
    }
    assert(bytes@.take(bytes.len() as int) =~= bytes@);
    string_of(out.as_slice())
}

/// The SHA-256 digest of a byte string.
pub uninterp spec fn sha256_digest(data: Seq<u8>) -> Seq<u8>;

/// `sha2::Sha256::digest`: the 32-byte SHA-256 digest of `data`, named.
#[verifier::external_body]
pub(crate) fn sha256(data: &[u8]) -> (r: Vec<u8>)
    ensures
        r@ == sha256_digest(data@),
        r@.len() == 32,
{
    <sha2::Sha256 as sha2::Digest>::digest(data).to_vec()
}

/// The lowercase hexadecimal SHA-256 digest of the UTF-8 encoding of `content`.
pub fn hash_content(content: &str) -> (r: String)
    ensures
        r@ == hex_text(sha256_digest(vstd::utf8::encode_utf8(content@))),
        r@.len() == 64,
{
    let d = sha256(content.as_bytes());
    let r = hex_encode(d.as_slice());
    proof {
        lemma_hex_len(d@);
    }
    r
}

pub proof fn lemma_hex_len(b: Seq<u8>)
    ensures
        hex_text(b).len() == 2 * b.len(),
    decreases b.len(),
{
    if b.len() > 0 {
        lemma_hex_len(b.drop_last());
    }
}


/// Index of the first occurrence of `p` in `s`, or `s.len()` when there is none.
pub open spec fn find_str(s: Seq<char>, p: Seq<char>) -> int
    decreases s.len(),
{
    if p.len() == 0 {
        0
    } else if s.len() < p.len() {
        s.len() as int
    } else if starts_with(s, p) {
        0
    } else {
        1 + find_str(s.drop_first(), p)
    }
}

pub proof fn lemma_find_str(s: Seq<char>, p: Seq<char>)
    requires
        p.len() > 0,
    ensures
        0 <= find_str(s, p) <= s.len(),
        find_str(s, p) < s.len() ==> find_str(s, p) + p.len() <= s.len() && s.subrange(
            find_str(s, p),
            find_str(s, p) + p.len(),
        ) == p,
        forall|j: int| 0 <= j < find_str(s, p) ==> !occurs_at(s, p, j),
    decreases s.len(),
{
    if s.len() >= p.len() && !starts_with(s, p) {
        lemma_find_str(s.drop_first(), p);
        let f = find_str(s.drop_first(), p);
        if f < s.len() - 1 {
            assert(s.drop_first().subrange(f, f + p.len()) =~= s.subrange(f + 1, f + 1 + p.len()));
        }
        assert forall|j: int| 0 <= j < find_str(s, p) implies !occurs_at(s, p, j) by {
            if j == 0 {
                assert(s.subrange(0, p.len() as int) =~= s.take(p.len() as int));
            } else if j + p.len() <= s.len() {
                assert(s.subrange(j, j + p.len()) =~= s.drop_first().subrange(j - 1, j - 1 + p.len()));
                assert(!occurs_at(s.drop_first(), p, j - 1));
            }
        }
    } else if s.len() >= p.len() {
        assert(s.subrange(0, p.len() as int) =~= s.take(p.len() as int));
    } else {
        assert forall|j: int| 0 <= j < find_str(s, p) implies !occurs_at(s, p, j) by {}
    }
}

/// `str::split` with a non-empty pattern.
pub open spec fn split_str(s: Seq<char>, p: Seq<char>) -> Seq<Seq<char>>
    decreases s.len(),
{
    let i = find_str(s, p);
    if p.len() == 0 || i >= s.len() {
        seq![s]
    } else {
        proof {
            lemma_find_str(s, p);
        }
        seq![s.take(i)] + split_str(s.skip(i + p.len()), p)
    }
}

fn find_str_from(s: &[char], from: usize, p: &[char]) -> (r: usize)
    requires
        from <= s.len(),
        p.len() > 0,
    ensures
        r == from + find_str(s@.skip(from as int), p@),
{
    let ghost t = s@.skip(from as int);
    proof {
        lemma_find_str(t, p@);
    }
    let mut i = from;
    while i < s.len()
        invariant
            from <= i <= s.len(),
            p.len() > 0,
            t == s@.skip(from as int),
            forall|j: int| from <= j < i ==> !occurs_at(s@, p@, j),
        decreases s.len() - i,
    {
        if matches_at(s, i, p) {
            proof {
                lemma_find_str(t, p@);
                let f = find_str(t, p@);
                if f < i - from {
                    assert(t.subrange(f, f + p.len()) =~= s@.subrange(from + f, from + f + p.len()));
                    assert(occurs_at(s@, p@, from + f));
                }
                if f > i - from {
                    assert(t.subrange(i - from, i - from + p.len()) =~= s@.subrange(i as int, i + p.len()));
                    assert(occurs_at(t, p@, i - from));
                }
            }
            return i;
        }
        i = i + 1;
    }
    proof {
        lemma_find_str(t, p@);
        let f = find_str(t, p@);
        if f < t.len() {
            assert(t.subrange(f, f + p.len()) =~= s@.subrange(from + f, from + f + p.len()));
            assert(occurs_at(s@, p@, from + f));
        }
    }
    s.len()
}

/// `str::split` on characters with a non-empty pattern.
pub fn split_str_chars(s: &[char], p: &[char]) -> (r: Vec<Vec<char>>)
    requires
        p.len() > 0,
    ensures
        views(r@) == split_str(s@, p@),
{
    let mut r: Vec<Vec<char>> = Vec::new();
    let mut pos: usize = 0;
    assert(s@.skip(0) =~= s@);
    assert(views(r@) =~= Seq::<Seq<char>>::empty());
    loop
        invariant
            pos <= s.len(),
            p.len() > 0,
            views(r@) + split_str(s@.skip(pos as int), p@) == split_str(s@, p@),
        decreases s.len() - pos,
    {
        let ghost t = s@.skip(pos as int);
        let e = find_str_from(s, pos, p);
        proof {
            lemma_find_str(t, p@);
        }
        let piece = slice_of(s, pos, e);
        let ghost before = views(r@);
        if e >= s.len() {
            r.push(piece);
            assert(piece@ =~= t);
            assert(views(r@) =~= before.push(t));
            assert(views(r@) =~= before + split_str(t, p@));
            return r;
        }
        r.push(piece);
        assert(piece@ =~= t.take(e - pos));
        assert(t.skip(e - pos + p.len()) =~= s@.skip(e + p.len()));
        assert(views(r@) + split_str(s@.skip(e + p.len()), p@) =~= before + split_str(t, p@));
        pos = e + p.len();
    }
}

/// The fields of a dpkg status paragraph, line by line: `Key: value` sets a
/// field and makes it current, an indented line continues the current field
/// on a new line, and any other line is ignored.
pub open spec fn dpkg_fold(ls: Seq<Seq<char>>) -> (Map<Seq<char>, Seq<char>>, Option<Seq<char>>)
    decreases ls.len(),
{
    if ls.len() == 0 {
        (Map::empty(), None)
    } else {
        let prev = dpkg_fold(ls.drop_last());
        let m = prev.0;
        let cur = prev.1;
        let line = ls.last();
        if line.len() > 0 && (line[0] == ' ' || line[0] == '\t') {
            match cur {
                Some(k) => if m.contains_key(k) {
                    (m.insert(k, m[k] + "\n"@ + trim(line)), cur)
                } else {
                    (m, cur)
                },
                None => (m, cur),
            }
        } else {
            match split_once(line, ':') {
                None => (m, cur),
                Some((rk, rv)) => (m.insert(trim(rk), trim(rv)), Some(trim(rk))),
            }
        }
    }
}

/// The packages of a dpkg status file: one field map per non-blank paragraph
/// that sets at least one field.
pub open spec fn dpkg_packages(pieces: Seq<Seq<char>>) -> Seq<Map<Seq<char>, Seq<char>>>
    decreases pieces.len(),
{
    if pieces.len() == 0 {
        Seq::empty()
    } else {
        let prev = dpkg_packages(pieces.drop_last());
        let st = trim(pieces.last());
        let m = dpkg_fold(lines(st)).0;
        if st.len() == 0 || m == Map::<Seq<char>, Seq<char>>::empty() {
            prev
        } else {
            prev.push(m)
        }
    }
}

pub open spec fn dpkg_status_of(content: Seq<char>) -> Seq<Map<Seq<char>, Seq<char>>> {
    dpkg_packages(split_str(content, "\n\n"@))
}

fn dpkg_stanza(st: &[char]) -> (r: Vec<(String, String)>)
    ensures
        distinct_keys(text_pairs_view(r@)),
        entries_map(text_pairs_view(r@)) == dpkg_fold(lines(st@)).0,
{
    let ls = split_lines(st);
    let ghost all = lines(st@);
    let mut table: Vec<(String, String)> = Vec::new();
    let mut current: Option<String> = None;
    let mut i: usize = 0;
    assert(all.take(0) =~= Seq::<Seq<char>>::empty());
    assert(text_pairs_view(table@) =~= Seq::<(Seq<char>, Seq<char>)>::empty());
    assert(entries_map(text_pairs_view(table@)) =~= Map::<Seq<char>, Seq<char>>::empty());
    while i < ls.len()
        invariant
            i <= ls.len(),
            views(ls@) == all,
            all == lines(st@),
            distinct_keys(text_pairs_view(table@)),
            entries_map(text_pairs_view(table@)) == dpkg_fold(all.take(i as int)).0,
            match (current, dpkg_fold(all.take(i as int)).1) {
                (Some(c), Some(k)) => c@ == k,
                (None, None) => true,
                _ => false,
            },
        decreases ls.len() - i,
    {
        let line = ls[i].as_slice();
        assert(ls@[i as int]@ == all[i as int]);
        assert(all.take(i + 1).drop_last() =~= all.take(i as int));
        assert(all.take(i + 1).last() == all[i as int]);
        if line.len() > 0 && (line[0] == ' ' || line[0] == '\t') {
            match &current {
                Some(key) => {
                    match lookup_text(&table, key.as_str()) {
                        Some(existing) => {
                            let (a, b) = trim_bounds(line, 0, line.len());
                            assert(line@.subrange(0, line@.len() as int) =~= line@);
                            let t = string_of(slice_of(line, a, b).as_slice());
                            let v = concat(concat(existing.as_str(), "\n").as_str(), t.as_str());
                            upsert_text(&mut table, key.clone(), v);
                        },
                        None => {},
                    }
                },
                None => {},
            }
        } else {
            let colon = find_from(line, 0, ':');
            proof {
                assert(line@.skip(0) =~= line@);
                lemma_index_of_bounds(line@, ':');
            }
            if colon < line.len() {
                let (a, b) = trim_bounds(line, 0, colon);
                let (c, d) = trim_bounds(line, colon + 1, line.len());
                assert(line@.subrange(0, colon as int) =~= line@.take(colon as int));
                assert(line@.subrange(colon + 1, line@.len() as int) =~= line@.skip(colon + 1));
                let key = string_of(slice_of(line, a, b).as_slice());
                let value = string_of(slice_of(line, c, d).as_slice());
                current = Some(key.clone());
                upsert_text(&mut table, key, value);
            }
        }
        i = i + 1;
    }
    assert(all.take(ls.len() as int) =~= all);
    table
}

/// Splits the text of a dpkg status file into package field maps.
pub fn parse_dpkg_status(content: &str) -> (r: Vec<Vec<(String, String)>>)
    ensures
        r@.len() == dpkg_status_of(content@).len(),
        forall|i: int|
            0 <= i < r@.len() ==> distinct_keys(text_pairs_view(#[trigger] r@[i]@)) && entries_map(
                text_pairs_view(r@[i]@),
            ) == dpkg_status_of(content@)[i],
{
    proof {
        reveal_strlit("\n\n");
    }
    let sep = chars_of("\n\n");
    let pieces = split_str_chars(chars_of(content).as_slice(), sep.as_slice());
    let ghost all = views(pieces@);
    let mut packages: Vec<Vec<(String, String)>> = Vec::new();
    let mut i: usize = 0;
    assert(all.take(0) =~= Seq::<Seq<char>>::empty());
    while i < pieces.len()
        invariant
            i <= pieces.len(),
            all == views(pieces@),
            all == split_str(content@, "\n\n"@),
            packages@.len() == dpkg_packages(all.take(i as int)).len(),
            forall|j: int|
                0 <= j < packages@.len() ==> distinct_keys(text_pairs_view(#[trigger] packages@[j]@))
                    && entries_map(text_pairs_view(packages@[j]@)) == dpkg_packages(
                    all.take(i as int),
                )[j],
        decreases pieces.len() - i,
    {
        assert(pieces@[i as int]@ == all[i as int]);
        assert(all.take(i + 1).drop_last() =~= all.take(i as int));
        assert(all.take(i + 1).last() == all[i as int]);
        let piece = pieces[i].as_slice();
        let (a, b) = trim_bounds(piece, 0, piece.len());
        assert(piece@.subrange(0, piece@.len() as int) =~= piece@);
        let st = slice_of(piece, a, b);
        if st.len() > 0 {
            let fields = dpkg_stanza(st.as_slice());
            proof {
                lemma_entries_map_distinct(text_pairs_view(fields@));
            }
            if fields.len() > 0 {
                proof {
                    let m = entries_map(text_pairs_view(fields@));
                    assert(m.contains_key(text_pairs_view(fields@)[0].0));
                    assert(m != Map::<Seq<char>, Seq<char>>::empty());
                }
                let ghost old_p = packages@;
                packages.push(fields);
                proof {
                    assert forall|j: int| 0 <= j < packages@.len() implies distinct_keys(
                        text_pairs_view(#[trigger] packages@[j]@),
                    ) && entries_map(text_pairs_view(packages@[j]@)) == dpkg_packages(
                        all.take(i + 1),
                    )[j] by {
                        if j < old_p.len() {
                            assert(packages@[j] == old_p[j]);
                        }
                    }
                }
            } else {
                proof {
                    assert(text_pairs_view(fields@) =~= Seq::<(Seq<char>, Seq<char>)>::empty());
                    assert(entries_map(text_pairs_view(fields@)) =~= Map::<Seq<char>, Seq<char>>::empty());
                }
            }
        }
        i = i + 1;
    }
    assert(all.take(pieces.len() as int) =~= all);
    packages
}


/// The fields, in this order, that make up the indexed text of a package.
pub open spec fn dpkg_document_keys() -> Seq<Seq<char>> {
    seq!["Package"@, "Version"@, "Architecture"@, "Priority"@, "Section"@, "Depends"@, "Description"@]
}

/// `Key: value` lines for the listed fields that the package has, values trimmed.
pub open spec fn dpkg_content(m: Map<Seq<char>, Seq<char>>, keys: Seq<Seq<char>>) -> Seq<char>
    decreases keys.len(),
{
    if keys.len() == 0 {
        Seq::empty()
    } else {
        let prev = dpkg_content(m, keys.drop_last());
        let k = keys.last();
        if m.contains_key(k) {
            prev + k + ": "@ + trim(m[k]) + "\n"@
        } else {
            prev
        }
    }
}

pub open spec fn get_or(m: Map<Seq<char>, Seq<char>>, k: Seq<char>, d: Seq<char>) -> Seq<char> {
    if m.contains_key(k) {
        m[k]
    } else {
        d
    }
}

/// The document that a package contributes: its name and version (or
/// `unknown`) and its text; `None` for a package that is not installed or
/// whose text would be blank.
pub open spec fn dpkg_document_of(m: Map<Seq<char>, Seq<char>>) -> Option<(Seq<char>, Seq<char>, Seq<char>)> {
    let status = lower_seq(get_or(m, "Status"@, Seq::empty()));
    let content = dpkg_content(m, dpkg_document_keys());
    if !contains(status, "installed"@) || trim(content).len() == 0 {
        None
    } else {
        Some((get_or(m, "Package"@, "unknown"@), get_or(m, "Version"@, "unknown"@), content))
    }
}

fn lookup_or(fields: &Vec<(String, String)>, key: &str, default: &str) -> (r: String)
    requires
        distinct_keys(text_pairs_view(fields@)),
    ensures
        r@ == get_or(entries_map(text_pairs_view(fields@)), key@, default@),
{
    match lookup_text(fields, key) {
        Some(v) => v,
        None => owned(default),
    }
}

/// The package name, version and indexed text of one installed package.
pub fn dpkg_package_document(fields: &Vec<(String, String)>) -> (r: Option<(String, String, String)>)
    requires
        distinct_keys(text_pairs_view(fields@)),
    ensures
        match (r, dpkg_document_of(entries_map(text_pairs_view(fields@)))) {
            (Some(d), Some(e)) => d.0@ == e.0 && d.1@ == e.1 && d.2@ == e.2,
            (None, None) => true,
            _ => false,
        },
{
    let ghost m = entries_map(text_pairs_view(fields@));
    proof {
        reveal_strlit("");
        assert(""@ =~= Seq::<char>::empty());
    }
    let status = lookup_or(fields, "Status", "");
    let lower = lower_chars(chars_of(status.as_str()).as_slice());
    let installed = chars_contains(lower.as_slice(), chars_of("installed").as_slice());
    let keys: [&str; 7] = ["Package", "Version", "Architecture", "Priority", "Section", "Depends", "Description"];
    let ghost kv = keys@.map_values(|k: &str| k@);
    assert(kv =~= dpkg_document_keys());
    let mut content: Vec<char> = Vec::new();
    let mut i: usize = 0;
    assert(kv.take(0) =~= Seq::<Seq<char>>::empty());
    while i < 7
        invariant
            i <= 7,
            keys@.len() == 7,
            kv == keys@.map_values(|k: &str| k@),
            m == entries_map(text_pairs_view(fields@)),
            distinct_keys(text_pairs_view(fields@)),
            content@ == dpkg_content(m, kv.take(i as int)),
        decreases 7 - i,
    {
        assert(kv.take(i + 1).drop_last() =~= kv.take(i as int));
        assert(kv.take(i + 1).last() == keys[i as int]@);
        match lookup_text(fields, keys[i]) {
            Some(v) => {
                let vc = chars_of(v.as_str());
                let (a, b) = trim_bounds(vc.as_slice(), 0, vc.len());
                assert(vc@.subrange(0, vc@.len() as int) =~= vc@);
                push_chars(&mut content, chars_of(keys[i]).as_slice());
                push_chars(&mut content, chars_of(": ").as_slice());
                push_chars(&mut content, slice_of(vc.as_slice(), a, b).as_slice());
                push_chars(&mut content, chars_of("\n").as_slice());
            },
            None => {},
        }
        i = i + 1;
    }
    assert(kv.take(7) =~= kv);
    let (a, b) = trim_bounds(content.as_slice(), 0, content.len());
    assert(content@.subrange(0, content@.len() as int) =~= content@);
    if !installed || a == b {
        return None;
    }
    let name = lookup_or(fields, "Package", "unknown");
    let version = lookup_or(fields, "Version", "unknown");
    Some((name, version, string_of(content.as_slice())))
}

/// One installed package's document, named `path#package`.
#[derive(Debug, Clone, PartialEq, Eq)]
pub struct DpkgDocument {
    pub path: String,
    pub package_name: String,
    pub package_version: String,
    pub content: String,
}

pub open spec fn dpkg_doc_view(d: DpkgDocument) -> (Seq<char>, Seq<char>, Seq<char>, Seq<char>) {
    (d.path@, d.package_name@, d.package_version@, d.content@)
}

/// What a scan of a dpkg status file gives: the documents taken in, in file
/// order, the number of package stanzas looked at, and the number of
/// documents refused as too large or over the budget.
#[derive(Debug)]
pub struct DpkgScan {
    pub documents: Vec<DpkgDocument>,
    pub scanned: usize,
    pub skipped_oversize: usize,
    pub skipped_budget: usize,
}

/// The scan of the packages `pkgs` of the status file at `path`, from
/// budget `b`: the budget after it, the documents taken in, and the counts of
/// documents too large and over the budget.
pub open spec fn dpkg_scan(
    b: Budget,
    pkgs: Seq<Map<Seq<char>, Seq<char>>>,
    path: Seq<char>,
    max_file_bytes: usize,
) -> (Budget, Seq<(Seq<char>, Seq<char>, Seq<char>, Seq<char>)>, nat, nat)
    decreases pkgs.len(),
{
    if pkgs.len() == 0 {
        (b, Seq::empty(), 0, 0)
    } else {
        let prev = dpkg_scan(b, pkgs.drop_last(), path, max_file_bytes);
        let b1 = prev.0;
        match dpkg_document_of(pkgs.last()) {
            None => prev,
            Some(d) => {
                let len = byte_len(d.2);
                if len > max_file_bytes {
                    (b1, prev.1, prev.2 + 1, prev.3)
                } else if b1.consumed_files < b1.max_file_count && b1.consumed_bytes + len
                    <= b1.max_total_bytes {
                    (
                        Budget {
                            consumed_files: (b1.consumed_files + 1) as usize,
                            consumed_bytes: (b1.consumed_bytes + len) as usize,
                            ..b1
                        },
                        prev.1.push((path + "#"@ + d.0, d.0, d.1, d.2)),
                        prev.2,
                        prev.3,
                    )
                } else {
                    (b1, prev.1, prev.2, prev.3 + 1)
                }
            },
        }
    }
}

/// Scans the text of the dpkg status file at `path`: each installed
/// package with something to index becomes a document named `path#name`,
/// unless it exceeds `max_file_bytes` or the budget, which it then consumes.
pub fn dpkg_documents(text: &str, path: &str, budget: &mut Budget, max_file_bytes: usize) -> (r: DpkgScan)
    requires
        budget_within(*old(budget)),
    ensures
        budget_within(*final(budget)),
        ({
            let scan = dpkg_scan(*old(budget), dpkg_status_of(text@), path@, max_file_bytes);
            &&& *final(budget) == scan.0
            &&& r.documents@.map_values(|d: DpkgDocument| dpkg_doc_view(d)) == scan.1
            &&& r.skipped_oversize == scan.2
            &&& r.skipped_budget == scan.3
        }),
        r.scanned == dpkg_status_of(text@).len(),
{
    let packages = parse_dpkg_status(text);
    let ghost st = dpkg_status_of(text@);
    let ghost b0 = *budget;
    let mut documents: Vec<DpkgDocument> = Vec::new();
    let mut oversize: usize = 0;
    let mut over_budget: usize = 0;
    let mut i: usize = 0;
    assert(st.take(0) =~= Seq::<Map<Seq<char>, Seq<char>>>::empty());
    assert(documents@.map_values(|d: DpkgDocument| dpkg_doc_view(d)) =~= Seq::<
        (Seq<char>, Seq<char>, Seq<char>, Seq<char>),
    >::empty());
    while i < packages.len()
        invariant
            i <= packages.len(),
            packages@.len() == st.len(),
            st == dpkg_status_of(text@),
            forall|j: int|
                0 <= j < packages@.len() ==> distinct_keys(text_pairs_view(#[trigger] packages@[j]@))
                    && entries_map(text_pairs_view(packages@[j]@)) == st[j],
            budget_within(*budget),
            oversize <= i,
            over_budget <= i,
            ({
                let scan = dpkg_scan(b0, st.take(i as int), path@, max_file_bytes);
                &&& *budget == scan.0
                &&& documents@.map_values(|d: DpkgDocument| dpkg_doc_view(d)) == scan.1
                &&& oversize == scan.2
                &&& over_budget == scan.3
            }),
        decreases packages.len() - i,
    {
        proof {
            assert(st.take(i + 1).drop_last() =~= st.take(i as int));
            assert(st.take(i + 1).last() == st[i as int]);
            assert(distinct_keys(text_pairs_view(packages@[i as int]@)));
            assert(entries_map(text_pairs_view(packages@[i as int]@)) == st[i as int]);
        }
        let ghost prev = dpkg_scan(b0, st.take(i as int), path@, max_file_bytes);
        let ghost next = dpkg_scan(b0, st.take(i + 1), path@, max_file_bytes);
        let ghost doc = dpkg_document_of(st[i as int]);
        assert(doc is None ==> next == prev);
        assert(doc matches Some(d) ==> next == (if byte_len(d.2) > max_file_bytes {
            (prev.0, prev.1, prev.2 + 1, prev.3)
        } else if prev.0.consumed_files < prev.0.max_file_count && prev.0.consumed_bytes + byte_len(d.2)
            <= prev.0.max_total_bytes {
            (
                Budget {
                    consumed_files: (prev.0.consumed_files + 1) as usize,
                    consumed_bytes: (prev.0.consumed_bytes + byte_len(d.2)) as usize,
                    ..prev.0
                },
                prev.1.push((path@ + "#"@ + d.0, d.0, d.1, d.2)),
                prev.2,
                prev.3,
            )
        } else {
            (prev.0, prev.1, prev.2, prev.3 + 1)
        }));
        match dpkg_package_document(&packages[i]) {
            None => {},
            Some((name, version, content)) => {
                let len = content.as_str().len();
                assert(doc == Some((name@, version@, content@)));
                assert(len == byte_len(content@));
                if len > max_file_bytes {
                    oversize = oversize + 1;
                } else if budget.consumed_bytes.checked_add(len).is_none() {
                    over_budget = over_budget + 1;
                } else if budget.try_consume(len) {
                    let with_hash = concat(path, "#");
                    let doc_path = concat(with_hash.as_str(), name.as_str());
                    let ghost before = documents@;
                    documents.push(
                        DpkgDocument {
                            path: doc_path,
                            package_name: name,
                            package_version: version,
                            content,
                        },
                    );
                    assert(documents@.map_values(|d: DpkgDocument| dpkg_doc_view(d)) =~= before.map_values(
                        |d: DpkgDocument| dpkg_doc_view(d),
                    ).push(dpkg_doc_view(documents@.last())));
                    assert(dpkg_doc_view(documents@.last()) == (path@ + "#"@ + name@, name@, version@, content@));
                } else {
                    over_budget = over_budget + 1;
                }
            },
        }
        i = i + 1;
    }
    assert(st.take(st.len() as int) =~= st);
    DpkgScan { documents, scanned: packages.len(), skipped_oversize: oversize, skipped_budget: over_budget }
}

/// Whether a document is taken into the index, and if not, why.
#[derive(Debug, Clone, Copy, PartialEq, Eq, Structural)]
pub enum Admission {
    Admitted,
    Oversize,
    OverBudget,
}

/// Admits a document of `byte_len` bytes: it must fit the per-file limit and
/// the remaining budget, which it then consumes.
pub fn admit_document(budget: &mut Budget, byte_len: usize, max_file_bytes: usize) -> (r: Admission)
    requires
        budget_within(*old(budget)),
        old(budget).consumed_bytes + byte_len <= usize::MAX || old(budget).max_total_bytes
            < usize::MAX,
    ensures
        budget_within(*final(budget)),
        byte_len > max_file_bytes ==> r == Admission::Oversize && *final(budget) == *old(budget),
        byte_len <= max_file_bytes ==> (r == Admission::Admitted) == (old(budget).consumed_files
            < old(budget).max_file_count && old(budget).consumed_bytes + byte_len
            <= old(budget).max_total_bytes),
        r == Admission::OverBudget ==> *final(budget) == *old(budget),
        r == Admission::Admitted ==> final(budget).consumed_files == old(budget).consumed_files + 1
            && final(budget).consumed_bytes == old(budget).consumed_bytes + byte_len,
{
    if byte_len > max_file_bytes {
        return Admission::Oversize;
    }
    if !budget.try_consume(byte_len) {
        return Admission::OverBudget;
    }
    Admission::Admitted
}

/// What indexing a document does to the stored copy of its path.
#[derive(Debug, Clone, Copy, PartialEq, Eq, Structural)]
pub enum DocumentChange {
    Inserted,
    Updated,
    Unchanged,
}

pub open spec fn document_change(existing: Map<Seq<char>, Seq<char>>, path: Seq<char>, hash: Seq<char>) -> DocumentChange {
    if !existing.contains_key(path) {
        DocumentChange::Inserted
    } else if existing[path] == hash {
        DocumentChange::Unchanged
    } else {
        DocumentChange::Updated
    }
}

/// Compares a collected document with the stored hash of its path.
pub fn classify_document(existing: &Vec<(String, String)>, path: &str, hash: &str) -> (r: DocumentChange)
    requires
        distinct_keys(text_pairs_view(existing@)),
    ensures
        r == document_change(entries_map(text_pairs_view(existing@)), path@, hash@),
{
    match lookup_text(existing, path) {
        None => DocumentChange::Inserted,
        Some(h) => if crate::text::str_eq(h.as_str(), hash) {
            DocumentChange::Unchanged
        } else {
            DocumentChange::Updated
        },
    }
}

/// The stored paths of a source that this run did not see again, in the
/// order in which they are stored.
pub fn stale_paths(existing: &Vec<(String, String)>, seen: &Vec<String>) -> (r: Vec<String>)
    ensures
        r@.map_values(|p: String| p@) == text_pairs_view(existing@).map_values(
            |e: (Seq<char>, Seq<char>)| e.0,
        ).filter(|p: Seq<char>| !seen@.map_values(|s: String| s@).contains(p)),
{
    let ghost keys = text_pairs_view(existing@).map_values(|e: (Seq<char>, Seq<char>)| e.0);
    let ghost sv = seen@.map_values(|s: String| s@);
    let mut r: Vec<String> = Vec::new();
    let mut i: usize = 0;
    proof {
        reveal(Seq::filter);
        assert(keys.take(0).filter(|p: Seq<char>| !sv.contains(p)) =~= Seq::<Seq<char>>::empty());
    }
    while i < existing.len()
        invariant
            i <= existing.len(),
            keys == text_pairs_view(existing@).map_values(|e: (Seq<char>, Seq<char>)| e.0),
            sv == seen@.map_values(|s: String| s@),
            r@.map_values(|p: String| p@) == keys.take(i as int).filter(|p: Seq<char>| !sv.contains(p)),
        decreases existing.len() - i,
    {
        let path = &existing[i].0;
        assert(keys[i as int] == path@);
        let mut found = false;
        let mut j: usize = 0;
        while j < seen.len()
            invariant
                j <= seen.len(),
                sv == seen@.map_values(|s: String| s@),
                found == exists|k: int| 0 <= k < j && sv[k] == path@,
            decreases seen.len() - j,
        {
            assert(sv[j as int] == seen@[j as int]@);
            if crate::text::str_eq(seen[j].as_str(), path.as_str()) {
                found = true;
            }
            j = j + 1;
        }
        proof {
            assert(found == sv.contains(path@));
            assert(keys.take(i + 1).drop_last() =~= keys.take(i as int));
            reveal(Seq::filter);
            assert(keys.take(i + 1).last() == path@);
        }
        if !found {
            let ghost before = r@;
            r.push(path.clone());
            assert(r@.map_values(|p: String| p@) =~= before.map_values(|p: String| p@).push(path@));
        }
        i = i + 1;
    }
    assert(keys.take(existing.len() as int) =~= keys);
    r
}

/// The sum of `f` over the source reports.
pub open spec fn report_sum(s: Seq<SourceReport>, f: spec_fn(SourceReport) -> nat) -> nat
    decreases s.len(),
{
    if s.len() == 0 {
        0
    } else {
        report_sum(s.drop_last(), f) + f(s.last())
    }
}

pub open spec fn indexed_of(r: SourceReport) -> nat {
    r.indexed_documents as nat
}

pub open spec fn inserted_of(r: SourceReport) -> nat {
    r.inserted as nat
}

pub open spec fn updated_of(r: SourceReport) -> nat {
    r.updated as nat
}

pub open spec fn removed_of(r: SourceReport) -> nat {
    r.removed as nat
}

/// Everything a source skipped: over the budget, outside its allowlist,
/// too large, or unreadable.
pub open spec fn skipped_of(r: SourceReport) -> nat {
    (r.skipped_budget + r.skipped_outside_allowlist + r.skipped_oversize + r.skipped_unreadable) as nat
}

proof fn lemma_report_sum_prefix(s: Seq<SourceReport>, f: spec_fn(SourceReport) -> nat, i: int)
    requires
        0 <= i < s.len(),
    ensures
        report_sum(s.take(i + 1), f) == report_sum(s.take(i), f) + f(s[i]),
        report_sum(s.take(i + 1), f) <= report_sum(s, f),
    decreases s.len() - i,
{
    assert(s.take(i + 1).drop_last() =~= s.take(i));
    if i + 1 < s.len() {
        lemma_report_sum_prefix(s, f, i + 1);
    } else {
        assert(s.take(i + 1) =~= s);
    }
}

/// The source reports follow the configured sources one by one, in order
/// and by name.
pub open spec fn reports_follow(config: Seq<SourceConfig>, reports: Seq<SourceReport>) -> bool {
    &&& reports.len() == config.len()
    &&& forall|i: int| 0 <= i < reports.len() ==> (#[trigger] reports[i]).name@ == config[i].name@
}

/// Where the index is written.
pub struct Indexer {
    index_path: String,
}

impl Indexer {
    pub closed spec fn path(&self) -> Seq<char> {
        self.index_path@
    }

    pub fn new(index_path: String) -> (r: Self)
        ensures
            r.path() == index_path@,
    {
        Indexer { index_path }
    }

    pub fn index_path(&self) -> (r: &str)
        ensures
            r@ == self.path(),
    {
        self.index_path.as_str()
    }

    /// The report of a rebuild, from the report of each source in the order
    /// they were indexed: the configured limits and the totals over the
    /// sources. There is none when the reports do not follow the configured
    /// sources one by one, in order and by name.
    pub fn rebuild(&self, config: &RetrievalConfig, sources: Vec<SourceReport>) -> (res: Option<IndexReport>)
        requires
            report_sum(sources@, |x: SourceReport| indexed_of(x)) <= usize::MAX,
            report_sum(sources@, |x: SourceReport| inserted_of(x)) <= usize::MAX,
            report_sum(sources@, |x: SourceReport| updated_of(x)) <= usize::MAX,
            report_sum(sources@, |x: SourceReport| removed_of(x)) <= usize::MAX,
            report_sum(sources@, |x: SourceReport| skipped_of(x)) <= usize::MAX,
        ensures
            res is Some <==> reports_follow(config.source@, sources@),
            res matches Some(r) ==> {
                &&& r.protocol_id@ == COMMON_PROTOCOL_ID@
                &&& r.router_contract_id@ == ROUTER_CONTEXT_ID@
                &&& r.authority_boundary@ == AUTHORITY_BOUNDARY@
                &&& r.index_path@ == self.path()
                &&& r.max_file_count == config.max_file_count
                &&& r.max_file_bytes == config.max_file_bytes
                &&& r.max_total_bytes == config.max_total_bytes
                &&& r.indexed_total == report_sum(sources@, |x: SourceReport| indexed_of(x))
                &&& r.inserted_total == report_sum(sources@, |x: SourceReport| inserted_of(x))
                &&& r.updated_total == report_sum(sources@, |x: SourceReport| updated_of(x))
                &&& r.removed_total == report_sum(sources@, |x: SourceReport| removed_of(x))
                &&& r.skipped_total == report_sum(sources@, |x: SourceReport| skipped_of(x))
                &&& r.sources@ == sources@
            },
    {
        let mut k: usize = 0;
        if sources.len() != config.source.len() {
            return None;
        }
        while k < sources.len()
            invariant
                k <= sources.len(),
                sources.len() == config.source.len(),
                forall|j: int| 0 <= j < k ==> (#[trigger] sources@[j]).name@ == config.source@[j].name@,
            decreases sources.len() - k,
        {
            if !str_eq(sources[k].name.as_str(), config.source[k].name.as_str()) {
                return None;
            }
            k = k + 1;
        }
        let ghost s = sources@;
        let ghost fi = |x: SourceReport| indexed_of(x);
        let ghost fn_ = |x: SourceReport| inserted_of(x);
        let ghost fu = |x: SourceReport| updated_of(x);
        let ghost fr = |x: SourceReport| removed_of(x);
        let ghost fs = |x: SourceReport| skipped_of(x);
        let mut indexed: usize = 0;
        let mut inserted: usize = 0;
        let mut updated: usize = 0;
        let mut removed: usize = 0;
        let mut skipped: usize = 0;
        let mut i: usize = 0;
        assert(s.take(0) =~= Seq::<SourceReport>::empty());
        while i < sources.len()
            invariant
                i <= sources.len(),
                s == sources@,
                fi == (|x: SourceReport| indexed_of(x)),
                fn_ == (|x: SourceReport| inserted_of(x)),
                fu == (|x: SourceReport| updated_of(x)),
                fr == (|x: SourceReport| removed_of(x)),
                fs == (|x: SourceReport| skipped_of(x)),
                report_sum(s, fi) <= usize::MAX,
                report_sum(s, fn_) <= usize::MAX,
                report_sum(s, fu) <= usize::MAX,
                report_sum(s, fr) <= usize::MAX,
                report_sum(s, fs) <= usize::MAX,
                indexed == report_sum(s.take(i as int), fi),
                inserted == report_sum(s.take(i as int), fn_),
                updated == report_sum(s.take(i as int), fu),
                removed == report_sum(s.take(i as int), fr),
                skipped == report_sum(s.take(i as int), fs),
            decreases sources.len() - i,
        {
            let src = &sources[i];
            proof {
                lemma_report_sum_prefix(s, fi, i as int);
                lemma_report_sum_prefix(s, fn_, i as int);
                lemma_report_sum_prefix(s, fu, i as int);
                lemma_report_sum_prefix(s, fr, i as int);
                lemma_report_sum_prefix(s, fs, i as int);
                assert(*src == s[i as int]);
                assert(fi(s[i as int]) == src.indexed_documents as nat);
                assert(fn_(s[i as int]) == src.inserted as nat);
                assert(fu(s[i as int]) == src.updated as nat);
                assert(fr(s[i as int]) == src.removed as nat);
                assert(fs(s[i as int]) == (src.skipped_budget + src.skipped_outside_allowlist
                    + src.skipped_oversize + src.skipped_unreadable) as nat);
            }
            indexed = indexed + src.indexed_documents;
            inserted = inserted + src.inserted;
            updated = updated + src.updated;
            removed = removed + src.removed;
            skipped = skipped + (src.skipped_budget + src.skipped_outside_allowlist + src.skipped_oversize
                + src.skipped_unreadable);
            i = i + 1;
        }
        assert(s.take(s.len() as int) =~= s);
        Some(IndexReport {
            protocol_id: COMMON_PROTOCOL_ID,
            router_contract_id: ROUTER_CONTEXT_ID,
            index_path: self.index_path.clone(),
            authority_boundary: AUTHORITY_BOUNDARY,
            max_file_count: config.max_file_count,
            max_file_bytes: config.max_file_bytes,
            max_total_bytes: config.max_total_bytes,
            indexed_total: indexed,
            inserted_total: inserted,
            updated_total: updated,
            removed_total: removed,
            skipped_total: skipped,
            sources,
        })
    }
}

} // verus!
