//! Character-level text primitives shared by the parsers of this crate.
//!
//! Every function here works on sequences of `char` and is specified by a
//! spec function over `Seq<char>` that says what `str`'s method of the same
//! name returns.
use vstd::prelude::*;
use vstd::utf8::{encode_scalar, encode_utf8, is_ascii_chars, is_ascii_chars_encode_utf8};

verus! {

/// `char::is_whitespace`: the Unicode `White_Space` property.
pub open spec fn is_ws(c: char) -> bool {
    ||| c == ' '
    ||| ('\t' <= c && c <= '\r')
    ||| c == '\u{85}'
    ||| c == '\u{a0}'
    ||| c == '\u{1680}'
    ||| ('\u{2000}' <= c && c <= '\u{200a}')
    ||| c == '\u{2028}'
    ||| c == '\u{2029}'
    ||| c == '\u{202f}'
    ||| c == '\u{205f}'
    ||| c == '\u{3000}'
}

pub open spec fn is_digit(c: char) -> bool {
    '0' <= c && c <= '9'
}

pub open spec fn is_lower(c: char) -> bool {
    'a' <= c && c <= 'z'
}

pub open spec fn is_upper(c: char) -> bool {
    'A' <= c && c <= 'Z'
}

pub open spec fn is_alnum(c: char) -> bool {
    is_digit(c) || is_lower(c) || is_upper(c)
}

/// `char::to_ascii_lowercase`.
pub open spec fn lower(c: char) -> char {
    if is_upper(c) {
        ((c as u32) + 32) as char
    } else {
        c
    }
}

/// `char::to_ascii_uppercase`.
pub open spec fn upper(c: char) -> char {
    if is_lower(c) {
        ((c as u32) - 32) as char
    } else {
        c
    }
}

/// `str::to_ascii_lowercase`.
pub open spec fn lower_seq(s: Seq<char>) -> Seq<char> {
    s.map_values(|c: char| lower(c))
}

/// `str::to_ascii_uppercase`.
pub open spec fn upper_seq(s: Seq<char>) -> Seq<char> {
    s.map_values(|c: char| upper(c))
}

pub open spec fn all_digits(s: Seq<char>) -> bool {
    forall|i: int| 0 <= i < s.len() ==> is_digit(#[trigger] s[i])
}

pub open spec fn starts_with(s: Seq<char>, p: Seq<char>) -> bool {
    p.len() <= s.len() && s.take(p.len() as int) == p
}

pub open spec fn ends_with(s: Seq<char>, p: Seq<char>) -> bool {
    p.len() <= s.len() && s.skip(s.len() - p.len()) == p
}

/// `p` occurs in `s` at position `i`.
pub open spec fn occurs_at(s: Seq<char>, p: Seq<char>, i: int) -> bool {
    0 <= i && i + p.len() <= s.len() && s.subrange(i, i + p.len()) == p
}

/// `str::contains` with a string pattern.
pub open spec fn contains(s: Seq<char>, p: Seq<char>) -> bool {
    exists|i: int| occurs_at(s, p, i)
}

/// `char` membership.
pub open spec fn has_char(s: Seq<char>, c: char) -> bool {
    exists|i: int| 0 <= i < s.len() && s[i] == c
}

/// Index of the first occurrence of `c` in `s`, or `s.len()` when there is none.
pub open spec fn index_of(s: Seq<char>, c: char) -> int
    decreases s.len(),
{
    if s.len() == 0 {
        0
    } else if s[0] == c {
        0
    } else {
        1 + index_of(s.drop_first(), c)
    }
}

/// Index of the first whitespace character of `s`, or `s.len()` when there is none.
pub open spec fn ws_index(s: Seq<char>) -> int
    decreases s.len(),
{
    if s.len() == 0 {
        0
    } else if is_ws(s[0]) {
        0
    } else {
        1 + ws_index(s.drop_first())
    }
}

/// Index of the last occurrence of `c` in `s`, or -1 when there is none.
pub open spec fn last_index_of(s: Seq<char>, c: char) -> int
    decreases s.len(),
{
    if s.len() == 0 {
        -1
    } else if s.last() == c {
        s.len() - 1
    } else {
        last_index_of(s.drop_last(), c)
    }
}

/// `str::trim_start`.
pub open spec fn trim_start(s: Seq<char>) -> Seq<char>
    decreases s.len(),
{
    if s.len() > 0 && is_ws(s[0]) {
        trim_start(s.drop_first())
    } else {
        s
    }
}

/// `str::trim_end`.
pub open spec fn trim_end(s: Seq<char>) -> Seq<char>
    decreases s.len(),
{
    if s.len() > 0 && is_ws(s.last()) {
        trim_end(s.drop_last())
    } else {
        s
    }
}

/// `str::trim`.
pub open spec fn trim(s: Seq<char>) -> Seq<char> {
    trim_end(trim_start(s))
}

/// `str::split_whitespace`: the maximal runs of non-whitespace characters.
pub open spec fn words(s: Seq<char>) -> Seq<Seq<char>>
    decreases s.len(),
{
    if s.len() == 0 {
        Seq::empty()
    } else if is_ws(s[0]) {
        words(s.drop_first())
    } else {
        let n = ws_index(s);
        proof {
            lemma_ws_index_bounds(s);
        }
        seq![s.take(n)] + words(s.skip(n))
    }
}

/// A line that ended in a line feed loses one carriage return before it.
pub open spec fn strip_cr(l: Seq<char>) -> Seq<char> {
    if l.len() > 0 && l.last() == '\r' {
        l.drop_last()
    } else {
        l
    }
}

/// `str::lines`.
pub open spec fn lines(s: Seq<char>) -> Seq<Seq<char>>
    decreases s.len(),
{
    if s.len() == 0 {
        Seq::empty()
    } else {
        let n = index_of(s, '\n');
        proof {
            lemma_index_of_bounds(s, '\n');
        }
        if n == s.len() {
            seq![s]
        } else {
            seq![strip_cr(s.take(n))] + lines(s.skip(n + 1))
        }
    }
}

/// `str::split_once` on a character: the text before and after its first occurrence.
pub open spec fn split_once(s: Seq<char>, c: char) -> Option<(Seq<char>, Seq<char>)> {
    let n = index_of(s, c);
    if n == s.len() {
        None
    } else {
        Some((s.take(n), s.skip(n + 1)))
    }
}

pub open spec fn digit_value(c: char) -> int {
    (c as int) - ('0' as int)
}

/// The number that a string of decimal digits denotes.
pub open spec fn digits_value(d: Seq<char>) -> int
    decreases d.len(),
{
    if d.len() == 0 {
        0
    } else {
        digits_value(d.drop_last()) * 10 + digit_value(d.last())
    }
}

/// `u64::from_str`: an optional `+`, then one or more decimal digits, in range.
pub open spec fn parse_u64(s: Seq<char>) -> Option<u64> {
    let d = if s.len() > 0 && s[0] == '+' {
        s.drop_first()
    } else {
        s
    };
    if d.len() == 0 || !all_digits(d) || digits_value(d) > u64::MAX {
        None
    } else {
        Some(digits_value(d) as u64)
    }
}

/// `u32::from_str`.
pub open spec fn parse_u32(s: Seq<char>) -> Option<u32> {
    match parse_u64(s) {
        Some(v) => if v <= u32::MAX {
            Some(v as u32)
        } else {
            None
        },
        None => None,
    }
}

/// `i64::from_str`: an optional sign, then one or more decimal digits, in range.
pub open spec fn parse_i64(s: Seq<char>) -> Option<i64> {
    let negative = s.len() > 0 && s[0] == '-';
    let d = if s.len() > 0 && (s[0] == '+' || s[0] == '-') {
        s.drop_first()
    } else {
        s
    };
    if d.len() == 0 || !all_digits(d) {
        None
    } else if negative {
        if digits_value(d) > 0x8000_0000_0000_0000 {
            None
        } else {
            Some((0 - digits_value(d)) as i64)
        }
    } else if digits_value(d) > i64::MAX {
        None
    } else {
        Some(digits_value(d) as i64)
    }
}

/// The number of bytes of the UTF-8 encoding of `s`.
pub open spec fn utf8_len(s: Seq<char>) -> nat {
    encode_utf8(s).len()
}

/// The number of bytes of the UTF-8 encoding of `c`.
pub open spec fn char_utf8_len(c: char) -> nat {
    encode_scalar(c as u32).len()
}

/// Every character is alphanumeric ASCII.
pub open spec fn all_alnum(s: Seq<char>) -> bool {
    forall|i: int| 0 <= i < s.len() ==> is_alnum(#[trigger] s[i])
}

/// The characters of `s` whose encodings make up its first `n` bytes, or
/// `None` when byte `n` is not a character boundary of `s`.
pub open spec fn utf8_prefix(s: Seq<char>, n: int) -> Option<Seq<char>>
    decreases s.len(),
{
    if n == 0 {
        Some(Seq::empty())
    } else if s.len() == 0 || n < char_utf8_len(s[0]) {
        None
    } else {
        match utf8_prefix(s.drop_first(), n - char_utf8_len(s[0])) {
            Some(p) => Some(seq![s[0]] + p),
            None => None,
        }
    }
}

// ---------------------------------------------------------------------------
// Lemmas
// ---------------------------------------------------------------------------

pub proof fn lemma_digits_value_nonneg(d: Seq<char>)
    requires
        all_digits(d),
    ensures
        digits_value(d) >= 0,
    decreases d.len(),
{
    if d.len() > 0 {
        assert(is_digit(d[d.len() - 1]));
        assert(all_digits(d.drop_last())) by {
            assert forall|i: int| 0 <= i < d.drop_last().len() implies is_digit(
                #[trigger] d.drop_last()[i],
            ) by {
                assert(d.drop_last()[i] == d[i]);
            }
        }
        lemma_digits_value_nonneg(d.drop_last());
    }
}

pub proof fn lemma_index_of_bounds(s: Seq<char>, c: char)
    ensures
        0 <= index_of(s, c) <= s.len(),
        index_of(s, c) < s.len() ==> s[index_of(s, c)] == c,
        forall|j: int| 0 <= j < index_of(s, c) ==> s[j] != c,
    decreases s.len(),
{
    if s.len() > 0 && s[0] != c {
        lemma_index_of_bounds(s.drop_first(), c);
        assert forall|j: int| 0 <= j < index_of(s, c) implies s[j] != c by {
            if j > 0 {
                assert(s[j] == s.drop_first()[j - 1]);
            }
        }
    }
}

pub proof fn lemma_ws_index_bounds(s: Seq<char>)
    ensures
        0 <= ws_index(s) <= s.len(),
        ws_index(s) < s.len() ==> is_ws(s[ws_index(s)]),
        forall|j: int| 0 <= j < ws_index(s) ==> !is_ws(#[trigger] s[j]),
    decreases s.len(),
{
    if s.len() > 0 && !is_ws(s[0]) {
        lemma_ws_index_bounds(s.drop_first());
        assert forall|j: int| 0 <= j < ws_index(s) implies !is_ws(#[trigger] s[j]) by {
            if j > 0 {
                assert(s[j] == s.drop_first()[j - 1]);
            }
        }
    }
}

/// `index_of` is determined by the first position of `c` in `s`.
pub proof fn lemma_index_of_is(s: Seq<char>, c: char, n: int)
    requires
        0 <= n <= s.len(),
        n < s.len() ==> s[n] == c,
        forall|j: int| 0 <= j < n ==> s[j] != c,
    ensures
        index_of(s, c) == n,
    decreases s.len(),
{
    if s.len() > 0 && s[0] != c {
        assert forall|j: int| 0 <= j < n - 1 implies s.drop_first()[j] != c by {
            assert(s.drop_first()[j] == s[j + 1]);
        }
        lemma_index_of_is(s.drop_first(), c, n - 1);
    }
}

/// `ws_index` is determined by the first whitespace position of `s`.
pub proof fn lemma_ws_index_is(s: Seq<char>, n: int)
    requires
        0 <= n <= s.len(),
        n < s.len() ==> is_ws(s[n]),
        forall|j: int| 0 <= j < n ==> !is_ws(#[trigger] s[j]),
    ensures
        ws_index(s) == n,
    decreases s.len(),
{
    if s.len() > 0 && !is_ws(s[0]) {
        assert forall|j: int| 0 <= j < n - 1 implies !is_ws(#[trigger] s.drop_first()[j]) by {
            assert(s.drop_first()[j] == s[j + 1]);
        }
        lemma_ws_index_is(s.drop_first(), n - 1);
    }
}

// ---------------------------------------------------------------------------
// Executable primitives
// ---------------------------------------------------------------------------

/// The characters of `s`, in order.
pub fn chars_of(s: &str) -> (v: Vec<char>)
    ensures
        v@ == s@,
{
    broadcast use vstd::string::group_string_axioms;

    let mut v: Vec<char> = Vec::new();
    for c in it: s.chars()
        invariant
            v@ == it.seq().take(it.index() as int),
            it.seq() == s@,
    {
        v.push(c);
    }
    v
}

/// Builds a `String` from its characters with `String::from_iter`, which
/// appends them in order.
#[verifier::external_body]
pub(crate) fn string_of(chars: &[char]) -> (s: String)
    ensures
        s@ == chars@,
{
    String::from_iter(chars.iter())
}

pub fn ws(c: char) -> (r: bool)
    ensures
        r == is_ws(c),
{
    c == ' ' || ('\t' <= c && c <= '\r') || c == '\u{85}' || c == '\u{a0}' || c == '\u{1680}'
        || ('\u{2000}' <= c && c <= '\u{200a}') || c == '\u{2028}' || c == '\u{2029}' || c
        == '\u{202f}' || c == '\u{205f}' || c == '\u{3000}'
}

pub fn digit(c: char) -> (r: bool)
    ensures
        r == is_digit(c),
{
    '0' <= c && c <= '9'
}

pub fn alnum(c: char) -> (r: bool)
    ensures
        r == is_alnum(c),
{
    ('0' <= c && c <= '9') || ('a' <= c && c <= 'z') || ('A' <= c && c <= 'Z')
}

pub fn to_lower(c: char) -> (r: char)
    ensures
        r == lower(c),
{
    if 'A' <= c && c <= 'Z' {
        let v: u32 = c as u32 + 32;
        assert(v < 0xD800);
        char_of(v)
    } else {
        c
    }
}

pub fn to_upper(c: char) -> (r: char)
    ensures
        r == upper(c),
{
    if 'a' <= c && c <= 'z' {
        let v: u32 = c as u32 - 32;
        char_of(v)
    } else {
        c
    }
}

/// `char::from_u32` on a code point below the surrogate range.
#[verifier::external_body]
fn char_of(v: u32) -> (c: char)
    requires
        v < 0xD800,
    ensures
        c == v as char,
        c as u32 == v,
{
    char::from_u32(v).unwrap()
}

/// `str::to_ascii_lowercase` on characters.
pub fn lower_chars(s: &[char]) -> (r: Vec<char>)
    ensures
        r@ == lower_seq(s@),
{
    let mut r: Vec<char> = Vec::new();
    let mut i: usize = 0;
    while i < s.len()
        invariant
            i <= s.len(),
            r@ == lower_seq(s@.take(i as int)),
        decreases s.len() - i,
    {
        let c = to_lower(s[i]);
        r.push(c);
        i = i + 1;
        assert(lower_seq(s@.take(i as int)) =~= lower_seq(s@.take(i - 1)).push(lower(s@[i - 1])));
    }
    assert(s@.take(s.len() as int) =~= s@);
    r
}

/// `str::to_ascii_uppercase` on characters.
pub fn upper_chars(s: &[char]) -> (r: Vec<char>)
    ensures
        r@ == upper_seq(s@),
{
    let mut r: Vec<char> = Vec::new();
    let mut i: usize = 0;
    while i < s.len()
        invariant
            i <= s.len(),
            r@ == upper_seq(s@.take(i as int)),
        decreases s.len() - i,
    {
        let c = to_upper(s[i]);
        r.push(c);
        i = i + 1;
        assert(upper_seq(s@.take(i as int)) =~= upper_seq(s@.take(i - 1)).push(upper(s@[i - 1])));
    }
    assert(s@.take(s.len() as int) =~= s@);
    r
}

/// Characters `[start, end)` of `s` as a new vector.
pub fn slice_of(s: &[char], start: usize, end: usize) -> (r: Vec<char>)
    requires
        start <= end <= s.len(),
    ensures
        r@ == s@.subrange(start as int, end as int),
{
    let mut r: Vec<char> = Vec::new();
    let mut i = start;
    while i < end
        invariant
            start <= i <= end <= s.len(),
            r@ == s@.subrange(start as int, i as int),
        decreases end - i,
    {
        r.push(s[i]);
        i = i + 1;
        assert(r@ =~= s@.subrange(start as int, i as int));
    }
    r
}

/// Character-wise equality of `s[start..start + p.len()]` with `p`.
pub fn matches_at(s: &[char], start: usize, p: &[char]) -> (r: bool)
    ensures
        r == occurs_at(s@, p@, start as int),
{
    if p.len() > s.len() || start > s.len() - p.len() {
        return false;
    }
    let mut i: usize = 0;
    while i < p.len()
        invariant
            i <= p.len(),
            start + p.len() <= s.len(),
            s@.subrange(start as int, start + i) == p@.take(i as int),
        decreases p.len() - i,
    {
        if s[start + i] != p[i] {
            assert(s@.subrange(start as int, start + p.len())[i as int] != p@[i as int]);
            return false;
        }
        i = i + 1;
        assert(s@.subrange(start as int, start + i) =~= p@.take(i as int));
    }
    assert(p@.take(p.len() as int) =~= p@);
    true
}

pub fn chars_starts_with(s: &[char], p: &[char]) -> (r: bool)
    ensures
        r == starts_with(s@, p@),
{
    let r = matches_at(s, 0, p);
    proof {
        if p@.len() <= s@.len() {
            assert(s@.subrange(0, p@.len() as int) =~= s@.take(p@.len() as int));
        }
    }
    r
}

pub fn chars_ends_with(s: &[char], p: &[char]) -> (r: bool)
    ensures
        r == ends_with(s@, p@),
{
    if p.len() > s.len() {
        return false;
    }
    let r = matches_at(s, s.len() - p.len(), p);
    assert(s@.subrange(s.len() - p.len(), s.len() as int) =~= s@.skip(s.len() - p.len()));
    r
}

/// `str::contains` with a string pattern.
pub fn chars_contains(s: &[char], p: &[char]) -> (r: bool)
    ensures
        r == contains(s@, p@),
{
    if p.len() > s.len() {
        return false;
    }
    let last = s.len() - p.len();
    let mut i: usize = 0;
    loop
        invariant
            p.len() <= s.len(),
            last == s.len() - p.len(),
            i <= last,
            forall|j: int| 0 <= j < i ==> !occurs_at(s@, p@, j),
        ensures
            forall|j: int| 0 <= j <= last ==> !occurs_at(s@, p@, j),
        decreases last - i,
    {
        if matches_at(s, i, p) {
            return true;
        }
        if i == last {
            break;
        }
        i = i + 1;
    }
    assert forall|j: int| !occurs_at(s@, p@, j) by {
        if 0 <= j && j <= last {
        }
    }
    false
}

/// Membership of a character.
pub fn chars_has(s: &[char], c: char) -> (r: bool)
    ensures
        r == has_char(s@, c),
{
    let mut i: usize = 0;
    while i < s.len()
        invariant
            i <= s.len(),
            forall|j: int| 0 <= j < i ==> s@[j] != c,
        decreases s.len() - i,
    {
        if s[i] == c {
            return true;
        }
        i = i + 1;
    }
    false
}

/// `str::rfind` on a character.
pub fn rfind_char(s: &[char], c: char) -> (r: Option<usize>)
    ensures
        match r {
            Some(i) => i == last_index_of(s@, c) && i < s.len() && s@[i as int] == c,
            None => last_index_of(s@, c) == -1,
        },
{
    let mut i = s.len();
    assert(s@.take(i as int) =~= s@);
    while i > 0
        invariant
            i <= s.len(),
            last_index_of(s@, c) == last_index_of(s@.take(i as int), c),
        decreases i,
    {
        assert(s@.take(i as int).last() == s@[i - 1]);
        if s[i - 1] == c {
            return Some(i - 1);
        }
        assert(s@.take(i as int).drop_last() =~= s@.take(i - 1));
        i = i - 1;
    }
    None
}

/// Position of the first `c` at or after `from`, or `s.len()`.
pub fn find_from(s: &[char], from: usize, c: char) -> (r: usize)
    requires
        from <= s.len(),
    ensures
        r == from + index_of(s@.skip(from as int), c),
        from <= r <= s.len(),
{
    let mut i = from;
    while i < s.len() && s[i] != c
        invariant
            from <= i <= s.len(),
            forall|j: int| from <= j < i ==> s@[j] != c,
        decreases s.len() - i,
    {
        i = i + 1;
    }
    proof {
        let t = s@.skip(from as int);
        assert forall|j: int| 0 <= j < i - from implies t[j] != c by {
            assert(t[j] == s@[from + j]);
        }
        lemma_index_of_is(t, c, i - from);
    }
    i
}

/// Position of the first whitespace at or after `from`, or `s.len()`.
pub fn ws_from(s: &[char], from: usize) -> (r: usize)
    requires
        from <= s.len(),
    ensures
        r == from + ws_index(s@.skip(from as int)),
        from <= r <= s.len(),
{
    let mut i = from;
    while i < s.len() && !ws(s[i])
        invariant
            from <= i <= s.len(),
            forall|j: int| from <= j < i ==> !is_ws(#[trigger] s@[j]),
        decreases s.len() - i,
    {
        i = i + 1;
    }
    proof {
        let t = s@.skip(from as int);
        assert forall|j: int| 0 <= j < i - from implies !is_ws(#[trigger] t[j]) by {
            assert(t[j] == s@[from + j]);
        }
        lemma_ws_index_is(t, i - from);
    }
    i
}


pub open spec fn views(v: Seq<Vec<char>>) -> Seq<Seq<char>> {
    v.map_values(|x: Vec<char>| x@)
}

proof fn lemma_views_push(v: Seq<Vec<char>>, x: Vec<char>)
    ensures
        views(v.push(x)) == views(v).push(x@),
{
    assert(views(v.push(x)) =~= views(v).push(x@));
}

/// `str::split_whitespace` on characters.
pub fn split_words(s: &[char]) -> (r: Vec<Vec<char>>)
    ensures
        views(r@) == words(s@),
{
    let mut r: Vec<Vec<char>> = Vec::new();
    let mut pos: usize = 0;
    proof {
        assert(s@.skip(0) =~= s@);
        assert(views(r@) =~= Seq::<Seq<char>>::empty());
    }
    while pos < s.len()
        invariant
            pos <= s.len(),
            views(r@) + words(s@.skip(pos as int)) == words(s@),
        decreases s.len() - pos,
    {
        let ghost t = s@.skip(pos as int);
        if ws(s[pos]) {
            proof {
                assert(t[0] == s@[pos as int]);
                assert(t.drop_first() =~= s@.skip(pos + 1));
            }
            pos = pos + 1;
        } else {
            let e = ws_from(s, pos);
            proof {
                assert(t[0] == s@[pos as int]);
                lemma_ws_index_bounds(t);
            }
            let w = slice_of(s, pos, e);
            proof {
                let n = ws_index(t);
                assert(n >= 1) by {
                    assert(!is_ws(t[0]));
                }
                assert(t.take(n) =~= s@.subrange(pos as int, e as int));
                assert(t.skip(n) =~= s@.skip(e as int));
                lemma_views_push(r@, w);
                assert(words(t) == seq![t.take(n)] + words(t.skip(n)));
                assert(views(r@.push(w)) + words(s@.skip(e as int)) =~= views(r@) + words(t));
            }
            r.push(w);
            pos = e;
        }
    }
    proof {
        assert(s@.skip(pos as int) =~= Seq::<char>::empty());
        assert(views(r@) + Seq::<Seq<char>>::empty() =~= views(r@));
    }
    r
}

/// `str::lines` on characters.
pub fn split_lines(s: &[char]) -> (r: Vec<Vec<char>>)
    ensures
        views(r@) == lines(s@),
{
    let mut r: Vec<Vec<char>> = Vec::new();
    let mut pos: usize = 0;
    proof {
        assert(s@.skip(0) =~= s@);
        assert(views(r@) =~= Seq::<Seq<char>>::empty());
    }
    while pos < s.len()
        invariant
            pos <= s.len(),
            views(r@) + lines(s@.skip(pos as int)) == lines(s@),
        decreases s.len() - pos,
    {
        let ghost t = s@.skip(pos as int);
        let e = find_from(s, pos, '\n');
        proof {
            lemma_index_of_bounds(t, '\n');
        }
        if e == s.len() {
            let w = slice_of(s, pos, e);
            proof {
                assert(w@ =~= t);
                lemma_views_push(r@, w);
                assert(lines(t) == seq![t]);
                assert(s@.skip(e as int) =~= Seq::<char>::empty());
                assert(views(r@.push(w)) + lines(s@.skip(e as int)) =~= views(r@) + lines(t));
            }
            r.push(w);
            pos = e;
        } else {
            let mut end = e;
            if end > pos && s[end - 1] == '\r' {
                end = end - 1;
            }
            let w = slice_of(s, pos, end);
            proof {
                let n = index_of(t, '\n');
                assert(t.take(n) =~= s@.subrange(pos as int, e as int));
                assert(w@ =~= strip_cr(t.take(n)));
                assert(t.skip(n + 1) =~= s@.skip(e + 1));
                lemma_views_push(r@, w);
                assert(lines(t) == seq![strip_cr(t.take(n))] + lines(t.skip(n + 1)));
                assert(views(r@.push(w)) + lines(s@.skip(e + 1)) =~= views(r@) + lines(t));
            }
            r.push(w);
            pos = e + 1;
        }
    }
    proof {
        assert(s@.skip(pos as int) =~= Seq::<char>::empty());
        assert(views(r@) + Seq::<Seq<char>>::empty() =~= views(r@));
    }
    r
}

proof fn lemma_trim_start_is(s: Seq<char>, k: int)
    requires
        0 <= k <= s.len(),
        forall|j: int| 0 <= j < k ==> is_ws(#[trigger] s[j]),
        k < s.len() ==> !is_ws(s[k]),
    ensures
        trim_start(s) == s.skip(k),
    decreases s.len(),
{
    if k == 0 {
        assert(s.skip(0) =~= s);
    } else {
        assert forall|j: int| 0 <= j < k - 1 implies is_ws(#[trigger] s.drop_first()[j]) by {
            assert(s.drop_first()[j] == s[j + 1]);
        }
        lemma_trim_start_is(s.drop_first(), k - 1);
        assert(s.drop_first().skip(k - 1) =~= s.skip(k));
    }
}

proof fn lemma_trim_end_is(s: Seq<char>, m: int)
    requires
        0 <= m <= s.len(),
        forall|j: int| m <= j < s.len() ==> is_ws(#[trigger] s[j]),
        m > 0 ==> !is_ws(s[m - 1]),
    ensures
        trim_end(s) == s.take(m),
    decreases s.len(),
{
    if m == s.len() {
        assert(s.take(m) =~= s);
    } else {
        assert(is_ws(s.last()));
        assert forall|j: int| m <= j < s.drop_last().len() implies is_ws(
            #[trigger] s.drop_last()[j],
        ) by {
            assert(s.drop_last()[j] == s[j]);
        }
        lemma_trim_end_is(s.drop_last(), m);
        assert(s.drop_last().take(m) =~= s.take(m));
    }
}

/// The bounds of `str::trim` applied to `s[from..to]`.
pub fn trim_bounds(s: &[char], from: usize, to: usize) -> (r: (usize, usize))
    requires
        from <= to <= s.len(),
    ensures
        from <= r.0 <= r.1 <= to,
        s@.subrange(r.0 as int, r.1 as int) == trim(s@.subrange(from as int, to as int)),
{
    let ghost u = s@.subrange(from as int, to as int);
    let mut a = from;
    while a < to && ws(s[a])
        invariant
            from <= a <= to <= s.len(),
            forall|j: int| from <= j < a ==> is_ws(#[trigger] s@[j]),
        decreases to - a,
    {
        a = a + 1;
    }
    let mut b = to;
    while b > a && ws(s[b - 1])
        invariant
            from <= a <= b <= to <= s.len(),
            forall|j: int| b <= j < to ==> is_ws(#[trigger] s@[j]),
        decreases b - a,
    {
        b = b - 1;
    }
    proof {
        assert forall|j: int| 0 <= j < a - from implies is_ws(#[trigger] u[j]) by {
            assert(u[j] == s@[from + j]);
        }
        if a < to {
            assert(u[a - from] == s@[a as int]);
        }
        lemma_trim_start_is(u, a - from);
        let v = u.skip(a - from);
        assert(v =~= s@.subrange(a as int, to as int));
        assert forall|j: int| b - a <= j < v.len() implies is_ws(#[trigger] v[j]) by {
            assert(v[j] == s@[a + j]);
        }
        if b > a {
            assert(v[b - a - 1] == s@[b - 1]);
        }
        lemma_trim_end_is(v, b - a);
        assert(v.take(b - a) =~= s@.subrange(a as int, b as int));
    }
    (a, b)
}

proof fn lemma_digits_value_step(d: Seq<char>, i: int)
    requires
        0 <= i < d.len(),
    ensures
        digits_value(d.take(i + 1)) == digits_value(d.take(i)) * 10 + digit_value(d[i]),
{
    assert(d.take(i + 1).drop_last() =~= d.take(i));
}

proof fn lemma_digits_value_mono(d: Seq<char>, k: int)
    requires
        0 <= k <= d.len(),
        all_digits(d),
    ensures
        digits_value(d) >= digits_value(d.take(k)),
    decreases d.len() - k,
{
    if k < d.len() {
        assert(all_digits(d.take(k + 1))) by {
            assert forall|i: int| 0 <= i < d.take(k + 1).len() implies is_digit(
                #[trigger] d.take(k + 1)[i],
            ) by {
                assert(d.take(k + 1)[i] == d[i]);
            }
        }
        assert(all_digits(d.take(k))) by {
            assert forall|i: int| 0 <= i < d.take(k).len() implies is_digit(
                #[trigger] d.take(k)[i],
            ) by {
                assert(d.take(k)[i] == d[i]);
            }
        }
        lemma_digits_value_nonneg(d.take(k));
        lemma_digits_value_step(d, k);
        assert(is_digit(d[k]));
        lemma_digits_value_mono(d, k + 1);
    } else {
        assert(d.take(k) =~= d);
    }
}

/// Reads the decimal digits `s[start..]` into a number, failing on a non-digit,
/// on an empty run, or on a value above `limit`.
fn digits_upto(s: &[char], start: usize, limit: u64) -> (r: Option<u64>)
    requires
        start <= s.len(),
        limit >= 9,
    ensures
        ({
            let d = s@.skip(start as int);
            match r {
                Some(v) => d.len() > 0 && all_digits(d) && digits_value(d) <= limit && v
                    == digits_value(d),
                None => d.len() == 0 || !all_digits(d) || digits_value(d) > limit,
            }
        }),
{
    let ghost d = s@.skip(start as int);
    if start == s.len() {
        return None;
    }
    let mut acc: u64 = 0;
    let mut i = start;
    proof {
        assert(d.take(0) =~= Seq::<char>::empty());
    }
    while i < s.len()
        invariant
            start <= i <= s.len(),
            d == s@.skip(start as int),
            all_digits(d.take(i - start)),
            acc as int == digits_value(d.take(i - start)),
            acc <= limit,
            limit >= 9,
        decreases s.len() - i,
    {
        let c = s[i];
        assert(d[i - start] == c);
        if !digit(c) {
            return None;
        }
        assert('0' as u32 <= c as u32 <= '9' as u32);
        let dv: u64 = (c as u32 - '0' as u32) as u64;
        assert(dv <= 9);
        assert(dv == digit_value(c));
        proof {
            lemma_digits_value_step(d, i - start);
            assert(all_digits(d.take(i - start + 1))) by {
                assert forall|j: int| 0 <= j < d.take(i - start + 1).len() implies is_digit(
                    #[trigger] d.take(i - start + 1)[j],
                ) by {
                    if j < i - start {
                        assert(d.take(i - start + 1)[j] == d.take(i - start)[j]);
                    }
                }
            }
        }
        if acc > (limit - dv) / 10 {
            proof {
                assert(acc * 10 + dv > limit) by (nonlinear_arith)
                    requires
                        acc > (limit - dv) / 10,
                        dv <= 9,
                        dv <= limit,
                ;
                let k = i - start + 1;
                if all_digits(d) {
                    lemma_digits_value_mono(d, k);
                }
            }
            return None;
        }
        proof {
            assert(acc * 10 + dv <= limit) by (nonlinear_arith)
                requires
                    acc <= (limit - dv) / 10,
                    dv <= 9,
                    dv <= limit,
            ;
        }
        acc = acc * 10 + dv;
        i = i + 1;
    }
    proof {
        assert(d.take(i - start) =~= d);
    }
    Some(acc)
}

/// `u64::from_str` on characters.
pub fn parse_u64_chars(s: &[char]) -> (r: Option<u64>)
    ensures
        r == parse_u64(s@),
{
    let start: usize = if s.len() > 0 && s[0] == '+' {
        1
    } else {
        0
    };
    proof {
        if start == 1 {
            assert(s@.skip(1) =~= s@.drop_first());
        } else {
            assert(s@.skip(0) =~= s@);
        }
    }
    digits_upto(s, start, u64::MAX)
}

/// `u32::from_str` on characters.
pub fn parse_u32_chars(s: &[char]) -> (r: Option<u32>)
    ensures
        r == parse_u32(s@),
{
    match parse_u64_chars(s) {
        Some(v) => if v <= u32::MAX as u64 {
            Some(v as u32)
        } else {
            None
        },
        None => None,
    }
}

/// `i64::from_str` on characters.
pub fn parse_i64_chars(s: &[char]) -> (r: Option<i64>)
    ensures
        r == parse_i64(s@),
{
    let negative = s.len() > 0 && s[0] == '-';
    let start: usize = if s.len() > 0 && (s[0] == '+' || s[0] == '-') {
        1
    } else {
        0
    };
    proof {
        if start == 1 {
            assert(s@.skip(1) =~= s@.drop_first());
        } else {
            assert(s@.skip(0) =~= s@);
        }
    }
    if negative {
        match digits_upto(s, start, 0x8000_0000_0000_0000u64) {
            Some(v) => {
                if v == 0x8000_0000_0000_0000u64 {
                    Some(i64::MIN)
                } else {
                    Some(0 - (v as i64))
                }
            },
            None => None,
        }
    } else {
        match digits_upto(s, start, i64::MAX as u64) {
            Some(v) => Some(v as i64),
            None => None,
        }
    }
}

/// Character-wise equality of two slices.
pub fn chars_eq(a: &[char], b: &[char]) -> (r: bool)
    ensures
        r == (a@ == b@),
{
    if a.len() != b.len() {
        return false;
    }
    let mut i: usize = 0;
    while i < a.len()
        invariant
            i <= a.len() == b.len(),
            a@.take(i as int) == b@.take(i as int),
        decreases a.len() - i,
    {
        if a[i] != b[i] {
            return false;
        }
        i = i + 1;
        assert(a@.take(i as int) =~= a@.take(i - 1).push(a@[i - 1]));
        assert(b@.take(i as int) =~= b@.take(i - 1).push(b@[i - 1]));
    }
    assert(a@.take(a.len() as int) =~= a@);
    assert(b@.take(b.len() as int) =~= b@);
    true
}

/// `==` on string slices.
pub fn str_eq(a: &str, b: &str) -> (r: bool)
    ensures
        r == (a@ == b@),
{
    let x = chars_of(a);
    let y = chars_of(b);
    chars_eq(x.as_slice(), y.as_slice())
}

/// A fresh `String` holding the text of `s`.
pub fn owned(s: &str) -> (r: String)
    ensures
        r@ == s@,
{
    s.to_owned()
}

/// `s` followed by `t`.
pub fn concat(s: &str, t: &str) -> (r: String)
    ensures
        r@ == s@ + t@,
{
    let mut r = s.to_owned();
    r.append(t);
    r
}

proof fn lemma_utf8_len_push(s: Seq<char>, c: char)
    ensures
        utf8_len(s.push(c)) == utf8_len(s) + char_utf8_len(c),
    decreases s.len(),
{
    if s.len() > 0 {
        lemma_utf8_len_push(s.drop_first(), c);
        assert(s.push(c).drop_first() =~= s.drop_first().push(c));
        assert(s.push(c)[0] == s[0]);
        assert(encode_utf8(s.push(c)) == encode_scalar(s[0] as u32) + encode_utf8(
            s.drop_first().push(c),
        ));
        assert(encode_utf8(s) == encode_scalar(s[0] as u32) + encode_utf8(s.drop_first()));
    } else {
        assert(s.push(c).drop_first() =~= Seq::<char>::empty());
        assert(s.push(c)[0] == c);
        assert(encode_utf8(Seq::<char>::empty()).len() == 0);
        assert(encode_utf8(s.push(c)) == encode_scalar(c as u32) + encode_utf8(
            Seq::<char>::empty(),
        ));
    }
}

/// The encoding of a concatenation is the concatenation of the encodings.
pub proof fn lemma_utf8_len_concat(a: Seq<char>, b: Seq<char>)
    ensures
        utf8_len(a + b) == utf8_len(a) + utf8_len(b),
    decreases b.len(),
{
    if b.len() == 0 {
        assert(a + b =~= a);
    } else {
        lemma_utf8_len_concat(a, b.drop_last());
        assert(a + b =~= (a + b.drop_last()).push(b.last()));
        lemma_utf8_len_push(a + b.drop_last(), b.last());
        assert(b =~= b.drop_last().push(b.last()));
        lemma_utf8_len_push(b.drop_last(), b.last());
    }
}

/// Alphanumeric ASCII text takes one byte per character.
pub proof fn lemma_alnum_utf8_len(s: Seq<char>)
    requires
        all_alnum(s),
    ensures
        utf8_len(s) == s.len(),
{
    assert(is_ascii_chars(s)) by {
        assert forall|i| 0 <= i < s.len() implies '\0' <= #[trigger] s[i] <= '\u{7f}' by {
            assert(is_alnum(s[i]));
        }
    }
    is_ascii_chars_encode_utf8(s);
}

/// The UTF-8 width of one character.
pub fn char_width(c: char) -> (r: usize)
    ensures
        r == char_utf8_len(c),
        1 <= r <= 4,
{
    let v = c as u32;
    if v <= 0x7F {
        1
    } else if v <= 0x7FF {
        2
    } else if v <= 0xFFFF {
        assert(!(0xD800 <= v <= 0xDFFF)) by {
            vstd::utf8::char_is_scalar(c);
        }
        3
    } else {
        4
    }
}

/// The byte length of the encoding of `s`, saturating at `usize::MAX`.
pub fn utf8_len_sat(s: &[char]) -> (r: usize)
    ensures
        r == (if utf8_len(s@) > usize::MAX { usize::MAX as nat } else { utf8_len(s@) }),
{
    let mut acc: usize = 0;
    let mut i: usize = 0;
    assert(s@.take(0) =~= Seq::<char>::empty());
    while i < s.len()
        invariant
            i <= s.len(),
            acc == (if utf8_len(s@.take(i as int)) > usize::MAX { usize::MAX as nat } else {
                utf8_len(s@.take(i as int))
            }),
        decreases s.len() - i,
    {
        let w = char_width(s[i]);
        proof {
            assert(s@.take(i + 1) =~= s@.take(i as int).push(s@[i as int]));
            lemma_utf8_len_push(s@.take(i as int), s@[i as int]);
        }
        acc = acc.saturating_add(w);
        i = i + 1;
    }
    assert(s@.take(s.len() as int) =~= s@);
    acc
}

/// The byte length of the encoding of `s`, when it fits in a `usize`.
pub fn utf8_len_exact(s: &[char]) -> (r: Option<usize>)
    ensures
        r == (if utf8_len(s@) > usize::MAX { None } else { Some(utf8_len(s@) as usize) }),
{
    let mut acc: usize = 0;
    let mut i: usize = 0;
    assert(s@.take(0) =~= Seq::<char>::empty());
    while i < s.len()
        invariant
            i <= s.len(),
            acc == utf8_len(s@.take(i as int)),
        decreases s.len() - i,
    {
        let w = char_width(s[i]);
        proof {
            assert(s@.take(i + 1) =~= s@.take(i as int).push(s@[i as int]));
            lemma_utf8_len_push(s@.take(i as int), s@[i as int]);
        }
        if acc > usize::MAX - w {
            proof {
                lemma_utf8_len_concat(s@.take(i + 1), s@.skip(i + 1));
                assert(s@.take(i + 1) + s@.skip(i + 1) =~= s@);
            }
            return None;
        }
        acc = acc + w;
        i = i + 1;
    }
    assert(s@.take(s.len() as int) =~= s@);
    Some(acc)
}

/// The characters that make up the first `n` bytes of the encoding of `s`,
/// or `None` when byte `n` does not fall between two characters.
pub fn utf8_prefix_checked(s: &[char], n: usize) -> (r: Option<Vec<char>>)
    ensures
        match r {
            Some(p) => utf8_prefix(s@, n as int) == Some(p@),
            None => utf8_prefix(s@, n as int) is None,
        },
{
    let mut i: usize = 0;
    let mut left: usize = n;
    assert(s@.skip(0) =~= s@);
    assert(s@.take(0) =~= Seq::<char>::empty());
    while left > 0
        invariant
            i <= s.len(),
            left <= n,
            utf8_prefix(s@, n as int) == (match utf8_prefix(s@.skip(i as int), left as int) {
                Some(p) => Some(s@.take(i as int) + p),
                None => None,
            }),
        decreases left,
    {
        let ghost t = s@.skip(i as int);
        if i == s.len() {
            return None;
        }
        assert(t[0] == s@[i as int]);
        let w = char_width(s[i]);
        if left < w {
            return None;
        }
        assert(t.drop_first() =~= s@.skip(i + 1));
        proof {
            match utf8_prefix(s@.skip(i + 1), left - w) {
                Some(p) => {
                    assert(utf8_prefix(t, left as int) == Some(seq![t[0]] + p));
                    assert(s@.take(i as int) + (seq![t[0]] + p) =~= s@.take(i + 1) + p);
                },
                None => {},
            }
        }
        left = left - w;
        i = i + 1;
    }
    proof {
        assert(utf8_prefix(s@.skip(i as int), 0) == Some(Seq::<char>::empty()));
        assert(s@.take(i as int) + Seq::<char>::empty() =~= s@.take(i as int));
    }
    Some(slice_of(s, 0, i))
}


/// Appends the characters of `s` to `v`.
pub fn push_chars(v: &mut Vec<char>, s: &[char])
    ensures
        final(v)@ == old(v)@ + s@,
{
    let mut i: usize = 0;
    while i < s.len()
        invariant
            i <= s.len(),
            v@ == old(v)@ + s@.take(i as int),
        decreases s.len() - i,
    {
        v.push(s[i]);
        i = i + 1;
        assert(v@ =~= old(v)@ + s@.take(i as int));
    }
    assert(s@.take(s.len() as int) =~= s@);
}

/// `str::replace`: every non-overlapping occurrence of `p`, from the left,
/// replaced by `t`.
pub open spec fn replace_all(s: Seq<char>, p: Seq<char>, t: Seq<char>) -> Seq<char>
    recommends
        p.len() > 0,
    decreases s.len(),
{
    if s.len() == 0 || p.len() == 0 {
        s
    } else if starts_with(s, p) {
        t + replace_all(s.skip(p.len() as int), p, t)
    } else {
        seq![s[0]] + replace_all(s.drop_first(), p, t)
    }
}

/// `str::replace` on characters, for a non-empty pattern.
pub fn replace_chars(s: &[char], p: &[char], t: &[char]) -> (r: Vec<char>)
    requires
        p.len() > 0,
    ensures
        r@ == replace_all(s@, p@, t@),
{
    let mut r: Vec<char> = Vec::new();
    let mut i: usize = 0;
    assert(s@.skip(0) =~= s@);
    while i < s.len()
        invariant
            i <= s.len(),
            p.len() > 0,
            r@ + replace_all(s@.skip(i as int), p@, t@) == replace_all(s@, p@, t@),
        decreases s.len() - i,
    {
        let ghost u = s@.skip(i as int);
        if matches_at(s, i, p) {
            proof {
                assert(u.take(p.len() as int) =~= s@.subrange(i as int, i + p.len()));
                assert(u.skip(p.len() as int) =~= s@.skip(i + p.len()));
            }
            let ghost r0 = r@;
            push_chars(&mut r, t);
            assert(r@ + replace_all(s@.skip(i + p.len()), p@, t@) =~= r0 + (t@ + replace_all(
                u.skip(p.len() as int),
                p@,
                t@,
            )));
            i = i + p.len();
        } else {
            proof {
                if starts_with(u, p@) {
                    assert(u.take(p.len() as int) =~= s@.subrange(i as int, i + p.len()));
                }
                assert(u[0] == s@[i as int]);
                assert(u.drop_first() =~= s@.skip(i + 1));
            }
            let ghost r0 = r@;
            r.push(s[i]);
            assert(r@ + replace_all(s@.skip(i + 1), p@, t@) =~= r0 + (seq![u[0]] + replace_all(
                u.drop_first(),
                p@,
                t@,
            )));
            i = i + 1;
        }
    }
    assert(r@ + replace_all(s@.skip(i as int), p@, t@) =~= r@);
    r
}

/// `[str]::join`.
pub open spec fn join(ws: Seq<Seq<char>>, sep: Seq<char>) -> Seq<char>
    decreases ws.len(),
{
    if ws.len() == 0 {
        Seq::empty()
    } else if ws.len() == 1 {
        ws[0]
    } else {
        join(ws.drop_last(), sep) + sep + ws.last()
    }
}

/// The items of `ws` from index `from` on, joined by `sep`.
pub fn join_from(ws: &Vec<Vec<char>>, from: usize, sep: &[char]) -> (r: Vec<char>)
    requires
        from <= ws.len(),
    ensures
        r@ == join(views(ws@).skip(from as int), sep@),
{
    let ghost all = views(ws@);
    let mut r: Vec<char> = Vec::new();
    let mut i = from;
    assert(all.skip(from as int).take(0) =~= Seq::<Seq<char>>::empty());
    while i < ws.len()
        invariant
            from <= i <= ws.len(),
            all == views(ws@),
            r@ == join(all.skip(from as int).take(i - from), sep@),
        decreases ws.len() - i,
    {
        let ghost pre = all.skip(from as int).take(i - from);
        let ghost nxt = all.skip(from as int).take(i - from + 1);
        assert(nxt.drop_last() =~= pre);
        assert(nxt.last() == ws@[i as int]@);
        if i > from {
            push_chars(&mut r, sep);
        }
        push_chars(&mut r, ws[i].as_slice());
        proof {
            if i == from {
                assert(nxt.len() == 1);
                assert(r@ =~= nxt[0]);
            }
        }
        i = i + 1;
    }
    assert(all.skip(from as int).take(ws.len() - from) =~= all.skip(from as int));
    r
}


/// The decimal digits of `n`, as `Display` writes an unsigned integer.
pub open spec fn decimal(n: nat) -> Seq<char>
    decreases n,
{
    if n < 10 {
        seq![digit_char(n)]
    } else {
        decimal(n / 10).push(digit_char(n % 10))
    }
}

pub open spec fn digit_char(d: nat) -> char {
    ((d + 48) as u32) as char
}

/// `u64::to_string`.
pub fn u64_to_text(n: u64) -> (r: String)
    ensures
        r@ == decimal(n as nat),
{
    let mut digits: Vec<char> = Vec::new();
    let mut m = n;
    let ghost mut tail: Seq<char> = Seq::empty();
    loop
        invariant_except_break
            decimal(n as nat) == decimal(m as nat) + digits@.reverse(),
        ensures
            decimal(n as nat) == digits@.reverse(),
        decreases m,
    {
        let d = (m % 10) as u32;
        let c = char_from_digit(d);
        if m < 10 {
            assert(decimal(m as nat) == seq![digit_char(m as nat)]);
            let ghost before = digits@;
            digits.push(c);
            proof {
                assert(digits@.reverse() =~= seq![c] + before.reverse());
            }
            break;
        }
        assert(decimal(m as nat) == decimal((m / 10) as nat).push(digit_char((m % 10) as nat)));
        let ghost before = digits@;
        digits.push(c);
        proof {
            assert(digits@.reverse() =~= seq![c] + before.reverse());
            assert(decimal((m / 10) as nat).push(c) + before.reverse() =~= decimal((m / 10) as nat) + (
            seq![c] + before.reverse()));
        }
        m = m / 10;
    }
    let mut out: Vec<char> = Vec::new();
    let mut i = digits.len();
    while i > 0
        invariant
            i <= digits.len(),
            out@ == digits@.subrange(i as int, digits.len() as int).reverse(),
        decreases i,
    {
        out.push(digits[i - 1]);
        i = i - 1;
        assert(out@ =~= digits@.subrange(i as int, digits.len() as int).reverse());
    }
    assert(digits@.subrange(0, digits.len() as int) =~= digits@);
    string_of(out.as_slice())
}

fn char_from_digit(d: u32) -> (c: char)
    requires
        d < 10,
    ensures
        c == digit_char(d as nat),
{
    let v: u32 = d + 48;
    assert(v < 0xD800);
    char_of(v)
}

} // verus!
