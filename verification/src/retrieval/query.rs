//! The query side of the index: the safe full-text query form, snippet and
//! result bounds.
use super::error::RetrievalError;
use super::model::{
    Citation, QueryRequest, RouterContextDocument, RouterContextResponse, SourceKind,
    AUTHORITY_BOUNDARY, COMMON_PROTOCOL_ID, ROUTER_CONTEXT_ID,
};
use crate::text::{
    all_digits, chars_of, concat, digit, lower, lower_seq, push_chars, replace_all, replace_chars, str_eq, string_of,
    to_lower, trim, trim_bounds, slice_of,
};
use vstd::prelude::*;

verus! {

/// `char::is_alphanumeric`: the Unicode `Alphabetic` or `Numeric` property.
pub uninterp spec fn unicode_alphanumeric(c: char) -> bool;

/// `char::is_alphanumeric`; the contract names the result. Among ASCII
/// characters exactly the letters and digits are alphabetic or numeric.
#[verifier::external_body]
fn is_alphanumeric(c: char) -> (r: bool)
    ensures
        r == unicode_alphanumeric(c),
        (c as u32) < 128 ==> r == crate::text::is_alnum(c),
{
    c.is_alphanumeric()
}

/// The snippet length in tokens for a content bound in characters: the
/// bound is clamped to 64..2000 and an eighth of it taken, at least 12.
pub open spec fn snippet_tokens(max_chars: usize) -> usize {
    let c = if max_chars < 64 {
        64
    } else if max_chars > 2000 {
        2000
    } else {
        max_chars
    };
    if c / 8 < 12 {
        12
    } else {
        (c / 8) as usize
    }
}

pub fn snippet_tokens_for_chars(max_chars: usize) -> (r: usize)
    ensures
        r == snippet_tokens(max_chars),
{
    let chars = if max_chars < 64 {
        64
    } else if max_chars > 2000 {
        2000
    } else {
        max_chars
    };
    let t = chars / 8;
    if t < 12 {
        12
    } else {
        t
    }
}

/// The number of results a query asks for, clamped to 1..64.
pub fn result_limit(requested: usize) -> (r: usize)
    ensures
        r == (if requested < 1 {
            1
        } else if requested > 64 {
            64
        } else {
            requested
        }),
{
    if requested < 1 {
        1
    } else if requested > 64 {
        64
    } else {
        requested
    }
}

/// A character that a search token keeps.
pub open spec fn token_char(c: char) -> bool {
    unicode_alphanumeric(c) || c == '_' || c == '-' || c == '.'
}

/// The runs of token characters in `s`, lowercased (ASCII), in order.
pub open spec fn raw_tokens(s: Seq<char>) -> Seq<Seq<char>> {
    raw_tokens_from(s, Seq::empty())
}

/// Tokenizes `s` after a partial token `cur`.
pub open spec fn raw_tokens_from(s: Seq<char>, cur: Seq<char>) -> Seq<Seq<char>>
    decreases s.len(),
{
    if s.len() == 0 {
        if cur.len() > 0 {
            seq![cur]
        } else {
            Seq::empty()
        }
    } else if token_char(s[0]) {
        raw_tokens_from(s.drop_first(), cur.push(lower(s[0])))
    } else if cur.len() > 0 {
        seq![cur] + raw_tokens_from(s.drop_first(), Seq::empty())
    } else {
        raw_tokens_from(s.drop_first(), Seq::empty())
    }
}

/// A token that the query keeps: not an FTS operator and not all digits.
pub open spec fn kept_token(t: Seq<char>) -> bool {
    t.len() > 0 && t != "and"@ && t != "or"@ && t != "not"@ && t != "near"@ && !all_digits(t)
}

/// The kept tokens, each quoted with inner quotes doubled, joined by ` AND `.
pub open spec fn quoted_join(ts: Seq<Seq<char>>) -> Seq<char>
    decreases ts.len(),
{
    if ts.len() == 0 {
        Seq::empty()
    } else if ts.len() == 1 {
        quote(ts[0])
    } else {
        quoted_join(ts.drop_last()) + " AND "@ + quote(ts.last())
    }
}

pub open spec fn quote(t: Seq<char>) -> Seq<char> {
    seq!['"'] + replace_all(t, seq!['"'], seq!['"', '"']) + seq!['"']
}

/// The safe FTS form of a query, or `None` when no token is left.
pub open spec fn safe_fts_query(input: Seq<char>) -> Option<Seq<char>> {
    let kept = raw_tokens(input).filter(|t: Seq<char>| kept_token(t));
    if kept.len() == 0 {
        None
    } else {
        Some(quoted_join(kept))
    }
}

/// Every character of `w` is a token character.
pub open spec fn all_token_chars(w: Seq<char>) -> bool {
    forall|i: int| 0 <= i < w.len() ==> token_char(#[trigger] w[i])
}

proof fn lemma_word_tokens_from(w: Seq<char>, cur: Seq<char>)
    requires
        all_token_chars(w),
        cur.len() + w.len() > 0,
    ensures
        raw_tokens_from(w, cur) == seq![cur + lower_seq(w)],
    decreases w.len(),
{
    if w.len() == 0 {
        assert(cur + lower_seq(w) =~= cur);
    } else {
        assert(token_char(w[0]));
        assert(all_token_chars(w.drop_first())) by {
            assert forall|i: int| 0 <= i < w.drop_first().len() implies token_char(
                #[trigger] w.drop_first()[i],
            ) by {
                assert(w.drop_first()[i] == w[i + 1]);
            }
        }
        lemma_word_tokens_from(w.drop_first(), cur.push(lower(w[0])));
        assert(cur.push(lower(w[0])) + lower_seq(w.drop_first()) =~= cur + lower_seq(w));
    }
}

proof fn lemma_tokens_split_from(a: Seq<char>, sep: char, b: Seq<char>, cur: Seq<char>)
    requires
        !token_char(sep),
    ensures
        raw_tokens_from(a + seq![sep] + b, cur) == raw_tokens_from(a, cur) + raw_tokens_from(
            b,
            Seq::empty(),
        ),
    decreases a.len(),
{
    let s = a + seq![sep] + b;
    if a.len() == 0 {
        assert(s =~= seq![sep] + b);
        assert(s[0] == sep);
        assert(s.drop_first() =~= b);
        if cur.len() > 0 {
            assert(raw_tokens_from(a, cur) == seq![cur]);
        } else {
            assert(raw_tokens_from(a, cur) == Seq::<Seq<char>>::empty());
            assert(Seq::<Seq<char>>::empty() + raw_tokens_from(b, Seq::empty()) =~= raw_tokens_from(
                b,
                Seq::empty(),
            ));
        }
    } else {
        assert(s[0] == a[0]);
        assert(s.drop_first() =~= a.drop_first() + seq![sep] + b);
        if token_char(a[0]) {
            lemma_tokens_split_from(a.drop_first(), sep, b, cur.push(lower(a[0])));
        } else {
            lemma_tokens_split_from(a.drop_first(), sep, b, Seq::empty());
            if cur.len() > 0 {
                assert(seq![cur] + (raw_tokens_from(a.drop_first(), Seq::empty()) + raw_tokens_from(
                    b,
                    Seq::empty(),
                )) =~= (seq![cur] + raw_tokens_from(a.drop_first(), Seq::empty())) + raw_tokens_from(
                    b,
                    Seq::empty(),
                ));
            }
        }
    }
}

/// How free text splits into search tokens: a word of token characters is
/// one token, lowercased; a separator splits the text into the tokens
/// before it and the tokens after it, in order.
pub proof fn lemma_tokens_of_words(a: Seq<char>, sep: char, b: Seq<char>, w: Seq<char>)
    requires
        !token_char(sep),
    ensures
        raw_tokens(a + seq![sep] + b) == raw_tokens(a) + raw_tokens(b),
        all_token_chars(w) && w.len() > 0 ==> raw_tokens(w) == seq![lower_seq(w)],
{
    lemma_tokens_split_from(a, sep, b, Seq::empty());
    if all_token_chars(w) && w.len() > 0 {
        lemma_word_tokens_from(w, Seq::empty());
        assert(Seq::<char>::empty() + lower_seq(w) =~= lower_seq(w));
    }
}

/// Every searchable word reaches the query: a one-word text `w` gives the
/// query of exactly that word, quoted and lowercased, and a text that ends
/// in a searchable word after a separator gives a query that ends with it.
pub proof fn lemma_last_word_is_searched(a: Seq<char>, sep: char, w: Seq<char>)
    requires
        !token_char(sep),
        all_token_chars(w),
        w.len() > 0,
        kept_token(lower_seq(w)),
    ensures
        safe_fts_query(w) == Some(quote(lower_seq(w))),
        safe_fts_query(a + seq![sep] + w) matches Some(q) && q.len() >= quote(lower_seq(w)).len()
            && q.subrange(q.len() - quote(lower_seq(w)).len(), q.len() as int) == quote(
            lower_seq(w),
        ),
{
    let lw = lower_seq(w);
    let f = |t: Seq<char>| kept_token(t);
    lemma_tokens_of_words(a, sep, w, w);
    reveal(Seq::filter);
    assert(seq![lw].filter(f) =~= seq![lw]) by {
        assert(seq![lw].drop_last() =~= Seq::<Seq<char>>::empty());
        assert(Seq::<Seq<char>>::empty().filter(f) =~= Seq::<Seq<char>>::empty());
    }
    Seq::filter_distributes_over_add(raw_tokens(a), seq![lw], f);
    let before = raw_tokens(a).filter(f);
    let kept = before + seq![lw];
    assert(raw_tokens(a + seq![sep] + w).filter(f) == kept);
    assert(kept.last() == lw);
    assert(kept.drop_last() =~= before);
    let q = quoted_join(kept);
    if kept.len() == 1 {
        assert(q == quote(lw));
        assert(q.subrange(0, q.len() as int) =~= q);
    } else {
        assert(q == quoted_join(before) + " AND "@ + quote(lw));
        assert(q.subrange(q.len() - quote(lw).len(), q.len() as int) =~= quote(lw));
    }
}

fn is_kept(t: &[char]) -> (r: bool)
    ensures
        r == kept_token(t@),
{
    if t.len() == 0 {
        return false;
    }
    let s = string_of(t);
    if str_eq(s.as_str(), "and") || str_eq(s.as_str(), "or") || str_eq(s.as_str(), "not") || str_eq(
        s.as_str(),
        "near",
    ) {
        return false;
    }
    let mut i: usize = 0;
    while i < t.len()
        invariant
            i <= t.len(),
            t@.len() > 0 && t@ != "and"@ && t@ != "or"@ && t@ != "not"@ && t@ != "near"@,
            forall|j: int| 0 <= j < i ==> crate::text::is_digit(#[trigger] t@[j]),
        decreases t.len() - i,
    {
        if !digit(t[i]) {
            assert(!crate::text::is_digit(t@[i as int]));
            return true;
        }
        i = i + 1;
    }
    false
}

fn raw_tokens_exec(input: &str) -> (tokens: Vec<Vec<char>>)
    ensures
        tokens@.map_values(|t: Vec<char>| t@) == raw_tokens(input@),
{
    let s = chars_of(input);
    let mut tokens: Vec<Vec<char>> = Vec::new();
    let mut current: Vec<char> = Vec::new();
    let mut i: usize = 0;
    assert(s@.skip(0) =~= s@);
    assert(tokens@.map_values(|t: Vec<char>| t@) =~= Seq::<Seq<char>>::empty());
    while i < s.len()
        invariant
            i <= s.len(),
            s@ == input@,
            tokens@.map_values(|t: Vec<char>| t@) + raw_tokens_from(s@.skip(i as int), current@)
                == raw_tokens(input@),
        decreases s.len() - i,
    {
        let c = s[i];
        let ghost rest = s@.skip(i as int);
        assert(rest[0] == c);
        assert(rest.drop_first() =~= s@.skip(i + 1));
        let ghost before = tokens@.map_values(|t: Vec<char>| t@);
        if is_alphanumeric(c) || c == '_' || c == '-' || c == '.' {
            assert(token_char(c));
            let ghost cur = current@;
            current.push(to_lower(c));
            assert(raw_tokens_from(rest, cur) == raw_tokens_from(rest.drop_first(), cur.push(lower(c))));
        } else if current.len() > 0 {
            assert(!token_char(c));
            let ghost cur = current@;
            assert(raw_tokens_from(rest, cur) == seq![cur] + raw_tokens_from(rest.drop_first(), Seq::empty()));
            let mut done: Vec<char> = Vec::new();
            std::mem::swap(&mut done, &mut current);
            tokens.push(done);
            assert(tokens@.map_values(|t: Vec<char>| t@) =~= before.push(cur));
            assert(before.push(cur) + raw_tokens_from(s@.skip(i + 1), Seq::empty()) =~= before + (
            seq![cur] + raw_tokens_from(s@.skip(i + 1), Seq::empty())));
        } else {
            assert(!token_char(c));
            assert(current@.len() == 0);
            assert(current@ =~= Seq::<char>::empty());
        }
        i = i + 1;
    }
    let ghost before = tokens@.map_values(|t: Vec<char>| t@);
    if current.len() > 0 {
        let ghost cur = current@;
        tokens.push(current);
        assert(tokens@.map_values(|t: Vec<char>| t@) =~= before.push(cur));
    } else {
        assert(before + Seq::<Seq<char>>::empty() =~= before);
    }
    assert(s@.skip(i as int) =~= Seq::<char>::empty());
    tokens
}

/// Turns free text into a full-text query that matches every word token and
/// cannot use the query language's operators.
pub fn to_safe_fts_query(input: &str) -> (r: Result<String, RetrievalError>)
    ensures
        match safe_fts_query(input@) {
            Some(q) => r matches Ok(s) && s@ == q,
            None => r matches Err(RetrievalError::EmptyQuery),
        },
{
    let tokens = raw_tokens_exec(input);
    let ghost all = tokens@.map_values(|t: Vec<char>| t@);
    let mut safe: Vec<char> = Vec::new();
    let mut count: usize = 0;
    let mut k: usize = 0;
    proof {
        reveal(Seq::filter);
        assert(all.take(0).filter(|t: Seq<char>| kept_token(t)) =~= Seq::<Seq<char>>::empty());
    }
    while k < tokens.len()
        invariant
            k <= tokens.len(),
            all == tokens@.map_values(|t: Vec<char>| t@),
            count == all.take(k as int).filter(|t: Seq<char>| kept_token(t)).len(),
            count <= k,
            safe@ == quoted_join(all.take(k as int).filter(|t: Seq<char>| kept_token(t))),
        decreases tokens.len() - k,
    {
        let t = tokens[k].as_slice();
        assert(all[k as int] == t@);
        let ghost kept_before = all.take(k as int).filter(|t: Seq<char>| kept_token(t));
        proof {
            reveal(Seq::filter);
            assert(all.take(k + 1).drop_last() =~= all.take(k as int));
            assert(all.take(k + 1).last() == t@);
        }
        if is_kept(t) {
            if count > 0 {
                push_chars(&mut safe, chars_of(" AND ").as_slice());
            }
            safe.push('"');
            proof {
                reveal_strlit("\"");
                reveal_strlit("\"\"");
            }
            let escaped = replace_chars(t, chars_of("\"").as_slice(), chars_of("\"\"").as_slice());
            push_chars(&mut safe, escaped.as_slice());
            safe.push('"');
            proof {
                reveal_strlit("\"");
                reveal_strlit("\"\"");
                assert("\""@ =~= seq!['"']);
                assert("\"\""@ =~= seq!['"', '"']);
                let nk = kept_before.push(t@);
                assert(nk.drop_last() =~= kept_before);
                if count == 0 {
                    assert(safe@ =~= quote(t@));
                } else {
                    assert(safe@ =~= quoted_join(kept_before) + " AND "@ + quote(t@));
                }
            }
            count = count + 1;
        }
        k = k + 1;
    }
    assert(all.take(tokens.len() as int) =~= all);
    if count == 0 {
        return Err(RetrievalError::EmptyQuery);
    }
    Ok(string_of(safe.as_slice()))
}

/// The content bound in characters, clamped to 64..2000.
pub open spec fn content_bound(max_chars: usize) -> int {
    if max_chars < 64 {
        64
    } else if max_chars > 2000 {
        2000
    } else {
        max_chars as int
    }
}

/// A snippet cut to the content bound, with an ellipsis where it was cut,
/// and trimmed.
pub open spec fn bounded_text(input: Seq<char>, max_chars: usize) -> Seq<char> {
    let m = content_bound(max_chars);
    if input.len() <= m {
        trim(input)
    } else {
        trim(input.take(m).push('…'))
    }
}

pub fn bound_content(input: &str, max_chars: usize) -> (r: String)
    ensures
        r@ == bounded_text(input@, max_chars),
{
    let m: usize = if max_chars < 64 {
        64
    } else if max_chars > 2000 {
        2000
    } else {
        max_chars
    };
    let s = chars_of(input);
    let mut out = if s.len() <= m {
        slice_of(s.as_slice(), 0, s.len())
    } else {
        let mut o = slice_of(s.as_slice(), 0, m);
        o.push('…');
        o
    };
    assert(s@.subrange(0, s@.len() as int) =~= s@);
    assert(s@.len() > m ==> s@.subrange(0, m as int) =~= s@.take(m as int));
    let (a, b) = trim_bounds(out.as_slice(), 0, out.len());
    assert(out@.subrange(0, out@.len() as int) =~= out@);
    string_of(slice_of(out.as_slice(), a, b).as_slice())
}

/// The source kind that the index stores under a name; unknown names read
/// as file system documents.
pub fn source_kind_from_stored(name: &str) -> (r: SourceKind)
    ensures
        r == (if name@ == "dpkg_status"@ {
            SourceKind::DpkgStatus
        } else if name@ == "man_directory"@ {
            SourceKind::ManDirectory
        } else {
            SourceKind::Filesystem
        }),
{
    if str_eq(name, "dpkg_status") {
        SourceKind::DpkgStatus
    } else if str_eq(name, "man_directory") {
        SourceKind::ManDirectory
    } else {
        SourceKind::Filesystem
    }
}

/// A permission mode (below 512) in octal, as `{:o}` writes it.
pub open spec fn octal(m: nat) -> Seq<char> {
    if m < 8 {
        seq![crate::text::digit_char(m)]
    } else if m < 64 {
        seq![crate::text::digit_char(m / 8), crate::text::digit_char(m % 8)]
    } else {
        seq![
            crate::text::digit_char(m / 64),
            crate::text::digit_char((m / 8) % 8),
            crate::text::digit_char(m % 8),
        ]
    }
}

fn octal_digit(d: u32) -> (r: char)
    requires
        d < 8,
    ensures
        r == crate::text::digit_char(d as nat),
{
    if d == 0 { '0' } else if d == 1 { '1' } else if d == 2 { '2' } else if d == 3 { '3' }
    else if d == 4 { '4' } else if d == 5 { '5' } else if d == 6 { '6' } else { '7' }
}

/// The index may be read only where it is not a symbolic link and no one
/// but its owner may write it.
pub fn check_index_permissions(is_symlink: bool, mode: u32) -> (r: Result<(), RetrievalError>)
    ensures
        is_symlink ==> (r matches Err(RetrievalError::InsecureIndexPermissions(m)) && m@
            == "index path cannot be a symlink"@),
        !is_symlink && (mode & 0o022u32) != 0 ==> (r matches Err(
            RetrievalError::InsecureIndexPermissions(m),
        ) && m@ == "index permissions must not be group/other writable (found "@ + octal(
            (mode & 0o777u32) as nat,
        ) + ")"@),
        !is_symlink && (mode & 0o022u32) == 0 ==> r is Ok,
{
    if is_symlink {
        return Err(RetrievalError::InsecureIndexPermissions(crate::text::owned("index path cannot be a symlink")));
    }
    let m = mode & 0o777u32;
    assert(m < 512 && (m & 0o022u32) == (mode & 0o022u32)) by (bit_vector)
        requires
            m == mode & 0o777u32,
    ;
    if m & 0o022u32 == 0 {
        return Ok(());
    }
    let mut digits: Vec<char> = Vec::new();
    if m >= 64 {
        digits.push(octal_digit(m / 64));
    }
    if m >= 8 {
        digits.push(octal_digit((m / 8) % 8));
    }
    digits.push(octal_digit(m % 8));
    assert(digits@ =~= octal(m as nat));
    let text = concat(
        concat(
            "index permissions must not be group/other writable (found ",
            string_of(digits.as_slice()).as_str(),
        ).as_str(),
        ")",
    );
    Err(RetrievalError::InsecureIndexPermissions(text))
}

/// The index that queries read.
pub struct QueryEngine {
    index_path: String,
}

/// What a query asks the index for: the safe full-text query, how many
/// rows, and how long a snippet in tokens.
#[derive(Debug, Clone, PartialEq, Eq)]
pub struct QueryPlan {
    pub fts_query: String,
    pub limit: usize,
    pub token_window: usize,
}

pub open spec fn clamped_limit(requested: usize) -> usize {
    if requested < 1 {
        1
    } else if requested > 64 {
        64
    } else {
        requested
    }
}

/// The router's documents for the rows a query matched, in rank order.
pub open spec fn router_documents_match(
    docs: Seq<RouterContextDocument>,
    rows: Seq<(String, Citation)>,
    max_chars: usize,
) -> bool {
    &&& docs.len() == rows.len()
    &&& forall|i: int|
        0 <= i < rows.len() ==> (#[trigger] docs[i]).bounded_content@ == bounded_text(
            rows[i].0@,
            max_chars,
        ) && docs[i].citation == rows[i].1
}

impl QueryEngine {
    pub closed spec fn path(&self) -> Seq<char> {
        self.index_path@
    }

    pub fn new(index_path: String) -> (r: Self)
        ensures
            r.path() == index_path@,
    {
        QueryEngine { index_path }
    }

    pub fn index_path(&self) -> (r: &str)
        ensures
            r@ == self.path(),
    {
        self.index_path.as_str()
    }

    /// A query whose text is blank is refused before the index is opened.
    pub fn check_query(&self, request: &QueryRequest) -> (r: Result<(), RetrievalError>)
        ensures
            trim(request.query@).len() == 0 ==> r matches Err(RetrievalError::EmptyQuery),
            trim(request.query@).len() > 0 ==> r is Ok,
    {
        let c = chars_of(request.query.as_str());
        let (a, b) = trim_bounds(c.as_slice(), 0, c.len());
        assert(c@.subrange(0, c.len() as int) =~= c@);
        if a == b {
            assert(c@.subrange(a as int, b as int).len() == 0);
            return Err(RetrievalError::EmptyQuery);
        }
        Ok(())
    }

    /// What the index is asked for: the safe form of the text, the row
    /// limit clamped to 1..64 and the snippet length for the content bound.
    pub fn plan(&self, request: &QueryRequest) -> (r: Result<QueryPlan, RetrievalError>)
        ensures
            match safe_fts_query(request.query@) {
                Some(q) => r matches Ok(p) && p.fts_query@ == q && p.limit == clamped_limit(
                    request.limit,
                ) && p.token_window == snippet_tokens(request.max_content_chars),
                None => r matches Err(RetrievalError::EmptyQuery),
            },
    {
        let fts_query = to_safe_fts_query(request.query.as_str())?;
        Ok(
            QueryPlan {
                fts_query,
                limit: result_limit(request.limit),
                token_window: snippet_tokens_for_chars(request.max_content_chars),
            },
        )
    }

    /// The router's context for the snippets and citations a query matched,
    /// in rank order, each snippet cut to the request's content bound.
    pub fn query_router_context(&self, request: &QueryRequest, rows: Vec<(String, Citation)>) -> (r:
        RouterContextResponse)
        ensures
            r.protocol_id@ == COMMON_PROTOCOL_ID@,
            r.router_contract_id@ == ROUTER_CONTEXT_ID@,
            r.authority_boundary@ == AUTHORITY_BOUNDARY@,
            router_documents_match(r.documents@, rows@, request.max_content_chars),
    {
        let ghost all = rows@;
        let n = rows.len();
        let mut rest = rows;
        let mut documents: Vec<RouterContextDocument> = Vec::new();
        let mut i: usize = 0;
        while rest.len() > 0
            invariant
                i + rest@.len() == all.len(),
                all.len() == n,
                rest@ == all.skip(i as int),
                router_documents_match(documents@, all.take(i as int), request.max_content_chars),
            decreases rest@.len(),
        {
            let (snippet, citation) = rest.remove(0);
            assert(all[i as int] == (snippet, citation));
            let bounded_content = bound_content(snippet.as_str(), request.max_content_chars);
            documents.push(RouterContextDocument { bounded_content, citation });
            i = i + 1;
            assert(rest@ =~= all.skip(i as int));
            assert(all.take(i as int).drop_last() =~= all.take(i - 1));
            assert(all.take(i as int)[i - 1] == all[i - 1]);
        }
        assert(all.take(all.len() as int) =~= all);
        RouterContextResponse {
            protocol_id: COMMON_PROTOCOL_ID,
            router_contract_id: ROUTER_CONTEXT_ID,
            authority_boundary: AUTHORITY_BOUNDARY,
            documents,
        }
    }
}

} // verus!
