//! The configuration of documentation sources and the rules that keep
//! private locations out of the index.
use super::error::RetrievalError;
use super::model::SourceKind;
use crate::text::{
    chars_eq, chars_of, concat, decimal, find_from, index_of, lemma_index_of_bounds, lower_chars,
    lower_seq, owned, slice_of, str_eq, string_of, trim, trim_bounds, u64_to_text, views,
};
use vstd::prelude::*;

verus! {

#[derive(Debug, Clone, Copy, PartialEq, Eq, Structural)]
pub enum SourceKindConfig {
    Filesystem,
    DpkgStatus,
    ManDirectory,
}

pub open spec fn default_trust_label_of(k: SourceKindConfig) -> Seq<char> {
    match k {
        SourceKindConfig::Filesystem => "PACKAGED_DOCUMENTATION"@,
        SourceKindConfig::DpkgStatus => "LOCAL_SYSTEM_METADATA"@,
        SourceKindConfig::ManDirectory => "DEBIAN_MANPAGE"@,
    }
}

impl SourceKindConfig {
    pub fn as_model(self) -> (r: SourceKind)
        ensures
            self == SourceKindConfig::Filesystem ==> r == SourceKind::Filesystem,
            self == SourceKindConfig::DpkgStatus ==> r == SourceKind::DpkgStatus,
            self == SourceKindConfig::ManDirectory ==> r == SourceKind::ManDirectory,
    {
        match self {
            SourceKindConfig::Filesystem => SourceKind::Filesystem,
            SourceKindConfig::DpkgStatus => SourceKind::DpkgStatus,
            SourceKindConfig::ManDirectory => SourceKind::ManDirectory,
        }
    }

    pub fn default_trust_label(self) -> (r: &'static str)
        ensures
            r@ == default_trust_label_of(self),
    {
        match self {
            SourceKindConfig::Filesystem => "PACKAGED_DOCUMENTATION",
            SourceKindConfig::DpkgStatus => "LOCAL_SYSTEM_METADATA",
            SourceKindConfig::ManDirectory => "DEBIAN_MANPAGE",
        }
    }
}

/// One configured documentation source; paths are kept as text.
#[derive(Debug, Clone, PartialEq, Eq)]
pub struct SourceConfig {
    pub name: String,
    pub kind: SourceKindConfig,
    pub trust_label: Option<String>,
    pub roots: Vec<String>,
    pub path: Option<String>,
    pub allow_pages: Vec<String>,
    pub include_extensions: Vec<String>,
    pub max_depth: usize,
    pub allow_private_roots: bool,
    pub package_name: Option<String>,
    pub package_version: Option<String>,
}

pub open spec fn string_views(v: Seq<String>) -> Seq<Seq<char>> {
    v.map_values(|s: String| s@)
}

/// The roots of a source, then its single path if it has one.
pub open spec fn source_paths(s: SourceConfig) -> Seq<Seq<char>> {
    match s.path {
        Some(p) => string_views(s.roots@).push(p@),
        None => string_views(s.roots@),
    }
}

/// The locations a source reports are its roots in order, then its path if
/// it has one: as many as its roots, and one more for a path.
pub proof fn lemma_source_paths_shape(s: SourceConfig)
    ensures
        source_paths(s).len() == s.roots@.len() + (if s.path is Some { 1int } else { 0int }),
        forall|i: int| 0 <= i < s.roots@.len() ==> #[trigger] source_paths(s)[i] == s.roots@[i]@,
        s.path matches Some(p) ==> source_paths(s).last() == p@,
{
}

fn clone_strings(v: &Vec<String>) -> (r: Vec<String>)
    ensures
        r@ == v@,
{
    let mut r: Vec<String> = Vec::new();
    let mut i: usize = 0;
    while i < v.len()
        invariant
            i <= v.len(),
            r@ == v@.take(i as int),
        decreases v.len() - i,
    {
        let c = v[i].clone();
        assert(c == v@[i as int]);
        r.push(c);
        i = i + 1;
        assert(r@ =~= v@.take(i as int));
    }
    assert(v@.take(v.len() as int) =~= v@);
    r
}

impl SourceConfig {
    /// Every configured location of the source: its roots, then its path.
    pub fn all_paths(&self) -> (r: Vec<String>)
        ensures
            string_views(r@) == source_paths(*self),
    {
        let mut paths = clone_strings(&self.roots);
        if let Some(path) = &self.path {
            let ghost before = paths@;
            paths.push(path.clone());
            assert(string_views(paths@) =~= string_views(before).push(path@));
        }
        paths
    }

    /// The configured trust label, or the kind's default.
    pub fn trust_label(&self) -> (r: String)
        ensures
            r@ == (match self.trust_label {
                Some(t) => t@,
                None => default_trust_label_of(self.kind),
            }),
    {
        match &self.trust_label {
            Some(t) => t.clone(),
            None => owned(self.kind.default_trust_label()),
        }
    }

    /// The locations as the report lists them.
    pub fn configured_roots(&self) -> (r: Vec<String>)
        ensures
            string_views(r@) == source_paths(*self),
    {
        self.all_paths()
    }
}

#[derive(Debug, Clone, PartialEq, Eq)]
pub struct RetrievalConfig {
    pub schema_version: u32,
    pub max_file_count: usize,
    pub max_file_bytes: usize,
    pub max_total_bytes: usize,
    pub max_query_results: usize,
    pub source: Vec<SourceConfig>,
}

/// The names in a path, as `Path::components` gives them after the root:
/// separated by `/`, without empty names and `.`.
pub open spec fn path_names(s: Seq<char>) -> Seq<Seq<char>>
    decreases s.len(),
{
    if s.len() == 0 {
        Seq::empty()
    } else {
        let n = index_of(s, '/');
        let head = s.take(n);
        let rest = if n >= s.len() {
            Seq::<char>::empty()
        } else {
            s.skip(n + 1)
        };
        proof {
            lemma_index_of_bounds(s, '/');
        }
        (if head.len() == 0 || head == "."@ {
            Seq::empty()
        } else {
            seq![head]
        }) + path_names(rest)
    }
}

/// A component that names credentials or a private configuration directory.
pub open spec fn private_component(c: Seq<char>) -> bool {
    c == ".ssh"@ || c == ".gnupg"@ || c == ".aws"@ || c == ".env"@ || lower_seq(c)
        == "credentials"@
}

/// The path begins with these names after the root.
pub open spec fn under(names: Seq<Seq<char>>, prefix: Seq<Seq<char>>) -> bool {
    prefix.len() <= names.len() && names.take(prefix.len() as int) == prefix
}

/// An absolute path into a home directory, `/root`, `/proc`, the kernel's
/// security file system or per-user runtime directories, or through a
/// component that names credentials.
pub open spec fn disallowed_path(p: Seq<char>) -> bool {
    let names = path_names(p);
    &&& p.len() > 0 && p[0] == '/'
    &&& {
        ||| under(names, seq!["home"@])
        ||| under(names, seq!["root"@])
        ||| under(names, seq!["proc"@])
        ||| under(names, seq!["sys"@, "kernel"@, "security"@])
        ||| under(names, seq!["run"@, "user"@])
        ||| exists|i: int| 0 <= i < names.len() && private_component(#[trigger] names[i])
    }
}

fn path_names_exec(s: &[char]) -> (r: Vec<Vec<char>>)
    ensures
        views(r@) == path_names(s@),
{
    let mut r: Vec<Vec<char>> = Vec::new();
    let mut pos: usize = 0;
    assert(s@.skip(0) =~= s@);
    assert(views(r@) =~= Seq::<Seq<char>>::empty());
    while pos < s.len()
        invariant
            pos <= s.len(),
            views(r@) + path_names(s@.skip(pos as int)) == path_names(s@),
        decreases s.len() - pos,
    {
        let ghost t = s@.skip(pos as int);
        let e = find_from(s, pos, '/');
        proof {
            lemma_index_of_bounds(t, '/');
        }
        let head = slice_of(s, pos, e);
        assert(head@ =~= t.take(index_of(t, '/')));
        let dot = chars_of(".");
        let ghost before = views(r@);
        if head.len() > 0 && !chars_eq(head.as_slice(), dot.as_slice()) {
            r.push(head);
            assert(views(r@) =~= before.push(t.take(index_of(t, '/'))));
        }
        if e < s.len() {
            assert(t.skip(index_of(t, '/') + 1) =~= s@.skip(e + 1));
            assert(views(r@) + path_names(s@.skip(e + 1)) =~= before + path_names(t));
            pos = e + 1;
        } else {
            assert(s@.skip(e as int) =~= Seq::<char>::empty());
            assert(views(r@) + path_names(s@.skip(e as int)) =~= before + path_names(t));
            pos = e;
        }
    }
    assert(s@.skip(pos as int) =~= Seq::<char>::empty());
    assert(views(r@) + Seq::<Seq<char>>::empty() =~= views(r@));
    r
}

fn names_under(names: &Vec<Vec<char>>, prefix: &[&str]) -> (r: bool)
    ensures
        r == under(views(names@), prefix@.map_values(|p: &str| p@)),
{
    let ghost pv = prefix@.map_values(|p: &str| p@);
    if prefix.len() > names.len() {
        return false;
    }
    let mut i: usize = 0;
    while i < prefix.len()
        invariant
            i <= prefix.len() <= names.len(),
            pv == prefix@.map_values(|p: &str| p@),
            forall|j: int| 0 <= j < i ==> views(names@)[j] == #[trigger] pv[j],
        decreases prefix.len() - i,
    {
        let p = chars_of(prefix[i]);
        if !chars_eq(names[i].as_slice(), p.as_slice()) {
            assert(views(names@).take(pv.len() as int)[i as int] != pv[i as int]);
            return false;
        }
        i = i + 1;
    }
    assert(views(names@).take(pv.len() as int) =~= pv);
    true
}

/// Whether the index must refuse `path` unless the source allows private roots.
pub fn path_is_disallowed(path: &str) -> (r: bool)
    ensures
        r == disallowed_path(path@),
{
    let s = chars_of(path);
    if !(s.len() > 0 && s[0] == '/') {
        return false;
    }
    let names = path_names_exec(s.as_slice());
    let ghost nv = views(names@);
    proof {
        assert(seq!["home"].map_values(|p: &str| p@) =~= seq!["home"@]);
        assert(seq!["root"].map_values(|p: &str| p@) =~= seq!["root"@]);
        assert(seq!["proc"].map_values(|p: &str| p@) =~= seq!["proc"@]);
        assert(seq!["sys", "kernel", "security"].map_values(|p: &str| p@) =~= seq![
            "sys"@,
            "kernel"@,
            "security"@,
        ]);
        assert(seq!["run", "user"].map_values(|p: &str| p@) =~= seq!["run"@, "user"@]);
    }
    let home: [&str; 1] = ["home"];
    let root: [&str; 1] = ["root"];
    let proc_: [&str; 1] = ["proc"];
    let security: [&str; 3] = ["sys", "kernel", "security"];
    let run_user: [&str; 2] = ["run", "user"];
    assert(home@ == seq!["home"]);
    assert(root@ == seq!["root"]);
    assert(proc_@ == seq!["proc"]);
    assert(security@ == seq!["sys", "kernel", "security"]);
    assert(run_user@ == seq!["run", "user"]);
    if names_under(&names, &home) || names_under(&names, &root) || names_under(&names, &proc_)
        || names_under(&names, &security) || names_under(&names, &run_user) {
        return true;
    }
    let mut i: usize = 0;
    while i < names.len()
        invariant
            i <= names.len(),
            nv == views(names@),
            nv == path_names(path@),
            path@.len() > 0 && path@[0] == '/',
            forall|j: int| 0 <= j < i ==> !private_component(#[trigger] nv[j]),
        decreases names.len() - i,
    {
        let c = names[i].as_slice();
        assert(nv[i as int] == c@);
        let lower = lower_chars(c);
        if chars_eq(c, chars_of(".ssh").as_slice()) || chars_eq(c, chars_of(".gnupg").as_slice())
            || chars_eq(c, chars_of(".aws").as_slice()) || chars_eq(c, chars_of(".env").as_slice())
            || chars_eq(lower.as_slice(), chars_of("credentials").as_slice()) {
            assert(private_component(nv[i as int]));
            return true;
        }
        i = i + 1;
    }
    false
}

/// The first location among `ps` that the index must refuse.
pub open spec fn first_disallowed(ps: Seq<Seq<char>>) -> Option<Seq<char>>
    decreases ps.len(),
{
    if ps.len() == 0 {
        None
    } else if disallowed_path(ps[0]) {
        Some(ps[0])
    } else {
        first_disallowed(ps.drop_first())
    }
}

/// What is wrong with source `s`, given the sources before it.
pub open spec fn source_problem(s: SourceConfig, earlier: Seq<SourceConfig>) -> Option<Seq<char>> {
    if trim(s.name@).len() == 0 {
        Some("source.name cannot be empty"@)
    } else if exists|j: int| 0 <= j < earlier.len() && (#[trigger] earlier[j]).name@ == s.name@ {
        Some("duplicate source name "@ + s.name@)
    } else if s.kind != SourceKindConfig::DpkgStatus && s.roots@.len() == 0 {
        Some("source "@ + s.name@ + " requires non-empty roots"@)
    } else if s.kind == SourceKindConfig::DpkgStatus && s.path is None {
        Some("source "@ + s.name@ + " requires path for dpkg_status"@)
    } else if !s.allow_private_roots && first_disallowed(source_paths(s)) is Some {
        Some(
            "source "@ + s.name@ + " path "@ + first_disallowed(source_paths(s))->0
                + " is not allowed; configure explicit system documentation paths only"@,
        )
    } else {
        None
    }
}

/// The problem of the first source, from index `i` on, that has one.
pub open spec fn sources_problem(ss: Seq<SourceConfig>, i: int) -> Option<Seq<char>>
    decreases ss.len() - i,
{
    if i < 0 || i >= ss.len() {
        None
    } else {
        match source_problem(ss[i], ss.take(i)) {
            Some(m) => Some(m),
            None => sources_problem(ss, i + 1),
        }
    }
}

/// Why the configuration is invalid, if it is.
pub open spec fn config_problem(c: RetrievalConfig) -> Option<Seq<char>> {
    if c.schema_version != 1 {
        Some("unsupported schema_version "@ + decimal(c.schema_version as nat) + "; expected 1"@)
    } else if c.max_file_count == 0 || c.max_file_bytes == 0 || c.max_total_bytes == 0 {
        Some("max_file_count, max_file_bytes, and max_total_bytes must be non-zero"@)
    } else if c.source@.len() == 0 {
        Some("at least one [[source]] entry is required"@)
    } else {
        sources_problem(c.source@, 0)
    }
}

fn invalid(message: String) -> (r: Result<(), RetrievalError>)
    ensures
        r matches Err(RetrievalError::InvalidConfig(m)) && m@ == message@,
{
    Err(RetrievalError::InvalidConfig(message))
}

fn source_check(all: &Vec<SourceConfig>, i: usize) -> (r: Option<String>)
    requires
        i < all.len(),
    ensures
        match r {
            Some(m) => source_problem(all@[i as int], all@.take(i as int)) == Some(m@),
            None => source_problem(all@[i as int], all@.take(i as int)) is None,
        },
{
    let s = &all[i];
    let ghost earlier = all@.take(i as int);
    let name = chars_of(s.name.as_str());
    let (a, b) = trim_bounds(name.as_slice(), 0, name.len());
    assert(name@.subrange(0, name@.len() as int) =~= name@);
    if a == b {
        return Some(owned("source.name cannot be empty"));
    }
    let mut j: usize = 0;
    while j < i
        invariant
            j <= i < all.len(),
            earlier == all@.take(i as int),
            *s == all@[i as int],
            trim(s.name@).len() > 0,
            forall|k: int| 0 <= k < j ==> (#[trigger] earlier[k]).name@ != s.name@,
        decreases i - j,
    {
        assert(earlier[j as int] == all@[j as int]);
        if str_eq(all[j].name.as_str(), s.name.as_str()) {
            assert(earlier[j as int].name@ == s.name@);
            return Some(concat("duplicate source name ", s.name.as_str()));
        }
        j = j + 1;
    }
    match s.kind {
        SourceKindConfig::Filesystem | SourceKindConfig::ManDirectory => {
            if s.roots.len() == 0 {
                let head = concat("source ", s.name.as_str());
                return Some(concat(head.as_str(), " requires non-empty roots"));
            }
        },
        SourceKindConfig::DpkgStatus => {
            if s.path.is_none() {
                let head = concat("source ", s.name.as_str());
                return Some(concat(head.as_str(), " requires path for dpkg_status"));
            }
        },
    }
    if !s.allow_private_roots {
        let paths = s.all_paths();
        let ghost pv = string_views(paths@);
        assert(source_problem(*s, earlier) == (match first_disallowed(source_paths(*s)) {
            Some(p) => Some(
                "source "@ + s.name@ + " path "@ + p
                    + " is not allowed; configure explicit system documentation paths only"@,
            ),
            None => None,
        }));
        let mut k: usize = 0;
        assert(pv.skip(0) =~= pv);
        while k < paths.len()
            invariant
                k <= paths.len(),
                pv == string_views(paths@),
                pv == source_paths(*s),
                *s == all@[i as int],
                earlier == all@.take(i as int),
                source_problem(*s, earlier) == (match first_disallowed(source_paths(*s)) {
                    Some(p) => Some(
                        "source "@ + s.name@ + " path "@ + p
                            + " is not allowed; configure explicit system documentation paths only"@,
                    ),
                    None => None,
                }),
                first_disallowed(pv) == first_disallowed(pv.skip(k as int)),
            decreases paths.len() - k,
        {
            assert(pv.skip(k as int)[0] == paths@[k as int]@);
            assert(pv.skip(k as int).drop_first() =~= pv.skip(k + 1));
            if path_is_disallowed(paths[k].as_str()) {
                assert(first_disallowed(pv.skip(k as int)) == Some(paths@[k as int]@));
                let head = concat(concat("source ", s.name.as_str()).as_str(), " path ");
                let body = concat(head.as_str(), paths[k].as_str());
                return Some(
                    concat(
                        body.as_str(),
                        " is not allowed; configure explicit system documentation paths only",
                    ),
                );
            }
            k = k + 1;
        }
        assert(pv.skip(k as int).len() == 0);
    }
    None
}

impl RetrievalConfig {
    /// Checks the schema version, the limits, and every source: a non-blank
    /// name not used before, the locations its kind needs, and no private
    /// location unless the source allows one.
    pub fn validate(&self) -> (r: Result<(), RetrievalError>)
        ensures
            match config_problem(*self) {
                None => r is Ok,
                Some(m) => r matches Err(RetrievalError::InvalidConfig(e)) && e@ == m,
            },
    {
        if self.schema_version != 1 {
            let head = concat("unsupported schema_version ", u64_to_text(self.schema_version as u64).as_str());
            return invalid(concat(head.as_str(), "; expected 1"));
        }
        if self.max_file_count == 0 || self.max_file_bytes == 0 || self.max_total_bytes == 0 {
            return invalid(owned("max_file_count, max_file_bytes, and max_total_bytes must be non-zero"));
        }
        if self.source.len() == 0 {
            return invalid(owned("at least one [[source]] entry is required"));
        }
        let mut i: usize = 0;
        while i < self.source.len()
            invariant
                i <= self.source.len(),
                config_problem(*self) == sources_problem(self.source@, i as int),
            decreases self.source.len() - i,
        {
            match source_check(&self.source, i) {
                Some(m) => return invalid(m),
                None => {},
            }
            i = i + 1;
        }
        Ok(())
    }
}

} // verus!
