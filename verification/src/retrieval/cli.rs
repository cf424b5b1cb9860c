//! The command line of the retrieval tool: its subcommands and flags.
use super::error::RetrievalError;
use super::model::QueryRequest;
use crate::text::{chars_of, concat, owned, parse_u64, parse_u64_chars, str_eq};
use vstd::prelude::*;

verus! {

pub const DEFAULT_CONFIG_PATH: &'static str = "/etc/sentia/retrieval/sources.toml";

pub const DEFAULT_INDEX_PATH: &'static str = "/var/lib/sentia/retrieval/index.sqlite";

#[derive(Debug, Clone, PartialEq, Eq)]
pub struct IndexArgs {
    pub config: String,
    pub index: String,
    pub pretty: bool,
}

#[derive(Debug, Clone, PartialEq, Eq)]
pub struct QueryArgs {
    pub index: String,
    pub query: String,
    pub limit: usize,
    pub max_content_chars: usize,
    pub router_context: bool,
    pub pretty: bool,
}

#[derive(Debug, Clone, PartialEq, Eq)]
pub enum RetrievalCommand {
    Help,
    Index(IndexArgs),
    Query(QueryArgs),
}

/// The abstract outcome of reading arguments: a command (as plain views)
/// or the text of the configuration error.
pub enum ArgsOutcome {
    Help,
    Index { config: Seq<char>, index: Seq<char>, pretty: bool },
    Query {
        index: Seq<char>,
        query: Seq<char>,
        limit: usize,
        max_content_chars: usize,
        router_context: bool,
        pretty: bool,
    },
    Invalid(Seq<char>),
}

/// `usize::from_str`.
pub open spec fn parse_usize(s: Seq<char>) -> Option<usize> {
    match parse_u64(s) {
        Some(v) => if v <= usize::MAX {
            Some(v as usize)
        } else {
            None
        },
        None => None,
    }
}

/// The flags of `index` from `i` on.
pub open spec fn index_flags(args: Seq<Seq<char>>, i: int, config: Seq<char>, index: Seq<char>, pretty: bool) -> ArgsOutcome
    decreases args.len() - i,
{
    if i >= args.len() {
        ArgsOutcome::Index { config, index, pretty }
    } else {
        let f = args[i];
        if f == "--config"@ {
            if i + 1 >= args.len() {
                ArgsOutcome::Invalid("missing value for --config"@)
            } else {
                index_flags(args, i + 2, args[i + 1], index, pretty)
            }
        } else if f == "--index"@ {
            if i + 1 >= args.len() {
                ArgsOutcome::Invalid("missing value for --index"@)
            } else {
                index_flags(args, i + 2, config, args[i + 1], pretty)
            }
        } else if f == "--pretty"@ {
            index_flags(args, i + 1, config, index, true)
        } else if f == "--help"@ || f == "-h"@ {
            ArgsOutcome::Help
        } else {
            ArgsOutcome::Invalid("unknown index flag "@ + f)
        }
    }
}

/// The flags of `query` from `i` on.
pub open spec fn query_flags(
    args: Seq<Seq<char>>,
    i: int,
    index: Seq<char>,
    query: Option<Seq<char>>,
    limit: usize,
    max_chars: usize,
    router: bool,
    pretty: bool,
) -> ArgsOutcome
    decreases args.len() - i,
{
    if i >= args.len() {
        match query {
            None => ArgsOutcome::Invalid("query requires --query <text>"@),
            Some(q) => ArgsOutcome::Query {
                index,
                query: q,
                limit,
                max_content_chars: max_chars,
                router_context: router,
                pretty,
            },
        }
    } else {
        let f = args[i];
        if f == "--index"@ {
            if i + 1 >= args.len() {
                ArgsOutcome::Invalid("missing value for --index"@)
            } else {
                query_flags(args, i + 2, args[i + 1], query, limit, max_chars, router, pretty)
            }
        } else if f == "--query"@ {
            if i + 1 >= args.len() {
                ArgsOutcome::Invalid("missing value for --query"@)
            } else {
                query_flags(args, i + 2, index, Some(args[i + 1]), limit, max_chars, router, pretty)
            }
        } else if f == "--limit"@ {
            if i + 1 >= args.len() {
                ArgsOutcome::Invalid("missing value for --limit"@)
            } else {
                match parse_usize(args[i + 1]) {
                    None => ArgsOutcome::Invalid("--limit must be an integer"@),
                    Some(n) => query_flags(args, i + 2, index, query, n, max_chars, router, pretty),
                }
            }
        } else if f == "--max-content-chars"@ {
            if i + 1 >= args.len() {
                ArgsOutcome::Invalid("missing value for --max-content-chars"@)
            } else {
                match parse_usize(args[i + 1]) {
                    None => ArgsOutcome::Invalid("--max-content-chars must be an integer"@),
                    Some(n) => query_flags(args, i + 2, index, query, limit, n, router, pretty),
                }
            }
        } else if f == "--router-context"@ {
            query_flags(args, i + 1, index, query, limit, max_chars, true, pretty)
        } else if f == "--pretty"@ {
            query_flags(args, i + 1, index, query, limit, max_chars, router, true)
        } else if f == "--help"@ || f == "-h"@ {
            ArgsOutcome::Help
        } else {
            ArgsOutcome::Invalid("unknown query flag "@ + f)
        }
    }
}

/// What the arguments (without the program name) ask for.
pub open spec fn command_of(args: Seq<Seq<char>>) -> ArgsOutcome {
    if args.len() == 0 {
        ArgsOutcome::Help
    } else {
        let c = args[0];
        if c == "--help"@ || c == "-h"@ || c == "help"@ {
            ArgsOutcome::Help
        } else if c == "index"@ {
            index_flags(args, 1, DEFAULT_CONFIG_PATH@, DEFAULT_INDEX_PATH@, false)
        } else if c == "query"@ {
            query_flags(args, 1, DEFAULT_INDEX_PATH@, None, 6, 320, false, false)
        } else {
            ArgsOutcome::Invalid("unknown subcommand "@ + c + "; expected index or query"@)
        }
    }
}

pub open spec fn arg_views(args: Seq<String>) -> Seq<Seq<char>> {
    args.map_values(|a: String| a@)
}

/// `r` is the outcome `o`.
pub open spec fn command_is(r: Result<RetrievalCommand, RetrievalError>, o: ArgsOutcome) -> bool {
    match o {
        ArgsOutcome::Help => r == Ok::<RetrievalCommand, RetrievalError>(RetrievalCommand::Help),
        ArgsOutcome::Index { config, index, pretty } => r matches Ok(RetrievalCommand::Index(a))
            && a.config@ == config && a.index@ == index && a.pretty == pretty,
        ArgsOutcome::Query { index, query, limit, max_content_chars, router_context, pretty } => r
            matches Ok(RetrievalCommand::Query(a)) && a.index@ == index && a.query@ == query
            && a.limit == limit && a.max_content_chars == max_content_chars && a.router_context
            == router_context && a.pretty == pretty,
        ArgsOutcome::Invalid(m) => r matches Err(RetrievalError::InvalidConfig(t)) && t@ == m,
    }
}

fn invalid(m: String) -> (r: Result<RetrievalCommand, RetrievalError>)
    ensures
        r matches Err(RetrievalError::InvalidConfig(t)) && t@ == m@,
{
    Err(RetrievalError::InvalidConfig(m))
}

fn parse_index_flags(args: &Vec<String>) -> (r: Result<RetrievalCommand, RetrievalError>)
    requires
        args.len() >= 1,
    ensures
        command_is(r, index_flags(arg_views(args@), 1, DEFAULT_CONFIG_PATH@, DEFAULT_INDEX_PATH@, false)),
{
    let ghost a = arg_views(args@);
    let mut config = owned(DEFAULT_CONFIG_PATH);
    let mut index = owned(DEFAULT_INDEX_PATH);
    let mut pretty = false;
    let mut i: usize = 1;
    while i < args.len()
        invariant
            1 <= i <= args.len(),
            a == arg_views(args@),
            a.len() == args.len(),
            index_flags(a, 1, DEFAULT_CONFIG_PATH@, DEFAULT_INDEX_PATH@, false) == index_flags(
                a,
                i as int,
                config@,
                index@,
                pretty,
            ),
        decreases args.len() - i,
    {
        let f = args[i].as_str();
        assert(a[i as int] == f@);
        if str_eq(f, "--config") {
            if i + 1 >= args.len() {
                return invalid(owned("missing value for --config"));
            }
            assert(a[i + 1] == args@[i + 1]@);
            config = args[i + 1].clone();
            i = i + 2;
        } else if str_eq(f, "--index") {
            if i + 1 >= args.len() {
                return invalid(owned("missing value for --index"));
            }
            assert(a[i + 1] == args@[i + 1]@);
            index = args[i + 1].clone();
            i = i + 2;
        } else if str_eq(f, "--pretty") {
            pretty = true;
            i = i + 1;
        } else if str_eq(f, "--help") || str_eq(f, "-h") {
            return Ok(RetrievalCommand::Help);
        } else {
            return invalid(concat("unknown index flag ", f));
        }
    }
    Ok(RetrievalCommand::Index(IndexArgs { config, index, pretty }))
}

fn parse_count(raw: &String) -> (r: Option<usize>)
    ensures
        r == parse_usize(raw@),
{
    let c = chars_of(raw.as_str());
    match parse_u64_chars(c.as_slice()) {
        Some(v) => if v <= usize::MAX as u64 {
            Some(v as usize)
        } else {
            None
        },
        None => None,
    }
}

fn parse_query_flags(args: &Vec<String>) -> (r: Result<RetrievalCommand, RetrievalError>)
    requires
        args.len() >= 1,
    ensures
        command_is(r, query_flags(arg_views(args@), 1, DEFAULT_INDEX_PATH@, None, 6, 320, false, false)),
{
    let ghost a = arg_views(args@);
    let mut index = owned(DEFAULT_INDEX_PATH);
    let mut query: Option<String> = None;
    let mut limit: usize = 6;
    let mut max_chars: usize = 320;
    let mut router = false;
    let mut pretty = false;
    let mut i: usize = 1;
    while i < args.len()
        invariant
            1 <= i <= args.len(),
            a == arg_views(args@),
            a.len() == args.len(),
            query_flags(a, 1, DEFAULT_INDEX_PATH@, None, 6, 320, false, false) == query_flags(
                a,
                i as int,
                index@,
                match query {
                    Some(q) => Some(q@),
                    None => None,
                },
                limit,
                max_chars,
                router,
                pretty,
            ),
        decreases args.len() - i,
    {
        let f = args[i].as_str();
        assert(a[i as int] == f@);
        if str_eq(f, "--index") {
            if i + 1 >= args.len() {
                return invalid(owned("missing value for --index"));
            }
            assert(a[i + 1] == args@[i + 1]@);
            index = args[i + 1].clone();
            i = i + 2;
        } else if str_eq(f, "--query") {
            if i + 1 >= args.len() {
                return invalid(owned("missing value for --query"));
            }
            assert(a[i + 1] == args@[i + 1]@);
            query = Some(args[i + 1].clone());
            i = i + 2;
        } else if str_eq(f, "--limit") {
            if i + 1 >= args.len() {
                return invalid(owned("missing value for --limit"));
            }
            assert(a[i + 1] == args@[i + 1]@);
            match parse_count(&args[i + 1]) {
                None => {
                    return invalid(owned("--limit must be an integer"));
                },
                Some(n) => {
                    limit = n;
                },
            }
            i = i + 2;
        } else if str_eq(f, "--max-content-chars") {
            if i + 1 >= args.len() {
                return invalid(owned("missing value for --max-content-chars"));
            }
            assert(a[i + 1] == args@[i + 1]@);
            match parse_count(&args[i + 1]) {
                None => {
                    return invalid(owned("--max-content-chars must be an integer"));
                },
                Some(n) => {
                    max_chars = n;
                },
            }
            i = i + 2;
        } else if str_eq(f, "--router-context") {
            router = true;
            i = i + 1;
        } else if str_eq(f, "--pretty") {
            pretty = true;
            i = i + 1;
        } else if str_eq(f, "--help") || str_eq(f, "-h") {
            return Ok(RetrievalCommand::Help);
        } else {
            return invalid(concat("unknown query flag ", f));
        }
    }
    match query {
        None => invalid(owned("query requires --query <text>")),
        Some(q) => Ok(
            RetrievalCommand::Query(
                QueryArgs { index, query: q, limit, max_content_chars: max_chars, router_context: router, pretty },
            ),
        ),
    }
}

/// Reads the tool's arguments (without the program name).
pub fn parse_command(args: &Vec<String>) -> (r: Result<RetrievalCommand, RetrievalError>)
    ensures
        command_is(r, command_of(arg_views(args@))),
{
    if args.len() == 0 {
        return Ok(RetrievalCommand::Help);
    }
    let c = args[0].as_str();
    assert(arg_views(args@)[0] == c@);
    if str_eq(c, "--help") || str_eq(c, "-h") || str_eq(c, "help") {
        Ok(RetrievalCommand::Help)
    } else if str_eq(c, "index") {
        parse_index_flags(args)
    } else if str_eq(c, "query") {
        parse_query_flags(args)
    } else {
        let a = concat("unknown subcommand ", c);
        invalid(concat(a.as_str(), "; expected index or query"))
    }
}

/// The request a query command makes: its limits capped at 64 results
/// and 2000 characters of content.
pub fn query_request(args: &QueryArgs) -> (r: QueryRequest)
    ensures
        r.query@ == args.query@,
        r.limit == (if args.limit < 64 {
            args.limit
        } else {
            64
        }),
        r.max_content_chars == (if args.max_content_chars < 2000 {
            args.max_content_chars
        } else {
            2000
        }),
{
    QueryRequest {
        query: args.query.clone(),
        limit: if args.limit < 64 {
            args.limit
        } else {
            64
        },
        max_content_chars: if args.max_content_chars < 2000 {
            args.max_content_chars
        } else {
            2000
        },
    }
}

} // verus!
