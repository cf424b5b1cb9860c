use sentia::retrieval::cli::{parse_command, query_request, RetrievalCommand};
use sentia::retrieval::error::RetrievalError;
use sentia::retrieval::indexer::{
    dpkg_documents, dpkg_package_document, hash_content, manpage_document, hex_encode, is_manpage_file, parse_dpkg_status,
    sanitize_manpage,
};
use sentia::retrieval::config::{RetrievalConfig, SourceConfig, SourceKindConfig};
use sentia::retrieval::indexer::{Budget, Indexer};
use sentia::retrieval::model::{Citation, QueryRequest, SourceKind, SourceReport};
use sentia::retrieval::path_guard::Allowlist;
use sentia::retrieval::query::{check_index_permissions, result_limit, to_safe_fts_query, QueryEngine};

fn field<'a>(fields: &'a [(String, String)], name: &str) -> &'a str {
    fields.iter().rev().find(|(k, _)| k == name).map(|(_, v)| v.as_str()).unwrap()
}

#[test]
fn parses_dpkg_paragraphs_with_multiline_fields() {
    let parsed = parse_dpkg_status(
        "Package: sentia\nVersion: 1.0\nDescription: first line\n second line\n\nPackage: demo\nVersion: 2\nStatus: install ok installed\n",
    );
    assert_eq!(parsed.len(), 2);
    assert!(field(&parsed[0], "Description").contains("second line"));
}

#[test]
fn strips_manpage_macros_without_execution() {
    let sanitized = sanitize_manpage(".TH TEST 1\nNormal text\n.so /etc/passwd\n' comment\n");
    assert_eq!(sanitized.trim(), "Normal text");
}

#[test]
fn tokenizes_unsafe_fts_input() {
    let query = to_safe_fts_query("sentia OR \"router\" NEAR(test,2)").unwrap();
    assert_eq!(query, "\"sentia\" AND \"router\" AND \"test\"");
}

#[test]
fn empty_queries_are_refused() {
    assert!(matches!(to_safe_fts_query("  ()\"\" "), Err(RetrievalError::EmptyQuery)));
}

#[test]
fn sha256_of_content_is_hex() {
    assert_eq!(
        hash_content("abc"),
        "ba7816bf8f01cfea414140de5dae2223b00361a396177a9cb410ff61f20015ad"
    );
    assert_eq!(hex_encode(&[0, 255, 16]), "00ff10");
}

#[test]
fn manpage_files_are_recognized() {
    assert!(is_manpage_file("ls.1.gz"));
    assert!(!is_manpage_file("README"));
    assert_eq!(result_limit(1000), 64);
}

#[test]
fn dpkg_documents_come_from_installed_packages() {
    let parsed = parse_dpkg_status("Package: vim\nStatus: install ok installed\nVersion: 9\nDescription: editor\n");
    let doc = dpkg_package_document(&parsed[0]).unwrap();
    assert_eq!(doc.0, "vim");
    assert_eq!(doc.1, "9");
    let parsed = parse_dpkg_status("Status: install ok installed\nDescription: editor\n");
    let doc = dpkg_package_document(&parsed[0]).unwrap();
    assert_eq!(doc.0, "unknown");
    assert_eq!(doc.1, "unknown");
    let parsed = parse_dpkg_status("Package: vim\nStatus: deinstall ok config-files\nDescription: editor\n");
    assert!(dpkg_package_document(&parsed[0]).is_none());
}

fn args(v: &[&str]) -> Vec<String> {
    v.iter().map(|s| s.to_string()).collect()
}

#[test]
fn retrieval_command_line() {
    assert_eq!(parse_command(&args(&[])).unwrap(), RetrievalCommand::Help);
    match parse_command(&args(&["index", "--pretty", "--index", "/tmp/i.sqlite"])).unwrap() {
        RetrievalCommand::Index(a) => {
            assert!(a.pretty);
            assert_eq!(a.index, "/tmp/i.sqlite");
            assert_eq!(a.config, "/etc/sentia/retrieval/sources.toml");
        }
        _ => panic!("index expected"),
    }
    match parse_command(&args(&["query", "--query", "ls", "--limit", "100"])).unwrap() {
        RetrievalCommand::Query(a) => {
            assert_eq!(a.query, "ls");
            assert_eq!(a.limit, 100);
            assert_eq!(a.max_content_chars, 320);
            assert_eq!(query_request(&a).limit, 64);
        }
        _ => panic!("query expected"),
    }
    match parse_command(&args(&["query"])) {
        Err(RetrievalError::InvalidConfig(m)) => assert_eq!(m, "query requires --query <text>"),
        _ => panic!("query text is required"),
    }
    match parse_command(&args(&["query", "--limit", "x"])) {
        Err(RetrievalError::InvalidConfig(m)) => assert_eq!(m, "--limit must be an integer"),
        _ => panic!("limit must be a number"),
    }
    match parse_command(&args(&["search"])) {
        Err(RetrievalError::InvalidConfig(m)) => {
            assert_eq!(m, "unknown subcommand search; expected index or query")
        }
        _ => panic!("unknown subcommand"),
    }
    match parse_command(&args(&["index", "--config"])) {
        Err(RetrievalError::InvalidConfig(m)) => assert_eq!(m, "missing value for --config"),
        _ => panic!("missing value"),
    }
}

#[test]
fn allowlist_compares_whole_components() {
    let allow = Allowlist::for_canonical_root("/usr/share/doc".to_string());
    assert!(allow.contains_resolved("/usr/share/doc"));
    assert!(allow.contains_resolved("/usr/share/doc/bash/README"));
    assert!(allow.contains_resolved("/usr/share//doc/./bash"));
    assert!(!allow.contains_resolved("/usr/share/docs/bash"));
    assert!(!allow.contains_resolved("/usr/share"));
    assert!(!allow.contains_resolved("usr/share/doc/bash"));
}

fn citation(path: &str) -> Citation {
    Citation {
        source_name: "docs".to_string(),
        source_kind: SourceKind::Filesystem,
        path: path.to_string(),
        package_name: None,
        package_version: None,
        trust_label: "local".to_string(),
    }
}

#[test]
fn query_plans_and_router_context() {
    let engine = QueryEngine::new("/tmp/index.sqlite".to_string());
    assert_eq!(engine.index_path(), "/tmp/index.sqlite");
    let blank = QueryRequest { query: "   ".to_string(), limit: 5, max_content_chars: 100 };
    assert!(matches!(engine.check_query(&blank), Err(RetrievalError::EmptyQuery)));
    let request = QueryRequest { query: "ssh keys".to_string(), limit: 500, max_content_chars: 10 };
    assert!(engine.check_query(&request).is_ok());
    let plan = engine.plan(&request).unwrap();
    assert_eq!(plan.fts_query, to_safe_fts_query("ssh keys").unwrap());
    assert_eq!(plan.limit, 64);
    assert_eq!(plan.token_window, 12);
    let long = "x".repeat(100);
    let context = engine.query_router_context(
        &request,
        vec![("  short  ".to_string(), citation("/a")), (long, citation("/b"))],
    );
    assert_eq!(context.documents.len(), 2);
    assert_eq!(context.documents[0].bounded_content, "short");
    assert_eq!(context.documents[0].citation.path, "/a");
    assert_eq!(context.documents[1].bounded_content, format!("{}…", "x".repeat(64)));
    assert_eq!(context.documents[1].citation.path, "/b");
}

#[test]
fn rebuild_report_sums_the_sources() {
    let indexer = Indexer::new("/var/lib/sentia/retrieval/index.sqlite".to_string());
    let mut a = SourceReport::new("a".to_string(), SourceKind::Filesystem, "t".to_string(), vec![]);
    a.indexed_documents = 3;
    a.inserted = 2;
    a.updated = 1;
    a.skipped_budget = 1;
    a.skipped_unreadable = 2;
    let mut b = SourceReport::new("b".to_string(), SourceKind::DpkgStatus, "t".to_string(), vec![]);
    b.indexed_documents = 4;
    b.removed = 5;
    b.skipped_oversize = 1;
    b.skipped_outside_allowlist = 3;
    let config = RetrievalConfig {
        schema_version: 1,
        max_file_count: 10_000,
        max_file_bytes: 262_144,
        max_total_bytes: 64 * 1024 * 1024,
        max_query_results: 8,
        source: vec![source_named("a"), source_named("b")],
    };
    let report = indexer.rebuild(&config, vec![a.clone(), b.clone()]).unwrap();
    assert_eq!(report.index_path, "/var/lib/sentia/retrieval/index.sqlite");
    assert_eq!(report.indexed_total, 7);
    assert_eq!(report.inserted_total, 2);
    assert_eq!(report.updated_total, 1);
    assert_eq!(report.removed_total, 5);
    assert_eq!(report.skipped_total, 7);
    assert_eq!(report.max_file_count, config.max_file_count);
    assert_eq!(report.sources.len(), 2);

    // Reports out of order, or one missing, give no report.
    assert!(indexer.rebuild(&config, vec![b.clone(), a.clone()]).is_none());
    assert!(indexer.rebuild(&config, vec![a]).is_none());
}

fn source_named(name: &str) -> SourceConfig {
    SourceConfig {
        name: name.to_string(),
        kind: SourceKindConfig::Filesystem,
        trust_label: None,
        roots: vec![],
        path: None,
        allow_pages: vec![],
        include_extensions: vec![],
        max_depth: 4,
        allow_private_roots: false,
        package_name: None,
        package_version: None,
    }
}

#[test]
fn index_permissions_are_checked() {
    assert!(check_index_permissions(false, 0o100640).is_ok());
    match check_index_permissions(false, 0o100664) {
        Err(RetrievalError::InsecureIndexPermissions(m)) => {
            assert_eq!(m, "index permissions must not be group/other writable (found 664)")
        }
        _ => panic!("group-writable index must be refused"),
    }
    match check_index_permissions(true, 0o600) {
        Err(RetrievalError::InsecureIndexPermissions(m)) => assert_eq!(m, "index path cannot be a symlink"),
        _ => panic!("symlink must be refused"),
    }
}

#[test]
fn dpkg_scan_names_documents_and_counts_refusals() {
    let text = "Package: vim\nStatus: install ok installed\nVersion: 9\nDescription: editor\n\n\
                Package: old\nStatus: deinstall ok config-files\nDescription: gone\n\n\
                Package: big\nStatus: install ok installed\nDescription: a much longer description of a package\n\n\
                Package: curl\nStatus: install ok installed\nVersion: 8\n";
    let mut budget = Budget::new(1, 1_000);
    let scan = dpkg_documents(text, "/var/lib/dpkg/status", &mut budget, 64);
    assert_eq!(scan.scanned, 4);
    assert_eq!(scan.documents.len(), 1);
    assert_eq!(scan.documents[0].path, "/var/lib/dpkg/status#vim");
    assert_eq!(scan.documents[0].package_name, "vim");
    assert_eq!(scan.documents[0].package_version, "9");
    assert_eq!(scan.documents[0].content, "Package: vim\nVersion: 9\nDescription: editor\n");
    // "big" is over 64 bytes; "curl" finds the one-document budget spent.
    assert_eq!(scan.skipped_oversize, 1);
    assert_eq!(scan.skipped_budget, 1);
    assert_eq!(budget.consumed_files, 1);
    assert_eq!(budget.consumed_bytes, scan.documents[0].content.len());
}

#[test]
fn manual_pages_are_read_plain_or_gunzipped() {
    let page = ".TH VIM 1\n.SH NAME\nvim \\- editor\n";
    let plain = manpage_document(page.as_bytes(), false).unwrap();
    assert_eq!(plain, sanitize_manpage(page));
    let mut encoder = flate2::write::GzEncoder::new(Vec::new(), flate2::Compression::default());
    std::io::Write::write_all(&mut encoder, page.as_bytes()).unwrap();
    let gz = encoder.finish().unwrap();
    assert_eq!(manpage_document(&gz, true).unwrap(), plain);
    assert!(manpage_document(page.as_bytes(), true).is_err());
    // Invalid UTF-8 in a plain page is replaced, not refused.
    let lossy = manpage_document(b"abc\xff\n", false).unwrap();
    assert_eq!(lossy, sanitize_manpage("abc\u{fffd}\n"));
}
