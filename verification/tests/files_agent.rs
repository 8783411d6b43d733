use swal_files::files_agent::client::{
    check_client_config, check_event_action, endpoint_url, SyncAction, XavierClientConfig, XavierClientError,
};
use swal_files::files_agent::graph::{extract_rust_dependencies, EdgeKind, GraphNode};
use swal_files::files_agent::query::{FileMetadata, NlQueryParser, ParsedQuery, SortDirection, SortField};
use swal_files::files_agent::tagger::{snippet_of, wants_snippet, AutoTagger, Tag, TagCategory, TagColor, TagRule, TaggerError};

/// Size operands in bytes, as the query parser's callers compute them.
fn size_in_bytes(s: &str) -> Option<u64> {
    let s = s.to_lowercase();
    if let Some(num) = s.strip_suffix("gb") {
        num.parse::<f64>().ok().map(|n| (n * 1024.0 * 1024.0 * 1024.0) as u64)
    } else if let Some(num) = s.strip_suffix("mb") {
        num.parse::<f64>().ok().map(|n| (n * 1024.0 * 1024.0) as u64)
    } else if let Some(num) = s.strip_suffix("kb") {
        num.parse::<f64>().ok().map(|n| (n * 1024.0) as u64)
    } else if let Some(num) = s.strip_suffix('b') {
        num.parse::<u64>().ok()
    } else {
        s.parse::<u64>().ok()
    }
}

fn parse_query(q: &str) -> ParsedQuery {
    let sizes: Vec<Option<u64>> = NlQueryParser::size_operands(q)
        .into_iter()
        .map(|o| o.and_then(|s| size_in_bytes(&s)))
        .collect();
    NlQueryParser::parse_with_sizes(q, &sizes)
}

// ---------------------------------------------------------------- query

#[test]
fn test_nl_query_parser_basic() {
    let query = parse_query("ext:pdf larger than 5MB #work -draft \"annual report\"");

    assert_eq!(query.extensions, vec!["pdf"]);
    assert_eq!(query.min_size, Some(5 * 1024 * 1024));
    assert_eq!(query.tags, vec!["work"]);
    assert_eq!(query.excluded_terms, vec!["draft"]);
    assert_eq!(query.exact_phrases, vec!["annual report"]);
}

#[test]
fn test_nl_query_parser_types_and_sort() {
    let query = parse_query("type:image size<1MB sort:size order:desc");

    assert_eq!(query.categories, vec![TagCategory::Image]);
    assert_eq!(query.max_size, Some(1024 * 1024));
    assert_eq!(query.sort_by, Some(SortField::Size));
    assert_eq!(query.sort_direction, SortDirection::Descending);
}

#[test]
fn test_parsed_query_matching() {
    let query = parse_query("ext:rs #code -temp");

    let rust_tag = Tag::new("code-rs", "code", TagColor::Orange, TagCategory::Code);

    let match_meta = FileMetadata {
        path: "main.rs".to_string(),
        size: 500,
        modified: Some((1_700_000_000, 0)),
        tags: vec![rust_tag.clone()],
        content_snippet: Some("fn main() {}".into()),
    };

    assert!(query.matches(&match_meta));

    let non_match_meta = FileMetadata {
        path: "main_temp.rs".to_string(),
        size: 500,
        modified: Some((1_700_000_000, 0)),
        tags: vec![rust_tag],
        content_snippet: None,
    };

    assert!(!query.matches(&non_match_meta));
}

#[test]
fn query_size_operands_line_up_with_tokens() {
    let ops = NlQueryParser::size_operands("big size>10kb files");
    assert_eq!(ops.len(), 3);
    assert_eq!(ops[1], Some("10kb".to_string()));
    assert_eq!(ops[0], None);
    let q = parse_query("big size>10kb files");
    assert_eq!(q.min_size, Some(10240));
    assert_eq!(q.text_search, Some("big files".to_string()));
}

#[test]
fn query_timeframe_and_clock_free_matching() {
    let q = parse_query("modified: week");
    assert_eq!(q.modified_within, Some(7 * 24 * 3600));
    let meta = FileMetadata {
        path: "a.txt".to_string(),
        size: 1,
        modified: Some((1_000, 0)),
        tags: vec![],
        content_snippet: None,
    };
    let day = 24 * 3600 * 1_000_000_000i128;
    assert!(q.matches_at(&meta, 1_000 * 1_000_000_000 + day));
    assert!(!q.matches_at(&meta, 1_000 * 1_000_000_000 + 8 * day));
    assert_eq!(NlQueryParser::parse_timeframe(&"month".chars().collect()), Some(30 * 24 * 3600));
    assert_eq!(NlQueryParser::parse_timeframe(&"x".chars().collect()), None);
}

// ---------------------------------------------------------------- tagger

#[test]
fn default_rules_tag_by_extension() {
    let tagger = AutoTagger::new();
    let tags = tagger.tags_for("/tmp/x.rs", Some(10), None);
    assert!(tags.iter().any(|t| t.id == "code-rs"));
    let tags = tagger.tags_for("/tmp/pic.PNG", None, None);
    assert!(tags.iter().any(|t| t.category == TagCategory::Image));
}

#[test]
fn tag_rule_matching() {
    let rule = TagRule::new(Tag::new("big", "Big", TagColor::Red, TagCategory::Media))
        .with_size_range(Some(100), Some(200))
        .with_keywords(&["secret"]);
    // A size within the range decides on its own.
    assert!(rule.matches("/a/b.bin", Some(150), Some("public")));
    assert!(!rule.matches("/a/b.bin", Some(50), Some("secret")));
    // Without a size, the keywords decide.
    assert!(rule.matches("/a/b.bin", None, Some("top SECRET stuff")));
    assert!(!rule.matches("/a/b.bin", None, Some("public")));
    let mut tagger = AutoTagger::with_rules(vec![]);
    tagger.add_rule(rule);
    assert_eq!(tagger.tags_for("/a/b.bin", Some(150), Some("secret")).len(), 1);
}

#[test]
fn tagger_error_messages() {
    assert_eq!(TaggerError::FileNotFound("/x".into()).to_string(), "File not found: /x");
    assert_eq!(TaggerError::ParseError("bad".into()).to_string(), "Parse error: bad");
}

// ---------------------------------------------------------------- graph

#[test]
fn test_graph_node_creation() {
    let node = GraphNode::new("/home/user/project/src/main.rs", false);
    assert_eq!(node.label, "main.rs");
    assert_eq!(node.file_extension, Some("rs".to_string()));
    assert!(!node.is_directory);
}

#[test]
fn test_file_dependency_graph_building() {
    let rust_code = "\
pub mod scanner;
pub mod types;
use crate::types::FileEntry;
";
    let edges = extract_rust_dependencies("/home/user/project/src/lib.rs", rust_code);
    assert_eq!(edges.len(), 3);
    assert_eq!(edges[0], ("/home/user/project/src/scanner".to_string(), EdgeKind::Import));
    assert_eq!(edges[2], ("crate::types::FileEntry".to_string(), EdgeKind::TypeReference));
}

// ---------------------------------------------------------------- client

#[test]
fn test_client_config_default() {
    let config = XavierClientConfig::default();
    assert_eq!(config.api_base_url, "http://127.0.0.1:8080");
    assert_eq!(config.ws_url, "ws://127.0.0.1:8080/ws");
    assert!(config.auth_token.is_none());
    assert_eq!(config.timeout_ms, 5000);
}

#[test]
fn client_test_error_formatting() {
    let err1 = XavierClientError::HttpError("connection refused".to_string());
    assert_eq!(err1.to_string(), "HTTP request failed: connection refused");

    let err2 = XavierClientError::ServerError { status: 404, message: "Not Found".to_string() };
    assert_eq!(err2.to_string(), "Server returned status 404: Not Found");
}

#[test]
fn test_client_creation_invalid_url() {
    let config = XavierClientConfig { api_base_url: "".to_string(), ..Default::default() };
    let res = check_client_config(&config);
    assert!(res.is_err());
    if let Err(XavierClientError::ConfigError(msg)) = res {
        assert!(msg.contains("API base URL cannot be empty"));
    } else {
        panic!("Expected ConfigError");
    }
    assert!(check_client_config(&XavierClientConfig::default()).is_ok());
}

#[test]
fn test_ws_message_non_event_action() {
    let res = check_event_action(SyncAction::Ping);
    assert!(res.is_err());
    if let Err(XavierClientError::WebSocketError(err)) = res {
        assert!(err.contains("Message action is not SyncAction::Event"));
    } else {
        panic!("Expected WebSocketError");
    }
    assert!(check_event_action(SyncAction::Event).is_ok());
}

#[test]
fn endpoint_urls() {
    assert_eq!(endpoint_url("http://h:1/", "/memory"), "http://h:1/memory");
    assert_eq!(endpoint_url("http://h:1", "/health"), "http://h:1/health");
}

#[test]
fn snippet_policy_for_tagging() {
    assert!(wants_snippet("/src/main.RS", 100));
    assert!(wants_snippet("notes.md", 65535));
    assert!(!wants_snippet("notes.md", 65536));
    assert!(!wants_snippet("image.png", 10));
    assert!(!wants_snippet("Makefile", 10));
    let long: String = std::iter::repeat('x').take(2000).collect();
    assert_eq!(snippet_of(&long).chars().count(), 1024);
    assert_eq!(snippet_of("short"), "short");
}
