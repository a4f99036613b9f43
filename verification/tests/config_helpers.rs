use llmparty::config::{default_graph_db_dir, get, parse_bool, parse_workspace_roots, AppConfig};
use llmparty::error::Error;

fn pairs(items: &[(&str, &str)]) -> Vec<(String, String)> {
    items.iter().map(|(k, v)| (k.to_string(), v.to_string())).collect()
}

fn invalid(r: Result<AppConfig, Error>) -> (String, String) {
    match r {
        Err(Error::InvalidConfig { key, message }) => (key, message),
        other => panic!("unexpected {other:?}"),
    }
}

#[test]
fn booleans_accept_the_usual_words_in_any_case() {
    for word in ["1", "true", "YES", "On"] {
        assert_eq!(parse_bool("K", word).unwrap(), true);
    }
    for word in ["0", "False", "no", "OFF"] {
        assert_eq!(parse_bool("K", word).unwrap(), false);
    }
    match parse_bool("LLMPARTY_RUN_MIGRATIONS", "maybe \"x\"") {
        Err(Error::InvalidConfig { key, message }) => {
            assert_eq!(key, "LLMPARTY_RUN_MIGRATIONS");
            assert_eq!(message, "expected boolean, got \"maybe \\\"x\\\"\"");
        }
        other => panic!("unexpected {other:?}"),
    }
}

#[test]
fn graph_dir_defaults_next_to_the_database_file() {
    assert_eq!(default_graph_db_dir("sqlite:///var/lib/x.db"), "/var/lib/graph/lbug");
    assert_eq!(default_graph_db_dir("x.db"), "./graph/lbug");
    assert_eq!(default_graph_db_dir("sqlite://data/x.db"), "data/graph/lbug");
}

#[test]
fn workspace_roots_parse_entries_and_reject_malformed_ones() {
    let roots = parse_workspace_roots("  a | A | /a ; ; b|B|/b ").unwrap();
    assert_eq!(roots.len(), 2);
    assert_eq!((roots[0].root_id.as_str(), roots[0].label.as_str(), roots[0].path.as_str()), ("a", "A", "/a"));
    assert_eq!(roots[1].path, "/b");
    assert!(parse_workspace_roots("   ").unwrap().is_empty());
    match parse_workspace_roots("a|b") {
        Err(Error::InvalidConfig { key, message }) => {
            assert_eq!(key, "LLMPARTY_WORKSPACE_ROOTS");
            assert_eq!(message, "expected entries formatted as root_id|label|path separated by semicolons");
        }
        other => panic!("unexpected {other:?}"),
    }
    match parse_workspace_roots("a| |c") {
        Err(Error::InvalidConfig { message, .. }) => {
            assert_eq!(message, "root_id, label, and path must be non-empty")
        }
        other => panic!("unexpected {other:?}"),
    }
}

#[test]
fn settings_are_looked_up_by_key() {
    let vars = pairs(&[("A", "1"), ("B", "2")]);
    assert_eq!(get(&vars, "B"), Some("2"));
    assert_eq!(get(&vars, "C"), None);
}

#[test]
fn malformed_settings_name_their_key() {
    let (key, message) = invalid(AppConfig::from_vars(&pairs(&[("LLMPARTY_PLANNER_TIMEOUT_MS", "soon")]), None));
    assert_eq!(key, "LLMPARTY_PLANNER_TIMEOUT_MS");
    assert_eq!(message, "invalid digit found in string");
    let (key, _) = invalid(AppConfig::from_vars(&pairs(&[("LLMPARTY_GRAPH_ENABLED", "perhaps")]), None));
    assert_eq!(key, "LLMPARTY_GRAPH_ENABLED");
}

#[test]
fn a_bad_listen_address_is_reported_first() {
    let vars = pairs(&[("LLMPARTY_BIND_ADDR", "not-an-address"), ("LLMPARTY_GRAPH_ENABLED", "perhaps")]);
    let (key, message) = invalid(AppConfig::from_vars(&vars, Some("invalid socket address syntax".to_string())));
    assert_eq!(key, "LLMPARTY_BIND_ADDR");
    assert_eq!(message, "invalid socket address syntax");
}

#[test]
fn blank_token_and_graph_dir_count_as_absent() {
    let c = AppConfig::from_vars(&pairs(&[
        ("LLMPARTY_EXTERNAL_API_TOKEN", "  "),
        ("LLMPARTY_GRAPH_ENABLED", "true"),
        ("LLMPARTY_GRAPH_DB_DIR", " "),
        ("LLMPARTY_DATABASE_URL", "sqlite://db/main.db"),
    ]), None)
    .unwrap();
    assert_eq!(c.external_api_token, None);
    assert_eq!(c.graph.db_dir.as_deref(), Some("db/graph/lbug"));
    assert_eq!(c.planner.timeout_ms, 30_000);
}

#[test]
fn graph_dir_follows_the_parent_of_the_database_file() {
    assert_eq!(default_graph_db_dir("sqlite:///tmp/llmparty/control.db"), "/tmp/llmparty/graph/lbug");
    assert_eq!(default_graph_db_dir("sqlite:///x.db"), "/graph/lbug");
    assert_eq!(default_graph_db_dir("sqlite://a//b//c.db"), "a//b/graph/lbug");
    assert_eq!(default_graph_db_dir("sqlite://./c.db"), "./graph/lbug");
}
