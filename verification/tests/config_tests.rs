use bunnylol::config::BunnylolConfig;
use bunnylol::config::ServerConfig;

#[test]
fn test_default_config() {
    let config = BunnylolConfig::default();
    assert_eq!(config.browser, None);
    assert_eq!(config.default_search, "google");
    assert!(config.aliases.is_empty());
    assert!(config.history.enabled);
    assert_eq!(config.history.max_entries, 1000);
    assert_eq!(config.server.port, 8085);
    assert_eq!(config.server.address, "127.0.0.1");
    assert_eq!(config.server.log_level, "normal");
    assert_eq!(config.server.server_display_url, None);
}

#[test]
fn test_resolve_command_with_alias() {
    let mut config = BunnylolConfig::default();
    config
        .aliases
        .insert("work".to_string(), "gh mycompany".to_string());

    assert_eq!(config.resolve_command("work"), "gh mycompany");
    assert_eq!(config.resolve_command("ig"), "ig"); // No alias
}

#[test]
fn test_get_search_url_google() {
    let config = BunnylolConfig::default();
    let url = config.get_search_url("hello world");
    assert!(url.starts_with("https://www.google.com/search?q="));
    assert!(url.contains("hello"));
    assert!(url.contains("world"));
}

#[test]
fn test_get_search_url_ddg() {
    let mut config = BunnylolConfig::default();
    config.default_search = "ddg".to_string();
    let url = config.get_search_url("test query");
    assert!(url.starts_with("https://duckduckgo.com/?q="));
}

#[test]
fn test_get_search_url_bing() {
    let mut config = BunnylolConfig::default();
    config.default_search = "bing".to_string();
    let url = config.get_search_url("test query");
    assert!(url.starts_with("https://www.bing.com/search?q="));
}

#[test]
fn test_server_config_defaults() {
    let config = ServerConfig::default();
    assert_eq!(config.port, 8085);
    assert_eq!(config.address, "127.0.0.1");
    assert_eq!(config.log_level, "normal");
}

#[test]
fn test_server_display_url_defaults() {
    let config = ServerConfig::default();
    assert_eq!(config.server_display_url, None);
}

#[test]
fn test_get_display_url_with_domain() {
    let mut config = ServerConfig::default();
    config.server_display_url = Some("bunny.alichtman.com".to_string());
    assert_eq!(config.get_display_url(), "https://bunny.alichtman.com");
}

#[test]
fn test_get_display_url_with_https() {
    let mut config = ServerConfig::default();
    config.server_display_url = Some("https://bunny.example.com".to_string());
    assert_eq!(config.get_display_url(), "https://bunny.example.com");
}

#[test]
fn test_get_display_url_with_http() {
    let mut config = ServerConfig::default();
    config.server_display_url = Some("http://localhost:8085".to_string());
    assert_eq!(config.get_display_url(), "http://localhost:8085");
}

#[test]
fn test_get_display_url_fallback() {
    let config = ServerConfig::default();
    assert_eq!(config.get_display_url(), "http://localhost:8085");

    let mut config2 = ServerConfig::default();
    config2.port = 9000;
    assert_eq!(config2.get_display_url(), "http://localhost:9000");
}

#[test]
fn test_get_display_url_with_whitespace() {
    let mut config = ServerConfig::default();
    config.server_display_url = Some("  bunny.example.com  ".to_string());
    assert_eq!(config.get_display_url(), "https://bunny.example.com");
}

#[test]
fn test_get_display_url_localhost_bare() {
    let mut config = ServerConfig::default();
    config.server_display_url = Some("localhost".to_string());
    assert_eq!(config.get_display_url(), "http://localhost");
}

#[test]
fn test_get_display_url_localhost_with_port() {
    let mut config = ServerConfig::default();
    config.server_display_url = Some("localhost:8085".to_string());
    assert_eq!(config.get_display_url(), "http://localhost:8085");
}

#[test]
fn test_get_display_url_127_0_0_1() {
    let mut config = ServerConfig::default();
    config.server_display_url = Some("127.0.0.1".to_string());
    assert_eq!(config.get_display_url(), "http://127.0.0.1");
}

#[test]
fn test_get_display_url_127_0_0_1_with_port() {
    let mut config = ServerConfig::default();
    config.server_display_url = Some("127.0.0.1:8085".to_string());
    assert_eq!(config.get_display_url(), "http://127.0.0.1:8085");
}

#[test]
fn test_get_display_url_0_0_0_0() {
    let mut config = ServerConfig::default();
    config.server_display_url = Some("0.0.0.0:8085".to_string());
    assert_eq!(config.get_display_url(), "http://0.0.0.0:8085");
}

#[test]
fn alias_insert_overwrites_earlier_binding() {
    let mut config = BunnylolConfig::default();
    config
        .aliases
        .insert("work".to_string(), "gh old".to_string());
    config
        .aliases
        .insert("work".to_string(), "gh new".to_string());
    assert_eq!(config.resolve_command("work"), "gh new");
    assert!(!config.aliases.is_empty());
}

#[test]
fn search_url_encodes_query_exactly() {
    let config = BunnylolConfig::default();
    assert_eq!(
        config.get_search_url("hello world"),
        "https://www.google.com/search?q=hello%20world"
    );
    assert_eq!(
        config.get_search_url("a+b?"),
        "https://www.google.com/search?q=a%2Bb%3F"
    );
    assert_eq!(config.get_search_url(""), "https://www.google.com/search?q=");
}

#[test]
fn search_url_duckduckgo_alias_name() {
    let mut config = BunnylolConfig::default();
    config.default_search = "duckduckgo".to_string();
    assert_eq!(
        config.get_search_url("tw"),
        "https://duckduckgo.com/?q=tw"
    );
}

#[test]
fn history_path_ends_with_history_file() {
    if let Some(path) = BunnylolConfig::get_history_path() {
        assert!(path.ends_with("/history"));
    }
}
