use weather_signal::server::{
    conflicts_with_health_endpoints, is_loopback_host, needs_public_bind_warning,
    normalized_http_path,
};

#[test]
fn main_identifies_loopback_http_hosts() {
    assert!(is_loopback_host("127.0.0.1"));
    assert!(is_loopback_host("localhost"));
    assert!(is_loopback_host("::1"));
    assert!(!is_loopback_host("0.0.0.0"));
}

#[test]
fn mcp_identifies_loopback_http_hosts() {
    assert!(is_loopback_host("127.0.0.1"));
    assert!(is_loopback_host("localhost"));
    assert!(is_loopback_host("::1"));
    assert!(!is_loopback_host("0.0.0.0"));
}

#[test]
fn main_normalizes_http_paths() {
    assert_eq!(normalized_http_path("mcp"), "/mcp");
    assert_eq!(normalized_http_path("/mcp"), "/mcp");
    assert_eq!(normalized_http_path(""), "/");
    assert_eq!(normalized_http_path("   "), "/");
}

#[test]
fn mcp_normalizes_http_paths() {
    assert_eq!(normalized_http_path("mcp"), "/mcp");
    assert_eq!(normalized_http_path("/mcp"), "/mcp");
    assert_eq!(normalized_http_path(""), "/");
    assert_eq!(normalized_http_path("   "), "/");
}

#[test]
fn loopback_hosts_are_trimmed_and_exact() {
    assert!(is_loopback_host("  localhost\t"));
    assert!(!is_loopback_host("LOCALHOST"));
    assert!(!is_loopback_host("127.0.0.2"));
    assert!(needs_public_bind_warning("0.0.0.0"));
    assert!(!needs_public_bind_warning("::1"));
}

#[test]
fn http_paths_lose_surrounding_slashes() {
    assert_eq!(normalized_http_path("//mcp//"), "/mcp");
    assert_eq!(normalized_http_path(" /a/b/ "), "/a/b");
    assert_eq!(normalized_http_path("/"), "/");
    assert_eq!(normalized_http_path("//"), "/");
}

#[test]
fn health_paths_are_reserved() {
    assert!(conflicts_with_health_endpoints("/healthz"));
    assert!(conflicts_with_health_endpoints("/readyz"));
    assert!(!conflicts_with_health_endpoints("/mcp"));
    assert!(conflicts_with_health_endpoints(&normalized_http_path("healthz/")));
}

#[test]
fn normalising_twice_changes_nothing() {
    for path in ["mcp", "/mcp/", "//a/b//", "", "/", "///", "a/./b"] {
        let once = normalized_http_path(path);
        assert_eq!(normalized_http_path(&once), once, "{path:?}");
    }
}
