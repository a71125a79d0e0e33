use opentunnel::target::{normalize_service_input, scheme_of, ServiceScheme};

#[test]
fn bare_port_becomes_localhost_url() {
    assert_eq!(normalize_service_input("3000"), "http://localhost:3000");
}

#[test]
fn url_with_scheme_is_kept() {
    assert_eq!(
        normalize_service_input("https://api.example.com"),
        "https://api.example.com"
    );
    assert_eq!(normalize_service_input("http_status:404"), "http_status:404");
    assert_eq!(normalize_service_input("unix:/tmp/s.sock"), "unix:/tmp/s.sock");
    assert_eq!(normalize_service_input("tcp://db:5432"), "tcp://db:5432");
}

#[test]
fn surrounding_space_is_dropped() {
    assert_eq!(normalize_service_input("  3000 \n"), "http://localhost:3000");
    assert_eq!(normalize_service_input("\t ssh://box:22 "), "ssh://box:22");
}

#[test]
fn empty_and_blank_input() {
    assert_eq!(normalize_service_input(""), "");
    assert_eq!(normalize_service_input("   "), "   ");
    assert_eq!(normalize_service_input(" \t\n"), " \t\n");
}

#[test]
fn host_and_port_get_http() {
    assert_eq!(normalize_service_input("localhost:8080"), "http://localhost:8080");
    assert_eq!(normalize_service_input("10.0.0.5:80"), "http://10.0.0.5:80");
    assert_eq!(normalize_service_input("myhost:"), "http://myhost:");
}

#[test]
fn other_shapes_are_kept() {
    assert_eq!(normalize_service_input(":8080"), ":8080");
    assert_eq!(normalize_service_input("/var/run:80"), "/var/run:80");
    assert_eq!(normalize_service_input("ftp://host:21"), "ftp://host:21");
    assert_eq!(normalize_service_input("host:port"), "host:port");
    assert_eq!(normalize_service_input("example.com"), "example.com");
}

#[test]
fn normalizing_twice_changes_nothing() {
    for raw in ["3000", " a:1 ", "x", "", "https://q", ":9", "host:", "  ", "rdp://w"] {
        let once = normalize_service_input(raw);
        assert_eq!(normalize_service_input(&once), once);
    }
}

#[test]
fn scheme_detection() {
    assert_eq!(scheme_of("https://x"), Some(ServiceScheme::Https));
    assert_eq!(scheme_of("http://x"), Some(ServiceScheme::Http));
    assert_eq!(scheme_of("rdp://x"), Some(ServiceScheme::Rdp));
    assert_eq!(scheme_of("HTTP://x"), None);
    assert_eq!(ServiceScheme::HttpStatus.token(), "http_status:");
}
