use opentunnel::ingress::{
    add_mapping, configured_hostnames, default_ingress, localhost_url, mapping_count,
    merge_discovered, remove_mapping, IngressRule, MappingError, MergeOutcome, TunnelConfig,
};
use opentunnel::scan::DiscoveredService;

fn rule(h: Option<&str>, s: &str) -> IngressRule {
    IngressRule {
        hostname: h.map(|x| x.to_string()),
        service: s.to_string(),
        origin_request: None,
    }
}

fn shape(rules: &[IngressRule]) -> Vec<(Option<String>, String)> {
    rules
        .iter()
        .map(|r| (r.hostname.clone(), r.service.clone()))
        .collect()
}

fn start() -> Vec<IngressRule> {
    vec![rule(Some("a.com"), "s1"), rule(None, "http_status:404")]
}

#[test]
fn insert_keeps_catch_all_last() {
    let mut list = start();
    assert_eq!(add_mapping(&mut list, "b.com", "s2"), Ok(()));
    assert_eq!(
        shape(&list),
        shape(&[
            rule(Some("a.com"), "s1"),
            rule(Some("b.com"), "s2"),
            rule(None, "http_status:404"),
        ])
    );
}

#[test]
fn insert_duplicate_is_refused_unchanged() {
    let mut list = start();
    assert_eq!(
        add_mapping(&mut list, "a.com", "s2"),
        Err(MappingError::DuplicateHostname)
    );
    assert_eq!(shape(&list), shape(&start()));
}

#[test]
fn insert_into_empty_list() {
    let mut list: Vec<IngressRule> = Vec::new();
    assert_eq!(add_mapping(&mut list, "x.io", "http://localhost:80"), Ok(()));
    assert_eq!(shape(&list), shape(&[rule(Some("x.io"), "http://localhost:80")]));
}

#[test]
fn hostname_match_is_case_sensitive() {
    let mut list = start();
    assert_eq!(add_mapping(&mut list, "A.com", "s3"), Ok(()));
    assert_eq!(list.len(), 3);
    assert_eq!(
        remove_mapping(&mut list, "B.COM"),
        Err(MappingError::MappingNotFound)
    );
}

#[test]
fn remove_missing_is_refused_unchanged() {
    let mut list = start();
    assert_eq!(
        remove_mapping(&mut list, "zzz.com"),
        Err(MappingError::MappingNotFound)
    );
    assert_eq!(shape(&list), shape(&start()));
}

#[test]
fn remove_takes_exactly_the_rule() {
    let mut list = vec![
        rule(Some("a.com"), "s1"),
        rule(Some("b.com"), "s2"),
        rule(Some("c.com"), "s3"),
        rule(None, "http_status:404"),
    ];
    assert_eq!(remove_mapping(&mut list, "b.com"), Ok(()));
    assert_eq!(
        shape(&list),
        shape(&[
            rule(Some("a.com"), "s1"),
            rule(Some("c.com"), "s3"),
            rule(None, "http_status:404"),
        ])
    );
}

#[test]
fn insert_then_remove_round_trip() {
    let mut list = start();
    add_mapping(&mut list, "new.example.com", "http://localhost:8080").unwrap();
    remove_mapping(&mut list, "new.example.com").unwrap();
    assert_eq!(shape(&list), shape(&start()));
}

#[test]
fn catch_all_stays_last_over_edits() {
    let mut list = default_ingress();
    add_mapping(&mut list, "a.com", "s1").unwrap();
    add_mapping(&mut list, "b.com", "s2").unwrap();
    let _ = add_mapping(&mut list, "a.com", "s9");
    remove_mapping(&mut list, "a.com").unwrap();
    let _ = remove_mapping(&mut list, "nope");
    add_mapping(&mut list, "c.com", "s3").unwrap();
    let last = list.last().unwrap();
    assert!(last.hostname.is_none());
    assert_eq!(last.service, "http_status:404");
    let names: Vec<String> = list.iter().filter_map(|r| r.hostname.clone()).collect();
    assert_eq!(names, vec!["b.com".to_string(), "c.com".to_string()]);
}

#[test]
fn default_ingress_is_lone_catch_all() {
    assert_eq!(shape(&default_ingress()), shape(&[rule(None, "http_status:404")]));
}

#[test]
fn merge_skips_mapped_hostname() {
    let mut list = start();
    let svc = DiscoveredService {
        port: 5173,
        description: "Vite".to_string(),
    };
    assert_eq!(
        merge_discovered(&mut list, &svc, "a.com"),
        MergeOutcome::AlreadyMapped
    );
    assert_eq!(shape(&list), shape(&start()));
    assert_eq!(
        merge_discovered(&mut list, &svc, "vite.a.com"),
        MergeOutcome::Added
    );
    assert_eq!(
        shape(&list),
        shape(&[
            rule(Some("a.com"), "s1"),
            rule(Some("vite.a.com"), "http://localhost:5173"),
            rule(None, "http_status:404"),
        ])
    );
}

#[test]
fn edits_keep_origin_settings() {
    let settings = serde_json::Value::Bool(true);
    let mut list = vec![
        IngressRule {
            hostname: Some("a.com".to_string()),
            service: "s1".to_string(),
            origin_request: Some(settings.clone()),
        },
        rule(None, "http_status:404"),
    ];
    add_mapping(&mut list, "b.com", "s2").unwrap();
    remove_mapping(&mut list, "b.com").unwrap();
    assert_eq!(list[0].origin_request, Some(settings));
    assert!(list[1].origin_request.is_none());
}

#[test]
fn localhost_url_renders_port() {
    assert_eq!(localhost_url(3000), "http://localhost:3000");
    assert_eq!(localhost_url(0), "http://localhost:0");
    assert_eq!(localhost_url(65535), "http://localhost:65535");
    assert_eq!(
        localhost_url(8080),
        opentunnel::target::normalize_service_input("8080")
    );
}

#[test]
fn configured_hostnames_skip_catch_all() {
    let cfg = TunnelConfig {
        tunnel: "abc-123".to_string(),
        credentials_file: "/root/.cloudflared/abc-123.json".to_string(),
        ingress: vec![
            rule(Some("app.example.com"), "http://localhost:3000"),
            rule(Some("api.example.com"), "http://localhost:4000"),
            rule(None, "http_status:404"),
        ],
    };
    assert_eq!(
        configured_hostnames(&cfg),
        vec!["app.example.com".to_string(), "api.example.com".to_string()]
    );
    assert_eq!(mapping_count(&cfg.ingress), 2);
}
