use base64::Engine;
use opentunnel::api::{
    email_domain, find_account, new_access_app, response_result, tunnel_label, Account,
    CfApiError, CfResponse, ResponseError, Tunnel,
};
use opentunnel::dns::{cname_exists, cname_record, tunnel_cname, DnsRecord};
use opentunnel::i18n::Lang;
use opentunnel::ingress::{IngressRule, TunnelConfig};
use opentunnel::labels::{format_time, short_id, short_opt_id, truncate};
use opentunnel::secret::new_tunnel_secret;
use opentunnel::status::get_system_status;
use opentunnel::text::trim;

#[test]
fn trim_drops_unicode_white_space() {
    assert_eq!(trim("\u{3000} a b\u{2009}\n"), "a b");
    assert_eq!(trim("  "), "");
    assert_eq!(trim("x"), "x");
    assert_eq!(trim("\u{200b}x"), "\u{200b}x");
}

#[test]
fn short_ids() {
    assert_eq!(short_id("0123456789abcdef"), "01234567");
    assert_eq!(short_id("abc"), "abc");
    assert_eq!(short_opt_id(None), "-");
    assert_eq!(short_opt_id(Some("测试测试测试测试测试")), "测试测试测试测试");
}

#[test]
fn truncation() {
    assert_eq!(truncate("hello", 5), "hello");
    assert_eq!(truncate("hello world", 7), "hello..");
    assert_eq!(truncate("ab", 2), "ab");
    assert_eq!(truncate("abc", 2), "..");
}

#[test]
fn time_labels() {
    assert_eq!(format_time(Some("2026-02-07T10:25:27Z")), "2026-02-07 10:25");
    assert_eq!(format_time(Some("2026-02-07")), "2026-02-07");
    assert_eq!(format_time(None), "-");
}

fn rec(name: &str, ty: &str) -> DnsRecord {
    DnsRecord {
        id: "1".to_string(),
        name: name.to_string(),
        record_type: ty.to_string(),
        content: "c".to_string(),
        proxied: None,
        ttl: None,
    }
}

#[test]
fn cname_lookup_needs_name_and_type() {
    let recs = vec![rec("a.com", "A"), rec("b.com", "CNAME")];
    assert!(!cname_exists(&recs, "a.com"));
    assert!(cname_exists(&recs, "b.com"));
    assert!(!cname_exists(&recs, "c.com"));
}

#[test]
fn cname_record_points_at_tunnel() {
    assert_eq!(tunnel_cname("abc-123"), "abc-123.cfargotunnel.com");
    let r = cname_record("app.example.com", "abc-123");
    assert_eq!(r.record_type, "CNAME");
    assert_eq!(r.name, "app.example.com");
    assert_eq!(r.content, "abc-123.cfargotunnel.com");
    assert!(r.proxied);
    assert!(r.ttl.is_none());
}

#[test]
fn response_outcomes() {
    let ok = CfResponse { success: true, result: Some(5u32), errors: vec![], result_info: None };
    assert_eq!(response_result(ok, 200).unwrap(), 5);
    let empty: CfResponse<u32> =
        CfResponse { success: true, result: None, errors: vec![], result_info: None };
    assert!(matches!(response_result(empty, 200), Err(ResponseError::EmptyResult { status: 200 })));
    let refused: CfResponse<u32> = CfResponse {
        success: false,
        result: None,
        errors: vec![
            CfApiError { code: 10000, message: "Authentication error".to_string() },
            CfApiError { code: 1, message: "other".to_string() },
        ],
        result_info: None,
    };
    match response_result(refused, 403) {
        Err(ResponseError::Api { code, message }) => {
            assert_eq!(code, 10000);
            assert_eq!(message, "Authentication error");
        }
        other => panic!("unexpected {:?}", other),
    }
    let bare: CfResponse<u32> =
        CfResponse { success: false, result: Some(1), errors: vec![], result_info: None };
    assert!(matches!(response_result(bare, 500), Err(ResponseError::Status { status: 500 })));
}

#[test]
fn tunnel_pick_line() {
    let t = Tunnel {
        id: "0123456789".to_string(),
        name: "home".to_string(),
        created_at: None,
        status: Some("healthy".to_string()),
    };
    assert_eq!(tunnel_label(&t), "home (01234567) [healthy]");
    let u = Tunnel { status: None, ..t };
    assert_eq!(tunnel_label(&u), "home (01234567) [-]");
}

#[test]
fn account_lookup() {
    let accts = vec![
        Account { id: "a1".to_string(), name: "One".to_string() },
        Account { id: "a2".to_string(), name: "Two".to_string() },
    ];
    assert_eq!(find_account(&accts, "a2"), Some(1));
    assert_eq!(find_account(&accts, "a3"), None);
}

#[test]
fn email_domains() {
    assert_eq!(email_domain("user@example.com"), "example.com");
    assert_eq!(email_domain("@example.com"), "example.com");
    assert_eq!(email_domain("example.com"), "example.com");
    assert_eq!(email_domain("a@b@c"), "b@c");
}

#[test]
fn access_app_is_self_hosted() {
    let a = new_access_app("App", "app.example.com", "24h");
    assert_eq!(a.app_type, "self_hosted");
    assert_eq!(a.session_duration, "24h");
}

#[test]
fn status_lists_what_is_missing() {
    let cfg = TunnelConfig {
        tunnel: "abc".to_string(),
        credentials_file: "f".to_string(),
        ingress: vec![
            IngressRule {
                hostname: Some("a.com".to_string()),
                service: "s".to_string(),
                origin_request: None,
            },
            IngressRule {
                hostname: None,
                service: "http_status:404".to_string(),
                origin_request: None,
            },
        ],
    };
    let s = get_system_status(Lang::En, false, true, true, false, Some(&cfg));
    assert_eq!(s.tunnel_name.as_deref(), Some("abc"));
    assert_eq!(s.mappings_count, 1);
    assert!(s.service_running);
    assert_eq!(
        s.warnings,
        vec![
            "cloudflared is not installed or not in PATH".to_string(),
            "API not configured. Run `tunnel config set`".to_string(),
        ]
    );
    let z = get_system_status(Lang::Zh, true, false, false, true, None);
    assert_eq!(z.warnings, vec!["隧道配置文件不存在".to_string()]);
    assert!(z.tunnel_name.is_none());
    assert_eq!(z.mappings_count, 0);
}

#[test]
fn secret_is_base64_of_32_bytes() {
    let s = new_tunnel_secret();
    assert_eq!(s.len(), 44);
    let bytes = base64::engine::general_purpose::STANDARD.decode(&s).unwrap();
    assert_eq!(bytes.len(), 32);
    assert_ne!(new_tunnel_secret(), s);
}
