use opentunnel::scan::{
    candidate_ports, collect_open, parse_port, split_commas, well_known_ports, DiscoveredService,
};

fn ports(v: &[DiscoveredService]) -> Vec<u16> {
    v.iter().map(|s| s.port).collect()
}

#[test]
fn well_known_port_given_again_keeps_label() {
    let c = candidate_ports(Some("3000"));
    let hits: Vec<&DiscoveredService> = c.iter().filter(|s| s.port == 3000).collect();
    assert_eq!(hits.len(), 1);
    assert_eq!(hits[0].description, "React / Node.js");
    assert_eq!(c.len(), well_known_ports().len());
}

#[test]
fn extra_ports_are_added_once_as_custom() {
    let c = candidate_ports(Some(" 7000, abc,7000,70000,,+7001, 80"));
    let n = well_known_ports().len();
    assert_eq!(c.len(), n + 2);
    assert_eq!(c[n].port, 7000);
    assert_eq!(c[n].description, "custom");
    assert_eq!(c[n + 1].port, 7001);
    assert_eq!(c[n + 1].description, "custom");
}

#[test]
fn no_extra_ports_gives_well_known_table() {
    let c = candidate_ports(None);
    assert_eq!(c.len(), 17);
    assert_eq!(c[0].port, 80);
    assert_eq!(c[0].description, "HTTP");
    assert_eq!(c[16].port, 27017);
    assert_eq!(c[16].description, "MongoDB");
}

#[test]
fn port_tokens() {
    assert_eq!(parse_port("8080"), Some(8080));
    assert_eq!(parse_port(" 22 "), Some(22));
    assert_eq!(parse_port("+443"), Some(443));
    assert_eq!(parse_port("65535"), Some(65535));
    assert_eq!(parse_port("65536"), None);
    assert_eq!(parse_port("0065535"), Some(65535));
    assert_eq!(parse_port("-1"), None);
    assert_eq!(parse_port("+"), None);
    assert_eq!(parse_port(""), None);
    assert_eq!(parse_port("12a"), None);
    assert_eq!(parse_port("99999999999999999999"), None);
}

#[test]
fn commas_split_keeping_empty_pieces() {
    assert_eq!(split_commas("a,b,,c,"), vec!["a", "b", "", "c", ""]);
    assert_eq!(split_commas(""), vec![""]);
}

#[test]
fn open_services_come_sorted() {
    let cands = vec![
        DiscoveredService { port: 9000, description: "x".to_string() },
        DiscoveredService { port: 80, description: "y".to_string() },
        DiscoveredService { port: 5173, description: "z".to_string() },
        DiscoveredService { port: 443, description: "w".to_string() },
    ];
    let found = collect_open(&cands, &vec![true, true, false, true]);
    assert_eq!(ports(&found), vec![80, 443, 9000]);
    assert_eq!(found[2].description, "x");
    let none = collect_open(&cands, &vec![false, false, false, false]);
    assert!(none.is_empty());
}
