use dyndns::{
    bearer, build_update_requests, cli_action, listing_url, pair_bindings, parse_trace,
    plan_cycle, record_url, update_body, Binding, CliAction, DiscoveryError,
};

fn args(v: &[&str]) -> Vec<String> {
    v.iter().map(|a| a.to_string()).collect()
}

fn binding(d: &str, id: &str) -> Binding {
    Binding { domain: d.to_string(), record_id: id.to_string() }
}

#[test]
fn trace_body_gives_ip() {
    assert_eq!(parse_trace("ip=203.0.113.7\nloc=XX\n").unwrap(), "203.0.113.7");
}

#[test]
fn trace_ip_line_in_the_middle_with_crlf() {
    assert_eq!(parse_trace("fl=1\r\nip=198.51.100.2\r\nloc=XX\r\n").unwrap(), "198.51.100.2");
}

#[test]
fn trace_without_ip_line_fails() {
    assert_eq!(parse_trace("loc=XX\nvisit_scheme=https\n"), Err(DiscoveryError::MissingIpLine));
    assert_eq!(parse_trace(""), Err(DiscoveryError::MissingIpLine));
    assert_eq!(parse_trace("xip=1.2.3.4\n"), Err(DiscoveryError::MissingIpLine));
}

#[test]
fn urls_and_headers() {
    assert_eq!(listing_url("z1"), "https://api.cloudflare.com/client/v4/zones/z1/dns_records/");
    assert_eq!(record_url("z1", "r9"), "https://api.cloudflare.com/client/v4/zones/z1/dns_records/r9");
    assert_eq!(bearer("abc"), "Bearer abc");
    assert_eq!(update_body("a.example.com", "1.2.3.4"), "{\"type\": \"A\", \"name\": \"a.example.com\", \"content\": \"1.2.3.4\"}");
}

#[test]
fn two_bindings_give_two_updates() {
    let bs = vec![binding("a.example.com", "r1"), binding("b.example.com", "r2")];
    let reqs = plan_cycle("z", &bs, "ip=203.0.113.7\nloc=XX\n").unwrap();
    assert_eq!(reqs.len(), 2);
    assert_eq!(reqs[0].url, "https://api.cloudflare.com/client/v4/zones/z/dns_records/r1");
    assert_eq!(reqs[0].body, "{\"type\": \"A\", \"name\": \"a.example.com\", \"content\": \"203.0.113.7\"}");
    assert_eq!(reqs[1].url, "https://api.cloudflare.com/client/v4/zones/z/dns_records/r2");
    assert_eq!(reqs[1].body, "{\"type\": \"A\", \"name\": \"b.example.com\", \"content\": \"203.0.113.7\"}");
    let again = plan_cycle("z", &bs, "ip=203.0.113.7\nloc=XX\n").unwrap();
    assert_eq!(again.len(), 2);
    assert_eq!(again[1].body, reqs[1].body);
}

#[test]
fn cycle_without_ip_sends_nothing() {
    let bs = vec![binding("a.example.com", "r1")];
    assert!(matches!(plan_cycle("z", &bs, "loc=XX\n"), Err(DiscoveryError::MissingIpLine)));
}

#[test]
fn no_bindings_no_updates() {
    assert_eq!(build_update_requests("z", "1.2.3.4", &Vec::new()).len(), 0);
}

#[test]
fn configured_ids_pair_by_position() {
    let bs = pair_bindings(&args(&["a.example.com", "b.example.com"]), &args(&["r1", "r2"]));
    assert_eq!(bs.len(), 2);
    assert_eq!((bs[0].domain.as_str(), bs[0].record_id.as_str()), ("a.example.com", "r1"));
    assert_eq!((bs[1].domain.as_str(), bs[1].record_id.as_str()), ("b.example.com", "r2"));
}

#[test]
fn version_flags() {
    assert!(matches!(cli_action(&args(&["prog", "-v"])), CliAction::ShowVersion));
    assert!(matches!(cli_action(&args(&["prog", "--version"])), CliAction::ShowVersion));
    assert!(matches!(cli_action(&args(&["prog", "--version", "-f"])), CliAction::ShowVersion));
    assert!(matches!(cli_action(&args(&["prog", "-v", "x"])), CliAction::LoadDefault));
}

#[test]
fn file_flag_and_default() {
    match cli_action(&args(&["prog", "-f", "/etc/dyndns.env"])) {
        CliAction::LoadFile(p) => assert_eq!(p, "/etc/dyndns.env"),
        other => panic!("unexpected {:?}", other),
    }
    assert!(matches!(cli_action(&args(&["prog"])), CliAction::LoadDefault));
    assert!(matches!(cli_action(&args(&["prog", "-f"])), CliAction::LoadDefault));
}

#[test]
fn body_strings_are_escaped() {
    assert_eq!(dyndns::escape_json("a\"b\\c\nd\u{1}"), "a\\\"b\\\\c\\u000ad\\u0001");
    assert_eq!(update_body("we\"ird", "1.2.3.4"), "{\"type\": \"A\", \"name\": \"we\\\"ird\", \"content\": \"1.2.3.4\"}");
}
