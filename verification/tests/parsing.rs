use user_agent_parser::UserAgentParser;

const RULES: &str = "user_agent_parsers:\n  - regex: '(Chrome)/(\\d+)\\.(\\d+)'\nos_parsers:\n  - regex: 'Windows NT (\\d+)\\.(\\d+)'\n    os_replacement: 'Windows'\n";

const AGENT: &str =
    "Mozilla/5.0 (Windows NT 10.0; Win64; x64) AppleWebKit/537.36 Chrome/115.0 Safari/537.36";

#[test]
fn parse_end_to_end() {
    let parser = UserAgentParser::from_str(RULES).unwrap();
    let rec = ua_fingerprint::parse(&parser, AGENT, "192.168.1.10");
    assert_eq!(rec.user_agent, Some(AGENT.to_string()));
    assert_eq!(rec.ip, Some("192.168.1.10".to_string()));
    assert!(rec.product.name.as_deref().unwrap().contains("Chrome"));
    assert!(rec.os.name.as_deref().unwrap().contains("Windows"));
    assert_eq!(rec.engine.patch_minor, None);
    let features = rec.build_features();
    for tok in ["fow:1", "fc:1", "faw:1", "ip4:192.168"] {
        assert!(features.iter().any(|t| t == tok), "missing {}", tok);
    }
    let fp = rec.fingerprint.clone().expect("fingerprint present");
    let fh = rec.hash.clone().expect("family hash present");
    assert_ne!(fp, fh);
    assert_eq!(rec.fingerprint, rec.fingerprint());
    assert_eq!(rec.hash, rec.hash());
}

#[test]
fn parse_empty_agent_yields_no_identifiers() {
    let parser = UserAgentParser::from_str(RULES).unwrap();
    let rec = ua_fingerprint::parse(&parser, "", "10.1.2.3");
    assert_eq!(rec.user_agent, None);
    assert_eq!(rec.fingerprint, None);
    assert_eq!(rec.hash, None);
    assert_eq!(rec.ip, Some("10.1.2.3".to_string()));
}
