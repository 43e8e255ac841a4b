use ua_fingerprint::model::{Product, OS, Device, CPU, Engine};
use ua_fingerprint::{UserAgent, build_record};

fn sample_record() -> UserAgent {
    let mut ua = UserAgent::new();
    ua.product = Product {
        name: Some("Chrome".to_string()),
        major: Some("115".to_string()),
        minor: Some("0".to_string()),
        patch: None,
    };
    ua.os = OS {
        name: Some("Windows".to_string()),
        major: Some("10".to_string()),
        minor: Some("0".to_string()),
        patch: None,
        patch_minor: None,
    };
    ua.ip = Some("192.168.1.10".to_string());
    ua.user_agent = Some(
        "Mozilla/5.0 (Windows NT 10.0; Win64; x64) AppleWebKit/537.36 Chrome/115.0 Safari/537.36"
            .to_string(),
    );
    ua
}

#[test]
fn new_record_is_empty() {
    let ua = UserAgent::new();
    assert_eq!(ua.ip, None);
    assert_eq!(ua.fingerprint, None);
    assert_eq!(ua.hash, None);
    assert_eq!(ua.user_agent, None);
    assert_eq!(ua.product.name, None);
    assert_eq!(ua.os.name, None);
    assert_eq!(ua.device.name, None);
    assert_eq!(ua.cpu.architecture, None);
    assert_eq!(ua.engine.name, None);
}

#[test]
fn absent_agent_gives_no_identifiers() {
    let mut ua = sample_record();
    ua.user_agent = None;
    assert_eq!(ua.fingerprint(), None);
    assert_eq!(ua.hash(), None);
    assert_eq!(ua.normalized_string(), None);
}

#[test]
fn empty_agent_is_normalized_to_absent() {
    let rec = build_record(
        Product::default(),
        OS::default(),
        Device::default(),
        CPU::default(),
        Engine::default(),
        "".to_string(),
        "10.0.0.1".to_string(),
    );
    assert_eq!(rec.user_agent, None);
    assert_eq!(rec.fingerprint, None);
    assert_eq!(rec.hash, None);
    assert_eq!(rec.ip, Some("10.0.0.1".to_string()));
}

#[test]
fn derivations_are_deterministic() {
    let ua = sample_record();
    let f1 = ua.fingerprint();
    let f2 = ua.fingerprint();
    let h1 = ua.hash();
    let h2 = ua.hash();
    assert!(f1.is_some());
    assert!(h1.is_some());
    assert_eq!(f1, f2);
    assert_eq!(h1, h2);
    let twin = sample_record();
    assert_eq!(twin.fingerprint(), f1);
    assert_eq!(twin.hash(), h1);
}

#[test]
fn canonical_string_layout() {
    let ua = sample_record();
    let raw = ua.user_agent.clone().unwrap();
    let normalized = ua.normalized_string().unwrap();
    assert_eq!(normalized, format!("Chrome.115.0|Windows.10.0|{}", raw));
    assert!(normalized.ends_with(&raw));
    assert!(!normalized.is_empty());
}

#[test]
fn canonical_string_with_no_groups_is_raw_agent() {
    let mut ua = UserAgent::new();
    ua.user_agent = Some("curl/8.0".to_string());
    assert_eq!(ua.normalized_string(), Some("curl/8.0".to_string()));
}

#[test]
fn canonical_string_keeps_version_without_name() {
    let mut ua = UserAgent::new();
    ua.product.major = Some("9".to_string());
    ua.user_agent = Some("mystery".to_string());
    assert_eq!(ua.normalized_string(), Some("9|mystery".to_string()));
}

#[test]
fn family_hash_is_one_blake3_pass_over_canonical() {
    let ua = sample_record();
    let normalized = ua.normalized_string().unwrap();
    let expected = blake3::hash(normalized.as_bytes()).to_hex().to_string();
    assert_eq!(ua.hash(), Some(expected));
}

#[test]
fn fingerprint_is_double_blake3_over_joined_features() {
    let ua = sample_record();
    let features = ua.build_features();
    let joined = features.join("&%&");
    let first = blake3::hash(joined.as_bytes()).to_hex().to_string();
    let expected = blake3::hash(first.as_bytes()).to_hex().to_string();
    assert_eq!(ua.fingerprint(), Some(expected));
    let fp = ua.fingerprint().unwrap();
    assert_eq!(fp.len(), 64);
    assert!(fp.chars().all(|c| c.is_ascii_hexdigit()));
}

#[test]
fn fingerprint_and_hash_differ() {
    let ua = sample_record();
    assert_ne!(ua.fingerprint(), ua.hash());
}

#[test]
fn feature_vector_is_sorted_and_holds_expected_tokens() {
    let ua = sample_record();
    let features = ua.build_features();
    for w in features.windows(2) {
        assert!(w[0] <= w[1]);
    }
    for tok in ["b:Chrome", "bv:115", "bvm:115.0", "o:Windows", "ov:10", "ovm:10.0", "fow:1",
        "fc:1", "faw:1", "ip4:192.168"] {
        assert!(features.iter().any(|t| t == tok), "missing {}", tok);
    }
    assert!(!features.iter().any(|t| t == "fs:1"));
    assert!(!features.iter().any(|t| t == "fom:1"));
}

#[test]
fn stat_tokens_have_exact_values() {
    let mut ua = UserAgent::new();
    ua.user_agent = Some("ab 12!".to_string());
    let features = ua.build_features();
    for tok in ["l:6", "d:2", "s:2", "w:2"] {
        assert!(features.iter().any(|t| t == tok), "missing {}", tok);
    }
}

#[test]
fn digit_count_token_coexists_with_device_name_token() {
    let mut ua = UserAgent::new();
    ua.device = Device {
        name: Some("Pixel".to_string()),
        brand: None,
        model: None,
    };
    ua.user_agent = Some("v42".to_string());
    let features = ua.build_features();
    assert!(features.iter().any(|t| t == "d:Pixel"));
    assert!(features.iter().any(|t| t == "d:2"));
}

#[test]
fn device_brand_and_model_tokens_need_no_name() {
    let mut ua = UserAgent::new();
    ua.device = Device {
        name: None,
        brand: Some("Acme".to_string()),
        model: Some("Z1".to_string()),
    };
    ua.user_agent = Some("agent".to_string());
    let features = ua.build_features();
    assert!(features.iter().any(|t| t == "db:Acme"));
    assert!(features.iter().any(|t| t == "dm:Z1"));
    assert!(!features.iter().any(|t| t == "d:Acme"));
}

#[test]
fn safari_without_chrome_sets_safari_flag() {
    let mut ua = UserAgent::new();
    ua.user_agent = Some("Mozilla/5.0 Macintosh Safari/605.1.15".to_string());
    let features = ua.build_features();
    assert!(features.iter().any(|t| t == "fs:1"));
    assert!(!features.iter().any(|t| t == "fc:1"));
}

#[test]
fn safari_with_chrome_sets_chrome_flag_only() {
    let mut ua = UserAgent::new();
    ua.user_agent = Some("AppleWebKit Chrome/1.0 Safari/537.36".to_string());
    let features = ua.build_features();
    assert!(features.iter().any(|t| t == "fc:1"));
    assert!(!features.iter().any(|t| t == "fs:1"));
}

#[test]
fn platform_chain_prefers_windows_over_mac() {
    let mut ua = UserAgent::new();
    ua.user_agent = Some("Win and Mac and Linux".to_string());
    let features = ua.build_features();
    assert!(features.iter().any(|t| t == "fow:1"));
    assert!(!features.iter().any(|t| t == "fom:1"));
    assert!(!features.iter().any(|t| t == "fol:1"));
}

#[test]
fn network_prefix_tokens() {
    let mut ua = UserAgent::new();
    ua.user_agent = Some("agent".to_string());
    ua.ip = Some("203.0.113.7".to_string());
    let features = ua.build_features();
    assert!(features.iter().any(|t| t == "ip4:203.0"));
    assert!(!features.iter().any(|t| t == "ip4:113.7"));

    ua.ip = Some("2001:db8:85a3:0:0:0:0:1".to_string());
    let features = ua.build_features();
    assert!(features.iter().any(|t| t == "ip6:2001:db8:85a3:0"));

    ua.ip = Some("localhost".to_string());
    let features = ua.build_features();
    assert!(!features.iter().any(|t| t.starts_with("ip4:") || t.starts_with("ip6:")));

    ua.ip = None;
    let features = ua.build_features();
    assert!(!features.iter().any(|t| t.starts_with("ip4:") || t.starts_with("ip6:")));
}

#[test]
fn changing_os_major_changes_features_and_fingerprint() {
    let a = sample_record();
    let mut b = sample_record();
    b.os.major = Some("11".to_string());
    assert_ne!(a.build_features(), b.build_features());
    assert_ne!(a.fingerprint(), b.fingerprint());
}
