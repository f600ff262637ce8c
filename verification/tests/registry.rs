use chain_registry::chain::{is_valid_chain_id_str, ChainId};
use chain_registry::provider::{
    is_valid_endpoint_url, ProviderConfig, ProviderEndpoint, ProviderKind, ProviderRegistry,
};
use chain_registry::redbelly::{default_supported_chains, MonadConfig};
use chain_registry::weight::{InvalidWeight, Priority, Weight};

fn redbelly_registry() -> ProviderRegistry {
    let mut r = ProviderRegistry::new();
    r.register(MonadConfig::default());
    r.register_ws(MonadConfig::default());
    r
}

fn chain(s: &str) -> ChainId {
    ChainId::parse(s).unwrap()
}

fn endpoint(url: &str, p: Priority) -> ProviderEndpoint {
    ProviderEndpoint { url: String::from(url), weight: Weight::new(p).unwrap() }
}

#[test]
fn weight_values_follow_priorities() {
    assert_eq!(Weight::new(Priority::High).unwrap().value(), 100);
    assert_eq!(Weight::new(Priority::Normal).unwrap().value(), 50);
    assert_eq!(Weight::new(Priority::Low).unwrap().value(), 10);
}

#[test]
fn deprioritized_weight_is_invalid() {
    assert_eq!(Weight::new(Priority::Deprioritized), Err(InvalidWeight));
}

#[test]
fn chain_id_parsing() {
    let c = ChainId::parse("eip155:10").unwrap();
    assert_eq!(c.as_str(), "eip155:10");
    assert!(ChainId::parse("solana:5eykt4UsFv8P8NJdTREpY1vzqKqZKvdp").is_ok());
    assert!(ChainId::parse("eip155:").is_err());
    assert!(ChainId::parse("cosmos:hub").is_err());
    assert!(ChainId::parse("eip15510").is_err());
    assert!(ChainId::parse("").is_err());
}

#[test]
fn monad_config_tables() {
    let cfg = MonadConfig::default();
    assert_eq!(cfg.provider_kind(), ProviderKind::Redbelly);
    let chains = cfg.supported_chains();
    assert_eq!(chains.len(), 2);
    assert_eq!(chains[0].0.as_str(), "eip155:163");
    assert_eq!(chains[0].1.url, "https://governors.testnet.redbelly.network");
    assert_eq!(chains[0].1.weight.value(), 50);
    assert_eq!(chains[1].0.as_str(), "eip155:151");
    assert_eq!(chains[1].1.url, "https://governors.mainnet.redbelly.network");
    assert!(MonadConfig::default().supported_ws_chains().is_empty());
}

#[test]
fn provider_literals_conform() {
    for (c, ep) in default_supported_chains() {
        assert!(is_valid_chain_id_str(c.as_str()));
        assert!(is_valid_endpoint_url(ep.url.as_str()));
        assert!(Weight::new(Priority::Normal).is_ok());
        let w = ep.weight.value();
        assert!((1..=100).contains(&w));
    }
}

#[test]
fn url_validation() {
    assert!(is_valid_endpoint_url("https://example.org"));
    assert!(is_valid_endpoint_url("wss://example.org/ws"));
    assert!(!is_valid_endpoint_url("https://"));
    assert!(!is_valid_endpoint_url("ftp://example.org"));
    assert!(!is_valid_endpoint_url(""));
}

#[test]
fn select_returns_only_registered_endpoints() {
    let r = redbelly_registry();
    let c = chain("eip155:163");
    for rand in 0..200u64 {
        let ep = r.select(&c, &Vec::new(), rand).unwrap();
        assert_eq!(ep.url, "https://governors.testnet.redbelly.network");
    }
}

#[test]
fn select_unknown_chain_is_no_provider() {
    let r = redbelly_registry();
    assert!(r.select(&chain("eip155:1"), &Vec::new(), 7).is_err());
}

#[test]
fn select_with_everything_excluded_is_no_provider() {
    let r = redbelly_registry();
    let exclude = vec![String::from("https://governors.testnet.redbelly.network")];
    assert!(r.select(&chain("eip155:163"), &exclude, 3).is_err());
}

#[test]
fn select_skips_excluded_endpoints() {
    let mut r = ProviderRegistry::new();
    r.register_endpoint(chain("eip155:1"), endpoint("https://a.example", Priority::High));
    r.register_endpoint(chain("eip155:1"), endpoint("https://b.example", Priority::Low));
    let exclude = vec![String::from("https://a.example")];
    for rand in 0..50u64 {
        let ep = r.select(&chain("eip155:1"), &exclude, rand).unwrap();
        assert_eq!(ep.url, "https://b.example");
    }
}

#[test]
fn repeated_registration_overwrites() {
    let mut r = ProviderRegistry::new();
    r.register(MonadConfig::default());
    r.register(MonadConfig::default());
    let cs = r.chains();
    assert_eq!(cs.len(), 2);
    let mut texts: Vec<&str> = cs.iter().map(|c| c.as_str()).collect();
    texts.sort();
    assert_eq!(texts, vec!["eip155:151", "eip155:163"]);
}

#[test]
fn select_is_reproducible() {
    let mut r = ProviderRegistry::new();
    r.register_endpoint(chain("eip155:1"), endpoint("https://a.example", Priority::High));
    r.register_endpoint(chain("eip155:1"), endpoint("https://b.example", Priority::Normal));
    for rand in [0u64, 17, 99, 100, 12345678901234567] {
        let first = r.select(&chain("eip155:1"), &Vec::new(), rand).unwrap();
        let second = r.select(&chain("eip155:1"), &Vec::new(), rand).unwrap();
        assert_eq!(first, second);
    }
}

#[test]
fn weighted_windows_are_deterministic() {
    let mut r = ProviderRegistry::new();
    let c = chain("eip155:1");
    r.register_endpoint(chain("eip155:1"), endpoint("https://a.example", Priority::High));
    r.register_endpoint(chain("eip155:1"), endpoint("https://b.example", Priority::Normal));
    r.register_endpoint(chain("eip155:1"), endpoint("https://c.example", Priority::Low));
    let cases: [(u64, &str); 7] = [
        (0, "https://a.example"),
        (99, "https://a.example"),
        (100, "https://b.example"),
        (149, "https://b.example"),
        (150, "https://c.example"),
        (159, "https://c.example"),
        (160, "https://a.example"),
    ];
    for (rand, expected) in cases {
        assert_eq!(r.select(&c, &Vec::new(), rand).unwrap().url, expected);
    }
}

#[test]
fn registry_passes_startup_validation() {
    assert!(redbelly_registry().validate());
    let mut bad = ProviderRegistry::new();
    bad.register_endpoint(chain("eip155:1"), endpoint("not a url", Priority::High));
    assert!(!bad.validate());
}

#[test]
fn duplicate_vendor_registration_is_flagged() {
    let mut r = ProviderRegistry::new();
    r.register(MonadConfig::default());
    assert!(r.validate());
    r.register(MonadConfig::default());
    assert!(!r.validate());
}

#[test]
fn select_ws_on_vendor_without_streaming() {
    let r = redbelly_registry();
    assert!(r.select_ws(&chain("eip155:163"), &Vec::new(), 5).is_err());
}

#[test]
fn weighted_selection_fairness() {
    let mut r = ProviderRegistry::new();
    let c = chain("eip155:1");
    r.register_endpoint(chain("eip155:1"), endpoint("https://a.example", Priority::High));
    r.register_endpoint(chain("eip155:1"), endpoint("https://b.example", Priority::Normal));
    r.register_endpoint(chain("eip155:1"), endpoint("https://c.example", Priority::Low));
    let mut counts = [0u64; 3];
    let mut x: u64 = 0x2545F4914F6CDD1D;
    let n = 16000;
    for _ in 0..n {
        x = x.wrapping_mul(6364136223846793005).wrapping_add(1442695040888963407);
        let ep = r.select(&c, &Vec::new(), x >> 33).unwrap();
        match ep.url.as_str() {
            "https://a.example" => counts[0] += 1,
            "https://b.example" => counts[1] += 1,
            _ => counts[2] += 1,
        }
    }
    let expected = [100.0 / 160.0, 50.0 / 160.0, 10.0 / 160.0];
    for k in 0..3 {
        let freq = counts[k] as f64 / n as f64;
        assert!(
            (freq - expected[k]).abs() < 0.03,
            "endpoint {} selected with frequency {}, expected {}",
            k,
            freq,
            expected[k]
        );
    }
}
