use agctl::config::{
    default_network, extract_region_from_arn, AgctlConfig, AliasStore, Metadata, RuntimeSpec, Spec,
};
use agctl::table::StringTable;

const KIRO_ARN: &str = "arn:aws:bedrock-agentcore:us-east-1:123456789012:runtime/kiro_coding_agent-ABC123";

fn spec_with_region(region: Option<&str>) -> RuntimeSpec {
    RuntimeSpec {
        metadata: Metadata { name: "kiro_coding_agent".to_string(), region: region.map(|r| r.to_string()) },
        spec: Spec {
            image: "img:latest".to_string(),
            role: "arn:aws:iam::123456789012:role/agentcore-kiro-role".to_string(),
            network: default_network(),
            filesystem: None,
            env: StringTable::new(),
        },
    }
}

#[test]
fn region_from_arn_is_fourth_field() {
    assert_eq!(extract_region_from_arn(KIRO_ARN), Some("us-east-1".to_string()));
    assert_eq!(extract_region_from_arn("arn:aws:svc:eu-west-2:1:x:y"), Some("eu-west-2".to_string()));
}

#[test]
fn region_from_arn_missing_or_empty() {
    assert_eq!(extract_region_from_arn("arn:aws:iam::123456789012:role/r"), None);
    assert_eq!(extract_region_from_arn("arn:aws:svc"), None);
    assert_eq!(extract_region_from_arn(""), None);
    assert_eq!(extract_region_from_arn("kiro"), None);
}

#[test]
fn region_from_arn_without_rest() {
    assert_eq!(extract_region_from_arn("a:b:c:d"), Some("d".to_string()));
}

#[test]
fn resolve_region_precedence() {
    let with_cfg = AgctlConfig { region: Some("ap-south-1".to_string()) };
    let empty = AgctlConfig::default();
    assert_eq!(with_cfg.resolve_region(Some("us-west-2"), Some(KIRO_ARN), Some("x"), Some("y")), "us-west-2");
    assert_eq!(with_cfg.resolve_region(None, Some(KIRO_ARN), Some("x"), Some("y")), "us-east-1");
    assert_eq!(with_cfg.resolve_region(None, Some("kiro"), Some("x"), Some("y")), "ap-south-1");
    assert_eq!(empty.resolve_region(None, Some("kiro"), Some("x"), Some("y")), "x");
    assert_eq!(empty.resolve_region(None, None, None, Some("y")), "y");
    assert_eq!(empty.resolve_region(None, None, None, None), "us-east-1");
}

#[test]
fn default_network_is_public() {
    assert_eq!(default_network(), "PUBLIC");
}

#[test]
fn spec_region_defaults() {
    assert_eq!(spec_with_region(None).region(), "us-east-1");
    assert_eq!(spec_with_region(Some("eu-central-1")).region(), "eu-central-1");
}

#[test]
fn resolve_alias_arn_and_unknown() {
    let mut store = AliasStore::new();
    store.aliases.insert("kiro".to_string(), KIRO_ARN.to_string());
    assert_eq!(store.resolve("kiro"), KIRO_ARN);
    assert_eq!(store.resolve("other"), "other");
    assert_eq!(store.resolve("arn:aws:x"), "arn:aws:x");
}

#[test]
fn resolve_arn_ignores_alias_of_same_name() {
    let mut store = AliasStore::default();
    store.aliases.insert("arn:aws:x".to_string(), "elsewhere".to_string());
    assert_eq!(store.resolve("arn:aws:x"), "arn:aws:x");
}

#[test]
fn resolve_after_remove_is_name() {
    let mut store = AliasStore::new();
    store.aliases.insert("kiro".to_string(), KIRO_ARN.to_string());
    assert!(store.aliases.remove("kiro"));
    assert_eq!(store.resolve("kiro"), "kiro");
    assert!(!store.aliases.remove("kiro"));
}

#[test]
fn resolving_twice_is_resolving_once() {
    let mut store = AliasStore::new();
    store.aliases.insert("kiro".to_string(), KIRO_ARN.to_string());
    for name in ["kiro", "other", KIRO_ARN] {
        let once = store.resolve(name);
        assert_eq!(store.resolve(&once), once);
    }
}
