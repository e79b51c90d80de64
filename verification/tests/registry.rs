use compare_heads::error::AppError;
use compare_heads::provider::{registry, Provider};

#[test]
fn registry_lists_infura_then_bordel() {
    let providers = registry(Some("s3cr3t")).unwrap();
    assert_eq!(providers.len(), 2);
    assert_eq!(providers[0].name, "infura");
    assert_eq!(providers[0].url, "https://sepolia.infura.io/v3/s3cr3t");
    assert_eq!(providers[1].name, "bordel");
    assert_eq!(providers[1].url, "https://rpc.bordel.wtf/sepolia");
}

#[test]
fn registry_without_the_key_is_a_config_error() {
    assert_eq!(
        registry(None),
        Err(AppError::ConfigError { variable: "INFURA_KEY".to_string() })
    );
}

#[test]
fn empty_key_is_still_a_key() {
    let providers = registry(Some("")).unwrap();
    assert_eq!(providers.len(), 2);
    assert_eq!(providers[0].url, "https://sepolia.infura.io/v3/");
}

#[test]
fn key_enters_the_url_unchanged() {
    let provider = Provider::infura("a/b c?d");
    assert_eq!(provider.name, "infura");
    assert_eq!(provider.url, "https://sepolia.infura.io/v3/a/b c?d");
}

#[test]
fn bordel_needs_no_key() {
    let provider = Provider::bordel();
    assert_eq!(provider, Provider {
        name: "bordel".to_string(),
        url: "https://rpc.bordel.wtf/sepolia".to_string(),
    });
}

#[test]
fn provider_clone_is_equal() {
    let provider = Provider::infura("key");
    assert_eq!(provider.clone(), provider);
}
