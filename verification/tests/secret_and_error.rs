use config_vault::error::push_decimal;
use config_vault::{Secret, VaultError};

#[test]
fn new_secret_is_empty() {
    let secret = Secret::new();
    assert!(secret.is_empty());
    assert_eq!(secret.len(), 0);
    assert_eq!(secret.get("a"), None);
    assert!(secret.into_pairs().is_empty());
}

#[test]
fn insert_adds_a_key() {
    let mut secret = Secret::new();
    secret.insert("a".to_string(), "1".to_string());
    secret.insert("b".to_string(), "2".to_string());
    assert_eq!(secret.len(), 2);
    assert!(!secret.is_empty());
    assert_eq!(secret.get("a"), Some(&"1".to_string()));
    assert_eq!(secret.get("b"), Some(&"2".to_string()));
    assert_eq!(secret.get("c"), None);
}

#[test]
fn insert_replaces_the_value_of_a_key() {
    let mut secret = Secret::new();
    secret.insert("a".to_string(), "1".to_string());
    secret.insert("b".to_string(), "2".to_string());
    secret.insert("a".to_string(), "3".to_string());
    assert_eq!(secret.len(), 2);
    assert_eq!(secret.get("a"), Some(&"3".to_string()));
    assert_eq!(secret.get("b"), Some(&"2".to_string()));
    let mut pairs = secret.into_pairs();
    pairs.sort();
    assert_eq!(pairs, vec![("a".to_string(), "3".to_string()), ("b".to_string(), "2".to_string())]);
}

#[test]
fn decimal_digits_of_a_status() {
    for (number, digits) in [
        (0u16, "0"),
        (7, "7"),
        (10, "10"),
        (403, "403"),
        (999, "999"),
        (1000, "1000"),
        (65535, "65535"),
    ] {
        let mut text = String::from("status ");
        push_decimal(&mut text, number);
        assert_eq!(text, format!("status {}", digits));
    }
}

#[test]
fn message_of_a_remote_error_includes_the_status() {
    let message = VaultError::RemoteError { status: 403 }.message();
    assert_eq!(message, "Failed to fetch secret from Vault (wrong kv version?): 403");
    assert!(VaultError::RemoteError { status: 404 }.message().contains("404"));
}

#[test]
fn message_of_each_error() {
    assert_eq!(VaultError::InvalidAddress.message(), "Invalid Vault address URL");
    assert_eq!(VaultError::NonHierarchicalAddress.message(), "Vault address URL cannot be a base");
    assert_eq!(VaultError::TransportError.message(), "Failed to reach Vault");
    assert_eq!(VaultError::MalformedResponse.message(), "Vault response is not valid JSON");
    assert_eq!(
        VaultError::MissingPayload.message(),
        "Vault response holds no secret data (wrong kv version?)"
    );
    assert_eq!(
        VaultError::UnsupportedValueType.message(),
        "Vault secret holds a value that is not a string"
    );
}
