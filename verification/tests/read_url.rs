use config_vault::address::read_url;
use config_vault::{KvVersion, VaultError, VaultSource};

fn source(address: &str, mount: &str, path: &str) -> VaultSource {
    VaultSource::new(address.to_string(), "token".to_string(), mount.to_string(), path.to_string())
}

fn source_v1(address: &str, mount: &str, path: &str) -> VaultSource {
    VaultSource::new_v1(
        address.to_string(),
        "token".to_string(),
        mount.to_string(),
        path.to_string(),
    )
}

fn built(source: &VaultSource) -> Result<String, VaultError> {
    source.build_kv_read_url().expect("the URL is far below 4 GiB")
}

#[test]
fn url_of_a_versioned_secret() {
    let url = built(&source("http://127.0.0.1:8200", "secret", "dev"));
    assert_eq!(url, Ok("http://127.0.0.1:8200/v1/secret/data/dev".to_string()));
}

#[test]
fn url_of_an_unversioned_secret() {
    let url = built(&source_v1("http://127.0.0.1:8200", "secret", "dev"));
    assert_eq!(url, Ok("http://127.0.0.1:8200/v1/secret/dev".to_string()));
}

#[test]
fn url_ends_with_the_api_path() {
    for (mount, path) in [("secret", "dev"), ("kv", "app/prod-1"), ("team_a/kv", "a/b/c")] {
        let v2 = built(&source("https://vault.example.com:8200", mount, path)).unwrap();
        assert!(v2.ends_with(&format!("v1/{}/data/{}", mount, path)));
        let v1 = built(&source_v1("https://vault.example.com:8200", mount, path)).unwrap();
        assert!(v1.ends_with(&format!("v1/{}/{}", mount, path)));
    }
}

#[test]
fn trailing_slash_of_the_address_makes_no_difference() {
    let without = built(&source("http://h:8200", "secret", "dev"));
    let with = built(&source("http://h:8200/", "secret", "dev"));
    assert_eq!(without, with);
    assert_eq!(with, Ok("http://h:8200/v1/secret/data/dev".to_string()));
}

#[test]
fn trailing_slash_of_a_base_path_makes_no_difference() {
    let without = built(&source("http://h:8200/vault", "secret", "dev"));
    let with = built(&source("http://h:8200/vault/", "secret", "dev"));
    assert_eq!(without, with);
    assert_eq!(with, Ok("http://h:8200/vault/v1/secret/data/dev".to_string()));
}

#[test]
fn exactly_one_trailing_slash_is_stripped() {
    let url = built(&source("http://h:8200/vault//", "secret", "dev"));
    assert_eq!(url, Ok("http://h:8200/vault//v1/secret/data/dev".to_string()));
}

#[test]
fn malformed_address_is_invalid() {
    assert_eq!(built(&source("not a url", "secret", "dev")), Err(VaultError::InvalidAddress));
    assert_eq!(built(&source("", "secret", "dev")), Err(VaultError::InvalidAddress));
    assert_eq!(built(&source("//h:8200", "secret", "dev")), Err(VaultError::InvalidAddress));
    assert_eq!(built(&source("http://h:port", "secret", "dev")), Err(VaultError::InvalidAddress));
}

#[test]
fn address_without_hierarchy_is_refused() {
    assert_eq!(
        built(&source("mailto:ops@example.com", "secret", "dev")),
        Err(VaultError::NonHierarchicalAddress)
    );
    assert_eq!(
        built(&source("data:text/plain,vault", "secret", "dev")),
        Err(VaultError::NonHierarchicalAddress)
    );
}

#[test]
fn segments_are_percent_encoded() {
    let url = built(&source("http://h:8200", "team a", "50%/é?")).unwrap();
    assert_eq!(url, "http://h:8200/v1/team%20a/data/50%25/%C3%A9%3F");
}

#[test]
fn dot_segments_are_skipped() {
    let url = built(&source("http://h:8200/base", "..", "./dev")).unwrap();
    assert_eq!(url, "http://h:8200/base/v1/data/dev");
}

#[test]
fn query_and_fragment_of_the_address_are_dropped() {
    for address in [
        "http://h:8200/base/?ns=one#top",
        "http://h:8200/base?ns=one",
        "http://h:8200/base/#top",
        "http://h:8200/base?",
        "http://h:8200/base#",
    ] {
        let url = built(&source(address, "secret", "dev")).unwrap();
        assert_eq!(url, "http://h:8200/base/v1/secret/data/dev", "{}", address);
    }
}

#[test]
fn address_is_normalized_by_parsing() {
    let url = built(&source("HTTP://Vault.Example.COM:80/", "secret", "dev")).unwrap();
    assert_eq!(url, "http://vault.example.com/v1/secret/data/dev");
}

#[test]
fn plain_segments_are_appended_as_written() {
    let segments: Vec<String> = vec!["v1".into(), "secret".into(), "".into(), "dev_1-a".into()];
    for (address, expected) in [
        ("http://h", "http://h/v1/secret//dev_1-a"),
        ("http://h/", "http://h/v1/secret//dev_1-a"),
        ("http://h/a", "http://h/a/v1/secret//dev_1-a"),
        ("http://h/a/", "http://h/a/v1/secret//dev_1-a"),
        ("http://h/a//", "http://h/a//v1/secret//dev_1-a"),
        ("foo://h", "foo://h/v1/secret//dev_1-a"),
        ("unix:/run/vault", "unix:/run/vault/v1/secret//dev_1-a"),
        ("unix:/", "unix:/v1/secret//dev_1-a"),
        ("http://h/?q#f", "http://h/v1/secret//dev_1-a"),
        (
            "HTTPS://User:pw@H.example:8443/a/",
            "https://User:pw@h.example:8443/a/v1/secret//dev_1-a",
        ),
    ] {
        assert_eq!(read_url(address, &segments), Some(Ok(expected.to_string())), "{}", address);
    }
}

#[test]
fn read_url_takes_the_segments_in_order() {
    let segments: Vec<String> = vec!["b".into(), "a".into(), "c".into()];
    assert_eq!(read_url("http://h/x/", &segments), Some(Ok("http://h/x/b/a/c".to_string())));
    assert_eq!(read_url("http://h/x/", &Vec::new()), Some(Ok("http://h/x".to_string())));
}

#[test]
fn version_override_changes_the_url() {
    let mut source = source("http://h:8200", "secret", "dev");
    assert_eq!(source.kv_version(), KvVersion::V2);
    source.set_kv_version(KvVersion::V1);
    assert_eq!(source.kv_version(), KvVersion::V1);
    assert_eq!(built(&source), Ok("http://h:8200/v1/secret/dev".to_string()));
    source.set_kv_version(KvVersion::V2);
    assert_eq!(built(&source), Ok("http://h:8200/v1/secret/data/dev".to_string()));
}

#[test]
fn new_v1_reads_the_unversioned_engine() {
    assert_eq!(source_v1("http://h", "m", "p").kv_version(), KvVersion::V1);
    assert_eq!(source("http://h", "m", "p").kv_version(), KvVersion::V2);
}

#[test]
fn request_carries_the_token() {
    let source = VaultSource::new(
        "http://h:8200".to_string(),
        "hvs.EXAMPLE".to_string(),
        "secret".to_string(),
        "dev".to_string(),
    );
    let request = source.request().unwrap().unwrap();
    assert_eq!(request.url, "http://h:8200/v1/secret/data/dev");
    assert_eq!(request.header_name, "X-Vault-Token");
    assert_eq!(request.header_value, "hvs.EXAMPLE");
}

#[test]
fn request_fails_as_the_url_does() {
    let request = source("not a url", "secret", "dev").request().unwrap();
    assert_eq!(request.err(), Some(VaultError::InvalidAddress));
    let request = source("mailto:a@b", "secret", "dev").request().unwrap();
    assert_eq!(request.err(), Some(VaultError::NonHierarchicalAddress));
}

#[test]
fn file_address_takes_segments_too() {
    let url = built(&source("file:///srv/vault/", "secret", "dev")).unwrap();
    assert_eq!(url, "file:///srv/vault/v1/secret/data/dev");
}

#[test]
fn control_characters_in_segments_are_encoded_or_dropped() {
    let url = built(&source("http://h:8200", "a\tb", "c\u{1}d")).unwrap();
    assert_eq!(url, "http://h:8200/v1/ab/data/c%01d");
}
