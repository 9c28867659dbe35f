use config_vault::json::{decode, member, payload};
use config_vault::response::{check_status, extract_secret, flatten, read_body, read_response};
use config_vault::{Json, KvVersion, Reply, Secret, VaultError, VaultSource};

fn pairs(secret: Secret) -> Vec<(String, String)> {
    let mut pairs = secret.into_pairs();
    pairs.sort();
    pairs
}

fn pair(key: &str, value: &str) -> (String, String) {
    (key.to_string(), value.to_string())
}

fn text(value: &str) -> Json {
    Json::Text(value.to_string())
}

fn object(members: Vec<(&str, Json)>) -> Json {
    Json::Object(members.into_iter().map(|(key, value)| (key.to_string(), value)).collect())
}

#[test]
fn v2_body_yields_its_pairs_and_no_others() {
    let body = br#"{"data":{"data":{"k1":"v1","k2":"v2"}}}"#;
    let secret = read_body(body, KvVersion::V2).unwrap();
    assert_eq!(secret.len(), 2);
    assert_eq!(secret.get("k1"), Some(&"v1".to_string()));
    assert_eq!(secret.get("k2"), Some(&"v2".to_string()));
    assert_eq!(secret.get("data"), None);
    assert_eq!(pairs(secret), vec![pair("k1", "v1"), pair("k2", "v2")]);
}

#[test]
fn v1_body_yields_its_pairs() {
    let body = br#"{"data":{"k1":"v1"}}"#;
    let secret = read_body(body, KvVersion::V1).unwrap();
    assert_eq!(pairs(secret), vec![pair("k1", "v1")]);
}

#[test]
fn other_fields_of_the_envelope_are_ignored() {
    let body = br#"{"request_id":"x","lease_duration":0,
        "data":{"data":{"k":"v"},"metadata":{"version":3}},
        "warnings":null}"#;
    let secret = read_body(body, KvVersion::V2).unwrap();
    assert_eq!(pairs(secret), vec![pair("k", "v")]);
}

#[test]
fn v1_body_read_as_v2_is_missing_payload() {
    let body = br#"{"data":{"k1":"v1"}}"#;
    assert_eq!(read_body(body, KvVersion::V2).err(), Some(VaultError::MissingPayload));
    let body = br#"{"data":{"data":"a string named data"}}"#;
    assert_eq!(read_body(body, KvVersion::V2).err(), Some(VaultError::MissingPayload));
}

#[test]
fn v2_body_read_as_v1_gives_no_document() {
    let body = br#"{"data":{"data":{"k1":"v1","k2":"v2"}}}"#;
    assert_eq!(read_body(body, KvVersion::V1).err(), Some(VaultError::UnsupportedValueType));
}

#[test]
fn missing_or_misshapen_data_is_missing_payload() {
    for body in [
        &br#"{}"#[..],
        br#"{"errors":[]}"#,
        br#"{"data":null}"#,
        br#"{"data":"text"}"#,
        br#"{"data":[{"k":"v"}]}"#,
        br#"[]"#,
        br#""data""#,
        br#"42"#,
    ] {
        assert_eq!(read_body(body, KvVersion::V1).err(), Some(VaultError::MissingPayload));
        assert_eq!(read_body(body, KvVersion::V2).err(), Some(VaultError::MissingPayload));
    }
    for body in [&br#"{"data":{}}"#[..], br#"{"data":{"data":7}}"#, br#"{"data":{"data":[]}}"#] {
        assert_eq!(read_body(body, KvVersion::V2).err(), Some(VaultError::MissingPayload));
    }
}

#[test]
fn value_that_is_no_string_is_unsupported() {
    for body in [
        &br#"{"data":{"data":{"k1":42}}}"#[..],
        br#"{"data":{"data":{"k1":{"nested":"v"}}}}"#,
        br#"{"data":{"data":{"k1":["v"]}}}"#,
        br#"{"data":{"data":{"k1":true}}}"#,
        br#"{"data":{"data":{"k1":null}}}"#,
        br#"{"data":{"data":{"k0":"fine","k1":1.5,"k2":"fine"}}}"#,
    ] {
        assert_eq!(read_body(body, KvVersion::V2).err(), Some(VaultError::UnsupportedValueType));
    }
    let body = br#"{"data":{"k1":42}}"#;
    assert_eq!(read_body(body, KvVersion::V1).err(), Some(VaultError::UnsupportedValueType));
}

#[test]
fn empty_payload_is_an_empty_document() {
    let secret = read_body(br#"{"data":{"data":{}}}"#, KvVersion::V2).unwrap();
    assert!(secret.is_empty());
    assert_eq!(secret.len(), 0);
    let secret = read_body(br#"{"data":{}}"#, KvVersion::V1).unwrap();
    assert!(secret.is_empty());
}

#[test]
fn body_that_is_no_json_is_malformed() {
    for body in [&b""[..], b"not json", b"{\"data\":", b"{\"data\":{}} trailing", b"\xff\xfe"] {
        assert_eq!(read_body(body, KvVersion::V2).err(), Some(VaultError::MalformedResponse));
        assert_eq!(read_body(body, KvVersion::V1).err(), Some(VaultError::MalformedResponse));
    }
}

#[test]
fn keys_and_values_are_kept_unchanged() {
    let body = "{\"data\":{\"data\":{\"Key With Space\":\" v \",\"ü\":\"\\u00e9\\n\",\"\":\"\"}}}";
    let secret = read_body(body.as_bytes(), KvVersion::V2).unwrap();
    assert_eq!(secret.get("Key With Space"), Some(&" v ".to_string()));
    assert_eq!(secret.get("ü"), Some(&"é\n".to_string()));
    assert_eq!(secret.get(""), Some(&"".to_string()));
    assert_eq!(secret.len(), 3);
}

#[test]
fn status_403_is_a_remote_error_and_the_body_is_not_read() {
    let good = br#"{"data":{"data":{"k1":"v1"}}}"#;
    for body in [&good[..], b"not json", b""] {
        assert_eq!(
            read_response(403, body, KvVersion::V2).err(),
            Some(VaultError::RemoteError { status: 403 })
        );
    }
}

#[test]
fn only_statuses_from_200_to_299_are_read() {
    let body = br#"{"data":{"k":"v"}}"#;
    for status in [200u16, 201, 204, 299] {
        assert_eq!(check_status(status), Ok(()));
        let secret = read_response(status, body, KvVersion::V1).unwrap();
        assert_eq!(pairs(secret), vec![pair("k", "v")]);
    }
    for status in [0u16, 100, 199, 300, 301, 404, 500, 65535] {
        assert_eq!(check_status(status), Err(VaultError::RemoteError { status }));
        assert_eq!(
            read_response(status, body, KvVersion::V1).err(),
            Some(VaultError::RemoteError { status })
        );
    }
}

#[test]
fn reply_is_read_for_the_engine_of_the_source() {
    let mut source = VaultSource::new(
        "http://h:8200".to_string(),
        "t".to_string(),
        "secret".to_string(),
        "dev".to_string(),
    );
    let reply = Reply::Answer { status: 200, body: br#"{"data":{"data":{"k":"v"}}}"#.to_vec() };
    assert_eq!(pairs(source.read_reply(&reply).unwrap()), vec![pair("k", "v")]);
    source.set_kv_version(KvVersion::V1);
    assert_eq!(source.read_reply(&reply).err(), Some(VaultError::UnsupportedValueType));
    let reply = Reply::Answer { status: 404, body: br#"{"errors":[]}"#.to_vec() };
    assert_eq!(source.read_reply(&reply).err(), Some(VaultError::RemoteError { status: 404 }));
}

#[test]
fn request_without_answer_is_a_transport_error() {
    let source = VaultSource::new_v1(
        "http://h:8200".to_string(),
        "t".to_string(),
        "secret".to_string(),
        "dev".to_string(),
    );
    assert_eq!(source.read_reply(&Reply::Unreachable).err(), Some(VaultError::TransportError));
}

#[test]
fn same_reply_gives_the_same_document() {
    let source = VaultSource::new(
        "http://h:8200".to_string(),
        "t".to_string(),
        "secret".to_string(),
        "dev".to_string(),
    );
    let body = br#"{"data":{"data":{"b":"2","a":"1"}}}"#.to_vec();
    let reply = Reply::Answer { status: 200, body };
    let first = pairs(source.read_reply(&reply).unwrap());
    let second = pairs(source.read_reply(&reply).unwrap());
    assert_eq!(first, second);
    assert_eq!(first, vec![pair("a", "1"), pair("b", "2")]);
}

#[test]
fn decode_keeps_every_kind_of_value() {
    let json = decode(br#"{"a":[1,-2.5,true,null,"x",{"b":"c"}],"d":{}}"#).unwrap();
    let expected = object(vec![
        (
            "a",
            Json::Array(vec![
                Json::Number,
                Json::Number,
                Json::Bool(true),
                Json::Null,
                text("x"),
                object(vec![("b", text("c"))]),
            ]),
        ),
        ("d", object(vec![])),
    ]);
    assert_eq!(json, expected);
    assert_eq!(decode(b"\"only text\""), Some(text("only text")));
    assert_eq!(decode(b"{"), None);
}

#[test]
fn decode_keeps_the_last_of_two_members_with_one_key() {
    let secret = read_body(br#"{"data":{"k":"old","k":"new"}}"#, KvVersion::V1).unwrap();
    assert_eq!(pairs(secret), vec![pair("k", "new")]);
}

#[test]
fn member_is_the_last_with_its_key() {
    let members = vec![
        ("a".to_string(), text("1")),
        ("b".to_string(), text("2")),
        ("a".to_string(), text("3")),
    ];
    assert_eq!(member(&members, "a"), Some(&text("3")));
    assert_eq!(member(&members, "b"), Some(&text("2")));
    assert_eq!(member(&members, "c"), None);
    assert_eq!(member(&Vec::new(), "a"), None);
}

#[test]
fn payload_is_found_one_level_down_or_two() {
    let inner = object(vec![("k", text("v"))]);
    let document = object(vec![("data", object(vec![("data", object(vec![("k", text("v"))]))]))]);
    let v2 = payload(&document, KvVersion::V2).unwrap();
    assert_eq!(v2, &vec![("k".to_string(), text("v"))]);
    let v1 = payload(&document, KvVersion::V1).unwrap();
    assert_eq!(v1, &vec![("data".to_string(), inner)]);
    assert_eq!(payload(&Json::Null, KvVersion::V1), Err(VaultError::MissingPayload));
    let document = object(vec![("data", Json::Number)]);
    assert_eq!(payload(&document, KvVersion::V1), Err(VaultError::MissingPayload));
}

#[test]
fn flatten_enters_later_members_over_earlier_ones() {
    let members = vec![
        ("a".to_string(), text("1")),
        ("b".to_string(), text("2")),
        ("a".to_string(), text("3")),
    ];
    assert_eq!(pairs(flatten(&members).unwrap()), vec![pair("a", "3"), pair("b", "2")]);
}

#[test]
fn flatten_refuses_a_value_wherever_it_stands() {
    let members = vec![
        ("a".to_string(), Json::Bool(false)),
        ("a".to_string(), text("3")),
    ];
    assert_eq!(flatten(&members).err(), Some(VaultError::UnsupportedValueType));
    let members = vec![("a".to_string(), text("3")), ("z".to_string(), Json::Array(vec![]))];
    assert_eq!(flatten(&members).err(), Some(VaultError::UnsupportedValueType));
}

#[test]
fn extract_secret_reads_a_document_written_by_hand() {
    let document = object(vec![("data", object(vec![("k1", text("v1"))]))]);
    assert_eq!(pairs(extract_secret(&document, KvVersion::V1).unwrap()), vec![pair("k1", "v1")]);
    assert_eq!(extract_secret(&document, KvVersion::V2).err(), Some(VaultError::MissingPayload));
}
