// Tests of the self-update decisions: the install gate, the release JSON,
// the checksum file and the digest check.
use is_tibo_happy::json::Json;
use is_tibo_happy::num::Number;
use is_tibo_happy::update::{check_digest, check_release, installed, sums_entry};
use serde_json::Value;
use sha2::{Digest, Sha256};

fn v<T: Clone + Into<Value>>(x: &T) -> Value {
    x.clone().into()
}

fn obj(fields: Vec<(&str, Value)>) -> Value {
    Value::Object(fields.into_iter().map(|(k, x)| (k.to_string(), x)).collect())
}


fn to_json(v: &Value) -> Json {
    match v {
        Value::Null => Json::Null,
        Value::Bool(b) => Json::Bool(*b),
        Value::Number(n) => Json::Num(Number::Int(n.as_i64().unwrap())),
        Value::String(s) => Json::Str(s.clone()),
        Value::Array(a) => Json::Arr(a.iter().map(to_json).collect()),
        Value::Object(o) => Json::Obj(o.iter().map(|(k, x)| (k.clone(), to_json(x))).collect()),
    }
}

fn release(tag: &str) -> Json {
    to_json(&obj(vec![("tag_name", v(&(tag))), ("assets", Value::Array(vec![obj(vec![("name", Value::from("is-tibo-happy")), ("browser_download_url", Value::from("http://h/is-tibo-happy"))]), obj(vec![("name", Value::from("SHA256SUMS")), ("browser_download_url", Value::from("http://h/SHA256SUMS"))])]))]))
}

#[test]
fn only_installed_copy_updates() {
    assert!(installed("/Users/a/Library/Application Support/is-tibo-happy"));
    assert!(!installed("/Users/a/src/is-tibo-happy/native/target/release"));
}

#[test]
fn newer_release_gives_plan() {
    let p = check_release(&release("v99.0.0"), "0.2.0").unwrap().unwrap();
    assert_eq!(p.tag, "v99.0.0");
    assert_eq!(p.bin_url, "http://h/is-tibo-happy");
    assert_eq!(p.sums_url, "http://h/SHA256SUMS");
    assert!(check_release(&release("vv0.3.0"), "0.2.0").unwrap().is_some());
}

#[test]
fn same_or_older_release_is_no_update() {
    assert!(check_release(&release("v0.2.0"), "0.2.0").unwrap().is_none());
    assert!(check_release(&release("0.1.9"), "0.2.0").unwrap().is_none());
    assert!(check_release(&release("v0.2.0-rc.1"), "0.2.0").unwrap().is_none());
}

#[test]
fn release_errors() {
    assert_eq!(
        check_release(&to_json(&obj(vec![("assets", Value::Array(vec![]))])), "0.2.0").err(),
        Some("release: no tag_name".to_string())
    );
    assert_eq!(
        check_release(&to_json(&obj(vec![("tag_name", Value::from("nightly"))])), "0.2.0").err(),
        Some("bad tag nightly".to_string())
    );
    assert_eq!(
        check_release(&to_json(&obj(vec![("tag_name", Value::from("v9.0.0")), ("assets", Value::Array(vec![]))])), "0.2.0").err(),
        Some("asset is-tibo-happy missing".to_string())
    );
    assert_eq!(
        check_release(
            &to_json(&obj(vec![("tag_name", Value::from("v9.0.0")), ("assets", Value::Array(vec![obj(vec![("name", Value::from("is-tibo-happy")), ("browser_download_url", Value::from("u"))])]))])),
            "0.2.0"
        )
        .err(),
        Some("asset SHA256SUMS missing".to_string())
    );
    assert!(check_release(&release("v9.0.0"), "not a version").is_err());
}

#[test]
fn checksum_file_lines() {
    assert_eq!(sums_entry("abc  is-tibo-happy\n").as_deref(), Some("abc"));
    assert_eq!(sums_entry("111  other\r\n222  is-tibo-happy\r\n").as_deref(), Some("222"));
    assert_eq!(sums_entry("  333 *is-tibo-happy").as_deref(), Some("333"));
    assert_eq!(sums_entry("444  is-tibo-happy.sig\n"), None);
    assert_eq!(sums_entry(""), None);
}

#[test]
fn digest_must_match() {
    let bin = b"fake binary".to_vec();
    let good = format!("{:x}  is-tibo-happy\n", Sha256::digest(&bin));
    assert_eq!(check_digest(&bin, &good), Ok(()));
    let err = check_digest(&bin, "deadbeef  is-tibo-happy\n").unwrap_err();
    assert!(err.contains("sha256"));
    assert!(err.ends_with(" != deadbeef"));
    assert_eq!(check_digest(&bin, "x  other\n"), Err("SHA256SUMS lacks binary entry".to_string()));
}
