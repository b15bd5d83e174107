use greentic_ext_runtime::host_calls::{body_cap_gate, loggable, redirect_gate, MAX_RESPONSE_BYTES};
use greentic_ext_runtime::manifest::{
    check_binding_digest, check_entry_digest, check_manifest_binding, check_manifest_entry, check_manifest_schema,
};
use greentic_ext_runtime::oauth::{endpoint_for, resource_token_url, BrokerUrlError};
use greentic_ext_runtime::pool::InstancePool;
use greentic_ext_runtime::UrlMatcher;

#[test]
fn the_token_endpoint_is_resolved_under_an_https_base() {
    assert_eq!(
        resource_token_url("https://broker.example.com/oauth/").unwrap(),
        "https://broker.example.com/oauth/resource-token"
    );
    assert_eq!(
        resource_token_url("https://broker.example.com/oauth").unwrap(),
        "https://broker.example.com/resource-token"
    );
    assert_eq!(resource_token_url("http://broker.example.com/").unwrap_err(), BrokerUrlError::NotHttps);
    assert_eq!(resource_token_url("https://b.example.com/?x=1").unwrap_err(), BrokerUrlError::HasQuery);
    assert_eq!(resource_token_url("not a url").unwrap_err(), BrokerUrlError::Unparseable);
    assert_eq!(endpoint_for(&None, None).unwrap_err(), BrokerUrlError::Unparseable);
}

#[test]
fn a_loopback_broker_may_be_reached_over_plain_http() {
    assert_eq!(
        resource_token_url("http://127.0.0.1:8080/").unwrap(),
        "http://127.0.0.1:8080/resource-token"
    );
    assert_eq!(
        resource_token_url("http://LocalHost:9/broker/").unwrap(),
        "http://localhost:9/broker/resource-token"
    );
    assert_eq!(resource_token_url("http://[::1]:7/").unwrap(), "http://[::1]:7/resource-token");
    assert_eq!(resource_token_url("http://127.0.0.1:8080/?x=1").unwrap_err(), BrokerUrlError::HasQuery);
    assert_eq!(resource_token_url("http://10.0.0.1/").unwrap_err(), BrokerUrlError::NotHttps);
    assert_eq!(resource_token_url("http://localhost.evil.com/").unwrap_err(), BrokerUrlError::NotHttps);
    assert_eq!(resource_token_url("ftp://127.0.0.1/").unwrap_err(), BrokerUrlError::NotHttps);
}

#[test]
fn a_redirect_off_the_allow_list_is_withheld_and_its_credentials_hidden() {
    let m = UrlMatcher::from_patterns(vec!["https://allowed.com/*".into()]);
    assert!(redirect_gate(&m, "https://allowed.com/a", "https://allowed.com/a").is_ok());
    assert!(redirect_gate(&m, "https://allowed.com/a", "https://allowed.com/b").is_ok());
    let err = redirect_gate(&m, "https://allowed.com/a", "https://user:pw@evil.com/x?token=1#f").unwrap_err();
    assert_eq!(err, "network not allowed for redirect target: https://evil.com/x");
    assert_eq!(loggable("::::"), "<unparseable url>");
}

#[test]
fn response_bodies_are_capped_at_thirty_two_mebibytes() {
    assert!(body_cap_gate(MAX_RESPONSE_BYTES).is_ok());
    assert_eq!(
        body_cap_gate(MAX_RESPONSE_BYTES + 1).unwrap_err(),
        "http response body exceeds the 33554432 byte cap"
    );
}

#[test]
fn manifest_entries_must_exist_and_hash_to_the_recorded_digest() {
    let empty_sha = "e3b0c44298fc1c149afbf4c8996fb92427ae41e4649b934ca495991b7852b855";
    assert!(check_manifest_entry("a.wasm", empty_sha, Some(&[])).is_ok());
    assert_eq!(
        check_manifest_entry("a.wasm", empty_sha, None).unwrap_err(),
        "manifest lists missing file: a.wasm"
    );
    let abc_sha = "ba7816bf8f01cfea414140de5dae2223b00361a396177a9cb410ff61f20015ad";
    assert!(check_manifest_entry("b.txt", abc_sha, Some(b"abc")).is_ok());
    let err = check_manifest_entry("b.txt", empty_sha, Some(b"abc")).unwrap_err();
    assert_eq!(err, format!("manifest sha256 mismatch for b.txt: expected {empty_sha} got {abc_sha}"));
    assert!(check_entry_digest("c", "00ff", &[0x00, 0xff]).is_ok());
    assert!(check_manifest_schema("greentic.gtxpack.manifest/v1").is_ok());
    assert_eq!(
        check_manifest_schema("v2").unwrap_err(),
        "manifest schema unsupported: v2"
    );
}

#[test]
fn the_pool_reuses_the_oldest_instance_and_keeps_at_most_its_capacity() {
    let mut pool: InstancePool<u32> = InstancePool::new(2);
    assert_eq!(pool.capacity(), 2);
    let fresh: Result<u32, String> = pool.acquire(|| Ok(7));
    assert_eq!(fresh.unwrap(), 7);
    pool.release(1);
    pool.release(2);
    pool.release(3);
    assert_eq!(pool.acquire(|| Ok::<u32, String>(9)).unwrap(), 1);
    assert_eq!(pool.acquire(|| Ok::<u32, String>(9)).unwrap(), 2);
    assert_eq!(pool.acquire(|| Ok::<u32, String>(9)).unwrap(), 9);
}

#[test]
fn the_ledger_must_be_the_one_the_describe_commits_to() {
    let abc = "ba7816bf8f01cfea414140de5dae2223b00361a396177a9cb410ff61f20015ad";
    assert!(check_manifest_binding(Some(abc), b"abc").is_ok());
    assert_eq!(
        check_manifest_binding(None, b"abc").unwrap_err(),
        "signature verification failed: describe.manifestSha256 missing"
    );
    assert_eq!(
        check_manifest_binding(Some(abc), b"abd").unwrap_err(),
        format!(
            "signature verification failed: manifestSha256 mismatch: stored={abc}, computed={}",
            "a52d159f262b2c6ddb724a61840befc36eb30c88877a4030b65cbe86298449c9"
        )
    );
    assert!(check_manifest_binding(Some(&abc.to_uppercase()), b"abc").is_err());
    assert!(check_binding_digest(Some("00ff"), &[0x00, 0xff]).is_ok());
    assert_eq!(
        check_binding_digest(Some("00FF"), &[0x00, 0xff]).unwrap_err(),
        "signature verification failed: manifestSha256 mismatch: stored=00FF, computed=00ff"
    );
}

#[test]
fn each_credential_bearing_part_is_cleared_from_a_logged_url() {
    assert_eq!(loggable("https://a.com/p?token=1"), "https://a.com/p");
    assert_eq!(loggable("https://a.com/p#secret"), "https://a.com/p");
    assert_eq!(loggable("https://:pw@a.com/p"), "https://a.com/p");
    assert_eq!(loggable("https://user@a.com/p"), "https://a.com/p");
    assert_eq!(loggable("https://user:pw@a.com:8443/p?q=1#f"), "https://a.com:8443/p");
    assert_eq!(loggable("mailto:someone@example.com?subject=x"), "mailto:someone@example.com");
    assert_eq!(loggable("https://a.com/p"), "https://a.com/p");
}
