use aes_gcm::aead::Aead;
use aes_gcm::{Aes256Gcm, KeyInit, Nonce};
use gateau::chrome::{
    chrome_v10_key_bytes, keychain_entry, secret_service_application, BatchStep, ChromeCookie, ChromeCookieBatch,
    ChromeDecryptor, ChromeVariant, DecryptChromeCookieError, DecryptStep, KeySource, KeyVariant, Platform,
};
use gateau::cookie::SameSite;
use gateau::crypto::{derive_key_from_password, encrypt_value, DecryptError};
use gateau::timestamp::chrome_to_unix_timestamp_nanos;

fn tagged(tag: &[u8], body: &[u8]) -> Vec<u8> {
    let mut v = tag.to_vec();
    v.extend_from_slice(body);
    v
}

fn row(value: &str, encrypted_value: Vec<u8>) -> ChromeCookie {
    ChromeCookie {
        name: String::from("sid"),
        value: String::from(value),
        encrypted_value,
        host: String::from(".example.com"),
        path: String::from("/"),
        expires: 11644473600000000 + 1_000_000,
        secure: true,
        same_site: 1,
        http_only: false,
    }
}

/// Runs the decryption steps as a reader does, counting the lookups of the
/// secret service.
fn resolve(dec: &mut ChromeDecryptor, value: &[u8], lookups: &mut u32) -> Result<String, DecryptChromeCookieError> {
    loop {
        match dec.decrypt_cookie_value(value) {
            DecryptStep::Decrypted(s) => return Ok(s),
            DecryptStep::Failed(e) => return Err(e),
            DecryptStep::KeyNeeded => {
                *lookups += 1;
                dec.provide_password("hunter2");
            }
            DecryptStep::UnwrapWithDpapi => panic!("no DPAPI here"),
        }
    }
}

#[test]
fn empty_encrypted_value_uses_plain_column() {
    let dec = ChromeDecryptor::new(Platform::Linux, ChromeVariant::Chrome);
    let r = row("plain-value", Vec::new());
    match dec.cookie_value(&r) {
        DecryptStep::Decrypted(s) => assert_eq!(s, "plain-value"),
        other => panic!("unexpected {other:?}"),
    }
}

#[test]
fn linux_v10_value_uses_default_key() {
    let dec = ChromeDecryptor::new(Platform::Linux, ChromeVariant::Chromium);
    let value = tagged(b"v10", &encrypt_value(&chrome_v10_key_bytes(), "hello"));
    match dec.decrypt_cookie_value(&value) {
        DecryptStep::Decrypted(s) => assert_eq!(s, "hello"),
        other => panic!("unexpected {other:?}"),
    }
    assert!(!dec.has_key());
}

#[test]
fn linux_v11_key_is_obtained_once() {
    let mut dec = ChromeDecryptor::new(Platform::Linux, ChromeVariant::Chrome);
    let key = derive_key_from_password("hunter2", 1);
    let first = tagged(b"v11", &encrypt_value(&key, "one"));
    let second = tagged(b"v11", &encrypt_value(&key, "two"));
    let mut lookups = 0;
    assert_eq!(resolve(&mut dec, &first, &mut lookups), Ok(String::from("one")));
    assert_eq!(resolve(&mut dec, &second, &mut lookups), Ok(String::from("two")));
    assert_eq!(lookups, 1);
    assert!(dec.has_key());
}

#[test]
fn mac_key_uses_more_rounds() {
    let mut dec = ChromeDecryptor::new(Platform::MacOs, ChromeVariant::Chrome);
    let key = derive_key_from_password("hunter2", 1003);
    let value = tagged(b"v10", &encrypt_value(&key, "mac"));
    let mut lookups = 0;
    assert_eq!(resolve(&mut dec, &value, &mut lookups), Ok(String::from("mac")));
    assert_eq!(lookups, 1);
}

#[test]
fn provided_key_is_never_replaced() {
    let mut dec = ChromeDecryptor::new(Platform::Windows, ChromeVariant::Edge);
    let key = [5u8; 32];
    dec.provide_key(key.to_vec());
    dec.provide_key(vec![6u8; 32]);
    let cipher = Aes256Gcm::new_from_slice(&key).unwrap();
    let nonce = [2u8; 12];
    let mut body = nonce.to_vec();
    body.extend(cipher.encrypt(Nonce::from_slice(&nonce), b"win".as_ref()).unwrap());
    match dec.decrypt_cookie_value(&tagged(b"v10", &body)) {
        DecryptStep::Decrypted(s) => assert_eq!(s, "win"),
        other => panic!("unexpected {other:?}"),
    }
}

#[test]
fn windows_tampered_tag_is_a_decrypt_error() {
    let mut dec = ChromeDecryptor::new(Platform::Windows, ChromeVariant::Chrome);
    assert!(matches!(dec.decrypt_cookie_value(b"v10abc"), DecryptStep::KeyNeeded));
    let key = [5u8; 32];
    dec.provide_key(key.to_vec());
    let cipher = Aes256Gcm::new_from_slice(&key).unwrap();
    let nonce = [2u8; 12];
    let mut body = nonce.to_vec();
    body.extend(cipher.encrypt(Nonce::from_slice(&nonce), b"win".as_ref()).unwrap());
    let last = body.len() - 1;
    body[last] ^= 0xff;
    match dec.decrypt_cookie_value(&tagged(b"v10", &body)) {
        DecryptStep::Failed(e) => assert_eq!(
            e,
            DecryptChromeCookieError::CookieValueDecrypt { source: DecryptError::InvalidInput }
        ),
        other => panic!("unexpected {other:?}"),
    }
}

#[test]
fn windows_untagged_value_goes_to_dpapi() {
    let dec = ChromeDecryptor::new(Platform::Windows, ChromeVariant::Chrome);
    assert!(matches!(dec.decrypt_cookie_value(&[1, 2, 3, 4]), DecryptStep::UnwrapWithDpapi));
    assert_eq!(dec.decode_unwrapped(b"abc".to_vec()), Ok(String::from("abc")));
    assert_eq!(
        dec.decode_unwrapped(vec![0xff]),
        Err(DecryptChromeCookieError::CookieValueUtf8Decode)
    );
}

#[test]
fn untagged_value_is_plain_text() {
    let dec = ChromeDecryptor::new(Platform::Linux, ChromeVariant::Chrome);
    match dec.decrypt_cookie_value(b"v1") {
        DecryptStep::Decrypted(s) => assert_eq!(s, "v1"),
        other => panic!("unexpected {other:?}"),
    }
    match dec.decrypt_cookie_value(&[0xff, 0x00]) {
        DecryptStep::Failed(e) => assert_eq!(e, DecryptChromeCookieError::CookieValueUtf8Decode),
        other => panic!("unexpected {other:?}"),
    }
}

#[test]
fn v11_without_secret_service_fails() {
    let dec = ChromeDecryptor::new(Platform::OtherUnix, ChromeVariant::Chrome);
    match dec.decrypt_cookie_value(b"v11abcdefghijklmnop") {
        DecryptStep::Failed(e) => {
            assert_eq!(e, DecryptChromeCookieError::GetKey { key_variant: KeyVariant::V11 })
        }
        other => panic!("unexpected {other:?}"),
    }
}

#[test]
fn bad_ciphertext_is_a_decrypt_error() {
    let dec = ChromeDecryptor::new(Platform::Linux, ChromeVariant::Chrome);
    match dec.decrypt_cookie_value(b"v10short") {
        DecryptStep::Failed(e) => assert_eq!(
            e,
            DecryptChromeCookieError::CookieValueDecrypt { source: DecryptError::InvalidInputLength }
        ),
        other => panic!("unexpected {other:?}"),
    }
}

#[test]
fn row_becomes_cookie() {
    let c = row("v", Vec::new()).into_cookie(String::from("decrypted"));
    assert_eq!(c.name, "sid");
    assert_eq!(c.value, "decrypted");
    assert_eq!(c.domain, ".example.com");
    assert_eq!(c.path, "/");
    assert_eq!(c.expires_nanos, 1_000_000_000);
    assert!(c.secure);
    assert!(!c.http_only);
    assert_eq!(c.same_site, SameSite::Lax);
}

#[test]
fn chrome_epoch_conversion_is_exact() {
    assert_eq!(chrome_to_unix_timestamp_nanos(11_644_473_600_000_000), 0);
    assert_eq!(chrome_to_unix_timestamp_nanos(0), -11_644_473_600 * 1_000_000_000);
    assert_eq!(chrome_to_unix_timestamp_nanos(13_000_000_000_000_001), 1_355_526_400_000_001_000);
    assert_eq!(
        chrome_to_unix_timestamp_nanos(i64::MAX),
        i64::MAX as i128 * 1000 - 11_644_473_600_000_000_000
    );
}

#[test]
fn key_lookup_names() {
    assert_eq!(secret_service_application(ChromeVariant::Chromium), "chromium");
    assert_eq!(secret_service_application(ChromeVariant::Edge), "edge");
    assert_eq!(keychain_entry(ChromeVariant::Chrome), ("Chrome Safe Storage", "Chrome"));
}

#[test]
fn batch_obtains_key_once_and_keeps_order() {
    let key = derive_key_from_password("hunter2", 1);
    let rows = vec![
        row("a", Vec::new()),
        row("", tagged(b"v11", &encrypt_value(&key, "b"))),
        row("", tagged(b"v10", &encrypt_value(&chrome_v10_key_bytes(), "c"))),
        row("", tagged(b"v11", &encrypt_value(&key, "d"))),
    ];
    let mut batch = ChromeCookieBatch::new(ChromeDecryptor::new(Platform::Linux, ChromeVariant::Chrome), rows);
    let mut lookups = 0;
    loop {
        match batch.step() {
            BatchStep::Finished => break,
            BatchStep::KeyNeeded { source, key_variant } => {
                assert_eq!(source, KeySource::SecretService);
                assert_eq!(key_variant, KeyVariant::V11);
                lookups += 1;
                batch.provide_password("hunter2");
            }
            other => panic!("unexpected {other:?}"),
        }
    }
    assert_eq!(lookups, 1);
    let (cookies, decryptor) = batch.into_parts();
    let values: Vec<&str> = cookies.iter().map(|c| c.value.as_str()).collect();
    assert_eq!(values, vec!["a", "b", "c", "d"]);
    assert!(decryptor.has_key());
}

#[test]
fn batch_stops_at_first_bad_row() {
    let rows = vec![row("a", Vec::new()), row("", b"v10bad".to_vec()), row("c", Vec::new())];
    let mut batch = ChromeCookieBatch::new(ChromeDecryptor::new(Platform::Linux, ChromeVariant::Chrome), rows);
    match batch.step() {
        BatchStep::Failed { index, error } => {
            assert_eq!(index, 1);
            assert_eq!(
                error,
                DecryptChromeCookieError::CookieValueDecrypt { source: DecryptError::InvalidInputLength }
            );
        }
        other => panic!("unexpected {other:?}"),
    }
}

#[test]
fn batch_hands_dpapi_rows_out() {
    let rows = vec![row("", vec![1, 2, 3]), row("z", Vec::new())];
    let mut batch = ChromeCookieBatch::new(ChromeDecryptor::new(Platform::Windows, ChromeVariant::Edge), rows);
    match batch.step() {
        BatchStep::UnwrapWithDpapi { index } => {
            assert_eq!(index, 0);
            assert_eq!(batch.encrypted_value(index), &[1, 2, 3]);
        }
        other => panic!("unexpected {other:?}"),
    }
    assert_eq!(batch.provide_unwrapped(vec![0xff]), Err(DecryptChromeCookieError::CookieValueUtf8Decode));
    batch.provide_unwrapped(b"unwrapped".to_vec()).unwrap();
    assert!(matches!(batch.step(), BatchStep::Finished));
    let (cookies, _) = batch.into_parts();
    assert_eq!(cookies[0].value, "unwrapped");
    assert_eq!(cookies[1].value, "z");
}

#[test]
fn windows_batch_asks_local_state_key() {
    let rows = vec![row("", b"v10abcdefghijklmnopqrstuvwxyz0123".to_vec())];
    let mut batch = ChromeCookieBatch::new(ChromeDecryptor::new(Platform::Windows, ChromeVariant::Edge), rows);
    match batch.step() {
        BatchStep::KeyNeeded { source, key_variant } => {
            assert_eq!(source, KeySource::LocalState);
            assert_eq!(key_variant, KeyVariant::V10);
        }
        other => panic!("unexpected {other:?}"),
    }
    batch.provide_key(vec![1u8; 32]);
    match batch.step() {
        BatchStep::Failed { index, error } => {
            assert_eq!(index, 0);
            assert_eq!(
                error,
                DecryptChromeCookieError::CookieValueDecrypt { source: DecryptError::InvalidInput }
            );
        }
        other => panic!("unexpected {other:?}"),
    }
}

#[test]
fn mac_batch_asks_keychain() {
    let rows = vec![row("", b"v10abcdefghijklmnop".to_vec())];
    let mut batch = ChromeCookieBatch::new(ChromeDecryptor::new(Platform::MacOs, ChromeVariant::Chrome), rows);
    match batch.step() {
        BatchStep::KeyNeeded { source, key_variant } => {
            assert_eq!(source, KeySource::Keychain);
            assert_eq!(key_variant, KeyVariant::V10);
        }
        other => panic!("unexpected {other:?}"),
    }
}
