use pwm::vault::{
    check_line, derive_key, new_vault_keys, open_vault, open_with_recovery, recovery_bytes, seal_vault,
    seal_with_nonce, sha256, VaultError, VaultSettings, KEY_LEN, NONCE_LEN, SALT_LEN,
};

const PLAIN: &[u8] = br#"{"version":1,"entries":[],"settings":{"history_count":5,"verify_hash":true}}"#;

#[test]
fn sha256_known_digests() {
    assert_eq!(sha256(b""), "e3b0c44298fc1c149afbf4c8996fb92427ae41e4649b934ca495991b7852b855");
    assert_eq!(sha256(b"abc"), "ba7816bf8f01cfea414140de5dae2223b00361a396177a9cb410ff61f20015ad");
}

#[test]
fn check_line_form() {
    assert_eq!(
        check_line(b"abc"),
        "sha256:ba7816bf8f01cfea414140de5dae2223b00361a396177a9cb410ff61f20015ad\n"
    );
}

#[test]
fn derive_key_depends_on_password_and_salt() {
    let a = derive_key("pw", &[1u8; SALT_LEN]);
    let b = derive_key("pw", &[1u8; SALT_LEN]);
    let c = derive_key("pw", &[2u8; SALT_LEN]);
    let d = derive_key("other", &[1u8; SALT_LEN]);
    assert_eq!(a, b);
    assert_ne!(a, c);
    assert_ne!(a, d);
    assert_eq!(a.len(), KEY_LEN);
}

#[test]
fn new_vault_keys_match_derivation() {
    let (salt, key) = new_vault_keys("secret");
    assert_eq!(key, derive_key("secret", &salt));
}

#[test]
fn sealed_layout_is_salt_nonce_ciphertext() {
    let salt = [7u8; SALT_LEN];
    let key = [9u8; KEY_LEN];
    let nonce = [3u8; NONCE_LEN];
    let a = seal_with_nonce(&salt, &key, &nonce, PLAIN).unwrap();
    let b = seal_with_nonce(&salt, &key, &nonce, PLAIN).unwrap();
    assert_eq!(a, b);
    assert_eq!(&a[..16], &salt);
    assert_eq!(&a[16..28], &nonce);
    assert_eq!(a.len(), 28 + PLAIN.len() + 16);
    assert_ne!(&a[28..28 + PLAIN.len()], PLAIN);
}

#[test]
fn each_save_differs() {
    let salt = [7u8; SALT_LEN];
    let key = [9u8; KEY_LEN];
    let a = seal_vault(&salt, &key, PLAIN).unwrap();
    let b = seal_vault(&salt, &key, PLAIN).unwrap();
    assert_ne!(a, b);
    assert_eq!(&a[..16], &salt);
}

#[test]
fn saved_vault_opens_with_its_password() {
    let salt = [5u8; SALT_LEN];
    let key = derive_key("master", &salt);
    let data = seal_vault(&salt, &key, PLAIN).unwrap();
    let (p, s, k) = open_vault(&data, "master", None, true).unwrap();
    assert_eq!(p, PLAIN);
    assert_eq!(s, salt);
    assert_eq!(k, key);
    assert_eq!(open_vault(&data, "wrong", None, true).unwrap_err(), VaultError::Decrypt);
}

#[test]
fn check_line_is_honoured() {
    let salt = [5u8; SALT_LEN];
    let key = derive_key("master", &salt);
    let data = seal_vault(&salt, &key, PLAIN).unwrap();
    let line = check_line(&data);
    assert!(open_vault(&data, "master", Some(&line), true).is_ok());
    let mut tampered = data.clone();
    let last = tampered.len() - 1;
    tampered[last] ^= 1;
    // refused for the digest before any key is derived
    assert_eq!(open_vault(&tampered, "whatever", Some(&line), true).unwrap_err(), VaultError::HashMismatch);
    // without the check the damage shows as a failed decryption
    assert_eq!(open_vault(&tampered, "master", Some(&line), false).unwrap_err(), VaultError::Decrypt);
}

#[test]
fn unreadable_check_lines_are_ignored() {
    let salt = [6u8; SALT_LEN];
    let key = derive_key("m", &salt);
    let data = seal_vault(&salt, &key, PLAIN).unwrap();
    assert!(open_vault(&data, "m", Some("md5:1234"), true).is_ok());
    assert!(open_vault(&data, "m", Some("  sha256:nope  "), false).is_ok());
    assert_eq!(open_vault(&data, "m", Some("  sha256:nope  \n"), true).unwrap_err(), VaultError::HashMismatch);
}

#[test]
fn short_files_are_format_errors() {
    assert_eq!(open_vault(&[0u8; 27], "m", None, false).unwrap_err(), VaultError::Format);
    assert_eq!(open_vault(&[], "m", None, false).unwrap_err(), VaultError::Format);
}

#[test]
fn recovery_bundle_opens_without_password() {
    let salt = [1u8; SALT_LEN];
    let key = [2u8; KEY_LEN];
    let data = seal_vault(&salt, &key, PLAIN).unwrap();
    let rec = recovery_bytes(&salt, &key);
    assert_eq!(&rec[..16], &salt);
    assert_eq!(&rec[16..], &key);
    let (p, s, k) = open_with_recovery(&data, &rec).unwrap();
    assert_eq!(p, PLAIN);
    assert_eq!(s, salt);
    assert_eq!(k, key);
}

#[test]
fn recovery_errors() {
    let salt = [1u8; SALT_LEN];
    let key = [2u8; KEY_LEN];
    let data = seal_vault(&salt, &key, PLAIN).unwrap();
    let rec = recovery_bytes(&salt, &key);
    assert_eq!(open_with_recovery(&data[..27], &rec).unwrap_err(), VaultError::ImportFormat);
    assert_eq!(open_with_recovery(&data, &rec[..47]).unwrap_err(), VaultError::RecoveryFormat);
    let other = recovery_bytes(&salt, &[3u8; KEY_LEN]);
    assert_eq!(open_with_recovery(&data, &other).unwrap_err(), VaultError::RecoveryMismatch);
}

#[test]
fn error_messages() {
    assert_eq!(VaultError::Decrypt.message(), "主密码错误或数据损坏");
    assert_eq!(VaultError::HashMismatch.message(), "文件已被篡改或损坏（hash 不匹配）");
    assert_eq!(VaultError::Format.message(), "文件格式错误");
    assert_eq!(VaultError::ImportFormat.message(), "vault 文件格式错误");
    assert_eq!(VaultError::RecoveryFormat.message(), "recovery 文件格式错误");
    assert_eq!(VaultError::RecoveryMismatch.message(), "恢复文件与 vault 不匹配或数据损坏");
    assert_eq!(VaultError::Encrypt.message(), "加密失败: aead::Error");
}

#[test]
fn default_settings() {
    let d = VaultSettings::default();
    assert_eq!(d, VaultSettings { history_count: 5, verify_hash: true });
}

#[test]
fn sealed_length_and_digest_length() {
    let salt = [7u8; SALT_LEN];
    let key = [9u8; KEY_LEN];
    for len in [0usize, 1, 100] {
        let p = vec![b'x'; len];
        assert_eq!(seal_vault(&salt, &key, &p).unwrap().len(), 16 + 12 + len + 16);
    }
    assert_eq!(sha256(b"anything").len(), 64);
}
