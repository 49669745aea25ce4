//! The encrypted vault file: `salt (16) || nonce (12) || AES-256-GCM
//! ciphertext`, with the key derived from the master password by
//! PBKDF2-HMAC-SHA256, an optional SHA-256 check line, recovery bundles
//! (`salt || key`) and the pruning of history backups.
//!
//! Reading and writing files is left to the caller; everything here works on
//! bytes. The plaintext is the JSON form of the vault content, which the
//! caller produces and reads back.

use vstd::prelude::*;
use aes_gcm::aead::{Aead, KeyInit, OsRng};
use aes_gcm::{Aes256Gcm, Nonce};
use aes_gcm::aead::rand_core::RngCore;
use sha2::{Digest, Sha256};
use vstd::utf8::encode_utf8;
use crate::text::{chars_of, chars_eq, has_prefix, is_ws, starts_with, string_from_chars, trim, trim_chars, trim_end, trim_start};

verus! {

/// Bytes of salt at the start of a vault file.
pub const SALT_LEN: usize = 16;
/// Bytes of nonce after the salt.
pub const NONCE_LEN: usize = 12;
/// Bytes of a derived key.
pub const KEY_LEN: usize = 32;
/// PBKDF2 rounds.
pub const PBKDF2_ITER: u32 = 100_000;
/// Bytes of the authentication tag that ends a ciphertext.
pub const TAG_LEN: usize = 16;
/// Longest plaintext that AES-GCM accepts (2^36 bytes).
pub const P_MAX: u64 = 68_719_476_736;

// ───────────────────────── outside functions ─────────────────────────

#[verifier::external_type_specification]
#[verifier::external_body]
pub struct ExAeadError(aes_gcm::Error);

/// PBKDF2-HMAC-SHA256 with `rounds` rounds, `len` bytes of output.
pub uninterp spec fn pbkdf2_sha256(password: Seq<u8>, salt: Seq<u8>, rounds: u32, len: nat) -> Seq<u8>;

/// The SHA-256 digest of `data`.
pub uninterp spec fn sha256_digest(data: Seq<u8>) -> Seq<u8>;

/// AES-256-GCM encryption without associated data: ciphertext followed by
/// the 16-byte tag.
pub uninterp spec fn aes256gcm_seal(key: Seq<u8>, nonce: Seq<u8>, plaintext: Seq<u8>) -> Seq<u8>;

/// AES-256-GCM decryption without associated data; `None` when the tag does
/// not authenticate the ciphertext.
pub uninterp spec fn aes256gcm_open(key: Seq<u8>, nonce: Seq<u8>, ciphertext: Seq<u8>) -> Option<Seq<u8>>;

/// `pbkdf2::pbkdf2_hmac::<Sha256>` into a 32-byte buffer. Claimed: the
/// output is the function of password, salt and rounds named
/// `pbkdf2_sha256`. The function never fails.
#[verifier::external_body]
fn pbkdf2_hmac_sha256(password: &[u8], salt: &[u8], rounds: u32) -> (r: [u8; 32])
    ensures
        r@ == pbkdf2_sha256(password@, salt@, rounds, 32),
{
    let mut key = [0u8; 32];
    pbkdf2::pbkdf2_hmac::<Sha256>(password, salt, rounds, &mut key);
    key
}

/// `Sha256::new`, `update`, `finalize`: claimed to be the 32-byte digest
/// named `sha256_digest`.
#[verifier::external_body]
fn sha256_bytes(data: &[u8]) -> (r: Vec<u8>)
    ensures
        r@ == sha256_digest(data@),
        r@.len() == 32,
{
    let mut h = Sha256::new();
    h.update(data);
    h.finalize().to_vec()
}

/// The lowercase hexadecimal digit for `n < 16`.
pub open spec fn hex_digit(n: int) -> char {
    if n < 10 { ('0' as int + n) as char } else { ('a' as int + n - 10) as char }
}

/// Lowercase hexadecimal, two digits per byte, high nibble first.
pub open spec fn hex_lower(bytes: Seq<u8>) -> Seq<char>
    decreases bytes.len(),
{
    if bytes.len() == 0 {
        seq![]
    } else {
        hex_lower(bytes.drop_last()) + seq![hex_digit((bytes.last() / 16) as int), hex_digit((bytes.last() % 16) as int)]
    }
}

/// `hex::encode`: claimed to give two lowercase hexadecimal digits per byte,
/// high nibble first, as the crate documents.
#[verifier::external_body]
fn hex_encode(data: &[u8]) -> (r: String)
    ensures
        r@ == hex_lower(data@),
{
    hex::encode(data)
}

/// `Aes256Gcm::new` and `Aead::encrypt` with no associated data. Claimed,
/// as the source shows: plaintexts longer than 2^36 bytes are refused;
/// otherwise the result is the ciphertext named `aes256gcm_seal`, 16 bytes
/// longer than the plaintext.
#[verifier::external_body]
fn aes256gcm_encrypt(key: &[u8; 32], nonce: &[u8], plaintext: &[u8]) -> (r: Result<Vec<u8>, aes_gcm::Error>)
    requires
        nonce@.len() == 12,
    ensures
        plaintext@.len() <= P_MAX ==> r is Ok && r->Ok_0@ == aes256gcm_seal(key@, nonce@, plaintext@),
        r is Ok ==> r->Ok_0@.len() == plaintext@.len() + 16,
        plaintext@.len() > P_MAX ==> r is Err,
{
    let cipher = Aes256Gcm::new(aes_gcm::Key::<Aes256Gcm>::from_slice(key));
    cipher.encrypt(Nonce::from_slice(nonce), plaintext)
}

/// `Aes256Gcm::new` and `Aead::decrypt` with no associated data. Claimed:
/// the outcome is the one named `aes256gcm_open`; a ciphertext shorter than
/// the tag is refused (as the source shows); and decrypting what encryption
/// produced under the same key and nonce gives the plaintext back, the
/// correctness of the cipher that the crate documents.
#[verifier::external_body]
fn aes256gcm_decrypt(key: &[u8; 32], nonce: &[u8], ciphertext: &[u8]) -> (r: Result<Vec<u8>, aes_gcm::Error>)
    requires
        nonce@.len() == 12,
    ensures
        r is Ok <==> aes256gcm_open(key@, nonce@, ciphertext@) is Some,
        r is Ok ==> r->Ok_0@ == aes256gcm_open(key@, nonce@, ciphertext@)->0,
        ciphertext@.len() < 16 ==> r is Err,
        forall|p: Seq<u8>| p.len() <= P_MAX && ciphertext@ == #[trigger] aes256gcm_seal(key@, nonce@, p)
            ==> (r is Ok && r->Ok_0@ == p),
{
    let cipher = Aes256Gcm::new(aes_gcm::Key::<Aes256Gcm>::from_slice(key));
    cipher.decrypt(Nonce::from_slice(nonce), ciphertext)
}

/// `OsRng::fill_bytes` on a buffer of `n` bytes: random bytes from the
/// operating system. Only the length is claimed; the call panics if the
/// operating system cannot supply randomness.
#[verifier::external_body]
fn os_random_bytes(n: usize) -> (r: Vec<u8>)
    ensures
        r@.len() == n,
{
    let mut v = vec![0u8; n];
    OsRng.fill_bytes(&mut v);
    v
}

// ───────────────────────── content ─────────────────────────

/// Settings stored inside the vault.
#[derive(Debug, Clone, Copy, PartialEq, Eq, Structural)]
pub struct VaultSettings {
    /// How many history backups to keep (0 to 10).
    pub history_count: usize,
    /// Whether to check the SHA-256 line when reading.
    pub verify_hash: bool,
}

impl Default for VaultSettings {
    /// Five backups, checking on.
    fn default() -> (r: Self)
        ensures
            r.history_count == 5,
            r.verify_hash,
    {
        VaultSettings { history_count: 5, verify_hash: true }
    }
}

/// What a vault encrypts: the entries and the settings.
#[derive(Debug, Clone)]
pub struct VaultContent {
    pub version: u32,
    pub entries: Vec<crate::model::PasswordEntry>,
    pub settings: VaultSettings,
}

// ───────────────────────── errors ─────────────────────────

/// Why a vault could not be written or read.
#[derive(Debug, Clone, Copy, PartialEq, Eq, Structural)]
pub enum VaultError {
    /// The cipher refused the plaintext.
    Encrypt,
    /// A vault file shorter than salt and nonce.
    Format,
    /// The SHA-256 check line does not match the file.
    HashMismatch,
    /// Wrong master password, or damaged data.
    Decrypt,
    /// A vault file to import that is shorter than salt and nonce.
    ImportFormat,
    /// A recovery file shorter than salt and key.
    RecoveryFormat,
    /// The recovery key does not open the vault.
    RecoveryMismatch,
}

impl VaultError {
    /// The message shown to the user.
    pub fn message(&self) -> (r: String)
        ensures
            r@ == error_text(*self)@,
    {
        match self {
            VaultError::Encrypt => String::from_str("加密失败: aead::Error"),
            VaultError::Format => String::from_str("文件格式错误"),
            VaultError::HashMismatch => String::from_str("文件已被篡改或损坏（hash 不匹配）"),
            VaultError::Decrypt => String::from_str("主密码错误或数据损坏"),
            VaultError::ImportFormat => String::from_str("vault 文件格式错误"),
            VaultError::RecoveryFormat => String::from_str("recovery 文件格式错误"),
            VaultError::RecoveryMismatch => String::from_str("恢复文件与 vault 不匹配或数据损坏"),
        }
    }
}

/// The message of each error.
pub open spec fn error_text(e: VaultError) -> &'static str {
    match e {
        VaultError::Encrypt => "加密失败: aead::Error",
        VaultError::Format => "文件格式错误",
        VaultError::HashMismatch => "文件已被篡改或损坏（hash 不匹配）",
        VaultError::Decrypt => "主密码错误或数据损坏",
        VaultError::ImportFormat => "vault 文件格式错误",
        VaultError::RecoveryFormat => "recovery 文件格式错误",
        VaultError::RecoveryMismatch => "恢复文件与 vault 不匹配或数据损坏",
    }
}

// ───────────────────────── helpers ─────────────────────────

/// Appends `s` to `v`.
fn append_bytes(v: &mut Vec<u8>, s: &[u8])
    ensures
        final(v)@ == old(v)@ + s@,
{
    let mut i: usize = 0;
    let ghost start = v@;
    while i < s.len()
        invariant
            i <= s@.len(),
            v@ == start + s@.take(i as int),
        decreases s@.len() - i,
    {
        v.push(s[i]);
        i = i + 1;
        assert(v@ =~= start + s@.take(i as int));
    }
    assert(s@.take(s@.len() as int) =~= s@);
}

/// The bytes `s[from..to]`.
fn copy_range(s: &[u8], from: usize, to: usize) -> (r: Vec<u8>)
    requires
        from <= to <= s@.len(),
    ensures
        r@ == s@.subrange(from as int, to as int),
{
    let mut r: Vec<u8> = Vec::new();
    let mut i = from;
    while i < to
        invariant
            from <= i <= to <= s@.len(),
            r@ == s@.subrange(from as int, i as int),
        decreases to - i,
    {
        r.push(s[i]);
        i = i + 1;
        assert(r@ =~= s@.subrange(from as int, i as int));
    }
    r
}

/// The 16 bytes `s[from..from + 16]`.
fn array16(s: &[u8], from: usize) -> (r: [u8; 16])
    requires
        from + 16 <= s@.len(),
    ensures
        r@ == s@.subrange(from as int, from + 16),
{
    let mut r = [0u8; 16];
    let n = s.len();
    let mut i: usize = 0;
    while i < 16
        invariant
            n == s@.len(),
            from + 16 <= s@.len(),
            i <= 16,
            forall|k: int| 0 <= k < i ==> r@[k] == s@[from + k],
        decreases 16 - i,
    {
        r[i] = s[from + i];
        i = i + 1;
    }
    assert(r@ =~= s@.subrange(from as int, from + 16));
    r
}

/// The 32 bytes `s[from..from + 32]`.
fn array32(s: &[u8], from: usize) -> (r: [u8; 32])
    requires
        from + 32 <= s@.len(),
    ensures
        r@ == s@.subrange(from as int, from + 32),
{
    let mut r = [0u8; 32];
    let n = s.len();
    let mut i: usize = 0;
    while i < 32
        invariant
            n == s@.len(),
            from + 32 <= s@.len(),
            i <= 32,
            forall|k: int| 0 <= k < i ==> r@[k] == s@[from + k],
        decreases 32 - i,
    {
        r[i] = s[from + i];
        i = i + 1;
    }
    assert(r@ =~= s@.subrange(from as int, from + 32));
    r
}


// ───────────────────────── keys ─────────────────────────

/// The key that a master password and a salt give: PBKDF2-HMAC-SHA256 over
/// the UTF-8 bytes of the password, 100 000 rounds, 32 bytes.
pub open spec fn spec_derive_key(password: Seq<char>, salt: Seq<u8>) -> Seq<u8> {
    pbkdf2_sha256(encode_utf8(password), salt, PBKDF2_ITER, 32)
}

/// Derives the encryption key from the master password and the salt.
pub fn derive_key(password: &str, salt: &[u8]) -> (k: [u8; KEY_LEN])
    ensures
        k@ == spec_derive_key(password@, salt@),
{
    pbkdf2_hmac_sha256(password.as_bytes(), salt, PBKDF2_ITER)
}

/// A fresh random salt and the key it gives with `password` (for a new
/// vault).
pub fn new_vault_keys(password: &str) -> (r: ([u8; SALT_LEN], [u8; KEY_LEN]))
    ensures
        r.1@ == spec_derive_key(password@, r.0@),
{
    let bytes = os_random_bytes(SALT_LEN);
    let salt = array16(bytes.as_slice(), 0);
    assert(bytes@.subrange(0, 16) =~= bytes@);
    let key = derive_key(password, salt.as_slice());
    (salt, key)
}

// ───────────────────────── writing ─────────────────────────

/// The bytes of a vault file.
pub open spec fn vault_bytes(salt: Seq<u8>, nonce: Seq<u8>, ciphertext: Seq<u8>) -> Seq<u8> {
    salt + nonce + ciphertext
}

/// Encrypts `plaintext` under `key` with the given nonce and frames it as a
/// vault file `salt || nonce || ciphertext`.
pub fn seal_with_nonce(salt: &[u8; SALT_LEN], key: &[u8; KEY_LEN], nonce: &[u8; NONCE_LEN], plaintext: &[u8])
    -> (r: Result<Vec<u8>, VaultError>)
    ensures
        plaintext@.len() <= P_MAX ==> r is Ok
            && r->Ok_0@ == vault_bytes(salt@, nonce@, aes256gcm_seal(key@, nonce@, plaintext@)),
        plaintext@.len() > P_MAX ==> r == Err::<Vec<u8>, VaultError>(VaultError::Encrypt),
        r is Ok ==> r->Ok_0@.len() == SALT_LEN + NONCE_LEN + plaintext@.len() + TAG_LEN,
{
    let ciphertext = match aes256gcm_encrypt(key, nonce.as_slice(), plaintext) {
        Ok(c) => c,
        Err(_) => {
            return Err(VaultError::Encrypt);
        },
    };
    let mut buf: Vec<u8> = Vec::new();
    append_bytes(&mut buf, salt.as_slice());
    append_bytes(&mut buf, nonce.as_slice());
    append_bytes(&mut buf, ciphertext.as_slice());
    Ok(buf)
}

/// Where a vault file keeps its salt and nonce: the first 16 bytes are the
/// salt and the next 12 the nonce, so two files written with different
/// nonces always differ, even with the same salt, key and content.
pub proof fn law_nonce_in_file(salt: Seq<u8>, n1: Seq<u8>, c1: Seq<u8>, n2: Seq<u8>, c2: Seq<u8>)
    requires
        salt.len() == SALT_LEN,
        n1.len() == NONCE_LEN,
        n2.len() == NONCE_LEN,
    ensures
        vault_bytes(salt, n1, c1).subrange(0, 16) == salt,
        vault_bytes(salt, n1, c1).subrange(16, 28) == n1,
        n1 != n2 ==> vault_bytes(salt, n1, c1) != vault_bytes(salt, n2, c2),
{
    assert(vault_bytes(salt, n1, c1).subrange(0, 16) =~= salt);
    assert(vault_bytes(salt, n1, c1).subrange(16, 28) =~= n1);
    assert(vault_bytes(salt, n2, c2).subrange(16, 28) =~= n2);
}

/// Encrypts `plaintext` under `key` with a fresh random nonce and frames it
/// as a vault file. Fails exactly when the plaintext is longer than AES-GCM
/// accepts.
pub fn seal_vault(salt: &[u8; SALT_LEN], key: &[u8; KEY_LEN], plaintext: &[u8]) -> (r: Result<Vec<u8>, VaultError>)
    ensures
        r is Ok <==> plaintext@.len() <= P_MAX,
        r is Err ==> r == Err::<Vec<u8>, VaultError>(VaultError::Encrypt),
        r is Ok ==> exists|nonce: Seq<u8>| nonce.len() == NONCE_LEN
            && r->Ok_0@ == #[trigger] vault_bytes(salt@, nonce, aes256gcm_seal(key@, nonce, plaintext@)),
        r is Ok ==> r->Ok_0@.len() == SALT_LEN + NONCE_LEN + plaintext@.len() + TAG_LEN,
{
    let bytes = os_random_bytes(NONCE_LEN);
    let mut nonce = [0u8; 12];
    let mut i: usize = 0;
    while i < 12
        invariant
            bytes@.len() == 12,
            i <= 12,
            forall|k: int| 0 <= k < i ==> nonce@[k] == bytes@[k],
        decreases 12 - i,
    {
        nonce[i] = bytes[i];
        i = i + 1;
    }
    let r = seal_with_nonce(salt, key, &nonce, plaintext);
    proof {
        if r is Ok {
            assert(r->Ok_0@ == vault_bytes(salt@, nonce@, aes256gcm_seal(key@, nonce@, plaintext@)));
        }
    }
    r
}

// ───────────────────────── the check line ─────────────────────────

/// The hexadecimal SHA-256 digest of `data`.
pub open spec fn spec_sha256_hex(data: Seq<u8>) -> Seq<char> {
    hex_lower(sha256_digest(data))
}

/// The SHA-256 digest of `data` in lowercase hexadecimal.
pub fn sha256(data: &[u8]) -> (r: String)
    ensures
        r@ == spec_sha256_hex(data@),
        r@.len() == 64,
{
    let d = sha256_bytes(data);
    proof {
        lemma_hex_not_ws(d@);
    }
    hex_encode(d.as_slice())
}

/// The line that records a vault file's digest: `sha256:<hex>` and a newline.
pub open spec fn check_text(data: Seq<u8>) -> Seq<char> {
    "sha256:"@ + spec_sha256_hex(data) + "\n"@
}

/// The check line for the vault file `data`.
pub fn check_line(data: &[u8]) -> (r: String)
    ensures
        r@ == check_text(data@),
{
    let mut out = String::from_str("sha256:");
    let h = sha256(data);
    out.append(h.as_str());
    out.append("\n");
    out
}

/// The digest that a check line records, if it has the `sha256:` form.
pub open spec fn stored_hash(meta: Seq<char>) -> Option<Seq<char>> {
    let t = trim(meta);
    if has_prefix(t, "sha256:"@) {
        Some(t.skip(7))
    } else {
        None
    }
}

/// Whether a check is asked for and a readable check line records a digest
/// other than that of `data`.
pub open spec fn hash_mismatch(data: Seq<u8>, meta: Option<Seq<char>>, verify: bool) -> bool {
    verify && meta is Some && stored_hash(meta->0) is Some
        && stored_hash(meta->0)->0 != spec_sha256_hex(data)
}

/// The view of an optional string slice.
pub open spec fn opt_chars(o: Option<&str>) -> Option<Seq<char>> {
    match o {
        None => None,
        Some(s) => Some(s@),
    }
}

/// Hexadecimal digits are not whitespace.
proof fn lemma_hex_not_ws(bytes: Seq<u8>)
    ensures
        forall|i: int| 0 <= i < hex_lower(bytes).len() ==> !is_ws(#[trigger] hex_lower(bytes)[i]),
        hex_lower(bytes).len() == 2 * bytes.len(),
    decreases bytes.len(),
{
    if bytes.len() > 0 {
        lemma_hex_not_ws(bytes.drop_last());
        let h = hex_lower(bytes.drop_last());
        let hi = (bytes.last() / 16) as int;
        let lo = (bytes.last() % 16) as int;
        assert(!is_ws(hex_digit(hi)));
        assert(!is_ws(hex_digit(lo)));
        assert forall|i: int| 0 <= i < hex_lower(bytes).len() implies !is_ws(#[trigger] hex_lower(bytes)[i]) by {
            if i < h.len() {
                assert(hex_lower(bytes)[i] == h[i]);
            }
        }
    }
}

/// The check line that `check_line` writes for a vault file is accepted
/// when that same file is read back with checking on.
pub proof fn law_check_line_accepted(data: Seq<u8>)
    ensures
        stored_hash(check_text(data)) == Some(spec_sha256_hex(data)),
        !hash_mismatch(data, Some(check_text(data)), true),
{
    reveal_strlit("sha256:");
    reveal_strlit("\n");
    let hx = spec_sha256_hex(data);
    lemma_hex_not_ws(sha256_digest(data));
    let x = "sha256:"@ + hx;
    let full = check_text(data);
    assert(full =~= x.push('\n'));
    assert(!is_ws(x[0]));
    assert(!is_ws(full[0]));
    assert(trim_start(full) == full);
    assert(full.drop_last() =~= x);
    assert(trim_end(full) == trim_end(x));
    if hx.len() > 0 {
        assert(x.last() == hx[hx.len() - 1]);
    }
    assert(!is_ws(x.last()));
    assert(trim_end(x) == x);
    assert(trim(full) == x);
    assert(x.take(7) =~= "sha256:"@);
    assert(x.skip(7) =~= hx);
}

// ───────────────────────── reading ─────────────────────────

/// What opening a vault file gives: the plaintext, the salt and the key.
pub open spec fn open_spec(data: Seq<u8>, password: Seq<char>, meta: Option<Seq<char>>, verify: bool)
    -> Result<(Seq<u8>, Seq<u8>, Seq<u8>), VaultError> {
    if hash_mismatch(data, meta, verify) {
        Err(VaultError::HashMismatch)
    } else if data.len() < SALT_LEN + NONCE_LEN {
        Err(VaultError::Format)
    } else {
        let salt = data.subrange(0, 16);
        let nonce = data.subrange(16, 28);
        let ciphertext = data.subrange(28, data.len() as int);
        let key = spec_derive_key(password, salt);
        match aes256gcm_open(key, nonce, ciphertext) {
            None => Err(VaultError::Decrypt),
            Some(p) => Ok((p, salt, key)),
        }
    }
}

/// The view of an opened vault.
pub open spec fn opened_view(r: Result<(Vec<u8>, [u8; SALT_LEN], [u8; KEY_LEN]), VaultError>)
    -> Result<(Seq<u8>, Seq<u8>, Seq<u8>), VaultError> {
    match r {
        Ok(t) => Ok((t.0@, t.1@, t.2@)),
        Err(e) => Err(e),
    }
}

/// Whether `check` disagrees with the digest of `data` (the check is only
/// made when asked for and when the check line has the `sha256:` form).
fn check_mismatch(data: &[u8], meta: Option<&str>, verify_hash: bool) -> (r: bool)
    ensures
        r == hash_mismatch(data@, opt_chars(meta), verify_hash),
{
    if !verify_hash {
        return false;
    }
    match meta {
        None => false,
        Some(m) => {
            let mc = chars_of(m);
            let t = trim_chars(mc.as_slice());
            let pre = chars_of("sha256:");
            proof {
                reveal_strlit("sha256:");
            }
            if !starts_with(t.as_slice(), pre.as_slice()) {
                return false;
            }
            let mut stored: Vec<char> = Vec::new();
            let mut i: usize = 7;
            while i < t.len()
                invariant
                    7 <= i <= t@.len(),
                    stored@ == t@.subrange(7, i as int),
                decreases t@.len() - i,
            {
                stored.push(t[i]);
                i = i + 1;
                assert(stored@ =~= t@.subrange(7, i as int));
            }
            assert(stored@ =~= t@.skip(7));
            let actual = sha256(data);
            let ac = chars_of(actual.as_str());
            !chars_eq(ac.as_slice(), stored.as_slice())
        },
    }
}

/// Reads a vault file: checks the digest line when asked (a missing or
/// unreadable check line is no error), splits off salt and nonce, derives
/// the key from the master password and decrypts. Returns the plaintext,
/// the salt and the key.
pub fn open_vault(data: &[u8], password: &str, meta: Option<&str>, verify_hash: bool)
    -> (r: Result<(Vec<u8>, [u8; SALT_LEN], [u8; KEY_LEN]), VaultError>)
    ensures
        opened_view(r) == open_spec(data@, password@, opt_chars(meta), verify_hash),
        // what `seal_with_nonce` wrote under the key of this password opens again
        forall|salt: Seq<u8>, nonce: Seq<u8>, p: Seq<u8>|
            #![trigger vault_bytes(salt, nonce, aes256gcm_seal(spec_derive_key(password@, salt), nonce, p))]
            salt.len() == SALT_LEN && nonce.len() == NONCE_LEN && p.len() <= P_MAX
                && data@ == vault_bytes(salt, nonce, aes256gcm_seal(spec_derive_key(password@, salt), nonce, p))
                && !hash_mismatch(data@, opt_chars(meta), verify_hash)
                ==> opened_view(r) == Ok::<(Seq<u8>, Seq<u8>, Seq<u8>), VaultError>((p, salt, spec_derive_key(password@, salt))),
{
    if check_mismatch(data, meta, verify_hash) {
        return Err(VaultError::HashMismatch);
    }
    if data.len() < SALT_LEN + NONCE_LEN {
        return Err(VaultError::Format);
    }
    let salt = array16(data, 0);
    let nonce = copy_range(data, 16, 28);
    let ciphertext = copy_range(data, 28, data.len());
    let key = derive_key(password, salt.as_slice());
    let res = aes256gcm_decrypt(&key, nonce.as_slice(), ciphertext.as_slice());
    proof {
        assert forall|s: Seq<u8>, n: Seq<u8>, p: Seq<u8>|
            s.len() == SALT_LEN && n.len() == NONCE_LEN && p.len() <= P_MAX
                && data@ == vault_bytes(s, n, aes256gcm_seal(spec_derive_key(password@, s), n, p))
            implies s == salt@ && n == nonce@ && ciphertext@ == aes256gcm_seal(key@, nonce@, p) by {
            let c = aes256gcm_seal(spec_derive_key(password@, s), n, p);
            assert(data@.subrange(0, 16) =~= s);
            assert(data@.subrange(16, 28) =~= n);
            assert(data@.subrange(28, data@.len() as int) =~= c);
        }
    }
    match res {
        Err(_) => Err(VaultError::Decrypt),
        Ok(p) => Ok((p, salt, key)),
    }
}

// ───────────────────────── recovery bundles ─────────────────────────

/// The recovery key of a vault: its salt followed by its derived key.
pub fn recovery_bytes(salt: &[u8; SALT_LEN], key: &[u8; KEY_LEN]) -> (r: Vec<u8>)
    ensures
        r@ == salt@ + key@,
{
    let mut r: Vec<u8> = Vec::new();
    append_bytes(&mut r, salt.as_slice());
    append_bytes(&mut r, key.as_slice());
    r
}

/// What importing a vault with a recovery key gives: the plaintext and the
/// salt and key that the recovery file holds.
pub open spec fn import_spec(data: Seq<u8>, recovery: Seq<u8>) -> Result<(Seq<u8>, Seq<u8>, Seq<u8>), VaultError> {
    if data.len() < SALT_LEN + NONCE_LEN {
        Err(VaultError::ImportFormat)
    } else if recovery.len() < SALT_LEN + KEY_LEN {
        Err(VaultError::RecoveryFormat)
    } else {
        let salt = recovery.subrange(0, 16);
        let key = recovery.subrange(16, 48);
        match aes256gcm_open(key, data.subrange(16, 28), data.subrange(28, data.len() as int)) {
            None => Err(VaultError::RecoveryMismatch),
            Some(p) => Ok((p, salt, key)),
        }
    }
}

/// Opens a vault file with a recovery key instead of the master password.
pub fn open_with_recovery(data: &[u8], recovery: &[u8]) -> (r: Result<(Vec<u8>, [u8; SALT_LEN], [u8; KEY_LEN]), VaultError>)
    ensures
        opened_view(r) == import_spec(data@, recovery@),
        // an exported bundle opens again
        forall|salt: Seq<u8>, nonce: Seq<u8>, key: Seq<u8>, p: Seq<u8>|
            #![trigger vault_bytes(salt, nonce, aes256gcm_seal(key, nonce, p)), salt + key]
            salt.len() == SALT_LEN && nonce.len() == NONCE_LEN && key.len() == KEY_LEN && p.len() <= P_MAX
                && data@ == vault_bytes(salt, nonce, aes256gcm_seal(key, nonce, p))
                && recovery@ == salt + key
                ==> opened_view(r) == Ok::<(Seq<u8>, Seq<u8>, Seq<u8>), VaultError>((p, salt, key)),
{
    if data.len() < SALT_LEN + NONCE_LEN {
        return Err(VaultError::ImportFormat);
    }
    if recovery.len() < SALT_LEN + KEY_LEN {
        return Err(VaultError::RecoveryFormat);
    }
    let salt = array16(recovery, 0);
    let key = array32(recovery, 16);
    let nonce = copy_range(data, 16, 28);
    let ciphertext = copy_range(data, 28, data.len());
    let res = aes256gcm_decrypt(&key, nonce.as_slice(), ciphertext.as_slice());
    proof {
        assert forall|s: Seq<u8>, n: Seq<u8>, k: Seq<u8>, p: Seq<u8>|
            s.len() == SALT_LEN && n.len() == NONCE_LEN && k.len() == KEY_LEN && p.len() <= P_MAX
                && data@ == vault_bytes(s, n, aes256gcm_seal(k, n, p)) && recovery@ == s + k
            implies s == salt@ && k == key@ && n == nonce@ && ciphertext@ == aes256gcm_seal(key@, nonce@, p) by {
            let c = aes256gcm_seal(k, n, p);
            assert(data@.subrange(16, 28) =~= n);
            assert(data@.subrange(28, data@.len() as int) =~= c);
            assert(recovery@.subrange(0, 16) =~= s);
            assert(recovery@.subrange(16, 48) =~= k);
        }
    }
    match res {
        Err(_) => Err(VaultError::RecoveryMismatch),
        Ok(p) => Ok((p, salt, key)),
    }
}

} // verus!
