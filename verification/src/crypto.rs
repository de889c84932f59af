//! The `Rivers.crypto` helpers offered to handlers: random tokens, password
//! hashing, constant-time comparison, HMAC and digests, all rendered as
//! text.

use vstd::prelude::*;
use vstd::string::*;
use crate::text::push_str;

verus! {

/// bcrypt cost used for password hashes.
pub const BCRYPT_COST: u32 = 12;

/// Largest number of random bytes a handler may ask for.
pub const MAX_RANDOM_BYTES: usize = 1024;

/// Number of random bytes when the handler asks for none.
pub const DEFAULT_RANDOM_BYTES: i32 = 16;

/// The lowercase hexadecimal digit for `n < 16`.
pub open spec fn hex_digit(n: nat) -> char {
    if n < 10 {
        (48 + n) as char
    } else {
        (87 + n) as char
    }
}

/// Lowercase hexadecimal rendering of bytes, two digits per byte, most
/// significant digit first.
pub open spec fn hex_lower(bytes: Seq<u8>) -> Seq<char>
    decreases bytes.len(),
{
    if bytes.len() == 0 {
        Seq::empty()
    } else {
        hex_lower(bytes.drop_last()) + seq![
            hex_digit((bytes.last() / 16) as nat),
            hex_digit((bytes.last() % 16) as nat),
        ]
    }
}

/// SHA-256 digest of the bytes.
pub uninterp spec fn sha256_digest(data: Seq<u8>) -> Seq<u8>;

/// SHA-512 digest of the bytes.
pub uninterp spec fn sha512_digest(data: Seq<u8>) -> Seq<u8>;

/// HMAC-SHA256 tag of `data` under `key`.
pub uninterp spec fn hmac_sha256_tag(key: Seq<u8>, data: Seq<u8>) -> Seq<u8>;

/// Whether `password` matches the bcrypt `hash` (`None` when the hash
/// cannot be read).
pub uninterp spec fn bcrypt_verified(password: Seq<u8>, hash: Seq<char>) -> Option<bool>;

/// The URL-safe base64 digit for a six-bit value: `A`-`Z`, `a`-`z`,
/// `0`-`9`, `-`, `_`.
pub open spec fn b64url_digit(n: int) -> char {
    if n < 26 {
        (65 + n) as char
    } else if n < 52 {
        (97 + n - 26) as char
    } else if n < 62 {
        (48 + n - 52) as char
    } else if n == 62 {
        '-'
    } else {
        '_'
    }
}

/// URL-safe base64 of the bytes, without padding: every three bytes give
/// four digits; one or two bytes left over give two or three.
pub open spec fn base64url_nopad(data: Seq<u8>) -> Seq<char>
    decreases data.len(),
{
    if data.len() == 0 {
        Seq::empty()
    } else {
        let b0 = data[0] as int;
        if data.len() == 1 {
            seq![b64url_digit(b0 / 4), b64url_digit((b0 % 4) * 16)]
        } else {
            let b1 = data[1] as int;
            if data.len() == 2 {
                seq![
                    b64url_digit(b0 / 4),
                    b64url_digit((b0 % 4) * 16 + b1 / 16),
                    b64url_digit((b1 % 16) * 4),
                ]
            } else {
                let b2 = data[2] as int;
                seq![
                    b64url_digit(b0 / 4),
                    b64url_digit((b0 % 4) * 16 + b1 / 16),
                    b64url_digit((b1 % 16) * 4 + b2 / 64),
                    b64url_digit(b2 % 64),
                ] + base64url_nopad(data.skip(3))
            }
        }
    }
}

/// Encodes bytes as lowercase hexadecimal with `hex::encode`, which the
/// crate documents as lowercase, two digits per byte.
#[verifier::external_body]
fn hex_encode(bytes: &[u8]) -> (r: String)
    ensures
        r@ == hex_lower(bytes@),
{
    hex::encode(bytes)
}

/// `n` bytes from the thread-local random generator of `rand`. Only the
/// length is stated.
#[verifier::external_body]
fn random_bytes(n: usize) -> (r: Vec<u8>)
    ensures
        r@.len() == n,
{
    let mut v = vec![0u8; n];
    rand::Rng::fill(&mut rand::thread_rng(), &mut v[..]);
    v
}

/// SHA-256 digest with `sha2::Sha256::digest`; named `sha256_digest`,
/// 32 bytes long.
#[verifier::external_body]
fn sha256(data: &[u8]) -> (r: Vec<u8>)
    ensures
        r@ == sha256_digest(data@),
        r@.len() == 32,
{
    <sha2::Sha256 as sha2::Digest>::digest(data).to_vec()
}

/// SHA-512 digest with `sha2::Sha512::digest`; named `sha512_digest`,
/// 64 bytes long.
#[verifier::external_body]
fn sha512(data: &[u8]) -> (r: Vec<u8>)
    ensures
        r@ == sha512_digest(data@),
        r@.len() == 64,
{
    <sha2::Sha512 as sha2::Digest>::digest(data).to_vec()
}

/// HMAC-SHA256 with `hmac::Hmac<sha2::Sha256>`: the key is taken with
/// `new_from_slice` (its error, if any, as text), the data fed in, and the
/// tag finalized. A tag is named `hmac_sha256_tag(key, data)`. HMAC takes
/// a key of any length (a long one is hashed first), so `new_from_slice`
/// never refuses one and the call always yields a tag.
#[verifier::external_body]
fn hmac_sha256(key: &[u8], data: &[u8]) -> (r: Result<Vec<u8>, String>)
    ensures
        r is Ok,
        r matches Ok(t) ==> t@ == hmac_sha256_tag(key@, data@),
{
    match <hmac::Hmac<sha2::Sha256> as hmac::Mac>::new_from_slice(key) {
        Ok(mut mac) => {
            hmac::Mac::update(&mut mac, data);
            Ok(hmac::Mac::finalize(mac).into_bytes().to_vec())
        },
        Err(e) => Err(e.to_string()),
    }
}

/// The start of a bcrypt hash text at `cost` (4 to 31): `$2b$`, the cost
/// in two decimal digits, and `$`.
pub open spec fn bcrypt_prefix(cost: u32) -> Seq<char> {
    "$2b$"@ + seq![(48 + cost / 10) as char, (48 + cost % 10) as char] + "$"@
}

/// Hashes a password with `bcrypt::hash` at the given cost (its error as
/// text). A cost outside 4 to 31 is refused (`CostNotAllowed`); drawing the
/// random salt from the OS may fail too, so success is not promised. The
/// salt and the hash bytes are random, so the text is stated only as far as
/// the crate's `HashParts` formatting fixes it: 60 characters that start
/// with `$2b$`, the two-digit cost and `$`; and `bcrypt::verify` accepts
/// the password against it (it recomputes the hash with the salt and cost
/// it reads back from the text).
#[verifier::external_body]
fn bcrypt_hash(password: &[u8], cost: u32) -> (r: Result<String, String>)
    ensures
        r matches Ok(h) ==> bcrypt_verified(password@, h@) == Some(true),
        r matches Ok(h) ==> 4 <= cost <= 31 && h@.len() == 60 && h@.subrange(0, 7)
            == bcrypt_prefix(cost),
        !(4 <= cost <= 31) ==> r is Err,
{
    match bcrypt::hash(password, cost) {
        Ok(h) => Ok(h),
        Err(e) => Err(e.to_string()),
    }
}

/// Checks a password against a bcrypt hash with `bcrypt::verify`. The
/// outcome is named `bcrypt_verified(password, hash)`.
#[verifier::external_body]
fn bcrypt_verify(password: &[u8], hash: &str) -> (r: Option<bool>)
    ensures
        r == bcrypt_verified(password@, hash@),
{
    bcrypt::verify(password, hash).ok()
}

/// Encodes bytes as URL-safe base64 without padding with `base64`'s
/// `URL_SAFE_NO_PAD` engine, which writes what `base64url_nopad` states
/// (the URL-safe alphabet, no `=` padding).
#[verifier::external_body]
fn base64url_encode(data: &[u8]) -> (r: String)
    ensures
        r@ == base64url_nopad(data@),
{
    base64::Engine::encode(&base64::engine::general_purpose::URL_SAFE_NO_PAD, data)
}

/// The number of random bytes produced for a request: the requested
/// count, taken as an address-sized number, capped at 1024 (a negative
/// request becomes a huge number, hence the cap). `None` stands for a
/// request that could not be read as a number, which falls back to 16; a
/// call made with no argument at all reads as 0 and is `Some(0)`.
pub open spec fn random_len_for(requested: Option<i32>) -> nat {
    let n: i32 = match requested {
        Some(v) => v,
        None => DEFAULT_RANDOM_BYTES,
    };
    if (n as usize) < MAX_RANDOM_BYTES {
        (n as usize) as nat
    } else {
        MAX_RANDOM_BYTES as nat
    }
}

/// The number of random bytes produced for a request.
pub fn random_len(requested: Option<i32>) -> (r: usize)
    ensures
        r == random_len_for(requested),
{
    let n: i32 = match requested {
        Some(v) => v,
        None => DEFAULT_RANDOM_BYTES,
    };
    let len = n as usize;
    if len < MAX_RANDOM_BYTES {
        len
    } else {
        MAX_RANDOM_BYTES
    }
}

/// Random bytes rendered as lowercase hexadecimal.
pub fn random_hex(requested: Option<i32>) -> (r: String)
    ensures
        exists|b: Seq<u8>| b.len() == random_len_for(requested) && r@ == hex_lower(b),
        r@.len() == 2 * random_len_for(requested),
{
    let n = random_len(requested);
    let bytes = random_bytes(n);
    proof {
        lemma_hex_len(bytes@);
    }
    hex_encode(bytes.as_slice())
}

/// Unpadded base64 of `n` bytes has `(4n + 2) / 3` digits.
pub proof fn lemma_base64url_len(b: Seq<u8>)
    ensures
        base64url_nopad(b).len() == (4 * b.len() + 2) / 3,
    decreases b.len(),
{
    if b.len() >= 3 {
        lemma_base64url_len(b.skip(3));
    }
}

/// Random bytes rendered as URL-safe base64 without padding.
pub fn random_base64url(requested: Option<i32>) -> (r: String)
    ensures
        exists|b: Seq<u8>| b.len() == random_len_for(requested) && r@ == base64url_nopad(b),
        r@.len() == (4 * random_len_for(requested) + 2) / 3,
{
    let n = random_len(requested);
    let bytes = random_bytes(n);
    proof {
        lemma_base64url_len(bytes@);
    }
    base64url_encode(bytes.as_slice())
}

/// Hashes a password with bcrypt at cost 12; a failure is reported as
/// `hashPassword failed: <reason>`. The hash is a 60-character bcrypt
/// text of version 2b at cost 12, and the password verifies against it.
pub fn hash_password(password: &str) -> (r: Result<String, String>)
    ensures
        r matches Ok(h) ==> bcrypt_verified(password.spec_bytes(), h@) == Some(true),
        r matches Ok(h) ==> h@.len() == 60 && h@.subrange(0, 7) == "$2b$12$"@,
        r matches Err(m) ==> exists|e: Seq<char>| m@ == "hashPassword failed: "@ + e,
{
    match bcrypt_hash(password.as_bytes(), BCRYPT_COST) {
        Ok(h) => {
            proof {
                reveal_strlit("$2b$");
                reveal_strlit("$");
                reveal_strlit("$2b$12$");
                assert(bcrypt_prefix(BCRYPT_COST) =~= "$2b$12$"@);
            }
            Ok(h)
        },
        Err(e) => {
            let mut m = String::new();
            push_str(&mut m, "hashPassword failed: ");
            push_str(&mut m, e.as_str());
            Err(m)
        },
    }
}

/// Whether a password matches a bcrypt hash; an unreadable hash matches
/// nothing.
pub fn verify_password(password: &str, hash: &str) -> (r: bool)
    ensures
        r == (bcrypt_verified(password.spec_bytes(), hash@) == Some(true)),
{
    match bcrypt_verify(password.as_bytes(), hash) {
        Some(v) => v,
        None => false,
    }
}

/// Whether two strings have the same bytes, compared without stopping at
/// the first difference.
pub fn timing_safe_equal(a: &str, b: &str) -> (r: bool)
    ensures
        r == (a.spec_bytes() == b.spec_bytes()),
{
    let x = a.as_bytes();
    let y = b.as_bytes();
    if x.len() != y.len() {
        return false;
    }
    let mut acc: u8 = 0;
    let mut i: usize = 0;
    while i < x.len()
        invariant
            x@.len() == y@.len(),
            i <= x@.len(),
            (acc == 0) == (forall|j: int| 0 <= j < i ==> x@[j] == y@[j]),
        decreases x@.len() - i,
    {
        let xi = x[i];
        let yi = y[i];
        let next = acc | (xi ^ yi);
        proof {
            assert((next == 0) == (acc == 0 && xi == yi)) by (bit_vector)
                requires
                    next == acc | (xi ^ yi),
            ;
            if acc == 0 && xi == yi {
                assert forall|j: int| 0 <= j < i + 1 implies x@[j] == y@[j] by {
                    if j < i {
                    } else {
                        assert(x@[j] == xi && y@[j] == yi);
                    }
                }
            }
            if !(acc == 0 && xi == yi) {
                if acc != 0 {
                    let k = choose|j: int| 0 <= j < i && x@[j] != y@[j];
                    assert(0 <= k < i + 1 && x@[k] != y@[k]);
                } else {
                    assert(x@[i as int] != y@[i as int]);
                }
            }
        }
        acc = next;
        i = i + 1;
    }
    proof {
        if acc == 0 {
            assert(x@ =~= y@);
        }
    }
    acc == 0
}

/// Lowercase hexadecimal HMAC-SHA256 of `data` under `key`. A key the MAC
/// refused would be reported as `Rivers.crypto.hmac() key error: <reason>`;
/// HMAC accepts every key.
pub fn hmac_hex(key: &str, data: &str) -> (r: Result<String, String>)
    ensures
        r is Ok,
        r matches Ok(h) ==> h@ == hex_lower(hmac_sha256_tag(key.spec_bytes(), data.spec_bytes())),
{
    match hmac_sha256(key.as_bytes(), data.as_bytes()) {
        Ok(tag) => Ok(hex_encode(tag.as_slice())),
        Err(e) => {
            let mut m = String::new();
            push_str(&mut m, "Rivers.crypto.hmac() key error: ");
            push_str(&mut m, e.as_str());
            Err(m)
        },
    }
}

/// Lowercase hexadecimal SHA-256 of the input's bytes.
pub fn sha256_hex(input: &str) -> (r: String)
    ensures
        r@ == hex_lower(sha256_digest(input.spec_bytes())),
        r@.len() == 64,
{
    let d = sha256(input.as_bytes());
    proof {
        lemma_hex_len(d@);
    }
    hex_encode(d.as_slice())
}

/// Lowercase hexadecimal SHA-512 of the input's bytes.
pub fn sha512_hex(input: &str) -> (r: String)
    ensures
        r@ == hex_lower(sha512_digest(input.spec_bytes())),
        r@.len() == 128,
{
    let d = sha512(input.as_bytes());
    proof {
        lemma_hex_len(d@);
    }
    hex_encode(d.as_slice())
}

/// Hexadecimal rendering takes two digits per byte.
pub proof fn lemma_hex_len(b: Seq<u8>)
    ensures
        hex_lower(b).len() == 2 * b.len(),
    decreases b.len(),
{
    if b.len() > 0 {
        lemma_hex_len(b.drop_last());
    }
}

/// How a keystore decryption failed.
pub enum DecryptFailure {
    /// No key of that name.
    KeyNotFound(String),
    /// No such version of the key.
    KeyVersionNotFound(String),
    /// Any other failure (bad ciphertext, nonce, tag or AAD).
    Other(String),
}

/// The message a handler sees for a failed decryption: the keystore's
/// message for a missing key or key version, and only `decryption failed`
/// otherwise, so that nothing is learnt about the ciphertext.
pub fn decrypt_error_message(f: &DecryptFailure) -> (r: String)
    ensures
        match f {
            DecryptFailure::KeyNotFound(m) => r@ == m@,
            DecryptFailure::KeyVersionNotFound(m) => r@ == m@,
            DecryptFailure::Other(_) => r@ == "decryption failed"@,
        },
{
    match f {
        DecryptFailure::KeyNotFound(m) => m.clone(),
        DecryptFailure::KeyVersionNotFound(m) => m.clone(),
        DecryptFailure::Other(_) => "decryption failed".to_owned(),
    }
}

/// The key version a decryption must name; its absence is an error.
pub fn decrypt_key_version(requested: Option<u32>) -> (r: Result<u32, String>)
    ensures
        match requested {
            Some(v) => r == Ok::<u32, String>(v),
            None => r matches Err(m) && m@ == "Rivers.crypto.decrypt: options.key_version is required"@,
        },
{
    match requested {
        Some(v) => Ok(v),
        None => Err("Rivers.crypto.decrypt: options.key_version is required".to_owned()),
    }
}

/// What the task's lockbox made of the first argument of
/// `Rivers.crypto.hmac`.
pub enum LockboxLookup {
    /// The task has no lockbox (development and tests).
    NoLockbox,
    /// The lockbox knows no such alias.
    UnknownAlias,
    /// Fetching the aliased secret failed.
    FetchFailed(String),
    /// The aliased secret.
    Secret(String),
}

/// The HMAC key for `Rivers.crypto.hmac`: the secret the argument names
/// in the lockbox; without a lockbox, the argument itself.
pub fn hmac_key(alias_or_key: &str, lookup: LockboxLookup) -> (r: Result<String, String>)
    ensures
        match lookup {
            LockboxLookup::NoLockbox => r matches Ok(k) && k@ == alias_or_key@,
            LockboxLookup::UnknownAlias => r matches Err(m) && m@ == "lockbox alias not found: '"@
                + alias_or_key@ + "'"@,
            LockboxLookup::FetchFailed(e) => r matches Err(m) && m@ == "lockbox fetch failed: "@ + e@,
            LockboxLookup::Secret(k) => r matches Ok(x) && x@ == k@,
        },
{
    match lookup {
        LockboxLookup::NoLockbox => Ok(alias_or_key.to_owned()),
        LockboxLookup::UnknownAlias => {
            let mut m = String::new();
            push_str(&mut m, "lockbox alias not found: '");
            push_str(&mut m, alias_or_key);
            push_str(&mut m, "'");
            Err(m)
        },
        LockboxLookup::FetchFailed(e) => {
            let mut m = String::new();
            push_str(&mut m, "lockbox fetch failed: ");
            push_str(&mut m, e.as_str());
            Err(m)
        },
        LockboxLookup::Secret(k) => Ok(k),
    }
}

/// The error of a keystore operation in a task without a keystore: the
/// encryption calls name the missing resource, the key lookups do not.
pub fn keystore_missing_message(for_encryption: bool) -> (r: &'static str)
    ensures
        r@ == if for_encryption {
            "keystore not configured: no [[keystores]] resource declared"@
        } else {
            "keystore not configured"@
        },
{
    if for_encryption {
        "keystore not configured: no [[keystores]] resource declared"
    } else {
        "keystore not configured"
    }
}

/// A hexadecimal digit, either case.
pub open spec fn is_hex_char(c: char) -> bool {
    ('0' <= c <= '9') || ('a' <= c <= 'f') || ('A' <= c <= 'F')
}

/// The value of a hexadecimal digit (either case).
pub open spec fn hex_char_value(c: char) -> int {
    if '0' <= c <= '9' {
        c as int - 48
    } else if 'a' <= c <= 'f' {
        c as int - 87
    } else {
        c as int - 55
    }
}

/// Text made of pairs of hexadecimal digits (either case), the empty text
/// included.
pub open spec fn is_hex_pairs(s: Seq<char>) -> bool {
    &&& s.len() % 2 == 0
    &&& forall|i: int| 0 <= i < s.len() ==> is_hex_char(#[trigger] s[i])
}

/// The bytes that pairs of hexadecimal digits stand for, high digit first.
pub open spec fn hex_bytes(s: Seq<char>) -> Seq<u8> {
    Seq::new(
        s.len() / 2,
        |i: int| (hex_char_value(s[2 * i]) * 16 + hex_char_value(s[2 * i + 1])) as u8,
    )
}

/// Decodes hexadecimal text with `hex::decode`, which refuses an odd
/// length and any byte that is not a hexadecimal digit (either case) and
/// otherwise reads each pair as one byte, high digit first. Hexadecimal
/// digits are ASCII, so stated over the characters this is the same. The
/// error is dropped.
#[verifier::external_body]
fn hex_decode(s: &str) -> (r: Option<Vec<u8>>)
    ensures
        r is Some <==> is_hex_pairs(s@),
        r matches Some(b) ==> b@ == hex_bytes(s@),
{
    hex::decode(s).ok()
}

/// Hex SHA-256 of a request body, as the admin signature covers it.
pub fn admin_body_hash(body: &[u8]) -> (r: String)
    ensures
        r@ == hex_lower(sha256_digest(body@)),
        r@.len() == 64,
{
    let d = sha256(body);
    proof {
        lemma_hex_len(d@);
    }
    hex_encode(d.as_slice())
}

/// The admin caller's RBAC identity: hex SHA-256 of the public key text.
pub fn admin_identity(public_key: &str) -> (r: String)
    ensures
        r@ == hex_lower(sha256_digest(public_key.spec_bytes())),
        r@.len() == 64,
{
    sha256_hex(public_key)
}

/// Decodes the admin signature header: `None` unless it is pairs of
/// hexadecimal digits (either case); else the bytes they stand for.
pub fn decode_signature_hex(sig: &str) -> (r: Option<Vec<u8>>)
    ensures
        r is Some <==> is_hex_pairs(sig@),
        r matches Some(b) ==> b@ == hex_bytes(sig@),
{
    hex_decode(sig)
}

} // verus!
