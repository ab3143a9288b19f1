//! Hashing of keys and passwords, generation of keys, passwords and
//! identifiers, and the check of an API key's form.
use vstd::prelude::*;
use vstd::string::*;
use crate::text::{push_char, seq_starts_with, str_starts_with};
use crate::errors::CommonError;

verus! {

#[verifier::external_type_specification]
#[verifier::external_body]
pub struct ExUuid(uuid::Uuid);

#[verifier::external_type_specification]
#[verifier::external_body]
pub struct ExBcryptError(bcrypt::BcryptError);

/// The SHA-256 digest of a byte string.
pub uninterp spec fn sha256_of(data: Seq<u8>) -> Seq<u8>;

/// Calls `sha2::Sha256::digest`. Claims that the result is the digest of
/// `data`, 32 bytes long.
#[verifier::external_body]
fn sha256_digest(data: &[u8]) -> (d: Vec<u8>)
    ensures
        d@ == sha256_of(data@),
        d@.len() == 32,
{
    <sha2::Sha256 as sha2::Digest>::digest(data).to_vec()
}

/// Calls `rand::random::<u8>`. Nothing is claimed of the byte.
#[verifier::external_body]
fn random_byte() -> (b: u8) {
    rand::random::<u8>()
}

/// The lowercase hexadecimal digit of a value below sixteen.
pub open spec fn hex_digit(n: int) -> char {
    if n < 10 {
        (('0' as int) + n) as char
    } else {
        (('a' as int) + n - 10) as char
    }
}

/// The lowercase hexadecimal text of a byte string, two digits per byte,
/// high digit first.
pub open spec fn hex_lower(bytes: Seq<u8>) -> Seq<char>
    decreases bytes.len(),
{
    if bytes.len() == 0 {
        Seq::empty()
    } else {
        hex_lower(bytes.drop_last()) + seq![
            hex_digit(bytes.last() as int / 16),
            hex_digit(bytes.last() as int % 16),
        ]
    }
}

/// Each character is a lowercase hexadecimal digit.
pub open spec fn is_lower_hex(s: Seq<char>) -> bool {
    forall|i: int| 0 <= i < s.len() ==> ('0' <= #[trigger] s[i] <= '9' || 'a' <= s[i] <= 'f')
}

pub proof fn lemma_hex_lower_shape(bytes: Seq<u8>)
    ensures
        hex_lower(bytes).len() == 2 * bytes.len(),
        is_lower_hex(hex_lower(bytes)),
    decreases bytes.len(),
{
    if bytes.len() > 0 {
        lemma_hex_lower_shape(bytes.drop_last());
        let h = hex_lower(bytes);
        let prev = hex_lower(bytes.drop_last());
        assert forall|i: int| 0 <= i < h.len() implies ('0' <= #[trigger] h[i] <= '9' || 'a' <= h[i] <= 'f') by {
            if i < prev.len() {
                assert(h[i] == prev[i]);
            }
        }
    }
}

fn hex_char(n: u8) -> (c: char)
    requires
        n < 16,
    ensures
        c == hex_digit(n as int),
{
    if n < 10 {
        (48u8 + n) as char
    } else {
        (87u8 + n) as char
    }
}

/// The lowercase hexadecimal text of a byte string.
pub fn to_hex_lower(bytes: &[u8]) -> (s: String)
    ensures
        s@ == hex_lower(bytes@),
{
    let mut s = String::new();
    let mut i: usize = 0;
    while i < bytes.len()
        invariant
            i <= bytes@.len(),
            s@ == hex_lower(bytes@.subrange(0, i as int)),
        decreases bytes@.len() - i,
    {
        let b = bytes[i];
        let hi = hex_char(b / 16);
        let lo = hex_char(b % 16);
        let ghost prev = s@;
        push_char(&mut s, hi);
        push_char(&mut s, lo);
        let ghost next = bytes@.subrange(0, i as int + 1);
        assert(next.drop_last() =~= bytes@.subrange(0, i as int));
        assert(s@ =~= prev + seq![hi, lo]);
        i = i + 1;
    }
    assert(bytes@.subrange(0, bytes@.len() as int) =~= bytes@);
    s
}

/// The SHA-256 digest of the UTF-8 bytes of `input`, in lowercase hex.
pub fn sha256_hash(input: &str) -> (h: String)
    ensures
        h@ == hex_lower(sha256_of(input.spec_bytes())),
        h@.len() == 64,
        is_lower_hex(h@),
{
    let d = sha256_digest(input.as_bytes());
    proof {
        lemma_hex_lower_shape(d@);
    }
    to_hex_lower(d.as_slice())
}

/// The stored form of an API key: its SHA-256 digest in lowercase hex.
pub fn hash_key(key: &str) -> (h: String)
    ensures
        h@ == hex_lower(sha256_of(key.spec_bytes())),
        h@.len() == 64,
        is_lower_hex(h@),
{
    sha256_hash(key)
}

/// Whether bcrypt accepts `password` against `hash`: `Some` verdict, or
/// `None` when the hash is malformed.
pub uninterp spec fn bcrypt_verdict(password: Seq<u8>, hash: Seq<char>) -> Option<bool>;

/// Calls `bcrypt::hash` with `bcrypt::DEFAULT_COST` (12). The salt is random,
/// so nothing is claimed of the text, except that bcrypt accepts the
/// password against it (the crate's documented use of `hash` and `verify`).
#[verifier::external_body]
pub fn hash_password(password: &str) -> (r: Result<String, bcrypt::BcryptError>)
    ensures
        r matches Ok(h) ==> bcrypt_verdict(password.spec_bytes(), h@) == Some(true),
{
    bcrypt::hash(password, bcrypt::DEFAULT_COST)
}

/// Calls `bcrypt::verify`. Claims that the outcome is bcrypt's verdict on
/// the password and hash.
#[verifier::external_body]
pub fn verify_password(password: &str, hash: &str) -> (r: Result<bool, bcrypt::BcryptError>)
    ensures
        match r {
            Ok(v) => bcrypt_verdict(password.spec_bytes(), hash@) == Some(v),
            Err(_) => bcrypt_verdict(password.spec_bytes(), hash@) is None,
        },
{
    bcrypt::verify(password, hash)
}

pub const PASSWORD_CHARSET: &'static str =
    "ABCDEFGHIJKLMNOPQRSTUVWXYZabcdefghijklmnopqrstuvwxyz0123456789!@#$%^&*";

/// The characters a generated password is drawn from.
pub open spec fn password_charset() -> Seq<char> {
    PASSWORD_CHARSET@
}

/// The password that a string of random bytes stands for: each byte picks
/// the character at its value modulo the size of the character set.
pub open spec fn password_of_bytes(bytes: Seq<u8>) -> Seq<char> {
    Seq::new(bytes.len(), |i: int| password_charset()[bytes[i] as int % 70])
}

/// The password that the given random bytes stand for.
pub fn password_from_bytes(bytes: &[u8]) -> (s: String)
    ensures
        s@ == password_of_bytes(bytes@),
{
    proof {
        reveal_strlit("ABCDEFGHIJKLMNOPQRSTUVWXYZabcdefghijklmnopqrstuvwxyz0123456789!@#$%^&*");
    }
    let mut s = String::new();
    let mut i: usize = 0;
    while i < bytes.len()
        invariant
            i <= bytes@.len(),
            password_charset().len() == 70,
            s@ == password_of_bytes(bytes@.subrange(0, i as int)),
        decreases bytes@.len() - i,
    {
        let idx = (bytes[i] % 70) as usize;
        let c = PASSWORD_CHARSET.get_char(idx);
        let ghost prev = s@;
        push_char(&mut s, c);
        i = i + 1;
        assert(s@ =~= password_of_bytes(bytes@.subrange(0, i as int)));
    }
    assert(bytes@.subrange(0, bytes@.len() as int) =~= bytes@);
    s
}

/// `count` random bytes.
pub(crate) fn random_bytes(count: usize) -> (v: Vec<u8>)
    ensures
        v@.len() == count,
{
    let mut v: Vec<u8> = Vec::new();
    let mut i: usize = 0;
    while i < count
        invariant
            i <= count,
            v@.len() == i,
        decreases count - i,
    {
        v.push(random_byte());
        i = i + 1;
    }
    v
}

/// A random password of `length` characters for a bootstrapped administrator.
pub fn generate_secure_password(length: usize) -> (s: String)
    ensures
        exists|bytes: Seq<u8>| bytes.len() == length && s@ == password_of_bytes(bytes),
        s@.len() == length,
{
    let bytes = random_bytes(length);
    password_from_bytes(bytes.as_slice())
}

/// The API key that random bytes stand for: the prefix, an underscore, and
/// the bytes in lowercase hex.
pub open spec fn api_key_of_bytes(prefix: Seq<char>, bytes: Seq<u8>) -> Seq<char> {
    prefix + seq!['_'] + hex_lower(bytes)
}

/// The API key with the given prefix over the given random bytes.
pub fn api_key_from_bytes(prefix: &str, bytes: &[u8]) -> (s: String)
    ensures
        s@ == api_key_of_bytes(prefix@, bytes@),
{
    let mut s = prefix.to_owned();
    push_char(&mut s, '_');
    let hex = to_hex_lower(bytes);
    s.append(hex.as_str());
    s
}

/// A fresh API key: the prefix, an underscore and 32 random bytes in hex.
pub fn generate_api_key(prefix: &str) -> (s: String)
    ensures
        exists|bytes: Seq<u8>| bytes.len() == 32 && s@ == api_key_of_bytes(prefix@, bytes),
{
    let bytes = random_bytes(32);
    api_key_from_bytes(prefix, bytes.as_slice())
}

/// A key has the form of an API key with the prefix: it starts with the
/// prefix and is at least two bytes longer.
pub open spec fn api_key_format_ok(key: Seq<char>, prefix: Seq<char>, key_bytes: int, prefix_bytes: int) -> bool {
    seq_starts_with(key, prefix) && key_bytes > prefix_bytes + 1
}

proof fn lemma_encode_utf8_concat(a: Seq<char>, b: Seq<char>)
    ensures
        vstd::utf8::encode_utf8(a + b) == vstd::utf8::encode_utf8(a) + vstd::utf8::encode_utf8(b),
    decreases a.len(),
{
    if a.len() == 0 {
        assert(a + b =~= b);
        assert(vstd::utf8::encode_utf8(a) =~= Seq::<u8>::empty());
        assert(Seq::<u8>::empty() + vstd::utf8::encode_utf8(b) =~= vstd::utf8::encode_utf8(b));
    } else {
        assert((a + b)[0] == a[0]);
        assert((a + b).drop_first() =~= a.drop_first() + b);
        lemma_encode_utf8_concat(a.drop_first(), b);
        let x = vstd::utf8::encode_scalar(a[0] as u32);
        assert(x + (vstd::utf8::encode_utf8(a.drop_first()) + vstd::utf8::encode_utf8(b))
            =~= (x + vstd::utf8::encode_utf8(a.drop_first())) + vstd::utf8::encode_utf8(b));
    }
}

proof fn lemma_encode_utf8_len(s: Seq<char>)
    ensures
        vstd::utf8::encode_utf8(s).len() >= s.len(),
    decreases s.len(),
{
    if s.len() > 0 {
        lemma_encode_utf8_len(s.drop_first());
        assert(vstd::utf8::encode_scalar(s[0] as u32).len() >= 1);
    }
}

/// A generated API key has the form of an API key with its prefix: it
/// starts with the prefix and is longer than it by more than one byte.
pub proof fn lemma_generated_key_is_valid(prefix: Seq<char>, bytes: Seq<u8>)
    requires
        bytes.len() == 32,
    ensures
        api_key_format_ok(
            api_key_of_bytes(prefix, bytes),
            prefix,
            vstd::utf8::encode_utf8(api_key_of_bytes(prefix, bytes)).len() as int,
            vstd::utf8::encode_utf8(prefix).len() as int,
        ),
{
    let rest = seq!['_'] + hex_lower(bytes);
    let key = api_key_of_bytes(prefix, bytes);
    assert(key =~= prefix + rest);
    lemma_hex_lower_shape(bytes);
    lemma_encode_utf8_concat(prefix, rest);
    lemma_encode_utf8_len(rest);
    assert(key.subrange(0, prefix.len() as int) =~= prefix);
}

/// Whether `key` has the form of an API key with `prefix`. Lengths are
/// counted in UTF-8 bytes.
pub fn validate_api_key_format(key: &str, prefix: &str) -> (r: bool)
    ensures
        r == api_key_format_ok(key@, prefix@, key.spec_bytes().len() as int, prefix.spec_bytes().len() as int),
{
    let key_bytes = key.as_bytes().len();
    let prefix_bytes = prefix.as_bytes().len();
    str_starts_with(key, prefix) && key_bytes > prefix_bytes && key_bytes - prefix_bytes > 1
}

/// Calls `uuid::Uuid::new_v4`. The identifier is random; nothing is claimed.
#[verifier::external_body]
pub fn generate_uuid() -> (u: uuid::Uuid) {
    uuid::Uuid::new_v4()
}

/// Calls `uuid::Uuid::new_v4` and formats it. The identifier is random;
/// the text is its hyphenated form, 36 characters long.
#[verifier::external_body]
fn random_uuid_text() -> (s: String)
    ensures
        s@.len() == 36,
{
    uuid::Uuid::new_v4().to_string()
}

/// A fresh request identifier: `req-` followed by a random UUID.
pub fn generate_request_id() -> (s: String)
    ensures
        seq_starts_with(s@, "req-"@),
        s@.len() == 40,
{
    let mut s = "req-".to_owned();
    let u = random_uuid_text();
    s.append(u.as_str());
    proof {
        reveal_strlit("req-");
        assert(s@.subrange(0, 4) =~= "req-"@);
    }
    s
}

/// An ASCII hexadecimal digit, in either case.
pub open spec fn is_hex_byte(c: u8) -> bool {
    (0x30 <= c <= 0x39) || (0x61 <= c <= 0x66) || (0x41 <= c <= 0x46)
}

/// The hyphenated form of a UUID: 36 bytes, hyphens at positions 8, 13, 18
/// and 23, hexadecimal digits elsewhere.
pub open spec fn hyphenated_uuid(b: Seq<u8>) -> bool {
    b.len() == 36 && forall|i: int| 0 <= i < 36 ==> if i == 8 || i == 13 || i == 18 || i == 23 {
        #[trigger] b[i] == 0x2d
    } else {
        is_hex_byte(b[i])
    }
}

/// An ASCII letter in lower case; any other byte as it is.
pub open spec fn ascii_lower(c: u8) -> u8 {
    if 0x41 <= c <= 0x5a { (c + 32) as u8 } else { c }
}

/// The texts `uuid::Uuid::parse_str` reads as a UUID: 32 hexadecimal digits;
/// the hyphenated form; the hyphenated form in braces; or `urn:uuid:` (in
/// any case) followed by the hyphenated form.
pub open spec fn uuid_text_valid(b: Seq<u8>) -> bool {
    ||| b.len() == 32 && forall|i: int| 0 <= i < 32 ==> is_hex_byte(#[trigger] b[i])
    ||| hyphenated_uuid(b)
    ||| b.len() == 38 && b[0] == 0x7b && b[37] == 0x7d && hyphenated_uuid(b.subrange(1, 37))
    ||| b.len() == 45 && b.subrange(0, 9).map_values(|c: u8| ascii_lower(c)) == seq![
        0x75u8, 0x72, 0x6e, 0x3a, 0x75, 0x75, 0x69, 0x64, 0x3a,
    ] && hyphenated_uuid(b.subrange(9, 45))
}

/// The UUID that the text of an accepted form writes.
pub uninterp spec fn uuid_from_text(text: Seq<u8>) -> uuid::Uuid;

/// Calls `uuid::Uuid::parse_str`. Claims that it succeeds exactly on the
/// texts its parser accepts, and that the UUID it gives is a function of the
/// text alone.
#[verifier::external_body]
pub(crate) fn uuid_parse_str(s: &str) -> (r: Result<uuid::Uuid, uuid::Error>)
    ensures
        r is Ok <==> uuid_text_valid(s.spec_bytes()),
        r matches Ok(u) ==> u == uuid_from_text(s.spec_bytes()),
{
    uuid::Uuid::parse_str(s)
}

/// Reads a UUID; text that is none is refused with the UUID library's reason.
pub fn parse_uuid(s: &str) -> (r: Result<uuid::Uuid, CommonError>)
    ensures
        r is Ok <==> uuid_text_valid(s.spec_bytes()),
        r matches Ok(u) ==> u == uuid_from_text(s.spec_bytes()),
        r is Err ==> r matches Err(CommonError::InvalidUuid(_)),
{
    match uuid_parse_str(s) {
        Ok(u) => Ok(u),
        Err(e) => Err(CommonError::InvalidUuid(e.to_string())),
    }
}

} // verus!
