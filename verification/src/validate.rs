//! The validation exchange: the request that is sent to the server, its
//! encryption, and what the server's answer means.

use crate::json::{parse_json, parsed_json, same_text, Json};
use crate::mi::{DeviceInfo, DeviceInfoView};
use crate::text::{
    chars_of, find_char, index_of, last_index_of, lemma_index_of, lemma_index_of_found,
    lemma_last_index_of, lemma_last_index_of_found, lossy_text, rfind_char, string_of, texts_of,
    trim_chars, trim_text, utf8_lossy,
};
use base64::Engine;
use cbc::cipher::{block_padding::Pkcs7, BlockDecryptMut, BlockEncryptMut, KeyIvInit};
use vstd::prelude::*;
use vstd::string::{StrSliceExecFns, StringSliceAdditionalSpecFns};

verus! {

/// The key the vendor's tools encrypt with: `miuiotavalided11`.
pub const DEFAULT_KEY: [u8; 16] = [
    0x6d, 0x69, 0x75, 0x69, 0x6f, 0x74, 0x61, 0x76, 0x61, 0x6c, 0x69, 0x64, 0x65, 0x64, 0x31, 0x31,
];

/// The initial vector the vendor's tools encrypt with: `0102030405060708`.
pub const DEFAULT_IV: [u8; 16] = [
    0x30, 0x31, 0x30, 0x32, 0x30, 0x33, 0x30, 0x34, 0x30, 0x35, 0x30, 0x36, 0x30, 0x37, 0x30, 0x38,
];

/// Key and initial vector of the cipher.
#[derive(Debug, Clone, Copy, PartialEq, Eq)]
pub struct CipherKeys {
    pub key: [u8; 16],
    pub iv: [u8; 16],
}

/// The value of a hexadecimal digit.
pub open spec fn hex_digit(c: char) -> Option<u8> {
    if '0' <= c && c <= '9' {
        Some((c as u8 - 0x30) as u8)
    } else if 'a' <= c && c <= 'f' {
        Some((c as u8 - 0x61 + 10) as u8)
    } else if 'A' <= c && c <= 'F' {
        Some((c as u8 - 0x41 + 10) as u8)
    } else {
        None
    }
}

/// The 16 bytes that `s` writes: white space at either end aside, it must
/// be 32 hexadecimal digits, two for each byte.
pub open spec fn hex_16(s: Seq<char>) -> Option<Seq<u8>> {
    let t = trim_text(s);
    if t.len() == 32 && (forall|i: int| 0 <= i < 32 ==> hex_digit(#[trigger] t[i]) is Some) {
        Some(
            Seq::new(
                16,
                |i: int| (hex_digit(t[2 * i])->Some_0 * 16 + hex_digit(t[2 * i + 1])->Some_0) as u8,
            ),
        )
    } else {
        None
    }
}

fn hex_digit_value(c: char) -> (r: Option<u8>)
    ensures
        r == hex_digit(c),
{
    if '0' <= c && c <= '9' {
        Some(c as u8 - 0x30)
    } else if 'a' <= c && c <= 'f' {
        Some(c as u8 - 0x61 + 10)
    } else if 'A' <= c && c <= 'F' {
        Some(c as u8 - 0x41 + 10)
    } else {
        None
    }
}

/// Reads 16 bytes written as 32 hexadecimal digits.
pub fn parse_hex_16(s: &str) -> (r: Option<[u8; 16]>)
    ensures
        match hex_16(s@) {
            Some(b) => r is Some && r->Some_0@ == b,
            None => r is None,
        },
{
    let chars = chars_of(s);
    let t = trim_chars(chars.as_slice());
    if t.len() != 32 {
        return None;
    }
    let mut out = [0u8; 16];
    let mut i: usize = 0;
    while i < 16
        invariant
            i <= 16,
            t@.len() == 32,
            t@ == trim_text(s@),
            forall|k: int| 0 <= k < 2 * i ==> hex_digit(#[trigger] t@[k]) is Some,
            forall|k: int|
                0 <= k < i ==> out@[k] == (hex_digit(t@[2 * k])->Some_0 * 16 + hex_digit(
                    t@[2 * k + 1],
                )->Some_0) as u8,
        decreases 16 - i,
    {
        let hi = match hex_digit_value(t[2 * i]) {
            Some(v) => v,
            None => {
                return None;
            },
        };
        let lo = match hex_digit_value(t[2 * i + 1]) {
            Some(v) => v,
            None => {
                return None;
            },
        };
        out[i] = hi * 16 + lo;
        i += 1;
    }
    assert(out@ =~= hex_16(s@)->Some_0);
    Some(out)
}

impl CipherKeys {
    /// The vendor's key and initial vector.
    pub fn vendor() -> (keys: Self)
        ensures
            keys.key == DEFAULT_KEY,
            keys.iv == DEFAULT_IV,
    {
        CipherKeys { key: DEFAULT_KEY, iv: DEFAULT_IV }
    }

    /// The vendor's key and initial vector, each replaced by the override
    /// given for it where that is 32 hexadecimal digits.
    pub fn with_overrides(key_hex: Option<&str>, iv_hex: Option<&str>) -> (keys: Self)
        ensures
            keys.key@ == match key_hex {
                Some(k) => match hex_16(k@) {
                    Some(b) => b,
                    None => DEFAULT_KEY@,
                },
                None => DEFAULT_KEY@,
            },
            keys.iv@ == match iv_hex {
                Some(k) => match hex_16(k@) {
                    Some(b) => b,
                    None => DEFAULT_IV@,
                },
                None => DEFAULT_IV@,
            },
    {
        let key = match key_hex {
            Some(k) => match parse_hex_16(k) {
                Some(b) => b,
                None => DEFAULT_KEY,
            },
            None => DEFAULT_KEY,
        };
        let iv = match iv_hex {
            Some(k) => match parse_hex_16(k) {
                Some(b) => b,
                None => DEFAULT_IV,
            },
            None => DEFAULT_IV,
        };
        CipherKeys { key, iv }
    }
}

#[verifier::external_type_specification]
#[verifier::external_body]
pub struct ExDecodeError(base64::DecodeError);

#[verifier::external_type_specification]
#[verifier::external_body]
pub struct ExUnpadError(cbc::cipher::block_padding::UnpadError);

/// The ciphertext of `plain` under AES-128 in CBC mode with PKCS#7
/// padding, as the `cbc` and `aes` crates compute it.
pub uninterp spec fn aes128_cbc(key: Seq<u8>, iv: Seq<u8>, plain: Seq<u8>) -> Seq<u8>;

/// The plaintext that the `cbc` and `aes` crates recover from `cipher`;
/// `None` where its length is no multiple of 16 or the padding is
/// malformed.
pub uninterp spec fn aes128_cbc_open(key: Seq<u8>, iv: Seq<u8>, cipher: Seq<u8>) -> Option<
    Seq<u8>,
>;

/// The text that the standard base64 engine, with padding, makes of `bytes`.
pub uninterp spec fn base64_text(bytes: Seq<u8>) -> Seq<char>;

/// The bytes that the standard base64 engine reads from `text`; `None`
/// where it rejects the text.
pub uninterp spec fn base64_bytes(text: Seq<char>) -> Option<Seq<u8>>;

/// `encrypt_padded_vec_mut::<Pkcs7>` of a `cbc::Encryptor<aes::Aes128>`
/// made from `key` and `iv`. The ciphertext depends on key, vector and
/// plaintext alone; it fills the whole blocks that hold the plaintext and
/// at least one byte of padding. The buffer length must not overflow.
#[verifier::external_body]
fn cbc_encrypt(key: &[u8; 16], iv: &[u8; 16], plain: &[u8]) -> (cipher: Vec<u8>)
    requires
        plain@.len() + 16 <= usize::MAX,
    ensures
        cipher@ == aes128_cbc(key@, iv@, plain@),
        cipher@.len() == 16 * (plain@.len() / 16 + 1),
{
    cbc::Encryptor::<aes::Aes128>::new(key.into(), iv.into()).encrypt_padded_vec_mut::<Pkcs7>(plain)
}

/// `decrypt_padded_vec_mut::<Pkcs7>` of a `cbc::Decryptor<aes::Aes128>`
/// made from `key` and `iv`. The outcome depends on key, vector and
/// ciphertext alone, and what the encryptor made of a plaintext under the
/// same key and vector decrypts to that plaintext.
#[verifier::external_body]
fn cbc_decrypt(key: &[u8; 16], iv: &[u8; 16], cipher: &[u8]) -> (r: Result<
    Vec<u8>,
    cbc::cipher::block_padding::UnpadError,
>)
    ensures
        match aes128_cbc_open(key@, iv@, cipher@) {
            Some(plain) => r is Ok && r->Ok_0@ == plain,
            None => r is Err,
        },
        forall|plain: Seq<u8>|
            cipher@ == #[trigger] aes128_cbc(key@, iv@, plain) ==> r is Ok && r->Ok_0@ == plain,
{
    cbc::Decryptor::<aes::Aes128>::new(key.into(), iv.into()).decrypt_padded_vec_mut::<Pkcs7>(cipher)
}

/// `Engine::encode` of `base64::engine::general_purpose::STANDARD`. The
/// text depends on the bytes alone. The call panics where the length of
/// the text does not fit in `usize`.
#[verifier::external_body]
fn base64_encode(bytes: &[u8]) -> (text: String)
    requires
        (bytes@.len() / 3 + 1) * 4 <= usize::MAX,
    ensures
        text@ == base64_text(bytes@),
{
    base64::engine::general_purpose::STANDARD.encode(bytes)
}

/// `Engine::decode` of `base64::engine::general_purpose::STANDARD`. The
/// outcome depends on the text alone, and the text that the same engine
/// made of some bytes decodes to those bytes.
#[verifier::external_body]
fn base64_decode(text: &str) -> (r: Result<Vec<u8>, base64::DecodeError>)
    ensures
        match base64_bytes(text@) {
            Some(bytes) => r is Ok && r->Ok_0@ == bytes,
            None => r is Err,
        },
        forall|bytes: Seq<u8>| text@ == #[trigger] base64_text(bytes) ==> r is Ok && r->Ok_0@ == bytes,
{
    base64::engine::general_purpose::STANDARD.decode(text)
}

/// Why an answer could not be decrypted.
#[derive(Debug, Clone, Copy, PartialEq, Eq, Structural)]
pub enum DecryptError {
    /// The text is not base64.
    Base64,
    /// The bytes are no ciphertext under the key; `cipher_len` is their
    /// number.
    Cipher { cipher_len: usize },
}

/// `plain`, encrypted and written in base64.
pub open spec fn sealed(keys: CipherKeys, plain: Seq<u8>) -> Seq<char> {
    base64_text(aes128_cbc(keys.key@, keys.iv@, plain))
}

/// What `text` decrypts to: it is read as base64, then decrypted.
pub open spec fn unsealed(keys: CipherKeys, text: Seq<char>) -> Result<Seq<u8>, DecryptError> {
    match base64_bytes(text) {
        None => Err(DecryptError::Base64),
        Some(cipher) => match aes128_cbc_open(keys.key@, keys.iv@, cipher) {
            None => Err(DecryptError::Cipher { cipher_len: cipher.len() as usize }),
            Some(plain) => Ok(plain),
        },
    }
}

/// Whether `len` bytes can be encrypted and written in base64 on this
/// machine: the length of the text must fit in `usize`.
pub open spec fn fits(len: nat) -> bool {
    ((len + 16) / 3 + 1) * 4 <= usize::MAX
}

/// Whether `len` bytes can be encrypted and written in base64 on this
/// machine.
pub fn can_seal(len: usize) -> (r: bool)
    ensures
        r == fits(len as nat),
{
    len <= usize::MAX - 16 && (len + 16) / 3 + 1 <= usize::MAX / 4
}

/// Encrypts `plain` and writes the ciphertext in base64. The ciphertext
/// fills the whole blocks of 16 bytes that hold the plaintext and at least
/// one byte of padding: a whole block more where the length is a multiple
/// of 16.
pub fn aes128_cbc_encrypt_b64(plain: &[u8], keys: &CipherKeys) -> (text: String)
    requires
        fits(plain@.len()),
    ensures
        text@ == sealed(*keys, plain@),
        aes128_cbc(keys.key@, keys.iv@, plain@).len() == 16 * (plain@.len() / 16 + 1),
{
    let cipher = cbc_encrypt(&keys.key, &keys.iv, plain);
    base64_encode(cipher.as_slice())
}

/// Reads `b64` as base64 and decrypts it. A text that
/// `aes128_cbc_encrypt_b64` made under the same keys gives back the bytes
/// that were encrypted, whatever they were.
pub fn aes128_cbc_decrypt_b64(b64: &str, keys: &CipherKeys) -> (r: Result<Vec<u8>, DecryptError>)
    ensures
        match unsealed(*keys, b64@) {
            Ok(plain) => r is Ok && r->Ok_0@ == plain,
            Err(e) => r == Err::<Vec<u8>, DecryptError>(e),
        },
        forall|plain: Seq<u8>| b64@ == #[trigger] sealed(*keys, plain) ==> r is Ok && r->Ok_0@ == plain,
{
    let cipher = match base64_decode(b64) {
        Ok(c) => c,
        Err(_) => {
            return Err(DecryptError::Base64);
        },
    };
    match cbc_decrypt(&keys.key, &keys.iv, cipher.as_slice()) {
        Ok(plain) => Ok(plain),
        Err(_) => Err(DecryptError::Cipher { cipher_len: cipher.len() }),
    }
}

/// Encrypts the body of a request and writes it in base64: the form field
/// `q` of the request.
pub fn encode_request_b64(json_body: &str, keys: &CipherKeys) -> (q: String)
    requires
        fits(json_body.spec_bytes().len()),
    ensures
        q@ == sealed(*keys, json_body.spec_bytes()),
        aes128_cbc(keys.key@, keys.iv@, json_body.spec_bytes()).len() == 16 * (
            json_body.spec_bytes().len() / 16 + 1),
{
    aes128_cbc_encrypt_b64(json_body.as_bytes(), keys)
}

/// `s` with a backslash put before each double quote; nothing else is
/// escaped.
pub open spec fn escape_quotes(s: Seq<char>) -> Seq<char>
    decreases s.len(),
{
    if s.len() == 0 {
        Seq::empty()
    } else if s.last() == '"' {
        escape_quotes(s.drop_last()) + seq!['\\', '"']
    } else {
        escape_quotes(s.drop_last()).push(s.last())
    }
}

/// The body of a validation request: the keys `d`, `v`, `c`, `b`, `sn`,
/// `l`, `f`, `options.zone` and `pkg` in this order, without white space.
/// The zone is put in character for character: no quotes are added,
/// nothing is escaped, nothing is removed.
pub open spec fn request_json(info: DeviceInfoView, md5: Seq<char>) -> Seq<char> {
    "{\"d\":\""@ + escape_quotes(info.device) + "\",\"v\":\""@ + escape_quotes(info.version)
        + "\",\"c\":\""@ + escape_quotes(info.codebase) + "\",\"b\":\""@ + escape_quotes(
        info.branch,
    ) + "\",\"sn\":\""@ + escape_quotes(info.sn)
        + "\",\"l\":\"en-US\",\"f\":\"1\",\"options\":{\"zone\":"@ + info.romzone
        + "},\"pkg\":\""@ + escape_quotes(md5) + "\"}"@
}

fn push_escaped(out: &mut Vec<char>, s: &str)
    ensures
        final(out)@ == old(out)@ + escape_quotes(s@),
{
    let chars = chars_of(s);
    let mut i: usize = 0;
    assert(chars@.take(0) =~= Seq::<char>::empty());
    while i < chars.len()
        invariant
            i <= chars@.len(),
            out@ == old(out)@ + escape_quotes(chars@.take(i as int)),
        decreases chars@.len() - i,
    {
        assert(chars@.take(i as int + 1).drop_last() =~= chars@.take(i as int));
        let c = chars[i];
        if c == '"' {
            out.push('\\');
            out.push('"');
            assert(out@ =~= old(out)@ + escape_quotes(chars@.take(i as int + 1)));
        } else {
            out.push(c);
            assert(out@ =~= old(out)@ + escape_quotes(chars@.take(i as int + 1)));
        }
        i += 1;
    }
    assert(chars@.take(i as int) =~= chars@);
}

fn push_text(out: &mut Vec<char>, s: &str)
    ensures
        final(out)@ == old(out)@ + s@,
{
    let chars = chars_of(s);
    out.extend_from_slice(chars.as_slice());
}

/// Builds the body of a validation request for a device and the MD5 of a
/// ROM; without an MD5 the field `pkg` is empty.
pub fn build_request_json(info: &DeviceInfo, md5_opt: Option<String>) -> (json: String)
    ensures
        json@ == request_json(
            info@,
            match md5_opt {
                Some(m) => m@,
                None => Seq::empty(),
            },
        ),
{
    let mut out: Vec<char> = Vec::new();
    push_text(&mut out, "{\"d\":\"");
    push_escaped(&mut out, info.device.as_str());
    push_text(&mut out, "\",\"v\":\"");
    push_escaped(&mut out, info.version.as_str());
    push_text(&mut out, "\",\"c\":\"");
    push_escaped(&mut out, info.codebase.as_str());
    push_text(&mut out, "\",\"b\":\"");
    push_escaped(&mut out, info.branch.as_str());
    push_text(&mut out, "\",\"sn\":\"");
    push_escaped(&mut out, info.sn.as_str());
    push_text(&mut out, "\",\"l\":\"en-US\",\"f\":\"1\",\"options\":{\"zone\":");
    push_text(&mut out, info.romzone.as_str());
    push_text(&mut out, "},\"pkg\":\"");
    match &md5_opt {
        Some(m) => push_escaped(&mut out, m.as_str()),
        None => {
            assert(escape_quotes(Seq::<char>::empty()) =~= Seq::<char>::empty());
        },
    }
    push_text(&mut out, "\"}");
    assert(out@ =~= request_json(
        info@,
        match md5_opt {
            Some(m) => m@,
            None => Seq::empty(),
        },
    ));
    string_of(out.as_slice())
}

/// The part of `s` from its first `{` to its last `}`, both included;
/// `None` where either is missing or the last `}` stands before the
/// first `{`.
pub open spec fn json_braces(s: Seq<char>) -> Option<Seq<char>> {
    let start = index_of(s, '{');
    let end = last_index_of(s, '}');
    if start < s.len() && 0 <= end && start < end {
        Some(s.subrange(start, end + 1))
    } else {
        None
    }
}

fn braces_of(chars: &[char]) -> (r: Option<(usize, usize)>)
    ensures
        match r {
            Some((start, end)) => start < end <= chars@.len() && json_braces(chars@) == Some(
                chars@.subrange(start as int, end as int),
            ),
            None => json_braces(chars@) is None,
        },
{
    let start = match find_char(chars, '{') {
        Some(i) => i,
        None => {
            return None;
        },
    };
    let end = match rfind_char(chars, '}') {
        Some(i) => i,
        None => {
            return None;
        },
    };
    if end <= start || end >= chars.len() {
        return None;
    }
    Some((start, end + 1))
}

/// Cuts the JSON object out of a text: from the first `{` to the last `}`.
pub fn extract_json_braces(text: &str) -> (r: Option<String>)
    ensures
        match json_braces(text@) {
            Some(j) => r is Some && r->Some_0@ == j,
            None => r is None,
        },
{
    let chars = chars_of(text);
    match braces_of(chars.as_slice()) {
        Some((start, end)) => Some(string_of(&chars.as_slice()[start..end])),
        None => None,
    }
}

/// Cutting the JSON object out of a text that was cut out before changes
/// nothing: wherever `json_braces` gives a text, it gives the same text
/// when applied to that text.
pub proof fn lemma_json_braces_idempotent(s: Seq<char>)
    requires
        json_braces(s) is Some,
    ensures
        json_braces(json_braces(s)->Some_0) == json_braces(s),
{
    let start = index_of(s, '{');
    let end = last_index_of(s, '}');
    lemma_index_of_found(s, '{');
    lemma_last_index_of_found(s, '}');
    let t = s.subrange(start, end + 1);
    lemma_index_of(t, '{', 0);
    lemma_last_index_of(t, '}', t.len() - 1);
    assert(t.subrange(0, t.len() as int) =~= t);
}

/// The lower-case hexadecimal digit for a value below 16.
pub open spec fn hex_char(n: int) -> char {
    if n < 10 {
        (0x30 + n) as u8 as char
    } else {
        (0x61 + n - 10) as u8 as char
    }
}

/// `bytes` in hexadecimal: two lower-case digits for each byte, the high
/// half first.
pub open spec fn hex_lower(bytes: Seq<u8>) -> Seq<char> {
    Seq::new(
        2 * bytes.len(),
        |i: int|
            if i % 2 == 0 {
                hex_char(bytes[i / 2] as int / 16)
            } else {
                hex_char(bytes[i / 2] as int % 16)
            },
    )
}

/// `hex::encode`: two lower-case hexadecimal digits for each byte, the
/// high half first.
#[verifier::external_body]
fn hex_encode(bytes: &[u8]) -> (text: String)
    ensures
        text@ == hex_lower(bytes@),
{
    hex::encode(bytes)
}

/// What the server said about a device and a ROM.
#[derive(Debug, PartialEq, Eq)]
pub struct ValidateResult {
    /// The ROMs that are allowed, where the answer lists them.
    pub pkgrom_validate: Option<Vec<String>>,
    /// Whether flashing erases the device's data: 1 if so.
    pub pkgrom_erase: Option<i32>,
    /// A note of the server for the user.
    pub code_message: Option<String>,
    /// The token that unlocks the sideload.
    pub validate_token: Option<String>,
    /// The first 200 characters of the decrypted answer.
    pub raw_plaintext_head: Option<String>,
    /// The JSON text of the answer.
    pub full_json: Option<String>,
}

/// A `ValidateResult` as a mathematical value.
pub struct ValidateResultView {
    pub pkgrom_validate: Option<Seq<Seq<char>>>,
    pub pkgrom_erase: Option<i32>,
    pub code_message: Option<Seq<char>>,
    pub validate_token: Option<Seq<char>>,
    pub raw_plaintext_head: Option<Seq<char>>,
    pub full_json: Option<Seq<char>>,
}

/// The text of a string that may be there.
pub open spec fn text_of(s: Option<String>) -> Option<Seq<char>> {
    match s {
        Some(t) => Some(t@),
        None => None,
    }
}

impl View for ValidateResult {
    type V = ValidateResultView;

    open spec fn view(&self) -> ValidateResultView {
        ValidateResultView {
            pkgrom_validate: match self.pkgrom_validate {
                Some(list) => Some(texts_of(list@)),
                None => None,
            },
            pkgrom_erase: self.pkgrom_erase,
            code_message: text_of(self.code_message),
            validate_token: text_of(self.validate_token),
            raw_plaintext_head: text_of(self.raw_plaintext_head),
            full_json: text_of(self.full_json),
        }
    }
}

impl Default for ValidateResult {
    fn default() -> (r: Self)
        ensures
            r@ == (ValidateResultView {
                pkgrom_validate: None,
                pkgrom_erase: None,
                code_message: None,
                validate_token: None,
                raw_plaintext_head: None,
                full_json: None,
            }),
    {
        ValidateResult {
            pkgrom_validate: None,
            pkgrom_erase: None,
            code_message: None,
            validate_token: None,
            raw_plaintext_head: None,
            full_json: None,
        }
    }
}

/// Why a validation did not give a result.
#[derive(Debug, PartialEq, Eq)]
pub enum ValidateError {
    /// The server answered with a status outside 200 to 299. `head_hex`
    /// holds the first `head_len` bytes of the body, at most 200, in
    /// hexadecimal.
    Http { status: u16, head_len: usize, head_hex: String },
    /// The body is empty or white space only.
    EmptyBody,
    /// The body is not base64.
    Base64,
    /// The body does not decrypt; `cipher_len` is the number of its bytes.
    Decrypt { cipher_len: usize },
    /// The plaintext, of `plain_len` bytes, holds no JSON object.
    NoJson { plain_len: usize },
    /// The JSON text does not parse, or a value in it is of the wrong kind.
    Json,
    /// The answer holds neither `PkgRom.Validate` nor a message. `head`
    /// holds the first 200 characters of the plaintext.
    MissingToken { plain_len: usize, head: String },
}

/// A `ValidateError` as a mathematical value.
pub enum ValidateErrorView {
    Http { status: u16, head_len: usize, head_hex: Seq<char> },
    EmptyBody,
    Base64,
    Decrypt { cipher_len: usize },
    NoJson { plain_len: usize },
    Json,
    MissingToken { plain_len: usize, head: Seq<char> },
}

impl View for ValidateError {
    type V = ValidateErrorView;

    open spec fn view(&self) -> ValidateErrorView {
        match *self {
            ValidateError::Http { status, head_len, head_hex } => ValidateErrorView::Http {
                status,
                head_len,
                head_hex: head_hex@,
            },
            ValidateError::EmptyBody => ValidateErrorView::EmptyBody,
            ValidateError::Base64 => ValidateErrorView::Base64,
            ValidateError::Decrypt { cipher_len } => ValidateErrorView::Decrypt { cipher_len },
            ValidateError::NoJson { plain_len } => ValidateErrorView::NoJson { plain_len },
            ValidateError::Json => ValidateErrorView::Json,
            ValidateError::MissingToken { plain_len, head } => ValidateErrorView::MissingToken {
                plain_len,
                head: head@,
            },
        }
    }
}

/// A validation's outcome as a mathematical value.
pub open spec fn outcome_view(r: Result<ValidateResult, ValidateError>) -> Result<
    ValidateResultView,
    ValidateErrorView,
> {
    match r {
        Ok(v) => Ok(v@),
        Err(e) => Err(e@),
    }
}

/// The member `key` of an object, where it is there and not null.
pub open spec fn field(j: Json, key: Seq<char>) -> Option<Json> {
    match j.member(key) {
        Some(v) => if v is Null {
            None
        } else {
            Some(v)
        },
        None => None,
    }
}

/// Whether every one of `items` is a string.
pub open spec fn all_strings(items: Seq<Json>) -> bool {
    forall|i: int| 0 <= i < items.len() ==> (#[trigger] items[i]) is Str
}

/// The texts of `items`, which are all strings.
pub open spec fn item_texts(items: Seq<Json>) -> Seq<Seq<char>> {
    Seq::new(items.len(), |i: int| items[i]->Str_0@)
}

/// What an answer holds of the fields that are looked at.
pub struct AnswerView {
    /// `PkgRom.Validate`, where it is a list of strings.
    pub list: Option<Seq<Seq<char>>>,
    /// `PkgRom.Validate`, where it is a string.
    pub text: Option<Seq<char>>,
    /// `PkgRom.Erase`.
    pub erase: Option<i32>,
    /// `PkgRom.Token`.
    pub token: Option<Seq<char>>,
    /// `Code.message`; empty where `Code` holds none.
    pub message: Option<Seq<char>>,
}

/// Whether the object `pkg` is a well-formed `PkgRom`: `Validate` is a
/// string or a list of strings, `Erase` an integer of 32 bits, `Token` a
/// string, each where it is there and not null.
pub open spec fn pkgrom_fits(pkg: Json) -> bool {
    &&& pkg is Object
    &&& match field(pkg, "Validate"@) {
        None => true,
        Some(Json::Str(_)) => true,
        Some(Json::Array(items)) => all_strings(items@),
        Some(_) => false,
    }
    &&& match field(pkg, "Erase"@) {
        None => true,
        Some(Json::Number(Some(n))) => i32::MIN <= n <= i32::MAX,
        Some(_) => false,
    }
    &&& match field(pkg, "Token"@) {
        None => true,
        Some(Json::Str(_)) => true,
        Some(_) => false,
    }
}

/// Whether the object `code` is a well-formed `Code`: `message` is a
/// string where it is there.
pub open spec fn code_fits(code: Json) -> bool {
    &&& code is Object
    &&& match code.member("message"@) {
        None => true,
        Some(Json::Str(_)) => true,
        Some(_) => false,
    }
}

/// What the JSON document `root` holds of the fields that are looked at;
/// `None` where one of them is of the wrong kind.
pub open spec fn answer_of(root: Json) -> Option<AnswerView> {
    let pkg = field(root, "PkgRom"@);
    let code = field(root, "Code"@);
    if !(root is Object) || (pkg is Some && !pkgrom_fits(pkg->Some_0)) || (code is Some
        && !code_fits(code->Some_0)) {
        None
    } else {
        let validate = if pkg is Some {
            field(pkg->Some_0, "Validate"@)
        } else {
            None
        };
        Some(
            AnswerView {
                list: match validate {
                    Some(Json::Array(items)) => Some(item_texts(items@)),
                    _ => None,
                },
                text: match validate {
                    Some(Json::Str(t)) => Some(t@),
                    _ => None,
                },
                erase: if pkg is Some {
                    match field(pkg->Some_0, "Erase"@) {
                        Some(Json::Number(Some(n))) => Some(n as i32),
                        _ => None,
                    }
                } else {
                    None
                },
                token: if pkg is Some {
                    match field(pkg->Some_0, "Token"@) {
                        Some(Json::Str(t)) => Some(t@),
                        _ => None,
                    }
                } else {
                    None
                },
                message: if code is Some {
                    match code->Some_0.member("message"@) {
                        Some(Json::Str(t)) => Some(t@),
                        _ => Some(Seq::empty()),
                    }
                } else {
                    None
                },
            },
        )
    }
}

/// The first 200 characters of `s`, or all of it where it is shorter.
pub open spec fn head_of(s: Seq<char>) -> Seq<char> {
    if s.len() <= 200 {
        s
    } else {
        s.take(200)
    }
}

/// The result that an answer makes. The token is `PkgRom.Validate` where
/// that is a string, else `PkgRom.Token`; an empty message counts as none.
pub open spec fn result_of(answer: AnswerView, preview: Seq<char>, json_text: Seq<char>)
    -> ValidateResultView {
    ValidateResultView {
        pkgrom_validate: answer.list,
        pkgrom_erase: answer.erase,
        code_message: match answer.message {
            Some(m) => if m.len() > 0 {
                Some(m)
            } else {
                None
            },
            None => None,
        },
        validate_token: if answer.text is Some {
            answer.text
        } else {
            answer.token
        },
        raw_plaintext_head: Some(head_of(preview)),
        full_json: Some(json_text),
    }
}

/// What a parsed answer means: an error where a looked-at field is of the
/// wrong kind, or where the answer holds neither `PkgRom.Validate` nor a
/// message; else its result. `preview` is the decrypted text, of
/// `plain_len` bytes, and `json_text` the JSON object cut out of it.
pub open spec fn answer_meaning(
    root: Json,
    preview: Seq<char>,
    json_text: Seq<char>,
    plain_len: usize,
) -> Result<ValidateResultView, ValidateErrorView> {
    match answer_of(root) {
        None => Err(ValidateErrorView::Json),
        Some(answer) => {
            let result = result_of(answer, preview, json_text);
            if answer.list is None && answer.text is None && result.code_message is None {
                Err(ValidateErrorView::MissingToken { plain_len, head: head_of(preview) })
            } else {
                Ok(result)
            }
        },
    }
}

fn get_field<'a>(j: &'a Json, key: &str) -> (r: Option<&'a Json>)
    ensures
        match field(*j, key@) {
            Some(v) => r == Some(&v),
            None => r is None,
        },
{
    match j.get(key) {
        Some(v) => match v {
            Json::Null => None,
            _ => Some(v),
        },
        None => None,
    }
}

fn strings_of(items: &Vec<Json>) -> (r: Option<Vec<String>>)
    ensures
        all_strings(items@) ==> r is Some && texts_of(r->Some_0@) == item_texts(items@),
        !all_strings(items@) ==> r is None,
{
    let mut out: Vec<String> = Vec::new();
    let mut i: usize = 0;
    while i < items.len()
        invariant
            i <= items@.len(),
            out@.len() == i,
            forall|k: int| 0 <= k < i ==> (#[trigger] items@[k]) is Str,
            forall|k: int| 0 <= k < i ==> (#[trigger] out@[k])@ == items@[k]->Str_0@,
        decreases items@.len() - i,
    {
        match &items[i] {
            Json::Str(t) => {
                out.push(t.clone());
            },
            _ => {
                return None;
            },
        }
        i += 1;
    }
    assert(texts_of(out@) =~= item_texts(items@));
    Some(out)
}

fn head_text(s: &str) -> (head: String)
    ensures
        head@ == head_of(s@),
{
    let chars = chars_of(s);
    if chars.len() <= 200 {
        string_of(chars.as_slice())
    } else {
        string_of(&chars.as_slice()[0..200])
    }
}

/// The fields of a `PkgRom` object: the list, the text of `Validate`, the
/// erase flag and the token; `None` where one is of the wrong kind.
fn read_pkgrom(pkg: &Json) -> (r: Option<
    (Option<Vec<String>>, Option<String>, Option<i32>, Option<String>),
>)
    ensures
        pkgrom_fits(*pkg) <==> r is Some,
        r matches Some((list, text, erase, token)) ==> {
            &&& match field(*pkg, "Validate"@) {
                Some(Json::Array(items)) => list is Some && texts_of(list->Some_0@) == item_texts(
                    items@,
                ) && text is None,
                Some(Json::Str(t)) => list is None && text_of(text) == Some(t@),
                _ => list is None && text is None,
            }
            &&& erase == match field(*pkg, "Erase"@) {
                Some(Json::Number(Some(n))) => Some(n as i32),
                _ => None,
            }
            &&& text_of(token) == match field(*pkg, "Token"@) {
                Some(Json::Str(t)) => Some(t@),
                _ => None,
            }
        },
{
    match pkg {
        Json::Object(_) => {},
        _ => {
            return None;
        },
    }
    let mut list: Option<Vec<String>> = None;
    let mut text: Option<String> = None;
    match get_field(pkg, "Validate") {
        None => {},
        Some(Json::Str(t)) => {
            text = Some(t.clone());
        },
        Some(Json::Array(items)) => match strings_of(items) {
            Some(l) => {
                list = Some(l);
            },
            None => {
                return None;
            },
        },
        Some(_) => {
            return None;
        },
    }
    let mut erase: Option<i32> = None;
    match get_field(pkg, "Erase") {
        None => {},
        Some(Json::Number(Some(n))) => {
            if *n < -2147483648 || *n > 2147483647 {
                return None;
            }
            erase = Some(*n as i32);
        },
        Some(_) => {
            return None;
        },
    }
    let mut token: Option<String> = None;
    match get_field(pkg, "Token") {
        None => {},
        Some(Json::Str(t)) => {
            token = Some(t.clone());
        },
        Some(_) => {
            return None;
        },
    }
    Some((list, text, erase, token))
}

/// The message of a `Code` object, empty where it holds none; `None` where
/// it is of the wrong kind.
fn read_code(code: &Json) -> (r: Option<String>)
    ensures
        code_fits(*code) <==> r is Some,
        r matches Some(m) ==> m@ == match code.member("message"@) {
            Some(Json::Str(t)) => t@,
            _ => Seq::empty(),
        },
{
    match code {
        Json::Object(_) => {},
        _ => {
            return None;
        },
    }
    match code.get("message") {
        None => Some(String::new()),
        Some(Json::Str(t)) => Some(t.clone()),
        Some(_) => None,
    }
}

/// Reads the result out of a parsed answer. `preview` is the decrypted
/// text, of `plain_len` bytes, and `json_text` the JSON object that was cut
/// out of it and parsed into `root`.
pub fn interpret_answer(root: &Json, preview: &str, json_text: String, plain_len: usize) -> (r:
    Result<ValidateResult, ValidateError>)
    ensures
        outcome_view(r) == answer_meaning(*root, preview@, json_text@, plain_len),
{
    match root {
        Json::Object(_) => {},
        _ => {
            return Err(ValidateError::Json);
        },
    }
    let mut out = ValidateResult::default();
    let mut has_validate = false;
    match get_field(root, "PkgRom") {
        Some(pkg) => match read_pkgrom(pkg) {
            Some((list, text, erase, token)) => {
                has_validate = list.is_some() || text.is_some();
                out.pkgrom_validate = list;
                out.validate_token = if text.is_some() {
                    text
                } else {
                    token
                };
                out.pkgrom_erase = erase;
            },
            None => {
                return Err(ValidateError::Json);
            },
        },
        None => {},
    }
    match get_field(root, "Code") {
        Some(code) => match read_code(code) {
            Some(m) => {
                if m.as_str().unicode_len() > 0 {
                    out.code_message = Some(m);
                }
            },
            None => {
                return Err(ValidateError::Json);
            },
        },
        None => {},
    }
    let head = head_text(preview);
    if !has_validate && out.code_message.is_none() {
        return Err(ValidateError::MissingToken { plain_len, head });
    }
    out.raw_plaintext_head = Some(head);
    out.full_json = Some(json_text);
    Ok(out)
}

/// Seconds the server is given to answer.
pub const VALIDATE_TIMEOUT_SECS: u64 = 30;

/// The `User-Agent` header of a validation request.
pub fn user_agent() -> (agent: &'static str)
    ensures
        agent@ == "MiTunes_UserAgent_v3.0"@,
{
    "MiTunes_UserAgent_v3.0"
}

/// The fields of the form that a validation request posts.
#[derive(Debug, PartialEq, Eq)]
pub struct ValidateForm {
    /// The encrypted body, in base64.
    pub q: String,
    /// Always empty.
    pub t: String,
    /// Always `1`.
    pub s: String,
}

/// The form to post for the request body `json_body`.
pub fn validate_form(json_body: &str, keys: &CipherKeys) -> (form: ValidateForm)
    requires
        fits(json_body.spec_bytes().len()),
    ensures
        form.q@ == sealed(*keys, json_body.spec_bytes()),
        aes128_cbc(keys.key@, keys.iv@, json_body.spec_bytes()).len() == 16 * (
            json_body.spec_bytes().len() / 16 + 1),
        form.t@ == Seq::<char>::empty(),
        form.s@ == "1"@,
{
    ValidateForm { q: encode_request_b64(json_body, keys), t: String::new(), s: "1".to_owned() }
}

/// The number of bytes of a body that an error report shows: at most 200.
pub open spec fn head_len_of(len: nat) -> usize {
    if len <= 200 {
        len as usize
    } else {
        200
    }
}

/// What the server's answer means, given its HTTP status and its body.
/// In this order: a status outside 200 to 299 is an error; so is a body of
/// white space only; the body is read as base64 and decrypted; the
/// plaintext is read as text; the JSON object is cut out of it and parsed;
/// the parsed answer gives the result as `answer_meaning` says.
pub open spec fn response_meaning(status: u16, body: Seq<char>, keys: CipherKeys) -> Result<
    ValidateResultView,
    ValidateErrorView,
> {
    let bytes = vstd::utf8::encode_utf8(body);
    if !(200 <= status < 300) {
        Err(
            ValidateErrorView::Http {
                status,
                head_len: head_len_of(bytes.len()),
                head_hex: hex_lower(bytes.take(head_len_of(bytes.len()) as int)),
            },
        )
    } else if trim_text(body).len() == 0 {
        Err(ValidateErrorView::EmptyBody)
    } else {
        match unsealed(keys, body) {
            Err(DecryptError::Base64) => Err(ValidateErrorView::Base64),
            Err(DecryptError::Cipher { cipher_len }) => Err(
                ValidateErrorView::Decrypt { cipher_len },
            ),
            Ok(plain) => {
                let preview = utf8_lossy(plain);
                match json_braces(preview) {
                    None => Err(ValidateErrorView::NoJson { plain_len: plain.len() as usize }),
                    Some(json_text) => match parsed_json(json_text) {
                        None => Err(ValidateErrorView::Json),
                        Some(root) => answer_meaning(
                            root,
                            preview,
                            json_text,
                            plain.len() as usize,
                        ),
                    },
                }
            },
        }
    }
}

/// Reads the result out of the server's answer, given its HTTP status and
/// its body.
pub fn validate_response(status: u16, body: &str, keys: &CipherKeys) -> (r: Result<
    ValidateResult,
    ValidateError,
>)
    ensures
        outcome_view(r) == response_meaning(status, body@, *keys),
{
    if status < 200 || status >= 300 {
        let bytes = body.as_bytes();
        let head_len: usize = if bytes.len() <= 200 {
            bytes.len()
        } else {
            200
        };
        let head_hex = hex_encode(&bytes[0..head_len]);
        return Err(ValidateError::Http { status, head_len, head_hex });
    }
    let chars = chars_of(body);
    let trimmed = trim_chars(chars.as_slice());
    if trimmed.len() == 0 {
        return Err(ValidateError::EmptyBody);
    }
    let plain = match aes128_cbc_decrypt_b64(body, keys) {
        Ok(p) => p,
        Err(DecryptError::Base64) => {
            return Err(ValidateError::Base64);
        },
        Err(DecryptError::Cipher { cipher_len }) => {
            return Err(ValidateError::Decrypt { cipher_len });
        },
    };
    let preview = lossy_text(plain.as_slice());
    let json_text = match extract_json_braces(preview.as_str()) {
        Some(t) => t,
        None => {
            return Err(ValidateError::NoJson { plain_len: plain.len() });
        },
    };
    let root = match parse_json(json_text.as_str()) {
        Ok(j) => j,
        Err(_) => {
            return Err(ValidateError::Json);
        },
    };
    interpret_answer(&root, preview.as_str(), json_text, plain.len())
}

/// A text to show the user, and the stream it goes to.
#[derive(Debug, PartialEq, Eq)]
pub enum Printed {
    /// For the standard output.
    Stdout(String),
    /// For the diagnostic stream.
    Stderr(String),
}

/// A `Printed` as a mathematical value.
pub enum PrintedView {
    Stdout(Seq<char>),
    Stderr(Seq<char>),
}

impl View for Printed {
    type V = PrintedView;

    open spec fn view(&self) -> PrintedView {
        match *self {
            Printed::Stdout(t) => PrintedView::Stdout(t@),
            Printed::Stderr(t) => PrintedView::Stderr(t@),
        }
    }
}

/// One line for each allowed ROM: a dash, a space, the ROM.
pub open spec fn rom_lines(list: Seq<Seq<char>>) -> Seq<char>
    decreases list.len(),
{
    if list.len() == 0 {
        Seq::empty()
    } else {
        rom_lines(list.drop_last()) + "- "@ + list.last() + "\n"@
    }
}

/// Whether a member of the answer is listed as a ROM: its key is not
/// `Icon`, and it is an object with a string `name` and a string `md5`.
pub open spec fn is_rom_entry(key: Seq<char>, v: Json) -> bool {
    &&& key != "Icon"@
    &&& v is Object
    &&& v.member("name"@) matches Some(Json::Str(_))
    &&& v.member("md5"@) matches Some(Json::Str(_))
}

/// The lines that list a member as a ROM: its key and name, its MD5, and
/// an empty line.
pub open spec fn rom_entry_text(key: Seq<char>, v: Json) -> Seq<char> {
    key + ": "@ + v.member("name"@)->Some_0->Str_0@ + "\nmd5: "@ + v.member(
        "md5"@,
    )->Some_0->Str_0@ + "\n\n"@
}

/// The lines for all members that are listed as ROMs, in their order.
pub open spec fn rom_listing(entries: Seq<(String, Json)>) -> Seq<char>
    decreases entries.len(),
{
    if entries.len() == 0 {
        Seq::empty()
    } else if is_rom_entry(entries.last().0@, entries.last().1) {
        rom_listing(entries.drop_last()) + rom_entry_text(entries.last().0@, entries.last().1)
    } else {
        rom_listing(entries.drop_last())
    }
}

/// Whether any member is listed as a ROM.
pub open spec fn any_rom_entry(entries: Seq<(String, Json)>) -> bool {
    exists|i: int| 0 <= i < entries.len() && is_rom_entry(#[trigger] entries[i].0@, entries[i].1)
}

/// What the members of a parsed answer give to show: "invalid data" for
/// the diagnostic stream where the answer holds `Signup` or `VersionBoot`;
/// else the listing of its ROMs, where it has any; else nothing.
pub open spec fn listing_of(root: Json) -> Option<PrintedView> {
    match root {
        Json::Object(entries) => if root.member("Signup"@) is Some || root.member(
            "VersionBoot"@,
        ) is Some {
            Some(PrintedView::Stderr("Error: Invalid data\n"@))
        } else if any_rom_entry(entries@) {
            Some(PrintedView::Stdout(rom_listing(entries@)))
        } else {
            None
        },
        _ => None,
    }
}

/// What is shown of a result. The JSON text of the answer where a dump is
/// asked for and the text is there; else the list of allowed ROMs where
/// the answer gave one; else what `listing_of` makes of the parsed answer,
/// `parsed`; else the server's message; else a line that says that no
/// list came.
pub open spec fn allowed_text(res: ValidateResultView, dump_json: bool, parsed: Option<Json>)
    -> PrintedView {
    if dump_json && res.full_json is Some {
        PrintedView::Stdout(res.full_json->Some_0 + "\n"@)
    } else if res.pkgrom_validate is Some {
        if res.pkgrom_validate->Some_0.len() == 0 {
            PrintedView::Stdout("No allowed ROMs reported by server.\n"@)
        } else {
            PrintedView::Stdout("Allowed ROMs:\n"@ + rom_lines(res.pkgrom_validate->Some_0))
        }
    } else if parsed is Some && listing_of(parsed->Some_0) is Some {
        listing_of(parsed->Some_0)->Some_0
    } else if res.code_message is Some {
        PrintedView::Stdout(res.code_message->Some_0 + "\n"@)
    } else {
        PrintedView::Stdout("Server did not include allowed ROM list.\n"@)
    }
}

fn text_member<'a>(v: &'a Json, key: &str) -> (r: Option<&'a str>)
    ensures
        match v.member(key@) {
            Some(Json::Str(t)) => r is Some && r->Some_0@ == t@,
            _ => r is None,
        },
{
    match v.get(key) {
        Some(m) => m.as_str(),
        None => None,
    }
}

/// What the members of a parsed answer give to show.
pub fn allowed_listing(root: &Json) -> (r: Option<Printed>)
    ensures
        match listing_of(*root) {
            Some(p) => r is Some && r->Some_0@ == p,
            None => r is None,
        },
{
    let entries = match root {
        Json::Object(entries) => entries,
        _ => {
            return None;
        },
    };
    if root.get("Signup").is_some() || root.get("VersionBoot").is_some() {
        return Some(Printed::Stderr("Error: Invalid data\n".to_owned()));
    }
    let mut out: Vec<char> = Vec::new();
    let mut printed = false;
    let mut i: usize = 0;
    assert(entries@.take(0) =~= Seq::<(String, Json)>::empty());
    while i < entries.len()
        invariant
            i <= entries@.len(),
            out@ == rom_listing(entries@.take(i as int)),
            printed == any_rom_entry(entries@.take(i as int)),
        decreases entries@.len() - i,
    {
        let key = entries[i].0.as_str();
        let v = &entries[i].1;
        let ghost before = entries@.take(i as int);
        let ghost now = entries@.take(i as int + 1);
        assert(now.drop_last() =~= before);
        assert(now.last() == entries@[i as int]);
        let is_object = match v {
            Json::Object(_) => true,
            _ => false,
        };
        let mut listed = false;
        if !same_text(key, "Icon") && is_object {
            match (text_member(v, "name"), text_member(v, "md5")) {
                (Some(name), Some(md5)) => {
                    push_text(&mut out, key);
                    push_text(&mut out, ": ");
                    push_text(&mut out, name);
                    push_text(&mut out, "\nmd5: ");
                    push_text(&mut out, md5);
                    push_text(&mut out, "\n\n");
                    assert(out@ =~= rom_listing(before) + rom_entry_text(key@, *v));
                    listed = true;
                },
                _ => {},
            }
        }
        assert(listed == is_rom_entry(key@, *v));
        proof {
            if listed {
                assert(is_rom_entry(now[i as int].0@, now[i as int].1));
            } else if any_rom_entry(now) {
                let k = choose|k: int|
                    0 <= k < now.len() && is_rom_entry(#[trigger] now[k].0@, now[k].1);
                assert(before[k] == now[k]);
            }
            if any_rom_entry(before) {
                let k = choose|k: int|
                    0 <= k < before.len() && is_rom_entry(#[trigger] before[k].0@, before[k].1);
                assert(before[k] == now[k]);
            }
        }
        printed = printed || listed;
        i += 1;
    }
    assert(entries@.take(i as int) =~= entries@);
    if printed {
        Some(Printed::Stdout(string_of(out.as_slice())))
    } else {
        None
    }
}

/// What is to be shown of a validation result; with `dump_json`, the JSON
/// text of the answer where the result holds it.
pub fn print_allowed_with_options(res: &ValidateResult, dump_json: bool) -> (r: Printed)
    ensures
        r@ == allowed_text(
            res@,
            dump_json,
            match res@.full_json {
                Some(t) => parsed_json(t),
                None => None,
            },
        ),
{
    if dump_json {
        match &res.full_json {
            Some(j) => {
                let mut out = chars_of(j.as_str());
                push_text(&mut out, "\n");
                return Printed::Stdout(string_of(out.as_slice()));
            },
            None => {},
        }
    }
    match &res.pkgrom_validate {
        Some(list) => {
            if list.len() == 0 {
                return Printed::Stdout("No allowed ROMs reported by server.\n".to_owned());
            }
            let mut out = chars_of("Allowed ROMs:\n");
            let ghost texts = texts_of(list@);
            let mut i: usize = 0;
            assert(texts.take(0) =~= Seq::<Seq<char>>::empty());
            while i < list.len()
                invariant
                    i <= list@.len(),
                    texts == texts_of(list@),
                    out@ == "Allowed ROMs:\n"@ + rom_lines(texts.take(i as int)),
                decreases list@.len() - i,
            {
                assert(texts.take(i as int + 1).drop_last() =~= texts.take(i as int));
                assert(texts.take(i as int + 1).last() == list@[i as int]@);
                push_text(&mut out, "- ");
                push_text(&mut out, list[i].as_str());
                push_text(&mut out, "\n");
                assert(out@ =~= "Allowed ROMs:\n"@ + rom_lines(texts.take(i as int + 1)));
                i += 1;
            }
            assert(texts.take(i as int) =~= texts);
            return Printed::Stdout(string_of(out.as_slice()));
        },
        None => {},
    }
    match &res.full_json {
        Some(json_text) => match parse_json(json_text.as_str()) {
            Ok(root) => match allowed_listing(&root) {
                Some(p) => {
                    return p;
                },
                None => {},
            },
            Err(_) => {},
        },
        None => {},
    }
    match &res.code_message {
        Some(msg) => {
            let mut out = chars_of(msg.as_str());
            push_text(&mut out, "\n");
            Printed::Stdout(string_of(out.as_slice()))
        },
        None => Printed::Stdout("Server did not include allowed ROM list.\n".to_owned()),
    }
}

/// What is to be shown of a validation result.
pub fn print_allowed(res: &ValidateResult) -> (r: Printed)
    ensures
        r@ == allowed_text(
            res@,
            false,
            match res@.full_json {
                Some(t) => parsed_json(t),
                None => None,
            },
        ),
{
    print_allowed_with_options(res, false)
}

} // verus!
