use aes::cipher::block_padding::Pkcs7;
use aes::cipher::BlockEncryptMut;
use aes::cipher::KeyIvInit;
use base64::Engine;
use vstd::prelude::*;

verus! {

/// The lowercase hexadecimal digit for `d < 16`.
pub open spec fn hex_digit_lower(d: nat) -> char {
    if d < 10 {
        (('0' as u32) + d) as char
    } else {
        (('a' as u32) + d - 10) as char
    }
}

/// How `serde_json` writes one character inside a JSON string literal.
pub open spec fn json_escape_char(c: char) -> Seq<char> {
    if c == '"' {
        seq!['\\', '"']
    } else if c == '\\' {
        seq!['\\', '\\']
    } else if c == '\u{8}' {
        seq!['\\', 'b']
    } else if c == '\t' {
        seq!['\\', 't']
    } else if c == '\n' {
        seq!['\\', 'n']
    } else if c == '\u{c}' {
        seq!['\\', 'f']
    } else if c == '\r' {
        seq!['\\', 'r']
    } else if (c as u32) < 0x20 {
        seq![
            '\\',
            'u',
            '0',
            '0',
            hex_digit_lower((c as u32 / 16) as nat),
            hex_digit_lower((c as u32 % 16) as nat),
        ]
    } else {
        seq![c]
    }
}

/// The escaped body of a JSON string literal for `s`.
pub open spec fn json_escape(s: Seq<char>) -> Seq<char>
    decreases s.len(),
{
    if s.len() == 0 {
        seq![]
    } else {
        json_escape(s.drop_last()) + json_escape_char(s.last())
    }
}

/// The JSON string literal for `s`, as `serde_json` writes it.
pub open spec fn json_string_literal(s: Seq<char>) -> Seq<char> {
    seq!['"'] + json_escape(s) + seq!['"']
}

/// Text that JSON carries as it is: no quote, no backslash, no control
/// character below U+0020.
pub open spec fn json_plain(s: Seq<char>) -> bool {
    forall|i: int|
        0 <= i < s.len() ==> s[i] != '"' && s[i] != '\\' && (s[i] as u32) >= 0x20
}

/// Plain text is written between quotes as it is.
pub proof fn law_json_plain_text_is_quoted(s: Seq<char>)
    requires
        json_plain(s),
    ensures
        json_string_literal(s) == seq!['"'] + s + seq!['"'],
{
    lemma_json_escape_plain(s);
}

proof fn lemma_json_escape_plain(s: Seq<char>)
    requires
        json_plain(s),
    ensures
        json_escape(s) == s,
    decreases s.len(),
{
    if s.len() > 0 {
        lemma_json_escape_plain(s.drop_last());
        let c = s.last();
        assert(c == s[s.len() - 1]);
        assert(json_escape_char(c) == seq![c]);
        assert(s =~= s.drop_last() + seq![c]);
    }
}

/// `serde_json::to_string` on a `&str`: the JSON string literal of `s`, quoted
/// and escaped (`"` and `\` by a backslash, the control characters below
/// U+0020 by their short escapes or `\u00xx` with lowercase hex digits, all
/// other characters as they are). Serializing a string into memory cannot fail.
#[verifier::external_body]
pub(crate) fn json_quote(s: &str) -> (r: String)
    ensures
        r@ == json_string_literal(s@),
{
    serde_json::to_string(s).unwrap_or_default()
}

/// The character of the six-bit value `v` in the standard base64 alphabet
/// `A`-`Z`, `a`-`z`, `0`-`9`, `+`, `/`.
pub open spec fn base64_digit(v: nat) -> char {
    if v < 26 {
        (('A' as u32) + v) as char
    } else if v < 52 {
        (('a' as u32) + v - 26) as char
    } else if v < 62 {
        (('0' as u32) + v - 52) as char
    } else if v == 62 {
        '+'
    } else {
        '/'
    }
}

/// The base64 text of `data` in the standard alphabet with `=` padding: each
/// group of three bytes, read as 24 bits, gives four six-bit digits; a last
/// group of one or two bytes is filled with zero bits and padded with `=`.
pub open spec fn base64_standard(data: Seq<u8>) -> Seq<char>
    decreases data.len(),
{
    if data.len() == 0 {
        Seq::empty()
    } else if data.len() == 1 {
        let b0 = data[0] as nat;
        seq![base64_digit(b0 / 4), base64_digit((b0 % 4) * 16), '=', '=']
    } else if data.len() == 2 {
        let b0 = data[0] as nat;
        let b1 = data[1] as nat;
        seq![
            base64_digit(b0 / 4),
            base64_digit((b0 % 4) * 16 + b1 / 16),
            base64_digit((b1 % 16) * 4),
            '=',
        ]
    } else {
        let b0 = data[0] as nat;
        let b1 = data[1] as nat;
        let b2 = data[2] as nat;
        seq![
            base64_digit(b0 / 4),
            base64_digit((b0 % 4) * 16 + b1 / 16),
            base64_digit((b1 % 16) * 4 + b2 / 64),
            base64_digit(b2 % 64),
        ] + base64_standard(data.subrange(3, data.len() as int))
    }
}

/// `base64::engine::general_purpose::STANDARD.encode`: the result is the
/// standard, padded base64 text of `data` (`base64_standard`); its length is
/// four characters for every started group of three bytes. The encoder
/// panics when that length overflows `usize`, which `requires` rules out.
#[verifier::external_body]
pub(crate) fn base64_encode(data: &[u8]) -> (r: String)
    requires
        4 * ((data@.len() + 2) / 3) <= usize::MAX,
    ensures
        r@ == base64_standard(data@),
        r@.len() == 4 * ((data@.len() + 2) / 3),
{
    base64::engine::general_purpose::STANDARD.encode(data)
}

/// The AES-128-CBC ciphertext of `plaintext` under `key` and `iv` after PKCS#7
/// padding; the block cipher itself is left to the outside crates.
pub uninterp spec fn aes128_cbc_pkcs7(key: Seq<u8>, iv: Seq<u8>, plaintext: Seq<u8>) -> Seq<u8>;

/// `cbc::Encryptor::<aes::Aes128>::new(key, iv).encrypt_padded_vec_mut::<Pkcs7>`:
/// the ciphertext is named `aes128_cbc_pkcs7`; PKCS#7 pads to the next whole
/// 16-byte block, always adding at least one byte. Building the key and the
/// IV from slices panics unless both are 16 bytes long, which `requires`
/// rules out.
#[verifier::external_body]
pub(crate) fn aes128_cbc_pkcs7_encrypt(key: &[u8], iv: &[u8], plaintext: &[u8]) -> (r: Vec<u8>)
    requires
        key@.len() == 16,
        iv@.len() == 16,
    ensures
        r@ == aes128_cbc_pkcs7(key@, iv@, plaintext@),
        r@.len() == (plaintext@.len() / 16 + 1) * 16,
{
    cbc::Encryptor::<aes::Aes128>::new(key.into(), iv.into()).encrypt_padded_vec_mut::<Pkcs7>(
        plaintext,
    )
}

} // verus!
