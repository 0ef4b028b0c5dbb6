use num_bigint::BigUint;
use vstd::prelude::*;

verus! {

use crate::codec::hex_digit_lower;
use vstd::arithmetic::power::pow;
use vstd::utf8::encode_utf8;

/// The number that the big-endian bytes `b` spell.
pub open spec fn be_value(b: Seq<u8>) -> nat
    decreases b.len(),
{
    if b.len() == 0 {
        0
    } else {
        be_value(b.drop_last()) * 256 + b.last() as nat
    }
}

/// The value of a hexadecimal digit in either case.
pub open spec fn hex_digit_value(c: char) -> Option<nat> {
    if '0' <= c && c <= '9' {
        Some((c as u32 - '0' as u32) as nat)
    } else if 'a' <= c && c <= 'f' {
        Some((c as u32 - 'a' as u32 + 10) as nat)
    } else if 'A' <= c && c <= 'F' {
        Some((c as u32 - 'A' as u32 + 10) as nat)
    } else {
        None
    }
}

/// The value of hexadecimal digits with `_` separators skipped; `None` when a
/// character is neither a digit nor `_`.
pub open spec fn hex_digits_value(s: Seq<char>) -> Option<nat>
    decreases s.len(),
{
    if s.len() == 0 {
        Some(0)
    } else {
        match hex_digits_value(s.drop_last()) {
            None => None,
            Some(v) => if s.last() == '_' {
                Some(v)
            } else {
                match hex_digit_value(s.last()) {
                    Some(d) => Some(v * 16 + d),
                    None => None,
                }
            },
        }
    }
}

/// What `BigUint::parse_bytes(s, 16)` accepts and yields: an optional single
/// `+`, then a nonempty run of hexadecimal digits and `_` separators that
/// does not start with `_`.
pub open spec fn parse_hex(s: Seq<char>) -> Option<nat> {
    let t = if s.len() > 0 && s[0] == '+' && !(s.len() > 1 && s[1] == '+') {
        s.drop_first()
    } else {
        s
    };
    if t.len() == 0 || t[0] == '_' {
        None
    } else {
        hex_digits_value(t)
    }
}

/// The lowercase hexadecimal digits of `n`, without leading zeros (`0` for zero).
pub open spec fn lower_hex(n: nat) -> Seq<char>
    decreases n,
{
    if n < 16 {
        seq![hex_digit_lower(n)]
    } else {
        lower_hex(n / 16).push(hex_digit_lower(n % 16))
    }
}

/// `s` padded on the left with `0` up to `width` characters.
pub open spec fn zero_pad_left(s: Seq<char>, width: nat) -> Seq<char> {
    if s.len() < width {
        Seq::new((width - s.len()) as nat, |i: int| '0') + s
    } else {
        s
    }
}

/// `BigUint::parse_bytes(s, 16)`, with the number handed out as its big-endian
/// bytes (`to_bytes_be`): `None` exactly when `parse_hex` rejects `s`, else the
/// bytes of its value.
#[verifier::external_body]
fn parse_hex_be(s: &str) -> (r: Option<Vec<u8>>)
    ensures
        r is Some <==> parse_hex(s@) is Some,
        r matches Some(b) ==> be_value(b@) == parse_hex(s@)->0,
{
    match BigUint::parse_bytes(s.as_bytes(), 16) {
        Some(n) => Some(n.to_bytes_be()),
        None => None,
    }
}

/// `BigUint::modpow` on numbers given as big-endian bytes (`from_bytes_be`,
/// `to_bytes_be`): `base` to the power `exponent`, reduced modulo `modulus`.
/// It panics on a zero modulus, which `requires` rules out.
#[verifier::external_body]
fn mod_pow_be(base: &[u8], exponent: &[u8], modulus: &[u8]) -> (r: Vec<u8>)
    requires
        be_value(modulus@) > 0,
    ensures
        be_value(r@) == pow(be_value(base@) as int, be_value(exponent@)) % (be_value(
            modulus@,
        ) as int),
{
    let b = BigUint::from_bytes_be(base);
    b.modpow(&BigUint::from_bytes_be(exponent), &BigUint::from_bytes_be(modulus)).to_bytes_be()
}

/// `format!("{:0>width$x}", n)` on the number whose big-endian bytes are `n`:
/// its lowercase hexadecimal digits, padded with `0` on the left to `width`.
#[verifier::external_body]
fn lower_hex_padded(n: &[u8], width: usize) -> (r: String)
    ensures
        r@ == zero_pad_left(lower_hex(be_value(n@)), width as nat),
{
    format!("{:0>width$x}", BigUint::from_bytes_be(n), width = width)
}

/// The text that the CAS login form carries in place of the password: the
/// password's UTF-8 bytes read as a big-endian number, raised to `e` modulo
/// `n`, in lowercase hexadecimal padded with zeros to 128 digits.
pub open spec fn rsa_password_text(password: Seq<char>, e: nat, n: nat) -> Seq<char> {
    zero_pad_left(
        lower_hex((pow(be_value(encode_utf8(password)) as int, e) % (n as int)) as nat),
        128,
    )
}

/// Whether `s` is text that `BigUint::parse_bytes(s, 16)` accepts.
pub fn is_hex_number(s: &str) -> (r: bool)
    ensures
        r == parse_hex(s@) is Some,
{
    parse_hex_be(s).is_some()
}

/// Whether `s` is accepted as hexadecimal and its value is not zero: the
/// inputs on which encrypting a password neither fails to parse nor divides
/// by zero.
pub fn is_valid_modulus(s: &str) -> (r: bool)
    ensures
        r == (parse_hex(s@) matches Some(n) && n > 0),
{
    match parse_hex_be(s) {
        Some(b) => !is_zero_be(&b),
        None => false,
    }
}

/// Whether the big-endian bytes `b` spell zero.
fn is_zero_be(b: &Vec<u8>) -> (r: bool)
    ensures
        r == (be_value(b@) == 0),
{
    let mut i: usize = 0;
    while i < b.len()
        invariant
            i <= b@.len(),
            forall|j: int| 0 <= j < i ==> b@[j] == 0,
        decreases b@.len() - i,
    {
        if b[i] != 0 {
            proof {
                lemma_be_value_nonzero(b@, i as int);
            }
            return false;
        }
        i = i + 1;
    }
    proof {
        lemma_be_value_zero(b@);
    }
    true
}

proof fn lemma_be_value_zero(b: Seq<u8>)
    requires
        forall|j: int| 0 <= j < b.len() ==> b[j] == 0,
    ensures
        be_value(b) == 0,
    decreases b.len(),
{
    if b.len() > 0 {
        lemma_be_value_zero(b.drop_last());
    }
}

proof fn lemma_be_value_nonzero(b: Seq<u8>, i: int)
    requires
        0 <= i < b.len(),
        b[i] != 0,
    ensures
        be_value(b) > 0,
    decreases b.len(),
{
    if i < b.len() - 1 {
        lemma_be_value_nonzero(b.drop_last(), i);
        assert(be_value(b.drop_last()) * 256 >= 256) by (nonlinear_arith)
            requires
                be_value(b.drop_last()) > 0,
        ;
    }
}

/// Encrypts the password for the CAS login form with the public key that the
/// CAS server hands out (`exponent_hex`, `modulus_hex`). Parsing either number
/// or reducing by a zero modulus would panic, which `requires` rules out.
pub fn encrypt_password(password: &str, exponent_hex: &str, modulus_hex: &str) -> (r: String)
    requires
        parse_hex(exponent_hex@) is Some,
        parse_hex(modulus_hex@) matches Some(n) && n > 0,
    ensures
        r@ == rsa_password_text(
            password@,
            parse_hex(exponent_hex@)->0,
            parse_hex(modulus_hex@)->0,
        ),
{
    let e = parse_hex_be(exponent_hex);
    let n = parse_hex_be(modulus_hex);
    match (e, n) {
        (Some(e), Some(n)) => {
            let m = password.as_bytes();
            let c = mod_pow_be(m, e.as_slice(), n.as_slice());
            lower_hex_padded(c.as_slice(), 128)
        },
        _ => {
            assert(false);
            String::new()
        },
    }
}

/// The number of bytes read with the first byte most significant: the first
/// byte counts 256 to the power of the number of bytes after it.
pub open spec fn msb_first_value(b: Seq<u8>) -> nat
    decreases b.len(),
{
    if b.len() == 0 {
        0
    } else {
        (b[0] as nat) * (pow(256, (b.len() - 1) as nat) as nat) + msb_first_value(b.drop_first())
    }
}

proof fn lemma_be_value_first_byte(b: Seq<u8>)
    requires
        b.len() > 0,
    ensures
        be_value(b) == (b[0] as nat) * (pow(256, (b.len() - 1) as nat) as nat) + be_value(
            b.drop_first(),
        ),
    decreases b.len(),
{
    let n = b.len();
    reveal(pow);
    vstd::arithmetic::power::lemma_pow_positive(256, (n - 1) as nat);
    if n == 1 {
        assert(b.drop_last().len() == 0);
        assert(b.drop_first().len() == 0);
        assert(be_value(b.drop_last()) == 0);
        assert(be_value(b.drop_first()) == 0);
        assert(pow(256, 0) == 1);
        assert(b.last() == b[0]);
    } else {
        let p = b.drop_last();
        lemma_be_value_first_byte(p);
        assert(p[0] == b[0]);
        assert(p.drop_first() =~= b.drop_first().drop_last());
        assert(b.drop_first().last() == b.last());
        vstd::arithmetic::power::lemma_pow_positive(256, (n - 2) as nat);
        let q = pow(256, (n - 2) as nat);
        assert(pow(256, (n - 1) as nat) == 256 * q);
        let x = b[0] as int;
        let r = be_value(b.drop_first().drop_last()) as int;
        assert(be_value(p) == x * q + r);
        assert(be_value(b) == be_value(p) * 256 + b.last() as int);
        assert(be_value(b.drop_first()) == r * 256 + b.last() as int);
        assert((x * q + r) * 256 + b.last() as int == x * (256 * q) + (r * 256 + b.last() as int))
            by (nonlinear_arith);
    }
}

/// Reading bytes as a big-endian number gives the first byte the most
/// weight: `be_value` is the sum of each byte times 256 to the power of the
/// number of bytes after it.
pub proof fn law_be_value_is_msb_first(b: Seq<u8>)
    ensures
        be_value(b) == msb_first_value(b),
    decreases b.len(),
{
    if b.len() > 0 {
        lemma_be_value_first_byte(b);
        law_be_value_is_msb_first(b.drop_first());
    }
}

/// The password text of the CAS form is, for every password and key, the
/// lowercase hex, zero-padded to 128 digits, of the password's UTF-8 bytes
/// read with the first byte most significant, raised to `e` modulo `n`.
pub proof fn law_password_text_is_rsa_of_msb_first_bytes(password: Seq<char>, e: nat, n: nat)
    ensures
        rsa_password_text(password, e, n) == zero_pad_left(
            lower_hex((pow(msb_first_value(encode_utf8(password)) as int, e) % (n as int)) as nat),
            128,
        ),
{
    law_be_value_is_msb_first(encode_utf8(password));
}

/// A two-byte password `b0 b1` under exponent 1 and a modulus above its
/// number is sent as the hex of `b0 * 256 + b1`: the first byte is the high
/// one.
pub proof fn law_two_byte_password_text(password: Seq<char>, b0: u8, b1: u8, n: nat)
    requires
        encode_utf8(password) == seq![b0, b1],
        n > (b0 as nat) * 256 + (b1 as nat),
    ensures
        rsa_password_text(password, 1, n) == zero_pad_left(
            lower_hex((b0 as nat) * 256 + (b1 as nat)),
            128,
        ),
{
    reveal(pow);
    let b = seq![b0, b1];
    assert(b.drop_last() =~= seq![b0]);
    assert(seq![b0].drop_last() =~= Seq::<u8>::empty());
    assert(be_value(Seq::<u8>::empty()) == 0);
    assert(be_value(seq![b0]) == b0 as nat);
    assert(be_value(b) == (b0 as nat) * 256 + (b1 as nat));
    let v = (b0 as nat) * 256 + (b1 as nat);
    assert(pow(v as int, 1) == v * pow(v as int, 0));
    assert(pow(v as int, 0) == 1);
    assert((v as int) % (n as int) == v as int) by {
        vstd::arithmetic::div_mod::lemma_small_mod(v, n);
    }
}

} // verus!
