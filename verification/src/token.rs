//! Access tokens.

use vstd::prelude::*;

verus! {

/// The number of random bytes in a token.
pub const TOKEN_BYTES: usize = 32;

/// The lower-case hexadecimal digit for `n`.
pub open spec fn hex_digit(n: u8) -> char {
    if n < 10 {
        (48 + n) as char
    } else {
        (87 + n) as char
    }
}

/// The number that a lower-case hexadecimal digit stands for.
pub open spec fn digit_value(c: char) -> int {
    if c <= '9' {
        c as int - 48
    } else {
        c as int - 87
    }
}

/// Whether `c` is a lower-case hexadecimal digit.
pub open spec fn is_hex_digit(c: char) -> bool {
    '0' <= c <= '9' || 'a' <= c <= 'f'
}

/// `bytes` in hexadecimal, two digits each, the higher one first.
pub open spec fn hex(bytes: Seq<u8>) -> Seq<char> {
    Seq::new(
        2 * bytes.len(),
        |i: int|
            if i % 2 == 0 {
                hex_digit(bytes[i / 2] / 16)
            } else {
                hex_digit(bytes[i / 2] % 16)
            },
    )
}

/// The bytes that pairs of hexadecimal digits stand for.
pub open spec fn unhex(digits: Seq<char>) -> Seq<u8> {
    Seq::new(
        digits.len() / 2,
        |i: int| (16 * digit_value(digits[2 * i]) + digit_value(digits[2 * i + 1])) as u8,
    )
}

/// Whether `token` can come from the token generator.
pub open spec fn is_generated(token: Seq<char>) -> bool {
    exists|bytes: Seq<u8>| bytes.len() == TOKEN_BYTES && token == #[trigger] hex(bytes)
}

/// Reading the digits gives the bytes back, so different bytes have different
/// digits.
pub proof fn law_hex_round_trip(bytes: Seq<u8>)
    ensures
        unhex(hex(bytes)) == bytes,
{
    let digits = hex(bytes);
    assert forall|i: int| 0 <= i < bytes.len() implies #[trigger] unhex(digits)[i] == bytes[i] by {
        assert((2 * i) / 2 == i && (2 * i) % 2 == 0);
        assert((2 * i + 1) / 2 == i && (2 * i + 1) % 2 == 1);
        assert(digits[2 * i] == hex_digit(bytes[i] / 16));
        assert(digits[2 * i + 1] == hex_digit(bytes[i] % 16));
    }
    assert(unhex(digits) =~= bytes);
}

/// A generated token is made of 64 lower-case hexadecimal digits.
pub proof fn law_token_shape(token: Seq<char>)
    requires
        is_generated(token),
    ensures
        token.len() == 64,
        forall|i: int| 0 <= i < token.len() ==> is_hex_digit(#[trigger] token[i]),
{
}

/// A byte is written with the digits for its higher and its lower half, in this
/// order; bytes are written in theirs.
pub proof fn law_hex_digits(bytes: Seq<u8>, i: int)
    requires
        0 <= i < bytes.len(),
    ensures
        hex(bytes).len() == 2 * bytes.len(),
        hex(bytes)[2 * i] == "0123456789abcdef"@[bytes[i] as int / 16],
        hex(bytes)[2 * i + 1] == "0123456789abcdef"@[bytes[i] as int % 16],
{
    reveal_strlit("0123456789abcdef");
    assert((2 * i) / 2 == i && (2 * i) % 2 == 0);
    assert((2 * i + 1) / 2 == i && (2 * i + 1) % 2 == 1);
    lemma_hex_digit(bytes[i] / 16);
    lemma_hex_digit(bytes[i] % 16);
}

proof fn lemma_hex_digit(n: u8)
    requires
        n < 16,
    ensures
        hex_digit(n) == "0123456789abcdef"@[n as int],
{
    reveal_strlit("0123456789abcdef");
    let digits = "0123456789abcdef"@;
    assert(digits[0] == '0' && digits[1] == '1' && digits[2] == '2' && digits[3] == '3');
    assert(digits[4] == '4' && digits[5] == '5' && digits[6] == '6' && digits[7] == '7');
    assert(digits[8] == '8' && digits[9] == '9' && digits[10] == 'a' && digits[11] == 'b');
    assert(digits[12] == 'c' && digits[13] == 'd' && digits[14] == 'e' && digits[15] == 'f');
}

/// `bytes` in hexadecimal.
pub fn hex_encode(bytes: &[u8]) -> (res: String)
    ensures
        res@ == hex(bytes@),
{
    let mut res = String::new();
    let mut i: usize = 0;
    while i < bytes.len()
        invariant
            i <= bytes.len(),
            res@ == hex(bytes@.take(i as int)),
        decreases bytes.len() - i,
    {
        let byte = bytes[i];
        assert(byte >> 4 == byte / 16 && byte & 0x0f == byte % 16) by (bit_vector);
        res.push(digit(byte >> 4));
        res.push(digit(byte & 0x0f));
        assert(res@ =~= hex(bytes@.take(i + 1)));
        i += 1;
    }
    assert(bytes@.take(bytes@.len() as int) =~= bytes@);
    res
}

/// The lower-case hexadecimal digit for `n`.
fn digit(n: u8) -> (res: char)
    requires
        n < 16,
    ensures
        res == hex_digit(n),
{
    if n < 10 {
        (48 + n) as char
    } else {
        (87 + n) as char
    }
}

/// The error of the system's source of randomness.
#[verifier::external_type_specification]
#[verifier::external_body]
pub struct ExRandomError(getrandom::Error);

/// `getrandom::getrandom` on a buffer of `len` bytes: on success it has filled
/// the whole buffer with random bytes. Nothing is said of their values, nor of
/// when the call fails.
#[verifier::external_body]
fn random_bytes(len: usize) -> (res: Result<Vec<u8>, getrandom::Error>)
    ensures
        res matches Ok(bytes) ==> bytes@.len() == len,
{
    let mut bytes = vec![0u8; len];
    getrandom::getrandom(&mut bytes)?;
    Ok(bytes)
}

/// Whether the system's source of randomness, when it is asked for the bytes of
/// a token, can answer `random`.
pub closed spec fn is_drawn(random: Result<Vec<u8>, getrandom::Error>) -> bool {
    call_ensures(random_bytes, (32usize,), random)
}

/// Whether `token` is made of 32 bytes that the system's source of randomness
/// gave; where it gave none, there is no token.
pub open spec fn is_random(token: Option<Seq<char>>) -> bool {
    exists|random: Result<Vec<u8>, getrandom::Error>| #[trigger]
        is_drawn(random) && match random {
            Ok(bytes) => bytes@.len() == 32 && token == Some(hex(bytes@)),
            Err(_) => token is None,
        }
}

/// The token made of random bytes, or `None` if there are none.
pub fn token_from(random: Result<Vec<u8>, getrandom::Error>) -> (res: Option<String>)
    ensures
        match random {
            Ok(bytes) => res matches Some(token) && token@ == hex(bytes@),
            Err(_) => res is None,
        },
{
    match random {
        Ok(bytes) => Some(hex_encode(bytes.as_slice())),
        Err(_) => None,
    }
}

/// A fresh token, or `None` if the system gave no random bytes.
pub fn generate_token() -> (res: Option<String>)
    ensures
        res matches Some(token) ==> is_generated(token@),
        is_random(
            match res {
                Some(token) => Some(token@),
                None => None,
            },
        ),
{
    let random = random_bytes(TOKEN_BYTES);
    assert(is_drawn(random));
    token_from(random)
}

} // verus!
