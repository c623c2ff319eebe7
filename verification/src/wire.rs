//! Fixed-width fields as they stand on the wire: 32-bit little-endian
//! integers and lowercase hexadecimal text.

use vstd::arithmetic::div_mod::{lemma_fundamental_div_mod, lemma_fundamental_div_mod_converse};
use vstd::prelude::*;

verus! {

/// The four bytes of `x`, least significant first.
#[verifier::opaque]
pub open spec fn le_bytes(x: u32) -> Seq<u8> {
    seq![
        (x % 256) as u8,
        (x / 256 % 256) as u8,
        (x / 256 / 256 % 256) as u8,
        (x / 256 / 256 / 256) as u8,
    ]
}

/// The number that the first four bytes of `b` stand for, least significant
/// byte first.
pub open spec fn le_value(b: Seq<u8>) -> int
    recommends
        b.len() >= 4,
{
    b[0] + 256 * (b[1] + 256 * (b[2] + 256 * b[3]))
}

/// The little-endian field that starts at offset `at` of `bytes`.
pub open spec fn le_field(bytes: Seq<u8>, at: int) -> int
    recommends
        0 <= at,
        at + 4 <= bytes.len(),
{
    le_value(bytes.subrange(at, at + 4))
}

/// Reading back the four bytes of a number gives the number.
pub proof fn lemma_le_value_of_bytes(x: u32)
    ensures
        le_bytes(x).len() == 4,
        le_value(le_bytes(x)) == x,
{
    reveal(le_bytes);
    let q1: int = x as int / 256;
    let q2: int = q1 / 256;
    let q3: int = q2 / 256;
    lemma_fundamental_div_mod(x as int, 256);
    lemma_fundamental_div_mod(q1, 256);
    lemma_fundamental_div_mod(q2, 256);
}

/// Four bytes that stand for a number are the bytes of that number.
pub proof fn lemma_le_bytes_of_value(b: Seq<u8>)
    requires
        b.len() == 4,
    ensures
        0 <= le_value(b) <= u32::MAX,
        le_bytes(le_value(b) as u32) == b,
{
    reveal(le_bytes);
    let v: int = le_value(b);
    let v1: int = b[1] + 256 * (b[2] + 256 * b[3]);
    let v2: int = b[2] + 256 * b[3];
    lemma_fundamental_div_mod_converse(v, 256, v1, b[0] as int);
    lemma_fundamental_div_mod_converse(v1, 256, v2, b[1] as int);
    lemma_fundamental_div_mod_converse(v2, 256, b[3] as int, b[2] as int);
    assert(le_bytes(v as u32) =~= b);
}

/// Appends the four little-endian bytes of `x` to `buf`.
pub fn put_u32_le(buf: &mut Vec<u8>, x: u32)
    ensures
        final(buf)@ == old(buf)@ + le_bytes(x),
{
    buf.push((x % 256) as u8);
    buf.push((x / 256 % 256) as u8);
    buf.push((x / 256 / 256 % 256) as u8);
    buf.push((x / 256 / 256 / 256) as u8);
    proof {
        reveal(le_bytes);
        assert(buf@ =~= old(buf)@ + le_bytes(x));
    }
}

/// Reads the little-endian 32-bit field at offset `at` of `bytes`.
pub fn get_u32_le(bytes: &[u8], at: usize) -> (x: u32)
    requires
        at + 4 <= bytes@.len(),
    ensures
        x == le_field(bytes@, at as int),
        le_bytes(x) == bytes@.subrange(at as int, at + 4),
{
    let b0: u32 = bytes[at] as u32;
    let b1: u32 = bytes[at + 1] as u32;
    let b2: u32 = bytes[at + 2] as u32;
    let b3: u32 = bytes[at + 3] as u32;
    proof {
        lemma_le_bytes_of_value(bytes@.subrange(at as int, at + 4));
    }
    b0 + 256 * (b1 + 256 * (b2 + 256 * b3))
}

/// The ASCII code of the lowercase hexadecimal digit for `n`.
pub open spec fn hex_digit(n: u8) -> u8
    recommends
        n < 16,
{
    if n < 10 {
        (48 + n) as u8
    } else {
        (87 + n) as u8
    }
}

/// Whether `c` is the ASCII code of one of `0`..`9`, `a`..`f`.
pub open spec fn is_lower_hex(c: u8) -> bool {
    48 <= c <= 57 || 97 <= c <= 102
}

/// The lowercase hexadecimal text of `data` as ASCII bytes: two digits for
/// each byte, the high half first.
pub open spec fn hex_lower(data: Seq<u8>) -> Seq<u8> {
    Seq::new(
        2 * data.len(),
        |i: int|
            if i % 2 == 0 {
                hex_digit(data[i / 2] / 16)
            } else {
                hex_digit(data[i / 2] % 16)
            },
    )
}

/// Hexadecimal text is twice as long as the data and made of lowercase
/// hexadecimal digits only.
pub proof fn lemma_hex_lower_digits(data: Seq<u8>)
    ensures
        hex_lower(data).len() == 2 * data.len(),
        forall|i: int| 0 <= i < 2 * data.len() ==> is_lower_hex(#[trigger] hex_lower(data)[i]),
{
}

/// Renders `data` as lowercase hexadecimal ASCII text.
pub fn to_hex_lower(data: &[u8]) -> (out: Vec<u8>)
    ensures
        out@ == hex_lower(data@),
{
    let mut out: Vec<u8> = Vec::new();
    let mut i: usize = 0;
    while i < data.len()
        invariant
            i <= data@.len(),
            out@.len() == 2 * i,
            forall|j: int| 0 <= j < 2 * i ==> out@[j] == hex_lower(data@)[j],
        decreases data@.len() - i,
    {
        let byte: u8 = data[i];
        out.push(hex_digit_of(byte / 16));
        out.push(hex_digit_of(byte % 16));
        i = i + 1;
    }
    assert(out@ =~= hex_lower(data@));
    out
}

/// The ASCII code of the lowercase hexadecimal digit for `n`.
fn hex_digit_of(n: u8) -> (c: u8)
    requires
        n < 16,
    ensures
        c == hex_digit(n),
{
    if n < 10 {
        48 + n
    } else {
        87 + n
    }
}

} // verus!
