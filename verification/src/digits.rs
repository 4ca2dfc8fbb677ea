//! Mathematical models of the byte- and character-level encodings the
//! accumulator exchanges with its callers: decimal and hexadecimal digit
//! strings, big-endian byte values, and little-endian counter encodings.
use vstd::prelude::*;
use vstd::arithmetic::power2::*;
use vstd::utf8::encode_utf8;

verus! {

/// A byte that is an ASCII decimal digit.
pub open spec fn is_dec_byte(b: u8) -> bool {
    48 <= b && b <= 57
}

/// A non-empty sequence of ASCII decimal digit bytes: the only accepted
/// external form of a numeric value.
pub open spec fn is_dec_bytes(s: Seq<u8>) -> bool {
    s.len() >= 1 && forall|i: int| 0 <= i < s.len() ==> is_dec_byte(#[trigger] s[i])
}

/// The numeric value of a sequence of ASCII decimal digit bytes.
pub open spec fn dec_value(s: Seq<u8>) -> nat
    decreases s.len(),
{
    if s.len() == 0 {
        0
    } else {
        (dec_value(s.drop_last()) * 10 + (s.last() - 48)) as nat
    }
}

/// The character for decimal digit `d`.
pub open spec fn dec_digit_char(d: nat) -> char {
    if d == 0 { '0' }
    else if d == 1 { '1' }
    else if d == 2 { '2' }
    else if d == 3 { '3' }
    else if d == 4 { '4' }
    else if d == 5 { '5' }
    else if d == 6 { '6' }
    else if d == 7 { '7' }
    else if d == 8 { '8' }
    else { '9' }
}

/// The character for hexadecimal digit `d`, lowercase.
pub open spec fn hex_digit_char(d: nat) -> char {
    if d < 10 { dec_digit_char(d) }
    else if d == 10 { 'a' }
    else if d == 11 { 'b' }
    else if d == 12 { 'c' }
    else if d == 13 { 'd' }
    else if d == 14 { 'e' }
    else { 'f' }
}

/// The canonical decimal rendering of `n`: no leading zeros, `"0"` for zero.
pub open spec fn dec_chars(n: nat) -> Seq<char>
    decreases n,
{
    if n < 10 {
        seq![dec_digit_char(n)]
    } else {
        dec_chars(n / 10) + seq![dec_digit_char(n % 10)]
    }
}

/// The canonical lowercase hexadecimal rendering of `n`.
pub open spec fn hex_chars(n: nat) -> Seq<char>
    decreases n,
{
    if n < 16 {
        seq![hex_digit_char(n)]
    } else {
        hex_chars(n / 16) + seq![hex_digit_char(n % 16)]
    }
}

/// Two lowercase hexadecimal characters for every byte, in order.
pub open spec fn hex_of_bytes(s: Seq<u8>) -> Seq<char>
    decreases s.len(),
{
    if s.len() == 0 {
        Seq::<char>::empty()
    } else {
        hex_of_bytes(s.drop_last())
            + seq![hex_digit_char((s.last() / 16) as nat), hex_digit_char((s.last() % 16) as nat)]
    }
}

/// The value of a byte sequence read in big-endian order.
pub open spec fn be_value(s: Seq<u8>) -> nat
    decreases s.len(),
{
    if s.len() == 0 {
        0
    } else {
        (be_value(s.drop_last()) * 256 + s.last()) as nat
    }
}

/// The eight little-endian base-256 digits of a 64-bit counter,
/// as `u64::to_le_bytes` lays them out.
pub open spec fn le8(n: u64) -> Seq<u8> {
    seq![
        (n % 256) as u8,
        ((n / 256) % 256) as u8,
        ((n / 65536) % 256) as u8,
        ((n / 16777216) % 256) as u8,
        ((n / 4294967296) % 256) as u8,
        ((n / 1099511627776) % 256) as u8,
        ((n / 281474976710656) % 256) as u8,
        ((n / 72057594037927936) % 256) as u8,
    ]
}

/// The four little-endian base-256 digits of a 32-bit counter,
/// as `u32::to_le_bytes` lays them out.
pub open spec fn le4(n: u32) -> Seq<u8> {
    seq![
        (n % 256) as u8,
        ((n / 256) % 256) as u8,
        ((n / 65536) % 256) as u8,
        ((n / 16777216) % 256) as u8,
    ]
}

/// A big-endian byte sequence of length `k` denotes a value below `2^(8k)`.
pub proof fn lemma_be_value_upper(s: Seq<u8>)
    ensures
        be_value(s) < pow2((8 * s.len()) as nat),
    decreases s.len(),
{
    if s.len() == 0 {
        lemma2_to64();
    } else {
        lemma_be_value_upper(s.drop_last());
        lemma_pow2_adds((8 * (s.len() - 1)) as nat, 8);
        lemma2_to64();
        assert(be_value(s.drop_last()) * 256 + s.last()
            < pow2((8 * (s.len() - 1)) as nat) * 256) by (nonlinear_arith)
            requires
                be_value(s.drop_last()) < pow2((8 * (s.len() - 1)) as nat),
                s.last() < 256,
        ;
    }
}

/// A big-endian byte sequence denotes at least its leading byte shifted
/// into position.
pub proof fn lemma_be_value_lower(s: Seq<u8>)
    requires
        s.len() >= 1,
    ensures
        be_value(s) >= s[0] * pow2((8 * (s.len() - 1)) as nat),
    decreases s.len(),
{
    if s.len() == 1 {
        lemma2_to64();
        assert(s.drop_last().len() == 0);
        assert(be_value(s) == s.last());
        assert(s.last() == s[0]);
        assert(pow2(0) == 1);
        assert(s[0] * 1 == s[0]) by (nonlinear_arith);
    } else {
        lemma_be_value_lower(s.drop_last());
        assert(s.drop_last()[0] == s[0]);
        lemma_pow2_adds((8 * (s.len() - 2)) as nat, 8);
        lemma2_to64();
        assert(be_value(s.drop_last()) * 256 >= (s[0] * pow2((8 * (s.len() - 2)) as nat)) * 256)
            by (nonlinear_arith)
            requires
                be_value(s.drop_last()) >= s[0] * pow2((8 * (s.len() - 2)) as nat),
        ;
        assert((s[0] * pow2((8 * (s.len() - 2)) as nat)) * 256
            == s[0] * (pow2((8 * (s.len() - 2)) as nat) * 256)) by (nonlinear_arith);
    }
}

/// A big-endian byte sequence is bounded by its leading byte plus one,
/// shifted into position: the tight head bound used to cap a masked
/// random draw below a requested bit width.
pub proof fn lemma_be_value_head_bound(s: Seq<u8>)
    requires
        s.len() >= 1,
    ensures
        be_value(s) < (s[0] + 1) * pow2((8 * (s.len() - 1)) as nat),
    decreases s.len(),
{
    if s.len() == 1 {
        lemma2_to64();
        assert(s.drop_last().len() == 0);
        assert(be_value(s) == s[0]);
        assert((s[0] + 1) * 1 == s[0] + 1) by (nonlinear_arith);
    } else {
        lemma_be_value_head_bound(s.drop_last());
        assert(s.drop_last()[0] == s[0]);
        lemma_pow2_adds((8 * (s.len() - 2)) as nat, 8);
        lemma2_to64();
        assert(be_value(s.drop_last()) * 256 + s.last() < ((s[0] + 1) * pow2(
            (8 * (s.len() - 2)) as nat,
        )) * 256) by (nonlinear_arith)
            requires
                be_value(s.drop_last()) < (s[0] + 1) * pow2((8 * (s.len() - 2)) as nat),
                s.last() < 256,
        ;
        assert(((s[0] + 1) * pow2((8 * (s.len() - 2)) as nat)) * 256 == (s[0] + 1) * pow2(
            (8 * (s.len() - 1)) as nat,
        )) by (nonlinear_arith)
            requires
                pow2((8 * (s.len() - 1)) as nat) == pow2((8 * (s.len() - 2)) as nat) * 256,
        ;
    }
}

/// Every character of a decimal rendering is an ASCII digit.
pub proof fn lemma_dec_chars_digits(n: nat)
    ensures
        dec_chars(n).len() >= 1,
        vstd::utf8::is_ascii_chars(dec_chars(n)),
        forall|i: int|
            0 <= i < dec_chars(n).len() ==> is_dec_byte(#[trigger] dec_chars(n)[i] as u8),
    decreases n,
{
    if n < 10 {
    } else {
        lemma_dec_chars_digits(n / 10);
        assert forall|i: int| 0 <= i < dec_chars(n).len() implies is_dec_byte(
            #[trigger] dec_chars(n)[i] as u8,
        ) by {
            if i < dec_chars(n / 10).len() {
                assert(dec_chars(n)[i] == dec_chars(n / 10)[i]);
            }
        }
    }
}

/// Rendering a value in decimal and reading the UTF-8 bytes back
/// returns the value: the two directions of the boundary encoding
/// agree.
pub proof fn lemma_dec_round_trip(n: nat)
    ensures
        is_dec_bytes(encode_utf8(dec_chars(n))),
        dec_value(encode_utf8(dec_chars(n))) == n,
    decreases n,
{
    lemma_dec_chars_digits(n);
    vstd::utf8::is_ascii_chars_encode_utf8(dec_chars(n));
    let s = dec_chars(n);
    let b = encode_utf8(s);
    if n < 10 {
        assert(b.len() == 1);
        assert(b[0] == dec_digit_char(n) as u8);
        assert(dec_digit_char(n) as u8 == 48 + n);
        assert(b.drop_last().len() == 0);
        assert(dec_value(b.drop_last()) == 0);
        assert(b.last() == b[0]);
        assert(dec_value(b) == n);
    } else {
        lemma_dec_round_trip(n / 10);
        lemma_dec_chars_digits(n / 10);
        vstd::utf8::is_ascii_chars_encode_utf8(dec_chars(n / 10));
        let bp = encode_utf8(dec_chars(n / 10));
        assert forall|i: int| 0 <= i < bp.len() implies b[i] == bp[i] by {
            assert(s[i] == dec_chars(n / 10)[i]);
        }
        assert(b.drop_last() =~= bp);
        assert(s.last() == dec_digit_char(n % 10));
        assert(b.last() == dec_digit_char(n % 10) as u8);
        assert(dec_digit_char(n % 10) as u8 == 48 + n % 10);
        assert(dec_value(b) == dec_value(b.drop_last()) * 10 + (b.last() - 48));
        vstd::arithmetic::div_mod::lemma_fundamental_div_mod(n as int, 10);
        assert(dec_value(b) == (n / 10) * 10 + n % 10);
    }
}

/// The parity of a big-endian value is the parity of its last byte.
pub proof fn lemma_be_value_parity(s: Seq<u8>)
    requires
        s.len() >= 1,
    ensures
        be_value(s) % 2 == s.last() % 2,
{
    assert((be_value(s.drop_last()) * 256 + s.last()) % 2 == s.last() % 2) by (nonlinear_arith);
}

} // verus!
