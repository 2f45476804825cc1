use vstd::arithmetic::div_mod::{lemma_div_denominator, lemma_div_multiples_vanish, lemma_fundamental_div_mod};
use vstd::prelude::*;

verus! {

/// Value of a big-endian byte string (the empty string is zero).
pub open spec fn be_value(s: Seq<u8>) -> nat
    decreases s.len(),
{
    if s.len() == 0 {
        0
    } else {
        be_value(s.drop_last()) * 256 + s.last() as nat
    }
}

/// `256^n`.
pub open spec fn byte_pow(n: nat) -> nat
    decreases n,
{
    if n == 0 {
        1
    } else {
        256 * byte_pow((n - 1) as nat)
    }
}

pub proof fn lemma_byte_pow_monotonic(a: nat, b: nat)
    requires
        a <= b,
    ensures
        1 <= byte_pow(a) <= byte_pow(b),
    decreases b,
{
    if b > 0 {
        if a < b {
            lemma_byte_pow_monotonic(a, (b - 1) as nat);
        } else {
            lemma_byte_pow_monotonic((a - 1) as nat, (b - 1) as nat);
        }
    }
}

/// The big-endian value of the first `n` bytes of `s`.
pub open spec fn be_prefix_value(s: Seq<u8>, n: int) -> nat {
    be_value(s.subrange(0, n))
}

/// The eight big-endian bytes of `n`, as `u64::to_be_bytes` lays them out.
pub fn u64_to_be(n: u64) -> (r: Vec<u8>)
    ensures
        r@.len() == 8,
        be_value(r@) == n,
{
    let mut out: Vec<u8> = Vec::new();
    let mut p: u64 = 0x100_0000_0000_0000;
    let mut i: usize = 0;
    assert(byte_pow(7) == 0x100_0000_0000_0000 && byte_pow(8) == 0x1_0000_0000_0000_0000) by {
        reveal_with_fuel(byte_pow, 9);
    }
    assert(be_value(out@) == n as nat / byte_pow(8));
    while i < 8
        invariant
            i <= 8,
            out@.len() == i,
            p >= 1,
            be_value(out@) == n as nat / byte_pow((8 - i) as nat),
            i < 8 ==> p as nat == byte_pow((7 - i) as nat),
        decreases 8 - i,
    {
        let b: u8 = ((n / p) % 256) as u8;
        proof {
            let pp = p as nat;
            assert(out@.push(b).drop_last() =~= out@);
            assert(byte_pow((8 - i) as nat) == 256 * pp);
            lemma_div_denominator(n as int, pp as int, 256);
            lemma_fundamental_div_mod((n as nat / pp) as int, 256);
            assert(be_value(out@.push(b)) == n as nat / pp);
        }
        out.push(b);
        i = i + 1;
        if i < 8 {
            proof {
                assert(byte_pow((8 - i) as nat) == 256 * byte_pow((7 - i) as nat));
                lemma_div_multiples_vanish(byte_pow((7 - i) as nat) as int, 256);
                lemma_byte_pow_monotonic(0, (7 - i) as nat);
            }
            p = p / 256;
        }
    }
    assert(n as nat / byte_pow(0) == n) by {
        assert(byte_pow(0) == 1);
        assert(n as nat / 1 == n as nat) by (nonlinear_arith);
    }
    out
}

/// Reads a `u64` from the first eight bytes of `s`, most significant first, as
/// `u64::from_be_bytes` does.
pub fn u64_from_be(s: &[u8]) -> (r: u64)
    requires
        s@.len() >= 8,
    ensures
        r == be_prefix_value(s@, 8),
{
    let mut acc: u64 = 0;
    let mut i: usize = 0;
    assert(byte_pow(8) == 0x1_0000_0000_0000_0000) by {
        reveal_with_fuel(byte_pow, 9);
    }
    assert(s@.subrange(0, 0) =~= Seq::<u8>::empty());
    while i < 8
        invariant
            i <= 8,
            s@.len() >= 8,
            byte_pow(8) == 0x1_0000_0000_0000_0000,
            acc as nat == be_value(s@.subrange(0, i as int)),
            acc as nat <= byte_pow(i as nat) - 1,
        decreases 8 - i,
    {
        proof {
            let a = acc as nat;
            let b = s@[i as int] as nat;
            let bp = byte_pow(i as nat);
            lemma_byte_pow_monotonic((i + 1) as nat, 8);
            assert(byte_pow((i + 1) as nat) == 256 * bp);
            assert(s@.subrange(0, i + 1).drop_last() =~= s@.subrange(0, i as int));
            assert(a * 256 + b <= 256 * bp - 1) by (nonlinear_arith)
                requires
                    a <= bp - 1,
                    b <= 255,
                    bp >= 1,
            ;
        }
        acc = acc * 256 + s[i] as u64;
        i = i + 1;
    }
    acc
}

pub open spec fn hex_digit_value(c: u8) -> Option<u8> {
    if 48 <= c <= 57 {
        Some((c - 48) as u8)
    } else if 97 <= c <= 102 {
        Some((c - 87) as u8)
    } else if 65 <= c <= 70 {
        Some((c - 55) as u8)
    } else {
        None
    }
}

/// Text that hex decoding accepts: an even number of hex digits of either case.
pub open spec fn is_hex_text(t: Seq<u8>) -> bool {
    &&& t.len() % 2 == 0
    &&& forall|i: int| 0 <= i < t.len() ==> (#[trigger] hex_digit_value(t[i])) is Some
}

/// The bytes that hex text stands for, two digits per byte, high nibble first.
pub open spec fn hex_decoded(t: Seq<u8>) -> Seq<u8> {
    Seq::new(
        t.len() / 2,
        |i: int| (hex_digit_value(t[2 * i])->0 * 16 + hex_digit_value(t[2 * i + 1])->0) as u8,
    )
}

pub open spec fn hex_digits() -> Seq<char> {
    seq!['0', '1', '2', '3', '4', '5', '6', '7', '8', '9', 'a', 'b', 'c', 'd', 'e', 'f']
}

/// Lower-case hex text of `b`, two digits per byte, high nibble first.
pub open spec fn hex_encoded(b: Seq<u8>) -> Seq<char> {
    Seq::new(
        2 * b.len(),
        |i: int|
            if i % 2 == 0 {
                hex_digits()[(b[i / 2] / 16) as int]
            } else {
                hex_digits()[(b[i / 2] % 16) as int]
            },
    )
}

/// Relies on hex::decode: it accepts exactly an even number of hex digits
/// (either case) and turns each pair into one byte, high nibble first.
#[verifier::external_body]
pub(crate) fn decode_hex(text: &[u8]) -> (r: Option<Vec<u8>>)
    ensures
        r is Some <==> is_hex_text(text@),
        r matches Some(v) ==> v@ == hex_decoded(text@),
{
    hex::decode(text).ok()
}

/// Relies on hex::encode: two lower-case hex digits per byte, high nibble first.
#[verifier::external_body]
pub(crate) fn encode_hex(bytes: &[u8]) -> (r: String)
    ensures
        r@ == hex_encoded(bytes@),
{
    hex::encode(bytes)
}

pub open spec fn decimal_digits() -> Seq<char> {
    seq!['0', '1', '2', '3', '4', '5', '6', '7', '8', '9']
}

/// Decimal text of `n`, without leading zeros.
pub open spec fn decimal_text(n: nat) -> Seq<char>
    decreases n,
{
    if n < 10 {
        seq![decimal_digits()[n as int]]
    } else {
        decimal_text(n / 10).push(decimal_digits()[(n % 10) as int])
    }
}

/// Relies on `u64`'s `Display` through `ToString::to_string`: plain decimal digits,
/// no sign, no leading zeros.
#[verifier::external_body]
pub(crate) fn u64_decimal(n: u64) -> (r: String)
    ensures
        r@ == decimal_text(n as nat),
{
    n.to_string()
}

pub open spec fn is_decimal_digit(c: char) -> bool {
    '0' <= c <= '9'
}

pub open spec fn digit_value(c: char) -> nat {
    (c as u32 - '0' as u32) as nat
}

/// Value of a string of decimal digits.
pub open spec fn digits_value(s: Seq<char>) -> nat
    decreases s.len(),
{
    if s.len() == 0 {
        0
    } else {
        digits_value(s.drop_last()) * 10 + digit_value(s.last())
    }
}

/// What `u64::from_str` gives for `s`: an optional `+`, then one or more decimal
/// digits whose value fits in a `u64`.
pub open spec fn u64_text_value(s: Seq<char>) -> Option<u64> {
    let body = if s.len() > 0 && s[0] == '+' {
        s.drop_first()
    } else {
        s
    };
    if body.len() > 0 && (forall|i: int| 0 <= i < body.len() ==> is_decimal_digit(#[trigger] body[i]))
        && digits_value(body) <= u64::MAX {
        Some(digits_value(body) as u64)
    } else {
        None
    }
}

/// Relies on `u64::from_str` (through `str::parse`): it accepts exactly an optional
/// `+` followed by decimal digits whose value fits.
#[verifier::external_body]
pub(crate) fn parse_u64(s: &str) -> (r: Option<u64>)
    ensures
        r == u64_text_value(s@),
{
    s.parse::<u64>().ok()
}

} // verus!
