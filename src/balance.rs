use crate::codec::{be_value, decimal_text, digit_value, is_decimal_digit};
use num_bigint::BigUint;
use vstd::prelude::*;

verus! {

/// Big-endian bytes in the shortest form: no leading zero byte, and zero as one zero byte.
pub open spec fn is_minimal_be(s: Seq<u8>) -> bool {
    s.len() > 0 && (s.len() == 1 || s[0] != 0)
}

/// Value of decimal digits in which underscores are separators and carry no value.
pub open spec fn separated_digits_value(s: Seq<char>) -> nat
    decreases s.len(),
{
    if s.len() == 0 {
        0
    } else if s.last() == '_' {
        separated_digits_value(s.drop_last())
    } else {
        separated_digits_value(s.drop_last()) * 10 + digit_value(s.last())
    }
}

/// What `BigUint::from_str` gives for `s`: one optional leading `+` (not followed by
/// another), then decimal digits and underscores, the first of them a digit.
pub open spec fn big_decimal_value(s: Seq<char>) -> Option<nat> {
    let body = if s.len() > 0 && s[0] == '+' && !(s.len() > 1 && s[1] == '+') {
        s.drop_first()
    } else {
        s
    };
    if body.len() > 0 && body[0] != '_' && (forall|i: int|
        0 <= i < body.len() ==> is_decimal_digit(#[trigger] body[i]) || body[i] == '_') {
        Some(separated_digits_value(body))
    } else {
        None
    }
}

/// Relies on `BigUint::from(u64)` and `BigUint::to_bytes_be`, which writes the
/// shortest big-endian form.
#[verifier::external_body]
fn big_from_u64(n: u64) -> (r: Vec<u8>)
    ensures
        be_value(r@) == n,
        is_minimal_be(r@),
{
    BigUint::from(n).to_bytes_be()
}

/// Relies on `BigUint::from_str` (radix 10), whose grammar `big_decimal_value` states.
#[verifier::external_body]
fn big_parse_decimal(s: &str) -> (r: Option<Vec<u8>>)
    ensures
        r is Some <==> big_decimal_value(s@) is Some,
        r matches Some(v) ==> be_value(v@) == big_decimal_value(s@)->0 && is_minimal_be(v@),
{
    match s.parse::<BigUint>() {
        Ok(b) => Some(b.to_bytes_be()),
        Err(_) => None,
    }
}

/// Relies on `BigUint::from_bytes_be`, which reads any big-endian bytes (none is zero).
#[verifier::external_body]
fn big_normalize(bytes: &[u8]) -> (r: Vec<u8>)
    ensures
        be_value(r@) == be_value(bytes@),
        is_minimal_be(r@),
{
    BigUint::from_bytes_be(bytes).to_bytes_be()
}

/// Relies on `Add for &BigUint`.
#[verifier::external_body]
fn big_add(a: &[u8], b: &[u8]) -> (r: Vec<u8>)
    ensures
        be_value(r@) == be_value(a@) + be_value(b@),
        is_minimal_be(r@),
{
    (&BigUint::from_bytes_be(a) + &BigUint::from_bytes_be(b)).to_bytes_be()
}

/// Relies on `Sub for &BigUint`, which panics when the result would be negative.
#[verifier::external_body]
fn big_sub(a: &[u8], b: &[u8]) -> (r: Vec<u8>)
    requires
        be_value(b@) <= be_value(a@),
    ensures
        be_value(r@) == be_value(a@) - be_value(b@),
        is_minimal_be(r@),
{
    (&BigUint::from_bytes_be(a) - &BigUint::from_bytes_be(b)).to_bytes_be()
}

/// Relies on `PartialOrd for BigUint`, which orders by value.
#[verifier::external_body]
fn big_less(a: &[u8], b: &[u8]) -> (r: bool)
    ensures
        r == (be_value(a@) < be_value(b@)),
{
    BigUint::from_bytes_be(a) < BigUint::from_bytes_be(b)
}

/// Relies on `Display for BigUint`: plain decimal digits, no leading zeros.
#[verifier::external_body]
fn big_to_decimal(bytes: &[u8]) -> (r: String)
    ensures
        r@ == decimal_text(be_value(bytes@)),
{
    BigUint::from_bytes_be(bytes).to_string()
}

/// A non-negative amount of arbitrary size, kept as its shortest big-endian bytes.
#[derive(Debug)]
pub struct Balance {
    be: Vec<u8>,
}

impl View for Balance {
    type V = nat;

    closed spec fn view(&self) -> nat {
        be_value(self.be@)
    }
}

impl Balance {
    /// The stored form is always the shortest big-endian one.
    #[verifier::type_invariant]
    spec fn shortest_form(&self) -> bool {
        is_minimal_be(self.be@)
    }

    pub fn zero() -> (r: Balance)
        ensures
            r@ == 0,
    {
        let r = Balance { be: vec![0u8] };
        assert(be_value(r.be@) == 0) by {
            assert(r.be@.drop_last() =~= Seq::<u8>::empty());
            reveal_with_fuel(be_value, 2);
        }
        r
    }

    pub fn from_u64(n: u64) -> (r: Balance)
        ensures
            r@ == n,
    {
        Balance { be: big_from_u64(n) }
    }

    /// Reads a balance from big-endian bytes; no bytes at all read as zero.
    pub fn from_be_bytes(bytes: &[u8]) -> (r: Balance)
        ensures
            r@ == be_value(bytes@),
    {
        Balance { be: big_normalize(bytes) }
    }

    /// Parses decimal text as `BigUint` does; `None` where the text is not a number.
    pub fn parse_decimal(text: &str) -> (r: Option<Balance>)
        ensures
            r is Some <==> big_decimal_value(text@) is Some,
            r matches Some(b) ==> b@ == big_decimal_value(text@)->0,
    {
        match big_parse_decimal(text) {
            Some(v) => Some(Balance { be: v }),
            None => None,
        }
    }

    /// The shortest big-endian bytes of the balance, never empty.
    pub fn to_be_bytes(&self) -> (r: Vec<u8>)
        ensures
            be_value(r@) == self@,
            is_minimal_be(r@),
    {
        proof {
            use_type_invariant(self);
        }
        self.be.clone()
    }

    pub fn less_than(&self, other: &Balance) -> (r: bool)
        ensures
            r == (self@ < other@),
    {
        big_less(self.be.as_slice(), other.be.as_slice())
    }

    pub fn plus(&self, other: &Balance) -> (r: Balance)
        ensures
            r@ == self@ + other@,
    {
        Balance { be: big_add(self.be.as_slice(), other.be.as_slice()) }
    }

    pub fn minus(&self, other: &Balance) -> (r: Balance)
        requires
            other@ <= self@,
        ensures
            r@ == self@ - other@,
    {
        Balance { be: big_sub(self.be.as_slice(), other.be.as_slice()) }
    }

    /// Decimal text of the balance.
    pub fn to_decimal_string(&self) -> (r: String)
        ensures
            r@ == decimal_text(self@),
    {
        big_to_decimal(self.be.as_slice())
    }
}

} // verus!
