//! Decimal notation of integers, as ASCII bytes and as text.

use vstd::prelude::*;

verus! {

/// The ASCII digit for a value from 0 to 9.
pub open spec fn digit(d: int) -> u8 {
    (0x30 + d) as u8
}

/// The decimal digits of `n`, most significant first, without leading zeros.
pub open spec fn digits(n: nat) -> Seq<u8>
    decreases n,
{
    if n < 10 {
        seq![digit(n as int)]
    } else {
        digits(n / 10).push(digit((n % 10) as int))
    }
}

/// The decimal notation of `n`: a minus sign for a negative number, then the
/// digits of its magnitude.
pub open spec fn decimal(n: int) -> Seq<u8> {
    if n < 0 {
        seq![0x2du8] + digits((-n) as nat)
    } else {
        digits(n as nat)
    }
}

/// The characters with the code points given by `bytes`.
pub open spec fn latin1(bytes: Seq<u8>) -> Seq<char> {
    Seq::new(bytes.len(), |i: int| bytes[i] as char)
}

/// The decimal notation of `n` as text.
pub open spec fn decimal_text(n: int) -> Seq<char> {
    latin1(decimal(n))
}

/// Appends the digits of `n` to `out`.
pub fn push_digits(out: &mut Vec<u8>, n: u128)
    ensures
        final(out)@ == old(out)@ + digits(n as nat),
    decreases n,
{
    if n >= 10 {
        push_digits(out, n / 10);
    }
    let d: u8 = (n % 10) as u8;
    out.push(0x30u8 + d);
    proof {
        assert(final(out)@ =~= old(out)@ + digits(n as nat));
    }
}

/// Appends the decimal notation of `n` to `out`.
pub fn push_decimal(out: &mut Vec<u8>, n: i64)
    ensures
        final(out)@ == old(out)@ + decimal(n as int),
{
    if n < 0 {
        out.push(0x2du8);
        let wide: i128 = n as i128;
        let magnitude: u128 = (-wide) as u128;
        push_digits(out, magnitude);
        proof {
            assert(final(out)@ =~= old(out)@ + decimal(n as int));
        }
    } else {
        push_digits(out, n as u128);
    }
}

/// Appends to `line` the characters with the code points given by `bytes`.
pub fn push_latin1(line: &mut String, bytes: &[u8])
    ensures
        final(line)@ == old(line)@ + latin1(bytes@),
{
    let mut i: usize = 0;
    while i < bytes.len()
        invariant
            i <= bytes.len(),
            line@ == old(line)@ + latin1(bytes@.take(i as int)),
        decreases bytes.len() - i,
    {
        line.push(bytes[i] as char);
        proof {
            assert(line@ =~= old(line)@ + latin1(bytes@.take(i + 1)));
        }
        i = i + 1;
    }
    proof {
        assert(bytes@.take(bytes.len() as int) =~= bytes@);
    }
}

/// Appends the decimal notation of `n` to `line`.
pub fn push_decimal_text(line: &mut String, n: i64)
    ensures
        final(line)@ == old(line)@ + decimal_text(n as int),
{
    let mut bytes: Vec<u8> = Vec::new();
    push_decimal(&mut bytes, n);
    proof {
        assert(bytes@ =~= decimal(n as int));
    }
    push_latin1(line, bytes.as_slice());
}

/// Appends the digits of `n` to `line`.
pub fn push_digits_text(line: &mut String, n: u128)
    ensures
        final(line)@ == old(line)@ + latin1(digits(n as nat)),
{
    let mut bytes: Vec<u8> = Vec::new();
    push_digits(&mut bytes, n);
    proof {
        assert(bytes@ =~= digits(n as nat));
    }
    push_latin1(line, bytes.as_slice());
}

} // verus!
