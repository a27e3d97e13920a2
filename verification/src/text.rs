use vstd::prelude::*;

verus! {

/// The decimal writing of `n` as ASCII bytes, most significant digit first.
pub open spec fn spec_decimal_digits(n: nat) -> Seq<u8>
    decreases n,
{
    if n < 10 {
        seq![(48 + n) as u8]
    } else {
        spec_decimal_digits(n / 10).push((48 + n % 10) as u8)
    }
}

/// Render a count as its decimal ASCII text, for the display sink.
pub fn decimal_digits(n: u64) -> (digits: Vec<u8>)
    ensures
        digits@ == spec_decimal_digits(n as nat),
    decreases n,
{
    if n < 10 {
        let mut digits: Vec<u8> = Vec::new();
        digits.push(48 + (n as u8));
        digits
    } else {
        let mut digits = decimal_digits(n / 10);
        digits.push(48 + ((n % 10) as u8));
        digits
    }
}

} // verus!
