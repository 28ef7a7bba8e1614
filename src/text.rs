use vstd::prelude::*;

verus! {

/// The character of a decimal digit.
pub open spec fn digit_char(d: nat) -> char {
    seq!['0', '1', '2', '3', '4', '5', '6', '7', '8', '9'][d as int]
}

/// The decimal digits of `n`, most significant first, with no sign and no
/// leading zero.
pub open spec fn decimal(n: nat) -> Seq<char>
    decreases n,
{
    if n < 10 {
        seq![digit_char(n)]
    } else {
        decimal(n / 10).push(digit_char(n % 10))
    }
}

/// Relies on `ToString` for `usize` (its `Display`): the decimal digits of
/// the number, without sign or leading zeros.
#[verifier::external_body]
pub(crate) fn usize_text(n: usize) -> (r: String)
    ensures
        r@ == decimal(n as nat),
{
    n.to_string()
}

/// The text frame that announces the number of live connections.
pub open spec fn count_text(n: nat) -> Seq<char> {
    "/count "@ + decimal(n)
}

/// Builds the text frame `"/count {n}"`.
pub fn count_message(n: usize) -> (r: String)
    ensures
        r@ == count_text(n as nat),
{
    let mut s = String::from_str("/count ");
    let digits = usize_text(n);
    s.append(digits.as_str());
    s
}

} // verus!
