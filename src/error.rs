use vstd::prelude::*;

verus! {

/// A recoverable lexical error: an unexpected character on some line.
#[derive(Debug, Clone, PartialEq, Eq)]
pub struct CompilationError {
    /// The 1-based line of the offending character.
    pub line: usize,
    pub message: String,
}

/// The decimal digit for `d < 10`.
pub open spec fn digit_char(d: nat) -> char {
    if d == 0 {
        '0'
    } else if d == 1 {
        '1'
    } else if d == 2 {
        '2'
    } else if d == 3 {
        '3'
    } else if d == 4 {
        '4'
    } else if d == 5 {
        '5'
    } else if d == 6 {
        '6'
    } else if d == 7 {
        '7'
    } else if d == 8 {
        '8'
    } else {
        '9'
    }
}

/// The decimal notation of `n`, without leading zeros.
pub open spec fn decimal(n: nat) -> Seq<char>
    decreases n,
{
    if n < 10 {
        seq![digit_char(n)]
    } else {
        decimal(n / 10).push(digit_char(n % 10))
    }
}

/// The message recorded for the unexpected character `c` on line `line`.
pub open spec fn error_message(c: char, line: nat) -> Seq<char> {
    "Unexpected char: '"@ + seq![c] + "' at line "@ + decimal(line)
}

/// Relies on `From<char> for String`: the string of that one character.
#[verifier::external_body]
pub(crate) fn char_to_string(c: char) -> (r: String)
    ensures
        r@ == seq![c],
{
    String::from(c)
}

fn digit_to_char(d: usize) -> (r: char)
    requires
        d < 10,
    ensures
        r == digit_char(d as nat),
{
    if d == 0 {
        '0'
    } else if d == 1 {
        '1'
    } else if d == 2 {
        '2'
    } else if d == 3 {
        '3'
    } else if d == 4 {
        '4'
    } else if d == 5 {
        '5'
    } else if d == 6 {
        '6'
    } else if d == 7 {
        '7'
    } else if d == 8 {
        '8'
    } else {
        '9'
    }
}

/// Writes `n` in decimal.
pub fn decimal_string(n: usize) -> (r: String)
    ensures
        r@ == decimal(n as nat),
{
    let mut rest: usize = n / 10;
    let mut digits = char_to_string(digit_to_char(n % 10));
    proof {
        if rest > 0 {
            assert(decimal(rest as nat) + digits@ =~= decimal(n as nat));
        }
    }
    while rest > 0
        invariant
            rest == 0 ==> digits@ == decimal(n as nat),
            rest > 0 ==> decimal(rest as nat) + digits@ == decimal(n as nat),
        decreases rest,
    {
        let head = char_to_string(digit_to_char(rest % 10));
        let ghost old_digits = digits@;
        digits = head.concat(digits.as_str());
        proof {
            if rest >= 10 {
                assert(decimal(rest as nat) == decimal((rest / 10) as nat).push(digit_char((rest % 10) as nat)));
                assert(decimal((rest / 10) as nat) + digits@ =~= decimal(rest as nat) + old_digits);
            } else {
                assert(digits@ =~= decimal(rest as nat) + old_digits);
            }
        }
        rest = rest / 10;
    }
    digits
}

/// Builds the message for the unexpected character `c` on line `line`.
pub fn unexpected_char_message(c: char, line: usize) -> (r: String)
    ensures
        r@ == error_message(c, line as nat),
{
    let mut message = String::from_str("Unexpected char: '");
    let ch = char_to_string(c);
    message.append(ch.as_str());
    message.append("' at line ");
    let number = decimal_string(line);
    message.append(number.as_str());
    message
}

} // verus!
