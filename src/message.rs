use vstd::prelude::*;

use crate::format::push_char;
use crate::hex::{digit_char, hex_digit};
use crate::parse::ParseError;

verus! {

/// The decimal digits of `n`, without leading zeros.
pub open spec fn decimal(n: nat) -> Seq<char>
    decreases n,
{
    if n < 10 {
        seq![hex_digit(n as int)]
    } else {
        decimal(n / 10).push(hex_digit((n % 10) as int))
    }
}

/// The lowercase hexadecimal digits of `n`, without leading zeros.
pub open spec fn hex_digits(n: nat) -> Seq<char>
    decreases n,
{
    if n < 16 {
        seq![hex_digit(n as int)]
    } else {
        hex_digits(n / 16).push(hex_digit((n % 16) as int))
    }
}

/// The lowercase hexadecimal digits of `n`, padded to at least two.
pub open spec fn hex_two(n: nat) -> Seq<char> {
    if n < 16 {
        seq!['0', hex_digit(n as int)]
    } else {
        hex_digits(n)
    }
}

/// The message that describes a parse error.
pub open spec fn message(e: ParseError) -> Seq<char> {
    match e {
        ParseError::InvalidLength(found) => "Invalid length; expecting 32, 36 or 45 chars, found "@
            + decimal(found as nat),
        ParseError::InvalidCharacter(found, pos) => "Invalid character; found `"@ + seq![found]
            + "` (0x"@ + hex_two(found as nat) + ") at offset "@ + decimal(pos as nat),
        ParseError::InvalidGroups(found) => "Malformed; wrong number of groups: expected 1 or 5, found "@
            + decimal(found as nat),
        ParseError::InvalidGroupLength(group, found, expecting) => "Malformed; length of group "@
            + decimal(group as nat) + " was "@ + decimal(found as nat) + ", expecting "@ + decimal(
            expecting as nat,
        ),
        ParseError::InvalidVersion(version) => "Invalid version; expecting 1, 2, 3, 4, or 5, found "@
            + seq![version],
    }
}

/// Appends the decimal digits of `n`.
fn push_decimal(s: &mut String, n: usize)
    ensures
        final(s)@ == old(s)@ + decimal(n as nat),
    decreases n,
{
    if n >= 10 {
        push_decimal(s, n / 10);
    }
    push_char(s, digit_char((n % 10) as u8));
    assert(final(s)@ =~= old(s)@ + decimal(n as nat));
}

/// Appends the hexadecimal digits of `n`.
fn push_hex_digits(s: &mut String, n: u32)
    ensures
        final(s)@ == old(s)@ + hex_digits(n as nat),
    decreases n,
{
    if n >= 16 {
        push_hex_digits(s, n / 16);
    }
    push_char(s, digit_char((n % 16) as u8));
    assert(final(s)@ =~= old(s)@ + hex_digits(n as nat));
}

/// Appends the literal `t`.
fn push_str(s: &mut String, t: &str)
    ensures
        final(s)@ == old(s)@ + t@,
{
    s.append(t);
}

impl ParseError {
    /// The message that describes this error.
    pub fn to_string(&self) -> (r: String)
        ensures
            r@ == message(*self),
    {
        let mut s = String::new();
        match *self {
            ParseError::InvalidLength(found) => {
                push_str(&mut s, "Invalid length; expecting 32, 36 or 45 chars, found ");
                push_decimal(&mut s, found);
            },
            ParseError::InvalidCharacter(found, pos) => {
                push_str(&mut s, "Invalid character; found `");
                push_char(&mut s, found);
                push_str(&mut s, "` (0x");
                let code = found as u32;
                if code < 16 {
                    push_char(&mut s, '0');
                }
                push_hex_digits(&mut s, code);
                push_str(&mut s, ") at offset ");
                push_decimal(&mut s, pos);
            },
            ParseError::InvalidGroups(found) => {
                push_str(&mut s, "Malformed; wrong number of groups: expected 1 or 5, found ");
                push_decimal(&mut s, found);
            },
            ParseError::InvalidGroupLength(group, found, expecting) => {
                push_str(&mut s, "Malformed; length of group ");
                push_decimal(&mut s, group);
                push_str(&mut s, " was ");
                push_decimal(&mut s, found);
                push_str(&mut s, ", expecting ");
                push_decimal(&mut s, expecting);
            },
            ParseError::InvalidVersion(version) => {
                push_str(&mut s, "Invalid version; expecting 1, 2, 3, 4, or 5, found ");
                push_char(&mut s, version);
            },
        }
        assert(s@ =~= message(*self));
        s
    }
}

} // verus!
