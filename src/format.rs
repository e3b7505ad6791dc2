use vstd::prelude::*;

use crate::hex::{digit_char, hex_of};

verus! {

/// Simple form: 32 lowercase hexadecimal digits, two per octet, in order.
pub open spec fn simple_text(b: Seq<u8>) -> Seq<char> {
    hex_of(b)
}

/// Hyphenated form: the digits grouped 8-4-4-4-12 with hyphens between groups.
pub open spec fn hyphenated_text(b: Seq<u8>) -> Seq<char> {
    hex_of(b.subrange(0, 4)) + seq!['-'] + hex_of(b.subrange(4, 6)) + seq!['-'] + hex_of(
        b.subrange(6, 8),
    ) + seq!['-'] + hex_of(b.subrange(8, 10)) + seq!['-'] + hex_of(b.subrange(10, 16))
}

/// The literal `urn:uuid:`.
pub open spec fn urn_prefix() -> Seq<char> {
    seq!['u', 'r', 'n', ':', 'u', 'u', 'i', 'd', ':']
}

/// URN form: `urn:uuid:` followed by the hyphenated form.
pub open spec fn urn_text(b: Seq<u8>) -> Seq<char> {
    urn_prefix() + hyphenated_text(b)
}

/// Relies on String::push: appends one character.
#[verifier::external_body]
pub(crate) fn push_char(s: &mut String, c: char)
    ensures
        final(s)@ == old(s)@.push(c),
{
    s.push(c);
}

/// Appends the digits of `b[lo..hi]`.
fn push_hex(s: &mut String, b: &[u8; 16], lo: usize, hi: usize)
    requires
        lo <= hi <= 16,
    ensures
        final(s)@ == old(s)@ + hex_of(b@.subrange(lo as int, hi as int)),
{
    let mut i: usize = lo;
    while i < hi
        invariant
            lo <= i <= hi <= 16,
            s@ == old(s)@ + hex_of(b@.subrange(lo as int, i as int)),
        decreases hi - i,
    {
        let x = b[i];
        let h = digit_char(x / 16);
        let l = digit_char(x % 16);
        push_char(s, h);
        push_char(s, l);
        assert(hex_of(b@.subrange(lo as int, i + 1)) =~= hex_of(b@.subrange(lo as int, i as int))
            + seq![h, l]);
        i = i + 1;
    }
}

/// The simple form of `b`.
pub(crate) fn simple_string(b: &[u8; 16]) -> (r: String)
    ensures
        r@ == simple_text(b@),
{
    let mut s = String::new();
    push_hex(&mut s, b, 0, 16);
    assert(b@.subrange(0, 16) =~= b@);
    s
}

/// The hyphenated form of `b`.
pub(crate) fn hyphenated_string(b: &[u8; 16]) -> (r: String)
    ensures
        r@ == hyphenated_text(b@),
{
    let mut s = String::new();
    push_hex(&mut s, b, 0, 4);
    push_char(&mut s, '-');
    push_hex(&mut s, b, 4, 6);
    push_char(&mut s, '-');
    push_hex(&mut s, b, 6, 8);
    push_char(&mut s, '-');
    push_hex(&mut s, b, 8, 10);
    push_char(&mut s, '-');
    push_hex(&mut s, b, 10, 16);
    assert(s@ =~= hyphenated_text(b@));
    s
}

/// The URN form of `b`.
pub(crate) fn urn_string(b: &[u8; 16]) -> (r: String)
    ensures
        r@ == urn_text(b@),
{
    let h = hyphenated_string(b);
    let mut s = String::from_str("urn:uuid:");
    proof {
        reveal_strlit("urn:uuid:");
    }
    s.append(h.as_str());
    assert(s@ =~= urn_text(b@));
    s
}

} // verus!
