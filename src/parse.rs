use vstd::prelude::*;

use crate::format::urn_prefix;
use crate::hex::{digit_value, hex_value, is_hex_char};

verus! {

/// Why a text is not a UUID.
#[derive(Copy, Clone, Debug, PartialEq, Eq, Structural)]
pub enum ParseError {
    /// The text (or its single group) has the given length, which is not allowed.
    InvalidLength(usize),
    /// The character at the offset (counted after any URN prefix) is neither a
    /// hexadecimal digit nor a hyphen.
    InvalidCharacter(char, usize),
    /// The hyphens split the text into this many groups, neither 1 nor 5.
    InvalidGroups(usize),
    /// Group number, its length, and the length it should have.
    InvalidGroupLength(usize, usize, usize),
    /// The version digit, which is not one of 1 to 5.
    InvalidVersion(char),
}

/// The text without its `urn:uuid:` prefix, where it has one.
pub open spec fn strip_urn(s: Seq<char>) -> Seq<char> {
    if s.len() >= 9 && s.subrange(0, 9) == urn_prefix() {
        s.subrange(9, s.len() as int)
    } else {
        s
    }
}

/// The characters that a text form may hold: hexadecimal digits and hyphens.
pub open spec fn is_text_char(c: char) -> bool {
    is_hex_char(c) || c == '-'
}

/// The offset of the first character at or after `i` that a text form may not
/// hold, or the length of `t` where there is none.
pub open spec fn first_bad(t: Seq<char>, i: int) -> int
    decreases t.len() - i,
{
    if i < 0 || i >= t.len() {
        t.len() as int
    } else if !is_text_char(t[i]) {
        i
    } else {
        first_bad(t, i + 1)
    }
}

/// The lengths of the groups that the hyphens of `t` separate, in order.
pub open spec fn group_lens(t: Seq<char>) -> Seq<usize>
    decreases t.len(),
{
    if t.len() == 0 {
        seq![0usize]
    } else {
        let g = group_lens(t.drop_last());
        if t.last() == '-' {
            g.push(0usize)
        } else {
            g.update(g.len() - 1, (g.last() + 1) as usize)
        }
    }
}

/// `t` with its hyphens removed.
pub open spec fn strip_hyphens(t: Seq<char>) -> Seq<char>
    decreases t.len(),
{
    if t.len() == 0 {
        t
    } else {
        let r = strip_hyphens(t.drop_last());
        if t.last() == '-' {
            r
        } else {
            r.push(t.last())
        }
    }
}

/// The sum of the group lengths.
pub open spec fn sum_lens(g: Seq<usize>) -> int
    decreases g.len(),
{
    if g.len() == 0 {
        0
    } else {
        sum_lens(g.drop_last()) + g.last()
    }
}

/// What is wrong with the group lengths, if anything: one group of 32 or five
/// groups of 8, 4, 4, 4 and 12 are accepted.
pub open spec fn group_error(g: Seq<usize>) -> Option<ParseError> {
    if g.len() == 1 {
        if g[0] != 32 {
            Some(ParseError::InvalidLength(g[0]))
        } else {
            None
        }
    } else if g.len() == 5 {
        if g[0] != 8 {
            Some(ParseError::InvalidGroupLength(0, g[0], 8))
        } else if g[1] != 4 {
            Some(ParseError::InvalidGroupLength(1, g[1], 4))
        } else if g[2] != 4 {
            Some(ParseError::InvalidGroupLength(2, g[2], 4))
        } else if g[3] != 4 {
            Some(ParseError::InvalidGroupLength(3, g[3], 4))
        } else if g[4] != 12 {
            Some(ParseError::InvalidGroupLength(4, g[4], 12))
        } else {
            None
        }
    } else {
        Some(ParseError::InvalidGroups(g.len() as usize))
    }
}

/// Whether every digit is `0`.
pub open spec fn all_zero_digits(h: Seq<char>) -> bool {
    forall|k: int| 0 <= k < h.len() ==> h[k] == '0'
}

/// The sixteen octets that 32 hexadecimal digits spell, two digits each.
pub open spec fn decode_hex(h: Seq<char>) -> Seq<u8> {
    Seq::new(16, |i: int| (hex_value(h[2 * i]) * 16 + hex_value(h[2 * i + 1])) as u8)
}

/// The checks that follow the length check, on the text after any URN prefix.
pub open spec fn parse_body(t: Seq<char>) -> Result<Seq<u8>, ParseError> {
    let k = first_bad(t, 0);
    if k < t.len() {
        Err(ParseError::InvalidCharacter(t[k], k as usize))
    } else if let Some(e) = group_error(group_lens(t)) {
        Err(e)
    } else {
        let h = strip_hyphens(t);
        if !all_zero_digits(h) && !('1' <= h[12] && h[12] <= '5') {
            Err(ParseError::InvalidVersion(h[12]))
        } else {
            Ok(decode_hex(h))
        }
    }
}

/// What parsing `s` gives: the octets, or the first check that fails, in this
/// order: the length (32, 36 or 45), the characters, the groups, the version
/// digit (not checked for the nil UUID).
pub open spec fn parse_text(s: Seq<char>) -> Result<Seq<u8>, ParseError> {
    let n = s.len();
    if n != 32 && n != 36 && n != 45 {
        Err(ParseError::InvalidLength(n as usize))
    } else {
        parse_body(strip_urn(s))
    }
}

/// The characters of `s`, in order.
fn chars_of(s: &str) -> (r: Vec<char>)
    ensures
        r@ == s@,
{
    let mut v: Vec<char> = Vec::new();
    for c in it: s.chars()
        invariant
            it.seq() == s@,
            v@ == it.seq().subrange(0, it.index()),
    {
        v.push(c);
    }
    v
}

/// Whether `s` begins with `urn:uuid:`.
fn has_urn_prefix(s: &Vec<char>) -> (r: bool)
    ensures
        r == (s@.len() >= 9 && s@.subrange(0, 9) == urn_prefix()),
{
    if s.len() < 9 {
        return false;
    }
    let prefix: [char; 9] = ['u', 'r', 'n', ':', 'u', 'u', 'i', 'd', ':'];
    assert(prefix@ =~= urn_prefix());
    let mut i: usize = 0;
    while i < 9
        invariant
            i <= 9 <= s@.len(),
            prefix@ == urn_prefix(),
            forall|j: int| 0 <= j < i ==> s@[j] == prefix@[j],
        decreases 9 - i,
    {
        if s[i] != prefix[i] {
            assert(s@.subrange(0, 9)[i as int] != urn_prefix()[i as int]);
            return false;
        }
        i = i + 1;
    }
    assert(s@.subrange(0, 9) =~= urn_prefix());
    true
}

/// Parses any of the three text forms into sixteen octets.
pub(crate) fn parse_octets(us: &str) -> (r: Result<[u8; 16], ParseError>)
    ensures
        r is Ok <==> parse_text(us@) is Ok,
        r is Ok ==> r->Ok_0@ == parse_text(us@)->Ok_0,
        r is Err ==> r->Err_0 == parse_text(us@)->Err_0,
{
    let orig_len = us.unicode_len();
    if orig_len != 32 && orig_len != 36 && orig_len != 45 {
        return Err(ParseError::InvalidLength(orig_len));
    }
    let s = chars_of(us);
    let start: usize = if has_urn_prefix(&s) { 9 } else { 0 };
    let ghost t = strip_urn(us@);
    assert(t =~= s@.subrange(start as int, s@.len() as int));
    assert(parse_text(us@) == parse_body(t));

    // every character is a hexadecimal digit or a hyphen
    let mut i: usize = start;
    while i < s.len()
        invariant
            start <= i <= s@.len() <= 45,
            t == s@.subrange(start as int, s@.len() as int),
            parse_text(us@) == parse_body(t),
            first_bad(t, 0) == first_bad(t, i - start),
        decreases s@.len() - i,
    {
        let c = s[i];
        if !(('0' <= c && c <= '9') || ('a' <= c && c <= 'f') || ('A' <= c && c <= 'F') || c == '-') {
            assert(t[i - start] == c);
            assert(first_bad(t, i - start) == i - start);
            return Err(ParseError::InvalidCharacter(c, i - start));
        }
        assert(t[i - start] == c);
        i = i + 1;
    }
    assert(first_bad(t, 0) == t.len());

    // the group lengths, and the digits without hyphens
    let mut lens: Vec<usize> = vec![0];
    let mut h: Vec<char> = Vec::new();
    let mut i: usize = start;
    assert(t.subrange(0, 0) =~= Seq::<char>::empty());
    assert(sum_lens(lens@) == sum_lens(lens@.drop_last()) + lens@.last());
    assert(lens@.drop_last() =~= Seq::<usize>::empty());
    while i < s.len()
        invariant
            start <= i <= s@.len() <= 45,
            t == s@.subrange(start as int, s@.len() as int),
            parse_text(us@) == parse_body(t),
            first_bad(t, 0) == t.len(),
            lens@ == group_lens(t.subrange(0, i - start)),
            h@ == strip_hyphens(t.subrange(0, i - start)),
            1 <= lens@.len() <= i - start + 1,
            forall|j: int| 0 <= j < lens@.len() ==> lens@[j] <= i - start,
            sum_lens(lens@) == h@.len(),
            forall|j: int| 0 <= j < h@.len() ==> is_hex_char(#[trigger] h@[j]),
        decreases s@.len() - i,
    {
        let c = s[i];
        let ghost k = i - start;
        proof {
            lemma_first_bad_none(t, 0, k);
        }
        assert(t.subrange(0, k + 1).drop_last() =~= t.subrange(0, k));
        assert(t.subrange(0, k + 1).last() == c);
        let ghost old_lens = lens@;
        if c == '-' {
            lens.push(0);
            assert(lens@.drop_last() =~= old_lens);
        } else {
            let last = lens.len() - 1;
            let n = lens[last] + 1;
            lens.set(last, n);
            h.push(c);
            assert(lens@.drop_last() =~= old_lens.drop_last());
        }
        i = i + 1;
    }
    assert(t.subrange(0, t.len() as int) =~= t);

    if lens.len() == 1 {
        if lens[0] != 32 {
            return Err(ParseError::InvalidLength(lens[0]));
        }
        assert(lens@.drop_last() =~= Seq::<usize>::empty());
    } else if lens.len() == 5 {
        let expected: [usize; 5] = [8, 4, 4, 4, 12];
        let mut g: usize = 0;
        while g < 5
            invariant
                g <= 5,
                lens@.len() == 5,
                lens@ == group_lens(t),
                first_bad(t, 0) == t.len(),
                parse_text(us@) == parse_body(t),
                expected@ == seq![8usize, 4, 4, 4, 12],
                forall|j: int| 0 <= j < g ==> lens@[j] == expected@[j],
            decreases 5 - g,
        {
            if lens[g] != expected[g] {
                assert(group_error(lens@) == Some(
                    ParseError::InvalidGroupLength(g, lens@[g as int], expected@[g as int]),
                )) by {
                    if g > 0 {
                        assert(lens@[0] == 8usize);
                    }
                    if g > 1 {
                        assert(lens@[1] == 4usize);
                    }
                    if g > 2 {
                        assert(lens@[2] == 4usize);
                    }
                    if g > 3 {
                        assert(lens@[3] == 4usize);
                    }
                }
                return Err(ParseError::InvalidGroupLength(g, lens[g], expected[g]));
            }
            g = g + 1;
        }
        reveal_with_fuel(sum_lens, 6);
        assert(lens@ =~= seq![8usize, 4, 4, 4, 12]);
    } else {
        return Err(ParseError::InvalidGroups(lens.len()));
    }
    assert(h@.len() == 32);

    // the nil UUID is accepted whatever its version digit
    let mut all_zero = true;
    let mut j: usize = 0;
    while j < 32
        invariant
            j <= 32,
            h@.len() == 32,
            all_zero <==> forall|k: int| 0 <= k < j ==> h@[k] == '0',
        decreases 32 - j,
    {
        if h[j] != '0' {
            all_zero = false;
        }
        j = j + 1;
    }

    let ghost d = h@;
    let mut ub = [0u8; 16];
    if all_zero {
        assert(ub@ =~= decode_hex(d)) by {
            assert forall|q: int| 0 <= q < 16 implies ub@[q] == decode_hex(d)[q] by {
                assert(d[2 * q] == '0' && d[2 * q + 1] == '0');
            }
        }
        return Ok(ub);
    }
    let version = h[12];
    if !('1' <= version && version <= '5') {
        return Err(ParseError::InvalidVersion(version));
    }
    let mut q: usize = 0;
    while q < 16
        invariant
            q <= 16,
            h@ == d,
            d.len() == 32,
            forall|k: int| 0 <= k < d.len() ==> is_hex_char(#[trigger] d[k]),
            forall|k: int| 0 <= k < q ==> ub@[k] == decode_hex(d)[k],
        decreases 16 - q,
    {
        let hi = digit_value(h[2 * q]);
        let lo = digit_value(h[2 * q + 1]);
        ub[q] = hi * 16 + lo;
        q = q + 1;
    }
    assert(ub@ =~= decode_hex(d));
    Ok(ub)
}

/// Once every character from `i` on is allowed up to `k`, none of them is the
/// first one that is not.
proof fn lemma_first_bad_none(t: Seq<char>, i: int, k: int)
    requires
        0 <= i <= k < t.len(),
        first_bad(t, i) == t.len(),
    ensures
        is_text_char(t[k]),
    decreases k - i,
{
    if i < k {
        lemma_first_bad_none(t, i + 1, k);
    }
}

} // verus!
