use vstd::prelude::*;

use crate::format::{hyphenated_text, simple_text, urn_prefix, urn_text};
use crate::hex::{hex_digit, hex_of, hex_value, is_hex_char, lemma_hex_value_of_digit};
use crate::id::{
    is_all_zero,
    nil_bytes,
    v4_bytes,
    variant_of_octet,
    version_of_code,
    Uuid,
    UuidVariant,
    UuidVersion,
};
use crate::parse::{
    all_zero_digits,
    decode_hex,
    first_bad,
    group_lens,
    ParseError,
    is_text_char,
    parse_body,
    parse_text,
    strip_hyphens,
    strip_urn,
};

verus! {

broadcast use crate::id::lemma_uuid_len;

/// Where every character from `i` on may stand in a text form, none is bad.
proof fn lemma_first_bad_all_good(t: Seq<char>, i: int)
    requires
        0 <= i <= t.len(),
        forall|k: int| i <= k < t.len() ==> is_text_char(#[trigger] t[k]),
    ensures
        first_bad(t, i) == t.len(),
    decreases t.len() - i,
{
    if i < t.len() {
        lemma_first_bad_all_good(t, i + 1);
    }
}

/// Appending hyphen-free text lengthens the last group and keeps the text.
proof fn lemma_append_plain(x: Seq<char>, y: Seq<char>)
    requires
        x.len() + y.len() <= 64,
        forall|k: int| 0 <= k < y.len() ==> #[trigger] y[k] != '-',
    ensures
        group_lens(x + y).len() == group_lens(x).len() >= 1,
        group_lens(x + y) == group_lens(x).update(
            group_lens(x).len() - 1,
            (group_lens(x).last() + y.len()) as usize,
        ),
        strip_hyphens(x + y) == strip_hyphens(x) + y,
    decreases y.len(),
{
    lemma_group_lens_bound(x);
    if y.len() == 0 {
        assert(x + y =~= x);
        assert(strip_hyphens(x) + y =~= strip_hyphens(x));
        assert(group_lens(x).update(group_lens(x).len() - 1, group_lens(x).last()) =~= group_lens(
            x,
        ));
    } else {
        let y0 = y.drop_last();
        lemma_append_plain(x, y0);
        assert((x + y).drop_last() =~= x + y0);
        assert((x + y).last() == y.last());
        lemma_group_lens_bound(x + y0);
        assert(group_lens(x + y) =~= group_lens(x).update(
            group_lens(x).len() - 1,
            (group_lens(x).last() + y.len()) as usize,
        ));
        assert(strip_hyphens(x + y) =~= strip_hyphens(x) + y);
    }
}

/// No group is longer than the text.
proof fn lemma_group_lens_bound(t: Seq<char>)
    ensures
        group_lens(t).len() >= 1,
        forall|j: int| 0 <= j < group_lens(t).len() ==> #[trigger] group_lens(t)[j] <= t.len(),
    decreases t.len(),
{
    if t.len() > 0 {
        lemma_group_lens_bound(t.drop_last());
    }
}

/// Appending a hyphen opens a new, empty group.
proof fn lemma_append_hyphen(x: Seq<char>)
    ensures
        group_lens(x + seq!['-']) == group_lens(x).push(0usize),
        strip_hyphens(x + seq!['-']) == strip_hyphens(x),
{
    assert((x + seq!['-']).drop_last() =~= x);
}

/// The digits of consecutive runs of octets are the digits of the whole run.
proof fn lemma_hex_of_concat(x: Seq<u8>, y: Seq<u8>)
    ensures
        hex_of(x + y) == hex_of(x) + hex_of(y),
{
    let l = hex_of(x + y);
    let r = hex_of(x) + hex_of(y);
    assert forall|k: int| 0 <= k < l.len() implies l[k] == r[k] by {
        if k >= 2 * x.len() {
            let m = k - 2 * x.len();
            assert(m / 2 == k / 2 - x.len());
            assert(m % 2 == k % 2);
        }
    }
    assert(l =~= r);
}

/// The digits of every octet, with no hyphen among them.
proof fn lemma_hex_of_chars(b: Seq<u8>)
    ensures
        hex_of(b).len() == 2 * b.len(),
        forall|k: int|
            0 <= k < hex_of(b).len() ==> is_hex_char(#[trigger] hex_of(b)[k]) && hex_of(b)[k]
                != '-',
{
    assert forall|k: int| 0 <= k < hex_of(b).len() implies is_hex_char(#[trigger] hex_of(b)[k])
        && hex_of(b)[k] != '-' by {
        if k % 2 == 0 {
            lemma_hex_value_of_digit(b[k / 2] as int / 16);
        } else {
            lemma_hex_value_of_digit(b[k / 2] as int % 16);
        }
    }
}

/// Decoding the digits of sixteen octets gives them back.
proof fn lemma_decode_hex_of(b: Seq<u8>)
    requires
        b.len() == 16,
    ensures
        decode_hex(hex_of(b)) == b,
{
    let h = hex_of(b);
    assert forall|i: int| 0 <= i < 16 implies decode_hex(h)[i] == b[i] by {
        assert((2 * i) / 2 == i && (2 * i) % 2 == 0);
        assert((2 * i + 1) / 2 == i && (2 * i + 1) % 2 == 1);
        lemma_hex_value_of_digit(b[i] as int / 16);
        lemma_hex_value_of_digit(b[i] as int % 16);
    }
    assert(decode_hex(h) =~= b);
}

/// The digit that parsing checks as the version is the high nibble of octet 6.
proof fn lemma_version_digit(b: Seq<u8>)
    requires
        b.len() == 16,
        b == nil_bytes() || (1 <= b[6] / 16 <= 5),
    ensures
        all_zero_digits(hex_of(b)) || ('1' <= hex_of(b)[12] && hex_of(b)[12] <= '5'),
        b == nil_bytes() ==> all_zero_digits(hex_of(b)),
{
    assert(12int / 2 == 6 && 12int % 2 == 0);
    if b == nil_bytes() {
        assert forall|k: int| 0 <= k < hex_of(b).len() implies hex_of(b)[k] == '0' by {
            assert(b[k / 2] == 0);
        }
    }
}

/// The simple form parses back to its octets.
proof fn lemma_parse_simple(b: Seq<u8>)
    requires
        b.len() == 16,
        b == nil_bytes() || (1 <= b[6] / 16 <= 5),
    ensures
        parse_text(simple_text(b)) == Ok::<Seq<u8>, ParseError>(b),
{
    let s = hex_of(b);
    lemma_hex_of_chars(b);
    assert(s[0] != urn_prefix()[0]);
    assert(s.subrange(0, 9)[0] == s[0]);
    assert(strip_urn(s) == s);
    lemma_first_bad_all_good(s, 0);
    lemma_append_plain(Seq::<char>::empty(), s);
    assert(Seq::<char>::empty() + s =~= s);
    assert(group_lens(s) =~= seq![32usize]);
    assert(strip_hyphens(s) == s);
    lemma_version_digit(b);
    lemma_decode_hex_of(b);
    assert(parse_body(s) == Ok::<Seq<u8>, ParseError>(b));
}

/// The hyphenated form passes every check after the length and decodes to its octets.
proof fn lemma_parse_hyphenated_body(b: Seq<u8>)
    requires
        b.len() == 16,
        b == nil_bytes() || (1 <= b[6] / 16 <= 5),
    ensures
        hyphenated_text(b).len() == 36,
        strip_urn(hyphenated_text(b)) == hyphenated_text(b),
        parse_body(hyphenated_text(b)) == Ok::<Seq<u8>, ParseError>(b),
{
    let a = hex_of(b.subrange(0, 4));
    let c = hex_of(b.subrange(4, 6));
    let d = hex_of(b.subrange(6, 8));
    let e = hex_of(b.subrange(8, 10));
    let f = hex_of(b.subrange(10, 16));
    lemma_hex_of_chars(b.subrange(0, 4));
    lemma_hex_of_chars(b.subrange(4, 6));
    lemma_hex_of_chars(b.subrange(6, 8));
    lemma_hex_of_chars(b.subrange(8, 10));
    lemma_hex_of_chars(b.subrange(10, 16));
    let h = seq!['-'];
    let p1 = a;
    let p2 = p1 + h;
    let p3 = p2 + c;
    let p4 = p3 + h;
    let p5 = p4 + d;
    let p6 = p5 + h;
    let p7 = p6 + e;
    let p8 = p7 + h;
    let s = p8 + f;
    assert(s == hyphenated_text(b));
    // groups and digits
    lemma_append_plain(Seq::<char>::empty(), a);
    assert(Seq::<char>::empty() + a =~= a);
    lemma_append_hyphen(p1);
    lemma_append_plain(p2, c);
    lemma_append_hyphen(p3);
    lemma_append_plain(p4, d);
    lemma_append_hyphen(p5);
    lemma_append_plain(p6, e);
    lemma_append_hyphen(p7);
    lemma_append_plain(p8, f);
    assert(group_lens(s) =~= seq![8usize, 4, 4, 4, 12]);
    lemma_hex_of_concat(b.subrange(0, 4), b.subrange(4, 6));
    lemma_hex_of_concat(b.subrange(0, 6), b.subrange(6, 8));
    lemma_hex_of_concat(b.subrange(0, 8), b.subrange(8, 10));
    lemma_hex_of_concat(b.subrange(0, 10), b.subrange(10, 16));
    assert(b.subrange(0, 4) + b.subrange(4, 6) =~= b.subrange(0, 6));
    assert(b.subrange(0, 6) + b.subrange(6, 8) =~= b.subrange(0, 8));
    assert(b.subrange(0, 8) + b.subrange(8, 10) =~= b.subrange(0, 10));
    assert(b.subrange(0, 10) + b.subrange(10, 16) =~= b);
    assert(strip_hyphens(s) =~= hex_of(b));
    // characters
    assert forall|k: int| 0 <= k < s.len() implies is_text_char(#[trigger] s[k]) by {
        if k < 8 {
            assert(s[k] == a[k]);
        } else if k == 8 || k == 13 || k == 18 || k == 23 {
            assert(s[k] == '-');
        } else if k < 13 {
            assert(s[k] == c[k - 9]);
        } else if k < 18 {
            assert(s[k] == d[k - 14]);
        } else if k < 23 {
            assert(s[k] == e[k - 19]);
        } else {
            assert(s[k] == f[k - 24]);
        }
    }
    lemma_first_bad_all_good(s, 0);
    assert(s[0] == a[0]);
    assert(s.subrange(0, 9)[0] == s[0]);
    assert(s[0] != urn_prefix()[0]);
    lemma_version_digit(b);
    lemma_decode_hex_of(b);
}

/// Round trip: the simple, hyphenated and URN forms of a UUID whose version
/// field is 1 to 5, or of the nil UUID, each parse back to the same octets.
pub proof fn lemma_round_trip(u: Uuid)
    requires
        u@ == nil_bytes() || (1 <= u@[6] / 16 <= 5),
    ensures
        parse_text(simple_text(u@)) == Ok::<Seq<u8>, ParseError>(u@),
        parse_text(hyphenated_text(u@)) == Ok::<Seq<u8>, ParseError>(u@),
        parse_text(urn_text(u@)) == Ok::<Seq<u8>, ParseError>(u@),
{
    let b = u@;
    lemma_parse_simple(b);
    lemma_parse_hyphenated_body(b);
    let s = urn_text(b);
    assert(s.subrange(0, 9) =~= urn_prefix());
    assert(s.subrange(9, 45) =~= hyphenated_text(b));
}

/// Formatting is deterministic: two UUIDs with the same octets have the same
/// simple, hyphenated and URN forms.
pub proof fn lemma_format_deterministic(u: Uuid, v: Uuid)
    requires
        u@ == v@,
    ensures
        simple_text(u@) == simple_text(v@),
        hyphenated_text(u@) == hyphenated_text(v@),
        urn_text(u@) == urn_text(v@),
{
}

/// Whatever sixteen bytes a generated UUID starts from, it reads back as
/// version 4 (random) of the RFC 4122 variant.
pub proof fn lemma_generated_tags(b: Seq<u8>)
    requires
        b.len() == 16,
    ensures
        version_of_code(v4_bytes(b)[6] as int / 16) == Some(UuidVersion::Random),
        variant_of_octet(v4_bytes(b)[8]) == UuidVariant::RFC4122,
{
}

/// The nil UUID tests as nil, and no generated UUID does, whatever sixteen
/// bytes it starts from.
pub proof fn lemma_nil_detection(b: Seq<u8>)
    requires
        b.len() == 16,
    ensures
        is_all_zero(nil_bytes()),
        !is_all_zero(v4_bytes(b)),
{
    assert(v4_bytes(b)[6] != 0);
}

} // verus!
