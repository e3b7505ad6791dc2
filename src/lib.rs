//! Universally unique identifiers (RFC 4122): a 16-byte value, its version
//! and variant fields, random generation, and the simple, hyphenated and URN
//! text forms with a parser that accepts all three.

mod format;
mod hex;
mod id;
mod laws;
mod message;
mod parse;

pub use format::{hyphenated_text, simple_text, urn_prefix, urn_text};
pub use hex::{hex_digit, hex_of, hex_value, is_hex_char, lemma_hex_value_of_digit};
pub use id::{
    field_bytes, is_all_zero, lemma_uuid_len, nil_bytes, octet_with_variant, octet_with_version, v4_bytes,
    variant_of_octet, version_of_code, Uuid, UuidVariant, UuidVersion,
};
pub use laws::{
    lemma_format_deterministic, lemma_generated_tags, lemma_nil_detection, lemma_round_trip,
};
pub use message::{decimal, hex_digits, hex_two, message};
pub use parse::{
    all_zero_digits, decode_hex, first_bad, group_error, group_lens, is_text_char, parse_body,
    parse_text, strip_hyphens, strip_urn, sum_lens, ParseError,
};
