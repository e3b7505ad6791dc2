use vstd::prelude::*;

use crate::format::{
    hyphenated_string, hyphenated_text, simple_string, simple_text, urn_string, urn_text,
};
use crate::parse::{parse_octets, parse_text, ParseError};

verus! {

/// The generating algorithm recorded in the version field.
#[derive(PartialEq, Eq, Structural, Copy, Clone, Debug)]
pub enum UuidVersion {
    /// Version 1: MAC address
    Mac,
    /// Version 2: DCE Security
    Dce,
    /// Version 3: MD5 hash
    Md5,
    /// Version 4: Random
    Random,
    /// Version 5: SHA-1 hash
    Sha1,
}

} // verus!

verus! {

impl UuidVersion {
    /// The value of the version field for this version: 1 to 5.
    pub open spec fn code(self) -> u8 {
        match self {
            UuidVersion::Mac => 1,
            UuidVersion::Dce => 2,
            UuidVersion::Md5 => 3,
            UuidVersion::Random => 4,
            UuidVersion::Sha1 => 5,
        }
    }

    /// The value of the version field for this version.
    fn num(self) -> (r: u8)
        ensures
            r == self.code(),
    {
        match self {
            UuidVersion::Mac => 1,
            UuidVersion::Dce => 2,
            UuidVersion::Md5 => 3,
            UuidVersion::Random => 4,
            UuidVersion::Sha1 => 5,
        }
    }
}

/// The version named by a value of the version field, if any.
pub open spec fn version_of_code(n: int) -> Option<UuidVersion> {
    if n == 1 {
        Some(UuidVersion::Mac)
    } else if n == 2 {
        Some(UuidVersion::Dce)
    } else if n == 3 {
        Some(UuidVersion::Md5)
    } else if n == 4 {
        Some(UuidVersion::Random)
    } else if n == 5 {
        Some(UuidVersion::Sha1)
    } else {
        None
    }
}

/// The layout family recorded in the variant field.
#[derive(PartialEq, Eq, Structural, Copy, Clone, Debug)]
pub enum UuidVariant {
    /// Reserved by the NCS for backward compatibility
    NCS,
    /// As described in the RFC4122 Specification (default)
    RFC4122,
    /// Reserved by Microsoft for backward compatibility
    Microsoft,
    /// Reserved for future expansion
    Future,
}

/// The variant that the top bits of octet 8 name: `0xxxxxxx` NCS,
/// `10xxxxxx` RFC 4122, `110xxxxx` Microsoft, `111xxxxx` future.
pub open spec fn variant_of_octet(b: u8) -> UuidVariant {
    if b < 0x80 {
        UuidVariant::NCS
    } else if b < 0xc0 {
        UuidVariant::RFC4122
    } else if b < 0xe0 {
        UuidVariant::Microsoft
    } else {
        UuidVariant::Future
    }
}

/// Octet 8 with its top bits replaced by the tag of `v`; the bits below the
/// tag are kept.
pub open spec fn octet_with_variant(b: u8, v: UuidVariant) -> u8 {
    match v {
        UuidVariant::NCS => (b % 0x80) as u8,
        UuidVariant::RFC4122 => (b % 0x40 + 0x80) as u8,
        UuidVariant::Microsoft => (b % 0x20 + 0xc0) as u8,
        UuidVariant::Future => (b % 0x20 + 0xe0) as u8,
    }
}

/// Octet 6 with its high nibble replaced by the code of `v`.
pub open spec fn octet_with_version(b: u8, v: UuidVersion) -> u8 {
    (b % 16 + 16 * v.code()) as u8
}

/// The all-zero value.
pub open spec fn nil_bytes() -> Seq<u8> {
    Seq::new(16, |_i: int| 0u8)
}

/// Whether every octet is zero.
pub open spec fn is_all_zero(b: Seq<u8>) -> bool {
    forall|i: int| 0 <= i < b.len() ==> b[i] == 0
}

/// Sixteen bytes tagged as version 4 of the RFC 4122 variant.
pub open spec fn v4_bytes(b: Seq<u8>) -> Seq<u8> {
    b.update(8, octet_with_variant(b[8], UuidVariant::RFC4122)).update(
        6,
        octet_with_version(b[6], UuidVersion::Random),
    )
}

/// The four integers in network byte order, then the first eight bytes of
/// `d4` (padded with zeros where it is shorter).
pub open spec fn field_bytes(d1: u32, d2: u16, d3: u16, d4: Seq<u8>) -> Seq<u8> {
    seq![
        (d1 / 0x1000000) as u8,
        (d1 / 0x10000 % 0x100) as u8,
        (d1 / 0x100 % 0x100) as u8,
        (d1 % 0x100) as u8,
        (d2 / 0x100) as u8,
        (d2 % 0x100) as u8,
        (d3 / 0x100) as u8,
        (d3 % 0x100) as u8,
    ] + Seq::new(8, |i: int| if i < d4.len() { d4[i] } else { 0u8 })
}

/// A Universally Unique Identifier: 128 bits stored as 16 octets.
#[derive(Copy, Clone, Debug, Hash)]
pub struct Uuid {
    bytes: [u8; 16],
}

impl View for Uuid {
    type V = Seq<u8>;

    closed spec fn view(&self) -> Seq<u8> {
        self.bytes@
    }
}

/// Every UUID holds exactly sixteen octets.
pub broadcast proof fn lemma_uuid_len(u: Uuid)
    ensures
        #[trigger] u@.len() == 16,
{
}

impl Uuid {
    /// The version that the high nibble of octet 6 names, if any.
    pub open spec fn spec_version(&self) -> Option<UuidVersion> {
        version_of_code(self@[6] as int / 16)
    }

    /// The variant that octet 8 names.
    pub open spec fn spec_variant(&self) -> UuidVariant {
        variant_of_octet(self@[8])
    }

    /// Returns the nil UUID: all sixteen octets zero.
    pub fn nil() -> (r: Uuid)
        ensures
            r@ == nil_bytes(),
    {
        let r = Uuid { bytes: [0u8; 16] };
        assert(r@ =~= nil_bytes());
        r
    }

    /// Whether every octet is zero.
    pub fn is_nil(&self) -> (r: bool)
        ensures
            r == is_all_zero(self@),
    {
        let mut i: usize = 0;
        while i < 16
            invariant
                i <= 16,
                forall|j: int| 0 <= j < i ==> self@[j] == 0,
            decreases 16 - i,
        {
            if self.bytes[i] != 0 {
                return false;
            }
            i = i + 1;
        }
        true
    }

    /// Creates a UUID of the given version; only the random version (4) is
    /// generated, any other gives `None`.
    pub fn new(v: UuidVersion) -> (r: Option<Uuid>)
        ensures
            r is Some <==> v == UuidVersion::Random,
            r is Some ==> r->0.spec_version() == Some(UuidVersion::Random)
                && r->0.spec_variant() == UuidVariant::RFC4122,
    {
        match v {
            UuidVersion::Random => Some(Uuid::new_v4()),
            _ => None,
        }
    }

    /// Creates a random UUID (version 4, RFC 4122 variant) from sixteen bytes
    /// of the thread-local random generator.
    pub fn new_v4() -> (r: Uuid)
        ensures
            r.spec_version() == Some(UuidVersion::Random),
            r.spec_variant() == UuidVariant::RFC4122,
            !is_all_zero(r@),
    {
        Uuid::from_random_bytes(random_bytes())
    }

    /// Tags sixteen random bytes as a version 4 UUID of the RFC 4122 variant:
    /// octet 8 gets the tag `10`, the high nibble of octet 6 becomes 4, and every
    /// other bit is kept.
    pub fn from_random_bytes(b: [u8; 16]) -> (r: Uuid)
        ensures
            r@ == v4_bytes(b@),
    {
        let mut uuid = Uuid { bytes: b };
        uuid.set_variant(UuidVariant::RFC4122);
        uuid.set_version(UuidVersion::Random);
        uuid
    }

    /// Creates a UUID from a 32-bit word, two 16-bit words (each written in
    /// network byte order) and up to eight trailing octets.
    pub fn from_fields(d1: u32, d2: u16, d3: u16, d4: &[u8]) -> (r: Uuid)
        ensures
            r@ == field_bytes(d1, d2, d3, d4@),
    {
        assert((d1 >> 24) == d1 / 0x1000000 && (d1 >> 24) < 0x100) by (bit_vector);
        assert(((d1 >> 16) & 0xff) == d1 / 0x10000 % 0x100) by (bit_vector);
        assert(((d1 >> 8) & 0xff) == d1 / 0x100 % 0x100) by (bit_vector);
        assert((d1 & 0xff) == d1 % 0x100) by (bit_vector);
        assert((d2 >> 8) == d2 / 0x100 && (d2 >> 8) < 0x100) by (bit_vector);
        assert((d2 & 0xff) == d2 % 0x100) by (bit_vector);
        assert((d3 >> 8) == d3 / 0x100 && (d3 >> 8) < 0x100) by (bit_vector);
        assert((d3 & 0xff) == d3 % 0x100) by (bit_vector);
        let mut bytes = [0u8; 16];
        bytes[0] = (d1 >> 24) as u8;
        bytes[1] = ((d1 >> 16) & 0xff) as u8;
        bytes[2] = ((d1 >> 8) & 0xff) as u8;
        bytes[3] = (d1 & 0xff) as u8;
        bytes[4] = (d2 >> 8) as u8;
        bytes[5] = (d2 & 0xff) as u8;
        bytes[6] = (d3 >> 8) as u8;
        bytes[7] = (d3 & 0xff) as u8;
        let ghost want = field_bytes(d1, d2, d3, d4@);
        assert forall|j: int| 0 <= j < 8 implies bytes@[j] == want[j] by {}
        let mut i: usize = 0;
        while i < 8 && i < d4.len()
            invariant
                i <= 8,
                i <= d4@.len(),
                want == field_bytes(d1, d2, d3, d4@),
                forall|j: int| 0 <= j < 8 ==> bytes@[j] == want[j],
                forall|j: int| 8 <= j < 8 + i ==> bytes@[j] == d4@[j - 8],
                forall|j: int| 8 + i <= j < 16 ==> bytes@[j] == 0,
            decreases 8 - i,
        {
            bytes[8 + i] = d4[i];
            i = i + 1;
        }
        let r = Uuid { bytes };
        assert forall|j: int| 8 <= j < 16 implies r@[j] == want[j] by {
            assert(want[j] == (if j - 8 < d4@.len() { d4@[j - 8] } else { 0u8 }));
        }
        assert(r@ =~= want);
        r
    }

    /// Creates a UUID from exactly sixteen octets; any other length gives `None`.
    pub fn from_bytes(b: &[u8]) -> (r: Option<Uuid>)
        ensures
            r is Some <==> b@.len() == 16,
            r is Some ==> r->0@ == b@,
    {
        if b.len() != 16 {
            return None;
        }
        let mut bytes = [0u8; 16];
        let mut i: usize = 0;
        while i < 16
            invariant
                i <= 16,
                b@.len() == 16,
                forall|j: int| 0 <= j < i ==> bytes@[j] == b@[j],
            decreases 16 - i,
        {
            bytes[i] = b[i];
            i = i + 1;
        }
        let r = Uuid { bytes };
        assert(r@ =~= b@);
        Some(r)
    }

    /// Writes the tag of `v` into the top bits of octet 8.
    fn set_variant(&mut self, v: UuidVariant)
        ensures
            final(self)@ == old(self)@.update(8, octet_with_variant(old(self)@[8], v)),
    {
        let b = self.bytes[8];
        let n = match v {
            UuidVariant::NCS => b & 0x7f,
            UuidVariant::RFC4122 => (b & 0x3f) | 0x80,
            UuidVariant::Microsoft => (b & 0x1f) | 0xc0,
            UuidVariant::Future => (b & 0x1f) | 0xe0,
        };
        assert(b & 0x7f == b % 0x80) by (bit_vector);
        assert((b & 0x3f) | 0x80 == b % 0x40 + 0x80) by (bit_vector);
        assert((b & 0x1f) | 0xc0 == b % 0x20 + 0xc0) by (bit_vector);
        assert((b & 0x1f) | 0xe0 == b % 0x20 + 0xe0) by (bit_vector);
        self.bytes[8] = n;
        assert(self@ =~= old(self)@.update(8, octet_with_variant(old(self)@[8], v)));
    }

    /// The variant named by the top bits of octet 8; every octet names one.
    pub fn get_variant(&self) -> (r: Option<UuidVariant>)
        ensures
            r == Some(self.spec_variant()),
    {
        let x = self.bytes[8];
        assert(x & 0x80 == 0 <==> x < 0x80) by (bit_vector);
        assert(x & 0xc0 == 0x80 <==> 0x80 <= x < 0xc0) by (bit_vector);
        assert(x & 0xe0 == 0xc0 <==> 0xc0 <= x < 0xe0) by (bit_vector);
        assert(x & 0xe0 == 0xe0 <==> 0xe0 <= x) by (bit_vector);
        if x & 0x80 == 0x00 {
            Some(UuidVariant::NCS)
        } else if x & 0xc0 == 0x80 {
            Some(UuidVariant::RFC4122)
        } else if x & 0xe0 == 0xc0 {
            Some(UuidVariant::Microsoft)
        } else if x & 0xe0 == 0xe0 {
            Some(UuidVariant::Future)
        } else {
            None
        }
    }

    /// Writes the code of `v` into the high nibble of octet 6.
    fn set_version(&mut self, v: UuidVersion)
        ensures
            final(self)@ == old(self)@.update(6, octet_with_version(old(self)@[6], v)),
    {
        let b = self.bytes[6];
        let c = v.num();
        assert(c <= 5 ==> (b & 0xf) | (c << 4) == b % 16 + 16 * c) by (bit_vector);
        self.bytes[6] = (b & 0xf) | (c << 4);
        assert(self@ =~= old(self)@.update(6, octet_with_version(old(self)@[6], v)));
    }

    /// The raw value of the version field: the high nibble of octet 6.
    pub fn get_version_num(&self) -> (r: usize)
        ensures
            r == self@[6] / 16,
    {
        let b = self.bytes[6];
        assert(b >> 4 == b / 16) by (bit_vector);
        (b >> 4) as usize
    }

    /// The version named by the version field, or `None` for a value outside 1 to 5.
    pub fn get_version(&self) -> (r: Option<UuidVersion>)
        ensures
            r == self.spec_version(),
    {
        let v = self.get_version_num();
        match v {
            1 => Some(UuidVersion::Mac),
            2 => Some(UuidVersion::Dce),
            3 => Some(UuidVersion::Md5),
            4 => Some(UuidVersion::Random),
            5 => Some(UuidVersion::Sha1),
            _ => None,
        }
    }

    /// The simple form: 32 lowercase hexadecimal digits.
    pub fn to_simple_string(&self) -> (r: String)
        ensures
            r@ == simple_text(self@),
    {
        simple_string(&self.bytes)
    }

    /// The default text form, which is the simple form.
    pub fn to_string(&self) -> (r: String)
        ensures
            r@ == simple_text(self@),
    {
        self.to_simple_string()
    }

    /// The hyphenated form, `xxxxxxxx-xxxx-xxxx-xxxx-xxxxxxxxxxxx`, lowercase.
    pub fn to_hyphenated_string(&self) -> (r: String)
        ensures
            r@ == hyphenated_text(self@),
    {
        hyphenated_string(&self.bytes)
    }

    /// The URN form: `urn:uuid:` followed by the hyphenated form.
    pub fn to_urn_string(&self) -> (r: String)
        ensures
            r@ == urn_text(self@),
    {
        urn_string(&self.bytes)
    }

    /// Parses any of the simple, hyphenated or URN forms, with digits of either
    /// case; the error names the first check that fails.
    pub fn parse_str(us: &str) -> (r: Result<Uuid, ParseError>)
        ensures
            r is Ok <==> parse_text(us@) is Ok,
            r is Ok ==> r->Ok_0@ == parse_text(us@)->Ok_0,
            r is Err ==> r->Err_0 == parse_text(us@)->Err_0,
    {
        match parse_octets(us) {
            Ok(bytes) => Ok(Uuid { bytes }),
            Err(e) => Err(e),
        }
    }

    /// The sixteen octets.
    pub fn as_bytes(&self) -> (r: &[u8])
        ensures
            r@ == self@,
    {
        self.bytes.as_slice()
    }
}

/// Relies on rand::random for `[u8; 16]`: sixteen bytes drawn from the
/// thread-local generator, which panics only where the system offers no
/// entropy. Nothing is promised of their values.
#[verifier::external_body]
fn random_bytes() -> (r: [u8; 16]) {
    rand::random::<[u8; 16]>()
}

impl PartialEq for Uuid {
    /// UUIDs are equal only when they are byte-for-byte identical.
    fn eq(&self, other: &Uuid) -> (r: bool) {
        let mut i: usize = 0;
        while i < 16
            invariant
                i <= 16,
                forall|j: int| 0 <= j < i ==> self@[j] == other@[j],
            decreases 16 - i,
        {
            if self.bytes[i] != other.bytes[i] {
                return false;
            }
            i = i + 1;
        }
        assert(self@ =~= other@);
        true
    }
}

impl vstd::std_specs::cmp::PartialEqSpecImpl for Uuid {
    open spec fn obeys_eq_spec() -> bool {
        true
    }

    open spec fn eq_spec(&self, other: &Uuid) -> bool {
        self@ == other@
    }
}

impl Eq for Uuid {

}

impl std::str::FromStr for Uuid {
    type Err = ParseError;

    /// Parses any of the three text forms; see `Uuid::parse_str`.
    fn from_str(us: &str) -> Result<Uuid, ParseError> {
        Uuid::parse_str(us)
    }
}

impl Default for Uuid {
    /// The nil UUID.
    fn default() -> (r: Uuid)
        ensures
            r@ == nil_bytes(),
    {
        Uuid::nil()
    }
}

} // verus!
