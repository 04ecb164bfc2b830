//! Wire codec: the fixed byte layouts in which a guest passes addresses,
//! CIDRs and optional timestamps across the trust boundary.
//!
//! Layouts (all multi-byte integers little-endian, as in the guest's own
//! memory):
//! - address: one tag byte (`TAG_V4` or `TAG_V6`) followed by the octets,
//!   4 for IPv4 and 16 for IPv6;
//! - CIDR: an address followed by one prefix-length byte, which must not
//!   exceed the bit-width of the address family;
//! - optional timestamp: one tag byte, `TAG_ABSENT` alone or `TAG_PRESENT`
//!   followed by a 64-bit nanosecond count.
//!
//! Decoding is a hard validation boundary: every tag outside the recognized
//! set, every length that disagrees with the tag and every impossible prefix
//! is rejected with a [`DecodeError`], never coerced.

use vstd::prelude::*;
use vstd::bytes::*;
use vstd::slice::*;

verus! {

/// Tag byte of an IPv4 address on the wire.
pub const TAG_V4: u8 = 4;

/// Tag byte of an IPv6 address on the wire.
pub const TAG_V6: u8 = 6;

/// Tag byte of an absent optional timestamp.
pub const TAG_ABSENT: u8 = 0;

/// Tag byte of a present optional timestamp.
pub const TAG_PRESENT: u8 = 1;

/// A validated host-side network address: the tag and the payload width
/// always agree, by construction of the two variants.
#[derive(Clone, Copy, Debug, PartialEq, Eq, Structural)]
pub enum Address {
    /// IPv4, the four octets packed little-endian into one 32-bit value.
    V4 { bits: u32 },
    /// IPv6, the sixteen octets packed little-endian into two 64-bit halves;
    /// `lo` holds the first eight octets on the wire.
    V6 { lo: u64, hi: u64 },
}

impl Address {
    /// Bit-width of the address family: 32 for IPv4, 128 for IPv6.
    pub open spec fn family_bits(self) -> int {
        match self {
            Address::V4 { .. } => 32,
            Address::V6 { .. } => 128,
        }
    }
}

/// An address plus a prefix length denoting a subnet.
#[derive(Clone, Copy, Debug, PartialEq, Eq, Structural)]
pub struct Cidr {
    pub address: Address,
    pub prefix_len: u8,
}

impl Cidr {
    /// A CIDR is well-formed when its prefix length does not exceed the
    /// bit-width of its address family.
    pub open spec fn wf(self) -> bool {
        self.prefix_len <= self.address.family_bits()
    }

    /// Runtime check of `wf`, used by the stack to re-validate its inputs.
    pub fn is_wf(&self) -> (r: bool)
        ensures
            r == self.wf(),
    {
        let limit: u8 = match self.address {
            Address::V4 { .. } => 32,
            Address::V6 { .. } => 128,
        };
        self.prefix_len <= limit
    }
}

/// Either no timestamp at all, or a duration since the epoch in nanoseconds.
#[derive(Clone, Copy, Debug, PartialEq, Eq, Structural)]
pub enum OptionalTimestamp {
    Absent,
    Present { nanos: u64 },
}

/// Why a guest-supplied structure was rejected; always a guest-input problem.
#[derive(Clone, Copy, Debug, PartialEq, Eq, Structural)]
pub enum DecodeError {
    /// The tag byte is not a recognized variant.
    BadTag,
    /// The byte count does not match the tag's expected payload size.
    WrongLength,
    /// The prefix length exceeds the bit-width of the address family.
    BadPrefix,
}

/// Meaning of `decode_address`: the tag byte selects the family and the
/// payload must be exactly 4 or 16 octets.
pub open spec fn spec_decode_address(s: Seq<u8>) -> Result<Address, DecodeError> {
    if s.len() < 1 {
        Err(DecodeError::WrongLength)
    } else if s[0] == TAG_V4 {
        if s.len() == 5 {
            Ok(Address::V4 { bits: spec_u32_from_le_bytes(s.subrange(1, 5)) })
        } else {
            Err(DecodeError::WrongLength)
        }
    } else if s[0] == TAG_V6 {
        if s.len() == 17 {
            Ok(Address::V6 {
                lo: spec_u64_from_le_bytes(s.subrange(1, 9)),
                hi: spec_u64_from_le_bytes(s.subrange(9, 17)),
            })
        } else {
            Err(DecodeError::WrongLength)
        }
    } else {
        Err(DecodeError::BadTag)
    }
}

/// Meaning of `decode_cidr`: an address followed by one prefix byte, the
/// prefix bounded by the family's bit-width.
pub open spec fn spec_decode_cidr(s: Seq<u8>) -> Result<Cidr, DecodeError> {
    if s.len() < 1 {
        Err(DecodeError::WrongLength)
    } else if s[0] == TAG_V4 || s[0] == TAG_V6 {
        let alen: int = if s[0] == TAG_V4 { 5 } else { 17 };
        if s.len() == alen + 1 {
            match spec_decode_address(s.subrange(0, alen)) {
                Ok(address) => {
                    if s[alen] <= address.family_bits() {
                        Ok(Cidr { address, prefix_len: s[alen] })
                    } else {
                        Err(DecodeError::BadPrefix)
                    }
                },
                Err(e) => Err(e),
            }
        } else {
            Err(DecodeError::WrongLength)
        }
    } else {
        Err(DecodeError::BadTag)
    }
}

/// Meaning of `decode_optional_timestamp`: a two-state tag, with a 64-bit
/// nanosecond count only when the tag says "present". Any other tag is
/// rejected outright.
pub open spec fn spec_decode_optional_timestamp(s: Seq<u8>) -> Result<
    OptionalTimestamp,
    DecodeError,
> {
    if s.len() < 1 {
        Err(DecodeError::WrongLength)
    } else if s[0] == TAG_ABSENT {
        if s.len() == 1 {
            Ok(OptionalTimestamp::Absent)
        } else {
            Err(DecodeError::WrongLength)
        }
    } else if s[0] == TAG_PRESENT {
        if s.len() == 9 {
            Ok(OptionalTimestamp::Present { nanos: spec_u64_from_le_bytes(s.subrange(1, 9)) })
        } else {
            Err(DecodeError::WrongLength)
        }
    } else {
        Err(DecodeError::BadTag)
    }
}

/// Byte layout of an address.
pub open spec fn spec_encode_address(a: Address) -> Seq<u8> {
    match a {
        Address::V4 { bits } => seq![TAG_V4] + spec_u32_to_le_bytes(bits),
        Address::V6 { lo, hi } => seq![TAG_V6] + spec_u64_to_le_bytes(lo) + spec_u64_to_le_bytes(
            hi,
        ),
    }
}

/// Byte layout of a CIDR.
pub open spec fn spec_encode_cidr(c: Cidr) -> Seq<u8> {
    spec_encode_address(c.address).push(c.prefix_len)
}

/// Byte layout of an optional timestamp.
pub open spec fn spec_encode_optional_timestamp(t: OptionalTimestamp) -> Seq<u8> {
    match t {
        OptionalTimestamp::Absent => seq![TAG_ABSENT],
        OptionalTimestamp::Present { nanos } => seq![TAG_PRESENT] + spec_u64_to_le_bytes(nanos),
    }
}

/// Decodes an address structure from exactly the given bytes.
pub fn decode_address(bytes: &[u8]) -> (r: Result<Address, DecodeError>)
    ensures
        r == spec_decode_address(bytes@),
{
    if bytes.len() < 1 {
        return Err(DecodeError::WrongLength);
    }
    let tag = *slice_index_get(bytes, 0);
    if tag == TAG_V4 {
        if bytes.len() == 5 {
            let bits = u32_from_le_bytes(slice_subrange(bytes, 1, 5));
            Ok(Address::V4 { bits })
        } else {
            Err(DecodeError::WrongLength)
        }
    } else if tag == TAG_V6 {
        if bytes.len() == 17 {
            let lo = u64_from_le_bytes(slice_subrange(bytes, 1, 9));
            let hi = u64_from_le_bytes(slice_subrange(bytes, 9, 17));
            Ok(Address::V6 { lo, hi })
        } else {
            Err(DecodeError::WrongLength)
        }
    } else {
        Err(DecodeError::BadTag)
    }
}

/// Decodes a CIDR structure from exactly the given bytes.
pub fn decode_cidr(bytes: &[u8]) -> (r: Result<Cidr, DecodeError>)
    ensures
        r == spec_decode_cidr(bytes@),
{
    if bytes.len() < 1 {
        return Err(DecodeError::WrongLength);
    }
    let tag = *slice_index_get(bytes, 0);
    if tag == TAG_V4 || tag == TAG_V6 {
        let alen: usize = if tag == TAG_V4 {
            5
        } else {
            17
        };
        if bytes.len() == alen + 1 {
            match decode_address(slice_subrange(bytes, 0, alen)) {
                Ok(address) => {
                    let prefix_len = *slice_index_get(bytes, alen);
                    let limit: u8 = match address {
                        Address::V4 { .. } => 32,
                        Address::V6 { .. } => 128,
                    };
                    if prefix_len <= limit {
                        Ok(Cidr { address, prefix_len })
                    } else {
                        Err(DecodeError::BadPrefix)
                    }
                },
                Err(e) => Err(e),
            }
        } else {
            Err(DecodeError::WrongLength)
        }
    } else {
        Err(DecodeError::BadTag)
    }
}

/// Decodes an optional-timestamp structure from exactly the given bytes.
pub fn decode_optional_timestamp(bytes: &[u8]) -> (r: Result<OptionalTimestamp, DecodeError>)
    ensures
        r == spec_decode_optional_timestamp(bytes@),
{
    if bytes.len() < 1 {
        return Err(DecodeError::WrongLength);
    }
    let tag = *slice_index_get(bytes, 0);
    if tag == TAG_ABSENT {
        if bytes.len() == 1 {
            Ok(OptionalTimestamp::Absent)
        } else {
            Err(DecodeError::WrongLength)
        }
    } else if tag == TAG_PRESENT {
        if bytes.len() == 9 {
            let nanos = u64_from_le_bytes(slice_subrange(bytes, 1, 9));
            Ok(OptionalTimestamp::Present { nanos })
        } else {
            Err(DecodeError::WrongLength)
        }
    } else {
        Err(DecodeError::BadTag)
    }
}

/// Encodes an address into its wire layout.
pub fn encode_address(a: &Address) -> (r: Vec<u8>)
    ensures
        r@ == spec_encode_address(*a),
{
    let mut out: Vec<u8> = Vec::new();
    match a {
        Address::V4 { bits } => {
            out.push(TAG_V4);
            let mut payload = u32_to_le_bytes(*bits);
            out.append(&mut payload);
        },
        Address::V6 { lo, hi } => {
            out.push(TAG_V6);
            let mut low = u64_to_le_bytes(*lo);
            out.append(&mut low);
            let mut high = u64_to_le_bytes(*hi);
            out.append(&mut high);
        },
    }
    assert(out@ =~= spec_encode_address(*a));
    out
}

/// Encodes a CIDR into its wire layout.
pub fn encode_cidr(c: &Cidr) -> (r: Vec<u8>)
    ensures
        r@ == spec_encode_cidr(*c),
{
    let mut out = encode_address(&c.address);
    out.push(c.prefix_len);
    out
}

/// Encodes an optional timestamp into its wire layout.
pub fn encode_optional_timestamp(t: &OptionalTimestamp) -> (r: Vec<u8>)
    ensures
        r@ == spec_encode_optional_timestamp(*t),
{
    let mut out: Vec<u8> = Vec::new();
    match t {
        OptionalTimestamp::Absent => {
            out.push(TAG_ABSENT);
        },
        OptionalTimestamp::Present { nanos } => {
            out.push(TAG_PRESENT);
            let mut payload = u64_to_le_bytes(*nanos);
            out.append(&mut payload);
        },
    }
    assert(out@ =~= spec_encode_optional_timestamp(*t));
    out
}

/// Law: decoding an encoded address gives the address back.
pub proof fn lemma_address_round_trip(a: Address)
    ensures
        spec_decode_address(spec_encode_address(a)) == Ok::<Address, DecodeError>(a),
{
    lemma_auto_spec_u32_to_from_le_bytes();
    lemma_auto_spec_u64_to_from_le_bytes();
    let s = spec_encode_address(a);
    match a {
        Address::V4 { bits } => {
            assert(s.subrange(1, 5) =~= spec_u32_to_le_bytes(bits));
        },
        Address::V6 { lo, hi } => {
            assert(s.subrange(1, 9) =~= spec_u64_to_le_bytes(lo));
            assert(s.subrange(9, 17) =~= spec_u64_to_le_bytes(hi));
        },
    }
}

/// Law: decoding an encoded well-formed CIDR gives the CIDR back.
pub proof fn lemma_cidr_round_trip(c: Cidr)
    requires
        c.wf(),
    ensures
        spec_decode_cidr(spec_encode_cidr(c)) == Ok::<Cidr, DecodeError>(c),
{
    lemma_address_round_trip(c.address);
    let s = spec_encode_cidr(c);
    let alen: int = if s[0] == TAG_V4 { 5 } else { 17 };
    assert(s.subrange(0, alen) =~= spec_encode_address(c.address));
}

/// Law: decoding an encoded optional timestamp gives the timestamp back.
pub proof fn lemma_optional_timestamp_round_trip(t: OptionalTimestamp)
    ensures
        spec_decode_optional_timestamp(spec_encode_optional_timestamp(t)) == Ok::<
            OptionalTimestamp,
            DecodeError,
        >(t),
{
    lemma_auto_spec_u64_to_from_le_bytes();
    let s = spec_encode_optional_timestamp(t);
    match t {
        OptionalTimestamp::Absent => {
        },
        OptionalTimestamp::Present { nanos } => {
            assert(s.subrange(1, 9) =~= spec_u64_to_le_bytes(nanos));
        },
    }
}

/// Law: a successful CIDR decode always yields a well-formed CIDR; a prefix
/// length beyond the family's bit-width can never decode successfully.
pub proof fn lemma_decode_cidr_wf(s: Seq<u8>)
    ensures
        spec_decode_cidr(s) matches Ok(c) ==> c.wf(),
{
}

/// Law: the encoding of a CIDR whose prefix length exceeds its family's
/// bit-width is rejected with `BadPrefix`.
pub proof fn lemma_bad_prefix_rejected(c: Cidr)
    requires
        !c.wf(),
    ensures
        spec_decode_cidr(spec_encode_cidr(c)) == Err::<Cidr, DecodeError>(DecodeError::BadPrefix),
{
    lemma_address_round_trip(c.address);
    let s = spec_encode_cidr(c);
    let alen: int = if s[0] == TAG_V4 { 5 } else { 17 };
    assert(s.subrange(0, alen) =~= spec_encode_address(c.address));
}

} // verus!
