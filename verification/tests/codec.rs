use wasix_net::wire::{
    decode_address, decode_cidr, decode_optional_timestamp, encode_address, encode_cidr,
    encode_optional_timestamp, Address, Cidr, DecodeError, OptionalTimestamp, TAG_ABSENT,
    TAG_PRESENT, TAG_V4, TAG_V6,
};

fn v4(bits: u32) -> Address {
    Address::V4 { bits }
}

#[test]
fn address_v4_round_trip() {
    let a = v4(0x0A00_0105);
    let bytes = encode_address(&a);
    assert_eq!(bytes.len(), 5);
    assert_eq!(decode_address(&bytes), Ok(a));
}

#[test]
fn address_v6_round_trip() {
    let a = Address::V6 { lo: 0x0123_4567_89AB_CDEF, hi: 0xFE80_0000_0000_0001 };
    let bytes = encode_address(&a);
    assert_eq!(bytes.len(), 17);
    assert_eq!(decode_address(&bytes), Ok(a));
}

#[test]
fn address_v4_exact_bytes() {
    // Little-endian payload behind the IPv4 tag.
    let a = v4(0x0403_0201);
    assert_eq!(encode_address(&a), vec![TAG_V4, 0x01, 0x02, 0x03, 0x04]);
    assert_eq!(decode_address(&[TAG_V4, 0x01, 0x02, 0x03, 0x04]), Ok(a));
}

#[test]
fn cidr_round_trip() {
    let c = Cidr { address: v4(0x0A00_0000), prefix_len: 8 };
    let bytes = encode_cidr(&c);
    assert_eq!(bytes.len(), 6);
    assert_eq!(decode_cidr(&bytes), Ok(c));

    let c6 = Cidr {
        address: Address::V6 { lo: 0, hi: 0xFE80_0000_0000_0000 },
        prefix_len: 128,
    };
    assert_eq!(decode_cidr(&encode_cidr(&c6)), Ok(c6));
}

#[test]
fn cidr_prefix_too_long_rejected() {
    // An IPv4 prefix length beyond 32 never decodes.
    let c = Cidr { address: v4(0x0A00_0000), prefix_len: 33 };
    assert_eq!(decode_cidr(&encode_cidr(&c)), Err(DecodeError::BadPrefix));

    // An IPv6 prefix length beyond 128 never decodes.
    let c6 = Cidr { address: Address::V6 { lo: 1, hi: 2 }, prefix_len: 129 };
    assert_eq!(decode_cidr(&encode_cidr(&c6)), Err(DecodeError::BadPrefix));

    // The family boundary itself is fine.
    let edge = Cidr { address: v4(0), prefix_len: 32 };
    assert_eq!(decode_cidr(&encode_cidr(&edge)), Ok(edge));
}

#[test]
fn unknown_tags_rejected() {
    assert_eq!(decode_address(&[9, 0, 0, 0, 0]), Err(DecodeError::BadTag));
    assert_eq!(decode_cidr(&[0xFF, 0, 0, 0, 0, 0]), Err(DecodeError::BadTag));
    assert_eq!(
        decode_optional_timestamp(&[2, 0, 0, 0, 0, 0, 0, 0, 0]),
        Err(DecodeError::BadTag)
    );
}

#[test]
fn wrong_lengths_rejected() {
    assert_eq!(decode_address(&[]), Err(DecodeError::WrongLength));
    assert_eq!(decode_address(&[TAG_V4, 1, 2, 3]), Err(DecodeError::WrongLength));
    assert_eq!(
        decode_address(&[TAG_V6, 0, 0, 0, 0]),
        Err(DecodeError::WrongLength)
    );
    assert_eq!(decode_cidr(&[TAG_V4, 1, 2, 3, 4]), Err(DecodeError::WrongLength));
    assert_eq!(decode_optional_timestamp(&[]), Err(DecodeError::WrongLength));
    assert_eq!(
        decode_optional_timestamp(&[TAG_ABSENT, 0]),
        Err(DecodeError::WrongLength)
    );
    assert_eq!(
        decode_optional_timestamp(&[TAG_PRESENT, 1, 2, 3]),
        Err(DecodeError::WrongLength)
    );
}

#[test]
fn optional_timestamp_round_trip() {
    let absent = OptionalTimestamp::Absent;
    assert_eq!(encode_optional_timestamp(&absent), vec![TAG_ABSENT]);
    assert_eq!(
        decode_optional_timestamp(&encode_optional_timestamp(&absent)),
        Ok(absent)
    );

    let present = OptionalTimestamp::Present { nanos: 1_700_000_000_000_000_000 };
    let bytes = encode_optional_timestamp(&present);
    assert_eq!(bytes.len(), 9);
    assert_eq!(bytes[0], TAG_PRESENT);
    assert_eq!(decode_optional_timestamp(&bytes), Ok(present));
}
