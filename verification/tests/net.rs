use wasix_net::iface::{Interface, InterfaceTable};
use wasix_net::memory::{GuestMemory, MemoryError, PtrWidth};
use wasix_net::shim::port_route_add;
use wasix_net::stack::{NetworkError, Route, RoutingTable};
use wasix_net::wire::{
    encode_address, encode_cidr, encode_optional_timestamp, Address, Cidr, OptionalTimestamp,
};
use wasix_net::StatusCode;

fn v4(bits: u32) -> Address {
    Address::V4 { bits }
}

fn cidr4(bits: u32, prefix_len: u8) -> Cidr {
    Cidr { address: v4(bits), prefix_len }
}

const NOW: u64 = 1_700_000_000_000_000_000;

#[test]
fn memory_bounds_checked() {
    let mem = GuestMemory::new(PtrWidth::W64, vec![1, 2, 3, 4, 5]);
    assert_eq!(mem.size(), 5);
    assert_eq!(mem.read_bytes(1, 3).unwrap(), vec![2, 3, 4]);
    assert_eq!(mem.read_bytes(0, 5).unwrap(), vec![1, 2, 3, 4, 5]);
    assert_eq!(mem.read_bytes(3, 3), Err(MemoryError::OutOfBounds));
    assert_eq!(mem.read_bytes(5, 1), Err(MemoryError::OutOfBounds));
    assert_eq!(mem.read_bytes(u64::MAX, 2), Err(MemoryError::OutOfBounds));
    assert_eq!(mem.read_bytes(5, 0).unwrap(), Vec::<u8>::new());
}

#[test]
fn memory_write_then_read() {
    let mut mem = GuestMemory::new(PtrWidth::W32, vec![0; 8]);
    assert_eq!(mem.write_bytes(2, &[9, 8, 7]), Ok(()));
    assert_eq!(mem.read_bytes(0, 8).unwrap(), vec![0, 0, 9, 8, 7, 0, 0, 0]);
    assert_eq!(mem.write_bytes(6, &[1, 2, 3]), Err(MemoryError::OutOfBounds));
    // The failed write left the contents alone.
    assert_eq!(mem.read_bytes(0, 8).unwrap(), vec![0, 0, 9, 8, 7, 0, 0, 0]);
}

#[test]
fn longest_prefix_wins() {
    // Add 10.0.0.0/8 via 10.0.0.1, then 10.0.1.0/24 via 10.0.1.1.
    let mut table = RoutingTable::new();
    table
        .route_add(
            cidr4(0x0A00_0000, 8),
            v4(0x0A00_0001),
            OptionalTimestamp::Absent,
            OptionalTimestamp::Absent,
        )
        .unwrap();
    table
        .route_add(
            cidr4(0x0A00_0100, 24),
            v4(0x0A00_0101),
            OptionalTimestamp::Absent,
            OptionalTimestamp::Absent,
        )
        .unwrap();

    // 10.0.1.5 is inside both; the /24 must win.
    let hit = table.route_resolve(&v4(0x0A00_0105), NOW).unwrap();
    assert_eq!(hit.destination, cidr4(0x0A00_0100, 24));
    assert_eq!(hit.via_router, v4(0x0A00_0101));

    // 10.1.1.1 is only inside the /8.
    let hit = table.route_resolve(&v4(0x0A01_0101), NOW).unwrap();
    assert_eq!(hit.destination, cidr4(0x0A00_0000, 8));
    assert_eq!(hit.via_router, v4(0x0A00_0001));

    // 11.0.0.1 is covered by nothing.
    assert_eq!(table.route_resolve(&v4(0x0B00_0001), NOW), None);
}

#[test]
fn equal_prefix_first_inserted_wins() {
    // 10.0.0.0/8 and 10.2.0.0/8 both cover 10.1.1.1; the first stays ahead.
    let mut table = RoutingTable::new();
    table
        .route_add(
            cidr4(0x0A00_0000, 8),
            v4(0x0A00_0001),
            OptionalTimestamp::Absent,
            OptionalTimestamp::Absent,
        )
        .unwrap();
    table
        .route_add(
            cidr4(0x0A02_0000, 8),
            v4(0x0A02_0001),
            OptionalTimestamp::Absent,
            OptionalTimestamp::Absent,
        )
        .unwrap();
    let hit = table.route_resolve(&v4(0x0A01_0101), NOW).unwrap();
    assert_eq!(hit.via_router, v4(0x0A00_0001));
}

#[test]
fn replace_keeps_position() {
    let mut table = RoutingTable::new();
    table
        .route_add(
            cidr4(0x0A00_0000, 8),
            v4(0x0A00_0001),
            OptionalTimestamp::Absent,
            OptionalTimestamp::Absent,
        )
        .unwrap();
    table
        .route_add(
            cidr4(0x1400_0000, 8),
            v4(0x1400_0001),
            OptionalTimestamp::Absent,
            OptionalTimestamp::Absent,
        )
        .unwrap();
    // Re-adding the first destination replaces it in place.
    table
        .route_add(
            cidr4(0x0A00_0000, 8),
            v4(0x0A00_00FF),
            OptionalTimestamp::Absent,
            OptionalTimestamp::Absent,
        )
        .unwrap();
    assert_eq!(table.route_count(), 2);
    assert_eq!(table.route_at(0).via_router, v4(0x0A00_00FF));
    assert_eq!(table.route_at(1).via_router, v4(0x1400_0001));
}

#[test]
fn invalid_route_rejected() {
    let mut table = RoutingTable::new();
    let r = table.route_add(
        cidr4(0x0A00_0000, 40),
        v4(0x0A00_0001),
        OptionalTimestamp::Absent,
        OptionalTimestamp::Absent,
    );
    assert_eq!(r, Err(NetworkError::InvalidRoute));
    assert_eq!(table.route_count(), 0);
}

#[test]
fn remove_missing_leaves_table_unchanged() {
    let mut table = RoutingTable::new();
    table
        .route_add(
            cidr4(0x0A00_0000, 8),
            v4(0x0A00_0001),
            OptionalTimestamp::Absent,
            OptionalTimestamp::Absent,
        )
        .unwrap();
    assert_eq!(
        table.route_remove(cidr4(0x0B00_0000, 8)),
        Err(NetworkError::NotFound)
    );
    assert_eq!(table.route_count(), 1);
    assert_eq!(table.route_at(0).destination, cidr4(0x0A00_0000, 8));

    assert_eq!(table.route_remove(cidr4(0x0A00_0000, 8)), Ok(()));
    assert_eq!(table.route_count(), 0);
}

#[test]
fn expired_route_skipped_until_swept() {
    // A route whose expiry already elapsed may still be added; resolution
    // skips it, raw enumeration lists it, and a sweep removes it.
    let mut table = RoutingTable::new();
    table
        .route_add(
            cidr4(0x0A00_0000, 8),
            v4(0x0A00_0001),
            OptionalTimestamp::Absent,
            OptionalTimestamp::Present { nanos: NOW - 1_000_000_000 },
        )
        .unwrap();
    assert_eq!(table.route_resolve(&v4(0x0A01_0101), NOW), None);
    assert_eq!(table.route_count(), 1);
    table.sweep(NOW);
    assert_eq!(table.route_count(), 0);
    // The sweep changed nothing about resolution.
    assert_eq!(table.route_resolve(&v4(0x0A01_0101), NOW), None);
}

#[test]
fn expiry_is_lazy_and_exact() {
    let mut table = RoutingTable::new();
    table
        .route_add(
            cidr4(0x0A00_0000, 8),
            v4(0x0A00_0001),
            OptionalTimestamp::Absent,
            OptionalTimestamp::Present { nanos: NOW },
        )
        .unwrap();
    // Strictly before the threshold the route still resolves...
    assert!(table.route_resolve(&v4(0x0A01_0101), NOW - 1).is_some());
    // ...and from the threshold on it does not, though a sweep at an
    // earlier time leaves it in place.
    assert_eq!(table.route_resolve(&v4(0x0A01_0101), NOW), None);
    table.sweep(NOW - 1);
    assert_eq!(table.route_count(), 1);
    table.sweep(NOW);
    assert_eq!(table.route_count(), 0);
}

#[test]
fn staleness_tracks_preference_threshold() {
    let r = Route {
        destination: cidr4(0x0A00_0000, 8),
        via_router: v4(0x0A00_0001),
        preferred_until: OptionalTimestamp::Present { nanos: NOW },
        expires_at: OptionalTimestamp::Absent,
    };
    assert!(!r.is_stale(NOW - 1));
    assert!(r.is_stale(NOW));
    assert!(!r.is_expired(NOW + 1));
}

#[test]
fn interface_names_are_unique_keys() {
    let mut ifaces = InterfaceTable::new();
    assert_eq!(ifaces.iface_count(), 0);
    ifaces
        .iface_add(Interface {
            name: "eth0".to_string(),
            addresses: vec![cidr4(0x0A00_0001, 32)],
        })
        .unwrap();
    ifaces
        .iface_add(Interface { name: "lo".to_string(), addresses: vec![cidr4(0x7F00_0001, 8)] })
        .unwrap();
    // A taken name is rejected, not replaced.
    let r = ifaces.iface_add(Interface { name: "eth0".to_string(), addresses: vec![] });
    assert_eq!(r, Err(NetworkError::AlreadyExists));
    assert_eq!(ifaces.iface_count(), 2);
    assert_eq!(ifaces.iface_at(0).name, "eth0");
    assert_eq!(ifaces.iface_at(0).addresses, vec![cidr4(0x0A00_0001, 32)]);

    // Removing an unknown name changes nothing.
    assert_eq!(
        ifaces.iface_remove(&"wlan0".to_string()),
        Err(NetworkError::NotFound)
    );
    assert_eq!(ifaces.iface_count(), 2);
    assert_eq!(ifaces.iface_remove(&"eth0".to_string()), Ok(()));
    assert_eq!(ifaces.iface_count(), 1);
    assert_eq!(ifaces.iface_at(0).name, "lo");
}

/// Lays the four route-add argument structures out in one guest memory and
/// returns the memory and the four pointers.
fn route_add_request(
    destination: Cidr,
    via_router: Address,
    preferred_until: OptionalTimestamp,
    expires_at: OptionalTimestamp,
) -> (GuestMemory, u64, u64, u64, u64) {
    let mut bytes = Vec::new();
    let cidr_ptr = bytes.len() as u64;
    bytes.extend_from_slice(&encode_cidr(&destination));
    let via_ptr = bytes.len() as u64;
    bytes.extend_from_slice(&encode_address(&via_router));
    let pref_ptr = bytes.len() as u64;
    bytes.extend_from_slice(&encode_optional_timestamp(&preferred_until));
    let exp_ptr = bytes.len() as u64;
    bytes.extend_from_slice(&encode_optional_timestamp(&expires_at));
    (
        GuestMemory::new(PtrWidth::W32, bytes),
        cidr_ptr,
        via_ptr,
        pref_ptr,
        exp_ptr,
    )
}

#[test]
fn port_route_add_success() {
    let (mem, cidr_ptr, via_ptr, pref_ptr, exp_ptr) = route_add_request(
        cidr4(0x0A00_0100, 24),
        v4(0x0A00_0101),
        OptionalTimestamp::Absent,
        OptionalTimestamp::Present { nanos: NOW + 5 },
    );
    let mut table = RoutingTable::new();
    let code = port_route_add(&mem, &mut table, cidr_ptr, via_ptr, pref_ptr, exp_ptr);
    assert_eq!(code, StatusCode::Success);
    assert_eq!(table.route_count(), 1);
    let rt = table.route_at(0);
    assert_eq!(rt.destination, cidr4(0x0A00_0100, 24));
    assert_eq!(rt.via_router, v4(0x0A00_0101));
    assert_eq!(rt.preferred_until, OptionalTimestamp::Absent);
    assert_eq!(rt.expires_at, OptionalTimestamp::Present { nanos: NOW + 5 });
}

#[test]
fn port_route_add_oob_pointer_changes_nothing() {
    let (mem, cidr_ptr, via_ptr, pref_ptr, _) = route_add_request(
        cidr4(0x0A00_0100, 24),
        v4(0x0A00_0101),
        OptionalTimestamp::Absent,
        OptionalTimestamp::Absent,
    );
    let past_end = mem.size() as u64;
    let mut table = RoutingTable::new();

    // Each argument in turn pointing past the end of the guest memory.
    let code = port_route_add(&mem, &mut table, past_end, via_ptr, pref_ptr, pref_ptr);
    assert_eq!(code, StatusCode::MemoryFault);
    let code = port_route_add(&mem, &mut table, cidr_ptr, past_end, pref_ptr, pref_ptr);
    assert_eq!(code, StatusCode::MemoryFault);
    let code = port_route_add(&mem, &mut table, cidr_ptr, via_ptr, past_end, pref_ptr);
    assert_eq!(code, StatusCode::MemoryFault);
    let code = port_route_add(&mem, &mut table, cidr_ptr, via_ptr, pref_ptr, past_end);
    assert_eq!(code, StatusCode::MemoryFault);
    assert_eq!(table.route_count(), 0);

    // A structure that starts in bounds but runs past the end fails the
    // same way: an IPv4 CIDR needs 6 bytes and only 3 are there.
    let short = GuestMemory::new(PtrWidth::W32, encode_cidr(&cidr4(1, 8))[..3].to_vec());
    let code = port_route_add(&short, &mut table, 0, 0, 0, 0);
    assert_eq!(code, StatusCode::MemoryFault);
    assert_eq!(table.route_count(), 0);
}

#[test]
fn port_route_add_malformed_input() {
    let (mem, cidr_ptr, via_ptr, pref_ptr, exp_ptr) = route_add_request(
        cidr4(0x0A00_0100, 24),
        v4(0x0A00_0101),
        OptionalTimestamp::Absent,
        OptionalTimestamp::Absent,
    );
    let mut table = RoutingTable::new();

    // An unrecognized timestamp tag is invalid input, as is a timestamp
    // pointer aimed at bytes that do not form a timestamp.
    let code = port_route_add(&mem, &mut table, cidr_ptr, via_ptr, cidr_ptr, exp_ptr);
    assert_eq!(code, StatusCode::InvalidInput);
    assert_eq!(table.route_count(), 0);

    // A CIDR pointer aimed at a timestamp structure has a bad leading tag.
    let code = port_route_add(&mem, &mut table, pref_ptr, via_ptr, pref_ptr, exp_ptr);
    assert_ne!(code, StatusCode::Success);
    assert_eq!(table.route_count(), 0);
}

#[test]
fn port_route_add_prefix_too_long() {
    // prefix_len 40 on an IPv4 destination: decodes as BadPrefix, mapped
    // to the invalid-input status before the stack is ever invoked.
    let mut bytes = encode_cidr(&cidr4(0x0A00_0000, 8));
    bytes[5] = 40;
    let cidr_ptr = 0u64;
    let via_ptr = bytes.len() as u64;
    bytes.extend_from_slice(&encode_address(&v4(0x0A00_0001)));
    let ts_ptr = bytes.len() as u64;
    bytes.extend_from_slice(&encode_optional_timestamp(&OptionalTimestamp::Absent));
    let mem = GuestMemory::new(PtrWidth::W64, bytes);
    let mut table = RoutingTable::new();
    let code = port_route_add(&mem, &mut table, cidr_ptr, via_ptr, ts_ptr, ts_ptr);
    assert_eq!(code, StatusCode::InvalidInput);
    assert_eq!(table.route_count(), 0);
}

#[test]
fn ipv6_resolution() {
    let dest = Cidr {
        address: Address::V6 { lo: 0, hi: 0xFE80_0000_0000_0000 },
        prefix_len: 10,
    };
    let mut table = RoutingTable::new();
    table
        .route_add(
            dest,
            Address::V6 { lo: 1, hi: 0xFE80_0000_0000_0000 },
            OptionalTimestamp::Absent,
            OptionalTimestamp::Absent,
        )
        .unwrap();
    // fe80::/10 covers fe80::42 and febf:...; it does not cover fec0::.
    let inside = Address::V6 { lo: 0x42, hi: 0xFE80_0000_0000_0000 };
    let inside2 = Address::V6 { lo: 7, hi: 0xFEBF_FFFF_FFFF_FFFF };
    let outside = Address::V6 { lo: 0, hi: 0xFEC0_0000_0000_0000 };
    assert!(table.route_resolve(&inside, NOW).is_some());
    assert!(table.route_resolve(&inside2, NOW).is_some());
    assert_eq!(table.route_resolve(&outside, NOW), None);
    // A prefix longer than 64 bits reaches into the low half.
    let deep = Cidr {
        address: Address::V6 { lo: 0xAB00, hi: 0xFE80_0000_0000_0000 },
        prefix_len: 120,
    };
    table
        .route_add(
            deep,
            Address::V6 { lo: 2, hi: 0xFE80_0000_0000_0000 },
            OptionalTimestamp::Absent,
            OptionalTimestamp::Absent,
        )
        .unwrap();
    let in_deep = Address::V6 { lo: 0xAB7F, hi: 0xFE80_0000_0000_0000 };
    let hit = table.route_resolve(&in_deep, NOW).unwrap();
    assert_eq!(hit.destination, deep);
}
