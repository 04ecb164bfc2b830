//! Syscall dispatch shim: the uniform pattern every exposed network
//! operation follows. Each pointer argument is fetched through the guest
//! memory view and decoded by the wire codec; the first failure is mapped
//! to its status code and returned at once, before the stack is invoked, so
//! a malformed request is never partially applied. Only then does the stack
//! perform the mutation, and its error, if any, is mapped in turn.
//!
//! The shim never panics on guest input: every outcome is a [`StatusCode`].

use vstd::prelude::*;
use crate::StatusCode;
use crate::memory::GuestMemory;
use crate::stack::{NetworkError, Route, RoutingTable, spec_add_route};
use crate::wire::{
    Address, Cidr, OptionalTimestamp, TAG_ABSENT, TAG_PRESENT, TAG_V4, TAG_V6, decode_address,
    decode_cidr, decode_optional_timestamp, spec_decode_address, spec_decode_cidr,
    spec_decode_optional_timestamp,
};

verus! {

/// Outcome of fetching and decoding a CIDR argument: the tag byte names the
/// structure's size, the whole structure must lie in bounds, and the codec
/// must accept it. A memory failure is reported before a decode failure for
/// the same argument, and an unrecognized leading tag as malformed input.
pub open spec fn spec_parse_cidr_arg(m: GuestMemory, ptr: u64) -> Result<Cidr, StatusCode> {
    if !m.in_bounds(ptr, 1) {
        Err(StatusCode::MemoryFault)
    } else {
        let tag = m@[ptr as int];
        if tag == TAG_V4 || tag == TAG_V6 {
            let total: int = if tag == TAG_V4 {
                6
            } else {
                18
            };
            if !m.in_bounds(ptr, total) {
                Err(StatusCode::MemoryFault)
            } else {
                match spec_decode_cidr(m@.subrange(ptr as int, ptr + total)) {
                    Ok(c) => Ok(c),
                    Err(_) => Err(StatusCode::InvalidInput),
                }
            }
        } else {
            Err(StatusCode::InvalidInput)
        }
    }
}

/// Outcome of fetching and decoding an address argument.
pub open spec fn spec_parse_address_arg(m: GuestMemory, ptr: u64) -> Result<Address, StatusCode> {
    if !m.in_bounds(ptr, 1) {
        Err(StatusCode::MemoryFault)
    } else {
        let tag = m@[ptr as int];
        if tag == TAG_V4 || tag == TAG_V6 {
            let total: int = if tag == TAG_V4 {
                5
            } else {
                17
            };
            if !m.in_bounds(ptr, total) {
                Err(StatusCode::MemoryFault)
            } else {
                match spec_decode_address(m@.subrange(ptr as int, ptr + total)) {
                    Ok(a) => Ok(a),
                    Err(_) => Err(StatusCode::InvalidInput),
                }
            }
        } else {
            Err(StatusCode::InvalidInput)
        }
    }
}

/// Outcome of fetching and decoding an optional-timestamp argument.
pub open spec fn spec_parse_timestamp_arg(m: GuestMemory, ptr: u64) -> Result<
    OptionalTimestamp,
    StatusCode,
> {
    if !m.in_bounds(ptr, 1) {
        Err(StatusCode::MemoryFault)
    } else {
        let tag = m@[ptr as int];
        if tag == TAG_ABSENT || tag == TAG_PRESENT {
            let total: int = if tag == TAG_ABSENT {
                1
            } else {
                9
            };
            if !m.in_bounds(ptr, total) {
                Err(StatusCode::MemoryFault)
            } else {
                match spec_decode_optional_timestamp(m@.subrange(ptr as int, ptr + total)) {
                    Ok(t) => Ok(t),
                    Err(_) => Err(StatusCode::InvalidInput),
                }
            }
        } else {
            Err(StatusCode::InvalidInput)
        }
    }
}

/// The four arguments of a route-add request, decoded in order; the first
/// failure decides the status of the whole request.
pub open spec fn spec_route_add_args(
    m: GuestMemory,
    cidr_ptr: u64,
    via_router_ptr: u64,
    preferred_until_ptr: u64,
    expires_at_ptr: u64,
) -> Result<(Cidr, Address, OptionalTimestamp, OptionalTimestamp), StatusCode> {
    match spec_parse_cidr_arg(m, cidr_ptr) {
        Err(e) => Err(e),
        Ok(c) => match spec_parse_address_arg(m, via_router_ptr) {
            Err(e) => Err(e),
            Ok(v) => match spec_parse_timestamp_arg(m, preferred_until_ptr) {
                Err(e) => Err(e),
                Ok(p) => match spec_parse_timestamp_arg(m, expires_at_ptr) {
                    Err(e) => Err(e),
                    Ok(x) => Ok((c, v, p, x)),
                },
            },
        },
    }
}

/// Fetches and decodes a guest CIDR argument.
fn read_cidr_arg(mem: &GuestMemory, ptr: u64) -> (r: Result<Cidr, StatusCode>)
    ensures
        r == spec_parse_cidr_arg(*mem, ptr),
{
    let tag_bytes = match mem.read_bytes(ptr, 1) {
        Ok(b) => b,
        Err(_) => {
            return Err(StatusCode::MemoryFault);
        },
    };
    let tag = tag_bytes[0];
    if tag == TAG_V4 || tag == TAG_V6 {
        let total: u64 = if tag == TAG_V4 {
            6
        } else {
            18
        };
        let bytes = match mem.read_bytes(ptr, total) {
            Ok(b) => b,
            Err(_) => {
                return Err(StatusCode::MemoryFault);
            },
        };
        match decode_cidr(bytes.as_slice()) {
            Ok(c) => Ok(c),
            Err(_) => Err(StatusCode::InvalidInput),
        }
    } else {
        Err(StatusCode::InvalidInput)
    }
}

/// Fetches and decodes a guest address argument.
fn read_address_arg(mem: &GuestMemory, ptr: u64) -> (r: Result<Address, StatusCode>)
    ensures
        r == spec_parse_address_arg(*mem, ptr),
{
    let tag_bytes = match mem.read_bytes(ptr, 1) {
        Ok(b) => b,
        Err(_) => {
            return Err(StatusCode::MemoryFault);
        },
    };
    let tag = tag_bytes[0];
    if tag == TAG_V4 || tag == TAG_V6 {
        let total: u64 = if tag == TAG_V4 {
            5
        } else {
            17
        };
        let bytes = match mem.read_bytes(ptr, total) {
            Ok(b) => b,
            Err(_) => {
                return Err(StatusCode::MemoryFault);
            },
        };
        match decode_address(bytes.as_slice()) {
            Ok(a) => Ok(a),
            Err(_) => Err(StatusCode::InvalidInput),
        }
    } else {
        Err(StatusCode::InvalidInput)
    }
}

/// Fetches and decodes a guest optional-timestamp argument.
fn read_timestamp_arg(mem: &GuestMemory, ptr: u64) -> (r: Result<OptionalTimestamp, StatusCode>)
    ensures
        r == spec_parse_timestamp_arg(*mem, ptr),
{
    let tag_bytes = match mem.read_bytes(ptr, 1) {
        Ok(b) => b,
        Err(_) => {
            return Err(StatusCode::MemoryFault);
        },
    };
    let tag = tag_bytes[0];
    if tag == TAG_ABSENT || tag == TAG_PRESENT {
        let total: u64 = if tag == TAG_ABSENT {
            1
        } else {
            9
        };
        let bytes = match mem.read_bytes(ptr, total) {
            Ok(b) => b,
            Err(_) => {
                return Err(StatusCode::MemoryFault);
            },
        };
        match decode_optional_timestamp(bytes.as_slice()) {
            Ok(t) => Ok(t),
            Err(_) => Err(StatusCode::InvalidInput),
        }
    } else {
        Err(StatusCode::InvalidInput)
    }
}

/// Adds a new route to the caller's routing table.
///
/// The four pointers name guest structures: the destination CIDR, the
/// next-hop router address, and the two optional timestamps. Every decode
/// or memory failure is reported through the returned status before any
/// state changes; once all four arguments decode, the add itself cannot
/// fail, since a decoded CIDR is always well-formed.
pub fn port_route_add(
    mem: &GuestMemory,
    table: &mut RoutingTable,
    cidr_ptr: u64,
    via_router_ptr: u64,
    preferred_until_ptr: u64,
    expires_at_ptr: u64,
) -> (r: StatusCode)
    requires
        old(table).wf(),
    ensures
        final(table).wf(),
        spec_route_add_args(*mem, cidr_ptr, via_router_ptr, preferred_until_ptr, expires_at_ptr)
            matches Err(code) ==> r == code && final(table)@ == old(table)@,
        spec_route_add_args(*mem, cidr_ptr, via_router_ptr, preferred_until_ptr, expires_at_ptr)
            matches Ok(args) ==> r == StatusCode::Success && final(table)@ == spec_add_route(
            old(table)@,
            Route {
                destination: args.0,
                via_router: args.1,
                preferred_until: args.2,
                expires_at: args.3,
            },
        ),
{
    let destination = match read_cidr_arg(mem, cidr_ptr) {
        Ok(c) => c,
        Err(code) => {
            return code;
        },
    };
    let via_router = match read_address_arg(mem, via_router_ptr) {
        Ok(a) => a,
        Err(code) => {
            return code;
        },
    };
    let preferred_until = match read_timestamp_arg(mem, preferred_until_ptr) {
        Ok(t) => t,
        Err(code) => {
            return code;
        },
    };
    let expires_at = match read_timestamp_arg(mem, expires_at_ptr) {
        Ok(t) => t,
        Err(code) => {
            return code;
        },
    };
    match table.route_add(destination, via_router, preferred_until, expires_at) {
        Ok(_) => StatusCode::Success,
        Err(NetworkError::InvalidRoute) => StatusCode::InvalidRoute,
        Err(NetworkError::NotFound) => StatusCode::NotFound,
        Err(NetworkError::AlreadyExists) => StatusCode::AlreadyExists,
    }
}

/// Law: a pointer argument lying past the end of the guest's current
/// memory can never let the request through. Whichever argument fails
/// first decides the code, so the memory-fault status itself is owed as
/// soon as every argument decoded before the out-of-bounds one is valid;
/// in every case the request is refused, and the shim's contract then
/// keeps the routing table unchanged.
pub proof fn lemma_oob_pointer_rejected(
    m: GuestMemory,
    cidr_ptr: u64,
    via_router_ptr: u64,
    preferred_until_ptr: u64,
    expires_at_ptr: u64,
)
    requires
        !m.in_bounds(cidr_ptr, 1) || !m.in_bounds(via_router_ptr, 1) || !m.in_bounds(
            preferred_until_ptr,
            1,
        ) || !m.in_bounds(expires_at_ptr, 1),
    ensures
        spec_route_add_args(m, cidr_ptr, via_router_ptr, preferred_until_ptr, expires_at_ptr)
            is Err,
        !m.in_bounds(cidr_ptr, 1) ==> spec_route_add_args(
            m,
            cidr_ptr,
            via_router_ptr,
            preferred_until_ptr,
            expires_at_ptr,
        ) == Err::<(Cidr, Address, OptionalTimestamp, OptionalTimestamp), StatusCode>(
            StatusCode::MemoryFault,
        ),
        spec_parse_cidr_arg(m, cidr_ptr) is Ok && !m.in_bounds(via_router_ptr, 1)
            ==> spec_route_add_args(
            m,
            cidr_ptr,
            via_router_ptr,
            preferred_until_ptr,
            expires_at_ptr,
        ) == Err::<(Cidr, Address, OptionalTimestamp, OptionalTimestamp), StatusCode>(
            StatusCode::MemoryFault,
        ),
        spec_parse_cidr_arg(m, cidr_ptr) is Ok && spec_parse_address_arg(m, via_router_ptr) is Ok
            && !m.in_bounds(preferred_until_ptr, 1) ==> spec_route_add_args(
            m,
            cidr_ptr,
            via_router_ptr,
            preferred_until_ptr,
            expires_at_ptr,
        ) == Err::<(Cidr, Address, OptionalTimestamp, OptionalTimestamp), StatusCode>(
            StatusCode::MemoryFault,
        ),
        spec_parse_cidr_arg(m, cidr_ptr) is Ok && spec_parse_address_arg(m, via_router_ptr) is Ok
            && spec_parse_timestamp_arg(m, preferred_until_ptr) is Ok && !m.in_bounds(
            expires_at_ptr,
            1,
        ) ==> spec_route_add_args(
            m,
            cidr_ptr,
            via_router_ptr,
            preferred_until_ptr,
            expires_at_ptr,
        ) == Err::<(Cidr, Address, OptionalTimestamp, OptionalTimestamp), StatusCode>(
            StatusCode::MemoryFault,
        ),
{
}

} // verus!
