//! The decision rule of the STUN binding exchange.
//!
//! The exchange itself is socket I/O against public servers; what this core
//! owns is the verdict over one response: the transaction id must echo the
//! request's, and the mapped address is taken from the XOR-obfuscated
//! attribute when present, from the plain one otherwise.

use vstd::prelude::*;

use crate::node::NetAddr;
use crate::util::bytes_eq;

verus! {

/// Judge one STUN binding response, given as plain values: the transaction
/// ids of request and response, and the two mapped-address attributes the
/// response may carry. A response with a foreign transaction id or no mapped
/// address yields nothing; otherwise the XOR-obfuscated address wins over
/// the plain one.
pub fn select_mapped_address(
    request_tid: &Vec<u8>,
    response_tid: &Vec<u8>,
    xor_mapped: Option<NetAddr>,
    mapped: Option<NetAddr>,
) -> (r: Option<NetAddr>)
    ensures
        r == if request_tid@ != response_tid@ {
            None::<NetAddr>
        } else if xor_mapped is Some {
            xor_mapped
        } else {
            mapped
        },
{
    if !bytes_eq(request_tid, response_tid) {
        return None;
    }
    match xor_mapped {
        Some(a) => Some(a),
        None => mapped,
    }
}

} // verus!
