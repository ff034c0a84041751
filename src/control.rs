use vstd::prelude::*;

verus! {

/// Length in bytes of a volume-control datagram.
pub const CONTROL_FRAME_LEN: usize = 8;

/// The unsigned integer that eight bytes spell in little-endian order.
pub open spec fn le_u64(b: Seq<u8>) -> int {
    b[0] + 256 * (b[1] + 256 * (b[2] + 256 * (b[3] + 256 * (b[4] + 256 * (b[5] + 256 * (b[6]
        + 256 * b[7]))))))
}

/// The IEEE-754 double with bit pattern `bits` lies in `[0.0, 1.0]`. Positive
/// doubles order like their bit patterns, from `+0.0` (all zero) up to `1.0`
/// (`0x3FF0_0000_0000_0000`); `-0.0` compares equal to `0.0`. Every NaN and
/// every other pattern lies outside.
pub open spec fn f64_bits_in_unit(bits: u64) -> bool {
    bits <= 0x3FF0_0000_0000_0000 || bits == 0x8000_0000_0000_0000
}

/// What a control datagram asks for: the bit pattern of the requested volume
/// as a double, where the payload is exactly eight bytes and that double lies
/// in `[0.0, 1.0]`; nothing otherwise.
pub open spec fn control_request(payload: Seq<u8>) -> Option<u64> {
    if payload.len() == CONTROL_FRAME_LEN && f64_bits_in_unit(le_u64(payload) as u64) {
        Some(le_u64(payload) as u64)
    } else {
        None
    }
}

/// Reads eight bytes as a little-endian `u64`.
fn read_le_u64(b: &[u8]) -> (r: u64)
    requires
        b@.len() == CONTROL_FRAME_LEN,
    ensures
        r == le_u64(b@),
{
    let mut acc: u64 = b[7] as u64;
    assert(acc < 0x100);
    acc = acc * 256 + b[6] as u64;
    assert(acc < 0x1_0000);
    acc = acc * 256 + b[5] as u64;
    assert(acc < 0x100_0000);
    acc = acc * 256 + b[4] as u64;
    assert(acc < 0x1_0000_0000);
    acc = acc * 256 + b[3] as u64;
    assert(acc < 0x100_0000_0000);
    acc = acc * 256 + b[2] as u64;
    assert(acc < 0x1_0000_0000_0000);
    acc = acc * 256 + b[1] as u64;
    assert(acc < 0x100_0000_0000_0000);
    acc = acc * 256 + b[0] as u64;
    acc
}

/// Validates one received control datagram. A payload of any length but
/// eight is dropped, as is one whose little-endian double lies outside
/// `[0.0, 1.0]` or is NaN. An accepted one gives the double's bit pattern.
pub fn decode_control(payload: &[u8]) -> (r: Option<u64>)
    ensures
        r == control_request(payload@),
{
    if payload.len() != CONTROL_FRAME_LEN {
        return None;
    }
    let bits = read_le_u64(payload);
    if bits <= 0x3FF0_0000_0000_0000 || bits == 0x8000_0000_0000_0000 {
        Some(bits)
    } else {
        None
    }
}

} // verus!
