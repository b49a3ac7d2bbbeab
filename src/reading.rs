use vstd::prelude::*;

verus! {

/// The byte that opens every command frame: the start bit and the
/// single-ended input mode of the converter.
pub const CONTROL_BYTE: u8 = 0x06;

/// The largest conversion result that the 12-bit field of a reply holds.
pub const CODE_MAX: u16 = 4095;

/// The conversion result carried by a reply: the low nibble of byte 1 gives
/// the four high bits, byte 2 the eight low bits.
pub open spec fn reply_code(reply: Seq<u8>) -> int
    recommends
        reply.len() == 3,
{
    (reply[1] as int % 16) * 256 + reply[2] as int
}

/// A moment in local civil time: nanoseconds since the Unix epoch, and the
/// offset of the local zone from UTC in seconds.
#[derive(Clone, Copy, Debug, PartialEq, Eq, Structural)]
pub struct LocalTime {
    pub unix_nanos: i64,
    pub offset_seconds: i32,
}

/// One sample: the conversion result of one completed exchange and the
/// moment that exchange completed.
#[derive(Clone, Copy, Debug, PartialEq, Eq, Structural)]
pub struct Reading {
    pub code: u16,
    pub taken_at: LocalTime,
}

/// The frame sent on every exchange: the control byte and two bytes that
/// the converter ignores.
pub fn command_frame() -> (r: [u8; 3])
    ensures
        r@ == seq![CONTROL_BYTE, 0u8, 0u8],
{
    [CONTROL_BYTE, 0, 0]
}

/// Extracts the 12-bit conversion result from a 3-byte reply.
pub fn decode_code(reply: &[u8; 3]) -> (r: u16)
    ensures
        r == (((reply@[1] & 0x0F) as u16) << 8u16) | (reply@[2] as u16),
        r as int == reply_code(reply@),
        r <= CODE_MAX,
{
    let hi: u8 = reply[1];
    let lo: u8 = reply[2];
    let r: u16 = (((hi & 0x0F) as u16) << 8u16) | (lo as u16);
    assert(r as int == (hi as int % 16) * 256 + lo as int && r <= 4095) by (bit_vector)
        requires
            r == (((hi & 0x0F) as u16) << 8u16) | (lo as u16),
    ;
    r
}

/// Turns the reply of an exchange that completed at `taken_at` into a reading.
pub fn decode(reply: &[u8; 3], taken_at: LocalTime) -> (r: Reading)
    ensures
        r.code as int == reply_code(reply@),
        r.taken_at == taken_at,
{
    Reading { code: decode_code(reply), taken_at }
}

} // verus!
