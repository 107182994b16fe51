//! Desk positions: decoding the position characteristic and encoding targets.
use vstd::prelude::*;

verus! {

/// Height of the frame at raw position 0 (630 mm), in tenths of a millimetre.
pub const BASE_HEIGHT: u32 = 6300;

/// Lowest target height accepted for a move (63 cm).
pub const MIN_HEIGHT: u32 = 6300;

/// Highest target height accepted for a move (128 cm).
pub const MAX_HEIGHT: u32 = 12800;

/// Little-endian value of two bytes as an unsigned 16-bit number.
pub open spec fn le_u16(lo: u8, hi: u8) -> int {
    lo + 256 * hi
}

/// Little-endian value of two bytes read as a two's complement 16-bit number.
pub open spec fn le_i16(lo: u8, hi: u8) -> int {
    let u = le_u16(lo, hi);
    if u >= 32768 { u - 65536 } else { u }
}

/// One reading of the position characteristic.
#[derive(Debug, Clone, Copy, PartialEq, Eq, Structural)]
pub struct Height {
    /// Position above the lowest point, in tenths of a millimetre.
    pub raw: u16,
    /// Signed speed while moving, 0 when the desk stands still.
    pub speed: i16,
}

impl Height {
    /// Absolute height in tenths of a millimetre: 630 mm plus `raw / 10` mm.
    pub open spec fn spec_height(self) -> int {
        BASE_HEIGHT + self.raw
    }

    /// Absolute height in tenths of a millimetre.
    pub fn height(&self) -> (h: u32)
        ensures
            h == self.spec_height(),
    {
        BASE_HEIGHT + self.raw as u32
    }
}

/// Why a position notification could not be decoded.
#[derive(Debug, Clone, Copy, PartialEq, Eq, Structural)]
pub enum PositionError {
    /// Fewer than the four bytes of position and speed.
    TooShort,
}

/// Decodes the position characteristic: `u16` LE raw position, then `i16` LE speed.
/// Bytes after the fourth are ignored.
pub fn parse_height(data: &[u8]) -> (r: Result<Height, PositionError>)
    ensures
        data@.len() < 4 <==> r is Err,
        r matches Ok(h) ==> h.raw == le_u16(data@[0], data@[1]) && h.speed == le_i16(
            data@[2],
            data@[3],
        ),
{
    if data.len() < 4 {
        return Err(PositionError::TooShort);
    }
    let raw: u16 = data[0] as u16 + 256 * (data[1] as u16);
    let u: u16 = data[2] as u16 + 256 * (data[3] as u16);
    let speed: i16 = if u >= 32768 {
        (u as i32 - 65536) as i16
    } else {
        u as i16
    };
    Ok(Height { raw, speed })
}

/// `h` limited to the range of heights a move may target.
pub open spec fn clamp_height(h: int) -> int {
    if h < MIN_HEIGHT {
        MIN_HEIGHT as int
    } else if h > MAX_HEIGHT {
        MAX_HEIGHT as int
    } else {
        h
    }
}

/// Raw reference value for a target height: the height is first limited to
/// `MIN_HEIGHT..=MAX_HEIGHT`, then taken relative to the base height.
pub open spec fn spec_target_raw(h: int) -> int {
    clamp_height(h) - BASE_HEIGHT
}

/// Raw reference value the firmware is given to move towards height `h`.
pub fn target_raw(h: i64) -> (raw: u16)
    ensures
        raw == spec_target_raw(h as int),
        raw <= MAX_HEIGHT - BASE_HEIGHT,
{
    let c: u32 = if h < MIN_HEIGHT as i64 {
        MIN_HEIGHT
    } else if h > MAX_HEIGHT as i64 {
        MAX_HEIGHT
    } else {
        h as u32
    };
    (c - BASE_HEIGHT) as u16
}

/// Law: moving to the height just read targets exactly the raw position read,
/// for every position within the accepted range.
pub proof fn law_target_of_reading(h: Height)
    requires
        h.raw <= MAX_HEIGHT - BASE_HEIGHT,
    ensures
        spec_target_raw(h.spec_height()) == h.raw,
{
}

/// Law: every target lies within the accepted range.
pub proof fn law_target_in_range(h: int)
    ensures
        0 <= spec_target_raw(h) <= MAX_HEIGHT - BASE_HEIGHT,
        MIN_HEIGHT <= spec_target_raw(h) + BASE_HEIGHT <= MAX_HEIGHT,
{
}

/// Whether a height known by its floor `lo` and ceiling `hi` (whole tenths of
/// a millimetre around it) lies within the accepted range: a height is at least
/// `MIN_HEIGHT` exactly when its floor is, and at most `MAX_HEIGHT` exactly when
/// its ceiling is.
pub fn bounds_in_target_range(lo: i64, hi: i64) -> (b: bool)
    ensures
        b == (MIN_HEIGHT <= lo && hi <= MAX_HEIGHT),
{
    MIN_HEIGHT as i64 <= lo && hi <= MAX_HEIGHT as i64
}

/// Little-endian bytes of a 16-bit value, as written to the control and
/// reference characteristics.
pub fn le_bytes(v: u16) -> (b: [u8; 2])
    ensures
        le_u16(b@[0], b@[1]) == v,
{
    [(v % 256) as u8, (v / 256) as u8]
}

} // verus!
