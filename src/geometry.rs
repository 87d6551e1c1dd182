use vstd::prelude::*;

verus! {

/// A point with integer coordinates, in screen or client space.
#[derive(Clone, Copy, Debug, PartialEq, Eq, Structural)]
pub struct Point {
    pub x: i32,
    pub y: i32,
}

/// An axis-aligned rectangle: left and top inclusive, right and bottom exclusive.
#[derive(Clone, Copy, Debug, PartialEq, Eq, Structural)]
pub struct ClientRect {
    pub left: i32,
    pub top: i32,
    pub right: i32,
    pub bottom: i32,
}

impl ClientRect {
    /// Whether `p` lies inside the rectangle.
    pub open spec fn spec_contains(self, p: Point) -> bool {
        self.left <= p.x < self.right && self.top <= p.y < self.bottom
    }

    /// Hit test of a client-space point. A rectangle of zero or negative
    /// extent contains no point.
    pub fn contains(&self, p: Point) -> (r: bool)
        ensures
            r == self.spec_contains(p),
    {
        self.left <= p.x && p.x < self.right && self.top <= p.y && p.y < self.bottom
    }
}

/// The low 16 bits of a coordinate, as a two's-complement word.
pub open spec fn word16(v: i32) -> u32 {
    (#[verifier::truncate] (v as u32)) & 0xffff
}

/// The move-message payload for a client point: `x` in the low word, `y` in
/// the high word, each truncated to 16 bits.
pub open spec fn packed_coords(x: i32, y: i32) -> u32 {
    word16(x) | (word16(y) << 16)
}

/// Packs a client point into a move-message payload.
pub fn pack_coords(x: i32, y: i32) -> (r: u32)
    ensures
        r == packed_coords(x, y),
        r & 0xffff == word16(x),
        r >> 16 == word16(y),
        r as int == word16(x) as int + 65536 * word16(y) as int,
{
    let xw: u32 = #[verifier::truncate] (x as u32);
    let yw: u32 = #[verifier::truncate] (y as u32);
    let lo: u32 = xw & 0xffff;
    let hi: u32 = yw & 0xffff;
    assert(lo <= 0xffff && hi <= 0xffff) by (bit_vector)
        requires
            lo == xw & 0xffff,
            hi == yw & 0xffff,
    ;
    let r: u32 = lo | (hi << 16);
    assert(r & 0xffff == lo && r >> 16 == hi) by (bit_vector)
        requires
            lo <= 0xffff,
            hi <= 0xffff,
            r == lo | (hi << 16),
    ;
    assert(r == lo + 65536 * hi) by (bit_vector)
        requires
            lo <= 0xffff,
            hi <= 0xffff,
            r == lo | (hi << 16),
    ;
    r
}

} // verus!
