use vstd::prelude::*;
use crate::geometry::Point;

verus! {

/// The message identifier of a pointer-movement event.
pub const MOUSE_MOVE_MESSAGE: u32 = 0x0200;

/// Bytes of a low-level mouse hook payload that the decoder reads: the
/// screen point, the wheel/button data, the flags and the timestamp.
pub const HOOK_PAYLOAD_LEN: usize = 20;

/// The fields of a low-level mouse hook payload.
#[derive(Clone, Copy, Debug, PartialEq, Eq, Structural)]
pub struct MouseHookEvent {
    pub point: Point,
    pub mouse_data: u32,
    pub flags: u32,
    pub time: u32,
}

/// Whether a hook invocation is a pointer move that the engine forwards:
/// a negative code belongs to the hook chain alone, and any other message
/// passes through untouched.
pub open spec fn spec_is_forwardable(code: i32, message: u32) -> bool {
    code >= 0 && message == MOUSE_MOVE_MESSAGE
}

/// Whether the hook callback forwards this invocation.
pub fn is_forwardable(code: i32, message: u32) -> (r: bool)
    ensures
        r == spec_is_forwardable(code, message),
{
    code >= 0 && message == MOUSE_MOVE_MESSAGE
}

/// The little-endian unsigned value of the four bytes of `b` from `at`.
pub open spec fn le_u32_at(b: Seq<u8>, at: int) -> int {
    b[at] as int + 256 * b[at + 1] as int + 65536 * b[at + 2] as int + 16777216 * b[at + 3] as int
}

/// The two's-complement value of a 32-bit word.
pub open spec fn signed_of(u: int) -> int {
    if u < 0x8000_0000 {
        u
    } else {
        u - 0x1_0000_0000
    }
}

/// What a payload decodes to, when it holds all the fields read.
pub open spec fn spec_decode(b: Seq<u8>) -> Option<MouseHookEvent> {
    if b.len() < HOOK_PAYLOAD_LEN {
        None
    } else {
        Some(MouseHookEvent {
            point: Point { x: signed_of(le_u32_at(b, 0)) as i32, y: signed_of(le_u32_at(b, 4)) as i32 },
            mouse_data: le_u32_at(b, 8) as u32,
            flags: le_u32_at(b, 12) as u32,
            time: le_u32_at(b, 16) as u32,
        })
    }
}

fn read_u32_le(b: &[u8], at: usize) -> (r: u32)
    requires
        at + 4 <= b@.len(),
    ensures
        r as int == le_u32_at(b@, at as int),
{
    let b0: u32 = b[at] as u32;
    let b1: u32 = b[at + 1] as u32;
    let b2: u32 = b[at + 2] as u32;
    let b3: u32 = b[at + 3] as u32;
    b0 + 256 * b1 + 65536 * b2 + 16777216 * b3
}

fn read_i32_le(b: &[u8], at: usize) -> (r: i32)
    requires
        at + 4 <= b@.len(),
    ensures
        r as int == signed_of(le_u32_at(b@, at as int)),
{
    let u: u32 = read_u32_le(b, at);
    if u < 0x8000_0000 {
        u as i32
    } else {
        let low: u32 = u - 0x8000_0000;
        (low as i32) - 0x7fff_ffff - 1
    }
}

/// Decodes a low-level mouse hook payload, little-endian, without trusting
/// its length: a payload shorter than the fields read gives `None`.
pub fn decode_hook_event(bytes: &[u8]) -> (r: Option<MouseHookEvent>)
    ensures
        r == spec_decode(bytes@),
{
    if bytes.len() < HOOK_PAYLOAD_LEN {
        return None;
    }
    let x: i32 = read_i32_le(bytes, 0);
    let y: i32 = read_i32_le(bytes, 4);
    let mouse_data: u32 = read_u32_le(bytes, 8);
    let flags: u32 = read_u32_le(bytes, 12);
    let time: u32 = read_u32_le(bytes, 16);
    Some(MouseHookEvent { point: Point { x, y }, mouse_data, flags, time })
}

} // verus!
