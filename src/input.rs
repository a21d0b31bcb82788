//! The per-tick input record and how local controls are packed into it.
use vstd::prelude::*;
use crate::geom::Vec2;

verus! {

/// Button bit: move up.
pub const INPUT_UP: u8 = 1;
/// Button bit: move down.
pub const INPUT_DOWN: u8 = 2;
/// Button bit: move left.
pub const INPUT_LEFT: u8 = 4;
/// Button bit: move right.
pub const INPUT_RIGHT: u8 = 8;
/// Button bit: the grab (primary pointer) button is held.
pub const INPUT_MOUSE_LEFT: u8 = 16;

/// One player's input for one frame: the pointer position in world units and
/// a button bitmask.
#[derive(Clone, Copy, Debug, PartialEq, Eq, Structural, Hash)]
pub struct GaffInput {
    pub mouse_pos: Vec2,
    pub buttons: u8,
}

/// Whether the bit `flag` is set in `buttons`.
pub open spec fn has_flag(buttons: u8, flag: u8) -> bool {
    buttons & flag != 0
}

/// The bitmask for the given button states.
pub open spec fn button_mask(up: bool, down: bool, left: bool, right: bool, grab: bool) -> u8 {
    ((if up { INPUT_UP } else { 0u8 }) | (if down { INPUT_DOWN } else { 0u8 }) | (if left {
        INPUT_LEFT
    } else {
        0u8
    }) | (if right { INPUT_RIGHT } else { 0u8 }) | (if grab { INPUT_MOUSE_LEFT } else { 0u8 }))
}

pub fn is_set(buttons: u8, flag: u8) -> (r: bool)
    ensures
        r == has_flag(buttons, flag),
{
    buttons & flag != 0
}

impl GaffInput {
    /// Whether the grab button is held in this record.
    pub open spec fn grab_held(&self) -> bool {
        has_flag(self.buttons, INPUT_MOUSE_LEFT)
    }

    pub fn is_grabbing(&self) -> (r: bool)
        ensures
            r == self.grab_held(),
    {
        is_set(self.buttons, INPUT_MOUSE_LEFT)
    }
}

/// Packs the local controls into a record. The pointer position is the
/// cursor's world position, or the origin when the cursor is not over the
/// view.
pub fn input(
    up: bool,
    down: bool,
    left: bool,
    right: bool,
    grab: bool,
    cursor: Option<Vec2>,
) -> (r: GaffInput)
    ensures
        r.buttons == button_mask(up, down, left, right, grab),
        r.mouse_pos == (match cursor {
            Some(p) => p,
            None => Vec2 { x: 0, y: 0 },
        }),
        has_flag(r.buttons, INPUT_UP) == up,
        has_flag(r.buttons, INPUT_DOWN) == down,
        has_flag(r.buttons, INPUT_LEFT) == left,
        has_flag(r.buttons, INPUT_RIGHT) == right,
        has_flag(r.buttons, INPUT_MOUSE_LEFT) == grab,
{
    let a: u8 = if up { INPUT_UP } else { 0u8 };
    let b: u8 = if down { INPUT_DOWN } else { 0u8 };
    let c: u8 = if left { INPUT_LEFT } else { 0u8 };
    let d: u8 = if right { INPUT_RIGHT } else { 0u8 };
    let e: u8 = if grab { INPUT_MOUSE_LEFT } else { 0u8 };
    let buttons: u8 = a | b | c | d | e;
    assert(((buttons & 1u8) != 0) == (a == 1u8) && ((buttons & 2u8) != 0) == (b == 2u8) && ((buttons
        & 4u8) != 0) == (c == 4u8) && ((buttons & 8u8) != 0) == (d == 8u8) && ((buttons & 16u8) != 0)
        == (e == 16u8)) by (bit_vector)
        requires
            a == 1u8 || a == 0u8,
            b == 2u8 || b == 0u8,
            c == 4u8 || c == 0u8,
            d == 8u8 || d == 0u8,
            e == 16u8 || e == 0u8,
            buttons == a | b | c | d | e,
    ;
    let mouse_pos = match cursor {
        Some(p) => p,
        None => Vec2::zero(),
    };
    GaffInput { mouse_pos, buttons }
}

/// Bytes in an encoded input record.
pub const INPUT_SIZE: usize = 12;

/// The four bytes of a 32-bit word, least significant first.
pub open spec fn word_bytes(w: u32) -> Seq<u8> {
    seq![(w & 0xff) as u8, ((w >> 8) & 0xff) as u8, ((w >> 16) & 0xff) as u8, ((w >> 24) & 0xff) as u8]
}

/// The word whose bytes, least significant first, are `b0..b3`.
pub open spec fn word_of(b0: u8, b1: u8, b2: u8, b3: u8) -> u32 {
    (b0 as u32) | ((b1 as u32) << 8) | ((b2 as u32) << 16) | ((b3 as u32) << 24)
}

/// The wire layout of a record: the pointer's x and y as little-endian
/// two's-complement words, the button mask, and three zero bytes.
pub open spec fn encode_spec(i: GaffInput) -> Seq<u8> {
    word_bytes(i.mouse_pos.x as u32) + word_bytes(i.mouse_pos.y as u32) + seq![i.buttons, 0u8, 0u8, 0u8]
}

/// The record a byte string encodes, if it is one.
pub open spec fn decode_spec(b: Seq<u8>) -> Option<GaffInput> {
    if b.len() == 12 && b[9] == 0 && b[10] == 0 && b[11] == 0 {
        Some(
            GaffInput {
                mouse_pos: Vec2 {
                    x: word_of(b[0], b[1], b[2], b[3]) as i32,
                    y: word_of(b[4], b[5], b[6], b[7]) as i32,
                },
                buttons: b[8],
            },
        )
    } else {
        None
    }
}

proof fn lemma_word_round_trip(x: i32)
    ensures
        ({
            let b = word_bytes(x as u32);
            word_of(b[0], b[1], b[2], b[3]) as i32 == x
        }),
{
    let w = x as u32;
    let b = word_bytes(w);
    let (b0, b1, b2, b3) = (b[0], b[1], b[2], b[3]);
    assert(((b0 as u32) | ((b1 as u32) << 8) | ((b2 as u32) << 16) | ((b3 as u32) << 24)) as i32 == x) by (bit_vector)
        requires
            w == x as u32,
            b0 == (w & 0xff) as u8,
            b1 == ((w >> 8) & 0xff) as u8,
            b2 == ((w >> 16) & 0xff) as u8,
            b3 == ((w >> 24) & 0xff) as u8,
    ;
}

proof fn lemma_bytes_round_trip(b0: u8, b1: u8, b2: u8, b3: u8)
    ensures
        word_bytes(word_of(b0, b1, b2, b3) as i32 as u32) == seq![b0, b1, b2, b3],
{
    let w = word_of(b0, b1, b2, b3);
    let v = w as i32 as u32;
    assert(((v & 0xff) as u8 == b0) && (((v >> 8) & 0xff) as u8 == b1) && (((v >> 16) & 0xff) as u8
        == b2) && (((v >> 24) & 0xff) as u8 == b3)) by (bit_vector)
        requires
            w == (b0 as u32) | ((b1 as u32) << 8) | ((b2 as u32) << 16) | ((b3 as u32) << 24),
            v == w as i32 as u32,
    ;
    assert(word_bytes(v) =~= seq![b0, b1, b2, b3]);
}

/// Decoding an encoded record gives the record back.
pub proof fn lemma_decode_encode(i: GaffInput)
    ensures
        decode_spec(encode_spec(i)) == Some(i),
{
    let e = encode_spec(i);
    let bx = word_bytes(i.mouse_pos.x as u32);
    let by = word_bytes(i.mouse_pos.y as u32);
    lemma_word_round_trip(i.mouse_pos.x);
    lemma_word_round_trip(i.mouse_pos.y);
    assert(e[0] == bx[0] && e[1] == bx[1] && e[2] == bx[2] && e[3] == bx[3]);
    assert(e[4] == by[0] && e[5] == by[1] && e[6] == by[2] && e[7] == by[3]);
}

/// A byte string that decodes is exactly the encoding of what it decodes
/// to: every record has one wire form.
pub proof fn lemma_encode_decode(b: Seq<u8>)
    ensures
        decode_spec(b) matches Some(i) ==> encode_spec(i) == b,
{
    if let Some(i) = decode_spec(b) {
        lemma_bytes_round_trip(b[0], b[1], b[2], b[3]);
        lemma_bytes_round_trip(b[4], b[5], b[6], b[7]);
        assert(encode_spec(i) =~= b);
    }
}

fn push_word(out: &mut Vec<u8>, w: u32)
    ensures
        final(out)@ == old(out)@ + word_bytes(w),
{
    out.push((w & 0xff) as u8);
    out.push(((w >> 8) & 0xff) as u8);
    out.push(((w >> 16) & 0xff) as u8);
    out.push(((w >> 24) & 0xff) as u8);
    assert(final(out)@ =~= old(out)@ + word_bytes(w));
}

impl GaffInput {
    /// The record in its wire layout.
    pub fn to_bytes(&self) -> (r: Vec<u8>)
        ensures
            r@ == encode_spec(*self),
            r@.len() == INPUT_SIZE,
    {
        let mut out: Vec<u8> = Vec::new();
        push_word(&mut out, self.mouse_pos.x as u32);
        push_word(&mut out, self.mouse_pos.y as u32);
        out.push(self.buttons);
        out.push(0);
        out.push(0);
        out.push(0);
        assert(out@ =~= encode_spec(*self));
        out
    }

    /// The record that `bytes` encodes; `None` when its length is not
    /// `INPUT_SIZE` or its padding is not zero.
    pub fn from_bytes(bytes: &[u8]) -> (r: Option<GaffInput>)
        ensures
            r == decode_spec(bytes@),
    {
        if bytes.len() != INPUT_SIZE || bytes[9] != 0 || bytes[10] != 0 || bytes[11] != 0 {
            return None;
        }
        let x = (bytes[0] as u32) | ((bytes[1] as u32) << 8) | ((bytes[2] as u32) << 16) | ((
        bytes[3] as u32) << 24);
        let y = (bytes[4] as u32) | ((bytes[5] as u32) << 8) | ((bytes[6] as u32) << 16) | ((
        bytes[7] as u32) << 24);
        Some(GaffInput { mouse_pos: Vec2 { x: x as i32, y: y as i32 }, buttons: bytes[8] })
    }
}

} // verus!
