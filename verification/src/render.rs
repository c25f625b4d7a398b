//! Render data: what is drawn each frame, and in which order.

use vstd::prelude::*;
use vstd::arithmetic::div_mod::lemma_fundamental_div_mod_converse_mod;
use crate::config::{CIRCLE_RADIUS, WINDOW_HEIGHT, WINDOW_WIDTH};

verus! {

/// A colour with three 8-bit channels.
#[derive(Clone, Copy, Debug, PartialEq, Eq)]
pub struct Rgb {
    pub r: u8,
    pub g: u8,
    pub b: u8,
}

/// The centre of a body, in whole pixels.
#[derive(Clone, Copy, Debug, PartialEq, Eq)]
pub struct Pixel {
    pub x: i32,
    pub y: i32,
}

/// One call on the drawing surface.
#[derive(Clone, Copy, Debug, PartialEq, Eq)]
pub enum DrawOp {
    /// Fill the whole surface with the colour.
    Clear(Rgb),
    /// Draw a filled circle around the given centre.
    FilledCircle { x: i16, y: i16, radius: i16, color: Rgb },
    /// Show what was drawn.
    Present,
}

/// White.
pub open spec fn spec_background() -> Rgb {
    Rgb { r: 255, g: 255, b: 255 }
}

/// Red.
pub open spec fn spec_player_color() -> Rgb {
    Rgb { r: 255, g: 0, b: 0 }
}

/// Blue.
pub open spec fn spec_body_color() -> Rgb {
    Rgb { r: 0, g: 0, b: 255 }
}

/// The colour every frame is cleared to: white.
#[verifier::when_used_as_spec(spec_background)]
pub fn background() -> (c: Rgb)
    ensures
        c == spec_background(),
{
    Rgb { r: 255, g: 255, b: 255 }
}

/// The colour of the player: red.
#[verifier::when_used_as_spec(spec_player_color)]
pub fn player_color() -> (c: Rgb)
    ensures
        c == spec_player_color(),
{
    Rgb { r: 255, g: 0, b: 0 }
}

/// The colour of the autonomous bodies: blue.
#[verifier::when_used_as_spec(spec_body_color)]
pub fn body_color() -> (c: Rgb)
    ensures
        c == spec_body_color(),
{
    Rgb { r: 0, g: 0, b: 255 }
}

/// The signed 16-bit integer that is congruent to `v` modulo 2^16.
pub open spec fn wrap16(v: int) -> int {
    (v + 32768) % 65536 - 32768
}

/// The coordinate that a point of the renderer keeps of `v`: `v` itself
/// between half of the least and half of the greatest 32-bit integer, else
/// the nearer of the two.
pub open spec fn held(v: int) -> int {
    if v > 0x3fff_ffff {
        0x3fff_ffff
    } else if v < -0x4000_0000 {
        -0x4000_0000
    } else {
        v
    }
}

/// The circle drawn for a body at `center`.
pub open spec fn disc_of(center: Pixel, color: Rgb) -> DrawOp {
    DrawOp::FilledCircle {
        x: wrap16(center.x as int) as i16,
        y: wrap16(center.y as int) as i16,
        radius: CIRCLE_RADIUS,
        color,
    }
}

/// The calls of one frame: clear to the background, the player in its
/// colour, the autonomous bodies in theirs and in the order of the collection,
/// then present.
pub open spec fn frame_ops(player: Pixel, bodies: Seq<Pixel>) -> Seq<DrawOp> {
    seq![DrawOp::Clear(spec_background()), disc_of(player, spec_player_color())] + Seq::new(
        bodies.len(),
        |i: int| disc_of(bodies[i], spec_body_color()),
    ) + seq![DrawOp::Present]
}

/// Holds one coordinate within the range of the renderer's points.
fn hold(v: i32) -> (r: i32)
    ensures
        r == held(v as int),
{
    if v > 0x3fff_ffff {
        0x3fff_ffff
    } else if v < -0x4000_0000 {
        -0x4000_0000
    } else {
        v
    }
}

/// The centre of a body in whole pixels, each coordinate held as the
/// renderer's point type (`sdl2::rect::Point`) holds it.
pub fn pixel_at(x: i32, y: i32) -> (p: Pixel)
    ensures
        p.x == held(x as int),
        p.y == held(y as int),
{
    Pixel { x: hold(x), y: hold(y) }
}

/// Narrows a 32-bit coordinate to the 16 bits that the drawing primitive
/// takes, keeping the low bits. A coordinate that fits is kept as it is.
pub fn narrow(v: i32) -> (r: i16)
    ensures
        r == wrap16(v as int),
        i16::MIN <= v <= i16::MAX ==> r == v,
{
    let r: i16 = #[verifier::truncate] (v as i16);
    proof {
        let lo: i32 = v & 0xffff;
        let hi: i32 = v >> 16;
        assert(0 <= lo < 65536 && v == hi * 65536 + lo) by (bit_vector)
            requires
                lo == v & 0xffff,
                hi == v >> 16,
        ;
        assert(lo < 32768 ==> r == lo) by (bit_vector)
            requires
                lo == v & 0xffff,
                r == v as i16,
        ;
        assert(lo >= 32768 ==> r == lo - 65536) by (bit_vector)
            requires
                lo == v & 0xffff,
                r == v as i16,
        ;
        let shifted = v as int + 32768;
        if lo < 32768 {
            lemma_fundamental_div_mod_converse_mod(shifted, 65536, hi as int, lo + 32768);
        } else {
            lemma_fundamental_div_mod_converse_mod(shifted, 65536, hi + 1, lo - 32768);
        }
    }
    r
}

/// The circle to draw for a body at `center`, with the shared radius.
pub fn disc(center: Pixel, color: Rgb) -> (op: DrawOp)
    ensures
        op == disc_of(center, color),
{
    DrawOp::FilledCircle {
        x: narrow(center.x),
        y: narrow(center.y),
        radius: CIRCLE_RADIUS,
        color,
    }
}

/// Lists the calls that draw one frame.
pub fn frame(player: Pixel, bodies: &Vec<Pixel>) -> (ops: Vec<DrawOp>)
    ensures
        ops@ == frame_ops(player, bodies@),
{
    let mut ops: Vec<DrawOp> = Vec::new();
    ops.push(DrawOp::Clear(background()));
    ops.push(disc(player, player_color()));
    let ghost head = seq![DrawOp::Clear(spec_background()), disc_of(player, spec_player_color())];
    assert(ops@ =~= head);
    let mut i: usize = 0;
    while i < bodies.len()
        invariant
            i <= bodies.len(),
            ops@ == head + Seq::new(i as nat, |k: int| disc_of(bodies@[k], spec_body_color())),
        decreases bodies.len() - i,
    {
        ops.push(disc(bodies[i], body_color()));
        i = i + 1;
        assert(ops@ =~= head + Seq::new(
            i as nat,
            |k: int| disc_of(bodies@[k], spec_body_color()),
        ));
    }
    ops.push(DrawOp::Present);
    assert(ops@ =~= frame_ops(player, bodies@));
    ops
}

/// A frame is cleared first and once, then come the player and the bodies,
/// one circle each and in the order of the collection, and it is presented
/// last and once.
pub proof fn lemma_frame_layout(player: Pixel, bodies: Seq<Pixel>)
    ensures
        frame_ops(player, bodies).len() == bodies.len() + 3,
        frame_ops(player, bodies)[0] == DrawOp::Clear(spec_background()),
        frame_ops(player, bodies)[1] == disc_of(player, spec_player_color()),
        forall|i: int|
            0 <= i < bodies.len() ==> #[trigger] frame_ops(player, bodies)[i + 2] == disc_of(
                bodies[i],
                spec_body_color(),
            ),
        frame_ops(player, bodies)[bodies.len() as int + 2] == DrawOp::Present,
        forall|k: int|
            0 <= k < frame_ops(player, bodies).len() ==> {
                &&& #[trigger] frame_ops(player, bodies)[k] is Clear <==> k == 0
                &&& frame_ops(player, bodies)[k] is Present <==> k == bodies.len() + 2
            },
{
}

/// A body whose centre lies in the window is drawn where it is: neither
/// holding nor narrowing changes a coordinate.
pub proof fn lemma_window_is_drawn_in_place(x: i32, y: i32, color: Rgb)
    requires
        0 <= x <= WINDOW_WIDTH,
        0 <= y <= WINDOW_HEIGHT,
    ensures
        disc_of(Pixel { x: held(x as int) as i32, y: held(y as int) as i32 }, color) == (
        DrawOp::FilledCircle { x: x as i16, y: y as i16, radius: CIRCLE_RADIUS, color }),
        x as i16 == x,
        y as i16 == y,
{
}

} // verus!
