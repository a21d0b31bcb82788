//! The deterministic per-frame pipeline around the physics engine: grab
//! update, then the engine's advance, then movement, previous-position
//! bookkeeping and the frame counter.
use vstd::prelude::*;
use crate::geom::Vec2;
use crate::input::{has_flag, is_set, GaffInput, INPUT_DOWN, INPUT_LEFT, INPUT_RIGHT, INPUT_UP};
use crate::world::{body_live, find_body_from, Body, World, WorldView};

verus! {

/// Velocity added per frame by the up button (50 scene units).
pub const PUSH_UP: i32 = 500_000;
/// Velocity added per frame by the down, left and right buttons (10 scene units).
pub const PUSH_SIDE: i32 = 100_000;

/// `a + b`, clamped to the range of `i32`.
pub open spec fn clamp_add(a: i32, b: int) -> i32 {
    if a + b > i32::MAX {
        i32::MAX
    } else if a + b < i32::MIN {
        i32::MIN
    } else {
        (a + b) as i32
    }
}

pub fn clamped_add(a: i32, b: i32) -> (r: i32)
    ensures
        r == clamp_add(a, b as int),
{
    let s = a as i64 + b as i64;
    if s > i32::MAX as i64 {
        i32::MAX
    } else if s < i32::MIN as i64 {
        i32::MIN
    } else {
        s as i32
    }
}

/// The velocity of a marble after one player's input pushes it.
pub open spec fn push_spec(v: Vec2, input: GaffInput) -> Vec2 {
    let b = input.buttons;
    let y1 = if has_flag(b, INPUT_UP) { clamp_add(v.y, PUSH_UP as int) } else { v.y };
    let y2 = if has_flag(b, INPUT_DOWN) { clamp_add(y1, -PUSH_SIDE) } else { y1 };
    let x1 = if has_flag(b, INPUT_LEFT) { clamp_add(v.x, -PUSH_SIDE) } else { v.x };
    let x2 = if has_flag(b, INPUT_RIGHT) { clamp_add(x1, PUSH_SIDE as int) } else { x1 };
    Vec2 { x: x2, y: y2 }
}

/// The velocity after the inputs of players `0..k` push it in turn.
pub open spec fn push_upto(v: Vec2, inputs: Seq<GaffInput>, k: int) -> Vec2
    decreases k,
{
    if k <= 0 {
        v
    } else {
        push_spec(push_upto(v, inputs, k - 1), inputs[k - 1])
    }
}

/// A body after the movement rule: marbles are pushed by every input.
pub open spec fn moved_body(b: Body, inputs: Seq<GaffInput>) -> Body {
    if b.marble {
        Body { linear_velocity: push_upto(b.linear_velocity, inputs, inputs.len() as int), ..b }
    } else {
        b
    }
}

/// A body after previous-position bookkeeping.
pub open spec fn recorded_body(b: Body) -> Body {
    if b.marble {
        Body { previous_position: b.position, ..b }
    } else {
        b
    }
}

/// The part of a frame that follows the physics engine's advance.
pub open spec fn finish_frame_spec(w: WorldView, inputs: Seq<GaffInput>) -> WorldView {
    WorldView {
        bodies: Seq::new(w.bodies.len(), |i: int| recorded_body(moved_body(w.bodies[i], inputs))),
        frame: w.frame.wrapping_add(1),
        ..w
    }
}

fn push(v: Vec2, input: GaffInput) -> (r: Vec2)
    ensures
        r == push_spec(v, input),
{
    let b = input.buttons;
    let y1 = if is_set(b, INPUT_UP) { clamped_add(v.y, PUSH_UP) } else { v.y };
    let y2 = if is_set(b, INPUT_DOWN) { clamped_add(y1, -PUSH_SIDE) } else { y1 };
    let x1 = if is_set(b, INPUT_LEFT) { clamped_add(v.x, -PUSH_SIDE) } else { v.x };
    let x2 = if is_set(b, INPUT_RIGHT) { clamped_add(x1, PUSH_SIDE) } else { x1 };
    Vec2 { x: x2, y: y2 }
}

/// Applies every player's movement buttons to the velocity of every marble.
pub fn movement(world: &mut World, inputs: &Vec<GaffInput>)
    ensures
        final(world)@ == (WorldView {
            bodies: Seq::new(
                old(world)@.bodies.len(),
                |i: int| moved_body(old(world)@.bodies[i], inputs@),
            ),
            ..old(world)@
        }),
{
    let ghost w0 = world@;
    let n = world.bodies.len();
    let mut i: usize = 0;
    while i < n
        invariant
            0 <= i <= n,
            n == w0.bodies.len(),
            world@.bodies.len() == n,
            world@.frame == w0.frame,
            world@.next_entity == w0.next_entity,
            world@.grabbers == w0.grabbers,
            world@.joints == w0.joints,
            forall|j: int| 0 <= j < i ==> world@.bodies[j] == moved_body(w0.bodies[j], inputs@),
            forall|j: int| i <= j < n ==> world@.bodies[j] == w0.bodies[j],
        decreases n - i,
    {
        let b = world.bodies[i];
        if b.marble {
            let mut v = b.linear_velocity;
            let mut k: usize = 0;
            while k < inputs.len()
                invariant
                    0 <= k <= inputs.len(),
                    v == push_upto(b.linear_velocity, inputs@, k as int),
                decreases inputs.len() - k,
            {
                v = push(v, inputs[k]);
                k = k + 1;
            }
            world.bodies.set(i, Body { linear_velocity: v, ..b });
        }
        i = i + 1;
    }
    assert(world@.bodies =~= Seq::new(w0.bodies.len(), |i: int| moved_body(w0.bodies[i], inputs@)));
}

/// Records each marble's current position as its previous position.
pub fn update_previous_position(world: &mut World)
    ensures
        final(world)@ == (WorldView {
            bodies: Seq::new(old(world)@.bodies.len(), |i: int| recorded_body(old(world)@.bodies[i])),
            ..old(world)@
        }),
{
    let ghost w0 = world@;
    let n = world.bodies.len();
    let mut i: usize = 0;
    while i < n
        invariant
            0 <= i <= n,
            n == w0.bodies.len(),
            world@.bodies.len() == n,
            world@.frame == w0.frame,
            world@.next_entity == w0.next_entity,
            world@.grabbers == w0.grabbers,
            world@.joints == w0.joints,
            forall|j: int| 0 <= j < i ==> world@.bodies[j] == recorded_body(w0.bodies[j]),
            forall|j: int| i <= j < n ==> world@.bodies[j] == w0.bodies[j],
        decreases n - i,
    {
        let b = world.bodies[i];
        if b.marble {
            world.bodies.set(i, Body { previous_position: b.position, ..b });
        }
        i = i + 1;
    }
    assert(world@.bodies =~= Seq::new(w0.bodies.len(), |i: int| recorded_body(w0.bodies[i])));
}

/// Advances the frame counter by one (wrapping after `u64::MAX`).
pub fn increase_frame(world: &mut World)
    ensures
        final(world)@ == (WorldView { frame: old(world)@.frame.wrapping_add(1), ..old(world)@ }),
{
    world.frame = world.frame.wrapping_add(1);
}

/// Everything a frame does after the physics engine has advanced the world:
/// movement, previous-position bookkeeping and the frame counter.
pub fn finish_frame(world: &mut World, inputs: &Vec<GaffInput>)
    ensures
        final(world)@ == finish_frame_spec(old(world)@, inputs@),
        old(world)@.wf() ==> final(world)@.wf(),
{
    let ghost w0 = world@;
    movement(world, inputs);
    update_previous_position(world);
    increase_frame(world);
    assert(world@.bodies =~= finish_frame_spec(w0, inputs@).bodies);
    proof {
        if w0.wf() {
            lemma_finish_keeps_wf(w0, inputs@);
        }
    }
}

/// Finishing a frame keeps every body's id, so every joint stays attached
/// to a live body.
pub proof fn lemma_finish_keeps_wf(w: WorldView, inputs: Seq<GaffInput>)
    requires
        w.wf(),
    ensures
        finish_frame_spec(w, inputs).wf(),
{
    let r = finish_frame_spec(w, inputs);
    lemma_same_ids_same_live(w.bodies, r.bodies);
    assert forall|p: int| 0 <= p < r.grabbers.len() implies #[trigger] r.slot_ok(p) by {
        assert(w.slot_ok(p));
    }
}

/// Two body lists with the same ids in the same order have the same live set.
pub proof fn lemma_same_ids_same_live(a: Seq<Body>, b: Seq<Body>)
    requires
        a.len() == b.len(),
        forall|i: int| 0 <= i < a.len() ==> a[i].id == b[i].id,
    ensures
        forall|id: u64| body_live(a, id) == body_live(b, id),
{
    assert forall|id: u64| body_live(a, id) == body_live(b, id) by {
        lemma_find_from_same_ids(a, b, id, 0);
    }
}

proof fn lemma_find_from_same_ids(a: Seq<Body>, b: Seq<Body>, id: u64, i: int)
    requires
        a.len() == b.len(),
        forall|i: int| 0 <= i < a.len() ==> a[i].id == b[i].id,
    ensures
        find_body_from(a, id, i) == find_body_from(b, id, i),
    decreases a.len() - i,
{
    if 0 <= i < a.len() && a[i].id != id {
        lemma_find_from_same_ids(a, b, id, i + 1);
    }
}

} // verus!
