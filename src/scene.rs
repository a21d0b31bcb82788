//! The starting scene: four static walls around a square grid of marbles.
use vstd::prelude::*;
use crate::geom::{Rotation, Vec2, ROT_ONE};
use crate::world::{Body, BodyKind, Collider, World, WorldView};

verus! {

/// Marble radius in world units (10 scene units).
pub const MARBLE_RADIUS: i32 = 100_000;
/// Distance between neighbouring marbles of the grid (25 scene units).
pub const MARBLE_SPACING: i32 = 250_000;
/// Marbles on each side of the centre, on each axis.
pub const HALF_GRID: i32 = 9;
/// Marbles on one side of the grid.
pub const GRID_SIDE: usize = 19;
/// Marbles in the grid.
pub const MARBLE_COUNT: usize = 361;

/// A static box at `position` with the given full width and height.
pub open spec fn wall_spec(id: u64, position: Vec2, width: i32, height: i32) -> Body {
    Body {
        id,
        kind: BodyKind::Static,
        collider: Collider::Cuboid { width, height },
        position,
        rotation: Rotation { cos: ROT_ONE, sin: 0 },
        linear_velocity: Vec2 { x: 0, y: 0 },
        angular_velocity: 0,
        previous_position: Vec2 { x: 0, y: 0 },
        marble: false,
    }
}

/// Ceiling, floor, left wall and right wall, with ids from `first` on.
pub open spec fn walls_spec(first: u64) -> Seq<Body> {
    seq![
        wall_spec(first, Vec2 { x: 0, y: 3_000_000 }, 10_000_000, 500_000),
        wall_spec((first + 1) as u64, Vec2 { x: 0, y: -3_000_000i32 }, 10_000_000, 500_000),
        wall_spec((first + 2) as u64, Vec2 { x: -4_750_000i32, y: 0 }, 500_000, 5_500_000),
        wall_spec((first + 3) as u64, Vec2 { x: 4_750_000, y: 0 }, 500_000, 5_500_000),
    ]
}

/// Grid position of the `k`-th marble: columns left to right, each column
/// bottom to top.
pub open spec fn marble_position(k: int) -> Vec2 {
    Vec2 {
        x: ((k / 19 - 9) * 250_000) as i32,
        y: ((k % 19 - 9) * 250_000) as i32,
    }
}

/// The `k`-th marble, with id `id`, at rest.
pub open spec fn marble_spec(id: u64, k: int) -> Body {
    Body {
        id,
        kind: BodyKind::Dynamic,
        collider: Collider::Ball { radius: MARBLE_RADIUS },
        position: marble_position(k),
        rotation: Rotation { cos: ROT_ONE, sin: 0 },
        linear_velocity: Vec2 { x: 0, y: 0 },
        angular_velocity: 0,
        previous_position: marble_position(k),
        marble: true,
    }
}

/// All marbles, with ids from `first` on.
pub open spec fn marbles_spec(first: u64) -> Seq<Body> {
    Seq::new(361, |k: int| marble_spec((first + k) as u64, k))
}

fn wall(id: u64, position: Vec2, width: i32, height: i32) -> (r: Body)
    ensures
        r == wall_spec(id, position, width, height),
{
    Body {
        id,
        kind: BodyKind::Static,
        collider: Collider::Cuboid { width, height },
        position,
        rotation: Rotation::identity(),
        linear_velocity: Vec2::zero(),
        angular_velocity: 0,
        previous_position: Vec2::zero(),
        marble: false,
    }
}

/// On the first frame, adds the ceiling, floor and side walls; on any other
/// frame, does nothing.
pub fn setup_scene(world: &mut World)
    requires
        old(world)@.frame == 0 ==> old(world)@.next_entity + 4 <= u64::MAX,
    ensures
        old(world)@.frame != 0 ==> final(world)@ == old(world)@,
        old(world)@.frame == 0 ==> final(world)@ == (WorldView {
            bodies: old(world)@.bodies + walls_spec(old(world)@.next_entity),
            next_entity: (old(world)@.next_entity + 4) as u64,
            ..old(world)@
        }),
        old(world)@.wf() ==> final(world)@.wf(),
{
    if world.frame != 0 {
        return;
    }
    let ghost w0 = world@;
    let first = world.next_entity;
    world.bodies.push(wall(first, Vec2::new(0, 3_000_000), 10_000_000, 500_000));
    world.bodies.push(wall(first + 1, Vec2::new(0, -3_000_000), 10_000_000, 500_000));
    world.bodies.push(wall(first + 2, Vec2::new(-4_750_000, 0), 500_000, 5_500_000));
    world.bodies.push(wall(first + 3, Vec2::new(4_750_000, 0), 500_000, 5_500_000));
    world.next_entity = first + 4;
    assert(world@.bodies =~= w0.bodies + walls_spec(first));
    proof {
        lemma_append_keeps_live(w0, walls_spec(first), (first + 4) as u64);
    }
}

/// On the first frame, adds the grid of marbles; on any other frame, does
/// nothing.
pub fn spawn_marbles(world: &mut World)
    requires
        old(world)@.frame == 0 ==> old(world)@.next_entity + 361 <= u64::MAX,
    ensures
        old(world)@.frame != 0 ==> final(world)@ == old(world)@,
        old(world)@.frame == 0 ==> final(world)@ == (WorldView {
            bodies: old(world)@.bodies + marbles_spec(old(world)@.next_entity),
            next_entity: (old(world)@.next_entity + 361) as u64,
            ..old(world)@
        }),
        old(world)@.wf() ==> final(world)@.wf(),
{
    if world.frame != 0 {
        return;
    }
    let ghost w0 = world@;
    let first = world.next_entity;
    let mut k: usize = 0;
    let mut x: i32 = -HALF_GRID;
    while x <= HALF_GRID
        invariant
            -9 <= x <= 10,
            k == (x + 9) * 19,
            world@.frame == w0.frame,
            world@.grabbers == w0.grabbers,
            world@.joints == w0.joints,
            world@.next_entity == first + k,
            first == w0.next_entity,
            first + 361 <= u64::MAX,
            world@.bodies == w0.bodies + marbles_spec(first).take(k as int),
        decreases 10 - x,
    {
        let mut y: i32 = -HALF_GRID;
        while y <= HALF_GRID
            invariant
                -9 <= x <= 9,
                -9 <= y <= 10,
                k == (x + 9) * 19 + (y + 9),
                world@.frame == w0.frame,
                world@.grabbers == w0.grabbers,
                world@.joints == w0.joints,
                world@.next_entity == first + k,
                first == w0.next_entity,
                first + 361 <= u64::MAX,
                world@.bodies == w0.bodies + marbles_spec(first).take(k as int),
            decreases 10 - y,
        {
            let position = Vec2::new(x * MARBLE_SPACING, y * MARBLE_SPACING);
            let id = world.next_entity;
            world.bodies.push(
                Body {
                    id,
                    kind: BodyKind::Dynamic,
                    collider: Collider::Ball { radius: MARBLE_RADIUS },
                    position,
                    rotation: Rotation::identity(),
                    linear_velocity: Vec2::zero(),
                    angular_velocity: 0,
                    previous_position: position,
                    marble: true,
                },
            );
            proof {
                let kk = k as int;
                assert(kk / 19 == x + 9 && kk % 19 == y + 9) by (nonlinear_arith)
                    requires
                        kk == (x + 9) * 19 + (y + 9),
                        0 <= y + 9 < 19,
                ;
                assert(position == marble_position(kk));
                assert(marbles_spec(first).take(kk + 1) =~= marbles_spec(first).take(kk).push(
                    marble_spec((first + kk) as u64, kk),
                ));
                assert(world@.bodies =~= w0.bodies + marbles_spec(first).take(kk + 1));
            }
            world.next_entity = world.next_entity + 1;
            k = k + 1;
            y = y + 1;
        }
        x = x + 1;
    }
    assert(marbles_spec(first).take(361) =~= marbles_spec(first));
    proof {
        lemma_append_keeps_live(w0, marbles_spec(first), (first + 361) as u64);
    }
}

/// Appending bodies keeps every live body live.
proof fn lemma_append_keeps_live(w: WorldView, extra: Seq<Body>, next: u64)
    ensures
        w.wf() ==> (WorldView { bodies: w.bodies + extra, next_entity: next, ..w }).wf(),
{
    let b = w.bodies + extra;
    assert forall|id: u64| #[trigger] crate::world::body_live(w.bodies, id) implies crate::world::body_live(b, id) by {
        crate::physics::lemma_live_iff_contains(w.bodies, id);
        crate::physics::lemma_live_iff_contains(b, id);
        let i = choose|i: int| 0 <= i < w.bodies.len() && w.bodies[i].id == id;
        assert(b[i] == w.bodies[i]);
    }
    if w.wf() {
        let r2 = WorldView { bodies: b, next_entity: next, ..w };
        assert forall|p: int| 0 <= p < r2.grabbers.len() implies #[trigger] r2.slot_ok(p) by {
            assert(w.slot_ok(p));
        }
    }
}

} // verus!
