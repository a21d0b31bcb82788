//! The boundary with the physics engine: the engine's advance hands back new
//! motion for every body, and bodies it removes take their joints with them
//! in the same step.
use vstd::prelude::*;
use crate::geom::{Rotation, Vec2};
use crate::world::{body_live, lemma_find_body_found, Body, GrabberJoint, World, WorldView};

verus! {

/// The motion of one body after the physics engine's advance.
#[derive(Clone, Copy, Debug, PartialEq, Eq, Structural, Hash)]
pub struct BodyMotion {
    pub position: Vec2,
    pub rotation: Rotation,
    pub linear_velocity: Vec2,
    pub angular_velocity: i32,
}

/// A body with the engine's motion written into it.
pub open spec fn moved(b: Body, m: BodyMotion) -> Body {
    Body {
        position: m.position,
        rotation: m.rotation,
        linear_velocity: m.linear_velocity,
        angular_velocity: m.angular_velocity,
        ..b
    }
}

/// The bodies that stay when those with id `id` are removed.
pub open spec fn keep_pred(id: u64) -> spec_fn(Body) -> bool {
    |b: Body| b.id != id
}

/// A joint slot after the bodies with id `id` are removed.
pub open spec fn joint_after_removal(j: Option<GrabberJoint>, id: u64) -> Option<GrabberJoint> {
    match j {
        Some(jt) => if jt.body == id {
            None
        } else {
            Some(jt)
        },
        None => None,
    }
}

/// The world after every body with id `id` and every joint on it is removed.
pub open spec fn despawn_spec(w: WorldView, id: u64) -> WorldView {
    WorldView {
        bodies: w.bodies.filter(keep_pred(id)),
        joints: Seq::new(w.joints.len(), |p: int| joint_after_removal(w.joints[p], id)),
        ..w
    }
}

/// A body with id `id` is live exactly when one stands in the list.
pub proof fn lemma_live_iff_contains(bodies: Seq<Body>, id: u64)
    ensures
        body_live(bodies, id) <==> exists|i: int| 0 <= i < bodies.len() && bodies[i].id == id,
{
    lemma_find_body_found(bodies, id, 0);
}

/// Writes the engine's motion into every body, in list order.
pub fn apply_motion(world: &mut World, motions: &Vec<BodyMotion>)
    requires
        motions.len() == old(world)@.bodies.len(),
    ensures
        final(world)@ == (WorldView {
            bodies: Seq::new(
                old(world)@.bodies.len(),
                |i: int| moved(old(world)@.bodies[i], motions@[i]),
            ),
            ..old(world)@
        }),
        old(world)@.wf() ==> final(world)@.wf(),
{
    let ghost w0 = world@;
    let n = world.bodies.len();
    let mut i: usize = 0;
    while i < n
        invariant
            0 <= i <= n,
            n == w0.bodies.len(),
            motions.len() == n,
            world@.bodies.len() == n,
            world@.frame == w0.frame,
            world@.next_entity == w0.next_entity,
            world@.grabbers == w0.grabbers,
            world@.joints == w0.joints,
            forall|j: int| 0 <= j < i ==> world@.bodies[j] == moved(w0.bodies[j], motions@[j]),
            forall|j: int| i <= j < n ==> world@.bodies[j] == w0.bodies[j],
        decreases n - i,
    {
        let b = world.bodies[i];
        let m = motions[i];
        world.bodies.set(
            i,
            Body {
                position: m.position,
                rotation: m.rotation,
                linear_velocity: m.linear_velocity,
                angular_velocity: m.angular_velocity,
                ..b
            },
        );
        i = i + 1;
    }
    assert(world@.bodies =~= Seq::new(w0.bodies.len(), |i: int| moved(w0.bodies[i], motions@[i])));
    proof {
        crate::step::lemma_same_ids_same_live(w0.bodies, world@.bodies);
        if w0.wf() {
            assert forall|p: int| 0 <= p < world@.grabbers.len() implies #[trigger] world@.slot_ok(p) by {
                assert(w0.slot_ok(p));
            }
        }
    }
}

/// Removes every body with id `id` and, in the same step, every grab joint
/// that holds such a body, so that no joint is left dangling.
pub fn despawn_body(world: &mut World, id: u64)
    ensures
        final(world)@ == despawn_spec(old(world)@, id),
        old(world)@.wf() ==> final(world)@.wf(),
{
    let ghost w0 = world@;
    let ghost pred = keep_pred(id);
    let mut kept: Vec<Body> = Vec::new();
    let mut i: usize = 0;
    while i < world.bodies.len()
        invariant
            0 <= i <= world.bodies.len(),
            world@ == w0,
            pred == keep_pred(id),
            kept@ == w0.bodies.take(i as int).filter(pred),
        decreases world.bodies.len() - i,
    {
        let b = world.bodies[i];
        proof {
            assert(w0.bodies.take(i + 1).drop_last() =~= w0.bodies.take(i as int));
            reveal(Seq::filter);
        }
        if b.id != id {
            kept.push(b);
        }
        i = i + 1;
    }
    assert(w0.bodies.take(w0.bodies.len() as int) =~= w0.bodies);
    world.bodies = kept;
    let mut p: usize = 0;
    while p < world.joints.len()
        invariant
            0 <= p <= world.joints.len(),
            world.joints.len() == w0.joints.len(),
            world@.bodies == w0.bodies.filter(pred),
            world@.frame == w0.frame,
            world@.next_entity == w0.next_entity,
            world@.grabbers == w0.grabbers,
            forall|q: int| 0 <= q < p ==> world@.joints[q] == joint_after_removal(w0.joints[q], id),
            forall|q: int| p <= q < world.joints.len() ==> world@.joints[q] == w0.joints[q],
        decreases world.joints.len() - p,
    {
        let drop = match world.joints[p] {
            Some(j) => j.body == id,
            None => false,
        };
        if drop {
            world.joints.set(p, None);
        }
        assert(world@.joints[p as int] == joint_after_removal(w0.joints[p as int], id));
        p = p + 1;
    }
    assert(world@.joints =~= despawn_spec(w0, id).joints);
    proof {
        if w0.wf() {
            let w = world@;
            broadcast use vstd::seq_lib::group_filter_ensures;
            assert forall|p: int| 0 <= p < w.grabbers.len() implies #[trigger] w.slot_ok(p) by {
                assert(w0.slot_ok(p));
                if let Some(j) = w.joints[p] {
                    lemma_live_iff_contains(w0.bodies, j.body);
                    lemma_live_iff_contains(w.bodies, j.body);
                    let k = choose|k: int| 0 <= k < w0.bodies.len() && w0.bodies[k].id == j.body;
                    assert(pred(w0.bodies[k]));
                    assert(w.bodies.contains(w0.bodies[k]));
                }
            }
        }
    }
}

} // verus!
