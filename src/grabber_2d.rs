//! Grab interaction: per player, a pointer-driven anchor and a joint that
//! ties it to the body under the pointer.
use vstd::prelude::*;
use crate::geom::{is_within, local_point, to_local, within, LocalPoint, Vec2};
use crate::input::GaffInput;
use crate::world::{
    body_live, find_body, find_body_spec, Body, Grabber, GrabberJoint, World, WorldView,
};

verus! {

/// Capture radius of a grab, in world units (100 scene units).
pub const GRAB_MIN_DISTANCE: i64 = 1_000_000;
/// Joint compliance, in millionths.
pub const GRAB_COMPLIANCE: u32 = 1;
/// Joint linear velocity damping (5 scene units).
pub const GRAB_LINEAR_DAMPING: i32 = 50_000;
/// Joint angular velocity damping (1 scene unit).
pub const GRAB_ANGULAR_DAMPING: i32 = 10_000;

/// The physics engine's answer to a point projection: the body whose
/// collider surface is nearest to the queried point, and that surface point.
#[derive(Clone, Copy, Debug, PartialEq, Eq, Structural, Hash)]
pub struct Projection {
    pub entity: u64,
    pub point: Vec2,
}

/// Whether a projected contact is close enough to the cursor to be grabbed.
pub open spec fn captures(point: Vec2, cursor: Vec2) -> bool {
    within(point, cursor, GRAB_MIN_DISTANCE as int)
}

/// The joint that ties grabber `gid` of player `p` to `body` at `point`.
pub open spec fn joint_spec(entity: u64, p: int, gid: u64, body: Body, point: Vec2) -> GrabberJoint {
    let a = to_local(body.rotation, body.position, point);
    GrabberJoint {
        entity,
        player_handle: p as usize,
        grabber: gid,
        body: body.id,
        local_anchor: LocalPoint { x: a.0 as i128, y: a.1 as i128 },
        compliance: GRAB_COMPLIANCE,
        linear_damping: GRAB_LINEAR_DAMPING,
        angular_damping: GRAB_ANGULAR_DAMPING,
    }
}

/// Player `p` holds grabber `gid`: attach a joint if none exists and the
/// projection finds a live body within the capture radius of `cursor`.
pub open spec fn attach_spec(
    w: WorldView,
    p: int,
    gid: u64,
    cursor: Vec2,
    proj: Option<Projection>,
) -> WorldView {
    match proj {
        Some(pr) => {
            if w.joints[p] is None && captures(pr.point, cursor) && find_body_spec(
                w.bodies,
                pr.entity,
            ) is Some {
                let body = w.bodies[find_body_spec(w.bodies, pr.entity)->Some_0];
                WorldView {
                    joints: w.joints.update(
                        p,
                        Some(joint_spec(w.next_entity, p, gid, body, pr.point)),
                    ),
                    next_entity: w.next_entity.wrapping_add(1),
                    ..w
                }
            } else {
                w
            }
        },
        None => w,
    }
}

/// One player's grab transition for one frame.
pub open spec fn grab_player(
    w: WorldView,
    p: int,
    input: GaffInput,
    proj: Option<Projection>,
) -> WorldView {
    let cursor = input.mouse_pos;
    if input.grab_held() {
        match w.grabbers[p] {
            Some(g) => attach_spec(
                WorldView {
                    grabbers: w.grabbers.update(p, Some(Grabber { position: cursor, ..g })),
                    ..w
                },
                p,
                g.entity,
                cursor,
                proj,
            ),
            None => attach_spec(
                WorldView {
                    grabbers: w.grabbers.update(
                        p,
                        Some(Grabber { entity: w.next_entity, player_handle: p as usize, position: cursor }),
                    ),
                    next_entity: w.next_entity.wrapping_add(1),
                    ..w
                },
                p,
                w.next_entity,
                cursor,
                proj,
            ),
        }
    } else {
        WorldView {
            grabbers: w.grabbers.update(p, None),
            joints: w.joints.update(p, None),
            ..w
        }
    }
}

/// The grab transitions of players `0..k`, in handle order.
pub open spec fn grab_upto(
    w: WorldView,
    inputs: Seq<GaffInput>,
    projections: Seq<Option<Projection>>,
    k: int,
) -> WorldView
    decreases k,
{
    if k <= 0 {
        w
    } else {
        grab_player(grab_upto(w, inputs, projections, k - 1), k - 1, inputs[k - 1], projections[k - 1])
    }
}

/// The grab transitions of every player.
pub open spec fn grab_spec(
    w: WorldView,
    inputs: Seq<GaffInput>,
    projections: Seq<Option<Projection>>,
) -> WorldView {
    grab_upto(w, inputs, projections, inputs.len() as int)
}

/// A grab transition touches only slot `p`, keeps bodies, frame and the
/// slot count, and keeps the world well formed.
pub proof fn lemma_grab_player_frame(w: WorldView, p: int, input: GaffInput, proj: Option<Projection>)
    requires
        w.wf(),
        0 <= p < w.num_players(),
    ensures
        grab_player(w, p, input, proj).wf(),
        grab_player(w, p, input, proj).bodies == w.bodies,
        grab_player(w, p, input, proj).frame == w.frame,
        grab_player(w, p, input, proj).grabbers.len() == w.grabbers.len(),
        forall|q: int|
            0 <= q < w.num_players() && q != p ==> {
                &&& (#[trigger] grab_player(w, p, input, proj).grabbers[q]) == w.grabbers[q]
                &&& grab_player(w, p, input, proj).joints[q] == w.joints[q]
            },
{
    let r = grab_player(w, p, input, proj);
    let cursor = input.mouse_pos;
    if input.grab_held() {
        let (w1, gid) = match w.grabbers[p] {
            Some(g) => (
                WorldView {
                    grabbers: w.grabbers.update(p, Some(Grabber { position: cursor, ..g })),
                    ..w
                },
                g.entity,
            ),
            None => (
                WorldView {
                    grabbers: w.grabbers.update(
                        p,
                        Some(Grabber { entity: w.next_entity, player_handle: p as usize, position: cursor }),
                    ),
                    next_entity: w.next_entity.wrapping_add(1),
                    ..w
                },
                w.next_entity,
            ),
        };
        assert(r == attach_spec(w1, p, gid, cursor, proj));
        assert(w.slot_ok(p));
        assert forall|q: int| 0 <= q < w1.grabbers.len() implies #[trigger] w1.slot_ok(q) by {
            assert(w.slot_ok(q));
        }
        lemma_attach_frame(w1, p, gid, cursor, proj);
    } else {
        assert forall|q: int| 0 <= q < r.grabbers.len() implies #[trigger] r.slot_ok(q) by {
            assert(w.slot_ok(q));
        }
    }
}

/// Attaching keeps the world well formed when slot `p` holds grabber `gid`.
proof fn lemma_attach_frame(w: WorldView, p: int, gid: u64, cursor: Vec2, proj: Option<Projection>)
    requires
        w.wf(),
        0 <= p < w.num_players(),
        w.grabbers[p] matches Some(g) && g.entity == gid,
    ensures
        attach_spec(w, p, gid, cursor, proj).wf(),
        attach_spec(w, p, gid, cursor, proj).bodies == w.bodies,
        attach_spec(w, p, gid, cursor, proj).frame == w.frame,
        attach_spec(w, p, gid, cursor, proj).grabbers == w.grabbers,
        forall|q: int|
            0 <= q < w.num_players() && q != p ==> (#[trigger] attach_spec(w, p, gid, cursor, proj).joints[q]) == w.joints[q],
{
    let r = attach_spec(w, p, gid, cursor, proj);
    if let Some(pr) = proj {
        crate::world::lemma_find_body_found(w.bodies, pr.entity, 0);
    }
    assert forall|q: int| 0 <= q < r.grabbers.len() implies #[trigger] r.slot_ok(q) by {
        assert(w.slot_ok(q));
    }
}

fn attach(world: &mut World, p: usize, gid: u64, cursor: Vec2, proj: Option<Projection>)
    requires
        p < old(world)@.joints.len(),
    ensures
        final(world)@ == attach_spec(old(world)@, p as int, gid, cursor, proj),
{
    if let Some(pr) = proj {
        if world.joints[p].is_none() && is_within(pr.point, cursor, GRAB_MIN_DISTANCE) {
            match find_body(&world.bodies, pr.entity) {
                Some(i) => {
                    proof {
                        crate::world::lemma_find_body_found(world@.bodies, pr.entity, 0);
                    }
                    let body = world.bodies[i];
                    let anchor = local_point(body.rotation, body.position, pr.point);
                    let joint = GrabberJoint {
                        entity: world.next_entity,
                        player_handle: p,
                        grabber: gid,
                        body: body.id,
                        local_anchor: anchor,
                        compliance: GRAB_COMPLIANCE,
                        linear_damping: GRAB_LINEAR_DAMPING,
                        angular_damping: GRAB_ANGULAR_DAMPING,
                    };
                    assert(joint == joint_spec(world.next_entity, p as int, gid, body, pr.point));
                    world.joints.set(p, Some(joint));
                    world.next_entity = world.next_entity.wrapping_add(1);
                },
                None => {},
            }
        }
    }
}

fn grab_one(world: &mut World, p: usize, input: GaffInput, proj: Option<Projection>)
    requires
        p < old(world)@.num_players(),
        old(world)@.wf(),
    ensures
        final(world)@ == grab_player(old(world)@, p as int, input, proj),
{
    let cursor = input.mouse_pos;
    if input.is_grabbing() {
        match world.grabbers[p] {
            Some(g) => {
                world.grabbers.set(p, Some(Grabber { position: cursor, ..g }));
                attach(world, p, g.entity, cursor, proj);
            },
            None => {
                let gid = world.next_entity;
                world.grabbers.set(p, Some(Grabber { entity: gid, player_handle: p, position: cursor }));
                world.next_entity = world.next_entity.wrapping_add(1);
                attach(world, p, gid, cursor, proj);
            },
        }
    } else {
        world.grabbers.set(p, None);
        world.joints.set(p, None);
    }
}

/// Runs the grab transition of every player, in handle order, against the
/// world as the previous frame left it. `inputs[p]` is player `p`'s input for
/// this frame and `projections[p]` the physics engine's point projection at
/// `inputs[p].mouse_pos`.
pub fn grab(world: &mut World, inputs: &Vec<GaffInput>, projections: &Vec<Option<Projection>>)
    requires
        old(world)@.wf(),
        inputs.len() == old(world)@.num_players(),
        projections.len() == inputs.len(),
    ensures
        final(world)@ == grab_spec(old(world)@, inputs@, projections@),
        final(world)@.wf(),
{
    let ghost w0 = world@;
    let n = inputs.len();
    let mut p: usize = 0;
    while p < n
        invariant
            0 <= p <= n,
            n == inputs.len(),
            projections.len() == n,
            n == w0.num_players(),
            world@ == grab_upto(w0, inputs@, projections@, p as int),
            world@.wf(),
            world@.num_players() == n,
        decreases n - p,
    {
        proof {
            lemma_grab_player_frame(world@, p as int, inputs@[p as int], projections@[p as int]);
        }
        grab_one(world, p, inputs[p], projections[p]);
        p = p + 1;
    }
}

/// The transitions of players `0..k` keep the world well formed and leave
/// the slots of players `k..` and the bodies alone.
pub proof fn lemma_grab_upto_frame(
    w: WorldView,
    inputs: Seq<GaffInput>,
    projections: Seq<Option<Projection>>,
    k: int,
)
    requires
        w.wf(),
        0 <= k <= w.num_players(),
        inputs.len() == w.num_players(),
        projections.len() == inputs.len(),
    ensures
        grab_upto(w, inputs, projections, k).wf(),
        grab_upto(w, inputs, projections, k).bodies == w.bodies,
        grab_upto(w, inputs, projections, k).frame == w.frame,
        grab_upto(w, inputs, projections, k).num_players() == w.num_players(),
        forall|q: int|
            k <= q < w.num_players() ==> {
                &&& (#[trigger] grab_upto(w, inputs, projections, k).grabbers[q]) == w.grabbers[q]
                &&& grab_upto(w, inputs, projections, k).joints[q] == w.joints[q]
            },
    decreases k,
{
    if k > 0 {
        lemma_grab_upto_frame(w, inputs, projections, k - 1);
        lemma_grab_player_frame(grab_upto(w, inputs, projections, k - 1), k - 1, inputs[k - 1], projections[k - 1]);
    }
}

/// Slot `p` after transitions `p + 1..k` is what transition `p` left.
proof fn lemma_grab_upto_after(
    w: WorldView,
    inputs: Seq<GaffInput>,
    projections: Seq<Option<Projection>>,
    p: int,
    k: int,
)
    requires
        w.wf(),
        0 <= p < k <= w.num_players(),
        inputs.len() == w.num_players(),
        projections.len() == inputs.len(),
    ensures
        grab_upto(w, inputs, projections, k).grabbers[p] == grab_upto(w, inputs, projections, p + 1).grabbers[p],
        grab_upto(w, inputs, projections, k).joints[p] == grab_upto(w, inputs, projections, p + 1).joints[p],
    decreases k,
{
    if k > p + 1 {
        lemma_grab_upto_after(w, inputs, projections, p, k - 1);
        lemma_grab_upto_frame(w, inputs, projections, k - 1);
        lemma_grab_player_frame(grab_upto(w, inputs, projections, k - 1), k - 1, inputs[k - 1], projections[k - 1]);
    }
}

/// What one frame's grab update does to player `p`'s slot. With the grab
/// button held, the player has a grabber at the pointer, the same one as
/// before if there was one, and a joint that was there stays. A missing
/// joint is created exactly when the projection found a live body whose
/// contact lies within the capture radius, boundary included. With the
/// button released, the grabber and the joint are both gone.
pub proof fn lemma_grab_slot(
    w: WorldView,
    inputs: Seq<GaffInput>,
    projections: Seq<Option<Projection>>,
    p: int,
)
    requires
        w.wf(),
        0 <= p < w.num_players(),
        inputs.len() == w.num_players(),
        projections.len() == inputs.len(),
    ensures
        ({
            let r = grab_spec(w, inputs, projections);
            let input = inputs[p];
            &&& r.wf()
            &&& r.bodies == w.bodies
            &&& input.grab_held() ==> {
                &&& r.grabbers[p] is Some
                &&& r.grabbers[p]->Some_0.position == input.mouse_pos
                &&& w.grabbers[p] is Some ==> r.grabbers[p]->Some_0.entity == w.grabbers[p]->Some_0.entity
                &&& w.joints[p] is Some ==> r.joints[p] == w.joints[p]
                &&& w.joints[p] is None ==> (r.joints[p] is Some <==> (projections[p] matches Some(pr)
                    && captures(pr.point, input.mouse_pos) && body_live(w.bodies, pr.entity)))
                &&& (w.joints[p] is None && r.joints[p] is Some) ==> r.joints[p]->Some_0.body
                    == projections[p]->Some_0.entity
            }
            &&& !input.grab_held() ==> r.grabbers[p] is None && r.joints[p] is None
        }),
{
    let n = w.num_players() as int;
    lemma_grab_upto_frame(w, inputs, projections, n);
    lemma_grab_upto_frame(w, inputs, projections, p);
    lemma_grab_upto_after(w, inputs, projections, p, n);
    let wp = grab_upto(w, inputs, projections, p);
    lemma_grab_player_frame(wp, p, inputs[p], projections[p]);
    if let Some(pr) = projections[p] {
        crate::world::lemma_find_body_found(w.bodies, pr.entity, 0);
    }
}

} // verus!