//! The rollback-tracked simulation state: physics bodies, and the grab
//! anchors and joints indexed by player handle.
use vstd::prelude::*;
use crate::geom::{LocalPoint, Rotation, Vec2};

verus! {

/// How the physics engine moves a body.
#[derive(Clone, Copy, Debug, PartialEq, Eq, Structural, Hash)]
pub enum BodyKind {
    Static,
    Dynamic,
    Kinematic,
}

/// The collision shape of a body, in world units.
#[derive(Clone, Copy, Debug, PartialEq, Eq, Structural, Hash)]
pub enum Collider {
    Ball { radius: i32 },
    Cuboid { width: i32, height: i32 },
}

/// A physics body and its rollback-tracked components.
#[derive(Clone, Copy, Debug, PartialEq, Eq, Structural, Hash)]
pub struct Body {
    pub id: u64,
    pub kind: BodyKind,
    pub collider: Collider,
    pub position: Vec2,
    pub rotation: Rotation,
    pub linear_velocity: Vec2,
    pub angular_velocity: i32,
    pub previous_position: Vec2,
    pub marble: bool,
}

/// The kinematic point that a player's grabbed body follows, placed at the
/// player's pointer.
#[derive(Clone, Copy, Debug, PartialEq, Eq, Structural, Hash)]
pub struct Grabber {
    pub entity: u64,
    pub player_handle: usize,
    pub position: Vec2,
}

/// A distance joint between a player's grabber and one body.
#[derive(Clone, Copy, Debug, PartialEq, Eq, Structural, Hash)]
pub struct GrabberJoint {
    pub entity: u64,
    pub player_handle: usize,
    /// Entity of the grabber at the joint's first end.
    pub grabber: u64,
    /// Id of the body at the joint's second end.
    pub body: u64,
    /// Where the joint holds the body, in the body's own frame.
    pub local_anchor: LocalPoint,
    /// Compliance, in millionths.
    pub compliance: u32,
    /// Linear velocity damping, in world units per scene unit.
    pub linear_damping: i32,
    /// Angular velocity damping, in world units per scene unit.
    pub angular_damping: i32,
}

/// All rollback-tracked state of one frame. Slot `p` of `grabbers` and of
/// `joints` belongs to the player with handle `p`.
pub struct World {
    pub frame: u64,
    pub next_entity: u64,
    pub bodies: Vec<Body>,
    pub grabbers: Vec<Option<Grabber>>,
    pub joints: Vec<Option<GrabberJoint>>,
}

pub struct WorldView {
    pub frame: u64,
    pub next_entity: u64,
    pub bodies: Seq<Body>,
    pub grabbers: Seq<Option<Grabber>>,
    pub joints: Seq<Option<GrabberJoint>>,
}

impl View for World {
    type V = WorldView;

    open spec fn view(&self) -> WorldView {
        WorldView {
            frame: self.frame,
            next_entity: self.next_entity,
            bodies: self.bodies@,
            grabbers: self.grabbers@,
            joints: self.joints@,
        }
    }
}

/// Index of the first body with the given id, searching from `i` on.
pub open spec fn find_body_from(bodies: Seq<Body>, id: u64, i: int) -> Option<int>
    decreases bodies.len() - i,
{
    if i < 0 || i >= bodies.len() {
        None
    } else if bodies[i].id == id {
        Some(i)
    } else {
        find_body_from(bodies, id, i + 1)
    }
}

/// Index of the first body with the given id.
pub open spec fn find_body_spec(bodies: Seq<Body>, id: u64) -> Option<int> {
    find_body_from(bodies, id, 0)
}

/// Whether a body with the given id is live.
pub open spec fn body_live(bodies: Seq<Body>, id: u64) -> bool {
    find_body_spec(bodies, id) is Some
}

impl WorldView {
    pub open spec fn num_players(self) -> nat {
        self.grabbers.len()
    }

    /// Slot `p` is consistent: its grabber and joint belong to player `p`, and
    /// a joint references the player's live grabber and a live body.
    pub open spec fn slot_ok(self, p: int) -> bool {
        &&& match self.grabbers[p] {
            Some(g) => g.player_handle == p,
            None => true,
        }
        &&& match self.joints[p] {
            Some(j) => {
                &&& j.player_handle == p
                &&& self.grabbers[p] is Some
                &&& j.grabber == self.grabbers[p]->Some_0.entity
                &&& body_live(self.bodies, j.body)
            },
            None => true,
        }
    }

    pub open spec fn wf(self) -> bool {
        &&& self.grabbers.len() == self.joints.len()
        &&& self.grabbers.len() <= usize::MAX
        &&& forall|p: int| 0 <= p < self.grabbers.len() ==> #[trigger] self.slot_ok(p)
    }
}

pub proof fn lemma_find_body_found(bodies: Seq<Body>, id: u64, i: int)
    requires
        0 <= i,
    ensures
        match find_body_from(bodies, id, i) {
            Some(k) => i <= k < bodies.len() && bodies[k].id == id,
            None => forall|k: int| i <= k < bodies.len() ==> bodies[k].id != id,
        },
    decreases bodies.len() - i,
{
    if i < bodies.len() && bodies[i].id != id {
        lemma_find_body_found(bodies, id, i + 1);
    }
}

/// The index of the first body with id `id`.
pub fn find_body(bodies: &Vec<Body>, id: u64) -> (r: Option<usize>)
    ensures
        r matches Some(i) ==> find_body_spec(bodies@, id) == Some(i as int),
        r is None ==> find_body_spec(bodies@, id) is None,
{
    let mut i: usize = 0;
    while i < bodies.len()
        invariant
            0 <= i <= bodies.len(),
            find_body_spec(bodies@, id) == find_body_from(bodies@, id, i as int),
        decreases bodies.len() - i,
    {
        if bodies[i].id == id {
            return Some(i);
        }
        i = i + 1;
    }
    None
}

impl World {
    /// A world with no bodies and empty slots for `num_players` players.
    pub fn new(num_players: usize) -> (r: World)
        ensures
            r@.frame == 0,
            r@.next_entity == 0,
            r@.bodies == Seq::<Body>::empty(),
            r@.grabbers == Seq::new(num_players as nat, |p: int| None::<Grabber>),
            r@.joints == Seq::new(num_players as nat, |p: int| None::<GrabberJoint>),
            r@.wf(),
    {
        let mut grabbers: Vec<Option<Grabber>> = Vec::new();
        let mut joints: Vec<Option<GrabberJoint>> = Vec::new();
        let mut i: usize = 0;
        while i < num_players
            invariant
                0 <= i <= num_players,
                grabbers@ == Seq::new(i as nat, |p: int| None::<Grabber>),
                joints@ == Seq::new(i as nat, |p: int| None::<GrabberJoint>),
            decreases num_players - i,
        {
            grabbers.push(None);
            joints.push(None);
            i = i + 1;
            assert(grabbers@ =~= Seq::new(i as nat, |p: int| None::<Grabber>));
            assert(joints@ =~= Seq::new(i as nat, |p: int| None::<GrabberJoint>));
        }
        let r = World { frame: 0, next_entity: 0, bodies: Vec::new(), grabbers, joints };
        assert(forall|p: int| 0 <= p < r@.grabbers.len() ==> #[trigger] r@.slot_ok(p));
        r
    }

    /// A copy of this world with the same tracked state.
    pub fn duplicate(&self) -> (r: World)
        ensures
            r@ == self@,
    {
        let mut bodies: Vec<Body> = Vec::new();
        let mut i: usize = 0;
        while i < self.bodies.len()
            invariant
                0 <= i <= self.bodies.len(),
                bodies@ == self.bodies@.take(i as int),
            decreases self.bodies.len() - i,
        {
            bodies.push(self.bodies[i]);
            i = i + 1;
            assert(bodies@ =~= self.bodies@.take(i as int));
        }
        let mut grabbers: Vec<Option<Grabber>> = Vec::new();
        let mut i: usize = 0;
        while i < self.grabbers.len()
            invariant
                0 <= i <= self.grabbers.len(),
                grabbers@ == self.grabbers@.take(i as int),
            decreases self.grabbers.len() - i,
        {
            grabbers.push(self.grabbers[i]);
            i = i + 1;
            assert(grabbers@ =~= self.grabbers@.take(i as int));
        }
        let mut joints: Vec<Option<GrabberJoint>> = Vec::new();
        let mut i: usize = 0;
        while i < self.joints.len()
            invariant
                0 <= i <= self.joints.len(),
                joints@ == self.joints@.take(i as int),
            decreases self.joints.len() - i,
        {
            joints.push(self.joints[i]);
            i = i + 1;
            assert(joints@ =~= self.joints@.take(i as int));
        }
        assert(bodies@ =~= self.bodies@);
        assert(grabbers@ =~= self.grabbers@);
        assert(joints@ =~= self.joints@);
        World {
            frame: self.frame,
            next_entity: self.next_entity,
            bodies,
            grabbers,
            joints,
        }
    }
}

} // verus!
