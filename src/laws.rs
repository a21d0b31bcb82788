//! Properties of whole runs: replay after a rollback, the grab lifecycle
//! across frames, and agreement of peers' checksums.
use vstd::prelude::*;
use crate::checksum::checksum_spec;
use crate::frame_store::FrameStateStore;
use crate::grabber_2d::{grab_spec, lemma_grab_slot, Projection};
use crate::input::GaffInput;
use crate::step::{finish_frame_spec, lemma_finish_keeps_wf};
use crate::world::WorldView;

verus! {

/// One frame of the pipeline: the grab update against the world as the last
/// frame left it (with the engine's point projections of that world), the
/// engine's advance, then movement, bookkeeping and the frame counter.
pub open spec fn frame_spec(
    physics: spec_fn(WorldView) -> WorldView,
    project: spec_fn(WorldView, Seq<GaffInput>) -> Seq<Option<Projection>>,
    w: WorldView,
    inputs: Seq<GaffInput>,
) -> WorldView {
    finish_frame_spec(physics(grab_spec(w, inputs, project(w, inputs))), inputs)
}

/// The state reached from `s` by simulating frames `from..to` with the
/// inputs of those frames.
pub open spec fn run(
    physics: spec_fn(WorldView) -> WorldView,
    project: spec_fn(WorldView, Seq<GaffInput>) -> Seq<Option<Projection>>,
    s: WorldView,
    inputs: Seq<Seq<GaffInput>>,
    from: int,
    to: int,
) -> WorldView
    decreases to - from,
{
    if to <= from {
        s
    } else {
        frame_spec(physics, project, run(physics, project, s, inputs, from, to - 1), inputs[to - 1])
    }
}

/// Determinism under rollback: simulating frames `0..n` in one pass gives
/// the same state as simulating `0..k`, rewinding to that state and
/// simulating `k..n` again with the same inputs, for any deterministic
/// physics engine.
pub proof fn lemma_rollback_determinism(
    physics: spec_fn(WorldView) -> WorldView,
    project: spec_fn(WorldView, Seq<GaffInput>) -> Seq<Option<Projection>>,
    s0: WorldView,
    inputs: Seq<Seq<GaffInput>>,
    k: int,
    n: int,
)
    requires
        0 <= k <= n <= inputs.len(),
    ensures
        run(physics, project, run(physics, project, s0, inputs, 0, k), inputs, k, n) == run(
            physics,
            project,
            s0,
            inputs,
            0,
            n,
        ),
    decreases n,
{
    if n > k {
        lemma_rollback_determinism(physics, project, s0, inputs, k, n - 1);
    }
}

/// A rollback through the frame store: when the snapshot kept for frame `k`
/// is the state the forward run reached there, re-simulating `k..n` from it
/// reproduces the forward run's state at `n`.
pub proof fn lemma_restore_then_replay(
    physics: spec_fn(WorldView) -> WorldView,
    project: spec_fn(WorldView, Seq<GaffInput>) -> Seq<Option<Projection>>,
    store: FrameStateStore,
    s0: WorldView,
    inputs: Seq<Seq<GaffInput>>,
    k: u64,
    n: int,
)
    requires
        store.wf(),
        k <= n <= inputs.len(),
        store.saved(k) == Some(run(physics, project, s0, inputs, 0, k as int)),
    ensures
        run(physics, project, store.saved(k)->Some_0, inputs, k as int, n) == run(
            physics,
            project,
            s0,
            inputs,
            0,
            n,
        ),
{
    lemma_rollback_determinism(physics, project, s0, inputs, k as int, n);
}

/// Two peers that start from the same state and are fed the same inputs
/// compute the same checksum at every frame, even when one of them rolled
/// back to frame `k` and simulated the rest again.
pub proof fn lemma_peers_agree(
    physics: spec_fn(WorldView) -> WorldView,
    project: spec_fn(WorldView, Seq<GaffInput>) -> Seq<Option<Projection>>,
    s0: WorldView,
    inputs: Seq<Seq<GaffInput>>,
    k: int,
    n: int,
)
    requires
        0 <= k <= n <= inputs.len(),
    ensures
        checksum_spec(run(physics, project, run(physics, project, s0, inputs, 0, k), inputs, k, n))
            == checksum_spec(run(physics, project, s0, inputs, 0, n)),
{
    lemma_rollback_determinism(physics, project, s0, inputs, k, n);
}

/// No dangling joints: when the engine's advance keeps the world well formed
/// (its removals go through `despawn_body`), every frame of a run keeps every
/// joint tied to its player's live grabber and to a live body.
pub proof fn lemma_run_keeps_joints_live(
    physics: spec_fn(WorldView) -> WorldView,
    project: spec_fn(WorldView, Seq<GaffInput>) -> Seq<Option<Projection>>,
    s0: WorldView,
    inputs: Seq<Seq<GaffInput>>,
    n: int,
)
    requires
        s0.wf(),
        0 <= n <= inputs.len(),
        forall|v: WorldView| v.wf() ==> (#[trigger] physics(v)).wf() && physics(v).num_players() == v.num_players(),
        forall|v: WorldView, i: Seq<GaffInput>| (#[trigger] project(v, i)).len() == i.len(),
        forall|t: int| 0 <= t < inputs.len() ==> (#[trigger] inputs[t]).len() == s0.num_players(),
    ensures
        run(physics, project, s0, inputs, 0, n).wf(),
        run(physics, project, s0, inputs, 0, n).num_players() == s0.num_players(),
    decreases n,
{
    if n > 0 {
        lemma_run_keeps_joints_live(physics, project, s0, inputs, n - 1);
        let w = run(physics, project, s0, inputs, 0, n - 1);
        let i = inputs[n - 1];
        let proj = project(w, i);
        crate::grabber_2d::lemma_grab_upto_frame(w, i, proj, i.len() as int);
        lemma_finish_keeps_wf(physics(grab_spec(w, i, proj)), i);
    }
}

/// The frames `ws[t]` of a run in which each frame's grab update is
/// `grab_spec` and what follows it leaves player `p`'s grabber alone and at
/// most removes the player's joint.
pub open spec fn grab_run(
    ws: Seq<WorldView>,
    inputs: Seq<Seq<GaffInput>>,
    projections: Seq<Seq<Option<Projection>>>,
    p: int,
) -> bool {
    &&& ws.len() == inputs.len() + 1
    &&& projections.len() == inputs.len()
    &&& forall|t: int| 0 <= t < ws.len() ==> (#[trigger] ws[t]).wf()
    &&& forall|t: int| 0 <= t < ws.len() ==> 0 <= p < (#[trigger] ws[t]).num_players()
    &&& forall|t: int|
        0 <= t < inputs.len() ==> {
            &&& (#[trigger] inputs[t]).len() == ws[t].num_players()
            &&& projections[t].len() == inputs[t].len()
            &&& ws[t + 1].grabbers[p] == grab_spec(ws[t], inputs[t], projections[t]).grabbers[p]
            &&& ws[t + 1].joints[p] is Some ==> ws[t + 1].joints[p] == grab_spec(
                ws[t],
                inputs[t],
                projections[t],
            ).joints[p]
        }
}

/// The grab lifecycle: when player `p` has no grabber before frame `a`,
/// holds the grab button on frames `a..b` and releases it at frame `b`, one
/// grabber is spawned at `a` and the same one stays through `b - 1`; after
/// frame `b` neither the grabber nor a joint is left. At no frame does the
/// player have a joint without a grabber.
pub proof fn lemma_grab_lifecycle(
    ws: Seq<WorldView>,
    inputs: Seq<Seq<GaffInput>>,
    projections: Seq<Seq<Option<Projection>>>,
    p: int,
    a: int,
    b: int,
)
    requires
        grab_run(ws, inputs, projections, p),
        0 <= a < b < inputs.len(),
        ws[a].grabbers[p] is None,
        forall|t: int| a <= t < b ==> (#[trigger] inputs[t])[p].grab_held(),
        !inputs[b][p].grab_held(),
    ensures
        forall|t: int|
            a < t <= b ==> {
                &&& (#[trigger] ws[t]).grabbers[p] is Some
                &&& ws[t].grabbers[p]->Some_0.entity == ws[a + 1].grabbers[p]->Some_0.entity
            },
        ws[b + 1].grabbers[p] is None,
        ws[b + 1].joints[p] is None,
        forall|t: int| 0 <= t < ws.len() ==> ((#[trigger] ws[t]).joints[p] is Some ==> ws[t].grabbers[p] is Some),
{
    assert forall|t: int| a < t <= b implies {
        &&& (#[trigger] ws[t]).grabbers[p] is Some
        &&& ws[t].grabbers[p]->Some_0.entity == ws[a + 1].grabbers[p]->Some_0.entity
    } by {
        lemma_lifecycle_held(ws, inputs, projections, p, a, t);
    }
    assert(ws[b].wf() && 0 <= p < ws[b].num_players());
    lemma_grab_slot(ws[b], inputs[b], projections[b], p);
    assert forall|t: int| 0 <= t < ws.len() && (#[trigger] ws[t]).joints[p] is Some implies ws[t].grabbers[p] is Some by {
        assert(ws[t].wf());
        assert(ws[t].slot_ok(p));
    }
}

proof fn lemma_lifecycle_held(
    ws: Seq<WorldView>,
    inputs: Seq<Seq<GaffInput>>,
    projections: Seq<Seq<Option<Projection>>>,
    p: int,
    a: int,
    t: int,
)
    requires
        grab_run(ws, inputs, projections, p),
        0 <= a < t < ws.len(),
        ws[a].grabbers[p] is None,
        forall|u: int| a <= u < t ==> (#[trigger] inputs[u])[p].grab_held(),
    ensures
        ws[t].grabbers[p] is Some,
        ws[t].grabbers[p]->Some_0.entity == ws[a + 1].grabbers[p]->Some_0.entity,
    decreases t,
{
    assert(ws[t - 1].wf() && 0 <= p < ws[t - 1].num_players());
    assert(inputs[t - 1].len() == ws[t - 1].num_players());
    lemma_grab_slot(ws[t - 1], inputs[t - 1], projections[t - 1], p);
    if t - 1 > a {
        lemma_lifecycle_held(ws, inputs, projections, p, a, t - 1);
    }
}

} // verus!
