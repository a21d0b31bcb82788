use gaff::checksum::checksum;
use gaff::frame_store::FrameStateStore;
use gaff::geom::{Rotation, Vec2};
use gaff::grabber_2d::{grab, Projection};
use gaff::input::{GaffInput, INPUT_LEFT, INPUT_RIGHT, INPUT_UP};
use gaff::session::{
    configure_session, InputStatus, Request, RollbackSession, SessionConfig, SessionError, FPS,
    INPUT_DELAY, MAX_PREDICTION,
};
use gaff::step::finish_frame;
use gaff::world::{Body, BodyKind, Collider, World};

fn marble_world(players: usize) -> World {
    let mut w = World::new(players);
    w.bodies.push(Body {
        id: 1,
        kind: BodyKind::Dynamic,
        collider: Collider::Ball { radius: 100_000 },
        position: Vec2::new(0, 0),
        rotation: Rotation::identity(),
        linear_velocity: Vec2::zero(),
        angular_velocity: 0,
        previous_position: Vec2::zero(),
        marble: true,
    });
    w.next_entity = 2;
    w
}

fn buttons(b: u8) -> GaffInput {
    GaffInput { mouse_pos: Vec2::zero(), buttons: b }
}

fn local_input(f: usize) -> GaffInput {
    if f < 2 {
        buttons(0)
    } else if f % 5 == 0 {
        buttons(INPUT_RIGHT)
    } else {
        buttons(0)
    }
}

fn remote_input(f: usize) -> GaffInput {
    if f < 2 {
        return buttons(0);
    }
    let mut b = 0;
    if f >= 4 {
        b |= INPUT_UP;
    }
    if f % 2 == 1 {
        b |= INPUT_LEFT;
    }
    buttons(b)
}

fn simulate(world: &mut World, inputs: &Vec<GaffInput>) {
    let none: Vec<Option<Projection>> = inputs.iter().map(|_| None).collect();
    grab(world, inputs, &none);
    finish_frame(world, inputs);
}

fn run_requests(world: &mut World, store: &mut FrameStateStore, reqs: Vec<Request>) -> usize {
    let mut loads = 0;
    for r in reqs {
        match r {
            Request::LoadState { frame } => {
                *world = store.restore(frame as u64);
                loads += 1;
            }
            Request::AdvanceFrame { frame, inputs } => {
                assert_eq!(world.frame, frame as u64);
                simulate(world, &inputs);
                store.save(frame as u64 + 1, world);
            }
        }
    }
    loads
}

#[test]
fn configure_session_values() {
    let c = configure_session(3);
    assert_eq!(
        c,
        SessionConfig { num_players: 3, max_prediction: 12, input_delay: 2, fps: 60 }
    );
    assert_eq!((MAX_PREDICTION, INPUT_DELAY, FPS), (12, 2, 60));
}

#[test]
fn rollback_replay_matches_forward_run() {
    let mut session = RollbackSession::new(configure_session(2));
    let mut world = marble_world(2);
    let mut store = FrameStateStore::new(MAX_PREDICTION + 2);
    store.save(0, &world);
    let mut rollbacks = 0;
    for t in 0..30usize {
        assert_eq!(session.add_local_input(0, local_input(t + 2)), InputStatus::Accepted);
        if t >= 3 && t - 3 >= 2 {
            assert_eq!(session.add_input(1, t - 3, remote_input(t - 3)), InputStatus::Accepted);
        }
        let reqs = session.advance_frame().unwrap();
        rollbacks += run_requests(&mut world, &mut store, reqs);
    }
    assert!(rollbacks > 0);
    let cf = session.current_frame();
    assert_eq!(cf, 30);
    for f in 27..=cf {
        assert_eq!(session.add_input(1, f, remote_input(f)), InputStatus::Accepted);
    }
    let reqs = session.advance_frame().unwrap();
    assert!(matches!(reqs[0], Request::LoadState { .. }));
    run_requests(&mut world, &mut store, reqs);
    assert_eq!(session.current_frame(), 31);
    assert_eq!(session.first_incorrect(), None);

    let mut forward = marble_world(2);
    for f in 0..=cf {
        simulate(&mut forward, &vec![local_input(f), remote_input(f)]);
    }
    assert_eq!(forward.frame, world.frame);
    assert_eq!(forward.bodies, world.bodies);
    assert_eq!(checksum(&forward), checksum(&world));
}

#[test]
fn session_predicts_last_known_input() {
    let mut session = RollbackSession::new(configure_session(2));
    // frames 0 and 1 are confirmed blank; player 1 confirms frame 2 only
    assert_eq!(session.add_input(1, 2, buttons(INPUT_UP)), InputStatus::Accepted);
    for _ in 0..3 {
        session.advance_frame().unwrap();
    }
    let reqs = session.advance_frame().unwrap();
    assert_eq!(reqs.len(), 1);
    match &reqs[0] {
        Request::AdvanceFrame { frame, inputs } => {
            assert_eq!(*frame, 3);
            assert_eq!(inputs[1], buttons(INPUT_UP));
            assert_eq!(inputs[0], buttons(0));
        }
        _ => panic!("expected an advance"),
    }
}

#[test]
fn misprediction_triggers_rollback_from_that_frame() {
    let mut session = RollbackSession::new(configure_session(2));
    for _ in 0..6 {
        session.advance_frame().unwrap();
    }
    // frames 2..5 were simulated with blank predictions for player 1
    assert_eq!(session.add_input(1, 2, buttons(0)), InputStatus::Accepted);
    assert_eq!(session.first_incorrect(), None);
    assert_eq!(session.add_input(1, 4, buttons(INPUT_UP)), InputStatus::Accepted);
    assert_eq!(session.first_incorrect(), Some(4));
    assert_eq!(session.add_input(1, 3, buttons(INPUT_LEFT)), InputStatus::Accepted);
    assert_eq!(session.first_incorrect(), Some(3));
    let reqs = session.advance_frame().unwrap();
    // load frame 3, then frames 3, 4, 5 again, then frame 6
    assert_eq!(reqs.len(), 5);
    assert!(matches!(reqs[0], Request::LoadState { frame: 3 }));
    let expected = [(3, INPUT_LEFT), (4, INPUT_UP), (5, 0), (6, INPUT_UP)];
    for (r, (f, b)) in reqs[1..].iter().zip(expected.iter()) {
        match r {
            Request::AdvanceFrame { frame, inputs } => {
                assert_eq!(*frame, *f);
                assert_eq!(inputs[1], buttons(*b));
                assert_eq!(inputs[0], buttons(0));
            }
            _ => panic!("expected an advance"),
        }
    }
    // frame 5 kept its earlier prediction; only a new tick predicts afresh
    assert_eq!(session.first_incorrect(), None);
}

#[test]
fn session_stalls_beyond_prediction_window() {
    let mut session = RollbackSession::new(configure_session(2));
    // frames 0 and 1 are confirmed, so frames up to 13 may be predicted
    for _ in 0..14 {
        assert!(session.advance_frame().is_ok());
    }
    assert_eq!(session.advance_frame().unwrap_err(), SessionError::PredictionThreshold);
    assert_eq!(session.current_frame(), 14);
    assert_eq!(session.confirmed_frames(), 2);
    session.add_input(0, 2, buttons(0));
    session.add_input(1, 2, buttons(0));
    assert!(session.advance_frame().is_ok());
    assert_eq!(session.confirmed_frames(), 3);
}

#[test]
fn session_drops_bad_inputs() {
    let mut session = RollbackSession::new(configure_session(2));
    assert_eq!(session.add_input(2, 5, buttons(0)), InputStatus::UnknownPlayer);
    assert_eq!(session.add_input(0, 1, buttons(0)), InputStatus::Duplicate);
    assert_eq!(session.add_input(0, 15, buttons(0)), InputStatus::OutOfWindow);
    assert_eq!(session.add_input(0, 14, buttons(0)), InputStatus::Accepted);
    assert_eq!(session.add_input(0, 14, buttons(INPUT_UP)), InputStatus::Duplicate);
}

#[test]
fn first_tick_simulates_frame_zero() {
    let mut session = RollbackSession::new(configure_session(1));
    let reqs = session.advance_frame().unwrap();
    assert_eq!(reqs.len(), 1);
    match &reqs[0] {
        Request::AdvanceFrame { frame, inputs } => {
            assert_eq!(*frame, 0);
            assert_eq!(inputs.len(), 1);
        }
        _ => panic!("expected an advance"),
    }
}
