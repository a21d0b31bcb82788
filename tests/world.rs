use gaff::checksum::{checksum, digest, position_hash, MIX_BASIS, MIX_PRIME};
use gaff::frame_store::FrameStateStore;
use gaff::geom::{is_within, squared_distance, Rotation, Vec2};
use gaff::input::{GaffInput, INPUT_DOWN, INPUT_LEFT, INPUT_RIGHT, INPUT_UP};
use gaff::lobby::{lobby_system, log_ggrs_events, setup, AppState, LobbyAction, SessionEvent};
use gaff::physics::{apply_motion, BodyMotion};
use gaff::scene::{setup_scene, spawn_marbles, MARBLE_COUNT};
use gaff::step::{clamped_add, increase_frame, movement, update_previous_position};
use gaff::world::{find_body, Body, BodyKind, Collider, World};

fn marble(id: u64, x: i32, y: i32) -> Body {
    Body {
        id,
        kind: BodyKind::Dynamic,
        collider: Collider::Ball { radius: 100_000 },
        position: Vec2::new(x, y),
        rotation: Rotation::identity(),
        linear_velocity: Vec2::zero(),
        angular_velocity: 0,
        previous_position: Vec2::new(x, y),
        marble: true,
    }
}

fn buttons(b: u8) -> GaffInput {
    GaffInput { mouse_pos: Vec2::zero(), buttons: b }
}

#[test]
fn setup_scene_adds_four_walls_on_first_frame() {
    let mut w = World::new(1);
    setup_scene(&mut w);
    assert_eq!(w.bodies.len(), 4);
    assert_eq!(w.bodies[0].position, Vec2::new(0, 3_000_000));
    assert_eq!(w.bodies[1].position, Vec2::new(0, -3_000_000));
    assert_eq!(w.bodies[2].position, Vec2::new(-4_750_000, 0));
    assert_eq!(w.bodies[3].position, Vec2::new(4_750_000, 0));
    assert_eq!(w.bodies[0].collider, Collider::Cuboid { width: 10_000_000, height: 500_000 });
    assert_eq!(w.bodies[2].collider, Collider::Cuboid { width: 500_000, height: 5_500_000 });
    assert!(w.bodies.iter().all(|b| b.kind == BodyKind::Static && !b.marble));
    assert_eq!(w.next_entity, 4);
    let mut later = World::new(1);
    later.frame = 3;
    setup_scene(&mut later);
    assert!(later.bodies.is_empty());
}

#[test]
fn spawn_marbles_fills_the_grid() {
    let mut w = World::new(1);
    spawn_marbles(&mut w);
    assert_eq!(w.bodies.len(), MARBLE_COUNT);
    assert_eq!(w.bodies[0].position, Vec2::new(-2_250_000, -2_250_000));
    assert_eq!(w.bodies[1].position, Vec2::new(-2_250_000, -2_000_000));
    assert_eq!(w.bodies[19].position, Vec2::new(-2_000_000, -2_250_000));
    assert_eq!(w.bodies[180].position, Vec2::new(0, 0));
    assert_eq!(w.bodies[360].position, Vec2::new(2_250_000, 2_250_000));
    assert_eq!(w.bodies[360].previous_position, Vec2::new(2_250_000, 2_250_000));
    assert_eq!(w.bodies[5].collider, Collider::Ball { radius: 100_000 });
    assert!(w.bodies.iter().all(|b| b.marble && b.kind == BodyKind::Dynamic));
    assert_eq!(w.bodies[360].id, 360);
    assert_eq!(w.next_entity, 361);
    let mut later = World::new(1);
    later.frame = 1;
    spawn_marbles(&mut later);
    assert!(later.bodies.is_empty());
}

#[test]
fn movement_pushes_marbles_only() {
    let mut w = World::new(2);
    w.bodies.push(marble(1, 0, 0));
    let mut wall = marble(2, 0, 0);
    wall.marble = false;
    wall.kind = BodyKind::Static;
    w.bodies.push(wall);
    movement(&mut w, &vec![buttons(INPUT_UP | INPUT_LEFT), buttons(INPUT_DOWN | INPUT_RIGHT | INPUT_RIGHT)]);
    assert_eq!(w.bodies[0].linear_velocity, Vec2::new(0, 400_000));
    assert_eq!(w.bodies[1].linear_velocity, Vec2::zero());
    movement(&mut w, &vec![buttons(INPUT_RIGHT), buttons(INPUT_RIGHT)]);
    assert_eq!(w.bodies[0].linear_velocity, Vec2::new(200_000, 400_000));
}

#[test]
fn movement_saturates() {
    assert_eq!(clamped_add(i32::MAX - 5, 100_000), i32::MAX);
    assert_eq!(clamped_add(i32::MIN + 5, -100_000), i32::MIN);
    assert_eq!(clamped_add(7, -10), -3);
}

#[test]
fn bookkeeping_records_previous_position_and_frame() {
    let mut w = World::new(1);
    w.bodies.push(marble(1, 10, 20));
    apply_motion(
        &mut w,
        &vec![BodyMotion {
            position: Vec2::new(15, 25),
            rotation: Rotation::identity(),
            linear_velocity: Vec2::new(5, 5),
            angular_velocity: 0,
        }],
    );
    assert_eq!(w.bodies[0].position, Vec2::new(15, 25));
    assert_eq!(w.bodies[0].previous_position, Vec2::new(10, 20));
    update_previous_position(&mut w);
    assert_eq!(w.bodies[0].previous_position, Vec2::new(15, 25));
    increase_frame(&mut w);
    increase_frame(&mut w);
    assert_eq!(w.frame, 2);
}

#[test]
fn find_body_returns_first_match() {
    let v = vec![marble(4, 0, 0), marble(6, 0, 0), marble(6, 1, 1)];
    assert_eq!(find_body(&v, 6), Some(1));
    assert_eq!(find_body(&v, 5), None);
}

#[test]
fn distance_helpers() {
    assert_eq!(squared_distance(Vec2::new(0, 0), Vec2::new(3, 4)), 25);
    assert!(is_within(Vec2::new(0, 0), Vec2::new(3, 4), 5));
    assert!(!is_within(Vec2::new(0, 0), Vec2::new(3, 4), 4));
    assert_eq!(squared_distance(Vec2::new(i32::MIN, i32::MIN), Vec2::new(i32::MAX, i32::MAX)), 2 * (u32::MAX as i128) * (u32::MAX as i128));
}

#[test]
fn checksum_is_stable_and_order_independent() {
    let mut a = World::new(1);
    a.bodies.push(marble(1, 10, 20));
    a.bodies.push(marble(2, -30, 40));
    let mut b = World::new(1);
    b.bodies.push(marble(2, -30, 40));
    b.bodies.push(marble(1, 10, 20));
    assert_eq!(checksum(&a), checksum(&a));
    assert_eq!(checksum(&a), checksum(&b));
    b.bodies[0].position.x = -31;
    assert_ne!(checksum(&a), checksum(&b));
    let d1 = digest(&a.bodies[0]);
    let sum = d1.wrapping_add(digest(&a.bodies[1]));
    assert_eq!(checksum(&a), (sum ^ 0).wrapping_mul(MIX_PRIME));
    a.frame = 1;
    assert_ne!(checksum(&a), (sum ^ 0).wrapping_mul(MIX_PRIME));
}

#[test]
fn position_hash_uses_bit_patterns() {
    let h = position_hash(Vec2::new(-1, 2));
    let expected = ((MIX_BASIS ^ 0xffff_ffff).wrapping_mul(MIX_PRIME) ^ 2).wrapping_mul(MIX_PRIME);
    assert_eq!(h, expected);
    assert_ne!(position_hash(Vec2::new(-1, 2)), position_hash(Vec2::new(2, -1)));
}

#[test]
fn restore_twice_gives_same_state() {
    let mut store = FrameStateStore::new(3);
    let mut w = World::new(2);
    w.bodies.push(marble(1, 10, 20));
    w.frame = 5;
    store.save(5, &w);
    w.bodies[0].position = Vec2::new(99, 99);
    let first = store.restore(5);
    let second = store.restore(5);
    assert_eq!(first.bodies, second.bodies);
    assert_eq!(first.frame, 5);
    assert_eq!(first.bodies[0].position, Vec2::new(10, 20));
    assert_eq!(checksum(&first), checksum(&second));
    assert_eq!(first.grabbers, second.grabbers);
}

#[test]
fn store_evicts_frames_beyond_capacity() {
    let mut store = FrameStateStore::new(3);
    let w = World::new(1);
    for f in 0..5u64 {
        store.save(f, &w);
    }
    assert!(!store.contains(0));
    assert!(!store.contains(1));
    assert!(store.contains(2));
    assert!(store.contains(4));
    assert!(!store.contains(5));
}

#[test]
fn startup_and_lobby_decisions() {
    assert_eq!(setup(1), AppState::InGame);
    assert_eq!(setup(2), AppState::Lobby);
    assert_eq!(lobby_system(3, 0), LobbyAction::Wait { remaining: 2 });
    assert_eq!(lobby_system(3, 2), LobbyAction::StartSession);
}

#[test]
fn desync_event_is_fatal() {
    let events = vec![
        SessionEvent::PeerStatus { peer: 1 },
        SessionEvent::DesyncDetected { frame: 10, local_checksum: 1, remote_checksum: 2 },
        SessionEvent::DesyncDetected { frame: 20, local_checksum: 1, remote_checksum: 3 },
    ];
    assert_eq!(log_ggrs_events(&events), Some(1));
    assert_eq!(log_ggrs_events(&vec![SessionEvent::PeerStatus { peer: 0 }]), None);
}
