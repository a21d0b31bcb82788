use gaff::geom::{local_point, LocalPoint, Rotation, Vec2};
use gaff::grabber_2d::{grab, Projection, GRAB_MIN_DISTANCE};
use gaff::input::{input, GaffInput, INPUT_DOWN, INPUT_LEFT, INPUT_MOUSE_LEFT, INPUT_RIGHT, INPUT_UP};
use gaff::physics::despawn_body;
use gaff::step::finish_frame;
use gaff::world::{Body, BodyKind, Collider, World};

fn ball(id: u64, x: i32, y: i32, radius: i32) -> Body {
    Body {
        id,
        kind: BodyKind::Dynamic,
        collider: Collider::Ball { radius },
        position: Vec2::new(x, y),
        rotation: Rotation::identity(),
        linear_velocity: Vec2::zero(),
        angular_velocity: 0,
        previous_position: Vec2::new(x, y),
        marble: true,
    }
}

fn held(x: i32, y: i32) -> GaffInput {
    GaffInput { mouse_pos: Vec2::new(x, y), buttons: INPUT_MOUSE_LEFT }
}

fn released() -> GaffInput {
    GaffInput { mouse_pos: Vec2::zero(), buttons: 0 }
}

fn world_with_ball(players: usize) -> World {
    let mut w = World::new(players);
    w.bodies.push(ball(7, 0, 50_000, 1_000_000));
    w.next_entity = 8;
    w
}

#[test]
fn input_packs_buttons_and_cursor() {
    let i = input(true, false, true, false, true, Some(Vec2::new(3, -4)));
    assert_eq!(i.buttons, INPUT_UP | INPUT_LEFT | INPUT_MOUSE_LEFT);
    assert_eq!(i.mouse_pos, Vec2::new(3, -4));
    let j = input(false, true, false, true, false, None);
    assert_eq!(j.buttons, INPUT_DOWN | INPUT_RIGHT);
    assert_eq!(j.mouse_pos, Vec2::zero());
    assert_eq!(INPUT_MOUSE_LEFT, 16);
}

#[test]
fn capture_radius_boundary_is_inclusive() {
    assert_eq!(GRAB_MIN_DISTANCE, 1_000_000);
    // contact exactly 100.0 away from the cursor
    let mut w = world_with_ball(1);
    let proj = Projection { entity: 7, point: Vec2::new(0, 1_000_000) };
    grab(&mut w, &vec![held(0, 0)], &vec![Some(proj)]);
    assert!(w.joints[0].is_some());
    // contact 100.0001 away
    let mut w = world_with_ball(1);
    let proj = Projection { entity: 7, point: Vec2::new(0, 1_000_001) };
    grab(&mut w, &vec![held(0, 0)], &vec![Some(proj)]);
    assert!(w.joints[0].is_none());
    assert!(w.grabbers[0].is_some());
}

#[test]
fn grab_spawns_grabber_at_pointer() {
    let mut w = world_with_ball(2);
    grab(&mut w, &vec![released(), held(12, 34)], &vec![None, None]);
    assert!(w.grabbers[0].is_none());
    let g = w.grabbers[1].unwrap();
    assert_eq!(g.position, Vec2::new(12, 34));
    assert_eq!(g.player_handle, 1);
    assert_eq!(g.entity, 8);
    assert_eq!(w.next_entity, 9);
    assert!(w.joints[1].is_none());
}

#[test]
fn grab_missing_body_stays_holding() {
    let mut w = world_with_ball(1);
    let proj = Projection { entity: 99, point: Vec2::new(0, 0) };
    grab(&mut w, &vec![held(0, 0)], &vec![Some(proj)]);
    assert!(w.grabbers[0].is_some());
    assert!(w.joints[0].is_none());
}

#[test]
fn joint_anchor_is_in_body_frame() {
    let mut w = World::new(1);
    let mut b = ball(3, 100, 200, 50);
    // a quarter turn: cos 0, sin 1
    b.rotation = Rotation { cos: 0, sin: 10_000 };
    w.bodies.push(b);
    w.next_entity = 4;
    let proj = Projection { entity: 3, point: Vec2::new(110, 200) };
    grab(&mut w, &vec![held(110, 200)], &vec![Some(proj)]);
    let j = w.joints[0].unwrap();
    assert_eq!(j.body, 3);
    assert_eq!(j.grabber, 4);
    assert_eq!(j.entity, 5);
    assert_eq!(j.local_anchor, LocalPoint { x: 0, y: -100_000 });
    assert_eq!(j.compliance, 1);
    assert_eq!(j.linear_damping, 50_000);
    assert_eq!(j.angular_damping, 10_000);
    assert_eq!(local_point(Rotation::identity(), Vec2::new(1, 1), Vec2::new(4, 6)), LocalPoint { x: 30_000, y: 50_000 });
}

#[test]
fn joint_is_not_recreated_while_held() {
    let mut w = world_with_ball(1);
    let proj = Projection { entity: 7, point: Vec2::new(0, 0) };
    grab(&mut w, &vec![held(0, 0)], &vec![Some(proj)]);
    let first = w.joints[0].unwrap();
    let far = Projection { entity: 7, point: Vec2::new(500, 500) };
    grab(&mut w, &vec![held(500, 500)], &vec![Some(far)]);
    assert_eq!(w.joints[0].unwrap(), first);
    assert_eq!(w.grabbers[0].unwrap().position, Vec2::new(500, 500));
    assert_eq!(w.next_entity, 10);
}

#[test]
fn release_despawns_grabber_and_joint() {
    let mut w = world_with_ball(1);
    let proj = Projection { entity: 7, point: Vec2::new(0, 0) };
    grab(&mut w, &vec![held(0, 0)], &vec![Some(proj)]);
    assert!(w.joints[0].is_some());
    grab(&mut w, &vec![released()], &vec![Some(proj)]);
    assert!(w.grabbers[0].is_none());
    assert!(w.joints[0].is_none());
}

#[test]
fn despawned_body_takes_its_joint() {
    let mut w = world_with_ball(2);
    w.bodies.push(ball(9, 5_000_000, 0, 100_000));
    let proj_a = Projection { entity: 7, point: Vec2::new(0, 0) };
    let proj_b = Projection { entity: 9, point: Vec2::new(5_000_000, 0) };
    grab(&mut w, &vec![held(0, 0), held(5_000_000, 0)], &vec![Some(proj_a), Some(proj_b)]);
    assert!(w.joints[0].is_some() && w.joints[1].is_some());
    despawn_body(&mut w, 7);
    assert_eq!(w.bodies.len(), 1);
    assert_eq!(w.bodies[0].id, 9);
    assert!(w.joints[0].is_none());
    assert!(w.grabbers[0].is_some());
    assert_eq!(w.joints[1].unwrap().body, 9);
}

#[test]
fn grabber_lifecycle_over_frames() {
    let mut w = world_with_ball(1);
    let proj = Projection { entity: 7, point: Vec2::new(0, 0) };
    let mut entity = None;
    for frame in 0..20 {
        let i = if (5..12).contains(&frame) { held(frame, 0) } else { released() };
        grab(&mut w, &vec![i], &vec![Some(proj)]);
        finish_frame(&mut w, &vec![i]);
        if (5..12).contains(&frame) {
            let g = w.grabbers[0].unwrap();
            match entity {
                None => entity = Some(g.entity),
                Some(e) => assert_eq!(g.entity, e),
            }
            assert!(w.joints[0].is_some());
        } else {
            assert!(w.grabbers[0].is_none());
            assert!(w.joints[0].is_none());
        }
    }
    assert_eq!(w.frame, 20);
    // one grabber and one joint were ever spawned
    assert_eq!(w.next_entity, 10);
}

#[test]
fn scenario_hold_at_origin_over_body_near_origin() {
    // body centred at (0, 5) with radius 100: its surface point nearest to
    // the origin lies 95 away
    let mut w = World::new(1);
    w.bodies.push(ball(1, 0, 50_000, 1_000_000));
    w.next_entity = 2;
    let proj = Projection { entity: 1, point: Vec2::new(0, -950_000) };
    for frame in 0..=40 {
        let i = if (10..40).contains(&frame) { held(0, 0) } else { released() };
        grab(&mut w, &vec![i], &vec![Some(proj)]);
        if frame < 10 {
            assert!(w.joints[0].is_none());
        }
        if frame == 10 {
            let j = w.joints[0].unwrap();
            assert_eq!(j.body, 1);
            assert_eq!(j.grabber, w.grabbers[0].unwrap().entity);
        }
        if frame == 40 {
            assert!(w.grabbers[0].is_none());
            assert!(w.joints[0].is_none());
        }
        finish_frame(&mut w, &vec![i]);
    }
}

#[test]
fn input_record_wire_layout() {
    let i = GaffInput { mouse_pos: Vec2::new(-1, 0x0102_0304), buttons: INPUT_MOUSE_LEFT | INPUT_UP };
    let b = i.to_bytes();
    assert_eq!(b, vec![0xff, 0xff, 0xff, 0xff, 0x04, 0x03, 0x02, 0x01, 17, 0, 0, 0]);
    assert_eq!(GaffInput::from_bytes(&b), Some(i));
    assert_eq!(GaffInput::from_bytes(&b[..11]), None);
    let mut padded = b.clone();
    padded[10] = 1;
    assert_eq!(GaffInput::from_bytes(&padded), None);
    let z = GaffInput::from_bytes(&[0u8; 12]).unwrap();
    assert_eq!(z, GaffInput { mouse_pos: Vec2::zero(), buttons: 0 });
}
