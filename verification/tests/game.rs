use gg_tracer::geometry::{Point2, Rotation2, Vector2};
use gg_tracer::objects::line::{Color, Line, LineError};
use gg_tracer::objects::Element;
use gg_tracer::ray::CameraError;
use gg_tracer::utils::constants::{FOV_MARGIN, TWO_PI, UNIT};
use gg_tracer::utils::settings::Settings;
use gg_tracer::{GameState, Keycode, SetupError};

fn game() -> GameState {
    GameState::new(Settings::new(1000, 1000, 1, 50, 20).unwrap(), 4).unwrap()
}

fn placed(ax: i32, ay: i32, bx: i32, by: i32, r: u8, g: u8, b: u8) -> Element {
    Element::Wall(
        Line::between(Point2::new(ax, ay), Point2::new(bx, by), Color::new(r, g, b, 255)).unwrap(),
    )
}

#[test]
fn a_new_game_holds_the_first_level() {
    let settings = Settings::new(1000, 600, 1, 50, 20).unwrap();
    let state = GameState::new(settings, 320).unwrap();
    assert_eq!(state.settings, settings);
    assert_eq!(state.camera.position, Point2::new(500, 500));
    assert_eq!(state.camera.direction, Vector2::new(UNIT, 0));
    assert_eq!(state.camera.fov, 785_398);
    assert_eq!(state.camera.nb_rays, 320);
    assert_eq!(
        state.elems,
        vec![
            placed(0, 600, 1000, 600, 255, 255, 255),
            placed(1000, 0, 1000, 600, 255, 255, 255),
            placed(0, 0, 0, 600, 255, 255, 255),
            placed(0, 0, 1000, 0, 255, 255, 255),
            placed(400, 120, 200, 240, 0, 255, 0),
            placed(200, 240, 100, 120, 0, 0, 255),
        ]
    );
    assert!(!state.q_key && !state.d_key && !state.z_key && !state.s_key);
    assert!(!state.quit && !state.fish);
    assert_eq!(state.dt, 0);
}

#[test]
fn a_game_needs_rays_and_room() {
    let settings = Settings::new(1000, 1000, 1, 50, 20).unwrap();
    assert_eq!(
        GameState::new(settings, 0).err(),
        Some(SetupError::Camera(CameraError::NoRays))
    );
    // In a scene of two units the slanted walls shrink to points.
    let tiny = Settings::new(2, 2, 1, 0, 1).unwrap();
    assert_eq!(
        GameState::new(tiny, 4).err(),
        Some(SetupError::Wall(LineError::ZeroLength))
    );
    assert_eq!(
        GameState::new(tiny, 0).err(),
        Some(SetupError::Camera(CameraError::NoRays))
    );
    let flat = Settings::new(3, 2, 1, 0, 1).unwrap();
    assert_eq!(
        GameState::new(flat, 4).err(),
        Some(SetupError::Wall(LineError::ZeroLength))
    );
    assert!(GameState::new(Settings::new(3, 3, 1, 0, 1).unwrap(), 4).is_ok());
}

#[test]
fn keys_are_held_until_they_come_up() {
    let mut state = game();
    state.key_down_event(Keycode::Z);
    state.key_down_event(Keycode::Q);
    assert!(state.z_key && state.q_key && !state.s_key && !state.d_key);
    state.key_down_event(Keycode::S);
    state.key_down_event(Keycode::D);
    state.key_down_event(Keycode::Other);
    state.key_down_event(Keycode::Up);
    assert!(state.z_key && state.q_key && state.s_key && state.d_key);
    assert!(!state.quit && !state.fish);
    state.key_up_event(Keycode::Z);
    assert!(!state.z_key && state.q_key && state.s_key && state.d_key);
    state.key_up_event(Keycode::Q);
    state.key_up_event(Keycode::S);
    state.key_up_event(Keycode::D);
    assert!(!state.z_key && !state.q_key && !state.s_key && !state.d_key);
}

#[test]
fn escape_quits_and_return_switches_the_fisheye() {
    let mut state = game();
    state.key_down_event(Keycode::Return);
    assert!(state.fish);
    state.key_up_event(Keycode::Return);
    assert!(state.fish);
    state.key_down_event(Keycode::Return);
    assert!(!state.fish);
    state.key_down_event(Keycode::Escape);
    assert!(state.quit);
    state.key_up_event(Keycode::Escape);
    assert!(state.quit);
}

#[test]
fn the_camera_walks_along_its_heading() {
    // The diagonal is 1414 long and crossed in 20 s: 70 units a second.
    let mut state = game();
    state.update(1000);
    assert_eq!(state.camera.position, Point2::new(500, 500));
    assert_eq!(state.dt, 1000);
    state.key_down_event(Keycode::Z);
    state.update(1000);
    assert_eq!(state.camera.position, Point2::new(570, 500));
    state.key_up_event(Keycode::Z);
    state.key_down_event(Keycode::S);
    state.update(2000);
    assert_eq!(state.camera.position, Point2::new(430, 500));
    state.key_up_event(Keycode::S);
    // To the right of the heading is a quarter turn on: down the y axis.
    state.key_down_event(Keycode::D);
    state.update(1000);
    assert_eq!(state.camera.position, Point2::new(430, 570));
    state.key_up_event(Keycode::D);
    state.key_down_event(Keycode::Q);
    state.update(500);
    assert_eq!(state.camera.position, Point2::new(430, 535));
    // Forward and backward together cancel out.
    state.key_down_event(Keycode::Z);
    state.key_down_event(Keycode::S);
    state.key_up_event(Keycode::Q);
    state.update(1000);
    assert_eq!(state.camera.position, Point2::new(430, 535));
}

#[test]
fn the_camera_walks_along_a_slanted_heading() {
    let mut state = game();
    state.camera.direction = Vector2::new(600_000, 800_000);
    state.key_down_event(Keycode::Z);
    state.update(1000);
    assert_eq!(state.camera.position, Point2::new(542, 556));
    state.key_up_event(Keycode::Z);
    // The heading turned by a quarter turn is (-0.8, 0.6).
    state.key_down_event(Keycode::D);
    state.update(1000);
    assert_eq!(state.camera.position, Point2::new(486, 598));
    // Strides are rounded down, also against the axis.
    let mut state = game();
    state.camera.direction = Vector2::new(-UNIT, 0);
    state.key_down_event(Keycode::Z);
    state.update(15);
    assert_eq!(state.camera.position, Point2::new(498, 500));
    state.key_up_event(Keycode::Z);
    state.key_down_event(Keycode::S);
    state.update(15);
    assert_eq!(state.camera.position, Point2::new(500, 500));
}

#[test]
fn the_camera_stays_inside_the_scene() {
    let mut state = game();
    state.key_down_event(Keycode::Z);
    state.update(100_000);
    assert_eq!(state.camera.position, Point2::new(999, 500));
    state.update(u32::MAX);
    assert_eq!(state.camera.position, Point2::new(999, 500));
    state.key_up_event(Keycode::Z);
    state.key_down_event(Keycode::S);
    state.key_down_event(Keycode::Q);
    state.update(u32::MAX);
    assert_eq!(state.camera.position, Point2::new(1, 1));
    state.key_up_event(Keycode::S);
    state.key_up_event(Keycode::Q);
    // A camera that was put outside comes back in without a key.
    state.camera.position = Point2::new(i32::MAX, i32::MIN);
    state.update(0);
    assert_eq!(state.camera.position, Point2::new(999, 1));
    state.camera.position = Point2::new(0, 1000);
    state.update(0);
    assert_eq!(state.camera.position, Point2::new(1, 999));
    // In a small scene the margin is one unit, and the camera is kept off the border.
    let mut state = GameState::new(Settings::square(100).unwrap(), 4).unwrap();
    assert_eq!(state.settings.margin, 1);
    state.camera.position = Point2::new(0, 50);
    state.update(0);
    assert_eq!(state.camera.position, Point2::new(1, 50));
    state.camera.position = Point2::new(100, 100);
    state.update(0);
    assert_eq!(state.camera.position, Point2::new(99, 99));
    state.camera.position = Point2::new(-7, 0);
    state.update(1000);
    assert_eq!(state.camera.position, Point2::new(1, 1));
    // With a wide margin the camera is kept in the middle.
    let mut state = GameState::new(Settings::new(1000, 600, 300, 50, 20).unwrap(), 4).unwrap();
    state.update(0);
    assert_eq!(state.camera.position, Point2::new(500, 300));
}

#[test]
fn the_field_of_view_stays_within_a_turn() {
    let mut state = game();
    state.update(16);
    assert_eq!(state.camera.fov, 785_398);
    // 16 ms at 3926991 microradians a second and notch.
    state.mouse_wheel_event(1);
    assert_eq!(state.camera.fov, 848_229);
    state.mouse_wheel_event(-2);
    assert_eq!(state.camera.fov, 722_565);
    state.mouse_wheel_event(0);
    assert_eq!(state.camera.fov, 722_565);
    state.mouse_wheel_event(-100);
    assert_eq!(state.camera.fov, FOV_MARGIN);
    state.mouse_wheel_event(i32::MIN);
    assert_eq!(state.camera.fov, FOV_MARGIN);
    state.mouse_wheel_event(1000);
    assert_eq!(state.camera.fov, TWO_PI - FOV_MARGIN);
    state.mouse_wheel_event(i32::MAX);
    assert_eq!(state.camera.fov, TWO_PI - FOV_MARGIN);
    // An update puts a field of view that left the range back into it.
    for (out, back) in [
        (0, FOV_MARGIN),
        (-5, FOV_MARGIN),
        (i32::MIN, FOV_MARGIN),
        (TWO_PI, TWO_PI - FOV_MARGIN),
        (i32::MAX, TWO_PI - FOV_MARGIN),
        (1, 1),
        (TWO_PI - 1, TWO_PI - 1),
    ] {
        state.camera.fov = out;
        state.update(16);
        assert_eq!(state.camera.fov, back);
    }
}

#[test]
fn the_pointer_turns_the_heading() {
    let mut state = game();
    state.update(16);
    assert_eq!(state.turn_angle(50), 80_000);
    assert_eq!(state.turn_angle(0), 0);
    assert_eq!(state.turn_angle(-50), 6_203_185);
    let turn = Rotation2::new(80_000, 996_802, 79_915).unwrap();
    assert!(state.mouse_motion_event(50, &turn));
    assert_eq!(state.camera.direction, Vector2::new(996_801, 79_914));
    // A rotation for another angle is refused.
    assert!(!state.mouse_motion_event(49, &turn));
    assert_eq!(state.camera.direction, Vector2::new(996_801, 79_914));
    // So is one that is longer than one.
    let long = Rotation2 { angle: 80_000, cos: UNIT + 1, sin: 0 };
    assert!(!state.mouse_motion_event(50, &long));
    assert_eq!(state.camera.direction, Vector2::new(996_801, 79_914));

    let mut state = game();
    state.update(16);
    let back = Rotation2::new(6_203_185, 996_802, -79_915).unwrap();
    assert!(state.mouse_motion_event(-50, &back));
    assert_eq!(state.camera.direction, Vector2::new(996_801, -79_914));
    // A cosine and a sine that are not those of one angle are refused.
    let nothing = Rotation2 { angle: 6_203_185, cos: 0, sin: 0 };
    assert!(!state.mouse_motion_event(-50, &nothing));
    let bent = Rotation2 { angle: 6_203_185, cos: 996_802, sin: 500_000 };
    assert!(!state.mouse_motion_event(-50, &bent));
    assert_eq!(state.camera.direction, Vector2::new(996_801, -79_914));
    // The heading stays one long, turn after turn.
    for _ in 0..1000 {
        assert!(state.mouse_motion_event(-50, &back));
        assert!(state.camera.direction.has_unit_length());
    }
    // The angle is taken within one full turn.
    state.update(u32::MAX);
    let angle = state.turn_angle(i32::MIN);
    assert_eq!(
        angle as i128,
        (i32::MIN as i128 * u32::MAX as i128 * 100).rem_euclid(TWO_PI as i128)
    );
}
