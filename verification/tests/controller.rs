use rusty_donut::angle::{sweep_angles, FULL_TURN};
use rusty_donut::config::Config;
use rusty_donut::donut::{Action, Donut};
use rusty_donut::frame::FrameBuffer;
use rusty_donut::input::{Key, Mode};
use rusty_donut::trig::{Trig, UNIT};

const ALL_MODES: [Mode; 7] =
    [Mode::Running, Mode::Stopped, Mode::Left, Mode::Right, Mode::Up, Mode::Down, Mode::Quit];

fn trig_of(angle: u32) -> Trig {
    let radians = angle as f64 / 1_000_000.0;
    let scale = UNIT as f64;
    Trig::new((radians.sin() * scale).round() as i32, (radians.cos() * scale).round() as i32)
        .unwrap()
}

fn table(step: u32) -> Vec<Trig> {
    sweep_angles(step).into_iter().map(trig_of).collect()
}

fn small_scene() -> Config {
    Config { viewport: 24, theta_spacing: 200_000, phi_spacing: 50_000, ..Config::standard() }
}

fn frame_of(donut: &mut Donut, thetas: &Vec<Trig>, phis: &Vec<Trig>) -> FrameBuffer {
    let a = trig_of(donut.a_angle());
    let b = trig_of(donut.b_angle());
    donut.calculate_frame(a, b, thetas, phis);
    donut.points().clone()
}

/// A controller brought into the given mode with both angles at 210 000.
fn donut_in(mode: Mode) -> Donut {
    let mut donut = Donut::new();
    for _ in 0..3 {
        assert_eq!(donut.step(None), Action::Render);
    }
    match mode {
        Mode::Running => {}
        Mode::Stopped => {
            assert_eq!(donut.step(Some(Key::Char(' '))), Action::Render);
        }
        Mode::Left => donut.read_user_input(Some(Key::Left)),
        Mode::Right => donut.read_user_input(Some(Key::Right)),
        Mode::Up => donut.read_user_input(Some(Key::Up)),
        Mode::Down => donut.read_user_input(Some(Key::Down)),
        Mode::Quit => donut.read_user_input(Some(Key::Char('q'))),
    }
    assert_eq!(donut.mode(), mode);
    assert_eq!((donut.a_angle(), donut.b_angle()), (210_000, 210_000));
    donut
}

#[test]
fn new_controller_runs_from_the_zero_pose() {
    let donut = Donut::new();
    assert_eq!(donut.mode(), Mode::Running);
    assert_eq!(donut.a_angle(), 0);
    assert_eq!(donut.b_angle(), 0);
    assert_eq!(donut.config(), Config::standard());
    assert_eq!(donut.sampler().config(), Config::standard());
    assert_eq!(*donut.points(), FrameBuffer::new(80));
}

#[test]
fn with_config_accepts_exactly_the_valid_scenes() {
    let cfg = small_scene();
    let donut = Donut::with_config(cfg).unwrap();
    assert_eq!(donut.config(), cfg);
    assert_eq!(donut.points().side(), 24);
    assert!(Donut::with_config(Config { viewport: 0, ..cfg }).is_none());
    assert!(Donut::with_config(Config { distance_to_donut: 2, ..cfg }).is_none());
    assert!(Donut::with_config(Config { phi_spacing: 0, ..cfg }).is_none());
    assert!(Donut::with_config(Config { a_spacing: FULL_TURN, ..cfg }).is_none());
}

#[test]
fn mode_after_each_key() {
    for mode in ALL_MODES {
        assert_eq!(mode.after(None), mode);
        assert_eq!(mode.after(Some(Key::Other)), mode);
        assert_eq!(mode.after(Some(Key::Char('x'))), mode);
        assert_eq!(mode.after(Some(Key::Char('Q'))), mode);
        assert_eq!(mode.after(Some(Key::Left)), Mode::Left);
        assert_eq!(mode.after(Some(Key::Right)), Mode::Right);
        assert_eq!(mode.after(Some(Key::Up)), Mode::Up);
        assert_eq!(mode.after(Some(Key::Down)), Mode::Down);
        assert_eq!(mode.after(Some(Key::Char('q'))), Mode::Quit);
        let toggled = if mode == Mode::Running { Mode::Stopped } else { Mode::Running };
        assert_eq!(mode.after(Some(Key::Char(' '))), toggled);
    }
}

#[test]
fn steps_and_settling_of_each_mode() {
    let cfg = Config { a_spacing: 11, b_spacing: 22, ..Config::standard() };
    assert_eq!(Mode::Running.steps(&cfg), (11, 22));
    assert_eq!(Mode::Stopped.steps(&cfg), (0, 0));
    assert_eq!(Mode::Up.steps(&cfg), (11, 0));
    assert_eq!(Mode::Down.steps(&cfg), (-11, 0));
    assert_eq!(Mode::Left.steps(&cfg), (0, 22));
    assert_eq!(Mode::Right.steps(&cfg), (0, -22));
    assert_eq!(Mode::Quit.steps(&cfg), (0, 0));
    assert_eq!(Mode::Running.settle(), Mode::Running);
    assert_eq!(Mode::Stopped.settle(), Mode::Stopped);
    assert_eq!(Mode::Quit.settle(), Mode::Quit);
    for nudge in [Mode::Left, Mode::Right, Mode::Up, Mode::Down] {
        assert_eq!(nudge.settle(), Mode::Stopped);
    }
}

#[test]
fn running_advances_both_angles_every_frame() {
    let mut donut = Donut::new();
    for frame in 1..=5u32 {
        assert_eq!(donut.step(None), Action::Render);
        assert_eq!(donut.a_angle(), frame * 70_000);
        assert_eq!(donut.b_angle(), frame * 70_000);
        assert_eq!(donut.mode(), Mode::Running);
    }
    assert_eq!(donut.step(Some(Key::Other)), Action::Render);
    assert_eq!(donut.a_angle(), 420_000);
    assert_eq!(donut.step(Some(Key::Char('x'))), Action::Render);
    assert_eq!(donut.a_angle(), 490_000);
}

#[test]
fn angles_wrap_after_a_full_turn() {
    let mut donut = Donut::new();
    for _ in 0..89 {
        donut.step(None);
    }
    assert_eq!(donut.a_angle(), 6_230_000);
    donut.step(None);
    assert_eq!(donut.a_angle(), 16_815);
    assert_eq!(donut.b_angle(), 16_815);
    for _ in 0..1_000 {
        donut.step(None);
        assert!(donut.a_angle() < FULL_TURN);
        assert!(donut.b_angle() < FULL_TURN);
    }
}

#[test]
fn space_stops_and_resumes() {
    let mut donut = donut_in(Mode::Running);
    assert_eq!(donut.step(Some(Key::Char(' '))), Action::Render);
    assert_eq!(donut.mode(), Mode::Stopped);
    assert_eq!((donut.a_angle(), donut.b_angle()), (210_000, 210_000));
    assert_eq!(donut.step(None), Action::Render);
    assert_eq!((donut.a_angle(), donut.b_angle()), (210_000, 210_000));
    assert_eq!(donut.step(Some(Key::Char(' '))), Action::Render);
    assert_eq!(donut.mode(), Mode::Running);
    assert_eq!((donut.a_angle(), donut.b_angle()), (280_000, 280_000));
}

#[test]
fn stopped_controller_shows_ten_identical_frames() {
    let cfg = small_scene();
    let thetas = table(cfg.theta_spacing);
    let phis = table(cfg.phi_spacing);
    let mut donut = Donut::with_config(cfg).unwrap();
    donut.step(None);
    donut.step(Some(Key::Char(' ')));
    assert_eq!(donut.mode(), Mode::Stopped);
    let first = frame_of(&mut donut, &thetas, &phis);
    assert_ne!(first, FrameBuffer::new(24));
    for _ in 0..10 {
        assert_eq!(donut.step(None), Action::Render);
        assert_eq!(donut.mode(), Mode::Stopped);
        assert_eq!((donut.a_angle(), donut.b_angle()), (70_000, 70_000));
        assert_eq!(frame_of(&mut donut, &thetas, &phis), first);
    }
}

#[test]
fn stopped_standard_scene_repeats_its_frame() {
    let cfg = Config::standard();
    let thetas = table(cfg.theta_spacing);
    let phis = table(cfg.phi_spacing);
    let mut donut = Donut::new();
    donut.read_user_input(Some(Key::Char(' ')));
    assert_eq!(donut.mode(), Mode::Stopped);
    assert_eq!(donut.step(None), Action::Render);
    let first = frame_of(&mut donut, &thetas, &phis);
    assert_ne!(first.get(40, 40).unwrap().glyph, ' ');
    assert_eq!(donut.step(None), Action::Render);
    assert_eq!(frame_of(&mut donut, &thetas, &phis), first);
}

#[test]
fn running_controller_changes_its_frame() {
    let cfg = small_scene();
    let thetas = table(cfg.theta_spacing);
    let phis = table(cfg.phi_spacing);
    let mut donut = Donut::with_config(cfg).unwrap();
    let first = frame_of(&mut donut, &thetas, &phis);
    donut.step(None);
    let second = frame_of(&mut donut, &thetas, &phis);
    assert_ne!(first, second);
}

#[test]
fn left_nudges_b_once_from_every_mode() {
    for mode in ALL_MODES {
        let mut donut = donut_in(mode);
        assert_eq!(donut.step(Some(Key::Left)), Action::Render);
        assert_eq!(donut.mode(), Mode::Stopped);
        assert_eq!(donut.a_angle(), 210_000);
        assert_eq!(donut.b_angle(), 280_000);
        for _ in 0..3 {
            assert_eq!(donut.step(None), Action::Render);
            assert_eq!(donut.mode(), Mode::Stopped);
            assert_eq!((donut.a_angle(), donut.b_angle()), (210_000, 280_000));
        }
    }
}

#[test]
fn right_up_and_down_nudge_once() {
    let mut donut = donut_in(Mode::Running);
    assert_eq!(donut.step(Some(Key::Right)), Action::Render);
    assert_eq!((donut.mode(), donut.a_angle(), donut.b_angle()), (Mode::Stopped, 210_000, 140_000));
    assert_eq!(donut.step(Some(Key::Up)), Action::Render);
    assert_eq!((donut.mode(), donut.a_angle(), donut.b_angle()), (Mode::Stopped, 280_000, 140_000));
    assert_eq!(donut.step(Some(Key::Down)), Action::Render);
    assert_eq!((donut.mode(), donut.a_angle(), donut.b_angle()), (Mode::Stopped, 210_000, 140_000));
    assert_eq!(donut.step(None), Action::Render);
    assert_eq!((donut.mode(), donut.a_angle(), donut.b_angle()), (Mode::Stopped, 210_000, 140_000));
}

#[test]
fn nudges_below_zero_wrap_to_the_end_of_the_turn() {
    let mut donut = Donut::new();
    assert_eq!(donut.step(Some(Key::Down)), Action::Render);
    assert_eq!(donut.a_angle(), 6_213_185);
    assert_eq!(donut.b_angle(), 0);
    assert_eq!(donut.step(Some(Key::Right)), Action::Render);
    assert_eq!(donut.b_angle(), 6_213_185);
    assert_eq!(donut.step(Some(Key::Up)), Action::Render);
    assert_eq!(donut.a_angle(), 0);
}

#[test]
fn q_quits_from_every_mode() {
    for mode in ALL_MODES {
        let mut donut = donut_in(mode);
        let frame = donut.points().clone();
        assert_eq!(donut.step(Some(Key::Char('q'))), Action::Quit);
        assert_eq!(donut.mode(), Mode::Quit);
        assert_eq!((donut.a_angle(), donut.b_angle()), (210_000, 210_000));
        assert_eq!(*donut.points(), frame);
        assert_eq!(donut.step(None), Action::Quit);
        assert_eq!((donut.a_angle(), donut.b_angle()), (210_000, 210_000));
    }
}

#[test]
fn read_user_input_and_increment_angle_make_one_step() {
    let keys = [None, Some(Key::Left), Some(Key::Up), Some(Key::Char(' ')), Some(Key::Other)];
    for mode in ALL_MODES {
        for key in keys {
            let mut whole = donut_in(mode);
            let mut parts = donut_in(mode);
            parts.read_user_input(key);
            if parts.mode() == Mode::Quit {
                assert_eq!(whole.step(key), Action::Quit);
            } else {
                assert_eq!(whole.step(key), Action::Render);
                parts.increment_angle();
            }
            assert_eq!(whole.mode(), parts.mode());
            assert_eq!(whole.a_angle(), parts.a_angle());
            assert_eq!(whole.b_angle(), parts.b_angle());
        }
    }
}

#[test]
fn increment_angle_does_nothing_after_quitting() {
    let mut donut = donut_in(Mode::Quit);
    donut.increment_angle();
    assert_eq!(donut.mode(), Mode::Quit);
    assert_eq!((donut.a_angle(), donut.b_angle()), (210_000, 210_000));
}

#[test]
fn calculate_frame_replaces_the_frame() {
    let cfg = small_scene();
    let thetas = table(cfg.theta_spacing);
    let phis = table(cfg.phi_spacing);
    let mut donut = Donut::with_config(cfg).unwrap();
    let a = trig_of(2_000_000);
    let b = trig_of(4_000_000);
    donut.calculate_frame(trig_of(0), trig_of(0), &thetas, &phis);
    donut.calculate_frame(a, b, &thetas, &phis);
    assert_eq!(*donut.points(), donut.sampler().render_frame(a, b, &thetas, &phis));
    assert_eq!(donut.mode(), Mode::Running);
    assert_eq!((donut.a_angle(), donut.b_angle()), (0, 0));
}

#[test]
fn render_is_due_once_per_interval() {
    let mut donut = Donut::new();
    assert!(!donut.render_due(0));
    assert!(!donut.render_due(49));
    assert!(donut.render_due(50));
    assert!(!donut.render_due(50));
    assert!(!donut.render_due(99));
    assert!(donut.render_due(100));
    assert!(donut.render_due(1_000));
    assert!(!donut.render_due(999));
    assert!(!donut.render_due(1_049));
    assert!(donut.render_due(u64::MAX));
    assert!(!donut.render_due(u64::MAX));
    assert!(!donut.render_due(0));
}

#[test]
fn render_is_always_due_without_an_interval() {
    let mut donut = Donut::with_config(Config { ms_per_render: 0, ..small_scene() }).unwrap();
    assert!(donut.render_due(0));
    assert!(donut.render_due(0));
    assert!(donut.render_due(7));
    assert!(!donut.render_due(6));
}
