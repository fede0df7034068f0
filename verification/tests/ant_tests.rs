use mondriant::ant::{split_threshold, Ant, AntStepResult, DRAW_ONE};
use mondriant::canvas::{BlendComplement, Canvas, Rgba};
use mondriant::config::Config;

fn white() -> Rgba {
    Rgba { r: 255, g: 255, b: 255, a: 255 }
}

fn black() -> Rgba {
    Rgba { r: 0, g: 0, b: 0, a: 255 }
}

fn test_config(width: i32, height: i32, padding: i32) -> Config {
    Config {
        width,
        height,
        background: white(),
        blend_complement: BlendComplement::Exact,
        steps_max_start_milli: 63_990,
        steps_max_decay_milli: 900,
        split_rate_start_ppm: 1_000,
        split_rate_decay_milli: 1_050,
        padding,
        animation_enabled: false,
        frames_per_snapshot: 10,
    }
}

#[test]
fn new_ant_starts_at_zero_steps_and_generation() {
    let a = Ant::new(3, 4, 0, 1, 63_990, 1_000);
    assert_eq!((a.x, a.y, a.dx, a.dy), (3, 4, 0, 1));
    assert_eq!(a.steps, 0);
    assert_eq!(a.generation, 0);
    assert_eq!(a.steps_max_milli, 63_990);
    assert_eq!(a.split_rate_ppm, 1_000);
}

#[test]
fn split_threshold_exact_values() {
    // rate 0.001: 1_000_000 - 1_000_000^2 / 10^9 billionths
    assert_eq!(split_threshold(1_000), 999_000);
    assert_eq!(split_threshold(0), 0);
    // at the cap, rate one half: 0.5 - 0.25
    assert_eq!(split_threshold(500_000), 250_000_000);
}

#[test]
fn decayed_ant_halts_without_moving_or_drawing() {
    let canvas = Canvas::new(9, 9, white(), BlendComplement::Exact).unwrap();
    let cfg = test_config(9, 9, 1);
    let mut a = Ant::new(4, 4, 0, -1, 999, 0);
    let before = a;
    let r = a.step(&canvas, 0, &cfg);
    assert!(matches!(r, AntStepResult::Halt));
    assert_eq!(a, before);
}

#[test]
fn split_rotates_parent_and_reverses_sibling() {
    let cfg = test_config(9, 9, 1);
    // heading north: (0, -1)
    let mut a = Ant::new(4, 4, 0, -1, 63_990, 1_000);
    a.steps = 7;
    a.generation = 2;
    let sib = a.split(&cfg);
    // parent turned 90 degrees: swap then negate the new dx
    assert_eq!((a.dx, a.dy), (1, 0));
    // sibling heads exactly backward along the original axis
    assert_eq!((sib.dx, sib.dy), (0, 1));
    // both share the position and the decayed parameters
    assert_eq!((a.x, a.y), (4, 4));
    assert_eq!((sib.x, sib.y), (4, 4));
    assert_eq!(a.steps, 0);
    assert_eq!(sib.steps, 0);
    assert_eq!(a.steps_max_milli, 63_990 * 900 / 1000);
    assert_eq!(sib.steps_max_milli, a.steps_max_milli);
    assert_eq!(a.split_rate_ppm, 1_000 * 1050 / 1000);
    assert_eq!(sib.split_rate_ppm, a.split_rate_ppm);
    assert_eq!(a.generation, 3);
    assert_eq!(sib.generation, 3);
}

#[test]
fn step_splits_once_over_the_ceiling() {
    let canvas = Canvas::new(9, 9, white(), BlendComplement::Exact).unwrap();
    let cfg = test_config(9, 9, 1);
    let mut a = Ant::new(4, 4, 0, -1, 4_000, 0);
    a.steps = 5;  // 5.0 > 4.0
    let r = a.step(&canvas, DRAW_ONE - 1, &cfg);
    match r {
        AntStepResult::Split(sib) => {
            assert_eq!((a.dx, a.dy), (1, 0));
            assert_eq!((sib.dx, sib.dy), (0, 1));
        }
        _ => panic!("expected a split"),
    }
}

#[test]
fn step_splits_on_a_low_draw() {
    let canvas = Canvas::new(9, 9, white(), BlendComplement::Exact).unwrap();
    let cfg = test_config(9, 9, 1);
    // rate at the cap: threshold is a quarter of the draw scale
    let mut a = Ant::new(4, 4, 0, -1, 63_990, 500_000);
    a.steps = 1;
    let r = a.step(&canvas, 249_999_999, &cfg);
    assert!(matches!(r, AntStepResult::Split(_)));
    // a draw at the threshold does not split; the ant moves instead
    let mut b = Ant::new(4, 4, 0, -1, 63_990, 500_000);
    b.steps = 1;
    let r2 = b.step(&canvas, 250_000_000, &cfg);
    assert!(matches!(r2, AntStepResult::Move));
    assert_eq!((b.x, b.y), (4, 3));
}

#[test]
fn step_moves_on_clear_ground_and_draws_there() {
    let mut canvas = Canvas::new(9, 9, white(), BlendComplement::Exact).unwrap();
    let cfg = test_config(9, 9, 2);
    let mut a = Ant::new(4, 4, 0, -1, 63_990, 0);
    let r = a.step(&canvas, DRAW_ONE - 1, &cfg);
    assert!(matches!(r, AntStepResult::Move));
    assert_eq!((a.x, a.y), (4, 3));
    assert_eq!(a.steps, 1);
    a.draw(&mut canvas).unwrap();
    assert!(!canvas.is_background(4, 3));
    assert_eq!(canvas.pixel(4, 3), Some(black()));
}

#[test]
fn step_halts_on_a_drawn_destination() {
    let mut canvas = Canvas::new(9, 9, white(), BlendComplement::Exact).unwrap();
    canvas.blend_pixel(4, 3, black()).unwrap();
    let cfg = test_config(9, 9, 1);
    let mut a = Ant::new(4, 4, 0, -1, 63_990, 0);
    let before = a;
    assert!(matches!(a.step(&canvas, DRAW_ONE - 1, &cfg), AntStepResult::Halt));
    assert_eq!(a, before);
}

#[test]
fn step_halts_on_a_drawn_lateral_neighbor() {
    let mut canvas = Canvas::new(9, 9, white(), BlendComplement::Exact).unwrap();
    // heading north to (4, 3); laterals there are (3, 3) and (5, 3)
    canvas.blend_pixel(3, 3, black()).unwrap();
    let cfg = test_config(9, 9, 0);
    let mut a = Ant::new(4, 4, 0, -1, 63_990, 0);
    assert!(matches!(a.step(&canvas, DRAW_ONE - 1, &cfg), AntStepResult::Halt));
    let mut canvas2 = Canvas::new(9, 9, white(), BlendComplement::Exact).unwrap();
    canvas2.blend_pixel(5, 3, black()).unwrap();
    let mut b = Ant::new(4, 4, 0, -1, 63_990, 0);
    assert!(matches!(b.step(&canvas2, DRAW_ONE - 1, &cfg), AntStepResult::Halt));
}

#[test]
fn step_halts_on_a_blocked_forward_path() {
    let mut canvas = Canvas::new(9, 9, white(), BlendComplement::Exact).unwrap();
    // destination (4, 3) is clear, but (4, 1) sits two cells ahead of it
    canvas.blend_pixel(4, 1, black()).unwrap();
    let cfg = test_config(9, 9, 2);
    let mut a = Ant::new(4, 4, 0, -1, 63_990, 0);
    assert!(matches!(a.step(&canvas, DRAW_ONE - 1, &cfg), AntStepResult::Halt));
    // with one cell of clearance the same move goes through
    let cfg1 = test_config(9, 9, 1);
    let mut b = Ant::new(4, 4, 0, -1, 63_990, 0);
    assert!(matches!(b.step(&canvas, DRAW_ONE - 1, &cfg1), AntStepResult::Move));
}

#[test]
fn ant_at_the_wall_halts_on_the_bounds_check() {
    // one cell from the western wall, heading into it: the destination is
    // off the canvas, so the ant halts before any clearance is examined
    let canvas = Canvas::new(9, 9, white(), BlendComplement::Exact).unwrap();
    let cfg = test_config(9, 9, 1);
    let mut a = Ant::new(0, 4, -1, 0, 63_990, 0);
    let before = a;
    assert!(matches!(a.step(&canvas, DRAW_ONE - 1, &cfg), AntStepResult::Halt));
    assert_eq!(a, before);
}
