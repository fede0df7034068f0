use mondriant::ant::{Ant, DRAW_ONE};
use mondriant::canvas::{BlendComplement, Canvas, Rgba};
use mondriant::config::Config;
use mondriant::driver::{tick, Sim};

fn white() -> Rgba {
    Rgba { r: 255, g: 255, b: 255, a: 255 }
}

fn small_config() -> Config {
    Config {
        width: 10,
        height: 10,
        background: white(),
        blend_complement: BlendComplement::Exact,
        steps_max_start_milli: 100_000,
        steps_max_decay_milli: 900,
        split_rate_start_ppm: 0,
        split_rate_decay_milli: 1_000,
        padding: 0,
        animation_enabled: false,
        frames_per_snapshot: 10,
    }
}

fn count_non_background(c: &Canvas, width: i32, height: i32) -> usize {
    let mut n = 0;
    for x in 0..width {
        for y in 0..height {
            if !c.is_background(x, y) {
                n += 1;
            }
        }
    }
    n
}

#[test]
fn default_config_is_valid() {
    let cfg = Config::default();
    assert!(cfg.is_valid());
    assert_eq!((cfg.width, cfg.height), (640, 640));
    assert_eq!(cfg.padding, 2);
}

#[test]
fn new_sim_seeds_one_ant_at_the_center() {
    let cfg = small_config();
    let sim = Sim::new(&cfg, 1).unwrap();
    assert_eq!(sim.population(), 1);
    assert!(!sim.done());
    assert_eq!((sim.ants[0].x, sim.ants[0].y), (5, 5));
    assert_eq!((sim.ants[0].dx, sim.ants[0].dy), (0, -1));
    assert_eq!(sim.ants[0].steps, 0);
    assert_eq!(count_non_background(&sim.canvas, 10, 10), 0);
}

#[test]
fn population_changes_by_splits_minus_halts() {
    let cfg = Config { width: 20, height: 20, padding: 1, ..small_config() };
    let mut canvas = Canvas::new(20, 20, white(), BlendComplement::Exact).unwrap();
    let decayed = Ant::new(2, 2, 0, -1, 500, 0);  // halts at once
    let mover = Ant::new(10, 10, 1, 0, 100_000, 0);  // walks east
    let mut splitter = Ant::new(16, 16, 0, 1, 2_000, 0);  // 3.0 > 2.0: splits
    splitter.steps = 3;
    let ants = vec![decayed, mover, splitter];
    let draws = vec![DRAW_ONE - 1; 3];
    let next = tick(&ants, &mut canvas, &draws, &cfg);
    // one halt, one split: 3 - 1 + 1 = 3, and the sibling comes last
    assert_eq!(next.len(), 3);
    assert_eq!((next[0].x, next[0].y), (11, 10));
    assert_eq!((next[1].dx, next[1].dy), (-1, 0));  // turned splitter
    assert_eq!((next[2].dx, next[2].dy), (0, -1));  // spawned sibling
    // the mover drew its new cell; the others drew nothing
    assert_eq!(count_non_background(&canvas, 20, 20), 1);
    assert!(!canvas.is_background(11, 10));
}

#[test]
fn straight_run_draws_five_pixels_and_empties() {
    // a lone ant at (5, 5) heading north with no splits possible walks to the
    // wall: it draws (5,4), (5,3), (5,2), (5,1), (5,0), then halts because
    // (5,-1) is out of bounds
    let cfg = small_config();
    let mut sim = Sim::new(&cfg, 7).unwrap();
    let converged = sim.run(100);
    assert!(converged);
    assert!(sim.done());
    assert_eq!(sim.population(), 0);
    for y in 0..5 {
        assert!(!sim.canvas.is_background(5, y));
        assert_eq!(sim.canvas.pixel(5, y), Some(Rgba { r: 0, g: 0, b: 0, a: 255 }));
    }
    assert_eq!(count_non_background(&sim.canvas, 10, 10), 5);
}

#[test]
fn forward_clearance_halts_one_cell_earlier() {
    // the same run with one cell of required clearance: the move onto (5, 0)
    // is refused because the cell beyond it is off the canvas, so only four
    // pixels are drawn
    let cfg = Config { padding: 1, ..small_config() };
    let mut sim = Sim::new(&cfg, 7).unwrap();
    assert!(sim.run(100));
    assert!(sim.canvas.is_background(5, 0));
    assert_eq!(count_non_background(&sim.canvas, 10, 10), 4);
}

#[test]
fn equal_seeds_give_identical_runs() {
    let cfg = Config {
        width: 64,
        height: 64,
        background: white(),
        blend_complement: BlendComplement::Exact,
        steps_max_start_milli: 63_990,
        steps_max_decay_milli: 900,
        split_rate_start_ppm: 1_000,
        split_rate_decay_milli: 1_050,
        padding: 2,
        animation_enabled: false,
        frames_per_snapshot: 10,
    };
    let mut sim1 = Sim::new(&cfg, 12345).unwrap();
    let mut sim2 = Sim::new(&cfg, 12345).unwrap();
    let c1 = sim1.run(100_000);
    let c2 = sim2.run(100_000);
    assert_eq!(c1, c2);
    assert_eq!(sim1.population(), sim2.population());
    assert_eq!(sim1.canvas.to_rgba_bytes().unwrap(), sim2.canvas.to_rgba_bytes().unwrap());
}

#[test]
fn an_ant_sees_pixels_drawn_earlier_in_the_same_tick() {
    // the first ant steps east onto (5, 4) and draws it; the second ant,
    // stepped later in the same tick, finds that fresh pixel one cell beyond
    // its own destination and halts on the forward-clearance check
    let cfg = Config { width: 20, height: 20, padding: 1, ..small_config() };
    let mut canvas = Canvas::new(20, 20, white(), BlendComplement::Exact).unwrap();
    let first = Ant::new(4, 4, 1, 0, 100_000, 0);
    let second = Ant::new(5, 6, 0, -1, 100_000, 0);
    let ants = vec![first, second];
    let draws = vec![DRAW_ONE - 1; 2];
    let next = tick(&ants, &mut canvas, &draws, &cfg);
    assert_eq!(next.len(), 1);
    assert_eq!((next[0].x, next[0].y), (5, 4));
    assert!(!canvas.is_background(5, 4));
    assert!(canvas.is_background(5, 5));
}

#[test]
fn a_capped_split_rate_splits_the_population() {
    // with the split rate at its cap an ant splits with probability a quarter
    // per tick, so a seeded run grows its population almost at once; this
    // fails if the draws were not genuine range-limited samples
    let cfg = Config {
        width: 101,
        height: 101,
        background: white(),
        blend_complement: BlendComplement::Exact,
        steps_max_start_milli: 1_000_000,
        steps_max_decay_milli: 999,
        split_rate_start_ppm: 500_000,
        split_rate_decay_milli: 1_000,
        padding: 0,
        animation_enabled: false,
        frames_per_snapshot: 10,
    };
    let mut sim = Sim::new(&cfg, 42).unwrap();
    let mut grew = false;
    for _ in 0..50 {
        sim.tick_once();
        if sim.population() > 1 {
            grew = true;
            break;
        }
        if sim.done() {
            break;
        }
    }
    assert!(grew);
}
