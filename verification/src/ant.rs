//! The ant state machine. An ant walks one cell per tick along an
//! axis-aligned unit direction, halts when its decaying step budget runs out
//! or the way ahead is occupied, and occasionally splits: it turns 90 degrees
//! and spawns a sibling that continues backward along the original axis.
//!
//! The decaying step ceiling and the split rate are fractional quantities;
//! the machine keeps them in fixed point: the step ceiling in thousandths
//! (`steps_max_milli`), the split rate in millionths (`split_rate_ppm`), and
//! the uniform split draw in billionths of one (`draw_ppb`).

use vstd::prelude::*;

use crate::canvas::{Canvas, CanvasError, CanvasView, Rgba};
use crate::config::Config;

verus! {

/// One whole unit on the `steps_max_milli` scale.
pub const MILLI_ONE: u64 = 1_000;

/// One whole unit (probability 1) on the draw scale: draws are uniform in
/// `[0, DRAW_ONE)` billionths.
pub const DRAW_ONE: u64 = 1_000_000_000;

/// Cap on the split rate: one half, kept below the scale's unit so that the
/// split threshold stays monotone in the rate.
pub const RATE_MAX_PPM: u64 = 500_000;

/// Cap on the step ceiling: one billion whole steps, in thousandths.
pub const STEPS_MAX_LIMIT: u64 = 1_000_000_000_000;

/// Cap on the step counter; a step budget within `STEPS_MAX_LIMIT` can never
/// push the counter past one more than a billion.
pub const STEPS_LIMIT: u32 = 1_000_000_001;

/// The split probability on the draw scale (billionths): a second-order
/// fixed-point truncation of `rate * exp(-rate)`, namely
/// `rate - rate * rate`. An ant splits when the uniform draw falls below
/// this threshold.
pub open spec fn split_threshold_spec(rate_ppm: u64) -> int {
    let r = rate_ppm * 1000;
    r - (r * r) / (DRAW_ONE as int)
}

/// Computes the split threshold for a capped rate.
pub fn split_threshold(rate_ppm: u64) -> (t: u64)
    requires
        rate_ppm <= RATE_MAX_PPM,
    ensures
        t as int == split_threshold_spec(rate_ppm),
        t <= DRAW_ONE,
{
    let r: u64 = rate_ppm * 1000;
    proof {
        assert(r * r <= 1_000_000_000_000_000_000) by (nonlinear_arith)
            requires
                r <= 500_000_000,
        ;
        assert((r * r) / 1_000_000_000 <= r) by (nonlinear_arith)
            requires
                r <= 1_000_000_000,
        ;
    }
    r - (r * r) / 1_000_000_000
}

/// A line-drawing agent: position, axis-aligned unit direction, step counter,
/// and the decaying fixed-point movement parameters.
#[derive(Clone, Copy, PartialEq, Eq, Structural, Debug)]
pub struct Ant {
    pub x: i32,
    pub y: i32,
    pub dx: i32,
    pub dy: i32,
    pub steps: u32,
    pub steps_max_milli: u64,
    pub split_rate_ppm: u64,
    pub generation: u32,
}

/// The outcome of one tick of one ant: halt (leave the population), move one
/// cell (and draw there), or split (the spawned sibling is the payload).
#[derive(Clone, Copy, PartialEq, Eq, Structural, Debug)]
pub enum AntStepResult {
    Halt,
    Move,
    Split(Ant),
}

/// (dx, dy) is axis-aligned and unit-length: exactly one coordinate is
/// nonzero, and it is 1 or -1.
pub open spec fn dir_ok(dx: int, dy: int) -> bool {
    (dx == 1 && dy == 0) || (dx == -1 && dy == 0) || (dx == 0 && dy == 1) || (dx == 0 && dy == -1)
}

impl Ant {
    /// Validity of an ant's own state: unit direction and capped fixed-point
    /// parameters.
    pub open spec fn wf(self) -> bool {
        dir_ok(self.dx as int, self.dy as int) && self.split_rate_ppm <= RATE_MAX_PPM
            && self.steps_max_milli <= STEPS_MAX_LIMIT && self.steps <= STEPS_LIMIT
    }

    /// A decayed lineage: the step ceiling has fallen below one whole step,
    /// so the ant halts before anything else is examined.
    pub open spec fn halts_by_decay(self) -> bool {
        self.steps_max_milli < MILLI_ONE
    }

    /// The split test, taken only after at least one move since the last
    /// split: either the step counter has passed the ceiling, or the uniform
    /// draw fell below the split threshold.
    pub open spec fn wants_split(self, draw_ppb: u64) -> bool {
        self.steps > 0 && (self.steps * 1000 > self.steps_max_milli || (draw_ppb as int)
            < split_threshold_spec(self.split_rate_ppm))
    }

    pub open spec fn dest_x(self) -> int {
        self.x + self.dx
    }

    pub open spec fn dest_y(self) -> int {
        self.y + self.dy
    }

    /// All four movement checks, in the canvas `c`: the destination is in
    /// bounds and background, both cells lateral to the direction of travel
    /// at the destination are background, and the forward path from the
    /// destination is clear for `padding` cells.
    pub open spec fn move_allowed(self, c: CanvasView, padding: int) -> bool {
        c.in_bounds(self.dest_x(), self.dest_y()) && c.is_background(self.dest_x(), self.dest_y())
            && c.is_background(self.dest_x() + self.dy, self.dest_y() + self.dx) && c.is_background(
            self.dest_x() - self.dy,
            self.dest_y() - self.dx,
        ) && !c.path_blocked(self.dest_x(), self.dest_y(), self.dx as int, self.dy as int, padding)
    }

    /// The ant after a committed move: one cell ahead, counter bumped.
    pub open spec fn moved(self) -> Ant {
        Ant { x: (self.x + self.dx) as i32, y: (self.y + self.dy) as i32, steps: (self.steps
            + 1) as u32, ..self }
    }

    /// The parent after a split: direction rotated 90 degrees
    /// (swap-then-negate), counter reset, ceiling decayed, rate grown
    /// (capped), generation bumped (saturating at the type limit).
    pub open spec fn split_parent(self, config: Config) -> Ant {
        Ant {
            dx: -self.dy as i32,
            dy: self.dx,
            steps: 0,
            steps_max_milli: decayed_steps_max(self.steps_max_milli, config.steps_max_decay_milli),
            split_rate_ppm: grown_split_rate(self.split_rate_ppm, config.split_rate_decay_milli),
            generation: bumped_generation(self.generation),
            ..self
        }
    }

    /// The spawned sibling: same position and decayed parameters as the
    /// parent, counter reset, direction the exact negation of the parent's
    /// pre-split direction (continuing backward along the original axis).
    pub open spec fn split_sibling(self, config: Config) -> Ant {
        Ant { dx: -self.dx as i32, dy: -self.dy as i32, ..self.split_parent(config) }
    }

    /// The result of one `step` call, as a function of the ant, the canvas,
    /// the uniform draw, and the configuration.
    pub open spec fn step_result(self, c: CanvasView, draw_ppb: u64, config: Config) -> AntStepResult {
        if self.halts_by_decay() {
            AntStepResult::Halt
        } else if self.wants_split(draw_ppb) {
            AntStepResult::Split(self.split_sibling(config))
        } else if self.move_allowed(c, config.padding as int) {
            AntStepResult::Move
        } else {
            AntStepResult::Halt
        }
    }

    /// The ant's own state after one `step` call.
    pub open spec fn step_next(self, c: CanvasView, draw_ppb: u64, config: Config) -> Ant {
        if self.halts_by_decay() {
            self
        } else if self.wants_split(draw_ppb) {
            self.split_parent(config)
        } else if self.move_allowed(c, config.padding as int) {
            self.moved()
        } else {
            self
        }
    }

    /// A fresh ant: given position, direction and movement parameters, with
    /// the step counter and generation at zero.
    pub fn new(x: i32, y: i32, dx: i32, dy: i32, steps_max_milli: u64, split_rate_ppm: u64) -> (a:
        Ant)
        requires
            dir_ok(dx as int, dy as int),
            steps_max_milli <= STEPS_MAX_LIMIT,
            split_rate_ppm <= RATE_MAX_PPM,
        ensures
            a == (Ant { x, y, dx, dy, steps: 0, steps_max_milli, split_rate_ppm, generation: 0 }),
            a.wf(),
    {
        Ant { x, y, dx, dy, steps: 0, steps_max_milli, split_rate_ppm, generation: 0 }
    }

    /// Whether one step ahead along (dx, dy) stays inside the canvas; the
    /// destination if so.
    pub fn try_step(&self, dx: i32, dy: i32, canvas: &Canvas) -> (r: Option<(i32, i32)>)
        requires
            canvas@.in_bounds(self.x as int, self.y as int),
            -1 <= dx <= 1,
            -1 <= dy <= 1,
        ensures
            canvas@.in_bounds(self.x + dx, self.y + dy) ==> r == Some(
                (((self.x + dx) as i32), ((self.y + dy) as i32)),
            ),
            !canvas@.in_bounds(self.x + dx, self.y + dy) ==> r is None,
    {
        let x = self.x + dx;
        let y = self.y + dy;
        if !canvas.in_bounds(x, y) {
            None
        } else {
            Some((x, y))
        }
    }

    /// Splits in place: turns the parent 90 degrees, decays its parameters,
    /// and returns the sibling headed the opposite way along the original
    /// axis. Both step counters start at zero again.
    pub fn split(&mut self, config: &Config) -> (sib: Ant)
        requires
            old(self).wf(),
            config.wf(),
        ensures
            *final(self) == old(self).split_parent(*config),
            sib == old(self).split_sibling(*config),
            final(self).wf(),
            sib.wf(),
            final(self).x == old(self).x && final(self).y == old(self).y,
            sib.x == old(self).x && sib.y == old(self).y,
    {
        proof {
            lemma_decayed_steps_max_bound(self.steps_max_milli, config.steps_max_decay_milli);
        }
        proof {
            assert(self.split_rate_ppm * config.split_rate_decay_milli <= 500_000_000_000)
                by (nonlinear_arith)
                requires
                    self.split_rate_ppm <= 500_000,
                    config.split_rate_decay_milli <= 1_000_000,
            ;
        }
        let old_dx = self.dx;
        let old_dy = self.dy;
        self.dx = -old_dy;
        self.dy = old_dx;
        self.steps = 0;
        self.steps_max_milli = self.steps_max_milli * config.steps_max_decay_milli / 1000;
        self.split_rate_ppm = {
            let grown: u64 = self.split_rate_ppm * config.split_rate_decay_milli / 1000;
            if grown > RATE_MAX_PPM {
                RATE_MAX_PPM
            } else {
                grown
            }
        };
        self.generation = if self.generation < u32::MAX {
            self.generation + 1
        } else {
            self.generation
        };
        Ant { dx: -old_dx, dy: -old_dy, ..*self }
    }

    /// One tick of the state machine, in the strict order: decay halt, split
    /// test, then the movement checks. Reads the canvas only; the driver
    /// draws after a reported move.
    pub fn step(&mut self, canvas: &Canvas, draw_ppb: u64, config: &Config) -> (r: AntStepResult)
        requires
            old(self).wf(),
            canvas@.wf(),
            config.wf(),
            canvas@.in_bounds(old(self).x as int, old(self).y as int),
            draw_ppb < DRAW_ONE,
        ensures
            r == old(self).step_result(canvas@, draw_ppb, *config),
            *final(self) == old(self).step_next(canvas@, draw_ppb, *config),
            final(self).wf(),
            canvas@.in_bounds(final(self).x as int, final(self).y as int),
    {
        if self.steps_max_milli < MILLI_ONE {
            return AntStepResult::Halt;
        }
        let over_budget = (self.steps as u64) * 1000 > self.steps_max_milli;
        if self.steps > 0 && (over_budget || draw_ppb < split_threshold(self.split_rate_ppm)) {
            let sib = self.split(config);
            return AntStepResult::Split(sib);
        }
        match self.try_step(self.dx, self.dy, canvas) {
            None => AntStepResult::Halt,
            Some((x, y)) => {
                if !canvas.is_background(x, y) {
                    return AntStepResult::Halt;
                }
                if !canvas.is_background(x + self.dy, y + self.dx) || !canvas.is_background(
                    x - self.dy,
                    y - self.dx,
                ) {
                    return AntStepResult::Halt;
                }
                if canvas.path_blocked(x, y, self.dx, self.dy, config.padding) {
                    return AntStepResult::Halt;
                }
                self.x = x;
                self.y = y;
                self.steps = self.steps + 1;
                AntStepResult::Move
            },
        }
    }

    /// Draws the solid foreground pixel at the ant's position.
    pub fn draw(&self, canvas: &mut Canvas) -> (r: Result<(), CanvasError>)
        requires
            old(canvas)@.wf(),
            old(canvas)@.in_bounds(self.x as int, self.y as int),
        ensures
            r == Ok::<(), CanvasError>(()),
            final(canvas)@ == old(canvas)@.blend(self.x as int, self.y as int, foreground_spec()),
            final(canvas)@.wf(),
            final(canvas)@.width == old(canvas)@.width,
            final(canvas)@.height == old(canvas)@.height,
            final(canvas)@.background == old(canvas)@.background,
            final(canvas)@.complement == old(canvas)@.complement,
    {
        canvas.blend_pixel(self.x, self.y, foreground())
    }
}

/// Law of decayed lineages: an ant whose step ceiling has fallen below one
/// whole step halts on its very first `step`, with its state unchanged — it
/// neither moves nor splits, and since only a reported move is ever drawn,
/// nothing is drawn for it.
pub proof fn lemma_decayed_ant_halts(a: Ant, c: CanvasView, draw_ppb: u64, config: Config)
    requires
        a.halts_by_decay(),
    ensures
        a.step_result(c, draw_ppb, config) == AntStepResult::Halt,
        a.step_next(c, draw_ppb, config) == a,
{
}

/// Law of the split geometry: after a split the parent heads along the 90
/// degree rotation (swap-then-negate) of its pre-split direction, the sibling
/// along the exact negation of that pre-split direction, and both directions
/// are again unit and axis-aligned.
pub proof fn lemma_split_directions(a: Ant, config: Config)
    requires
        dir_ok(a.dx as int, a.dy as int),
    ensures
        a.split_parent(config).dx == -a.dy && a.split_parent(config).dy == a.dx,
        a.split_sibling(config).dx == -a.dx && a.split_sibling(config).dy == -a.dy,
        dir_ok(a.split_parent(config).dx as int, a.split_parent(config).dy as int),
        dir_ok(a.split_sibling(config).dx as int, a.split_sibling(config).dy as int),
        a.split_parent(config).dx * a.dx + a.split_parent(config).dy * a.dy == 0,
{
}

/// The decayed step ceiling: multiplied by `decay_milli` thousandths,
/// rounding down.
pub open spec fn decayed_steps_max(v: u64, decay_milli: u64) -> u64 {
    ((v * decay_milli) / 1000) as u64
}

proof fn lemma_decayed_steps_max_bound(v: u64, decay_milli: u64)
    requires
        v <= STEPS_MAX_LIMIT,
        decay_milli < 1000,
    ensures
        v * decay_milli <= v * 1000,
        decayed_steps_max(v, decay_milli) <= v,
{
    assert(v * decay_milli <= v * 1000 && (v * decay_milli) / 1000 <= v) by (nonlinear_arith)
        requires
            decay_milli < 1000,
    ;
}

/// The grown split rate: multiplied by `growth_milli` thousandths, rounding
/// down, capped at `RATE_MAX_PPM`.
pub open spec fn grown_split_rate(r: u64, growth_milli: u64) -> u64 {
    let grown = (r * growth_milli) / 1000;
    if grown > RATE_MAX_PPM {
        RATE_MAX_PPM
    } else {
        grown as u64
    }
}

/// The next generation number, saturating at the type limit.
pub open spec fn bumped_generation(g: u32) -> u32 {
    if g < u32::MAX {
        (g + 1) as u32
    } else {
        g
    }
}

/// The solid foreground color the ants draw with: opaque black.
pub open spec fn foreground_spec() -> Rgba {
    Rgba { r: 0, g: 0, b: 0, a: 255 }
}

/// Returns the foreground color.
pub fn foreground() -> (c: Rgba)
    ensures
        c == foreground_spec(),
{
    Rgba { r: 0, g: 0, b: 0, a: 255 }
}

} // verus!
