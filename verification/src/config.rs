//! The immutable run configuration: canvas dimensions, the background color,
//! the fixed-point movement parameters of the seed ant and their per-split
//! decay and growth factors, the forward clearance, and the snapshot policy.

use vstd::prelude::*;

use crate::ant::{RATE_MAX_PPM, STEPS_MAX_LIMIT};
use crate::canvas::{BlendComplement, Rgba};

verus! {

/// All knobs of one run, constructed once at startup and threaded into the
/// driver; there is no ambient state. Factors are in thousandths
/// (`*_milli`), the split rate in millionths (`*_ppm`).
#[derive(Clone, Copy, PartialEq, Eq, Structural, Debug)]
pub struct Config {
    /// Canvas width in pixels (positive).
    pub width: i32,
    /// Canvas height in pixels (positive).
    pub height: i32,
    /// The background fill, also the "unoccupied" test color.
    pub background: Rgba,
    /// Which complement term the alpha compositing uses: the exact
    /// `255 - alpha`, or the biased `263 - alpha` that brightens repeated
    /// blends. An explicit choice, never silent.
    pub blend_complement: BlendComplement,
    /// The seed ant's step ceiling, in thousandths of a step.
    pub steps_max_start_milli: u64,
    /// Multiplier (in thousandths, below one) applied to the step ceiling on
    /// each split.
    pub steps_max_decay_milli: u64,
    /// The seed ant's split rate, in millionths.
    pub split_rate_start_ppm: u64,
    /// Multiplier (in thousandths, at least one) applied to the split rate on
    /// each split; despite growing the rate it plays the role of a decay: it
    /// shortens lineages.
    pub split_rate_decay_milli: u64,
    /// Minimum number of clear cells ahead of a destination before a move is
    /// permitted.
    pub padding: i32,
    /// Whether the driver's caller snapshots intermediate frames.
    pub animation_enabled: bool,
    /// Tick interval between snapshots, when animation is enabled.
    pub frames_per_snapshot: u64,
}

impl Config {
    /// A usable configuration: positive dimensions whose pixel count fits the
    /// machine, capped fixed-point parameters, a decay below one, a growth
    /// factor between one and a thousand, and a non-negative padding.
    pub open spec fn wf(self) -> bool {
        0 < self.width && 0 < self.height && self.width * self.height <= usize::MAX
            && self.steps_max_start_milli <= STEPS_MAX_LIMIT && self.steps_max_decay_milli < 1000
            && self.split_rate_start_ppm <= RATE_MAX_PPM && 1000 <= self.split_rate_decay_milli
            <= 1_000_000 && 0 <= self.padding
    }

    /// Runtime check of `wf`, for callers outside the verified world.
    pub fn is_valid(&self) -> (r: bool)
        ensures
            r == self.wf(),
    {
        if !(0 < self.width && 0 < self.height) {
            return false;
        }
        proof {
            assert((self.width as u64) * (self.height as u64) <= 0x4000_0000_0000_0000)
                by (nonlinear_arith)
                requires
                    0 < self.width as u64 <= 0x8000_0000,
                    0 < self.height as u64 <= 0x8000_0000,
            ;
        }
        let area: u64 = (self.width as u64) * (self.height as u64);
        area <= usize::MAX as u64 && self.steps_max_start_milli <= STEPS_MAX_LIMIT
            && self.steps_max_decay_milli < 1000 && self.split_rate_start_ppm <= RATE_MAX_PPM
            && 1000 <= self.split_rate_decay_milli && self.split_rate_decay_milli <= 1_000_000
            && 0 <= self.padding
    }
}

impl Default for Config {
    /// The stock configuration: a 640 x 640 white canvas, a step ceiling just
    /// under 64 that decays by a tenth per split, a split rate of one in a
    /// thousand that grows by a twentieth per split, two cells of forward
    /// clearance, and no animation.
    fn default() -> (c: Config)
        ensures
            c == (Config {
                width: 640,
                height: 640,
                background: Rgba { r: 255, g: 255, b: 255, a: 255 },
                blend_complement: BlendComplement::Exact,
                steps_max_start_milli: 63_990,
                steps_max_decay_milli: 900,
                split_rate_start_ppm: 1_000,
                split_rate_decay_milli: 1_050,
                padding: 2,
                animation_enabled: false,
                frames_per_snapshot: 10,
            }),
            c.wf(),
    {
        Config {
            width: 640,
            height: 640,
            background: Rgba { r: 255, g: 255, b: 255, a: 255 },
            blend_complement: BlendComplement::Exact,
            steps_max_start_milli: 63_990,
            steps_max_decay_milli: 900,
            split_rate_start_ppm: 1_000,
            split_rate_decay_milli: 1_050,
            padding: 2,
            animation_enabled: false,
            frames_per_snapshot: 10,
        }
    }
}

} // verus!
