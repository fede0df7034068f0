//! The driver: owns the ant population and the canvas, and advances the
//! simulation tick by tick until every ant has halted. Each tick steps the
//! ants in population order against the partially updated canvas — an ant
//! sees the pixels drawn earlier in the same tick — then drops the halted
//! ants and appends the spawned siblings, in that order.

use vstd::prelude::*;

use crate::ant::{foreground_spec, Ant, AntStepResult, DRAW_ONE};
use crate::canvas::{Canvas, CanvasError, CanvasView};
use crate::config::Config;
use crate::rng::{next_draw, rng_from_seed};

verus! {

/// The state of a tick: the surviving ants in population order, the siblings
/// spawned this tick, the canvas contents, and how many ants halted and
/// split.
#[verifier::ext_equal]
pub struct TickView {
    pub survivors: Seq<Ant>,
    pub spawned: Seq<Ant>,
    pub canvas: CanvasView,
    pub halted: nat,
    pub splits: nat,
}

/// One tick of ants `i..`, each stepped with its own uniform draw against the
/// canvas as the ants before it left it.
pub open spec fn tick_from(
    ants: Seq<Ant>,
    c: CanvasView,
    draws: Seq<u64>,
    config: Config,
    i: int,
) -> TickView
    decreases ants.len() - i,
{
    if i < 0 || i >= ants.len() {
        TickView {
            survivors: Seq::empty(),
            spawned: Seq::empty(),
            canvas: c,
            halted: 0,
            splits: 0,
        }
    } else {
        let a = ants[i];
        let r = a.step_result(c, draws[i], config);
        let a2 = a.step_next(c, draws[i], config);
        let c2 = if r is Move {
            c.blend(a2.x as int, a2.y as int, foreground_spec())
        } else {
            c
        };
        let rest = tick_from(ants, c2, draws, config, i + 1);
        match r {
            AntStepResult::Halt => TickView { halted: rest.halted + 1, ..rest },
            AntStepResult::Move => TickView { survivors: seq![a2] + rest.survivors, ..rest },
            AntStepResult::Split(sib) => TickView {
                survivors: seq![a2] + rest.survivors,
                spawned: seq![sib] + rest.spawned,
                splits: rest.splits + 1,
                ..rest
            },
        }
    }
}

/// A completed prefix of a tick (survivors, spawned, halted and split counts)
/// glued onto the outcome of the remaining ants.
pub open spec fn tick_glue(
    survivors: Seq<Ant>,
    spawned: Seq<Ant>,
    halted: nat,
    splits: nat,
    rest: TickView,
) -> TickView {
    TickView {
        survivors: survivors + rest.survivors,
        spawned: spawned + rest.spawned,
        canvas: rest.canvas,
        halted: halted + rest.halted,
        splits: splits + rest.splits,
    }
}

/// Law of the population: across one tick the population size changes by
/// exactly the number of splits minus the number of halts — every ant either
/// survives (moved or split), halts, or is a spawned sibling, and no ant both
/// moves and splits in the same tick.
pub proof fn lemma_tick_population(
    ants: Seq<Ant>,
    c: CanvasView,
    draws: Seq<u64>,
    config: Config,
    i: int,
)
    requires
        0 <= i <= ants.len(),
    ensures
        ({
            let t = tick_from(ants, c, draws, config, i);
            t.survivors.len() + t.spawned.len() + t.halted == (ants.len() - i) + t.splits
                && t.halted + t.splits <= ants.len() - i
        }),
    decreases ants.len() - i,
{
    if i < ants.len() {
        let a = ants[i];
        let r = a.step_result(c, draws[i], config);
        let a2 = a.step_next(c, draws[i], config);
        let c2 = if r is Move {
            c.blend(a2.x as int, a2.y as int, foreground_spec())
        } else {
            c
        };
        lemma_tick_population(ants, c2, draws, config, i + 1);
    }
}

/// Determinism: the outcome of a tick is a function of the starting
/// population, the canvas contents, the draw sequence and the configuration
/// alone — two runs fed identical draws produce identical populations and
/// identical pixels.
pub proof fn lemma_tick_deterministic(
    ants1: Seq<Ant>,
    c1: CanvasView,
    draws1: Seq<u64>,
    config1: Config,
    ants2: Seq<Ant>,
    c2: CanvasView,
    draws2: Seq<u64>,
    config2: Config,
)
    requires
        ants1 == ants2,
        c1 == c2,
        draws1 == draws2,
        config1 == config2,
    ensures
        tick_from(ants1, c1, draws1, config1, 0) == tick_from(ants2, c2, draws2, config2, 0),
{
}

/// Advances every ant once, in population order, against the shared canvas;
/// returns the next population: the survivors in their old order, then the
/// spawned siblings. `draws` supplies one uniform split draw per ant.
pub fn tick(ants: &Vec<Ant>, canvas: &mut Canvas, draws: &Vec<u64>, config: &Config) -> (next: Vec<
    Ant,
>)
    requires
        old(canvas)@.wf(),
        config.wf(),
        draws@.len() == ants@.len(),
        forall|i: int|
            0 <= i < ants@.len() ==> (#[trigger] ants@[i]).wf() && old(canvas)@.in_bounds(
                ants@[i].x as int,
                ants@[i].y as int,
            ),
        forall|i: int| 0 <= i < draws@.len() ==> #[trigger] draws@[i] < DRAW_ONE,
    ensures
        final(canvas)@.wf(),
        final(canvas)@.width == old(canvas)@.width,
        final(canvas)@.height == old(canvas)@.height,
        final(canvas)@.background == old(canvas)@.background,
        final(canvas)@.complement == old(canvas)@.complement,
        ({
            let t = tick_from(ants@, old(canvas)@, draws@, *config, 0);
            next@ == t.survivors + t.spawned && final(canvas)@ == t.canvas && next@.len()
                + t.halted == ants@.len() + t.splits && t.halted + t.splits <= ants@.len()
        }),
        forall|i: int|
            0 <= i < next@.len() ==> (#[trigger] next@[i]).wf() && final(canvas)@.in_bounds(
                next@[i].x as int,
                next@[i].y as int,
            ),
{
    let ghost c0 = canvas@;
    let ghost t_all = tick_from(ants@, c0, draws@, *config, 0);
    let mut survivors: Vec<Ant> = Vec::new();
    let mut spawned: Vec<Ant> = Vec::new();
    let ghost mut halted: nat = 0nat;
    let ghost mut splits: nat = 0nat;
    let mut i: usize = 0;
    proof {
        assert(tick_glue(survivors@, spawned@, halted, splits, tick_from(ants@, canvas@, draws@, *config, 0)) =~= t_all);
    }
    while i < ants.len()
        invariant
            i <= ants@.len(),
            draws@.len() == ants@.len(),
            config.wf(),
            canvas@.wf(),
            canvas@.width == c0.width,
            canvas@.height == c0.height,
            canvas@.background == c0.background,
            canvas@.complement == c0.complement,
            forall|j: int|
                0 <= j < ants@.len() ==> (#[trigger] ants@[j]).wf() && c0.in_bounds(
                    ants@[j].x as int,
                    ants@[j].y as int,
                ),
            forall|j: int| 0 <= j < draws@.len() ==> #[trigger] draws@[j] < DRAW_ONE,
            t_all == tick_from(ants@, c0, draws@, *config, 0),
            tick_glue(
                survivors@,
                spawned@,
                halted,
                splits,
                tick_from(ants@, canvas@, draws@, *config, i as int),
            ) == t_all,
            forall|j: int|
                0 <= j < survivors@.len() ==> (#[trigger] survivors@[j]).wf()
                    && canvas@.in_bounds(survivors@[j].x as int, survivors@[j].y as int),
            forall|j: int|
                0 <= j < spawned@.len() ==> (#[trigger] spawned@[j]).wf() && canvas@.in_bounds(
                    spawned@[j].x as int,
                    spawned@[j].y as int,
                ),
        decreases ants@.len() - i,
    {
        let ghost c_before = canvas@;
        let ghost rest_before = tick_from(ants@, c_before, draws@, *config, i as int);
        let ghost s_prev = survivors@;
        let ghost p_prev = spawned@;
        let mut a = ants[i];
        let d = draws[i];
        let r = a.step(canvas, d, config);
        match r {
            AntStepResult::Halt => {
                proof {
                    halted = halted + 1;
                }
            },
            AntStepResult::Move => {
                let _ = a.draw(canvas);
                survivors.push(a);
            },
            AntStepResult::Split(sib) => {
                survivors.push(a);
                spawned.push(sib);
                proof {
                    splits = splits + 1;
                }
            },
        }
        i = i + 1;
        proof {
            let rest_after = tick_from(ants@, canvas@, draws@, *config, i as int);
            assert(rest_before == match ants@[i - 1].step_result(c_before, draws@[i - 1], *config) {
                AntStepResult::Halt => TickView { halted: rest_after.halted + 1, ..rest_after },
                AntStepResult::Move => TickView {
                    survivors: seq![ants@[i - 1].step_next(c_before, draws@[i - 1], *config)]
                        + rest_after.survivors,
                    ..rest_after
                },
                AntStepResult::Split(sib) => TickView {
                    survivors: seq![ants@[i - 1].step_next(c_before, draws@[i - 1], *config)]
                        + rest_after.survivors,
                    spawned: seq![sib] + rest_after.spawned,
                    splits: rest_after.splits + 1,
                    ..rest_after
                },
            });
            let a0 = ants@[i - 1];
            let d0 = draws@[i - 1];
            let a2 = a0.step_next(c_before, d0, *config);
            match a0.step_result(c_before, d0, *config) {
                AntStepResult::Halt => {},
                AntStepResult::Move => {
                    assert(s_prev.push(a2) + rest_after.survivors =~= s_prev + (seq![a2]
                        + rest_after.survivors));
                },
                AntStepResult::Split(sib) => {
                    assert(s_prev.push(a2) + rest_after.survivors =~= s_prev + (seq![a2]
                        + rest_after.survivors));
                    assert(p_prev.push(sib) + rest_after.spawned =~= p_prev + (seq![sib]
                        + rest_after.spawned));
                },
            }
            assert(tick_glue(survivors@, spawned@, halted, splits, rest_after) =~= t_all);
        }
    }
    proof {
        assert(tick_from(ants@, canvas@, draws@, *config, i as int) =~= TickView {
            survivors: Seq::empty(),
            spawned: Seq::empty(),
            canvas: canvas@,
            halted: 0nat,
            splits: 0nat,
        });
        assert(survivors@ + Seq::<Ant>::empty() =~= survivors@);
        assert(spawned@ + Seq::<Ant>::empty() =~= spawned@);
        lemma_tick_population(ants@, c0, draws@, *config, 0);
    }
    let mut next = survivors;
    let ghost ns = next@;
    let mut j: usize = 0;
    while j < spawned.len()
        invariant
            j <= spawned@.len(),
            next@ == ns + spawned@.take(j as int),
            forall|k: int|
                0 <= k < spawned@.len() ==> (#[trigger] spawned@[k]).wf() && canvas@.in_bounds(
                    spawned@[k].x as int,
                    spawned@[k].y as int,
                ),
            forall|k: int|
                0 <= k < ns.len() ==> (#[trigger] ns[k]).wf() && canvas@.in_bounds(
                    ns[k].x as int,
                    ns[k].y as int,
                ),
        decreases spawned@.len() - j,
    {
        next.push(spawned[j]);
        j = j + 1;
        proof {
            assert(next@ =~= ns + spawned@.take(j as int));
        }
    }
    proof {
        assert(spawned@.take(spawned@.len() as int) =~= spawned@);
        assert(forall|k: int|
            0 <= k < next@.len() ==> (#[trigger] next@[k]).wf() && canvas@.in_bounds(
                next@[k].x as int,
                next@[k].y as int,
            ));
    }
    next
}

/// A whole run: the configuration, the canvas, the live population, and the
/// seeded generator behind the split draws.
pub struct Sim {
    pub config: Config,
    pub canvas: Canvas,
    pub ants: Vec<Ant>,
    pub rng: rand::rngs::StdRng,
}

/// The single seed ant: at the canvas center, headed up (negative y), with
/// the configured starting parameters.
pub open spec fn initial_ant(config: Config) -> Ant {
    Ant {
        x: (config.width / 2) as i32,
        y: (config.height / 2) as i32,
        dx: 0,
        dy: -1 as i32,
        steps: 0,
        steps_max_milli: config.steps_max_start_milli,
        split_rate_ppm: config.split_rate_start_ppm,
        generation: 0,
    }
}

/// The population and the canvas stand in the tick relation: some sequence of
/// in-range uniform draws, one per ant, takes the old state to the new one.
pub open spec fn tick_rel(
    ants0: Seq<Ant>,
    c0: CanvasView,
    config: Config,
    ants1: Seq<Ant>,
    c1: CanvasView,
) -> bool {
    exists|draws: Seq<u64>| #[trigger] tick_matches(ants0, c0, draws, config, ants1, c1)
}

/// `draws` takes (ants0, c0) to (ants1, c1) in one tick.
pub open spec fn tick_matches(
    ants0: Seq<Ant>,
    c0: CanvasView,
    draws: Seq<u64>,
    config: Config,
    ants1: Seq<Ant>,
    c1: CanvasView,
) -> bool {
    &&& draws.len() == ants0.len()
    &&& forall|i: int| 0 <= i < draws.len() ==> #[trigger] draws[i] < DRAW_ONE
    &&& ({
        let t = tick_from(ants0, c0, draws, config, 0);
        ants1 == t.survivors + t.spawned && c1 == t.canvas
    })
}

/// The reach of a bounded run: (ants1, c1) arises from (ants0, c0) by a
/// chain of at most `n` tick relations, and the chain stops short of `n`
/// only once the population is empty.
pub open spec fn run_reaches(
    ants0: Seq<Ant>,
    c0: CanvasView,
    config: Config,
    ants1: Seq<Ant>,
    c1: CanvasView,
    n: nat,
) -> bool
    decreases n,
{
    ||| (ants1 == ants0 && c1 == c0 && (n == 0 || ants0.len() == 0))
    ||| (n > 0 && ants0.len() > 0 && exists|mid_ants: Seq<Ant>, mid_canvas: CanvasView|
        #[trigger] tick_rel(ants0, c0, config, mid_ants, mid_canvas) && run_reaches(
            mid_ants,
            mid_canvas,
            config,
            ants1,
            c1,
            (n - 1) as nat,
        ))
}

/// One more tick appended to a chain that has not yet emptied extends its
/// reach by one.
proof fn lemma_run_reaches_extend(
    ants0: Seq<Ant>,
    c0: CanvasView,
    config: Config,
    ants1: Seq<Ant>,
    c1: CanvasView,
    ants2: Seq<Ant>,
    c2: CanvasView,
    n: nat,
)
    requires
        run_reaches(ants0, c0, config, ants1, c1, n),
        ants1.len() > 0,
        tick_rel(ants1, c1, config, ants2, c2),
    ensures
        run_reaches(ants0, c0, config, ants2, c2, n + 1),
    decreases n,
{
    if ants1 == ants0 && c1 == c0 && (n == 0 || ants0.len() == 0) {
        assert(run_reaches(ants2, c2, config, ants2, c2, ((n + 1) - 1) as nat));
        assert(tick_rel(ants0, c0, config, ants2, c2));
    } else {
        let (ma, mc): (Seq<Ant>, CanvasView) = choose|ma: Seq<Ant>, mc: CanvasView|
            #[trigger] tick_rel(ants0, c0, config, ma, mc) && run_reaches(
                ma,
                mc,
                config,
                ants1,
                c1,
                (n - 1) as nat,
            );
        lemma_run_reaches_extend(ma, mc, config, ants1, c1, ants2, c2, (n - 1) as nat);
        assert(tick_rel(ants0, c0, config, ma, mc));
    }
}

/// A chain that ends on an empty population fits any larger budget.
proof fn lemma_run_reaches_relax(
    ants0: Seq<Ant>,
    c0: CanvasView,
    config: Config,
    ants1: Seq<Ant>,
    c1: CanvasView,
    n: nat,
    m: nat,
)
    requires
        run_reaches(ants0, c0, config, ants1, c1, n),
        n <= m,
        ants1.len() == 0,
    ensures
        run_reaches(ants0, c0, config, ants1, c1, m),
    decreases n,
{
    if ants1 == ants0 && c1 == c0 && (n == 0 || ants0.len() == 0) {
        assert(ants0.len() == 0);
    } else {
        let (ma, mc): (Seq<Ant>, CanvasView) = choose|ma: Seq<Ant>, mc: CanvasView|
            #[trigger] tick_rel(ants0, c0, config, ma, mc) && run_reaches(
                ma,
                mc,
                config,
                ants1,
                c1,
                (n - 1) as nat,
            );
        lemma_run_reaches_relax(ma, mc, config, ants1, c1, (n - 1) as nat, (m - 1) as nat);
        assert(tick_rel(ants0, c0, config, ma, mc));
    }
}

impl Sim {
    /// The driver's invariant: a valid configuration, a matching well-formed
    /// canvas, and a population of well-formed ants inside the canvas.
    pub open spec fn wf(self) -> bool {
        self.config.wf() && self.canvas@.wf() && self.canvas@.width == self.config.width
            && self.canvas@.height == self.config.height && self.canvas@.background
            == self.config.background && self.canvas@.complement == self.config.blend_complement
            && forall|i: int|
            0 <= i < self.ants@.len() ==> (#[trigger] self.ants@[i]).wf() && self.canvas@.in_bounds(
                self.ants@[i].x as int,
                self.ants@[i].y as int,
            )
    }

    /// A fresh run: the canvas filled with the background and the single seed
    /// ant at the center; the split draws come from a generator seeded with
    /// `seed`, so a run is repeatable.
    pub fn new(config: &Config, seed: u64) -> (r: Result<Sim, CanvasError>)
        requires
            config.wf(),
        ensures
            r matches Ok(s) && s.wf() && s.config == *config && s.ants@ == seq![
                initial_ant(*config),
            ] && forall|x: int, y: int|
                s.canvas@.in_bounds(x, y) ==> s.canvas@.is_background(x, y),
    {
        let canvas = match Canvas::new(
            config.width,
            config.height,
            config.background,
            config.blend_complement,
        ) {
            Ok(c) => c,
            Err(e) => {
                return Err(e);
            },
        };
        let seed_ant = Ant::new(
            config.width / 2,
            config.height / 2,
            0,
            -1,
            config.steps_max_start_milli,
            config.split_rate_start_ppm,
        );
        let mut ants: Vec<Ant> = Vec::new();
        ants.push(seed_ant);
        proof {
            assert(ants@ =~= seq![initial_ant(*config)]);
        }
        Ok(Sim { config: *config, canvas, ants, rng: rng_from_seed(seed) })
    }

    /// Whether the run has converged: no ant is left.
    pub fn done(&self) -> (r: bool)
        ensures
            r == (self.ants@.len() == 0),
    {
        self.ants.len() == 0
    }

    /// The number of live ants.
    pub fn population(&self) -> (n: usize)
        ensures
            n == self.ants@.len(),
    {
        self.ants.len()
    }

    /// One tick: draws one split draw per live ant, steps them all, removes
    /// the halted and appends the spawned. The new state stands in the tick
    /// relation to the old one.
    #[verifier::loop_isolation(false)]
    pub fn tick_once(&mut self)
        requires
            old(self).wf(),
        ensures
            final(self).wf(),
            final(self).config == old(self).config,
            final(self).canvas@.width == old(self).canvas@.width,
            final(self).canvas@.height == old(self).canvas@.height,
            final(self).canvas@.background == old(self).canvas@.background,
            final(self).canvas@.complement == old(self).canvas@.complement,
            tick_rel(
                old(self).ants@,
                old(self).canvas@,
                old(self).config,
                final(self).ants@,
                final(self).canvas@,
            ),
    {
        let n = self.ants.len();
        let mut draws: Vec<u64> = Vec::new();
        let mut i: usize = 0;
        while i < n
            invariant
                i <= n,
                draws@.len() == i,
                forall|j: int| 0 <= j < draws@.len() ==> #[trigger] draws@[j] < DRAW_ONE,
                self.canvas == old(self).canvas,
                self.ants == old(self).ants,
                self.config == old(self).config,
            decreases n - i,
        {
            let d = next_draw(&mut self.rng, DRAW_ONE);
            draws.push(d);
            i = i + 1;
        }
        let next = tick(&self.ants, &mut self.canvas, &draws, &self.config);
        self.ants = next;
        proof {
            assert(tick_matches(
                old(self).ants@,
                old(self).canvas@,
                draws@,
                old(self).config,
                self.ants@,
                self.canvas@,
            ));
        }
    }

    /// Runs ticks until the population empties or `max_ticks` have passed;
    /// reports whether the run converged, that is, whether the population is
    /// empty on return. The final state is reached from the initial one by a
    /// chain of at most `max_ticks` ticks, cut short only by convergence; an
    /// empty population converges at once. (Pathological configurations can
    /// keep a population alive indefinitely, so a caller states its patience.)
    #[verifier::loop_isolation(false)]
    pub fn run(&mut self, max_ticks: u64) -> (converged: bool)
        requires
            old(self).wf(),
        ensures
            final(self).wf(),
            final(self).config == old(self).config,
            converged == (final(self).ants@.len() == 0),
            old(self).ants@.len() == 0 ==> converged,
            run_reaches(
                old(self).ants@,
                old(self).canvas@,
                old(self).config,
                final(self).ants@,
                final(self).canvas@,
                max_ticks as nat,
            ),
    {
        let ghost cfg0 = self.config;
        let mut t: u64 = 0;
        proof {
            assert(run_reaches(self.ants@, self.canvas@, cfg0, self.ants@, self.canvas@, 0nat));
        }
        while t < max_ticks
            invariant
                self.wf(),
                self.config == cfg0,
                t <= max_ticks,
                old(self).ants@.len() == 0 ==> self.ants@.len() == 0,
                run_reaches(
                    old(self).ants@,
                    old(self).canvas@,
                    cfg0,
                    self.ants@,
                    self.canvas@,
                    t as nat,
                ),
            decreases max_ticks - t,
        {
            if self.ants.len() == 0 {
                proof {
                    lemma_run_reaches_relax(
                        old(self).ants@,
                        old(self).canvas@,
                        cfg0,
                        self.ants@,
                        self.canvas@,
                        t as nat,
                        max_ticks as nat,
                    );
                }
                return true;
            }
            let ghost prev_ants = self.ants@;
            let ghost prev_canvas = self.canvas@;
            self.tick_once();
            proof {
                lemma_run_reaches_extend(
                    old(self).ants@,
                    old(self).canvas@,
                    cfg0,
                    prev_ants,
                    prev_canvas,
                    self.ants@,
                    self.canvas@,
                    t as nat,
                );
            }
            t = t + 1;
        }
        self.ants.len() == 0
    }
}

} // verus!
