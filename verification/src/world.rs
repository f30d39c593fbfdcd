use crate::census::{
    area, count_kinds, empty_count, fish_count, lemma_census_total, shark_count,
};
use crate::config::Config;
use crate::control::AppState;
use crate::entity::{Entity, MEAL_ENERGY};
use crate::random::{chance, pick_target};
use crate::rules::{
    advanced, aged, all_within_limits, as_ints, holds, kept, lemma_filter_around,
    lemma_sweep_reads_prefix, lemma_sweep_valid, lemma_targets, moved, neighbors_holding, seeding,
    step, sweep, targets, tick, wanted,
};
use vstd::prelude::*;

verus! {

/// What a world is, to its callers.
pub struct WatorView {
    pub state: AppState,
    pub width: nat,
    pub height: nat,
    pub config: Config,
    pub looping: bool,
    /// The grid in row-major order: cell `(x, y)` is `cells[x + width * y]`.
    pub cells: Seq<Entity>,
    /// The number of fish that the last seeding placed.
    pub seeded_fish: nat,
    /// The number of sharks that the last seeding placed.
    pub seeded_sharks: nat,
}

impl WatorView {
    /// This world with `cells` as its grid, and the fish and sharks among
    /// them counted.
    pub open spec fn populated(self, cells: Seq<Entity>) -> WatorView {
        WatorView {
            cells,
            seeded_fish: fish_count(cells),
            seeded_sharks: shark_count(cells),
            ..self
        }
    }

    /// This world with `cells` as its grid and nothing else changed.
    pub open spec fn with_cells(self, cells: Seq<Entity>) -> WatorView {
        WatorView { cells, ..self }
    }

    /// One chronon lies between this world and `after`: the grid has gone
    /// through one `tick` under some picks, and nothing else has changed.
    pub open spec fn ticked(self, after: WatorView) -> bool {
        &&& advanced(self.cells, self.width as int, self.config, after.cells)
        &&& after == self.with_cells(after.cells)
    }

    /// The grid has at least one cell and exactly `width * height` of them,
    /// and the counters of every occupant have room for the rest of its life.
    pub open spec fn valid(self) -> bool {
        &&& self.width > 0
        &&& self.height > 0
        &&& self.cells.len() == self.width * self.height
        &&& self.config.sustainable()
        &&& all_within_limits(self.cells, self.config)
    }
}

/// The world: a grid of fixed size and what the runner needs to know to
/// drive it.
pub struct Wator {
    state: AppState,
    width: u16,
    height: u16,
    config: Config,
    num_fish: u32,
    is_looping: bool,
    num_sharks: u32,
    world: Vec<Entity>,
}

impl View for Wator {
    type V = WatorView;

    closed spec fn view(&self) -> WatorView {
        WatorView {
            state: self.state,
            width: self.width as nat,
            height: self.height as nat,
            config: self.config,
            looping: self.is_looping,
            cells: self.world@,
            seeded_fish: self.num_fish as nat,
            seeded_sharks: self.num_sharks as nat,
        }
    }
}

/// The number of lots in a draw of the seeding.
pub const LOTS: u32 = 10;

/// How many lots of a cell's first draw put a shark there.
pub const SHARK_LOTS: u32 = 1;

/// How many lots of a cell's second draw put a fish there.
pub const FISH_LOTS: u32 = 3;

/// A grid of `u16` by `u16` cells has fewer than 2^32 of them.
pub proof fn lemma_area_bound(width: nat, height: nat)
    requires
        width <= u16::MAX,
        height <= u16::MAX,
    ensures
        width * height <= 0xfffe_0001,
{
    assert(width * height <= 0xffff * 0xffff) by (nonlinear_arith)
        requires
            width <= 0xffff,
            height <= 0xffff,
    ;
}

impl Wator {
    /// The invariant of a world, which every constructor establishes and
    /// every method keeps.
    pub open spec fn wf(&self) -> bool {
        self@.valid()
    }

    /// A world of `width` by `height` cells, all of them empty, with the
    /// default configuration. A world without cells is not a world.
    pub fn new(width: u16, height: u16) -> (wator: Self)
        requires
            width > 0,
            height > 0,
        ensures
            wator.wf(),
            wator@ == (WatorView {
                state: AppState::InWaTor,
                width: width as nat,
                height: height as nat,
                config: (Config { fish_age: 5, shark_age: 10, shark_energy: 3, chronon: 50 }),
                looping: false,
                cells: Seq::new((width * height) as nat, |i: int| Entity::Empty),
                seeded_fish: 0,
                seeded_sharks: 0,
            }),
    {
        proof {
            lemma_area_bound(width as nat, height as nat);
        }
        let size: usize = width as usize * height as usize;
        let mut world: Vec<Entity> = Vec::with_capacity(size);
        let mut i: usize = 0;
        while i < size
            invariant
                i <= size,
                world@ =~= Seq::new(i as nat, |k: int| Entity::Empty),
            decreases size - i,
        {
            world.push(Entity::Empty);
            i += 1;
        }
        Wator {
            state: AppState::default(),
            width,
            height,
            config: Config::default(),
            num_fish: 0,
            is_looping: false,
            num_sharks: 0,
            world,
        }
    }

    /// A world of `width` by `height` cells that holds `cells`, in row-major
    /// order, with the default configuration. There is no such world if it
    /// would have no cells, if `cells` has not exactly `width * height`
    /// entries, or if an occupant is not within its limits.
    pub fn from_cells(width: u16, height: u16, cells: Vec<Entity>) -> (made: Option<Self>)
        ensures
            made is Some <==> width > 0 && height > 0 && cells@.len() == width * height
                && all_within_limits(
                cells@,
                (Config { fish_age: 5, shark_age: 10, shark_energy: 3, chronon: 50 }),
            ),
            made matches Some(wator) ==> wator.wf() && wator@ == (WatorView {
                state: AppState::InWaTor,
                width: width as nat,
                height: height as nat,
                config: (Config { fish_age: 5, shark_age: 10, shark_energy: 3, chronon: 50 }),
                looping: false,
                cells: cells@,
                seeded_fish: fish_count(cells@),
                seeded_sharks: shark_count(cells@),
            }),
    {
        proof {
            lemma_area_bound(width as nat, height as nat);
        }
        let config = Config::default();
        if width == 0 || height == 0 || cells.len() != width as usize * height as usize {
            return None;
        }
        let mut i: usize = 0;
        while i < cells.len()
            invariant
                i <= cells.len(),
                config == (Config { fish_age: 5, shark_age: 10, shark_energy: 3, chronon: 50 }),
                forall|k: int| 0 <= k < i ==> (#[trigger] cells@[k]).within_limits(config),
            decreases cells.len() - i,
        {
            if !cells[i].fits(config) {
                assert(!cells@[i as int].within_limits(config));
                return None;
            }
            i += 1;
        }
        let counts = count_kinds(&cells, cells.len());
        assert(cells@.take(cells@.len() as int) =~= cells@);
        Some(
            Wator {
                state: AppState::default(),
                width,
                height,
                config,
                num_fish: counts.0 as u32,
                is_looping: false,
                num_sharks: counts.1 as u32,
                world: cells,
            },
        )
    }

    /// Puts `cells` in the place of the grid and counts the fish and the
    /// sharks among them.
    fn install(&mut self, cells: Vec<Entity>)
        requires
            old(self).wf(),
            cells@.len() == old(self)@.cells.len(),
            all_within_limits(cells@, old(self)@.config),
        ensures
            final(self).wf(),
            final(self)@ == old(self)@.populated(cells@),
    {
        proof {
            lemma_area_bound(self.width as nat, self.height as nat);
        }
        let counts = count_kinds(&cells, cells.len());
        assert(cells@.take(cells@.len() as int) =~= cells@);
        self.num_fish = counts.0 as u32;
        self.num_sharks = counts.1 as u32;
        self.world = cells;
    }

    /// Seeds the grid from the draws handed in: cell `i` holds a shark of
    /// age 0 with the initial energy if the first draw of `draws[i]` is
    /// true; else a fish of age 0 if the second is; else nothing. A cell that
    /// `draws` does not reach stays empty. Then the fish and the sharks are
    /// counted.
    pub fn initialize_with(&mut self, draws: &Vec<(bool, bool)>)
        requires
            old(self).wf(),
        ensures
            final(self).wf(),
            final(self)@ == old(self)@.populated(
                seeding(old(self)@.cells.len(), old(self)@.config, draws@),
            ),
    {
        let size = self.world.len();
        let config = self.config;
        let mut fresh: Vec<Entity> = Vec::with_capacity(size);
        let mut i: usize = 0;
        while i < size
            invariant
                i <= size,
                config.sustainable(),
                fresh@ =~= seeding(i as nat, config, draws@),
                all_within_limits(fresh@, config),
            decreases size - i,
        {
            let draw = if i < draws.len() {
                draws[i]
            } else {
                (false, false)
            };
            proof {
                Entity::Empty.lemma_offspring_within_limits(config);
            }
            fresh.push(Entity::seeded(draw.0, draw.1, config));
            i += 1;
        }
        self.install(fresh);
    }

    /// Seeds the grid at random. Each cell draws a lot with a chance of 1 in
    /// 10 and holds a shark of age 0 with the initial energy if it comes up.
    /// Otherwise it draws a second lot, with a chance of 3 in 10, and holds
    /// a fish of age 0 if that comes up. Otherwise it stays empty. Then the
    /// fish and the sharks are counted.
    pub fn initialize(&mut self)
        requires
            old(self).wf(),
        ensures
            final(self).wf(),
            exists|draws: Seq<(bool, bool)>|
                final(self)@ == old(self)@.populated(
                    #[trigger] seeding(old(self)@.cells.len(), old(self)@.config, draws),
                ),
            forall|i: int|
                0 <= i < final(self)@.cells.len() ==> {
                    let e = #[trigger] final(self)@.cells[i];
                    ||| e == (Entity::Shark { age: 0, energy: old(self)@.config.shark_energy })
                    ||| e == (Entity::Fish { age: 0 })
                    ||| e == Entity::Empty
                },
            final(self)@.seeded_fish == fish_count(final(self)@.cells),
            final(self)@.seeded_sharks == shark_count(final(self)@.cells),
    {
        let size = self.world.len();
        let config = self.config;
        let ghost mut draws: Seq<(bool, bool)> = Seq::empty();
        let mut fresh: Vec<Entity> = Vec::with_capacity(size);
        let mut i: usize = 0;
        while i < size
            invariant
                i <= size,
                config.sustainable(),
                draws.len() == i,
                fresh@ =~= seeding(i as nat, config, draws),
                all_within_limits(fresh@, config),
            decreases size - i,
        {
            let shark = chance(SHARK_LOTS, LOTS);
            let fish = if shark {
                false
            } else {
                chance(FISH_LOTS, LOTS)
            };
            proof {
                Entity::Empty.lemma_offspring_within_limits(config);
                draws = draws.push((shark, fish));
            }
            fresh.push(Entity::seeded(shark, fish, config));
            i += 1;
        }
        self.install(fresh);
    }

    /// Starts the animated run if it is stopped, and stops it if it runs.
    pub fn toggle_loop(&mut self)
        ensures
            final(self)@ == (WatorView { looping: !old(self)@.looping, ..old(self)@ }),
    {
        self.is_looping = !self.is_looping;
    }

    /// Whether the runner should go on by itself, chronon after chronon.
    pub fn is_looping(&self) -> (yes: bool)
        ensures
            yes == self@.looping,
    {
        self.is_looping
    }

    /// Whether the application shows the simulation or is about to leave.
    pub fn state(&self) -> (state: &AppState)
        ensures
            *state == self@.state,
    {
        &self.state
    }

    /// The pause between two chronons of the animated run, in milliseconds.
    pub fn chronon(&self) -> (millis: u64)
        ensures
            millis == self@.config.chronon,
    {
        self.config.chronon
    }

    /// Hands out the state for the caller to change. Nothing else of the
    /// world changes with it.
    pub fn state_mut(&mut self) -> (state: &mut AppState)
        ensures
            *state == old(self)@.state,
            final(self)@ == (WatorView { state: *final(state), ..old(self)@ }),
    {
        &mut self.state
    }

    /// All cells, in row-major order.
    pub fn world(&self) -> (cells: &[Entity])
        ensures
            cells@ == self@.cells,
    {
        self.world.as_slice()
    }

    /// The number of fish among the first `max_w * max_h` cells in linear
    /// order (all cells, if there are fewer). This counts a prefix of the
    /// grid, not the rectangle of that size.
    pub fn num_fish_in_area(&self, max_w: u16, max_h: u16) -> (count: u32)
        ensures
            count == fish_count(area(self@.cells, max_w as nat, max_h as nat)),
    {
        let limit = self.area_limit(max_w, max_h);
        count_kinds(&self.world, limit).0 as u32
    }

    /// The number of sharks among the first `max_w * max_h` cells in linear
    /// order (all cells, if there are fewer). This counts a prefix of the
    /// grid, not the rectangle of that size.
    pub fn num_sharks_in_area(&self, max_w: u16, max_h: u16) -> (count: u32)
        ensures
            count == shark_count(area(self@.cells, max_w as nat, max_h as nat)),
    {
        let limit = self.area_limit(max_w, max_h);
        count_kinds(&self.world, limit).1 as u32
    }

    /// Whether cell `k` holds what a mover looks for.
    fn suits(&self, k: usize, prey: bool) -> (yes: bool)
        requires
            k < self.world.len(),
        ensures
            yes == holds(self.world@[k as int], prey),
    {
        if prey {
            self.world[k].is_fish()
        } else {
            self.world[k].is_empty()
        }
    }

    /// The cells around `i` that lie in the grid and hold what is looked for.
    fn neighbors_of(&self, i: usize, prey: bool) -> (found: Vec<usize>)
        requires
            self.wf(),
            i < self.world.len(),
        ensures
            as_ints(found@) == neighbors_holding(self.world@, self.width as int, i as int, prey),
    {
        proof {
            lemma_area_bound(self.width as nat, self.height as nat);
        }
        let size = self.world.len();
        let width = self.width as usize;
        let ghost keep = wanted(self.world@, prey);
        let ghost none = Seq::<int>::empty();
        let mut found: Vec<usize> = Vec::new();
        assert(as_ints(found@) =~= none);
        if i >= 1 && self.suits(i - 1, prey) {
            found.push(i - 1);
        }
        let ghost west = kept(none, i - 1, keep);
        assert(as_ints(found@) =~= west);
        if i >= width && self.suits(i - width, prey) {
            found.push(i - width);
        }
        let ghost north = kept(west, i - width, keep);
        assert(as_ints(found@) =~= north);
        if i + width < size && self.suits(i + width, prey) {
            found.push(i + width);
        }
        let ghost south = kept(north, i + width, keep);
        assert(as_ints(found@) =~= south);
        if i + 1 < size && self.suits(i + 1, prey) {
            found.push(i + 1);
        }
        let ghost east = kept(south, i + 1, keep);
        assert(as_ints(found@) =~= east);
        proof {
            lemma_filter_around(i as int, width as int, keep);
        }
        found
    }

    /// The cells that the occupant of cell `i` may move to.
    fn targets_of(&self, i: usize) -> (open: Vec<usize>)
        requires
            self.wf(),
            i < self.world.len(),
        ensures
            as_ints(open@) == targets(self.world@, self.width as int, i as int),
    {
        match self.world[i] {
            Entity::Fish { .. } => self.neighbors_of(i, false),
            Entity::Shark { .. } => {
                let prey = self.neighbors_of(i, true);
                if prey.len() > 0 {
                    prey
                } else {
                    self.neighbors_of(i, false)
                }
            },
            Entity::Empty => {
                let open: Vec<usize> = Vec::new();
                assert(as_ints(open@) =~= Seq::<int>::empty());
                open
            },
        }
    }

    /// Lets a chronon pass over cell `i`: its occupant ages, and is removed
    /// if that killed it. A survivor has room for a meal.
    fn age_cell(&mut self, i: usize)
        requires
            old(self).wf(),
            i < old(self).world.len(),
        ensures
            final(self).wf(),
            final(self)@ == old(self)@.with_cells(aged(old(self)@.cells, old(self)@.config, i as int)),
            final(self)@.cells[i as int].reserve() + MEAL_ENERGY <= u32::MAX,
            final(self)@.cells[i as int].fed().within_limits(old(self)@.config),
    {
        proof {
            self.world@[i as int].lemma_outlived_within_limits(self.config);
        }
        let mut occupant = self.world[i];
        occupant.deprive();
        if occupant.is_dead(self.config) {
            self.world.set(i, Entity::Empty);
        } else {
            self.world.set(i, occupant);
        }
    }

    /// Moves the occupant of cell `i` to cell `dest`. It eats the fish it
    /// lands on, and leaves its offspring behind if it is old enough.
    fn relocate(&mut self, i: usize, dest: usize)
        requires
            old(self).wf(),
            i < old(self).world.len(),
            dest < old(self).world.len(),
            old(self)@.cells[i as int].reserve() + MEAL_ENERGY <= u32::MAX,
            old(self)@.cells[i as int].fed().within_limits(old(self)@.config),
        ensures
            final(self).wf(),
            final(self)@ == old(self)@.with_cells(
                moved(old(self)@.cells, old(self)@.config, i as int, dest as int),
            ),
    {
        let mut mover = self.world[i];
        if self.world[dest].is_fish() {
            mover.gain_energy();
        }
        let left = if mover.can_reproduce() {
            mover.spawn_new(self.config)
        } else {
            Entity::Empty
        };
        proof {
            mover.lemma_offspring_within_limits(self.config);
        }
        self.world.set(dest, mover);
        self.world.set(i, left);
    }

    /// The turn of cell `i`, with `pick` deciding where a mover goes: the
    /// target at position `pick` modulo the number of targets. A cell
    /// outside the grid has no turn.
    pub fn step_cell(&mut self, i: usize, pick: usize)
        requires
            old(self).wf(),
        ensures
            final(self).wf(),
            i < old(self)@.cells.len() ==> final(self)@ == old(self)@.with_cells(
                step(
                    old(self)@.cells,
                    old(self)@.width as int,
                    old(self)@.config,
                    i as int,
                    pick as int,
                ),
            ),
            i >= old(self)@.cells.len() ==> final(self)@ == old(self)@,
    {
        if i >= self.world.len() {
            return ;
        }
        self.age_cell(i);
        let open = self.targets_of(i);
        if open.len() > 0 {
            proof {
                lemma_targets(self.world@, self.width as int, i as int);
            }
            let j = pick % open.len();
            assert(as_ints(open@)[j as int] == open@[j as int]);
            self.relocate(i, open[j]);
        }
    }

    /// One chronon, with the picks handed in: every cell has its turn once,
    /// in ascending order of its index, and cell `i` moves by `picks[i]`.
    /// A cell that `picks` does not reach takes its first target.
    pub fn simulate_with(&mut self, picks: &Vec<usize>)
        requires
            old(self).wf(),
        ensures
            final(self).wf(),
            final(self)@ == old(self)@.with_cells(
                tick(old(self)@.cells, old(self)@.width as int, old(self)@.config, picks@),
            ),
    {
        let size = self.world.len();
        let ghost start = self@;
        let mut i: usize = 0;
        while i < size
            invariant
                self.wf(),
                start.valid(),
                i <= size,
                size == start.cells.len(),
                self@ == start.with_cells(
                    sweep(start.cells, start.width as int, start.config, picks@, i as nat),
                ),
            decreases size - i,
        {
            let pick = if i < picks.len() {
                picks[i]
            } else {
                0
            };
            self.step_cell(i, pick);
            i += 1;
            proof {
                lemma_sweep_valid(start.cells, start.width as int, start.config, picks@, i as nat);
            }
        }
    }

    /// One chronon: every cell has its turn once, in ascending order of its
    /// index, and each mover goes to one of its targets, picked at random.
    /// Whatever is picked, the grid goes through one `tick`, nothing else of
    /// the world changes, and no cell is lost or gained.
    pub fn simulate(&mut self)
        requires
            old(self).wf(),
        ensures
            final(self).wf(),
            old(self)@.ticked(final(self)@),
            fish_count(final(self)@.cells) + shark_count(final(self)@.cells) + empty_count(
                final(self)@.cells,
            ) == old(self)@.width * old(self)@.height,
    {
        let size = self.world.len();
        let ghost start = self@;
        let ghost mut picks: Seq<usize> = Seq::empty();
        let mut i: usize = 0;
        while i < size
            invariant
                self.wf(),
                start.valid(),
                i <= size,
                size == start.cells.len(),
                picks.len() == i,
                self@ == start.with_cells(
                    sweep(start.cells, start.width as int, start.config, picks, i as nat),
                ),
            decreases size - i,
        {
            let ghost before = self@.cells;
            let ghost mut pick: usize = 0;
            self.age_cell(i);
            let open = self.targets_of(i);
            let ghost older = self@.cells;
            proof {
                lemma_targets(older, self.width as int, i as int);
                assert(as_ints(open@).len() == open@.len());
            }
            match pick_target(&open) {
                Some(dest) => {
                    proof {
                        let j = choose|j: int| 0 <= j < open@.len() && open@[j] == dest;
                        assert(as_ints(open@)[j] == dest);
                        vstd::arithmetic::div_mod::lemma_small_mod(j as nat, open@.len());
                        pick = j as usize;
                    }
                    self.relocate(i, dest);
                },
                None => {
                    assert(targets(older, self.width as int, i as int).len() == 0);
                },
            }
            proof {
                let next = picks.push(pick);
                assert(self@.cells == step(
                    before,
                    start.width as int,
                    start.config,
                    i as int,
                    pick as int,
                ));
                lemma_sweep_reads_prefix(
                    start.cells,
                    start.width as int,
                    start.config,
                    picks,
                    next,
                    i as nat,
                );
                picks = next;
            }
            i += 1;
            proof {
                lemma_sweep_valid(start.cells, start.width as int, start.config, picks, i as nat);
            }
        }
        proof {
            lemma_census_total(self@.cells);
            assert(self@.cells == tick(start.cells, start.width as int, start.config, picks));
        }
    }

    /// How many cells an area of `max_w` by `max_h` shows.
    fn area_limit(&self, max_w: u16, max_h: u16) -> (limit: usize)
        ensures
            limit <= self.world.len(),
            limit <= 0xfffe_0001,
            self.world@.take(limit as int) == area(self@.cells, max_w as nat, max_h as nat),
    {
        proof {
            lemma_area_bound(max_w as nat, max_h as nat);
        }
        let shown: usize = max_w as usize * max_h as usize;
        if shown < self.world.len() {
            shown
        } else {
            assert(self.world@.take(self.world@.len() as int) =~= self.world@);
            self.world.len()
        }
    }
}

} // verus!
