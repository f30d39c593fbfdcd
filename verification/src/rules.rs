use crate::census::{empty_count, fish_count, lemma_census_total, lemma_filter_push, shark_count};
use crate::config::Config;
use crate::entity::Entity;
use vstd::prelude::*;

verus! {

/// The four cells around cell `i` of a grid `width` cells wide, as linear
/// indices: west, north, south, east. With `x = i % width` and
/// `y = i / width` these are `(x + dx) + width * (y + dy)` for the offsets
/// `(-1, 0)`, `(0, -1)`, `(0, 1)`, `(1, 0)`.
///
/// Nothing here keeps `x + dx` inside the row: the west neighbour of the
/// first cell of a row is the last cell of the row above, and the east
/// neighbour of the last cell of a row is the first cell of the row below.
/// The grid wraps at its row ends on purpose; only indices outside the grid
/// as a whole are dropped (see `neighbors_holding`).
pub open spec fn around(i: int, width: int) -> Seq<int> {
    seq![i - 1, i - width, i + width, i + 1]
}

/// The four cells around `i`, written out by column `x = i % width` and row
/// `y = i / width`: they are `(x - 1, y)`, `(x, y - 1)`, `(x, y + 1)` and
/// `(x + 1, y)`, each taken as `column + width * row`.
pub proof fn lemma_around_by_coordinates(i: int, width: int)
    requires
        width > 0,
    ensures
        around(i, width) == seq![
            (i % width - 1) + width * (i / width),
            i % width + width * (i / width - 1),
            i % width + width * (i / width + 1),
            (i % width + 1) + width * (i / width),
        ],
{
    let x = i % width;
    let y = i / width;
    vstd::arithmetic::div_mod::lemma_fundamental_div_mod(i, width);
    assert(width * (y - 1) == width * y - width) by (nonlinear_arith);
    assert(width * (y + 1) == width * y + width) by (nonlinear_arith);
    assert(around(i, width) =~= seq![
        (x - 1) + width * y,
        x + width * (y - 1),
        x + width * (y + 1),
        (x + 1) + width * y,
    ]);
}

/// What a mover looks for in a neighbouring cell: a fish if it hunts
/// (`prey`), free water otherwise.
pub open spec fn holds(e: Entity, prey: bool) -> bool {
    if prey {
        e is Fish
    } else {
        e is Empty
    }
}

/// Cell `k` lies in the grid and holds what is looked for.
pub open spec fn wanted(cells: Seq<Entity>, prey: bool) -> spec_fn(int) -> bool {
    |k: int| 0 <= k < cells.len() && holds(cells[k], prey)
}

/// The cells around `i` that lie in the grid and hold what is looked for,
/// in the order west, north, south, east.
pub open spec fn neighbors_holding(cells: Seq<Entity>, width: int, i: int, prey: bool) -> Seq<int> {
    around(i, width).filter(wanted(cells, prey))
}

/// Indices as the mathematical integers they stand for.
pub open spec fn as_ints(indices: Seq<usize>) -> Seq<int> {
    indices.map_values(|k: usize| k as int)
}

/// The cells that the occupant of cell `i` may move to. A fish moves to free
/// water. A shark moves onto a neighbouring fish if there is one, and to free
/// water only if there is none. An empty cell has nowhere to go.
pub open spec fn targets(cells: Seq<Entity>, width: int, i: int) -> Seq<int> {
    match cells[i] {
        Entity::Fish { .. } => neighbors_holding(cells, width, i, false),
        Entity::Shark { .. } => if neighbors_holding(cells, width, i, true).len() > 0 {
            neighbors_holding(cells, width, i, true)
        } else {
            neighbors_holding(cells, width, i, false)
        },
        Entity::Empty => Seq::empty(),
    }
}

/// The grid after a chronon has passed over cell `i`: its occupant is a year
/// older, or the cell is empty if that year killed it.
pub open spec fn aged(cells: Seq<Entity>, config: Config, i: int) -> Seq<Entity> {
    cells.update(i, cells[i].outlived(config))
}

/// The grid after the occupant of cell `i` has moved to cell `dest`. A mover
/// that lands on a fish eats it. The cell it came from holds its offspring
/// if it was old enough to breed, and nothing otherwise.
pub open spec fn moved(cells: Seq<Entity>, config: Config, i: int, dest: int) -> Seq<Entity> {
    let mover = if cells[dest] is Fish {
        cells[i].fed()
    } else {
        cells[i]
    };
    cells.update(dest, mover).update(i, mover.left_behind(config))
}

/// The turn of cell `i`: its occupant ages and may die; a survivor that has
/// somewhere to go moves to the target that `pick` selects, counted modulo
/// the number of targets.
pub open spec fn step(cells: Seq<Entity>, width: int, config: Config, i: int, pick: int) -> Seq<
    Entity,
> {
    let older = aged(cells, config, i);
    let open = targets(older, width, i);
    if open.len() == 0 {
        older
    } else {
        moved(older, config, i, open[pick % (open.len() as int)])
    }
}

/// The pick for cell `i`. A cell that `picks` does not reach takes its first
/// target.
pub open spec fn pick_at(picks: Seq<usize>, i: int) -> int {
    if 0 <= i < picks.len() {
        picks[i] as int
    } else {
        0
    }
}

/// The grid after the cells `0..upto` have had their turn, in ascending
/// order, each on the grid that the turns before it left. An occupant that
/// moves to a higher index is therefore met again later in the same pass and
/// takes another turn; one that moves to a lower index is not.
pub open spec fn sweep(
    cells: Seq<Entity>,
    width: int,
    config: Config,
    picks: Seq<usize>,
    upto: nat,
) -> Seq<Entity>
    decreases upto,
{
    if upto == 0 {
        cells
    } else {
        step(
            sweep(cells, width, config, picks, (upto - 1) as nat),
            width,
            config,
            upto - 1,
            pick_at(picks, upto - 1),
        )
    }
}

/// One chronon: every cell of the grid has its turn once.
pub open spec fn tick(cells: Seq<Entity>, width: int, config: Config, picks: Seq<usize>) -> Seq<
    Entity,
> {
    sweep(cells, width, config, picks, cells.len())
}

/// The picks that `source` holds for chronon `n`; none once it has run out.
pub open spec fn picks_of(source: Seq<Seq<usize>>, n: int) -> Seq<usize> {
    if 0 <= n < source.len() {
        source[n]
    } else {
        Seq::empty()
    }
}

/// The grid after `chronons` chronons, the `n`-th of which takes its picks
/// from `source[n]`.
pub open spec fn trajectory(
    cells: Seq<Entity>,
    width: int,
    config: Config,
    source: Seq<Seq<usize>>,
    chronons: nat,
) -> Seq<Entity>
    decreases chronons,
{
    if chronons == 0 {
        cells
    } else {
        tick(
            trajectory(cells, width, config, source, (chronons - 1) as nat),
            width,
            config,
            picks_of(source, chronons - 1),
        )
    }
}

/// One chronon has passed between `before` and `after`: the grid has gone
/// through one `tick` under some picks, and nothing else has changed.
pub open spec fn advanced(
    before: Seq<Entity>,
    width: int,
    config: Config,
    after: Seq<Entity>,
) -> bool {
    exists|picks: Seq<usize>| after == #[trigger] tick(before, width, config, picks)
}

/// The two draws for cell `i`: the first says whether a shark is placed, the
/// second whether a fish is. A cell that `draws` does not reach stays empty.
pub open spec fn draw_at(draws: Seq<(bool, bool)>, i: int) -> (bool, bool) {
    if 0 <= i < draws.len() {
        draws[i]
    } else {
        (false, false)
    }
}

/// A grid of `size` cells, each seeded from its own two draws.
pub open spec fn seeding(size: nat, config: Config, draws: Seq<(bool, bool)>) -> Seq<Entity> {
    Seq::new(size, |i: int| Entity::seed(draw_at(draws, i).0, draw_at(draws, i).1, config))
}

/// Every cell of `cells` is within its limits.
pub open spec fn all_within_limits(cells: Seq<Entity>, config: Config) -> bool {
    forall|k: int| 0 <= k < cells.len() ==> (#[trigger] cells[k]).within_limits(config)
}

/// What `keep` lets through of the four neighbours, one at a time.
pub open spec fn kept(s: Seq<int>, k: int, keep: spec_fn(int) -> bool) -> Seq<int> {
    if keep(k) {
        s.push(k)
    } else {
        s
    }
}

/// Filtering the four neighbours is the same as testing them in order.
pub proof fn lemma_filter_around(i: int, width: int, keep: spec_fn(int) -> bool)
    ensures
        around(i, width).filter(keep) == kept(
            kept(kept(kept(Seq::empty(), i - 1, keep), i - width, keep), i + width, keep),
            i + 1,
            keep,
        ),
{
    let s0 = Seq::<int>::empty();
    let s1 = s0.push(i - 1);
    let s2 = s1.push(i - width);
    let s3 = s2.push(i + width);
    assert(s0.filter(keep) == s0) by {
        reveal(Seq::filter);
    }
    lemma_filter_push(s0, i - 1, keep);
    lemma_filter_push(s1, i - width, keep);
    lemma_filter_push(s2, i + width, keep);
    lemma_filter_push(s3, i + 1, keep);
    assert(s3.push(i + 1) =~= around(i, width));
}

/// A neighbour that is kept lies in the grid, is one of the four cells
/// around `i` and holds what was looked for.
pub proof fn lemma_neighbors_holding(cells: Seq<Entity>, width: int, i: int, prey: bool)
    ensures
        neighbors_holding(cells, width, i, prey).len() <= 4,
        forall|j: int|
            0 <= j < neighbors_holding(cells, width, i, prey).len() ==> {
                let k = #[trigger] neighbors_holding(cells, width, i, prey)[j];
                &&& 0 <= k < cells.len()
                &&& holds(cells[k], prey)
                &&& (k == i - 1 || k == i - width || k == i + width || k == i + 1)
            },
{
    lemma_filter_around(i, width, wanted(cells, prey));
}

/// Every target lies in the grid, next to the mover, and is another cell
/// than the mover's own. A fish's targets are empty cells; a shark's targets
/// are all fish or all empty cells.
pub proof fn lemma_targets(cells: Seq<Entity>, width: int, i: int)
    requires
        0 <= i < cells.len(),
        width > 0,
    ensures
        targets(cells, width, i).len() <= 4,
        cells[i] is Empty ==> targets(cells, width, i).len() == 0,
        forall|j: int|
            0 <= j < targets(cells, width, i).len() ==> {
                let k = #[trigger] targets(cells, width, i)[j];
                &&& 0 <= k < cells.len()
                &&& k != i
                &&& (k == i - 1 || k == i - width || k == i + width || k == i + 1)
                &&& (cells[k] is Empty || (cells[i] is Shark && cells[k] is Fish))
            },
{
    lemma_neighbors_holding(cells, width, i, true);
    lemma_neighbors_holding(cells, width, i, false);
}

/// The turn of an empty cell changes nothing.
pub proof fn lemma_step_of_empty(cells: Seq<Entity>, width: int, config: Config, i: int, pick: int)
    requires
        0 <= i < cells.len(),
        cells[i] is Empty,
    ensures
        step(cells, width, config, i, pick) == cells,
{
    assert(aged(cells, config, i) =~= cells);
}

/// A grid without occupants stays as it is, whatever the picks.
pub proof fn lemma_tick_of_empty(cells: Seq<Entity>, width: int, config: Config, picks: Seq<usize>)
    requires
        forall|k: int| 0 <= k < cells.len() ==> (#[trigger] cells[k]) is Empty,
    ensures
        tick(cells, width, config, picks) == cells,
{
    lemma_sweep_of_empty(cells, width, config, picks, cells.len());
}

/// The cells `0..upto` of a grid without occupants having had their turn,
/// the grid is as it was.
pub proof fn lemma_sweep_of_empty(
    cells: Seq<Entity>,
    width: int,
    config: Config,
    picks: Seq<usize>,
    upto: nat,
)
    requires
        upto <= cells.len(),
        forall|k: int| 0 <= k < cells.len() ==> (#[trigger] cells[k]) is Empty,
    ensures
        sweep(cells, width, config, picks, upto) == cells,
    decreases upto,
{
    if upto > 0 {
        lemma_sweep_of_empty(cells, width, config, picks, (upto - 1) as nat);
        lemma_step_of_empty(cells, width, config, upto - 1, pick_at(picks, upto - 1));
    }
}

/// A turn leaves the grid as large as it was.
pub proof fn lemma_step_len(cells: Seq<Entity>, width: int, config: Config, i: int, pick: int)
    requires
        0 <= i < cells.len(),
        width > 0,
    ensures
        step(cells, width, config, i, pick).len() == cells.len(),
{
    let older = aged(cells, config, i);
    lemma_targets(older, width, i);
    let open = targets(older, width, i);
    if open.len() > 0 {
        let j = pick % (open.len() as int);
        assert(0 <= j < open.len());
        assert(0 <= open[j] < older.len());
    }
}

/// A turn keeps every occupant within its limits.
pub proof fn lemma_step_within_limits(
    cells: Seq<Entity>,
    width: int,
    config: Config,
    i: int,
    pick: int,
)
    requires
        0 <= i < cells.len(),
        width > 0,
        config.sustainable(),
        all_within_limits(cells, config),
    ensures
        all_within_limits(step(cells, width, config, i, pick), config),
{
    let older = aged(cells, config, i);
    cells[i].lemma_outlived_within_limits(config);
    lemma_targets(older, width, i);
    let open = targets(older, width, i);
    assert(all_within_limits(older, config));
    if open.len() > 0 {
        let j = pick % (open.len() as int);
        assert(0 <= j < open.len());
        let dest = open[j];
        assert(0 <= dest < older.len());
        let mover = if older[dest] is Fish {
            older[i].fed()
        } else {
            older[i]
        };
        mover.lemma_offspring_within_limits(config);
        assert(mover.within_limits(config));
    }
}

/// The cells `0..upto` having had their turn, the grid is as large as it
/// was and every occupant is within its limits.
pub proof fn lemma_sweep_valid(
    cells: Seq<Entity>,
    width: int,
    config: Config,
    picks: Seq<usize>,
    upto: nat,
)
    requires
        upto <= cells.len(),
        width > 0,
        config.sustainable(),
        all_within_limits(cells, config),
    ensures
        sweep(cells, width, config, picks, upto).len() == cells.len(),
        all_within_limits(sweep(cells, width, config, picks, upto), config),
    decreases upto,
{
    if upto > 0 {
        let before = sweep(cells, width, config, picks, (upto - 1) as nat);
        lemma_sweep_valid(cells, width, config, picks, (upto - 1) as nat);
        lemma_step_len(before, width, config, upto - 1, pick_at(picks, upto - 1));
        lemma_step_within_limits(before, width, config, upto - 1, pick_at(picks, upto - 1));
    }
}

/// The turns of the cells `0..upto` depend on the picks for those cells and
/// on no others.
pub proof fn lemma_sweep_reads_prefix(
    cells: Seq<Entity>,
    width: int,
    config: Config,
    picks: Seq<usize>,
    other: Seq<usize>,
    upto: nat,
)
    requires
        forall|i: int| 0 <= i < upto ==> pick_at(picks, i) == pick_at(other, i),
    ensures
        sweep(cells, width, config, picks, upto) == sweep(cells, width, config, other, upto),
    decreases upto,
{
    if upto > 0 {
        lemma_sweep_reads_prefix(cells, width, config, picks, other, (upto - 1) as nat);
    }
}

/// At every chronon the fish, the sharks and the empty cells together are
/// all the cells of the grid: `width * height` of them.
pub proof fn lemma_census_invariant(
    cells: Seq<Entity>,
    width: nat,
    height: nat,
    config: Config,
    source: Seq<Seq<usize>>,
    chronons: nat,
)
    requires
        width > 0,
        cells.len() == width * height,
        config.sustainable(),
        all_within_limits(cells, config),
    ensures
        ({
            let now = trajectory(cells, width as int, config, source, chronons);
            &&& now.len() == width * height
            &&& all_within_limits(now, config)
            &&& fish_count(now) + shark_count(now) + empty_count(now) == width * height
        }),
    decreases chronons,
{
    if chronons > 0 {
        let before = trajectory(cells, width as int, config, source, (chronons - 1) as nat);
        lemma_census_invariant(cells, width, height, config, source, (chronons - 1) as nat);
        let picks = picks_of(source, chronons - 1);
        lemma_sweep_valid(before, width as int, config, picks, before.len());
    }
    lemma_census_total(trajectory(cells, width as int, config, source, chronons));
}

/// The same grid and the same source of picks give the same trajectory: a
/// run is decided by where it starts and by the picks that its cells are
/// handed, chronon by chronon.
pub proof fn lemma_deterministic(
    cells: Seq<Entity>,
    again: Seq<Entity>,
    width: int,
    config: Config,
    source: Seq<Seq<usize>>,
    other: Seq<Seq<usize>>,
    chronons: nat,
)
    requires
        width > 0,
        config.sustainable(),
        all_within_limits(cells, config),
        again == cells,
        forall|n: int, i: int|
            0 <= n < chronons && 0 <= i < cells.len() ==> #[trigger] pick_at(picks_of(source, n), i)
                == pick_at(picks_of(other, n), i),
    ensures
        trajectory(cells, width, config, source, chronons) == trajectory(
            again,
            width,
            config,
            other,
            chronons,
        ),
    decreases chronons,
{
    if chronons > 0 {
        let n = chronons - 1;
        lemma_deterministic(cells, again, width, config, source, other, n as nat);
        let before = trajectory(cells, width, config, source, n as nat);
        lemma_trajectory_valid(cells, width, config, source, n as nat);
        let p = picks_of(source, n);
        let q = picks_of(other, n);
        assert forall|i: int| 0 <= i < before.len() implies pick_at(p, i) == pick_at(q, i) by {
            assert(pick_at(picks_of(source, n), i) == pick_at(picks_of(other, n), i));
        }
        lemma_sweep_reads_prefix(before, width, config, p, q, before.len());
    }
}

/// A trajectory never changes the size of the grid, and keeps every
/// occupant within its limits.
pub proof fn lemma_trajectory_valid(
    cells: Seq<Entity>,
    width: int,
    config: Config,
    source: Seq<Seq<usize>>,
    chronons: nat,
)
    requires
        width > 0,
        config.sustainable(),
        all_within_limits(cells, config),
    ensures
        trajectory(cells, width, config, source, chronons).len() == cells.len(),
        all_within_limits(trajectory(cells, width, config, source, chronons), config),
    decreases chronons,
{
    if chronons > 0 {
        let before = trajectory(cells, width, config, source, (chronons - 1) as nat);
        lemma_trajectory_valid(cells, width, config, source, (chronons - 1) as nat);
        let picks = picks_of(source, chronons - 1);
        lemma_sweep_valid(before, width, config, picks, before.len());
    }
}

} // verus!
