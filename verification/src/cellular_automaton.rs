//! The automaton engine: the grid data model, the toroidal neighbor locator,
//! the pluggable rule/locator policies, and the generation stepper.

use vstd::prelude::*;
use vstd::arithmetic::div_mod::{
    lemma_fundamental_div_mod, lemma_mod_multiples_vanish, lemma_mod_self_0, lemma_small_mod,
};
use vstd::seq_lib::*;

verus! {

/// One square of the grid: position `(x, y)` and a state value
/// (`0` is dead and `1` is alive under the rule shipped here, but the
/// engine tolerates any state value).
#[derive(Debug, Clone, Copy, PartialEq, Eq, Structural)]
pub struct Cell(pub u32, pub u32, pub u32);

/// A rectangular toroidal grid: its declared width `x`, height `y`, and the
/// cells of one generation, laid out row-major with `x` outer and `y` inner.
#[derive(Debug, Clone)]
pub struct World {
    pub x: u32,
    pub y: u32,
    pub cells: Vec<Cell>,
}

impl World {
    /// Every cell's position lies inside the declared dimensions. This is
    /// all a generation step needs of a grid.
    pub open spec fn positions_in_range(self) -> bool {
        forall|i: int|
            0 <= i < self.cells@.len() ==> (#[trigger] self.cells@[i]).0 < self.x
                && self.cells@[i].1 < self.y
    }

    /// The full grid invariant: the cell sequence has exactly `x * y` cells
    /// and holds each position of the coordinate space exactly once.
    pub open spec fn wf(self) -> bool {
        &&& self.positions_in_range()
        &&& self.cells@.len() == self.x * self.y
        &&& forall|i: int, j: int|
            0 <= i < j < self.cells@.len() ==> !(#[trigger] self.cells@[i].0
                == #[trigger] self.cells@[j].0 && self.cells@[i].1 == self.cells@[j].1)
    }
}

/// `p` and `c` name the same coordinate on an axis of length `d` once wrapped.
pub open spec fn same_residue(p: int, c: int, d: int) -> bool {
    p % d == c % d
}

/// `p` is one step east or west (or south or north) of `c` on an axis of
/// length `d` once wrapped: congruent to `c + 1` or `c - 1` modulo `d`.
pub open spec fn adjacent_residue(p: int, c: int, d: int) -> bool {
    p % d == (c + 1) % d || p % d == (c + d - 1) % d
}

/// `p` is congruent to `c`, `c - 1`, or `c + 1` modulo the dimension `d`:
/// the one-axis part of the wrap-around Moore adjacency.
pub open spec fn wrap_adjacent(p: int, c: int, d: int) -> bool {
    same_residue(p, c, d) || adjacent_residue(p, c, d)
}

/// The fixed adjacency policy: `c` is a neighbor of `focus` on a grid of
/// dimensions `dim` iff it is not `focus` itself and each coordinate is
/// within one step of the focus modulo the matching dimension (the
/// 8-connected Moore neighborhood, wrapped on both axes).
pub open spec fn is_neighbor_spec(dim: (u32, u32), c: Cell, focus: (u32, u32)) -> bool {
    &&& !(c.0 == focus.0 && c.1 == focus.1)
    &&& wrap_adjacent(c.0 as int, focus.0 as int, dim.0 as int)
    &&& wrap_adjacent(c.1 as int, focus.1 as int, dim.1 as int)
}

/// One axis of the adjacency tests, free of overflow: reduce both coordinates
/// modulo the dimension and compare against the two wrapped offsets. Returns
/// whether the residues are the same and whether they are one step apart.
fn axis_residues(p: u32, c: u32, d: u32) -> (r: (bool, bool))
    requires
        d >= 1,
    ensures
        r.0 == same_residue(p as int, c as int, d as int),
        r.1 == adjacent_residue(p as int, c as int, d as int),
{
    let pm: u32 = p % d;
    let cm: u32 = c % d;
    let west: u32 = if cm == 0 { d - 1 } else { cm - 1 };
    let east: u32 = if cm == d - 1 { 0 } else { cm + 1 };
    proof {
        let ci = c as int;
        let di = d as int;
        let q = ci / di;
        lemma_fundamental_div_mod(ci, di);
        lemma_mod_multiples_vanish(q, cm as int + 1, di);
        assert((ci + 1) % di == (cm as int + 1) % di);
        if cm == d - 1 {
            lemma_mod_self_0(di);
        } else {
            lemma_small_mod((cm + 1) as nat, d as nat);
        }
        lemma_mod_multiples_vanish(q, cm as int + di - 1, di);
        assert((ci + di - 1) % di == (cm as int + di - 1) % di);
        if cm == 0 {
            lemma_small_mod((d - 1) as nat, d as nat);
        } else {
            lemma_mod_multiples_vanish(1, cm as int - 1, di);
            lemma_small_mod((cm - 1) as nat, d as nat);
        }
    }
    (pm == cm, pm == east || pm == west)
}

/// The adjacency test of the locator: true iff `c` is a Moore neighbor of
/// `focus` on a toroidal grid of dimensions `dim`, excluding `focus` itself.
fn is_neighbor(dim: (u32, u32), c: Cell, focus: (u32, u32)) -> (r: bool)
    requires
        dim.0 >= 1,
        dim.1 >= 1,
    ensures
        r == is_neighbor_spec(dim, c, focus),
{
    if c.0 == focus.0 && c.1 == focus.1 {
        return false;
    }
    let (x_same, x_adj) = axis_residues(c.0, focus.0, dim.0);
    let (y_same, y_adj) = axis_residues(c.1, focus.1, dim.1);
    (x_same || x_adj) && (y_same || y_adj)
}

/// The alternate adjacency policy: `c` is a von Neumann neighbor of `focus`
/// iff it sits exactly one wrapped step away along one axis and on the same
/// wrapped coordinate along the other (the 4-connected neighborhood).
pub open spec fn is_vn_neighbor_spec(dim: (u32, u32), c: Cell, focus: (u32, u32)) -> bool {
    &&& !(c.0 == focus.0 && c.1 == focus.1)
    &&& {
        ||| same_residue(c.0 as int, focus.0 as int, dim.0 as int) && adjacent_residue(
            c.1 as int,
            focus.1 as int,
            dim.1 as int,
        )
        ||| same_residue(c.1 as int, focus.1 as int, dim.1 as int) && adjacent_residue(
            c.0 as int,
            focus.0 as int,
            dim.0 as int,
        )
    }
}

/// The 4-connected counterpart of `is_neighbor`.
fn is_vn_neighbor(dim: (u32, u32), c: Cell, focus: (u32, u32)) -> (r: bool)
    requires
        dim.0 >= 1,
        dim.1 >= 1,
    ensures
        r == is_vn_neighbor_spec(dim, c, focus),
{
    if c.0 == focus.0 && c.1 == focus.1 {
        return false;
    }
    let (x_same, x_adj) = axis_residues(c.0, focus.0, dim.0);
    let (y_same, y_adj) = axis_residues(c.1, focus.1, dim.1);
    (x_same && y_adj) || (y_same && x_adj)
}

/// The Moore policy as a predicate value, so that loop invariants and the
/// locator's specification name one and the same function.
pub open spec fn moore_pred(dim: (u32, u32), focus: (u32, u32)) -> spec_fn(Cell) -> bool {
    |c: Cell| is_neighbor_spec(dim, c, focus)
}

/// The von Neumann policy as a predicate value.
pub open spec fn vn_pred(dim: (u32, u32), focus: (u32, u32)) -> spec_fn(Cell) -> bool {
    |c: Cell| is_vn_neighbor_spec(dim, c, focus)
}

/// What the Moore locator returns: the cells of the grid adjacent to `focus`
/// under the wrap-around Moore policy, in grid order, the focus excluded.
pub open spec fn moore_neighbors_spec(world: World, focus: (u32, u32)) -> Seq<Cell> {
    world.cells@.filter(moore_pred((world.x, world.y), focus))
}

/// What the von Neumann locator returns.
pub open spec fn vn_neighbors_spec(world: World, focus: (u32, u32)) -> Seq<Cell> {
    world.cells@.filter(vn_pred((world.x, world.y), focus))
}

/// Collect the Moore neighbors of `focus` out of the grid's cells.
fn nb_in(world: &World, focus: (u32, u32)) -> (r: Vec<Cell>)
    requires
        world.x >= 1,
        world.y >= 1,
    ensures
        r@ == moore_neighbors_spec(*world, focus),
{
    let ghost pred = moore_pred((world.x, world.y), focus);
    let mut r: Vec<Cell> = Vec::new();
    let mut i: usize = 0;
    while i < world.cells.len()
        invariant
            world.x >= 1,
            world.y >= 1,
            i <= world.cells@.len(),
            pred == moore_pred((world.x, world.y), focus),
            r@ == world.cells@.take(i as int).filter(pred),
        decreases world.cells@.len() - i,
    {
        let c = world.cells[i];
        proof {
            assert(world.cells@.take(i as int + 1) =~= world.cells@.take(i as int).push(c));
            world.cells@.take(i as int).lemma_filter_push(c, pred);
        }
        if is_neighbor((world.x, world.y), c, focus) {
            r.push(c);
        }
        i += 1;
    }
    proof {
        assert(world.cells@.take(world.cells@.len() as int) =~= world.cells@);
    }
    r
}

/// The von Neumann counterpart of `nb_in`.
fn vn_in(world: &World, focus: (u32, u32)) -> (r: Vec<Cell>)
    requires
        world.x >= 1,
        world.y >= 1,
    ensures
        r@ == vn_neighbors_spec(*world, focus),
{
    let ghost pred = vn_pred((world.x, world.y), focus);
    let mut r: Vec<Cell> = Vec::new();
    let mut i: usize = 0;
    while i < world.cells.len()
        invariant
            world.x >= 1,
            world.y >= 1,
            i <= world.cells@.len(),
            pred == vn_pred((world.x, world.y), focus),
            r@ == world.cells@.take(i as int).filter(pred),
        decreases world.cells@.len() - i,
    {
        let c = world.cells[i];
        proof {
            assert(world.cells@.take(i as int + 1) =~= world.cells@.take(i as int).push(c));
            world.cells@.take(i as int).lemma_filter_push(c, pred);
        }
        if is_vn_neighbor((world.x, world.y), c, focus) {
            r.push(c);
        }
        i += 1;
    }
    proof {
        assert(world.cells@.take(world.cells@.len() as int) =~= world.cells@);
    }
    r
}

/// Every cell of the grid adjacent to `focus` under the wrap-around Moore
/// policy, in grid order. The focus cell itself is never among them. On an
/// axis shorter than 3 the wrapped offsets coincide, so fewer distinct
/// positions qualify; the result never repeats a cell, since the grid's
/// cells are filtered rather than the offsets enumerated.
pub fn nb(world: World, focus: (u32, u32)) -> (r: Vec<Cell>)
    requires
        world.x >= 1,
        world.y >= 1,
    ensures
        r@ == moore_neighbors_spec(world, focus),
{
    nb_in(&world, focus)
}

/// Query a grid for the neighbors of `pos` through a caller-chosen
/// neighborhood function.
pub fn get_neighbors<F: FnOnce(World, (u32, u32)) -> Vec<Cell>>(
    world: World,
    nb: F,
    pos: (u32, u32),
) -> (r: Vec<Cell>)
    requires
        call_requires(nb, (world, pos)),
    ensures
        call_ensures(nb, (world, pos), r),
{
    nb(world, pos)
}

/// Advance a whole grid by one generation through a caller-chosen algorithm.
pub fn apply_algorithm<F: FnOnce(World) -> World>(world: World, algorithm: F) -> (r: World)
    requires
        call_requires(algorithm, (world,)),
    ensures
        call_ensures(algorithm, (world,), r),
{
    algorithm(world)
}

/// The sum of the neighbors' raw state values. Over binary states this is
/// the number of live neighbors; see `lemma_alive_sum_is_live_count`.
pub open spec fn alive_sum(neighbors: Seq<Cell>) -> int
    decreases neighbors.len(),
{
    if neighbors.len() == 0 {
        0
    } else {
        alive_sum(neighbors.drop_last()) + neighbors.last().2
    }
}

/// Conway's transition rule over the raw state sum: a dead cell is born on a
/// sum of exactly 3; a live cell survives on a sum of 2 or 3; everything
/// else, the empty neighborhood included, yields death.
pub open spec fn conway_next_state(state: u32, neighbors: Seq<Cell>) -> u32 {
    if state == 0 {
        if alive_sum(neighbors) == 3 {
            1u32
        } else {
            0u32
        }
    } else {
        if alive_sum(neighbors) == 2 || alive_sum(neighbors) == 3 {
            1u32
        } else {
            0u32
        }
    }
}

/// The raw state sum is never negative.
pub proof fn lemma_alive_sum_nonneg(neighbors: Seq<Cell>)
    ensures
        alive_sum(neighbors) >= 0,
    decreases neighbors.len(),
{
    if neighbors.len() > 0 {
        lemma_alive_sum_nonneg(neighbors.drop_last());
    }
}

/// The state sum capped at 4. The rule only compares the sum against 2 and
/// 3, so the executable code accumulates this cap instead of the full sum,
/// which could overflow; the cap decides equality with 2 and with 3 exactly.
spec fn capped_at_four(s: int) -> int {
    if s > 4 {
        4
    } else {
        s
    }
}

/// The next state of one cell under Conway's rule: `state` is its current
/// state, `neighbors` its full neighbor list. Total: any states and any
/// neighbor count are tolerated, and an empty list yields death.
pub fn determine_survival(state: u32, neighbors: Vec<Cell>) -> (r: u32)
    ensures
        r == conway_next_state(state, neighbors@),
{
    if neighbors.len() == 0 {
        return 0;
    }
    let mut capped: u32 = 0;
    let mut i: usize = 0;
    while i < neighbors.len()
        invariant
            i <= neighbors@.len(),
            capped <= 4,
            capped as int == capped_at_four(alive_sum(neighbors@.take(i as int))),
        decreases neighbors@.len() - i,
    {
        let c = neighbors[i];
        proof {
            lemma_alive_sum_nonneg(neighbors@.take(i as int));
            assert(neighbors@.take(i as int + 1).drop_last() =~= neighbors@.take(i as int));
            assert(alive_sum(neighbors@.take(i as int + 1)) == alive_sum(
                neighbors@.take(i as int),
            ) + c.2);
        }
        if c.2 >= 4 - capped {
            capped = 4;
        } else {
            capped = capped + c.2;
        }
        i += 1;
    }
    proof {
        assert(neighbors@.take(neighbors@.len() as int) =~= neighbors@);
        lemma_alive_sum_nonneg(neighbors@);
    }
    if state == 0 {
        if capped == 3 {
            1
        } else {
            0
        }
    } else {
        if capped == 2 || capped == 3 {
            1
        } else {
            0
        }
    }
}

/// A swappable adjacency policy: given a grid and a focus position, find the
/// cells adjacent to that position. Implementations fix what "adjacent"
/// means through `neighbors_spec`.
pub trait NeighborLocator {
    /// The cells the policy counts as neighbors of `focus`, in grid order.
    spec fn neighbors_spec(&self, world: World, focus: (u32, u32)) -> Seq<Cell>;

    /// Collect exactly those cells out of the grid.
    fn neighbors(&self, world: &World, focus: (u32, u32)) -> (r: Vec<Cell>)
        requires
            world.x >= 1,
            world.y >= 1,
        ensures
            r@ == self.neighbors_spec(*world, focus),
    ;
}

/// A swappable transition rule: given a cell's current state and its
/// neighbors, compute the state of the next generation.
pub trait RuleEngine {
    /// The rule itself, as a total function of state and neighbor list.
    spec fn next_state_spec(&self, state: u32, neighbors: Seq<Cell>) -> u32;

    /// Compute the next state.
    fn next_state(&self, state: u32, neighbors: Vec<Cell>) -> (r: u32)
        ensures
            r == self.next_state_spec(state, neighbors@),
    ;
}

/// The default adjacency policy: the 8-connected Moore neighborhood with
/// wrap-around on both axes.
pub struct MooreLocator;

impl NeighborLocator for MooreLocator {
    open spec fn neighbors_spec(&self, world: World, focus: (u32, u32)) -> Seq<Cell> {
        moore_neighbors_spec(world, focus)
    }

    fn neighbors(&self, world: &World, focus: (u32, u32)) -> (r: Vec<Cell>) {
        nb_in(world, focus)
    }
}

/// The alternate adjacency policy: the 4-connected von Neumann neighborhood
/// with wrap-around on both axes.
pub struct VonNeumannLocator;

impl NeighborLocator for VonNeumannLocator {
    open spec fn neighbors_spec(&self, world: World, focus: (u32, u32)) -> Seq<Cell> {
        vn_neighbors_spec(world, focus)
    }

    fn neighbors(&self, world: &World, focus: (u32, u32)) -> (r: Vec<Cell>) {
        vn_in(world, focus)
    }
}

/// The default transition rule: Conway's Game of Life.
pub struct ConwayRule;

impl RuleEngine for ConwayRule {
    open spec fn next_state_spec(&self, state: u32, neighbors: Seq<Cell>) -> u32 {
        conway_next_state(state, neighbors)
    }

    fn next_state(&self, state: u32, neighbors: Vec<Cell>) -> (r: u32) {
        determine_survival(state, neighbors)
    }
}

/// An alternate transition rule that keeps every cell as it is; useful as a
/// do-nothing automaton and to exercise the strategy plumbing.
pub struct StasisRule;

impl RuleEngine for StasisRule {
    open spec fn next_state_spec(&self, state: u32, neighbors: Seq<Cell>) -> u32 {
        state
    }

    fn next_state(&self, state: u32, neighbors: Vec<Cell>) -> (r: u32) {
        state
    }
}

/// Orchestrates one generation under a locator and a rule chosen at
/// construction time.
pub struct GenerationStepper<L, R> {
    pub locator: L,
    pub rule: R,
}

impl<L: NeighborLocator, R: RuleEngine> GenerationStepper<L, R> {
    /// The cell the stepper emits for `c`: the same position, and the state
    /// the rule assigns given the neighbors the locator finds for it.
    pub open spec fn next_cell_spec(&self, world: World, c: Cell) -> Cell {
        Cell(
            c.0,
            c.1,
            self.rule.next_state_spec(c.2, self.locator.neighbors_spec(world, (c.0, c.1))),
        )
    }

    /// One synchronous generation: every output cell is computed from the
    /// frozen input grid alone, and the output keeps the dimensions, the
    /// cell count and the position at every index.
    pub fn step(&self, world: &World) -> (r: World)
        requires
            world.positions_in_range(),
        ensures
            r.x == world.x,
            r.y == world.y,
            r.cells@.len() == world.cells@.len(),
            forall|i: int|
                0 <= i < world.cells@.len() ==> #[trigger] r.cells@[i] == self.next_cell_spec(
                    *world,
                    world.cells@[i],
                ),
    {
        let mut cells: Vec<Cell> = Vec::new();
        let mut i: usize = 0;
        while i < world.cells.len()
            invariant
                world.positions_in_range(),
                i <= world.cells@.len(),
                cells@.len() == i,
                forall|k: int|
                    0 <= k < i ==> #[trigger] cells@[k] == self.next_cell_spec(
                        *world,
                        world.cells@[k],
                    ),
            decreases world.cells@.len() - i,
        {
            let c = world.cells[i];
            proof {
                assert(world.cells@[i as int].0 < world.x && world.cells@[i as int].1 < world.y);
            }
            let ns = self.locator.neighbors(world, (c.0, c.1));
            let s = self.rule.next_state(c.2, ns);
            cells.push(Cell(c.0, c.1, s));
            i += 1;
        }
        World { x: world.x, y: world.y, cells }
    }
}

/// The cell one Game of Life step emits for `c` within `world`.
pub open spec fn life_step_cell(world: World, c: Cell) -> Cell {
    Cell(c.0, c.1, conway_next_state(c.2, moore_neighbors_spec(world, (c.0, c.1))))
}

/// One generation of Conway's Game of Life on the toroidal grid: the Moore
/// locator combined with Conway's rule.
pub fn game_of_life(w: World) -> (r: World)
    requires
        w.positions_in_range(),
    ensures
        r.x == w.x,
        r.y == w.y,
        r.cells@.len() == w.cells@.len(),
        forall|i: int|
            0 <= i < w.cells@.len() ==> #[trigger] r.cells@[i] == life_step_cell(w, w.cells@[i]),
{
    let stepper = GenerationStepper { locator: MooreLocator, rule: ConwayRule };
    stepper.step(&w)
}

/// The positions a grid covers, as a set of `(x, y)` pairs.
pub open spec fn position_set(world: World) -> Set<(u32, u32)> {
    world.cells@.map_values(|c: Cell| (c.0, c.1)).to_set()
}

/// Law: a generation step preserves the grid's shape. Any output whose
/// dimensions match, whose cell count matches, and whose cell at every index
/// keeps its position — which is exactly what `step` ensures — covers the
/// same set of positions as the input.
pub proof fn lemma_step_preserves_positions(w: World, r: World)
    requires
        r.x == w.x,
        r.y == w.y,
        r.cells@.len() == w.cells@.len(),
        forall|i: int|
            0 <= i < w.cells@.len() ==> (#[trigger] r.cells@[i]).0 == w.cells@[i].0
                && r.cells@[i].1 == w.cells@[i].1,
    ensures
        position_set(r) == position_set(w),
{
    assert(r.cells@.map_values(|c: Cell| (c.0, c.1)) =~= w.cells@.map_values(
        |c: Cell| (c.0, c.1),
    ));
}

/// The number of neighbors whose state is exactly 1.
pub open spec fn live_count(neighbors: Seq<Cell>) -> int
    decreases neighbors.len(),
{
    if neighbors.len() == 0 {
        0
    } else {
        live_count(neighbors.drop_last()) + if neighbors.last().2 == 1 {
            1int
        } else {
            0int
        }
    }
}

/// Over binary states the raw state sum counts exactly the live neighbors.
pub proof fn lemma_alive_sum_is_live_count(neighbors: Seq<Cell>)
    requires
        forall|i: int|
            0 <= i < neighbors.len() ==> (#[trigger] neighbors[i]).2 == 0 || neighbors[i].2 == 1,
    ensures
        alive_sum(neighbors) == live_count(neighbors),
    decreases neighbors.len(),
{
    if neighbors.len() > 0 {
        assert(forall|i: int|
            0 <= i < neighbors.drop_last().len() ==> (#[trigger] neighbors.drop_last()[i]).2 == 0
                || neighbors.drop_last()[i].2 == 1);
        lemma_alive_sum_is_live_count(neighbors.drop_last());
    }
}

/// Law (birth rule): over binary neighbor states, a dead cell becomes alive
/// iff exactly three of its neighbors are alive — with any other live count,
/// two or four included, it stays dead.
pub proof fn lemma_birth_rule(neighbors: Seq<Cell>)
    requires
        forall|i: int|
            0 <= i < neighbors.len() ==> (#[trigger] neighbors[i]).2 == 0 || neighbors[i].2 == 1,
    ensures
        conway_next_state(0, neighbors) == if live_count(neighbors) == 3 {
            1u32
        } else {
            0u32
        },
{
    lemma_alive_sum_is_live_count(neighbors);
}

/// Law (survival rule): over binary neighbor states, a live cell stays alive
/// iff two or three of its neighbors are alive — with fewer or more it dies.
pub proof fn lemma_survival_rule(state: u32, neighbors: Seq<Cell>)
    requires
        state != 0,
        forall|i: int|
            0 <= i < neighbors.len() ==> (#[trigger] neighbors[i]).2 == 0 || neighbors[i].2 == 1,
    ensures
        conway_next_state(state, neighbors) == if live_count(neighbors) == 2 || live_count(
            neighbors,
        ) == 3 {
            1u32
        } else {
            0u32
        },
{
    lemma_alive_sum_is_live_count(neighbors);
}

} // verus!
