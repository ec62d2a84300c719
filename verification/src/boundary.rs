//! The host boundary: a grid generation as a plain structural snapshot —
//! dimensions and ordered `(x, y, state)` triples — for a calling
//! environment to consume, and the parse back.

use vstd::prelude::*;

use crate::cellular_automaton::{Cell, World};

verus! {

/// The caller-consumable representation of one grid generation: the
/// dimensions and the ordered position/state triples, row-major exactly as
/// the grid holds them.
pub struct WorldSnapshot {
    pub width: u32,
    pub height: u32,
    pub cells: Vec<(u32, u32, u32)>,
}

/// The triples a cell sequence serializes to.
pub open spec fn triples_of_cells(cells: Seq<Cell>) -> Seq<(u32, u32, u32)> {
    cells.map_values(|c: Cell| (c.0, c.1, c.2))
}

/// The cells a triple sequence parses back to.
pub open spec fn cells_of_triples(triples: Seq<(u32, u32, u32)>) -> Seq<Cell> {
    triples.map_values(|t: (u32, u32, u32)| Cell(t.0, t.1, t.2))
}

/// Law: serializing and parsing are mutually inverse on the ordered
/// sequences — a round trip through the host representation reproduces the
/// identical triple sequence, and the identical cell sequence.
pub proof fn lemma_snapshot_round_trip(cells: Seq<Cell>, triples: Seq<(u32, u32, u32)>)
    ensures
        cells_of_triples(triples_of_cells(cells)) == cells,
        triples_of_cells(cells_of_triples(triples)) == triples,
{
    assert(cells_of_triples(triples_of_cells(cells)) =~= cells);
    assert(triples_of_cells(cells_of_triples(triples)) =~= triples);
}

/// Serialize a grid into its host-boundary representation.
pub fn to_snapshot(world: &World) -> (r: WorldSnapshot)
    ensures
        r.width == world.x,
        r.height == world.y,
        r.cells@ == triples_of_cells(world.cells@),
{
    let mut triples: Vec<(u32, u32, u32)> = Vec::new();
    let mut i: usize = 0;
    while i < world.cells.len()
        invariant
            i <= world.cells@.len(),
            triples@.len() == i,
            forall|k: int|
                0 <= k < i ==> #[trigger] triples@[k] == (
                    world.cells@[k].0,
                    world.cells@[k].1,
                    world.cells@[k].2,
                ),
        decreases world.cells@.len() - i,
    {
        let c = world.cells[i];
        triples.push((c.0, c.1, c.2));
        i += 1;
    }
    proof {
        assert(triples@ =~= triples_of_cells(world.cells@));
    }
    WorldSnapshot { width: world.x, height: world.y, cells: triples }
}

/// Parse a host-boundary representation back into a grid.
pub fn from_snapshot(snapshot: &WorldSnapshot) -> (r: World)
    ensures
        r.x == snapshot.width,
        r.y == snapshot.height,
        r.cells@ == cells_of_triples(snapshot.cells@),
{
    let mut cells: Vec<Cell> = Vec::new();
    let mut i: usize = 0;
    while i < snapshot.cells.len()
        invariant
            i <= snapshot.cells@.len(),
            cells@.len() == i,
            forall|k: int|
                0 <= k < i ==> #[trigger] cells@[k] == Cell(
                    snapshot.cells@[k].0,
                    snapshot.cells@[k].1,
                    snapshot.cells@[k].2,
                ),
        decreases snapshot.cells@.len() - i,
    {
        let t = snapshot.cells[i];
        cells.push(Cell(t.0, t.1, t.2));
        i += 1;
    }
    proof {
        assert(cells@ =~= cells_of_triples(snapshot.cells@));
    }
    World { x: snapshot.width, y: snapshot.height, cells }
}

} // verus!
