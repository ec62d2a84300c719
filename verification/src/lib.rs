//! A verified engine for a two-dimensional cellular automaton on a toroidal
//! grid, with Conway's Game of Life as the rule shipped by default. This
//! root module holds the grid factory: fixed-size constructors, the
//! validating constructor, and randomized construction from an injected
//! random-byte source.

use vstd::prelude::*;

pub mod boundary;
pub mod cellular_automaton;
pub mod rng;

use vstd::arithmetic::div_mod::{
    lemma_fundamental_div_mod, lemma_fundamental_div_mod_converse,
};
use vstd::arithmetic::mul::{lemma_mul_inequality, lemma_mul_upper_bound};

use crate::cellular_automaton::{Cell, World};
use crate::rng::{OsRandomSource, RandomByteSource};

verus! {

/// The failures grid construction can report.
#[derive(Debug, Clone, Copy, PartialEq, Eq, Structural)]
pub enum WorldError {
    /// The supplied cells do not form the declared `width × height` grid:
    /// wrong count, a position out of range, or a duplicated position.
    InvalidGridShape,
    /// The injected random-byte source could not supply bytes.
    RandomSource,
}

/// The shape `make_grid` accepts: exactly `width * height` cells, every
/// position inside the dimensions, and no position twice.
pub open spec fn valid_shape(width: u32, height: u32, cells: Seq<Cell>) -> bool {
    &&& cells.len() == (width as int) * (height as int)
    &&& forall|i: int|
        0 <= i < cells.len() ==> (#[trigger] cells[i]).0 < width && cells[i].1 < height
    &&& forall|i: int, j: int|
        0 <= i < j < cells.len() ==> !((#[trigger] cells[i]).0 == (#[trigger] cells[j]).0
            && cells[i].1 == cells[j].1)
}

/// The validating constructor: build a `width × height` grid from the given
/// cells, or report `InvalidGridShape` exactly when they do not form one.
pub fn make_grid(width: u32, height: u32, cells: Vec<Cell>) -> (r: Result<World, WorldError>)
    ensures
        r is Ok <==> valid_shape(width, height, cells@),
        r matches Ok(g) ==> g.x == width && g.y == height && g.cells@ == cells@ && g.wf(),
        r matches Err(e) ==> e == WorldError::InvalidGridShape,
{
    proof {
        lemma_mul_upper_bound(width as int, u32::MAX as int, height as int, u32::MAX as int);
    }
    if (cells.len() as u64) != (width as u64) * (height as u64) {
        return Err(WorldError::InvalidGridShape);
    }
    let mut i: usize = 0;
    while i < cells.len()
        invariant
            i <= cells@.len(),
            forall|k: int|
                0 <= k < i ==> (#[trigger] cells@[k]).0 < width && cells@[k].1 < height,
            forall|j: int, k: int|
                0 <= j < k < i ==> !((#[trigger] cells@[j]).0 == (#[trigger] cells@[k]).0
                    && cells@[j].1 == cells@[k].1),
        decreases cells@.len() - i,
    {
        let c = cells[i];
        if !(c.0 < width && c.1 < height) {
            return Err(WorldError::InvalidGridShape);
        }
        let mut j: usize = 0;
        while j < i
            invariant
                j <= i,
                i < cells@.len(),
                c == cells@[i as int],
                forall|k: int|
                    0 <= k < j ==> !((#[trigger] cells@[k]).0 == c.0 && cells@[k].1 == c.1),
            decreases i - j,
        {
            let d = cells[j];
            if d.0 == c.0 && d.1 == c.1 {
                return Err(WorldError::InvalidGridShape);
            }
            j += 1;
        }
        i += 1;
    }
    Ok(World { x: width, y: height, cells })
}

/// Build a world declared 3×3 over the given cells. The cells are taken as
/// supplied, with no shape validation; `make_grid` is the validating
/// constructor.
pub fn init_world9(cells: Vec<Cell>) -> (r: World)
    ensures
        r.x == 3,
        r.y == 3,
        r.cells@ == cells@,
{
    World { x: 3, y: 3, cells }
}

/// Build a world declared 4×4 over the given cells, unvalidated like
/// `init_world9`.
pub fn init_world16(cells: Vec<Cell>) -> (r: World)
    ensures
        r.x == 4,
        r.y == 4,
        r.cells@ == cells@,
{
    World { x: 4, y: 4, cells }
}

/// Build a world declared 9×9 over the given cells, unvalidated like
/// `init_world9`.
pub fn init_world81(cells: Vec<Cell>) -> (r: World)
    ensures
        r.x == 9,
        r.y == 9,
        r.cells@ == cells@,
{
    World { x: 9, y: 9, cells }
}

/// Row-major layout with `x` outer and `y` inner: the cell at index `k`
/// sits at position `(k / height, k % height)`.
pub open spec fn row_major(cells: Seq<Cell>, height: u32) -> bool {
    forall|k: int|
        0 <= k < cells.len() ==> (#[trigger] cells[k]).0 == k / (height as int) && cells[k].1 == k
            % (height as int)
}

/// Every cell state is binary: 0 or 1.
pub open spec fn states_binary(cells: Seq<Cell>) -> bool {
    forall|k: int| 0 <= k < cells.len() ==> (#[trigger] cells[k]).2 == 0 || cells[k].2 == 1
}

/// The row-major index `px * height + py` is in range and holds exactly the
/// cell at position `(px, py)`.
pub open spec fn holds_position(cells: Seq<Cell>, height: u32, px: int, py: int) -> bool {
    &&& 0 <= px * (height as int) + py < cells.len()
    &&& cells[px * (height as int) + py].0 == px
    &&& cells[px * (height as int) + py].1 == py
}

/// Law: a row-major sequence of `width * height` cells draws each position
/// of the coordinate space exactly once — no position repeats, and the pair
/// `(px, py)` appears at index `px * height + py`.
pub proof fn lemma_row_major_positions(cells: Seq<Cell>, width: u32, height: u32)
    requires
        height >= 1,
        cells.len() == (width as int) * (height as int),
        row_major(cells, height),
    ensures
        forall|i: int, j: int|
            0 <= i < j < cells.len() ==> !((#[trigger] cells[i]).0 == (#[trigger] cells[j]).0
                && cells[i].1 == cells[j].1),
        forall|px: int, py: int|
            0 <= px < width && 0 <= py < height ==> #[trigger] holds_position(
                cells,
                height,
                px,
                py,
            ),
{
    assert forall|i: int, j: int| 0 <= i < j < cells.len() implies !((#[trigger] cells[i]).0
        == (#[trigger] cells[j]).0 && cells[i].1 == cells[j].1) by {
        lemma_fundamental_div_mod(i, height as int);
        lemma_fundamental_div_mod(j, height as int);
    }
    assert forall|px: int, py: int| 0 <= px < width && 0 <= py < height implies #[trigger]
        holds_position(cells, height, px, py) by {
        assert(0 <= px * (height as int) + py < (width as int) * (height as int))
            by (nonlinear_arith)
            requires
                0 <= px < (width as int),
                0 <= py < (height as int),
        ;
        lemma_fundamental_div_mod_converse(px * (height as int) + py, height as int, px, py);
    }
}

/// Decode one drawn byte per position into the cells of a `width × height`
/// grid: row-major positions with `x` outer and `y` inner, and at index `k`
/// the state `bytes[k] % 2` — an even live/dead split per cell when the
/// bytes are uniform.
pub fn cells_from_bytes(width: u32, height: u32, bytes: &Vec<u8>) -> (r: Vec<Cell>)
    requires
        bytes@.len() == (width as int) * (height as int),
    ensures
        r@.len() == (width as int) * (height as int),
        row_major(r@, height),
        forall|k: int| 0 <= k < r@.len() ==> (#[trigger] r@[k]).2 == (bytes@[k] % 2) as u32,
{
    let n: usize = bytes.len();
    let mut cells: Vec<Cell> = Vec::new();
    let mut idx: usize = 0;
    let mut x: u32 = 0;
    while x < width
        invariant
            x <= width,
            idx == (x as int) * (height as int),
            idx <= n,
            n == bytes@.len(),
            bytes@.len() == (width as int) * (height as int),
            cells@.len() == idx,
            row_major(cells@, height),
            forall|k: int|
                0 <= k < cells@.len() ==> (#[trigger] cells@[k]).2 == (bytes@[k] % 2) as u32,
        decreases width - x,
    {
        let mut y: u32 = 0;
        while y < height
            invariant
                x < width,
                y <= height,
                idx == (x as int) * (height as int) + (y as int),
                n == bytes@.len(),
                bytes@.len() == (width as int) * (height as int),
                cells@.len() == idx,
                row_major(cells@, height),
                forall|k: int|
                    0 <= k < cells@.len() ==> (#[trigger] cells@[k]).2 == (bytes@[k] % 2) as u32,
            decreases height - y,
        {
            proof {
                assert((x as int) * (height as int) + (y as int) < (width as int) * (height
                    as int)) by (nonlinear_arith)
                    requires
                        0 <= (x as int) < (width as int),
                        0 <= (y as int) < (height as int),
                ;
                assert(idx < n);
                lemma_fundamental_div_mod_converse(
                    idx as int,
                    height as int,
                    x as int,
                    y as int,
                );
            }
            let v: u32 = (bytes[idx] % 2) as u32;
            cells.push(Cell(x, y, v));
            idx += 1;
            y += 1;
        }
        proof {
            assert((x as int) * (height as int) + (height as int) == ((x as int) + 1) * (height
                as int)) by (nonlinear_arith);
            lemma_mul_inequality((x as int) + 1, width as int, height as int);
        }
        x += 1;
    }
    cells
}

/// Randomized construction: draw one byte per position from the injected
/// source in a single fill, then decode them through `cells_from_bytes`, so
/// each state is its drawn byte reduced modulo 2. Fails, constructing
/// nothing, exactly when the source does.
pub fn make_random_cells<S: RandomByteSource>(width: u32, height: u32, source: &mut S) -> (r:
    Result<Vec<Cell>, WorldError>)
    requires
        (width as int) * (height as int) <= usize::MAX,
    ensures
        r matches Ok(cells) ==> cells@.len() == (width as int) * (height as int) && row_major(
            cells@,
            height,
        ) && states_binary(cells@),
        r matches Err(e) ==> e == WorldError::RandomSource,
{
    proof {
        lemma_mul_upper_bound(width as int, u32::MAX as int, height as int, u32::MAX as int);
    }
    let n_wide: u64 = (width as u64) * (height as u64);
    let n: usize = n_wide as usize;
    let mut buf: Vec<u8> = Vec::new();
    let mut f: usize = 0;
    while f < n
        invariant
            f <= n,
            buf@.len() == f,
        decreases n - f,
    {
        buf.push(0u8);
        f += 1;
    }
    match source.fill(&mut buf) {
        Ok(()) => {}
        Err(e) => {
            return Err(e);
        }
    }
    let cells = cells_from_bytes(width, height, &buf);
    Ok(cells)
}

/// 81 random cells for a 9×9 grid, row-major, each state an even draw
/// between dead and alive from the operating system's random source.
pub fn init_random_cells81() -> (r: Result<Vec<Cell>, WorldError>)
    ensures
        r matches Ok(cells) ==> cells@.len() == 81 && row_major(cells@, 9) && states_binary(
            cells@,
        ),
        r matches Err(e) ==> e == WorldError::RandomSource,
{
    let mut source = OsRandomSource;
    make_random_cells(9, 9, &mut source)
}

/// 16 random cells for a 4×4 grid, as `init_random_cells81` for 9×9.
pub fn init_random_cells16() -> (r: Result<Vec<Cell>, WorldError>)
    ensures
        r matches Ok(cells) ==> cells@.len() == 16 && row_major(cells@, 4) && states_binary(
            cells@,
        ),
        r matches Err(e) ==> e == WorldError::RandomSource,
{
    let mut source = OsRandomSource;
    make_random_cells(4, 4, &mut source)
}

/// 64 random cells for an 8×8 grid, as `init_random_cells81` for 9×9.
pub fn init_random_cells64() -> (r: Result<Vec<Cell>, WorldError>)
    ensures
        r matches Ok(cells) ==> cells@.len() == 64 && row_major(cells@, 8) && states_binary(
            cells@,
        ),
        r matches Err(e) ==> e == WorldError::RandomSource,
{
    let mut source = OsRandomSource;
    make_random_cells(8, 8, &mut source)
}

} // verus!
