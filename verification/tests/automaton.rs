use toroidal_life::cellular_automaton::{
    apply_algorithm, determine_survival, game_of_life, get_neighbors, nb, Cell, World,
};
use toroidal_life::{init_random_cells81, init_world16, init_world81, init_world9};

fn matches_value(v: u32) {
    match v {
        0 => assert_eq!(v, 0),
        1 => assert_eq!(v, 1),
        _ => assert!(false),
    }
}

#[test]
fn new_cell() {
    let c1: Cell = Cell(0, 0, 0);
    assert_eq!(c1.0, 0);
    assert_eq!(c1.1, 0);
    assert_eq!(c1.2, 0);
    let c2: Cell = Cell(0, 0, 1);
    assert_eq!(c2.2, 1);
    let c3: Cell = Cell(0, 1, 0);
    assert_eq!(c3.1, 1);
    let Cell(_, _, state) = c1;
    assert_eq!(state, 0);
}

#[test]
fn update_cell_value() {
    let mut c1: Cell = Cell(0, 0, 0);
    assert_eq!(c1.2, 0);
    c1.2 = 1;
    assert_eq!(c1.2, 1);
}

#[test]
fn init_random_world() {
    let cells: Vec<Cell> = init_random_cells81().unwrap();
    let world: World = init_world81(cells);
    assert_eq!(world.x, 9);
    assert_eq!(world.y, 9);
    assert_eq!(world.cells.len(), 81);
    assert_eq!(world.cells[0].0, 0);
    assert_eq!(world.cells[0].1, 0);
    let v0 = world.cells[0].2;
    matches_value(v0);
    assert_eq!(world.cells[1].0, 0);
    assert_eq!(world.cells[1].1, 1);
    let v1 = world.cells[1].2;
    matches_value(v1);
    assert_eq!(world.cells[9].0, 1);
    assert_eq!(world.cells[9].1, 0);
    assert_eq!(world.cells[10].0, 1);
    assert_eq!(world.cells[10].1, 1);
    assert_eq!(world.cells[18].0, 2);
    assert_eq!(world.cells[18].1, 0);
    let v18 = world.cells[18].2;
    matches_value(v18);
}

fn naive_algorithm(world: World) -> World {
    World {
        x: world.x,
        y: world.y,
        cells: world.cells.to_vec(),
    }
}

#[test]
fn apply_naive_algorithm() {
    let cells = vec![
        Cell(0, 0, 0),
        Cell(0, 1, 0),
        Cell(0, 2, 0),
        Cell(1, 0, 0),
        Cell(1, 1, 0),
        Cell(1, 2, 0),
        Cell(2, 0, 0),
        Cell(2, 1, 0),
        Cell(2, 2, 0),
    ];
    let world = init_world9(cells);
    assert_eq!(world.x, 3);
    assert_eq!(world.y, 3);
    assert_eq!(world.cells[0].0, 0);
    assert_eq!(world.cells[0].1, 0);
    assert_eq!(world.cells[0].2, 0);
    assert_eq!(world.cells[1].0, 0);
    assert_eq!(world.cells[1].1, 1);
    assert_eq!(world.cells[1].2, 0);
    assert_eq!(world.cells[2].0, 0);
    assert_eq!(world.cells[2].1, 2);
    assert_eq!(world.cells[2].2, 0);
    assert_eq!(world.cells[3].0, 1);
    assert_eq!(world.cells[3].1, 0);
    assert_eq!(world.cells[3].2, 0);
    assert_eq!(world.cells[4].0, 1);
    assert_eq!(world.cells[4].1, 1);
    assert_eq!(world.cells[4].2, 0);
    assert_eq!(world.cells[5].0, 1);
    assert_eq!(world.cells[5].1, 2);
    assert_eq!(world.cells[5].2, 0);
    assert_eq!(world.cells[6].0, 2);
    assert_eq!(world.cells[6].1, 0);
    assert_eq!(world.cells[6].2, 0);
    assert_eq!(world.cells[7].0, 2);
    assert_eq!(world.cells[7].1, 1);
    assert_eq!(world.cells[7].2, 0);
    assert_eq!(world.cells[8].0, 2);
    assert_eq!(world.cells[8].1, 2);
    assert_eq!(world.cells[8].2, 0);
    let outcome = apply_algorithm(world, naive_algorithm);
    assert_eq!(outcome.x, 3);
    assert_eq!(outcome.y, 3);
    assert_eq!(outcome.cells[0].0, 0);
    assert_eq!(outcome.cells[0].1, 0);
    assert_eq!(outcome.cells[0].2, 0);
    assert_eq!(outcome.cells[1].0, 0);
    assert_eq!(outcome.cells[1].1, 1);
    assert_eq!(outcome.cells[1].2, 0);
    assert_eq!(outcome.cells[2].0, 0);
    assert_eq!(outcome.cells[2].1, 2);
    assert_eq!(outcome.cells[2].2, 0);
    assert_eq!(outcome.cells[3].0, 1);
    assert_eq!(outcome.cells[3].1, 0);
    assert_eq!(outcome.cells[3].2, 0);
    assert_eq!(outcome.cells[4].0, 1);
    assert_eq!(outcome.cells[4].1, 1);
    assert_eq!(outcome.cells[4].2, 0);
    assert_eq!(outcome.cells[5].0, 1);
    assert_eq!(outcome.cells[5].1, 2);
    assert_eq!(outcome.cells[5].2, 0);
    assert_eq!(outcome.cells[6].0, 2);
    assert_eq!(outcome.cells[6].1, 0);
    assert_eq!(outcome.cells[6].2, 0);
    assert_eq!(outcome.cells[7].0, 2);
    assert_eq!(outcome.cells[7].1, 1);
    assert_eq!(outcome.cells[7].2, 0);
    assert_eq!(outcome.cells[8].0, 2);
    assert_eq!(outcome.cells[8].1, 2);
    assert_eq!(outcome.cells[8].2, 0);
}

#[test]
fn get_neighbors9_test() {
    let cells = vec![
        Cell(0, 0, 0),
        Cell(0, 1, 0),
        Cell(0, 2, 0),
        Cell(1, 0, 0),
        Cell(1, 1, 0),
        Cell(1, 2, 0),
        Cell(2, 0, 0),
        Cell(2, 1, 0),
        Cell(2, 2, 0),
    ];
    let world = World { x: 3, y: 3, cells };

    let neighbors = get_neighbors(world, nb, (1, 1));
    assert_eq!(neighbors.len(), 8);
}

#[test]
fn get_neighbors_test16() {
    let cells = vec![
        Cell(0, 0, 0),
        Cell(0, 1, 0),
        Cell(0, 2, 0),
        Cell(0, 3, 0),
        Cell(1, 0, 0),
        Cell(1, 1, 0),
        Cell(1, 2, 0),
        Cell(1, 3, 0),
        Cell(2, 0, 0),
        Cell(2, 1, 0),
        Cell(2, 2, 0),
        Cell(2, 3, 0),
        Cell(3, 0, 0),
        Cell(3, 1, 0),
        Cell(3, 2, 0),
        Cell(3, 3, 0),
    ];
    let world = World { x: 4, y: 4, cells };

    let neighbors = get_neighbors(world, nb, (1, 1));
    assert_eq!(neighbors.len(), 8);
}

#[test]
fn all_dead() {
    let cells = vec![Cell(0, 0, 0)];
    let result = determine_survival(0, cells);
    assert_eq!(result, 0);
}

#[test]
fn some_dead() {
    let cells = vec![Cell(0, 0, 0), Cell(0, 0, 2)];
    let result = determine_survival(0, cells);
    assert_eq!(result, 0);
}

#[test]
fn all_alive() {
    let cells = vec![Cell(0, 0, 1), Cell(1, 1, 1)];
    let result = determine_survival(1, cells);
    assert_eq!(result, 1);
}

#[test]
fn alive() {
    let cells = vec![Cell(0, 0, 1)];
    let result = determine_survival(1, cells);
    assert_eq!(result, 0);
}

#[test]
fn something() {
    let cells = vec![Cell(0, 0, 10)];
    let result = determine_survival(1, cells);
    assert_eq!(result, 0);
}

#[test]
fn something2() {
    let cells = vec![Cell(0, 0, 10)];
    let result = determine_survival(0, cells);
    assert_eq!(result, 0);
}

#[test]
fn game_of_life_empty() {
    let cells = vec![
        Cell(0, 0, 0),
        Cell(0, 1, 0),
        Cell(0, 2, 0),
        Cell(1, 0, 0),
        Cell(1, 1, 1),
        Cell(1, 2, 0),
        Cell(2, 0, 0),
        Cell(2, 1, 0),
        Cell(2, 2, 0),
    ];
    let world = init_world9(cells);
    assert_eq!(world.cells.len(), 9);
    assert_eq!(world.cells[4].2, 1);
    let next = apply_algorithm(world, game_of_life);
    assert_eq!(next.cells.len(), 9);
    assert_eq!(next.cells[4].2, 0);
}

#[test]
fn game_of_life_still() {
    let cells = vec![
        Cell(0, 0, 0),
        Cell(0, 1, 0),
        Cell(0, 2, 0),
        Cell(0, 3, 0),
        Cell(1, 0, 0),
        Cell(1, 1, 1),
        Cell(1, 2, 1),
        Cell(1, 3, 0),
        Cell(2, 0, 0),
        Cell(2, 1, 1),
        Cell(2, 2, 0),
        Cell(2, 3, 0),
        Cell(3, 0, 0),
        Cell(3, 1, 0),
        Cell(3, 2, 0),
        Cell(3, 3, 0),
    ];
    let world = init_world16(cells);
    assert_eq!(world.cells.len(), 16);
    assert_eq!(world.cells[10].2, 0);
    let next = apply_algorithm(world, game_of_life);
    assert_eq!(next.cells.len(), 16);
    assert_eq!(next.cells[10].2, 1);
}
