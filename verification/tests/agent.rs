use treebot::actions::{Action, ActionKind, get_available_completes, get_available_grows,
    get_available_seeds, get_neighbors};
use treebot::board::{Cell, Game, Tree};
use treebot::selector::find_best_action;

fn blank_cell() -> Cell {
    Cell { richness: 0, tree: None, neighbors: vec![-1, -1, -1, -1, -1, -1] }
}

fn empty_game() -> Game {
    let mut forest: Vec<Cell> = Vec::new();
    for _ in 0..37 {
        forest.push(blank_cell());
    }
    Game {
        turn: 1,
        day: 0,
        nutrients: 20,
        sun: 0,
        score: 0,
        opp_sun: 0,
        opp_score: 0,
        opp_is_waiting: 0,
        number_of_trees: 0,
        forest,
    }
}

fn mine(size: i32) -> Tree {
    Tree { is_mine: true, size, asleep: false }
}

fn theirs(size: i32) -> Tree {
    Tree { is_mine: false, size, asleep: false }
}

fn grow(cell_id: usize) -> Action {
    Action { cell_id, seed_cell_id: 0, kind: ActionKind::Grow }
}

fn complete(cell_id: usize) -> Action {
    Action { cell_id, seed_cell_id: 0, kind: ActionKind::Complete }
}

fn seed(cell_id: usize, seed_cell_id: usize) -> Action {
    Action { cell_id, seed_cell_id, kind: ActionKind::Seed }
}

#[test]
fn action_new_zeroes_the_cells() {
    let a = Action::new(ActionKind::Wait);
    assert_eq!(a.cell_id, 0);
    assert_eq!(a.seed_cell_id, 0);
    assert_eq!(a.kind, ActionKind::Wait);
}

#[test]
fn lone_full_grown_tree_offers_exactly_one_complete() {
    let mut g = empty_game();
    g.forest[0].richness = 1;
    g.forest[0].tree = Some(mine(3));
    g.sun = 4;
    g.number_of_trees = 1;
    let candidates = get_neighbors(&g);
    assert_eq!(candidates, vec![complete(0), Action::new(ActionKind::Wait)]);
}

#[test]
fn complete_needs_four_sun() {
    let mut g = empty_game();
    g.forest[0].richness = 1;
    g.forest[0].tree = Some(mine(3));
    g.sun = 3;
    assert!(get_available_completes(&g).is_empty());
    g.sun = 4;
    assert_eq!(get_available_completes(&g), vec![complete(0)]);
}

#[test]
fn complete_skips_dormant_opponent_and_smaller_trees() {
    let mut g = empty_game();
    g.sun = 10;
    g.forest[0].tree = Some(Tree { is_mine: true, size: 3, asleep: true });
    g.forest[1].tree = Some(theirs(3));
    g.forest[2].tree = Some(mine(2));
    assert!(get_available_completes(&g).is_empty());
}

#[test]
fn grow_charges_congestion_per_target_size_tree() {
    let mut g = empty_game();
    g.forest[0].tree = Some(mine(1));
    g.forest[1].tree = Some(mine(2));
    // growing the size-1 tree costs 3 + 1 (one size-2 tree already owned);
    // growing the size-2 tree costs 7 + 0
    g.sun = 3;
    assert!(get_available_grows(&g).is_empty());
    g.sun = 4;
    assert_eq!(get_available_grows(&g), vec![grow(0)]);
    g.sun = 7;
    assert_eq!(get_available_grows(&g), vec![grow(0), grow(1)]);
}

#[test]
fn seeds_reach_size_hops_and_deduplicate_targets() {
    let mut g = empty_game();
    for i in [1usize, 2, 3] {
        g.forest[i].richness = 1;
    }
    // two hop paths meet at cell 3: it must be collected once
    g.forest[0].neighbors[0] = 1;
    g.forest[0].neighbors[1] = 2;
    g.forest[1].neighbors[1] = 3;
    g.forest[2].neighbors[0] = 3;
    g.forest[0].tree = Some(mine(2));
    g.sun = 0;
    assert_eq!(get_available_seeds(&g), vec![seed(0, 1), seed(0, 3), seed(0, 2)]);
}

#[test]
fn seeds_walk_through_occupied_cells_without_targeting_them() {
    let mut g = empty_game();
    for i in [1usize, 2, 3] {
        g.forest[i].richness = 1;
    }
    g.forest[0].neighbors[0] = 1;
    g.forest[0].neighbors[1] = 2;
    g.forest[1].neighbors[1] = 3;
    g.forest[2].neighbors[0] = 3;
    g.forest[0].tree = Some(mine(2));
    g.forest[1].tree = Some(theirs(1));
    assert_eq!(get_available_seeds(&g), vec![seed(0, 3), seed(0, 2)]);
}

#[test]
fn seeds_skip_barren_cells_and_seed_trees() {
    let mut g = empty_game();
    g.forest[0].neighbors[0] = 1;
    g.forest[1].neighbors[0] = 2;
    g.forest[2].richness = 2;
    // cell 1 is barren (richness 0): reachable but never a target
    g.forest[0].tree = Some(mine(2));
    assert_eq!(get_available_seeds(&g), vec![seed(0, 2)]);
    // a size-0 tree cannot seed
    g.forest[0].tree = Some(mine(0));
    assert!(get_available_seeds(&g).is_empty());
}

#[test]
fn a_size_one_tree_can_seed_one_hop() {
    let mut g = empty_game();
    g.forest[0].neighbors[0] = 1;
    g.forest[1].richness = 1;
    g.forest[0].tree = Some(mine(1));
    assert_eq!(get_available_seeds(&g), vec![seed(0, 1)]);
}

#[test]
fn seeding_cost_is_one_sun_per_owned_seed() {
    let mut g = empty_game();
    g.forest[0].neighbors[0] = 1;
    g.forest[1].richness = 1;
    g.forest[0].tree = Some(mine(2));
    g.forest[5].tree = Some(mine(0));
    g.sun = 0;
    assert!(get_available_seeds(&g).is_empty());
    g.sun = 1;
    assert_eq!(get_available_seeds(&g), vec![seed(0, 1)]);
}

#[test]
fn selector_waits_on_an_empty_board() {
    let g = empty_game();
    assert_eq!(find_best_action(&g), Action::new(ActionKind::Wait));
}

#[test]
fn selector_grows_an_improving_tree_before_the_deadline() {
    let mut g = empty_game();
    g.day = 20;
    g.sun = 3;
    g.forest[0].richness = 1;
    g.forest[0].tree = Some(mine(1));
    g.number_of_trees = 1;
    // no full-grown trees, so the endgame policy finds no candidate; the
    // lone grow improves tomorrow's rate by one and day 20 < 22
    assert_eq!(find_best_action(&g), grow(0));
}

#[test]
fn selector_harvests_the_least_valuable_complete_late() {
    let mut g = empty_game();
    g.day = 21;
    g.sun = 4;
    g.nutrients = 20;
    g.forest[0].richness = 1;
    g.forest[2].richness = 1;
    g.forest[0].tree = Some(mine(3));
    g.forest[2].tree = Some(mine(3));
    // an opponent tree one hop from cell 0 along tomorrow's sun direction
    // (day 22, cycle 4) makes that harvest worth keeping a day longer
    g.forest[0].neighbors[4] = 1;
    g.forest[1].tree = Some(theirs(1));
    g.number_of_trees = 3;
    assert_eq!(find_best_action(&g), complete(2));
}

#[test]
fn selector_breaks_complete_ties_by_full_cycle_rate() {
    let mut g = empty_game();
    g.day = 21;
    g.sun = 4;
    g.nutrients = 20;
    g.forest[0].richness = 1;
    g.forest[2].richness = 1;
    g.forest[0].tree = Some(mine(3));
    g.forest[2].tree = Some(mine(3));
    // a dormant own blocker south of cell 0 shadows it on cycle day 0 and
    // charges its own-shade tally, lowering its full-cycle rate to 12
    // against 18 for cell 2, while tomorrow's rates stay equal
    g.forest[0].neighbors[3] = 5;
    g.forest[5].tree = Some(Tree { is_mine: true, size: 3, asleep: true });
    g.number_of_trees = 3;
    assert_eq!(find_best_action(&g), complete(0));
}

#[test]
fn selector_seeds_the_least_self_shadowed_target() {
    let mut g = empty_game();
    g.day = 10;
    g.sun = 0;
    g.forest[0].neighbors[0] = 1;
    g.forest[1].richness = 2;
    g.forest[0].tree = Some(mine(1));
    g.number_of_trees = 1;
    // too little sun to grow, no full-grown tree to harvest, no seed owned:
    // the seeding policy commits its only candidate before day 20
    assert_eq!(find_best_action(&g), seed(0, 1));
}

#[test]
fn selector_seed_ties_go_to_the_richer_target() {
    let mut g = empty_game();
    g.day = 10;
    g.sun = 0;
    g.forest[0].neighbors[0] = 1;
    g.forest[0].neighbors[1] = 2;
    g.forest[1].richness = 1;
    g.forest[2].richness = 3;
    g.forest[0].tree = Some(mine(1));
    g.number_of_trees = 1;
    // both targets score a full unshadowed cycle; the richer one wins
    assert_eq!(find_best_action(&g), seed(0, 2));
}

#[test]
fn selector_stops_seeding_from_day_twenty() {
    let mut g = empty_game();
    g.day = 20;
    g.sun = 0;
    g.forest[0].neighbors[0] = 1;
    g.forest[1].richness = 2;
    g.forest[0].tree = Some(mine(1));
    g.number_of_trees = 1;
    assert_eq!(find_best_action(&g), Action::new(ActionKind::Wait));
}

#[test]
fn selector_is_deterministic_on_identical_snapshots() {
    let mut g = empty_game();
    g.day = 21;
    g.sun = 4;
    g.nutrients = 20;
    g.forest[0].richness = 1;
    g.forest[2].richness = 1;
    g.forest[0].tree = Some(mine(3));
    g.forest[2].tree = Some(mine(3));
    g.forest[0].neighbors[4] = 1;
    g.forest[1].tree = Some(theirs(1));
    g.number_of_trees = 3;
    let h = g.clone();
    let first = find_best_action(&g);
    let second = find_best_action(&g);
    let third = find_best_action(&h);
    assert_eq!(first, second);
    assert_eq!(first, third);
}
