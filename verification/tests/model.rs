use treebot::board::{Cell, Game, Tree, get_my_number_of_tree, get_my_number_of_tree_of_size};
use treebot::actions::growth_cost;
use treebot::shadow::{get_sun_rays, is_shadowed, nb_opp_sun_lost_by, nb_own_sun_lost_by,
    shadow_sensitiveness, sun_rate};

fn blank_cell() -> Cell {
    Cell { richness: 0, tree: None, neighbors: vec![-1, -1, -1, -1, -1, -1] }
}

fn empty_game() -> Game {
    let mut forest: Vec<Cell> = Vec::new();
    for _ in 0..37 {
        forest.push(blank_cell());
    }
    Game {
        turn: 1,
        day: 0,
        nutrients: 20,
        sun: 0,
        score: 0,
        opp_sun: 0,
        opp_score: 0,
        opp_is_waiting: 0,
        number_of_trees: 0,
        forest,
    }
}

fn mine(size: i32) -> Tree {
    Tree { is_mine: true, size, asleep: false }
}

fn theirs(size: i32) -> Tree {
    Tree { is_mine: false, size, asleep: false }
}

#[test]
fn growth_cost_table() {
    assert_eq!(growth_cost(0), 1);
    assert_eq!(growth_cost(1), 3);
    assert_eq!(growth_cost(2), 7);
}

#[test]
fn sun_rays_per_direction() {
    assert_eq!(get_sun_rays(0), vec![25, 26, 27, 28, 29, 30, 31]);
    assert_eq!(get_sun_rays(1), vec![28, 29, 30, 31, 32, 33, 34]);
    assert_eq!(get_sun_rays(2), vec![31, 32, 33, 34, 35, 36, 19]);
    assert_eq!(get_sun_rays(3), vec![34, 35, 36, 19, 20, 21, 22]);
    assert_eq!(get_sun_rays(4), vec![19, 20, 21, 22, 23, 24, 25]);
    assert_eq!(get_sun_rays(5), vec![22, 23, 24, 25, 26, 27, 28]);
}

#[test]
fn sun_rays_repeat_every_six_days() {
    assert_eq!(get_sun_rays(6), get_sun_rays(0));
    assert_eq!(get_sun_rays(13), get_sun_rays(1));
    assert_eq!(get_sun_rays(23), get_sun_rays(5));
}

#[test]
fn constructors_start_blank() {
    let t = Tree::new();
    assert!(!t.is_mine);
    assert_eq!(t.size, 0);
    assert!(!t.asleep);
    let c = Cell::new();
    assert_eq!(c.richness, 0);
    assert!(c.tree.is_none());
    assert_eq!(c.neighbors, vec![0, 0, 0, 0, 0, 0]);
}

#[test]
fn tree_counts() {
    let mut g = empty_game();
    g.forest[0].tree = Some(mine(3));
    g.forest[5].tree = Some(mine(1));
    g.forest[6].tree = Some(mine(1));
    g.forest[9].tree = Some(theirs(1));
    assert_eq!(get_my_number_of_tree(&g), 3);
    assert_eq!(get_my_number_of_tree_of_size(1, &g), 2);
    assert_eq!(get_my_number_of_tree_of_size(3, &g), 1);
    assert_eq!(get_my_number_of_tree_of_size(0, &g), 0);
}

/// Three cells in a row along direction 0, so a tree on cell 1 stands in
/// front of cell 0 when the sun's cycle day is 3 (shadow direction
/// `(3 + 3) % 6 == 0`).
fn row_game() -> Game {
    let mut g = empty_game();
    g.forest[0].neighbors[0] = 1;
    g.forest[1].neighbors[0] = 2;
    g.forest[2].neighbors[0] = 3;
    g
}

#[test]
fn shadow_needs_min_size_threshold() {
    let mut g = row_game();
    g.forest[1].tree = Some(theirs(2));
    // a size-2 blocker one hop away shadows under thresholds up to 2 ...
    assert!(is_shadowed(&g, 3, 0, false, 0));
    assert!(is_shadowed(&g, 3, 1, false, 0));
    assert!(is_shadowed(&g, 3, 2, false, 0));
    // ... but no longer once the threshold rises past its size
    assert!(!is_shadowed(&g, 3, 3, false, 0));
}

#[test]
fn shadow_under_high_threshold_holds_under_low() {
    let mut g = row_game();
    g.forest[1].tree = Some(theirs(3));
    // shadowed under the top threshold, hence under every lower one
    assert!(is_shadowed(&g, 3, 3, false, 0));
    assert!(is_shadowed(&g, 3, 2, false, 0));
    assert!(is_shadowed(&g, 3, 0, false, 0));
}

#[test]
fn shadow_requires_height_above_hop_distance() {
    let mut g = row_game();
    // a size-1 tree two hops away is too short to reach cell 0
    g.forest[2].tree = Some(theirs(1));
    assert!(!is_shadowed(&g, 3, 0, false, 0));
    // a size-2 tree two hops away reaches it
    g.forest[2].tree = Some(theirs(2));
    assert!(is_shadowed(&g, 3, 0, false, 0));
}

#[test]
fn shadow_only_mine_ignores_opponent() {
    let mut g = row_game();
    g.forest[1].tree = Some(theirs(2));
    assert!(is_shadowed(&g, 3, 0, false, 0));
    assert!(!is_shadowed(&g, 3, 0, true, 0));
    g.forest[1].tree = Some(mine(2));
    assert!(is_shadowed(&g, 3, 0, true, 0));
}

#[test]
fn shadow_day_count_matches_per_cycle_shadowing() {
    let mut g = row_game();
    g.forest[1].tree = Some(theirs(2));
    let mut by_hand = 0;
    for cycle in 0..6 {
        if is_shadowed(&g, cycle, 0, false, 0) {
            by_hand += 1;
        }
    }
    assert_eq!(by_hand, 1);
    assert_eq!(shadow_sensitiveness(&g, 0, 6, 0, false, 0), by_hand);
}

#[test]
fn shadow_day_count_is_periodic_in_the_range_offset() {
    let mut g = row_game();
    g.forest[1].tree = Some(theirs(2));
    let base = shadow_sensitiveness(&g, 0, 6, 0, false, 0);
    for k in [1usize, 5, 6, 7, 12, 23] {
        assert_eq!(shadow_sensitiveness(&g, k, k + 6, 0, false, 0), base);
    }
}

#[test]
fn marginal_sun_loss_counts_only_newly_topping_trees() {
    let mut g = row_game();
    g.forest[1].tree = Some(theirs(1));
    g.forest[2].tree = Some(theirs(1));
    // walking direction 0 on day 0 from cell 0 with a size-2 tree: the
    // first size-1 tree tops the running max and counts, the second does not
    assert_eq!(nb_opp_sun_lost_by(&g, 0, 1, 0, 2), 1);
    // a taller second tree tops the max again and adds its own size
    g.forest[2].tree = Some(theirs(2));
    assert_eq!(nb_opp_sun_lost_by(&g, 0, 1, 0, 2), 3);
    // ownership routes the tally
    assert_eq!(nb_own_sun_lost_by(&g, 0, 1, 0, 2), 0);
    g.forest[1].tree = Some(mine(1));
    assert_eq!(nb_opp_sun_lost_by(&g, 0, 1, 0, 2), 2);
    assert_eq!(nb_own_sun_lost_by(&g, 0, 1, 0, 2), 1);
}

#[test]
fn sun_loss_walk_is_bounded_by_tree_size() {
    let mut g = row_game();
    // a tree three hops out is beyond a size-2 tree's two-hop shading walk
    g.forest[3].tree = Some(theirs(3));
    assert_eq!(nb_opp_sun_lost_by(&g, 0, 1, 0, 2), 0);
    assert_eq!(nb_opp_sun_lost_by(&g, 0, 1, 0, 3), 3);
    // a size-0 tree shades nobody
    assert_eq!(nb_opp_sun_lost_by(&g, 0, 1, 0, 0), 0);
}

#[test]
fn sun_rate_on_an_open_cell_is_size_times_days() {
    let g = empty_game();
    assert_eq!(sun_rate(0, 3, 0, 6, &g), 18);
    assert_eq!(sun_rate(0, 2, 0, 6, &g), 12);
    assert_eq!(sun_rate(0, 1, 21, 22, &g), 1);
    assert_eq!(sun_rate(0, 0, 0, 6, &g), 0);
    assert_eq!(sun_rate(0, 3, 4, 4, &g), 0);
}

#[test]
fn sun_rate_rewards_shading_the_opponent_and_charges_own_shade() {
    let mut g = row_game();
    g.forest[1].tree = Some(theirs(1));
    // day range [0, 1): the hypothetical size-2 tree gathers 2, and shades
    // the opponent's size-1 tree along direction 0
    assert_eq!(sun_rate(0, 2, 0, 1, &g), 3);
    g.forest[1].tree = Some(mine(1));
    assert_eq!(sun_rate(0, 2, 0, 1, &g), 1);
}

#[test]
fn sun_rate_drops_on_shadowed_days() {
    let mut g = row_game();
    // a size-3 blocker in front of cell 0 shadows it on cycle day 3 only
    g.forest[1].tree = Some(theirs(3));
    // gathering days fall from 6 to 5; the blocker is too tall to be shaded
    // back, so no tally offsets the loss
    assert_eq!(sun_rate(0, 2, 0, 6, &g), 10);
}
