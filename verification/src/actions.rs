//! Legal-move enumerator.
//!
//! Produces the full candidate action set for a snapshot: COMPLETE for every
//! harvestable full-grown tree, GROW for every affordable growth, SEED for
//! every (source tree, reachable empty cell) pair, and always one WAIT.

use vstd::prelude::*;

use crate::board::{Cell, Game, get_my_number_of_tree_of_size, spec_count_mine_of_size, wf_cell,
    wf_forest, wf_game};

verus! {

/// The four move families of the game.
#[derive(Clone, Copy, Debug, PartialEq, Eq, Structural)]
pub enum ActionKind {
    Grow,
    Complete,
    Seed,
    Wait,
}

/// One candidate move. `cell_id` is the acting tree's cell (0 for WAIT);
/// `seed_cell_id` is the seed's target cell and is 0 for every other kind.
#[derive(Clone, Copy, Debug, PartialEq, Eq, Structural)]
pub struct Action {
    pub cell_id: usize,
    pub seed_cell_id: usize,
    pub kind: ActionKind,
}

impl Action {
    pub fn new(kind: ActionKind) -> (a: Action)
        ensures
            a.cell_id == 0,
            a.seed_cell_id == 0,
            a.kind == kind,
    {
        Action { cell_id: 0, seed_cell_id: 0, kind }
    }
}

/// The WAIT candidate appended to every enumeration.
pub open spec fn spec_wait_action() -> Action {
    Action { cell_id: 0, seed_cell_id: 0, kind: ActionKind::Wait }
}

/// Base sun cost of growing a tree of size `size` one step: `|size*4 - 1|`,
/// that is 1, 3 and 7 for sizes 0, 1 and 2.
pub open spec fn spec_growth_cost(size: int) -> int {
    if size * 4 - 1 >= 0 {
        size * 4 - 1
    } else {
        1 - size * 4
    }
}

/// Base sun cost of growing a tree of the given size one step.
pub fn growth_cost(size: i32) -> (c: i32)
    requires
        0 <= size <= 2,
    ensures
        c as int == spec_growth_cost(size as int),
        1 <= c <= 7,
{
    let v: i32 = size * 4 - 1;
    if v >= 0 {
        v
    } else {
        -v
    }
}

/// Cell `i` offers a COMPLETE: a non-dormant full-grown tree of mine, with
/// the fixed harvest cost of 4 sun affordable.
pub open spec fn spec_complete_ok(g: Game, i: int) -> bool {
    &&& g.forest@[i].tree matches Some(t)
    &&& !t.asleep
    &&& t.is_mine
    &&& t.size == 3
    &&& g.sun >= 4
}

/// COMPLETE candidates among the first `n` cells, in cell order.
pub open spec fn spec_completes(g: Game, n: int) -> Seq<Action>
    decreases n,
{
    if n <= 0 {
        Seq::empty()
    } else {
        spec_completes(g, n - 1) + (if spec_complete_ok(g, n - 1) {
            seq![Action { cell_id: (n - 1) as usize, seed_cell_id: 0, kind: ActionKind::Complete }]
        } else {
            Seq::empty()
        })
    }
}

/// All COMPLETE candidates of the snapshot.
pub fn get_available_completes(game: &Game) -> (r: Vec<Action>)
    requires
        wf_game(*game),
    ensures
        r@ == spec_completes(*game, 37),
{
    let mut r: Vec<Action> = Vec::new();
    let mut i: usize = 0;
    while i < 37
        invariant
            i <= 37,
            r@ == spec_completes(*game, i as int),
        decreases 37 - i,
    {
        match game.forest[i].tree {
            Some(tree) => {
                if !tree.asleep && tree.is_mine && tree.size == 3 && game.sun >= 4 {
                    r.push(Action { cell_id: i, seed_cell_id: 0, kind: ActionKind::Complete });
                }
            },
            None => {},
        }
        proof {
            assert(r@ =~= spec_completes(*game, i as int + 1));
        }
        i = i + 1;
    }
    r
}

/// Cell `i` offers a GROW: a non-dormant, not yet full-grown tree of mine,
/// with the growth cost plus congestion surcharge (one sun per tree I
/// already own of the target size) affordable.
pub open spec fn spec_grow_ok(g: Game, i: int) -> bool {
    &&& g.forest@[i].tree matches Some(t)
    &&& !t.asleep
    &&& t.is_mine
    &&& t.size < 3
    &&& g.sun >= spec_growth_cost(t.size as int) + spec_count_mine_of_size(
        g.forest@,
        t.size as int + 1,
        37,
    )
}

/// GROW candidates among the first `n` cells, in cell order.
pub open spec fn spec_grows(g: Game, n: int) -> Seq<Action>
    decreases n,
{
    if n <= 0 {
        Seq::empty()
    } else {
        spec_grows(g, n - 1) + (if spec_grow_ok(g, n - 1) {
            seq![Action { cell_id: (n - 1) as usize, seed_cell_id: 0, kind: ActionKind::Grow }]
        } else {
            Seq::empty()
        })
    }
}

/// All GROW candidates of the snapshot.
pub fn get_available_grows(game: &Game) -> (r: Vec<Action>)
    requires
        wf_game(*game),
    ensures
        r@ == spec_grows(*game, 37),
{
    let mut r: Vec<Action> = Vec::new();
    let mut i: usize = 0;
    while i < 37
        invariant
            i <= 37,
            r@ == spec_grows(*game, i as int),
        decreases 37 - i,
    {
        match game.forest[i].tree {
            Some(tree) => {
                if !tree.asleep && tree.is_mine && tree.size < 3 {
                    let cost: i32 = growth_cost(tree.size) + get_my_number_of_tree_of_size(
                        tree.size + 1,
                        game,
                    );
                    if game.sun >= cost {
                        r.push(Action { cell_id: i, seed_cell_id: 0, kind: ActionKind::Grow });
                    }
                }
            },
            None => {},
        }
        proof {
            assert(r@ =~= spec_grows(*game, i as int + 1));
        }
        i = i + 1;
    }
    r
}

/// Whether `x` occurs in `v`.
fn contains_usize(v: &Vec<usize>, x: usize) -> (r: bool)
    ensures
        r == v@.contains(x),
{
    let mut i: usize = 0;
    while i < v.len()
        invariant
            i <= v.len(),
            forall|j: int| 0 <= j < i ==> v@[j] != x,
        decreases v.len() - i,
    {
        if v[i] == x {
            return true;
        }
        i = i + 1;
    }
    false
}

/// Seed-target collection, one hop level: from `cell` at hop distance
/// `dist`, scan the six directions in order; every empty, usable, not yet
/// collected neighbor joins the accumulator, and the walk recurses through
/// each neighbor (occupied or not) one hop deeper.
pub open spec fn spec_seed_dirs(
    f: Seq<Cell>,
    cell: int,
    dist: int,
    size: int,
    d: int,
    acc: Seq<usize>,
) -> Seq<usize>
    decreases size - dist, 6 - d,
{
    if dist >= size || d >= 6 {
        acc
    } else {
        let n = f[cell].neighbors@[d] as int;
        let acc1 = if n > -1 {
            let acc0 = if f[n].tree is None && !acc.contains(n as usize) && f[n].richness > 0 {
                acc.push(n as usize)
            } else {
                acc
            };
            spec_seed_scan(f, n, dist + 1, size, acc0)
        } else {
            acc
        };
        spec_seed_dirs(f, cell, dist, size, d + 1, acc1)
    }
}

/// Seed targets reachable from `cell` in fewer than `size - dist` further
/// hops, appended to `acc` in visit order, deduplicated.
pub open spec fn spec_seed_scan(f: Seq<Cell>, cell: int, dist: int, size: int, acc: Seq<usize>) -> Seq<
    usize,
>
    decreases size - dist, 7int,
{
    if dist >= size {
        acc
    } else {
        spec_seed_dirs(f, cell, dist, size, 0, acc)
    }
}

/// Collect into `positions` every cell reachable from `cell_index` within
/// `size - dist` hops that is empty and has usable soil, skipping cells
/// already collected.
pub fn get_available_seed_position_from(
    game: &Game,
    cell_index: usize,
    dist: i32,
    size: i32,
    positions: &mut Vec<usize>,
)
    requires
        wf_game(*game),
        cell_index < 37,
        0 <= dist <= size,
        size <= 3,
    ensures
        final(positions)@ == spec_seed_scan(
            game.forest@,
            cell_index as int,
            dist as int,
            size as int,
            old(positions)@,
        ),
    decreases size - dist, 7int,
{
    if dist < size {
        let mut d: usize = 0;
        while d < 6
            invariant
                d <= 6,
                spec_seed_scan(
                    game.forest@,
                    cell_index as int,
                    dist as int,
                    size as int,
                    old(positions)@,
                ) == spec_seed_dirs(
                    game.forest@,
                    cell_index as int,
                    dist as int,
                    size as int,
                    d as int,
                    positions@,
                ),
            decreases 6 - d,
        {
            let ghost acc_at_dir: Seq<usize> = positions@;
            let n: i32 = game.forest[cell_index].neighbors[d];
            if n > -1 {
                let nu: usize = n as usize;
                if game.forest[nu].tree.is_none() && !contains_usize(positions, nu)
                    && game.forest[nu].richness > 0 {
                    positions.push(nu);
                }
                get_available_seed_position_from(game, nu, dist + 1, size, positions);
            }
            proof {
                assert(spec_seed_dirs(
                    game.forest@,
                    cell_index as int,
                    dist as int,
                    size as int,
                    d as int,
                    acc_at_dir,
                ) == spec_seed_dirs(
                    game.forest@,
                    cell_index as int,
                    dist as int,
                    size as int,
                    d as int + 1,
                    positions@,
                ));
            }
            d = d + 1;
        }
    }
}

/// Cell `i` offers SEEDs: a non-dormant tree of mine that is past the seed
/// stage, with the seeding cost (one sun per seed I already own) affordable.
pub open spec fn spec_seed_ok(g: Game, i: int) -> bool {
    &&& g.forest@[i].tree matches Some(t)
    &&& !t.asleep
    &&& t.size > 0
    &&& t.is_mine
    &&& g.sun >= spec_count_mine_of_size(g.forest@, 0, 37)
}

/// The seed-target cells reachable from the tree on cell `i`.
pub open spec fn spec_seed_targets(g: Game, i: int) -> Seq<usize> {
    spec_seed_scan(g.forest@, i, 0, g.forest@[i].tree->Some_0.size as int, Seq::empty())
}

/// The SEED candidates sourced at cell `i`, one per reachable target.
pub open spec fn spec_seed_actions_at(g: Game, i: int) -> Seq<Action> {
    spec_seed_targets(g, i).map_values(
        |p: usize| (Action { cell_id: i as usize, seed_cell_id: p, kind: ActionKind::Seed }),
    )
}

/// SEED candidates sourced among the first `n` cells, in cell order.
pub open spec fn spec_seeds(g: Game, n: int) -> Seq<Action>
    decreases n,
{
    if n <= 0 {
        Seq::empty()
    } else {
        spec_seeds(g, n - 1) + (if spec_seed_ok(g, n - 1) {
            spec_seed_actions_at(g, n - 1)
        } else {
            Seq::empty()
        })
    }
}

/// All SEED candidates of the snapshot.
pub fn get_available_seeds(game: &Game) -> (r: Vec<Action>)
    requires
        wf_game(*game),
    ensures
        r@ == spec_seeds(*game, 37),
{
    let mut r: Vec<Action> = Vec::new();
    let mut i: usize = 0;
    while i < 37
        invariant
            i <= 37,
            r@ == spec_seeds(*game, i as int),
        decreases 37 - i,
    {
        match game.forest[i].tree {
            Some(tree) => {
                if !tree.asleep && tree.size > 0 && tree.is_mine && game.sun
                    >= get_my_number_of_tree_of_size(0, game) {
                    let mut positions: Vec<usize> = Vec::new();
                    get_available_seed_position_from(game, i, 0, tree.size, &mut positions);
                    assert(positions@ == spec_seed_targets(*game, i as int));
                    let mut j: usize = 0;
                    while j < positions.len()
                        invariant
                            j <= positions.len(),
                            positions@ == spec_seed_targets(*game, i as int),
                            r@ == spec_seeds(*game, i as int) + positions@.subrange(
                                0,
                                j as int,
                            ).map_values(
                                |p: usize| (Action {
                                    cell_id: i,
                                    seed_cell_id: p,
                                    kind: ActionKind::Seed,
                                }),
                            ),
                        decreases positions.len() - j,
                    {
                        let pos: usize = positions[j];
                        r.push(Action { cell_id: i, seed_cell_id: pos, kind: ActionKind::Seed });
                        proof {
                            assert(positions@.subrange(0, j as int + 1) =~= positions@.subrange(
                                0,
                                j as int,
                            ).push(positions@[j as int]));
                            assert(positions@.subrange(0, j as int + 1).map_values(
                                |p: usize| (Action {
                                    cell_id: i,
                                    seed_cell_id: p,
                                    kind: ActionKind::Seed,
                                }),
                            ) =~= positions@.subrange(0, j as int).map_values(
                                |p: usize| (Action {
                                    cell_id: i,
                                    seed_cell_id: p,
                                    kind: ActionKind::Seed,
                                }),
                            ).push(
                                Action {
                                    cell_id: i,
                                    seed_cell_id: positions@[j as int],
                                    kind: ActionKind::Seed,
                                },
                            ));
                        }
                        j = j + 1;
                    }
                    proof {
                        assert(positions@.subrange(0, positions@.len() as int) =~= positions@);
                        assert(r@ =~= spec_seeds(*game, i as int + 1));
                    }
                } else {
                    proof {
                        assert(r@ =~= spec_seeds(*game, i as int + 1));
                    }
                }
            },
            None => {
                proof {
                    assert(r@ =~= spec_seeds(*game, i as int + 1));
                }
            },
        }
        i = i + 1;
    }
    r
}

/// A COMPLETE candidate names a cell that indeed offers one.
pub open spec fn spec_complete_entry_ok(g: Game, a: Action) -> bool {
    &&& a.kind == ActionKind::Complete
    &&& a.seed_cell_id == 0
    &&& a.cell_id < 37
    &&& spec_complete_ok(g, a.cell_id as int)
}

/// A GROW candidate names a cell that indeed offers one.
pub open spec fn spec_grow_entry_ok(g: Game, a: Action) -> bool {
    &&& a.kind == ActionKind::Grow
    &&& a.seed_cell_id == 0
    &&& a.cell_id < 37
    &&& spec_grow_ok(g, a.cell_id as int)
}

/// A SEED candidate names a source cell and a target cell on the board.
pub open spec fn spec_seed_entry_ok(g: Game, a: Action) -> bool {
    &&& a.kind == ActionKind::Seed
    &&& a.cell_id < 37
    &&& a.seed_cell_id < 37
}

proof fn lemma_completes_entries(g: Game, n: int)
    requires
        0 <= n <= 37,
    ensures
        forall|j: int|
            0 <= j < spec_completes(g, n).len() ==> spec_complete_entry_ok(
                g,
                #[trigger] spec_completes(g, n)[j],
            ),
    decreases n,
{
    if n > 0 {
        lemma_completes_entries(g, n - 1);
        assert forall|j: int| 0 <= j < spec_completes(g, n).len() implies spec_complete_entry_ok(
            g,
            spec_completes(g, n)[j],
        ) by {
            if j < spec_completes(g, n - 1).len() {
                assert(spec_completes(g, n)[j] == spec_completes(g, n - 1)[j]);
            } else {
                assert(spec_complete_ok(g, n - 1));
            }
        }
    }
}

proof fn lemma_grows_entries(g: Game, n: int)
    requires
        0 <= n <= 37,
    ensures
        forall|j: int|
            0 <= j < spec_grows(g, n).len() ==> spec_grow_entry_ok(
                g,
                #[trigger] spec_grows(g, n)[j],
            ),
    decreases n,
{
    if n > 0 {
        lemma_grows_entries(g, n - 1);
        assert forall|j: int| 0 <= j < spec_grows(g, n).len() implies spec_grow_entry_ok(
            g,
            spec_grows(g, n)[j],
        ) by {
            if j < spec_grows(g, n - 1).len() {
                assert(spec_grows(g, n)[j] == spec_grows(g, n - 1)[j]);
            } else {
                assert(spec_grow_ok(g, n - 1));
            }
        }
    }
}

proof fn lemma_seed_dirs_bounded(
    f: Seq<Cell>,
    cell: int,
    dist: int,
    size: int,
    d: int,
    acc: Seq<usize>,
)
    requires
        wf_forest(f),
        0 <= cell < 37,
        0 <= dist <= size,
        size <= 3,
        0 <= d <= 6,
        forall|j: int| 0 <= j < acc.len() ==> #[trigger] acc[j] < 37,
    ensures
        forall|j: int|
            0 <= j < spec_seed_dirs(f, cell, dist, size, d, acc).len() ==> #[trigger] spec_seed_dirs(
                f,
                cell,
                dist,
                size,
                d,
                acc,
            )[j] < 37,
    decreases size - dist, 6 - d,
{
    if dist >= size || d >= 6 {
    } else {
        let n = f[cell].neighbors@[d] as int;
        assert(wf_cell(f[cell]));
        if n > -1 {
            assert(0 <= n < 37);
            let acc0 = if f[n].tree is None && !acc.contains(n as usize) && f[n].richness > 0 {
                acc.push(n as usize)
            } else {
                acc
            };
            assert forall|j: int| 0 <= j < acc0.len() implies acc0[j] < 37 by {
                if j < acc.len() {
                    assert(acc[j] < 37);
                }
            }
            lemma_seed_scan_bounded(f, n, dist + 1, size, acc0);
            let acc1 = spec_seed_scan(f, n, dist + 1, size, acc0);
            lemma_seed_dirs_bounded(f, cell, dist, size, d + 1, acc1);
            assert(spec_seed_dirs(f, cell, dist, size, d, acc) == spec_seed_dirs(
                f,
                cell,
                dist,
                size,
                d + 1,
                acc1,
            ));
        } else {
            lemma_seed_dirs_bounded(f, cell, dist, size, d + 1, acc);
            assert(spec_seed_dirs(f, cell, dist, size, d, acc) == spec_seed_dirs(
                f,
                cell,
                dist,
                size,
                d + 1,
                acc,
            ));
        }
    }
}

proof fn lemma_seed_scan_bounded(f: Seq<Cell>, cell: int, dist: int, size: int, acc: Seq<usize>)
    requires
        wf_forest(f),
        0 <= cell < 37,
        0 <= dist <= size,
        size <= 3,
        forall|j: int| 0 <= j < acc.len() ==> #[trigger] acc[j] < 37,
    ensures
        forall|j: int|
            0 <= j < spec_seed_scan(f, cell, dist, size, acc).len() ==> #[trigger] spec_seed_scan(
                f,
                cell,
                dist,
                size,
                acc,
            )[j] < 37,
    decreases size - dist, 7int,
{
    if dist < size {
        lemma_seed_dirs_bounded(f, cell, dist, size, 0, acc);
        assert forall|j: int|
            0 <= j < spec_seed_scan(f, cell, dist, size, acc).len() implies spec_seed_scan(
            f,
            cell,
            dist,
            size,
            acc,
        )[j] < 37 by {
            assert(spec_seed_scan(f, cell, dist, size, acc) == spec_seed_dirs(
                f,
                cell,
                dist,
                size,
                0,
                acc,
            ));
            assert(spec_seed_dirs(f, cell, dist, size, 0, acc)[j] < 37);
        }
    } else {
        assert forall|j: int|
            0 <= j < spec_seed_scan(f, cell, dist, size, acc).len() implies spec_seed_scan(
            f,
            cell,
            dist,
            size,
            acc,
        )[j] < 37 by {
            assert(spec_seed_scan(f, cell, dist, size, acc) == acc);
            assert(acc[j] < 37);
        }
    }
}

proof fn lemma_seeds_entries(g: Game, n: int)
    requires
        wf_game(g),
        0 <= n <= 37,
    ensures
        forall|j: int|
            0 <= j < spec_seeds(g, n).len() ==> spec_seed_entry_ok(
                g,
                #[trigger] spec_seeds(g, n)[j],
            ),
    decreases n,
{
    if n > 0 {
        lemma_seeds_entries(g, n - 1);
        assert forall|j: int| 0 <= j < spec_seeds(g, n).len() implies spec_seed_entry_ok(
            g,
            spec_seeds(g, n)[j],
        ) by {
            if j < spec_seeds(g, n - 1).len() {
                assert(spec_seeds(g, n)[j] == spec_seeds(g, n - 1)[j]);
            } else {
                assert(spec_seed_ok(g, n - 1));
                assert(wf_cell(g.forest@[n - 1]));
                let size = g.forest@[n - 1].tree->Some_0.size as int;
                assert(0 <= size <= 3);
                lemma_seed_scan_bounded(g.forest@, n - 1, 0, size, Seq::empty());
                let targets = spec_seed_targets(g, n - 1);
                let jj = j - spec_seeds(g, n - 1).len();
                assert(spec_seeds(g, n)[j] == spec_seed_actions_at(g, n - 1)[jj]);
                assert(spec_seed_actions_at(g, n - 1)[jj] == (Action {
                    cell_id: (n - 1) as usize,
                    seed_cell_id: targets[jj],
                    kind: ActionKind::Seed,
                }));
                assert(targets[jj] < 37);
            }
        }
    }
}

/// Every candidate of a well-formed snapshot is itself well formed: it names
/// cells on the board, and its cell really offers the move it claims.
pub proof fn lemma_candidates_entries(g: Game)
    requires
        wf_game(g),
    ensures
        forall|j: int|
            0 <= j < spec_candidates(g).len() ==> {
                let a = #[trigger] spec_candidates(g)[j];
                &&& (a.kind == ActionKind::Complete ==> spec_complete_entry_ok(g, a))
                &&& (a.kind == ActionKind::Grow ==> spec_grow_entry_ok(g, a))
                &&& (a.kind == ActionKind::Seed ==> spec_seed_entry_ok(g, a))
            },
{
    lemma_grows_entries(g, 37);
    lemma_completes_entries(g, 37);
    lemma_seeds_entries(g, 37);
}

/// The full candidate set of the snapshot: every GROW, then every COMPLETE,
/// then every SEED, then one WAIT.
pub open spec fn spec_candidates(g: Game) -> Seq<Action> {
    spec_grows(g, 37) + spec_completes(g, 37) + spec_seeds(g, 37) + seq![spec_wait_action()]
}

/// Enumerate every candidate move of the snapshot, WAIT included.
pub fn get_neighbors(game: &Game) -> (r: Vec<Action>)
    requires
        wf_game(*game),
    ensures
        r@ == spec_candidates(*game),
{
    let mut r: Vec<Action> = get_available_grows(game);
    let mut completes: Vec<Action> = get_available_completes(game);
    let mut seeds: Vec<Action> = get_available_seeds(game);
    r.append(&mut completes);
    r.append(&mut seeds);
    r.push(Action { cell_id: 0, seed_cell_id: 0, kind: ActionKind::Wait });
    proof {
        assert(r@ =~= spec_candidates(*game));
    }
    r
}

} // verus!
