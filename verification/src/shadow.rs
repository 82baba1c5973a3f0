//! Shadow and sun-energy model.
//!
//! The sun rotates through six directions, one per day (`day % 6`). A tree
//! casts a shadow over the cells behind it along the sun's direction, up to
//! three hops; a cell is shadowed when a close enough, tall enough tree
//! stands in front of it. These pure functions aggregate shadowing over a
//! range of days into the heuristic tallies that drive the move selector.

use vstd::prelude::*;

use crate::board::{Cell, Game, wf_game};

verus! {

/// Largest day-range width the tallies accept; it keeps every intermediate
/// `i32` sum in bounds.
pub const MAX_DAY_SPAN: usize = 100_000_000;

/// The seven rim cells lit first by the sun for each of its six directions.
pub open spec fn spec_sun_rays(rem: int) -> Seq<usize> {
    if rem == 0 {
        seq![25usize, 26usize, 27usize, 28usize, 29usize, 30usize, 31usize]
    } else if rem == 1 {
        seq![28usize, 29usize, 30usize, 31usize, 32usize, 33usize, 34usize]
    } else if rem == 2 {
        seq![31usize, 32usize, 33usize, 34usize, 35usize, 36usize, 19usize]
    } else if rem == 3 {
        seq![34usize, 35usize, 36usize, 19usize, 20usize, 21usize, 22usize]
    } else if rem == 4 {
        seq![19usize, 20usize, 21usize, 22usize, 23usize, 24usize, 25usize]
    } else {
        seq![22usize, 23usize, 24usize, 25usize, 26usize, 27usize, 28usize]
    }
}

/// The rim cells facing the sun on the given day.
pub fn get_sun_rays(day: i32) -> (r: Vec<usize>)
    requires
        0 <= day,
    ensures
        r@ == spec_sun_rays((day as int) % 6),
{
    let rem: i32 = day % 6;
    let r: Vec<usize> = match rem {
        0 => vec![25, 26, 27, 28, 29, 30, 31],
        1 => vec![28, 29, 30, 31, 32, 33, 34],
        2 => vec![31, 32, 33, 34, 35, 36, 19],
        3 => vec![34, 35, 36, 19, 20, 21, 22],
        4 => vec![19, 20, 21, 22, 23, 24, 25],
        _ => vec![22, 23, 24, 25, 26, 27, 28],
    };
    proof {
        assert(r@ =~= spec_sun_rays((day as int) % 6));
    }
    r
}

/// Walk at most three hops along direction `dir` starting from cell `next`
/// at hop distance `dist`: true when some tree on the way is tall enough to
/// shade the origin (`size > dist`), is at least `min_size`, and (when
/// `only_mine` is set) is my own.
pub open spec fn spec_shadow_walk(
    f: Seq<Cell>,
    dir: int,
    min_size: int,
    only_mine: bool,
    next: int,
    dist: int,
) -> bool
    decreases 3 - dist,
{
    if next == -1 || dist >= 3 {
        false
    } else if f[next].tree matches Some(t) && (t.is_mine || !only_mine) && t.size > dist
        && t.size >= min_size {
        true
    } else {
        spec_shadow_walk(f, dir, min_size, only_mine, f[next].neighbors@[dir] as int, dist + 1)
    }
}

/// Whether `cell` is shadowed on cycle day `cycle`: the blocking trees stand
/// along the direction opposite the sun, `(cycle + 3) % 6`.
pub open spec fn spec_is_shadowed(
    f: Seq<Cell>,
    cycle: int,
    min_size: int,
    only_mine: bool,
    cell: int,
) -> bool {
    let dir = (cycle + 3) % 6;
    spec_shadow_walk(f, dir, min_size, only_mine, f[cell].neighbors@[dir] as int, 0)
}

/// Whether `cell_index` is shadowed on cycle day `cycle` by a tree of size at
/// least `size` (my own trees only when `only_mine` is set).
pub fn is_shadowed(
    game: &Game,
    cycle: usize,
    size: i32,
    only_mine: bool,
    cell_index: usize,
) -> (r: bool)
    requires
        wf_game(*game),
        cycle < 6,
        cell_index < 37,
    ensures
        r == spec_is_shadowed(
            game.forest@,
            cycle as int,
            size as int,
            only_mine,
            cell_index as int,
        ),
{
    let dir: usize = (cycle + 3) % 6;
    let mut dist: i32 = 0;
    let mut next_n: i32 = game.forest[cell_index].neighbors[dir];
    while next_n != -1 && dist < 3
        invariant
            0 <= dist <= 3,
            -1 <= next_n < 37,
            spec_is_shadowed(game.forest@, cycle as int, size as int, only_mine, cell_index as int)
                == spec_shadow_walk(
                game.forest@,
                dir as int,
                size as int,
                only_mine,
                next_n as int,
                dist as int,
            ),
        decreases 3 - dist,
    {
        match game.forest[next_n as usize].tree {
            Some(tree) => {
                if (tree.is_mine || !only_mine) && tree.size > dist && tree.size >= size {
                    return true;
                }
            },
            None => {},
        }
        next_n = game.forest[next_n as usize].neighbors[dir];
        dist = dist + 1;
    }
    false
}

/// Number of days in `[from, to)` on which `cell` is shadowed, each day
/// mapped to its sun cycle `day % 6`.
pub open spec fn spec_shadow_day_count(
    f: Seq<Cell>,
    from: int,
    to: int,
    min_size: int,
    only_mine: bool,
    cell: int,
) -> int
    decreases to - from,
{
    if to <= from {
        0
    } else {
        spec_shadow_day_count(f, from, to - 1, min_size, only_mine, cell) + (
        if spec_is_shadowed(f, (to - 1) % 6, min_size, only_mine, cell) {
            1int
        } else {
            0int
        })
    }
}

/// How many days of `[from, to)` leave `cell_index` shadowed.
pub fn shadow_sensitiveness(
    game: &Game,
    from: usize,
    to: usize,
    size: i32,
    only_mine: bool,
    cell_index: usize,
) -> (n: i32)
    requires
        wf_game(*game),
        cell_index < 37,
        from <= to,
        to - from <= MAX_DAY_SPAN,
    ensures
        n as int == spec_shadow_day_count(
            game.forest@,
            from as int,
            to as int,
            size as int,
            only_mine,
            cell_index as int,
        ),
        0 <= n <= to - from,
{
    let mut shadow_day: i32 = 0;
    let mut day: usize = from;
    while day < to
        invariant
            from <= day <= to,
            0 <= shadow_day <= day - from,
            shadow_day as int == spec_shadow_day_count(
                game.forest@,
                from as int,
                day as int,
                size as int,
                only_mine,
                cell_index as int,
            ),
        decreases to - day,
    {
        let cycle: usize = day % 6;
        if is_shadowed(game, cycle, size, only_mine, cell_index) {
            shadow_day = shadow_day + 1;
        }
        day = day + 1;
    }
    shadow_day
}

/// One day's marginal shading tally: walk along the sun's direction `cycle`
/// up to `size` hops from the hypothetical tree; every tree not taller than
/// `size` that tops all trees seen before it on the walk adds its size to
/// the tally when its owner matches `mine`.
pub open spec fn spec_lost_walk(
    f: Seq<Cell>,
    cycle: int,
    next: int,
    dist: int,
    size: int,
    max_seen: int,
    mine: bool,
) -> int
    decreases size - dist,
{
    if next == -1 || dist >= size {
        0
    } else {
        let after = f[next].neighbors@[cycle] as int;
        match f[next].tree {
            Some(t) => {
                if t.size <= size && t.size > max_seen {
                    (if t.is_mine == mine {
                        t.size as int
                    } else {
                        0int
                    }) + spec_lost_walk(f, cycle, after, dist + 1, size, t.size as int, mine)
                } else {
                    spec_lost_walk(f, cycle, after, dist + 1, size, max_seen, mine)
                }
            },
            None => spec_lost_walk(f, cycle, after, dist + 1, size, max_seen, mine),
        }
    }
}

/// The marginal shading tally cast from `cell` on one `day`.
pub open spec fn spec_day_lost(f: Seq<Cell>, day: int, cell: int, size: int, mine: bool) -> int {
    let cycle = day % 6;
    spec_lost_walk(f, cycle, f[cell].neighbors@[cycle] as int, 0, size, 0, mine)
}

/// The marginal shading tally cast from `cell` summed over `[from, to)`.
pub open spec fn spec_lost_in_range(
    f: Seq<Cell>,
    from: int,
    to: int,
    cell: int,
    size: int,
    mine: bool,
) -> int
    decreases to - from,
{
    if to <= from {
        0
    } else {
        spec_lost_in_range(f, from, to - 1, cell, size, mine)
            + spec_day_lost(f, to - 1, cell, size, mine)
    }
}

/// Shared walker behind the own/opponent sun-loss tallies.
fn sun_lost_walk(game: &Game, from: usize, to: usize, cell_id: usize, size: i32, mine: bool) -> (n:
    i32)
    requires
        wf_game(*game),
        cell_id < 37,
        from <= to,
        to - from <= MAX_DAY_SPAN,
        0 <= size <= 3,
    ensures
        n as int == spec_lost_in_range(
            game.forest@,
            from as int,
            to as int,
            cell_id as int,
            size as int,
            mine,
        ),
        0 <= n <= 9 * (to - from),
{
    let mut nb: i32 = 0;
    let mut day: usize = from;
    while day < to
        invariant
            from <= day <= to,
            0 <= nb <= 9 * (day - from),
            nb as int == spec_lost_in_range(
                game.forest@,
                from as int,
                day as int,
                cell_id as int,
                size as int,
                mine,
            ),
        decreases to - day,
    {
        let cycle: usize = day % 6;
        let mut dist: i32 = 0;
        let mut next_n: i32 = game.forest[cell_id].neighbors[cycle];
        let mut max_tree_size: i32 = 0;
        let ghost nb_day_start: int = nb as int;
        while next_n != -1 && dist < size
            invariant
                0 <= dist <= 3,
                dist <= size,
                -1 <= next_n < 37,
                0 <= max_tree_size <= 3,
                nb_day_start <= nb <= nb_day_start + 3 * dist,
                nb_day_start == spec_lost_in_range(
                    game.forest@,
                    from as int,
                    day as int,
                    cell_id as int,
                    size as int,
                    mine,
                ),
                spec_day_lost(game.forest@, day as int, cell_id as int, size as int, mine) == (
                nb - nb_day_start) + spec_lost_walk(
                    game.forest@,
                    cycle as int,
                    next_n as int,
                    dist as int,
                    size as int,
                    max_tree_size as int,
                    mine,
                ),
            decreases size - dist,
        {
            match game.forest[next_n as usize].tree {
                Some(tree) => {
                    if tree.size <= size && tree.size > max_tree_size {
                        if tree.is_mine == mine {
                            nb = nb + tree.size;
                        }
                        max_tree_size = tree.size;
                    }
                },
                None => {},
            }
            next_n = game.forest[next_n as usize].neighbors[cycle];
            dist = dist + 1;
        }
        day = day + 1;
    }
    nb
}

/// Sun points the opponent's trees would lose to the shadow cast by a tree
/// of `size` standing on `cell_id`, summed over the days `[from, to)`.
pub fn nb_opp_sun_lost_by(game: &Game, from: usize, to: usize, cell_id: usize, size: i32) -> (n:
    i32)
    requires
        wf_game(*game),
        cell_id < 37,
        from <= to,
        to - from <= MAX_DAY_SPAN,
        0 <= size <= 3,
    ensures
        n as int == spec_lost_in_range(
            game.forest@,
            from as int,
            to as int,
            cell_id as int,
            size as int,
            false,
        ),
        0 <= n <= 9 * (to - from),
{
    sun_lost_walk(game, from, to, cell_id, size, false)
}

/// Sun points my own trees would lose to the shadow cast by a tree of `size`
/// standing on `cell_id`, summed over the days `[from, to)`.
pub fn nb_own_sun_lost_by(game: &Game, from: usize, to: usize, cell_id: usize, size: i32) -> (n:
    i32)
    requires
        wf_game(*game),
        cell_id < 37,
        from <= to,
        to - from <= MAX_DAY_SPAN,
        0 <= size <= 3,
    ensures
        n as int == spec_lost_in_range(
            game.forest@,
            from as int,
            to as int,
            cell_id as int,
            size as int,
            true,
        ),
        0 <= n <= 9 * (to - from),
{
    sun_lost_walk(game, from, to, cell_id, size, true)
}

/// Raising the size threshold only ever disqualifies blocking trees: a walk
/// that finds a shadow under threshold `ms2` also finds one under any lower
/// threshold `ms1`.
proof fn lemma_shadow_walk_antitone(
    f: Seq<Cell>,
    dir: int,
    ms1: int,
    ms2: int,
    only_mine: bool,
    next: int,
    dist: int,
)
    requires
        ms1 <= ms2,
        spec_shadow_walk(f, dir, ms2, only_mine, next, dist),
    ensures
        spec_shadow_walk(f, dir, ms1, only_mine, next, dist),
    decreases 3 - dist,
{
    if next == -1 || dist >= 3 {
        // the walk under ms2 is false here, contradicting the hypothesis
    } else if f[next].tree matches Some(t) && (t.is_mine || !only_mine) && t.size > dist
        && t.size >= ms2 {
        // the same tree qualifies under ms1 <= ms2
    } else {
        lemma_shadow_walk_antitone(
            f,
            dir,
            ms1,
            ms2,
            only_mine,
            f[next].neighbors@[dir] as int,
            dist + 1,
        );
    }
}

/// A cell shadowed under size threshold `ms2` is shadowed under every lower
/// threshold `ms1`; a cell shadowed under `ms1` need not stay shadowed when
/// the threshold rises.
pub proof fn lemma_is_shadowed_monotone_min_size(
    f: Seq<Cell>,
    cycle: int,
    ms1: int,
    ms2: int,
    only_mine: bool,
    cell: int,
)
    requires
        ms1 <= ms2,
        spec_is_shadowed(f, cycle, ms2, only_mine, cell),
    ensures
        spec_is_shadowed(f, cycle, ms1, only_mine, cell),
{
    let dir = (cycle + 3) % 6;
    lemma_shadow_walk_antitone(
        f,
        dir,
        ms1,
        ms2,
        only_mine,
        f[cell].neighbors@[dir] as int,
        0,
    );
}

/// The shadow-day count can also be peeled from the front of the range.
proof fn lemma_shadow_count_step_front(
    f: Seq<Cell>,
    from: int,
    to: int,
    min_size: int,
    only_mine: bool,
    cell: int,
)
    requires
        from < to,
    ensures
        spec_shadow_day_count(f, from, to, min_size, only_mine, cell) == (
        if spec_is_shadowed(f, from % 6, min_size, only_mine, cell) {
            1int
        } else {
            0int
        }) + spec_shadow_day_count(f, from + 1, to, min_size, only_mine, cell),
    decreases to - from,
{
    if from + 1 < to {
        lemma_shadow_count_step_front(f, from, to - 1, min_size, only_mine, cell);
        assert(spec_shadow_day_count(f, from + 1, to, min_size, only_mine, cell)
            == spec_shadow_day_count(f, from + 1, to - 1, min_size, only_mine, cell) + (
        if spec_is_shadowed(f, (to - 1) % 6, min_size, only_mine, cell) {
            1int
        } else {
            0int
        }));
    } else {
        assert(spec_shadow_day_count(f, from, from, min_size, only_mine, cell) == 0);
        assert(spec_shadow_day_count(f, from + 1, to, min_size, only_mine, cell) == 0);
    }
}

/// Only `day % 6` matters to shadowing, so any six-day window counts the
/// same shadow days as the window `[0, 6)`.
pub proof fn lemma_shadow_count_periodic(
    f: Seq<Cell>,
    k: int,
    min_size: int,
    only_mine: bool,
    cell: int,
)
    requires
        0 <= k,
    ensures
        spec_shadow_day_count(f, k, k + 6, min_size, only_mine, cell) == spec_shadow_day_count(
            f,
            0,
            6,
            min_size,
            only_mine,
            cell,
        ),
    decreases k,
{
    if k > 0 {
        lemma_shadow_count_periodic(f, k - 1, min_size, only_mine, cell);
        lemma_shadow_count_step_front(f, k - 1, k + 5, min_size, only_mine, cell);
        assert((k + 5) % 6 == (k - 1) % 6);
    }
}

/// Over the window `[0, 6)` the shadow-day count is exactly the number of
/// the six cycle days on which the cell is shadowed.
pub proof fn lemma_shadow_count_first_window(
    f: Seq<Cell>,
    min_size: int,
    only_mine: bool,
    cell: int,
)
    ensures
        spec_shadow_day_count(f, 0, 6, min_size, only_mine, cell) == (
        if spec_is_shadowed(f, 0, min_size, only_mine, cell) { 1int } else { 0int })
            + (if spec_is_shadowed(f, 1, min_size, only_mine, cell) { 1int } else { 0int })
            + (if spec_is_shadowed(f, 2, min_size, only_mine, cell) { 1int } else { 0int })
            + (if spec_is_shadowed(f, 3, min_size, only_mine, cell) { 1int } else { 0int })
            + (if spec_is_shadowed(f, 4, min_size, only_mine, cell) { 1int } else { 0int })
            + (if spec_is_shadowed(f, 5, min_size, only_mine, cell) { 1int } else { 0int }),
{
    reveal_with_fuel(spec_shadow_day_count, 7);
}

/// Net sun-energy advantage of a tree of `size` on `cell` over `[from, to)`:
/// sun gathered on unshadowed days, minus the shadow it casts on my own
/// trees, plus the shadow it casts on the opponent's.
pub open spec fn spec_sun_rate(f: Seq<Cell>, cell: int, size: int, from: int, to: int) -> int {
    (to - from - spec_shadow_day_count(f, from, to, size, false, cell)) * size
        - spec_lost_in_range(f, from, to, cell, size, true) + spec_lost_in_range(
        f,
        from,
        to,
        cell,
        size,
        false,
    )
}

/// The composite heuristic score of a tree of `size` on `cell_id` over the
/// days `[from, to)`.
pub fn sun_rate(cell_id: usize, size: i32, from: usize, to: usize, game: &Game) -> (r: i32)
    requires
        wf_game(*game),
        cell_id < 37,
        from <= to,
        to - from <= MAX_DAY_SPAN,
        0 <= size <= 3,
    ensures
        r as int == spec_sun_rate(
            game.forest@,
            cell_id as int,
            size as int,
            from as int,
            to as int,
        ),
        -9 * (to - from) <= r as int <= 12 * (to - from),
{
    let nb_opp_sun_lost: i32 = nb_opp_sun_lost_by(game, from, to, cell_id, size);
    let nb_own_sun_lost: i32 = nb_own_sun_lost_by(game, from, to, cell_id, size);
    let shadow: i32 = shadow_sensitiveness(game, from, to, size, false, cell_id);
    let days: i32 = (to - from) as i32;
    proof {
        assert(0 <= (days - shadow) * size <= 3 * days) by (nonlinear_arith)
            requires
                0 <= days - shadow <= days,
                0 <= size <= 3,
        ;
    }
    let nb_sun_won: i32 = (days - shadow) * size;
    nb_sun_won - nb_own_sun_lost + nb_opp_sun_lost
}

} // verus!
