//! Action selector: a fixed priority cascade of heuristic policies.
//!
//! Policies are tried in order — endgame harvest, growth maximization,
//! early seeding — and the first one whose gate fires and whose side
//! condition passes commits its winner; otherwise the agent WAITs. Each
//! policy scans its candidate family in enumeration order and keeps the
//! best-scoring action, with its own tie-break rule.

use vstd::prelude::*;

use crate::actions::{Action, ActionKind, get_neighbors, lemma_candidates_entries, spec_candidates,
    spec_complete_entry_ok, spec_grow_entry_ok, spec_seed_entry_ok, spec_wait_action};
use crate::board::{Game, get_my_number_of_tree_of_size, spec_count_mine_of_size, wf_game,
    wf_tree};
use crate::shadow::{shadow_sensitiveness, spec_shadow_day_count, spec_sun_rate, sun_rate};

verus! {

/// Heuristic score of a tree of `size` on `cell` over the single day after
/// the snapshot's.
pub open spec fn spec_next_day_rate(g: Game, cell: int, size: int) -> int {
    spec_sun_rate(g.forest@, cell, size, g.day + 1, g.day + 2)
}

/// Heuristic score of a tree of `size` on `cell` over one full sun cycle.
pub open spec fn spec_cycle_rate(g: Game, cell: int, size: int) -> int {
    spec_sun_rate(g.forest@, cell, size, 0, 6)
}

/// Endgame harvest scan over the first `n` candidates: keep the COMPLETE
/// whose tree is worth the least sun tomorrow, ties broken by the lower
/// full-cycle score. Returns the best candidate with its next-day score.
pub open spec fn spec_best_complete(g: Game, s: Seq<Action>, n: int) -> Option<(Action, int)>
    decreases n,
{
    if n <= 0 {
        None
    } else {
        let prev = spec_best_complete(g, s, n - 1);
        let a = s[n - 1];
        if a.kind != ActionKind::Complete {
            prev
        } else {
            let srnd = spec_next_day_rate(g, a.cell_id as int, 3);
            match prev {
                None => Some((a, srnd)),
                Some((b, bs)) => {
                    if srnd < bs || (srnd == bs && spec_cycle_rate(g, a.cell_id as int, 3)
                        < spec_cycle_rate(g, b.cell_id as int, 3)) {
                        Some((a, srnd))
                    } else {
                        prev
                    }
                },
            }
        }
    }
}

/// Growth scan over the first `n` candidates: keep the GROW with the
/// largest next-day improvement `diff`, ties broken by the higher
/// full-cycle score at the grown size; a candidate qualifies only if its
/// `diff` is positive, or is zero while the full-cycle score strictly
/// improves at the grown size. Returns the best candidate with its `diff`
/// and its tree's current size.
pub open spec fn spec_best_grow(g: Game, s: Seq<Action>, n: int) -> Option<(Action, int, int)>
    decreases n,
{
    if n <= 0 {
        None
    } else {
        let prev = spec_best_grow(g, s, n - 1);
        let a = s[n - 1];
        if a.kind != ActionKind::Grow {
            prev
        } else {
            let size = g.forest@[a.cell_id as int].tree->Some_0.size as int;
            let cur = spec_next_day_rate(g, a.cell_id as int, size);
            let grown = spec_next_day_rate(g, a.cell_id as int, size + 1);
            let diff = grown - cur;
            let qualifies = diff > 0 || (diff == 0 && spec_cycle_rate(g, a.cell_id as int, size + 1)
                > spec_cycle_rate(g, a.cell_id as int, size));
            let beats = match prev {
                None => true,
                Some((b, bdiff, bsize)) => diff > bdiff || (diff == bdiff && spec_cycle_rate(
                    g,
                    a.cell_id as int,
                    size + 1,
                ) - spec_cycle_rate(g, b.cell_id as int, bsize + 1) > 0),
            };
            if beats && qualifies {
                Some((a, diff, size))
            } else {
                prev
            }
        }
    }
}

/// A seed target's score: the number of the six cycle days on which my own
/// trees leave it unshadowed.
pub open spec fn spec_seed_score(g: Game, target: int) -> int {
    6 - spec_shadow_day_count(g.forest@, 0, 6, 0, true, target)
}

/// Seeding scan over the first `n` candidates: keep the SEED whose target
/// is least shadowed by my own trees over a full cycle, ties broken by the
/// higher target richness yield. Returns the best candidate with its score.
pub open spec fn spec_best_seed(g: Game, s: Seq<Action>, n: int) -> Option<(Action, int)>
    decreases n,
{
    if n <= 0 {
        None
    } else {
        let prev = spec_best_seed(g, s, n - 1);
        let a = s[n - 1];
        if a.kind != ActionKind::Seed {
            prev
        } else {
            let sc = spec_seed_score(g, a.seed_cell_id as int);
            match prev {
                None => Some((a, sc)),
                Some((b, bs)) => {
                    if sc > bs || (sc == bs && g.forest@[a.seed_cell_id as int].richness * 2 - 2
                        > g.forest@[b.seed_cell_id as int].richness * 2 - 2) {
                        Some((a, sc))
                    } else {
                        prev
                    }
                },
            }
        }
    }
}

/// Endgame harvest policy: fires when I own at least `20 - day` full-grown
/// trees; commits its best COMPLETE only when the harvest still yields a
/// positive score (`nutrients + richness*2 - 2 > 0`).
pub open spec fn spec_endgame_pick(g: Game) -> Option<Action> {
    if spec_count_mine_of_size(g.forest@, 3, 37) >= 20 - g.day {
        match spec_best_complete(g, spec_candidates(g), spec_candidates(g).len() as int) {
            Some((b, _)) => {
                if g.nutrients + (g.forest@[b.cell_id as int].richness * 2 - 2) > 0 {
                    Some(b)
                } else {
                    None
                }
            },
            None => None,
        }
    } else {
        None
    }
}

/// Growth policy: commits its best GROW only when enough days remain for
/// the grown tree to pay off (`day < 23 - (3 - (size + 1))`).
pub open spec fn spec_grow_pick(g: Game) -> Option<Action> {
    match spec_best_grow(g, spec_candidates(g), spec_candidates(g).len() as int) {
        Some((b, _, bsize)) => {
            if g.day < 23 - (3 - (bsize + 1)) {
                Some(b)
            } else {
                None
            }
        },
        None => None,
    }
}

/// Early seeding policy: fires only while I own no seed at all; commits its
/// best SEED only before day 20.
pub open spec fn spec_seed_pick(g: Game) -> Option<Action> {
    if spec_count_mine_of_size(g.forest@, 0, 37) == 0 {
        match spec_best_seed(g, spec_candidates(g), spec_candidates(g).len() as int) {
            Some((b, _)) => {
                if g.day < 20 {
                    Some(b)
                } else {
                    None
                }
            },
            None => None,
        }
    } else {
        None
    }
}

/// The chosen move of a snapshot: the first policy of the cascade that
/// commits wins; with no commitment the agent WAITs.
pub open spec fn spec_find_best_action(g: Game) -> Action {
    match spec_endgame_pick(g) {
        Some(a) => a,
        None => match spec_grow_pick(g) {
            Some(a) => a,
            None => match spec_seed_pick(g) {
                Some(a) => a,
                None => spec_wait_action(),
            },
        },
    }
}

/// Pick one move for the snapshot by the policy cascade.
pub fn find_best_action(game: &Game) -> (a: Action)
    requires
        wf_game(*game),
    ensures
        a == spec_find_best_action(*game),
{
    let actions: Vec<Action> = get_neighbors(game);
    proof {
        lemma_candidates_entries(*game);
    }
    let next_from: usize = (game.day + 1) as usize;
    let next_to: usize = (game.day + 2) as usize;

    // Endgame harvest
    if get_my_number_of_tree_of_size(3, game) >= 20 - game.day {
        let mut best: Option<(Action, i32)> = None;
        let mut i: usize = 0;
        while i < actions.len()
            invariant
                i <= actions@.len(),
                match (best, spec_best_complete(*game, actions@, i as int)) {
                    (None, None) => true,
                    (Some((a, sc)), Some((sa, ssc))) => {
                        &&& a == sa
                        &&& sc as int == ssc
                        &&& spec_complete_entry_ok(*game, a)
                    },
                    _ => false,
                },
            decreases actions@.len() - i,
        {
            let act: Action = actions[i];
            if act.kind == ActionKind::Complete {
                let srnd: i32 = sun_rate(act.cell_id, 3, next_from, next_to, game);
                let take: bool = match best {
                    None => true,
                    Some((b, bs)) => srnd < bs || (srnd == bs && sun_rate(act.cell_id, 3, 0, 6, game)
                        < sun_rate(b.cell_id, 3, 0, 6, game)),
                };
                if take {
                    best = Some((act, srnd));
                }
            }
            i = i + 1;
        }
        match best {
            Some((b, _)) => {
                let rich: i32 = game.forest[b.cell_id].richness;
                if game.nutrients > 2 - rich * 2 {
                    return b;
                }
            },
            None => {},
        }
    }

    // Growth maximization
    let mut best_grow: Option<(Action, i32, i32)> = None;
    let mut i: usize = 0;
    while i < actions.len()
        invariant
            i <= actions@.len(),
            match (best_grow, spec_best_grow(*game, actions@, i as int)) {
                (None, None) => true,
                (Some((a, df, sz)), Some((sa, sdf, ssz))) => {
                    &&& a == sa
                    &&& df as int == sdf
                    &&& sz as int == ssz
                    &&& 0 <= sz <= 2
                    &&& spec_grow_entry_ok(*game, a)
                },
                _ => false,
            },
        decreases actions@.len() - i,
    {
        let act: Action = actions[i];
        if act.kind == ActionKind::Grow {
            let size: i32 = game.forest[act.cell_id].tree.unwrap().size;
            proof {
                assert(wf_tree(game.forest@[act.cell_id as int].tree->Some_0));
            }
            let cur: i32 = sun_rate(act.cell_id, size, next_from, next_to, game);
            let grown: i32 = sun_rate(act.cell_id, size + 1, next_from, next_to, game);
            let diff: i32 = grown - cur;
            let qualifies: bool = diff > 0 || (diff == 0 && sun_rate(act.cell_id, size + 1, 0, 6, game)
                > sun_rate(act.cell_id, size, 0, 6, game));
            let beats: bool = match best_grow {
                None => true,
                Some((b, bdiff, bsize)) => diff > bdiff || (diff == bdiff && sun_rate(
                    act.cell_id,
                    size + 1,
                    0,
                    6,
                    game,
                ) - sun_rate(b.cell_id, bsize + 1, 0, 6, game) > 0),
            };
            if beats && qualifies {
                best_grow = Some((act, diff, size));
            }
        }
        i = i + 1;
    }
    match best_grow {
        Some((b, _, bsize)) => {
            if game.day < 23 - (3 - (bsize + 1)) {
                return b;
            }
        },
        None => {},
    }

    // Early seeding
    if get_my_number_of_tree_of_size(0, game) == 0 {
        let mut best: Option<(Action, i32)> = None;
        let mut i: usize = 0;
        while i < actions.len()
            invariant
                i <= actions@.len(),
                match (best, spec_best_seed(*game, actions@, i as int)) {
                    (None, None) => true,
                    (Some((a, sc)), Some((sa, ssc))) => {
                        &&& a == sa
                        &&& sc as int == ssc
                        &&& spec_seed_entry_ok(*game, a)
                    },
                    _ => false,
                },
            decreases actions@.len() - i,
        {
            let act: Action = actions[i];
            if act.kind == ActionKind::Seed {
                let shadow: i32 = shadow_sensitiveness(game, 0, 6, 0, true, act.seed_cell_id);
                let score: i32 = 6 - shadow;
                let take: bool = match best {
                    None => true,
                    Some((b, bs)) => score > bs || (score == bs && game.forest[act.seed_cell_id].richness
                        * 2 - 2 > game.forest[b.seed_cell_id].richness * 2 - 2),
                };
                if take {
                    best = Some((act, score));
                }
            }
            i = i + 1;
        }
        match best {
            Some((b, _)) => {
                if game.day < 20 {
                    return b;
                }
            },
            None => {},
        }
    }

    Action::new(ActionKind::Wait)
}

/// Feeding the same snapshot twice produces the identical action: the
/// chosen move is a function of the snapshot alone.
pub proof fn lemma_selector_deterministic(g1: Game, g2: Game)
    requires
        g1 == g2,
    ensures
        spec_find_best_action(g1) == spec_find_best_action(g2),
{
}

} // verus!
