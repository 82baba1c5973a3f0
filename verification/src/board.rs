//! Board topology and per-turn game snapshot.
//!
//! The board is a fixed 37-cell hexagonal grid (one center cell plus two
//! rings, numbered spiralling outwards). Every cell carries a soil richness
//! tier, up to six directional neighbor links (`-1` marks the edge of the
//! board) and at most one tree.

use vstd::prelude::*;

verus! {

/// A tree occupying one board cell: its owner, its size (0 = seed up to
/// 3 = full grown) and whether it has already acted this day.
#[derive(Clone, Copy, Debug, PartialEq, Eq, Structural)]
pub struct Tree {
    pub is_mine: bool,
    pub size: i32,
    pub asleep: bool,
}

impl Tree {
    pub fn new() -> (t: Tree)
        ensures
            !t.is_mine,
            t.size == 0,
            !t.asleep,
    {
        Tree { is_mine: false, size: 0, asleep: false }
    }
}

/// One cell of the board: richness tier (0 = unusable, 1-3 = usable), the
/// optional tree standing on it, and the six directional neighbor links.
#[derive(Clone, Debug)]
pub struct Cell {
    pub richness: i32,
    pub tree: Option<Tree>,
    pub neighbors: Vec<i32>,
}

impl Cell {
    pub fn new() -> (c: Cell)
        ensures
            c.richness == 0,
            c.tree is None,
            c.neighbors@ =~= seq![0i32, 0i32, 0i32, 0i32, 0i32, 0i32],
    {
        Cell { richness: 0, tree: None, neighbors: vec![0, 0, 0, 0, 0, 0] }
    }
}

/// The per-turn snapshot: day counter, nutrient pool, both players' sun and
/// score, and the full 37-cell forest.
#[derive(Clone, Debug)]
pub struct Game {
    pub turn: usize,
    pub day: i32,
    pub nutrients: i32,
    pub sun: i32,
    pub score: i32,
    pub opp_sun: i32,
    pub opp_score: i32,
    pub opp_is_waiting: i32,
    pub number_of_trees: i32,
    pub forest: Vec<Cell>,
}

/// A tree size is one of 0 (seed), 1, 2 or 3 (full grown).
pub open spec fn wf_tree(t: Tree) -> bool {
    0 <= t.size <= 3
}

/// A cell's richness is a tier in 0..=3, it has exactly six neighbor links,
/// each link is either -1 (edge of board) or a valid cell index, and any tree
/// on it is well formed.
pub open spec fn wf_cell(c: Cell) -> bool {
    &&& 0 <= c.richness <= 3
    &&& c.neighbors@.len() == 6
    &&& forall|d: int| 0 <= d < 6 ==> -1 <= #[trigger] c.neighbors@[d] < 37
    &&& (c.tree matches Some(t) ==> wf_tree(t))
}

/// The forest holds exactly 37 well-formed cells.
pub open spec fn wf_forest(f: Seq<Cell>) -> bool {
    &&& f.len() == 37
    &&& forall|i: int| 0 <= i < 37 ==> wf_cell(f[i])
}

/// A well-formed snapshot: well-formed forest and a day in 0..=23 (the game
/// lasts 24 days).
pub open spec fn wf_game(g: Game) -> bool {
    &&& wf_forest(g.forest@)
    &&& 0 <= g.day <= 23
}

/// Number of cells of `f` among the first `n` that carry one of my trees.
pub open spec fn spec_count_mine(f: Seq<Cell>, n: int) -> int
    decreases n,
{
    if n <= 0 {
        0
    } else {
        spec_count_mine(f, n - 1)
            + (if f[n - 1].tree matches Some(t) && t.is_mine { 1int } else { 0int })
    }
}

/// Number of cells of `f` among the first `n` that carry one of my trees of
/// exactly the given size.
pub open spec fn spec_count_mine_of_size(f: Seq<Cell>, size: int, n: int) -> int
    decreases n,
{
    if n <= 0 {
        0
    } else {
        spec_count_mine_of_size(f, size, n - 1)
            + (if f[n - 1].tree matches Some(t) && t.is_mine && t.size == size {
                1int
            } else {
                0int
            })
    }
}

/// How many trees on the board are mine.
pub fn get_my_number_of_tree(game: &Game) -> (n: i32)
    requires
        wf_game(*game),
    ensures
        n as int == spec_count_mine(game.forest@, 37),
        0 <= n <= 37,
{
    let mut count: i32 = 0;
    let mut i: usize = 0;
    while i < 37
        invariant
            i <= 37,
            0 <= count <= i,
            count as int == spec_count_mine(game.forest@, i as int),
        decreases 37 - i,
    {
        match game.forest[i].tree {
            Some(tree) => {
                if tree.is_mine {
                    count = count + 1;
                }
            },
            None => {},
        }
        i = i + 1;
    }
    count
}

/// How many trees on the board are mine and have exactly the given size.
pub fn get_my_number_of_tree_of_size(size: i32, game: &Game) -> (n: i32)
    requires
        wf_game(*game),
    ensures
        n as int == spec_count_mine_of_size(game.forest@, size as int, 37),
        0 <= n <= 37,
{
    let mut count: i32 = 0;
    let mut i: usize = 0;
    while i < 37
        invariant
            i <= 37,
            0 <= count <= i,
            count as int == spec_count_mine_of_size(game.forest@, size as int, i as int),
        decreases 37 - i,
    {
        match game.forest[i].tree {
            Some(tree) => {
                if tree.is_mine && tree.size == size {
                    count = count + 1;
                }
            },
            None => {},
        }
        i = i + 1;
    }
    count
}

} // verus!
