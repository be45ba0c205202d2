//! Movement engine model: the toroidal destination arithmetic, the one-step
//! transition with push resolution, the state well-formedness invariant, and
//! the laws the transition obeys.

use vstd::prelude::*;

use crate::grid::{
    grid_sized, in_bounds, kind_at, lemma_place, place, rectangular, Board, BoardView, CellType,
    Pos,
};

verus! {

/// A single-step movement direction. On screen, North is up (row 0 is the top
/// row) and East is to the right.
#[derive(Clone, Copy, PartialEq, Eq, Structural, Debug)]
pub enum Direction {
    North,
    East,
    South,
    West,
}

/// The two entities subject to directional movement.
#[derive(Clone, Copy, PartialEq, Eq, Structural, Debug)]
pub enum Occupant {
    Player,
    Crate,
}

/// What one requested step came to.
#[derive(Clone, Copy, PartialEq, Eq, Structural, Debug)]
pub enum MoveOutcome {
    Blocked,
    Moved,
    MovedAndLevelComplete,
}

/// The level state the movement engine acts on: the board plus the player
/// coordinate and the transient completion flag.
pub struct LevelState {
    pub board: BoardView,
    pub player: Pos,
    pub completed: bool,
}

impl Direction {
    /// The glyph a player types for this direction.
    pub open spec fn spec_glyph(self) -> char {
        match self {
            Direction::North => 'w',
            Direction::East => 'd',
            Direction::South => 's',
            Direction::West => 'a',
        }
    }

    /// The glyph a player types for this direction.
    pub fn glyph(&self) -> (c: char)
        ensures
            c == self.spec_glyph(),
    {
        match self {
            Direction::North => 'w',
            Direction::East => 'd',
            Direction::South => 's',
            Direction::West => 'a',
        }
    }

    /// The direction that undoes this one.
    pub open spec fn opposite(self) -> Direction {
        match self {
            Direction::North => Direction::South,
            Direction::East => Direction::West,
            Direction::South => Direction::North,
            Direction::West => Direction::East,
        }
    }
}

/// The direction a glyph denotes, if any.
pub open spec fn glyph_direction(c: char) -> Option<Direction> {
    if c == 'w' {
        Some(Direction::North)
    } else if c == 'd' {
        Some(Direction::East)
    } else if c == 's' {
        Some(Direction::South)
    } else if c == 'a' {
        Some(Direction::West)
    } else {
        None
    }
}

/// The direction a glyph denotes, if any.
pub fn parse_direction(c: char) -> (d: Option<Direction>)
    ensures
        d == glyph_direction(c),
{
    if c == 'w' {
        Some(Direction::North)
    } else if c == 'd' {
        Some(Direction::East)
    } else if c == 's' {
        Some(Direction::South)
    } else if c == 'a' {
        Some(Direction::West)
    } else {
        None
    }
}

/// The input scheme is internally consistent: one glyph per direction, and
/// each mapped glyph names exactly its direction.
pub proof fn lemma_direction_glyphs_bijective()
    ensures
        forall|d: Direction| glyph_direction(#[trigger] d.spec_glyph()) == Some(d),
        forall|c: char|
            (#[trigger] glyph_direction(c)) is Some ==> glyph_direction(
                c,
            ).unwrap().spec_glyph() == c,
{
}

/// The cell kind an occupant writes where it stands.
pub open spec fn occupant_kind(o: Occupant) -> CellType {
    match o {
        Occupant::Player => CellType::Player,
        Occupant::Crate => CellType::Crate,
    }
}

/// The occupant that is not `o`.
pub open spec fn other_occupant(o: Occupant) -> Occupant {
    match o {
        Occupant::Player => Occupant::Crate,
        Occupant::Crate => Occupant::Player,
    }
}

/// The coordinate of `o` in `s`.
pub open spec fn pos_of(s: LevelState, o: Occupant) -> Pos {
    match o {
        Occupant::Player => s.player,
        Occupant::Crate => s.board.crate_pos,
    }
}

/// One step from `p` with toroidal wrap: past the top edge re-enter at the
/// bottom of the same column, past a row's right edge re-enter at that row's
/// left, and symmetrically. Vertical wrap uses the grid height, horizontal
/// wrap the length of the occupant's own row, both as they stand at the time
/// of the call.
pub open spec fn spec_dest(grid: Seq<Seq<CellType>>, p: Pos, d: Direction) -> Pos {
    match d {
        Direction::North => Pos {
            x: p.x,
            y: if p.y == 0 {
                (grid.len() - 1) as usize
            } else {
                (p.y - 1) as usize
            },
        },
        Direction::South => Pos {
            x: p.x,
            y: if p.y as int == grid.len() - 1 {
                0usize
            } else {
                (p.y + 1) as usize
            },
        },
        Direction::East => Pos {
            x: if p.x as int == grid[p.y as int].len() - 1 {
                0usize
            } else {
                (p.x + 1) as usize
            },
            y: p.y,
        },
        Direction::West => Pos {
            x: if p.x == 0 {
                (grid[p.y as int].len() - 1) as usize
            } else {
                (p.x - 1) as usize
            },
            y: p.y,
        },
    }
}

/// Well-formedness of a level state, established by the loader and preserved
/// by every step:
/// - the grid is non-empty and rectangular, and the three tracked coordinates
///   index into it;
/// - the player's kind marks exactly the player's coordinate, and the crate's
///   kind exactly the crate's coordinate;
/// - the goal coordinate shows `Goal` exactly while neither occupant stands
///   on it, and no other cell ever does.
pub open spec fn state_wf(s: LevelState) -> bool {
    let g = s.board.grid;
    &&& g.len() > 0
    &&& g[0].len() > 0
    &&& rectangular(g)
    &&& grid_sized(g)
    &&& in_bounds(g, s.player)
    &&& in_bounds(g, s.board.crate_pos)
    &&& in_bounds(g, s.board.goal)
    &&& forall|p: Pos| in_bounds(g, p) ==> ((#[trigger] kind_at(g, p)) is Player <==> p == s.player)
    &&& forall|p: Pos|
        in_bounds(g, p) ==> ((#[trigger] kind_at(g, p)) is Crate <==> p == s.board.crate_pos)
    &&& forall|p: Pos|
        in_bounds(g, p) ==> ((#[trigger] kind_at(g, p)) is Goal <==> (p == s.board.goal
            && s.board.goal != s.board.crate_pos && s.board.goal != s.player))
}

/// The kind an occupant's origin cell reverts to when vacated: the goal cell
/// is restored to `Goal`, every other cell to `Floor`.
pub open spec fn restore_kind(goal: Pos, from: Pos) -> CellType {
    if from == goal {
        CellType::Goal
    } else {
        CellType::Floor
    }
}

/// The state after occupant `o` steps from `from` to `to`: the origin reverts
/// to `Goal` or `Floor`, the destination takes the occupant's kind, and the
/// occupant's tracked coordinate follows.
pub open spec fn move_occupant(s: LevelState, o: Occupant, from: Pos, to: Pos) -> LevelState {
    let g1 = place(s.board.grid, from, restore_kind(s.board.goal, from));
    let g2 = place(g1, to, occupant_kind(o));
    LevelState {
        board: BoardView {
            grid: g2,
            goal: s.board.goal,
            crate_pos: if o is Crate {
                to
            } else {
                s.board.crate_pos
            },
        },
        player: if o is Player {
            to
        } else {
            s.player
        },
        completed: s.completed,
    }
}

/// Rank for the push recursion: a player step may push the crate once, a
/// crate step pushes nothing further.
pub open spec fn occupant_rank(o: Occupant) -> nat {
    match o {
        Occupant::Player => 1nat,
        Occupant::Crate => 0nat,
    }
}

/// One requested step of `o` towards `d`: the level transition.
///
/// The destination is the wrapped neighbour cell; what stands there decides:
/// - `Wall` blocks, and nothing changes;
/// - `Crate` is pushed when the player moves in: the crate steps first, and
///   if it completed the level the player stays put, if it moved the player
///   takes its vacated cell, and if it was blocked so is the player;
/// - `Goal` entered by the crate completes the level; entered by the player
///   it is plain floor;
/// - `Floor` is simply entered;
/// - a cell holding an occupant that cannot be pushed blocks.
pub open spec fn step(s: LevelState, o: Occupant, d: Direction) -> (LevelState, MoveOutcome)
    decreases occupant_rank(o),
{
    let from = pos_of(s, o);
    let to = spec_dest(s.board.grid, from, d);
    match kind_at(s.board.grid, to) {
        CellType::Wall => (s, MoveOutcome::Blocked),
        CellType::Crate => if o is Player {
            let (s2, r2) = step(s, Occupant::Crate, d);
            if r2 is MovedAndLevelComplete {
                (s2, MoveOutcome::MovedAndLevelComplete)
            } else if r2 is Moved {
                (move_occupant(s2, Occupant::Player, from, to), MoveOutcome::Moved)
            } else {
                (s, MoveOutcome::Blocked)
            }
        } else {
            (s, MoveOutcome::Blocked)
        },
        CellType::Goal => if o is Crate {
            let s2 = move_occupant(s, Occupant::Crate, from, to);
            (
                LevelState { board: s2.board, player: s2.player, completed: true },
                MoveOutcome::MovedAndLevelComplete,
            )
        } else {
            (move_occupant(s, Occupant::Player, from, to), MoveOutcome::Moved)
        },
        CellType::Floor => (move_occupant(s, o, from, to), MoveOutcome::Moved),
        CellType::Player => (s, MoveOutcome::Blocked),
    }
}

/// Computes the wrapped destination one step from `p`, as `spec_dest` has it.
pub fn dest_of(board: &Board, p: Pos, d: Direction) -> (q: Pos)
    requires
        board@.grid.len() > 0,
        in_bounds(board@.grid, p),
    ensures
        q == spec_dest(board@.grid, p, d),
{
    match d {
        Direction::North => {
            let h = board.height();
            if p.y == 0 {
                Pos { x: p.x, y: h - 1 }
            } else {
                Pos { x: p.x, y: p.y - 1 }
            }
        },
        Direction::South => {
            let h = board.height();
            if p.y == h - 1 {
                Pos { x: p.x, y: 0 }
            } else {
                Pos { x: p.x, y: p.y + 1 }
            }
        },
        Direction::East => {
            let w = board.row_len(p.y);
            if p.x == w - 1 {
                Pos { x: 0, y: p.y }
            } else {
                Pos { x: p.x + 1, y: p.y }
            }
        },
        Direction::West => {
            let w = board.row_len(p.y);
            if p.x == 0 {
                Pos { x: w - 1, y: p.y }
            } else {
                Pos { x: p.x - 1, y: p.y }
            }
        },
    }
}

/// In a non-empty rectangular grid, the wrapped destination of an in-bounds
/// coordinate is in bounds again.
pub proof fn lemma_dest_in_bounds(grid: Seq<Seq<CellType>>, p: Pos, d: Direction)
    requires
        grid.len() > 0,
        rectangular(grid),
        in_bounds(grid, p),
    ensures
        in_bounds(grid, spec_dest(grid, p, d)),
{
    let q = spec_dest(grid, p, d);
    assert(grid[p.y as int].len() == grid[0].len());
    assert(grid[q.y as int].len() == grid[0].len());
}

/// One step from a well-formed state lands in a well-formed state again; the
/// goal coordinate and the grid extents never change, the completion flag is
/// raised exactly by a completing step, and a blocked step changes nothing.
pub proof fn lemma_step_preserves_wf(s: LevelState, o: Occupant, d: Direction)
    requires
        state_wf(s),
    ensures
        ({
            let (s2, r) = step(s, o, d);
            &&& state_wf(s2)
            &&& s2.board.goal == s.board.goal
            &&& s2.board.grid.len() == s.board.grid.len()
            &&& forall|row: int|
                0 <= row < s.board.grid.len() ==> #[trigger] s2.board.grid[row].len()
                    == s.board.grid[row].len()
            &&& s2.completed == (s.completed || r is MovedAndLevelComplete)
            &&& r is Blocked ==> s2 == s
        }),
    decreases occupant_rank(o),
{
    let g = s.board.grid;
    let from = pos_of(s, o);
    let to = spec_dest(g, from, d);
    lemma_dest_in_bounds(g, from, d);
    match kind_at(g, to) {
        CellType::Wall => {},
        CellType::Crate => {
            if o is Player {
                lemma_step_preserves_wf(s, Occupant::Crate, d);
                let (s2, r2) = step(s, Occupant::Crate, d);
                if r2 is Moved {
                    // The crate stepped onto plain floor, vacating `to` for
                    // the player.
                    let cfrom = s.board.crate_pos;
                    let cto = spec_dest(g, cfrom, d);
                    lemma_dest_in_bounds(g, cfrom, d);
                    lemma_place(g, cfrom, restore_kind(s.board.goal, cfrom));
                    lemma_place(
                        place(g, cfrom, restore_kind(s.board.goal, cfrom)),
                        cto,
                        CellType::Crate,
                    );
                    assert(to == cfrom);
                    assert(kind_at(s2.board.grid, to) is Floor || kind_at(s2.board.grid, to)
                        is Goal);
                    assert(pos_of(s2, Occupant::Player) == from);
                    lemma_move_occupant_wf(s2, Occupant::Player, from, to);
                }
            }
        },
        CellType::Goal => {
            lemma_move_occupant_wf(s, o, from, to);
        },
        CellType::Floor => {
            lemma_move_occupant_wf(s, o, from, to);
        },
        CellType::Player => {},
    }
}

/// Wrap invariant, edge form: an occupant at the top row moving North is sent
/// to the last row of its own column, and symmetrically at every other edge.
pub proof fn lemma_wrap_edges(grid: Seq<Seq<CellType>>, p: Pos)
    requires
        grid.len() > 0,
        grid_sized(grid),
        in_bounds(grid, p),
    ensures
        p.y == 0 ==> spec_dest(grid, p, Direction::North) == (Pos {
            x: p.x,
            y: (grid.len() - 1) as usize,
        }),
        p.y as int == grid.len() - 1 ==> spec_dest(grid, p, Direction::South) == (Pos {
            x: p.x,
            y: 0usize,
        }),
        p.x as int == grid[p.y as int].len() - 1 ==> spec_dest(grid, p, Direction::East) == (Pos {
            x: 0usize,
            y: p.y,
        }),
        p.x == 0 ==> spec_dest(grid, p, Direction::West) == (Pos {
            x: (grid[p.y as int].len() - 1) as usize,
            y: p.y,
        }),
{
}

/// Wrap invariant, round trip: one step followed by one step back returns to
/// the starting coordinate, wrap or no wrap.
pub proof fn lemma_dest_round_trip(grid: Seq<Seq<CellType>>, p: Pos, d: Direction)
    requires
        grid.len() > 0,
        grid_sized(grid),
        in_bounds(grid, p),
    ensures
        spec_dest(grid, spec_dest(grid, p, d), d.opposite()) == p,
{
    let q = spec_dest(grid, p, d);
    let r = spec_dest(grid, q, d.opposite());
    match d {
        Direction::North => {
            assert(r.y == p.y && r.x == p.x);
        },
        Direction::South => {
            assert(r.y == p.y && r.x == p.x);
        },
        Direction::East => {
            assert(grid[q.y as int] == grid[p.y as int]);
            assert(r.y == p.y && r.x == p.x);
        },
        Direction::West => {
            assert(grid[q.y as int] == grid[p.y as int]);
            assert(r.y == p.y && r.x == p.x);
        },
    }
}

/// Destination arithmetic reads only the grid's extents, so it is unchanged
/// by any move.
proof fn lemma_dest_same_dims(
    g1: Seq<Seq<CellType>>,
    g2: Seq<Seq<CellType>>,
    p: Pos,
    d: Direction,
)
    requires
        p.y < g1.len(),
        g1.len() == g2.len(),
        g1[p.y as int].len() == g2[p.y as int].len(),
    ensures
        spec_dest(g1, p, d) == spec_dest(g2, p, d),
{
}

/// Wrap invariant, on states: after a successful step, the step back is never
/// blocked and returns the occupant to its original coordinate.
pub proof fn lemma_move_round_trip(s: LevelState, o: Occupant, d: Direction)
    requires
        state_wf(s),
        step(s, o, d).1 is Moved,
    ensures
        ({
            let s1 = step(s, o, d).0;
            let (s2, r2) = step(s1, o, d.opposite());
            &&& !(r2 is Blocked)
            &&& pos_of(s2, o) == pos_of(s, o)
        }),
{
    let g = s.board.grid;
    let goal = s.board.goal;
    let from = pos_of(s, o);
    let to = spec_dest(g, from, d);
    lemma_dest_in_bounds(g, from, d);
    lemma_step_preserves_wf(s, o, d);
    let s1 = step(s, o, d).0;
    lemma_dest_round_trip(g, from, d);
    lemma_dest_same_dims(g, s1.board.grid, to, d.opposite());
    assert(spec_dest(s1.board.grid, to, d.opposite()) == from);
    match kind_at(g, to) {
        CellType::Crate => {
            // A push: the crate stepped away first, then the player took its
            // vacated cell; the way back across that cell is floor or goal.
            let s2c = step(s, Occupant::Crate, d).0;
            lemma_step_preserves_wf(s, Occupant::Crate, d);
            let cfrom = s.board.crate_pos;
            let cto = spec_dest(g, cfrom, d);
            lemma_dest_in_bounds(g, cfrom, d);
            lemma_move_occupant_wf(s, Occupant::Crate, cfrom, cto);
            assert(pos_of(s2c, Occupant::Player) == from);
            assert(kind_at(s2c.board.grid, to) is Floor || kind_at(s2c.board.grid, to) is Goal);
            lemma_move_occupant_wf(s2c, Occupant::Player, from, to);
            assert(kind_at(s1.board.grid, from) == restore_kind(goal, from));
            assert(pos_of(s1, o) == to);
        },
        CellType::Goal => {
            lemma_move_occupant_wf(s, o, from, to);
            assert(kind_at(s1.board.grid, from) == restore_kind(goal, from));
            assert(pos_of(s1, o) == to);
        },
        CellType::Floor => {
            lemma_move_occupant_wf(s, o, from, to);
            assert(kind_at(s1.board.grid, from) == restore_kind(goal, from));
            assert(pos_of(s1, o) == to);
        },
        _ => {},
    }
}

/// The grid cells of kind `Crate`.
pub open spec fn crate_cells(s: LevelState) -> Set<Pos> {
    Set::new(|p: Pos| in_bounds(s.board.grid, p) && kind_at(s.board.grid, p) is Crate)
}

/// In a well-formed state, exactly one cell holds the crate: the one at the
/// tracked crate coordinate.
pub proof fn lemma_wf_single_crate(s: LevelState)
    requires
        state_wf(s),
    ensures
        crate_cells(s) =~= set![s.board.crate_pos],
{
    assert(in_bounds(s.board.grid, s.board.crate_pos));
    assert(kind_at(s.board.grid, s.board.crate_pos) is Crate);
}

/// The state after a sequence of requested steps, each naming its occupant
/// and direction.
pub open spec fn run_steps(s: LevelState, moves: Seq<(Occupant, Direction)>) -> LevelState
    decreases moves.len(),
{
    if moves.len() == 0 {
        s
    } else {
        run_steps(step(s, moves[0].0, moves[0].1).0, moves.subrange(1, moves.len() as int))
    }
}

/// At most one crate: any sequence of moves started in a well-formed state
/// preserves well-formedness, and with it exactly one cell of kind `Crate`
/// on the grid.
pub proof fn lemma_moves_preserve_single_crate(s: LevelState, moves: Seq<(Occupant, Direction)>)
    requires
        state_wf(s),
    ensures
        state_wf(run_steps(s, moves)),
        crate_cells(run_steps(s, moves)) =~= set![run_steps(s, moves).board.crate_pos],
    decreases moves.len(),
{
    if moves.len() == 0 {
        lemma_wf_single_crate(s);
    } else {
        lemma_step_preserves_wf(s, moves[0].0, moves[0].1);
        lemma_moves_preserve_single_crate(
            step(s, moves[0].0, moves[0].1).0,
            moves.subrange(1, moves.len() as int),
        );
    }
}

/// Goal restoration: when a step leaves neither occupant on the goal
/// coordinate, that coordinate's kind is `Goal` again.
pub proof fn lemma_goal_restored(s: LevelState, o: Occupant, d: Direction)
    requires
        state_wf(s),
        pos_of(s, o) == s.board.goal,
    ensures
        ({
            let s2 = step(s, o, d).0;
            (pos_of(s2, o) != s.board.goal && pos_of(s2, other_occupant(o)) != s.board.goal)
                ==> kind_at(s2.board.grid, s.board.goal) is Goal
        }),
{
    lemma_step_preserves_wf(s, o, d);
}

/// Push blocking: a crate with a wall behind it in the push direction blocks
/// both the crate's own step and the player's push, and nothing changes.
pub proof fn lemma_push_blocked(s: LevelState, d: Direction)
    requires
        state_wf(s),
        kind_at(s.board.grid, spec_dest(s.board.grid, s.player, d)) is Crate,
        kind_at(s.board.grid, spec_dest(s.board.grid, s.board.crate_pos, d)) is Wall,
    ensures
        step(s, Occupant::Player, d) == (s, MoveOutcome::Blocked),
        step(s, Occupant::Crate, d) == (s, MoveOutcome::Blocked),
{
    assert(step(s, Occupant::Crate, d) == (s, MoveOutcome::Blocked));
    reveal_with_fuel(step, 2);
}

/// The state after submitting a sequence of player directions: the steps are
/// applied left to right, and the run stops at the first one that completes
/// the level. The flag says whether one did.
pub open spec fn run_dirs(s: LevelState, dirs: Seq<Direction>) -> (LevelState, bool)
    decreases dirs.len(),
{
    if dirs.len() == 0 {
        (s, false)
    } else {
        let (s1, r) = step(s, Occupant::Player, dirs[0]);
        if r is MovedAndLevelComplete {
            (s1, true)
        } else {
            run_dirs(s1, dirs.subrange(1, dirs.len() as int))
        }
    }
}

/// Unrolling a run from the back: one more direction either falls after a
/// completion, and is ignored, or is one more step.
pub proof fn lemma_run_dirs_snoc(s: LevelState, dirs: Seq<Direction>, d: Direction)
    ensures
        run_dirs(s, dirs.push(d)) == (if run_dirs(s, dirs).1 {
            run_dirs(s, dirs)
        } else {
            let (s1, r) = step(run_dirs(s, dirs).0, Occupant::Player, d);
            (s1, r is MovedAndLevelComplete)
        }),
    decreases dirs.len(),
{
    if dirs.len() == 0 {
        assert(dirs.push(d)[0] == d);
        assert(dirs.push(d).subrange(1, 1) =~= Seq::<Direction>::empty());
        let (s1, r) = step(s, Occupant::Player, d);
        if r is MovedAndLevelComplete {
            assert(run_dirs(s, dirs.push(d)) == (s1, true));
        } else {
            assert(run_dirs(s, dirs.push(d)) == run_dirs(s1, Seq::<Direction>::empty()));
            assert(run_dirs(s1, Seq::<Direction>::empty()) == (s1, false));
        }
    } else {
        assert(dirs.push(d)[0] == dirs[0]);
        let (s1, r) = step(s, Occupant::Player, dirs[0]);
        if r is MovedAndLevelComplete {
            assert(run_dirs(s, dirs) == (s1, true));
            assert(run_dirs(s, dirs.push(d)) == (s1, true));
        } else {
            let sub = dirs.subrange(1, dirs.len() as int);
            assert(dirs.push(d).subrange(1, dirs.len() as int + 1) =~= sub.push(d));
            lemma_run_dirs_snoc(s1, sub, d);
            assert(run_dirs(s, dirs) == run_dirs(s1, sub));
            assert(run_dirs(s, dirs.push(d)) == run_dirs(s1, sub.push(d)));
        }
    }
}

/// Completion stops mutation: once some prefix of the submitted directions
/// completes the level, the characters after that prefix are never applied.
pub proof fn lemma_completion_stops_mutation(
    s: LevelState,
    dirs: Seq<Direction>,
    extra: Seq<Direction>,
)
    requires
        run_dirs(s, dirs).1,
    ensures
        run_dirs(s, dirs + extra) == run_dirs(s, dirs),
    decreases dirs.len(),
{
    if dirs.len() == 0 {
    } else {
        assert((dirs + extra)[0] == dirs[0]);
        let (s1, r) = step(s, Occupant::Player, dirs[0]);
        if !(r is MovedAndLevelComplete) {
            assert((dirs + extra).subrange(1, dirs.len() + extra.len() as int) =~= dirs.subrange(
                1,
                dirs.len() as int,
            ) + extra);
            lemma_completion_stops_mutation(s1, dirs.subrange(1, dirs.len() as int), extra);
        }
    }
}

/// Step 3 of a move keeps well-formedness: writing the occupant at a vacated
/// floor or goal cell and restoring its origin leaves every invariant intact.
proof fn lemma_move_occupant_wf(s: LevelState, o: Occupant, from: Pos, to: Pos)
    requires
        state_wf(s),
        from == pos_of(s, o),
        in_bounds(s.board.grid, to),
        kind_at(s.board.grid, to) is Floor || kind_at(s.board.grid, to) is Goal,
    ensures
        ({
            let s2 = move_occupant(s, o, from, to);
            &&& state_wf(s2)
            &&& s2.board.goal == s.board.goal
            &&& s2.board.grid.len() == s.board.grid.len()
            &&& forall|row: int|
                0 <= row < s.board.grid.len() ==> #[trigger] s2.board.grid[row].len()
                    == s.board.grid[row].len()
            &&& kind_at(s2.board.grid, from) == restore_kind(s.board.goal, from)
            &&& s2.completed == s.completed
        }),
{
    let g = s.board.grid;
    let goal = s.board.goal;
    let g1 = place(g, from, restore_kind(goal, from));
    let g2 = place(g1, to, occupant_kind(o));
    let s2 = move_occupant(s, o, from, to);
    assert(kind_at(g, from) == occupant_kind(o));
    assert(from != to);
    lemma_place(g, from, restore_kind(goal, from));
    lemma_place(g1, to, occupant_kind(o));
    assert forall|p: Pos| in_bounds(g2, p) implies ((#[trigger] kind_at(g2, p)) is Player <==> p
        == s2.player) by {
        assert(in_bounds(g, p));
        assert(kind_at(g1, p) == if p == from {
            restore_kind(goal, from)
        } else {
            kind_at(g, p)
        });
    }
    assert forall|p: Pos| in_bounds(g2, p) implies ((#[trigger] kind_at(g2, p)) is Crate <==> p
        == s2.board.crate_pos) by {
        assert(in_bounds(g, p));
        assert(kind_at(g1, p) == if p == from {
            restore_kind(goal, from)
        } else {
            kind_at(g, p)
        });
    }
    assert forall|p: Pos| in_bounds(g2, p) implies ((#[trigger] kind_at(g2, p)) is Goal <==> (p
        == s2.board.goal && s2.board.goal != s2.board.crate_pos && s2.board.goal != s2.player)) by {
        assert(in_bounds(g, p));
        assert(kind_at(g1, p) == if p == from {
            restore_kind(goal, from)
        } else {
            kind_at(g, p)
        });
    }
    assert(in_bounds(g2, s2.player) && in_bounds(g2, s2.board.crate_pos) && in_bounds(
        g2,
        s2.board.goal,
    ));
    assert(rectangular(g2)) by {
        assert forall|r: int| 0 <= r < g2.len() implies #[trigger] g2[r].len() == g2[0].len() by {
            assert(g2[r].len() == g[r].len());
            assert(g2[0].len() == g[0].len());
        }
    }
}

} // verus!
