//! Level session: holds the active board, the player, the level number and
//! the finished flag, loads levels in order, and applies submitted move
//! sequences through the movement engine.

use vstd::prelude::*;

use crate::engine::{
    dest_of, glyph_direction, lemma_completion_stops_mutation, lemma_dest_in_bounds,
    lemma_run_dirs_snoc, lemma_step_preserves_wf, move_occupant, parse_direction, run_dirs,
    state_wf, step, Direction, LevelState, MoveOutcome, Occupant,
};
use crate::errors::GameError;
use crate::grid::{in_bounds, render_grid, Board, CellType, Pos};
use crate::loader::{
    all_legal, first_illegal_at, glyph_at, lemma_parsed_level_wf, level_ok, parse_level,
    parsed_from, rows_view,
};

verus! {

/// The reward credited for completing a level, a fixed per-level bonus.
pub const LEVEL_REWARD: u64 = 500;

/// The player: current coordinate plus the accumulated score. The score never
/// decreases and persists across levels.
#[derive(Debug)]
pub struct Player {
    pos: Pos,
    score: u128,
}

/// What a session looks like in specifications.
pub struct GameView {
    /// The engine-level state: board, player coordinate, completion flag.
    pub state: LevelState,
    /// The current level number, 1-based, incremented on every load attempt,
    /// the one that exhausts the supply included.
    pub level: int,
    /// The accumulated score.
    pub score: int,
    /// Set once the level supply is exhausted (the normal win) or a level
    /// failed to load; the session is then terminal and nothing mutates.
    pub finished: bool,
    /// The raw texts of the levels, in play order.
    pub levels: Seq<Seq<Seq<char>>>,
}

/// The rows of each level text a vector of level texts holds.
pub open spec fn levels_view(levels: Seq<Vec<Vec<char>>>) -> Seq<Seq<Seq<char>>> {
    levels.map_values(|lv: Vec<Vec<char>>| rows_view(lv@))
}

impl GameView {
    /// The session invariant: while the session is live its engine state is
    /// well-formed and the level number indexes the supply, and the score
    /// never outruns the fixed reward per completed level. The level counter
    /// can pass the supply's length by one (the load attempt that exhausts
    /// it), so the supply must leave that one step of headroom in `usize`.
    pub open spec fn inv(self) -> bool {
        &&& self.levels.len() < usize::MAX
        &&& 0 <= self.level <= self.levels.len() + 1
        &&& !self.finished ==> {
            &&& state_wf(self.state)
            &&& 1 <= self.level <= self.levels.len()
            &&& self.score <= (LEVEL_REWARD as int) * (self.level - 1)
        }
        &&& self.finished ==> self.score <= (LEVEL_REWARD as int) * self.level
    }
}

/// How `load_next_level` changes the session: a finished session stays put;
/// otherwise the level counter moves on — on every load attempt, the one that
/// exhausts the supply included — and either the supply is exhausted, which
/// finishes the session, or the next text parses, replacing board and player
/// wholesale, or it is rejected exactly as the loader rejects it, finishing
/// the session.
pub open spec fn load_transition(pre: GameView, post: GameView, res: Result<(), GameError>) -> bool {
    if pre.finished {
        &&& post == pre
        &&& res is Ok
    } else if pre.level >= pre.levels.len() {
        &&& post == (GameView { finished: true, level: pre.level + 1, ..pre })
        &&& res is Ok
    } else {
        let rows = pre.levels[pre.level];
        &&& post.level == pre.level + 1
        &&& post.score == pre.score
        &&& post.levels == pre.levels
        &&& if level_ok(rows) {
            &&& res is Ok
            &&& post.finished == false
            &&& parsed_from(rows, post.state)
        } else {
            &&& post.finished == true
            &&& post.state == pre.state
            &&& match res {
                Err(GameError::InvalidLevelChar { glyph, row, col }) => {
                    &&& first_illegal_at(rows, Pos { x: col, y: row })
                    &&& glyph_at(rows, Pos { x: col, y: row }) == glyph
                },
                Err(GameError::MalformedLevel) => all_legal(rows) && !level_ok(rows),
                _ => false,
            }
        }
    }
}

/// What one submitted move sequence came to, seen from the session.
#[derive(Clone, Copy, PartialEq, Eq, Structural, Debug)]
pub enum SessionOutcome {
    /// The moves were applied and the level is still open for further tries.
    LevelOpen,
    /// A move completed the level: the reward was credited and the next level
    /// was requested.
    Completed { reward: u64 },
    /// The session is terminal; nothing was applied.
    Finished,
}

/// Every glyph of the input names a direction.
pub open spec fn valid_input(input: Seq<char>) -> bool {
    forall|i: int| 0 <= i < input.len() ==> (#[trigger] glyph_direction(input[i])) is Some
}

/// The directions a valid input spells.
pub open spec fn dirs_of(input: Seq<char>) -> Seq<Direction> {
    Seq::new(input.len(), |i: int| glyph_direction(input[i]).unwrap())
}

/// Position `i` holds the first glyph of the input that names no direction.
pub open spec fn first_invalid_at(input: Seq<char>, i: int) -> bool {
    &&& 0 <= i < input.len()
    &&& glyph_direction(input[i]) is None
    &&& forall|j: int| 0 <= j < i ==> (#[trigger] glyph_direction(input[j])) is Some
}

/// How `submit_move_sequence` changes the session. A terminal session ignores
/// the input; a line with an unrecognized glyph is rejected whole, before any
/// movement; otherwise the directions run left to right, stopping at the
/// first completing step, and a completion credits the fixed reward, consumes
/// the completion flag and loads the next level.
pub open spec fn submit_transition(
    pre: GameView,
    post: GameView,
    input: Seq<char>,
    res: Result<SessionOutcome, GameError>,
) -> bool {
    if pre.finished {
        &&& post == pre
        &&& res == Ok::<SessionOutcome, GameError>(SessionOutcome::Finished)
    } else if !valid_input(input) {
        &&& post == pre
        &&& match res {
            Err(GameError::InvalidDirectionInput { glyph }) => exists|i: int|
                #[trigger] first_invalid_at(input, i) && input[i] == glyph,
            _ => false,
        }
    } else {
        let (s2, completed) = run_dirs(pre.state, dirs_of(input));
        if !completed {
            &&& post == (GameView { state: s2, ..pre })
            &&& res == Ok::<SessionOutcome, GameError>(SessionOutcome::LevelOpen)
        } else {
            let mid = GameView {
                state: LevelState { completed: false, ..s2 },
                score: pre.score + LEVEL_REWARD as int,
                ..pre
            };
            match res {
                Ok(SessionOutcome::Completed { reward }) => reward == LEVEL_REWARD
                    && load_transition(mid, post, Ok(())),
                Err(e) => load_transition(mid, post, Err(e)),
                _ => false,
            }
        }
    }
}

/// The level session.
#[derive(Debug)]
pub struct Game {
    board: Board,
    level: usize,
    player: Player,
    finished: bool,
    level_completed: bool,
    levels: Vec<Vec<Vec<char>>>,
}

impl View for Game {
    type V = GameView;

    closed spec fn view(&self) -> GameView {
        GameView {
            state: LevelState {
                board: self.board@,
                player: self.player.pos,
                completed: self.level_completed,
            },
            level: self.level as int,
            score: self.player.score as int,
            finished: self.finished,
            levels: levels_view(self.levels@),
        }
    }
}

impl Game {
    /// Builds a session over the given level texts and loads the first one.
    ///
    /// An empty supply makes an immediately finished session (its one load
    /// attempt still counts, so the level number is 1); a first level that
    /// does not parse is a startup failure and is returned as the loader's
    /// error. The supply must leave one step of headroom in `usize` for the
    /// level counter, which passes the supply's length by one when it runs
    /// out.
    pub fn new(levels: Vec<Vec<Vec<char>>>) -> (res: Result<Game, GameError>)
        requires
            levels@.len() < usize::MAX,
        ensures
            ({
                let lv = levels_view(levels@);
                &&& (res is Ok <==> (lv.len() == 0 || level_ok(lv[0])))
                &&& match res {
                    Ok(g) => {
                        &&& g@.inv()
                        &&& g@.levels == lv
                        &&& g@.score == 0
                        &&& if lv.len() == 0 {
                            g@.finished == true && g@.level == 1
                        } else {
                            &&& g@.finished == false
                            &&& g@.level == 1
                            &&& parsed_from(lv[0], g@.state)
                            &&& state_wf(g@.state)
                        }
                    },
                    Err(GameError::InvalidLevelChar { glyph, row, col }) => {
                        &&& lv.len() > 0
                        &&& first_illegal_at(lv[0], Pos { x: col, y: row })
                        &&& glyph_at(lv[0], Pos { x: col, y: row }) == glyph
                    },
                    Err(GameError::MalformedLevel) => lv.len() > 0 && all_legal(lv[0])
                        && !level_ok(lv[0]),
                    Err(GameError::InvalidDirectionInput { .. }) => false,
                }
            }),
    {
        let mut game = Game {
            board: Board::assemble(Vec::new(), Pos::from(0, 0), Pos::from(0, 0)),
            level: 0,
            player: Player { pos: Pos::from(1, 1), score: 0 },
            finished: false,
            level_completed: false,
            levels,
        };
        match game.load_next_level() {
            Ok(()) => Ok(game),
            Err(e) => Err(e),
        }
    }

    /// Increments the level counter — on every load attempt, a failing one
    /// included — and loads the next level text, replacing the board, the
    /// player coordinate and the goal and crate coordinates wholesale. An
    /// exhausted supply finishes the session and is no error; a text the
    /// loader rejects finishes the session and surfaces the loader's error.
    pub fn load_next_level(&mut self) -> (res: Result<(), GameError>)
        requires
            old(self)@.levels.len() < usize::MAX,
            old(self)@.level <= old(self)@.levels.len() + 1,
            old(self)@.finished || old(self)@.level <= old(self)@.levels.len(),
            old(self)@.score <= (LEVEL_REWARD as int) * old(self)@.level,
        ensures
            load_transition(old(self)@, final(self)@, res),
            !final(self)@.finished ==> state_wf(final(self)@.state),
            final(self)@.level <= final(self)@.levels.len() + 1,
            final(self)@.score <= (LEVEL_REWARD as int) * final(self)@.level,
    {
        if self.finished {
            return Ok(());
        }
        let idx = self.level;
        self.level = self.level + 1;
        if idx >= self.levels.len() {
            self.finished = true;
            proof {
                assert(self@ == (GameView {
                    finished: true,
                    level: old(self)@.level + 1,
                    ..old(self)@
                }));
            }
            return Ok(());
        }
        let ghost rows = old(self)@.levels[old(self)@.level];
        proof {
            assert(rows == rows_view(self.levels@[idx as int]@));
        }
        match parse_level(&self.levels[idx]) {
            Ok((b, p)) => {
                self.board = b;
                self.player.pos = p;
                self.level_completed = false;
                proof {
                    assert(parsed_from(rows, self@.state));
                    self.board.lemma_view_sized();
                    lemma_parsed_level_wf(rows, self@.state);
                }
                Ok(())
            },
            Err(e) => {
                self.finished = true;
                Err(e)
            },
        }
    }

    /// Resolves one requested step of an occupant, as the engine's `step`
    /// transition has it: a no-op when blocked, a simple move, or a cascading
    /// push, with toroidal wrap at the grid edges; a crate entering the goal
    /// completes the level. Only the engine state moves: level number, score,
    /// finished flag and level supply stay put.
    pub fn attempt_move(&mut self, occupant: Occupant, dir: Direction) -> (r: MoveOutcome)
        requires
            state_wf(old(self)@.state),
        ensures
            ({
                let (s2, r2) = step(old(self)@.state, occupant, dir);
                &&& final(self)@.state == s2
                &&& r == r2
            }),
            final(self)@.level == old(self)@.level,
            final(self)@.score == old(self)@.score,
            final(self)@.finished == old(self)@.finished,
            final(self)@.levels == old(self)@.levels,
        decreases crate::engine::occupant_rank(occupant),
    {
        let from = match occupant {
            Occupant::Player => self.player.pos,
            Occupant::Crate => self.board.crate_pos(),
        };
        let to = dest_of(&self.board, from, dir);
        proof {
            lemma_dest_in_bounds(self@.state.board.grid, from, dir);
        }
        match self.board.cell_at(to) {
            CellType::Wall => MoveOutcome::Blocked,
            CellType::Crate => {
                match occupant {
                    Occupant::Player => {
                        let r2 = self.attempt_move(Occupant::Crate, dir);
                        proof {
                            lemma_step_preserves_wf(old(self)@.state, Occupant::Crate, dir);
                        }
                        match r2 {
                            MoveOutcome::MovedAndLevelComplete => {
                                MoveOutcome::MovedAndLevelComplete
                            },
                            MoveOutcome::Moved => {
                                self.apply_move(occupant, from, to);
                                MoveOutcome::Moved
                            },
                            MoveOutcome::Blocked => MoveOutcome::Blocked,
                        }
                    },
                    Occupant::Crate => MoveOutcome::Blocked,
                }
            },
            CellType::Goal => {
                match occupant {
                    Occupant::Crate => {
                        self.apply_move(occupant, from, to);
                        self.level_completed = true;
                        MoveOutcome::MovedAndLevelComplete
                    },
                    Occupant::Player => {
                        self.apply_move(occupant, from, to);
                        MoveOutcome::Moved
                    },
                }
            },
            CellType::Floor => {
                self.apply_move(occupant, from, to);
                MoveOutcome::Moved
            },
            CellType::Player => MoveOutcome::Blocked,
        }
    }

    /// Step 3 of a move: write the occupant at the destination, restore its
    /// origin to goal or floor, and update its tracked coordinate.
    fn apply_move(&mut self, occupant: Occupant, from: Pos, to: Pos)
        requires
            in_bounds(old(self)@.state.board.grid, from),
            in_bounds(old(self)@.state.board.grid, to),
        ensures
            final(self)@.state == move_occupant(old(self)@.state, occupant, from, to),
            final(self)@.level == old(self)@.level,
            final(self)@.score == old(self)@.score,
            final(self)@.finished == old(self)@.finished,
            final(self)@.levels == old(self)@.levels,
    {
        let goal = self.board.goal_pos();
        let restore = if from == goal {
            CellType::Goal
        } else {
            CellType::Floor
        };
        self.board.set_cell(from, restore);
        proof {
            crate::grid::lemma_place(old(self)@.state.board.grid, from, restore);
        }
        let kind = match occupant {
            Occupant::Player => CellType::Player,
            Occupant::Crate => CellType::Crate,
        };
        self.board.set_cell(to, kind);
        match occupant {
            Occupant::Player => {
                self.player.pos = to;
            },
            Occupant::Crate => {
                self.board.set_crate_pos(to);
            },
        }
    }

    /// Applies a submitted line of direction glyphs against the player, one
    /// single step each, left to right.
    ///
    /// The whole line is validated first: one unrecognized glyph rejects it
    /// before any movement. The first step that completes the level stops the
    /// run, credits the fixed reward and loads the next level; a terminal
    /// session ignores the input altogether.
    pub fn submit_move_sequence(&mut self, input: &Vec<char>) -> (res: Result<
        SessionOutcome,
        GameError,
    >)
        requires
            old(self)@.inv(),
        ensures
            final(self)@.inv(),
            submit_transition(old(self)@, final(self)@, input@, res),
    {
        if self.finished {
            return Ok(SessionOutcome::Finished);
        }
        // Validate the whole line before any movement.
        let mut dirs: Vec<Direction> = Vec::new();
        let mut i: usize = 0;
        while i < input.len()
            invariant
                i <= input@.len(),
                dirs@.len() == i,
                forall|j: int|
                    0 <= j < i ==> #[trigger] glyph_direction(input@[j]) == Some(dirs@[j]),
                old(self)@.inv(),
                !old(self)@.finished,
                self@ == old(self)@,
            decreases input@.len() - i,
        {
            let c = input[i];
            match parse_direction(c) {
                Some(d) => {
                    dirs.push(d);
                },
                None => {
                    proof {
                        assert(first_invalid_at(input@, i as int));
                        assert(!valid_input(input@));
                    }
                    return Err(GameError::InvalidDirectionInput { glyph: c });
                },
            }
            i = i + 1;
        }
        proof {
            assert(valid_input(input@));
            assert forall|j: int| 0 <= j < dirs@.len() implies dirs@[j] == dirs_of(input@)[j] by {
                assert(glyph_direction(input@[j]) == Some(dirs@[j]));
            }
            assert(dirs@ =~= dirs_of(input@));
        }
        // Apply the steps, stopping at the first completing one.
        let ghost ds = dirs_of(input@);
        let n = dirs.len();
        let mut j: usize = 0;
        while j < n
            invariant
                j <= n,
                n == dirs@.len(),
                dirs@ == ds,
                ds == dirs_of(input@),
                valid_input(input@),
                old(self)@.inv(),
                !old(self)@.finished,
                run_dirs(old(self)@.state, ds.take(j as int)) == (self@.state, false),
                state_wf(self@.state),
                self@.level == old(self)@.level,
                self@.score == old(self)@.score,
                self@.finished == old(self)@.finished,
                self@.levels == old(self)@.levels,
            decreases n - j,
        {
            let ghost s_j = self@.state;
            let d = dirs[j];
            let r = self.attempt_move(Occupant::Player, d);
            proof {
                lemma_step_preserves_wf(s_j, Occupant::Player, ds[j as int]);
                assert(ds.take(j as int + 1) =~= ds.take(j as int).push(ds[j as int]));
                lemma_run_dirs_snoc(old(self)@.state, ds.take(j as int), ds[j as int]);
            }
            j = j + 1;
            if matches!(r, MoveOutcome::MovedAndLevelComplete) {
                proof {
                    assert(run_dirs(old(self)@.state, ds.take(j as int)) == (self@.state, true));
                    lemma_completion_stops_mutation(
                        old(self)@.state,
                        ds.take(j as int),
                        ds.subrange(j as int, ds.len() as int),
                    );
                    assert(ds.take(j as int) + ds.subrange(j as int, ds.len() as int) =~= ds);
                    assert(run_dirs(old(self)@.state, ds) == (self@.state, true));
                }
                let ghost s2 = self@.state;
                // Consume the transient completion flag and credit the fixed
                // per-level reward.
                self.level_completed = false;
                self.player.score = self.player.score + LEVEL_REWARD as u128;
                let ghost mid = GameView {
                    state: LevelState { completed: false, ..s2 },
                    score: old(self)@.score + LEVEL_REWARD as int,
                    ..old(self)@
                };
                proof {
                    assert(self@ == mid);
                }
                let r2 = self.load_next_level();
                match r2 {
                    Ok(()) => {
                        return Ok(SessionOutcome::Completed { reward: LEVEL_REWARD });
                    },
                    Err(e) => {
                        return Err(e);
                    },
                }
            }
        }
        proof {
            assert(ds.take(n as int) =~= ds);
            assert(self@ == (GameView { state: self@.state, ..old(self)@ }));
        }
        Ok(SessionOutcome::LevelOpen)
    }

    /// The current level number: 1-based, moved on by every load attempt, so
    /// it stands one past the supply once the supply is exhausted.
    pub fn level(&self) -> (l: usize)
        ensures
            l as int == self@.level,
    {
        self.level
    }

    /// The accumulated score.
    pub fn score(&self) -> (s: u128)
        ensures
            s as int == self@.score,
    {
        self.player.score
    }

    /// Whether the session is terminal: the level supply ran out (the win) or
    /// a level failed to load.
    pub fn is_finished(&self) -> (f: bool)
        ensures
            f == self@.finished,
    {
        self.finished
    }

    /// The player's coordinate.
    pub fn player_pos(&self) -> (p: Pos)
        ensures
            p == self@.state.player,
    {
        self.player.pos
    }

    /// The crate's coordinate.
    pub fn crate_pos(&self) -> (p: Pos)
        ensures
            p == self@.state.board.crate_pos,
    {
        self.board.crate_pos()
    }

    /// The goal coordinate.
    pub fn goal_pos(&self) -> (p: Pos)
        ensures
            p == self@.state.board.goal,
    {
        self.board.goal_pos()
    }

    /// The current grid serialized as rows of glyphs, one newline after each
    /// row, for direct or colorized display.
    pub fn render(&self) -> (out: Vec<char>)
        ensures
            out@ == render_grid(self@.state.board.grid),
    {
        self.board.render()
    }
}

} // verus!
