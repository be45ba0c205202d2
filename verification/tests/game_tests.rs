use move_the_crate::engine::{parse_direction, Direction, MoveOutcome, Occupant};
use move_the_crate::errors::GameError;
use move_the_crate::game::{Game, SessionOutcome};
use move_the_crate::grid::{CellType, Pos};

fn rows(text: &str) -> Vec<Vec<char>> {
    text.lines().map(|l| l.chars().collect()).collect()
}

fn glyphs(line: &str) -> Vec<char> {
    line.chars().collect()
}

fn rendered(game: &Game) -> String {
    game.render().into_iter().collect()
}

const LEVEL_ONE: &str = "#####\n#P  #\n# C #\n#  G#\n#####\n";

const LEVEL_TWO: &str = "####\n#G #\n#C #\n#P #\n####\n";

#[test]
fn loads_first_level() {
    let game = Game::new(vec![rows(LEVEL_ONE)]).unwrap();
    assert!(!game.is_finished());
    assert_eq!(game.level(), 1);
    assert_eq!(game.score(), 0);
    assert_eq!(game.player_pos(), Pos { x: 1, y: 1 });
    assert_eq!(game.crate_pos(), Pos { x: 2, y: 2 });
    assert_eq!(game.goal_pos(), Pos { x: 3, y: 3 });
}

#[test]
fn renders_level_as_loaded() {
    let game = Game::new(vec![rows(LEVEL_ONE)]).unwrap();
    assert_eq!(rendered(&game), LEVEL_ONE);
}

#[test]
fn empty_supply_is_finished_at_once() {
    let game = Game::new(Vec::new()).unwrap();
    assert!(game.is_finished());
    // The one (exhausting) load attempt still counts.
    assert_eq!(game.level(), 1);
    assert_eq!(game.score(), 0);
}

#[test]
fn rejects_illegal_level_glyph() {
    let err = Game::new(vec![rows("##x##\n#PCG#\n#####\n")]).unwrap_err();
    assert_eq!(err, GameError::InvalidLevelChar { glyph: 'x', row: 0, col: 2 });
}

#[test]
fn reports_first_illegal_glyph_in_scan_order() {
    let err = Game::new(vec![rows("#?###\n#PC!#\n##G##\n")]).unwrap_err();
    assert_eq!(err, GameError::InvalidLevelChar { glyph: '?', row: 0, col: 1 });
}

#[test]
fn rejects_duplicate_player_glyph() {
    let err = Game::new(vec![rows("#PPCG\n#####\n")]).unwrap_err();
    assert_eq!(err, GameError::MalformedLevel);
}

#[test]
fn rejects_ragged_level() {
    let err = Game::new(vec![rows("####\n#PCG#\n####\n")]).unwrap_err();
    assert_eq!(err, GameError::MalformedLevel);
}

#[test]
fn rejects_level_missing_a_crate() {
    let err = Game::new(vec![rows("#P G#\n#####\n")]).unwrap_err();
    assert_eq!(err, GameError::MalformedLevel);
}

#[test]
fn direction_glyphs_map_one_to_one() {
    assert_eq!(parse_direction('w'), Some(Direction::North));
    assert_eq!(parse_direction('d'), Some(Direction::East));
    assert_eq!(parse_direction('s'), Some(Direction::South));
    assert_eq!(parse_direction('a'), Some(Direction::West));
    assert_eq!(parse_direction('q'), None);
    assert_eq!(Direction::North.glyph(), 'w');
    assert_eq!(Direction::East.glyph(), 'd');
    assert_eq!(Direction::South.glyph(), 's');
    assert_eq!(Direction::West.glyph(), 'a');
}

#[test]
fn cell_kinds_render_as_their_glyphs() {
    assert_eq!(CellType::Wall.glyph(), '#');
    assert_eq!(CellType::Floor.glyph(), ' ');
    assert_eq!(CellType::Crate.glyph(), 'C');
    assert_eq!(CellType::Player.glyph(), 'P');
    assert_eq!(CellType::Goal.glyph(), 'G');
}

#[test]
fn wrap_round_trip_returns_player_home() {
    // The player sits on the top row; North wraps to the bottom row of the
    // same column, and South from there comes straight back.
    let mut game = Game::new(vec![rows("P G\n   \n C \n")]).unwrap();
    assert_eq!(game.player_pos(), Pos { x: 0, y: 0 });
    assert_eq!(game.submit_move_sequence(&glyphs("w")).unwrap(), SessionOutcome::LevelOpen);
    assert_eq!(game.player_pos(), Pos { x: 0, y: 2 });
    assert_eq!(game.submit_move_sequence(&glyphs("s")).unwrap(), SessionOutcome::LevelOpen);
    assert_eq!(game.player_pos(), Pos { x: 0, y: 0 });
    assert_eq!(rendered(&game), "P G\n   \n C \n");
}

#[test]
fn wall_blocks_player() {
    let mut game = Game::new(vec![rows(LEVEL_ONE)]).unwrap();
    let before = rendered(&game);
    assert_eq!(game.submit_move_sequence(&glyphs("w")).unwrap(), SessionOutcome::LevelOpen);
    assert_eq!(game.player_pos(), Pos { x: 1, y: 1 });
    assert_eq!(rendered(&game), before);
}

#[test]
fn crate_against_wall_blocks_the_push() {
    // The crate has the wall right behind it in the push direction: neither
    // the crate nor the player moves.
    let mut game = Game::new(vec![rows("#####\n#PC##\n#  G#\n#####\n")]).unwrap();
    let before = rendered(&game);
    assert_eq!(game.submit_move_sequence(&glyphs("d")).unwrap(), SessionOutcome::LevelOpen);
    assert_eq!(game.player_pos(), Pos { x: 1, y: 1 });
    assert_eq!(game.crate_pos(), Pos { x: 2, y: 1 });
    assert_eq!(rendered(&game), before);
}

#[test]
fn push_moves_crate_and_player() {
    let mut game = Game::new(vec![rows(LEVEL_ONE)]).unwrap();
    // Step East, then push the crate South.
    assert_eq!(game.submit_move_sequence(&glyphs("ds")).unwrap(), SessionOutcome::LevelOpen);
    assert_eq!(game.player_pos(), Pos { x: 2, y: 2 });
    assert_eq!(game.crate_pos(), Pos { x: 2, y: 3 });
    assert_eq!(rendered(&game), "#####\n#   #\n# P #\n# CG#\n#####\n");
}

#[test]
fn vacated_goal_shows_goal_again() {
    let mut game = Game::new(vec![rows(LEVEL_ONE)]).unwrap();
    // The player walks onto the goal cell and off again: the goal glyph is
    // hidden beneath the player and restored when vacated.
    assert_eq!(game.submit_move_sequence(&glyphs("ssdd")).unwrap(), SessionOutcome::LevelOpen);
    assert_eq!(game.player_pos(), game.goal_pos());
    assert_eq!(rendered(&game), "#####\n#   #\n# C #\n#  P#\n#####\n");
    assert_eq!(game.submit_move_sequence(&glyphs("a")).unwrap(), SessionOutcome::LevelOpen);
    assert_eq!(rendered(&game), "#####\n#   #\n# C #\n# PG#\n#####\n");
}

#[test]
fn completing_the_level_rewards_and_finishes() {
    let mut game = Game::new(vec![rows(LEVEL_ONE)]).unwrap();
    let outcome = game.submit_move_sequence(&glyphs("dsasd")).unwrap();
    assert_eq!(outcome, SessionOutcome::Completed { reward: 500 });
    assert_eq!(game.score(), 500);
    // The only level is done, so the supply is exhausted: the session is
    // finished and the final grid shows the crate sitting on the goal cell.
    assert!(game.is_finished());
    assert_eq!(game.crate_pos(), game.goal_pos());
    assert_eq!(rendered(&game), "#####\n#   #\n#   #\n#P C#\n#####\n");
}

#[test]
fn completion_stops_the_rest_of_the_sequence() {
    // The same solution with extra characters after the completing step: they
    // must not be applied, and the completion signal comes exactly once.
    let mut game = Game::new(vec![rows(LEVEL_ONE)]).unwrap();
    let outcome = game.submit_move_sequence(&glyphs("dsasdwwaa")).unwrap();
    assert_eq!(outcome, SessionOutcome::Completed { reward: 500 });
    assert_eq!(game.score(), 500);
    assert_eq!(rendered(&game), "#####\n#   #\n#   #\n#P C#\n#####\n");
    // Further submissions report the terminal state and signal nothing more.
    assert_eq!(game.submit_move_sequence(&glyphs("w")).unwrap(), SessionOutcome::Finished);
    assert_eq!(game.score(), 500);
}

#[test]
fn completion_advances_to_the_next_level() {
    let mut game = Game::new(vec![rows(LEVEL_ONE), rows(LEVEL_TWO)]).unwrap();
    let outcome = game.submit_move_sequence(&glyphs("dsasd")).unwrap();
    assert_eq!(outcome, SessionOutcome::Completed { reward: 500 });
    assert!(!game.is_finished());
    assert_eq!(game.level(), 2);
    assert_eq!(game.score(), 500);
    // The new level replaces grid and coordinates wholesale.
    assert_eq!(rendered(&game), LEVEL_TWO);
    assert_eq!(game.player_pos(), Pos { x: 1, y: 3 });
    assert_eq!(game.crate_pos(), Pos { x: 1, y: 2 });
    assert_eq!(game.goal_pos(), Pos { x: 1, y: 1 });
    // Completing the second level exhausts the supply.
    let outcome = game.submit_move_sequence(&glyphs("w")).unwrap();
    assert_eq!(outcome, SessionOutcome::Completed { reward: 500 });
    assert_eq!(game.score(), 1000);
    assert!(game.is_finished());
}

#[test]
fn score_persists_across_levels() {
    let mut game = Game::new(vec![rows(LEVEL_ONE), rows(LEVEL_ONE)]).unwrap();
    game.submit_move_sequence(&glyphs("dsasd")).unwrap();
    assert_eq!(game.score(), 500);
    assert_eq!(game.level(), 2);
    game.submit_move_sequence(&glyphs("dsasd")).unwrap();
    assert_eq!(game.score(), 1000);
}

#[test]
fn unrecognized_direction_rejects_the_whole_line() {
    let mut game = Game::new(vec![rows(LEVEL_ONE)]).unwrap();
    let before = rendered(&game);
    let err = game.submit_move_sequence(&glyphs("sdqd")).unwrap_err();
    assert_eq!(err, GameError::InvalidDirectionInput { glyph: 'q' });
    // No partial application: the grid is byte for byte what it was.
    assert_eq!(rendered(&game), before);
    assert_eq!(game.player_pos(), Pos { x: 1, y: 1 });
    assert_eq!(game.score(), 0);
}

#[test]
fn finished_session_ignores_input() {
    let mut game = Game::new(vec![rows(LEVEL_ONE)]).unwrap();
    game.submit_move_sequence(&glyphs("dsasd")).unwrap();
    assert!(game.is_finished());
    let after_win = rendered(&game);
    for line in ["w", "a", "s", "d", "q"] {
        let res = game.submit_move_sequence(&glyphs(line));
        assert_eq!(res.unwrap(), SessionOutcome::Finished);
        assert_eq!(rendered(&game), after_win);
    }
    // The load attempt that found the supply exhausted still moved the
    // counter past the only level.
    assert_eq!(game.level(), 2);
    assert_eq!(game.score(), 500);
}

#[test]
fn broken_next_level_surfaces_the_loader_error() {
    // The second level text is malformed; the error shows up when it is
    // loaded, right after the first completion, and the session turns
    // terminal.
    let mut game = Game::new(vec![rows(LEVEL_ONE), rows("#P#\n###\n")]).unwrap();
    let err = game.submit_move_sequence(&glyphs("dsasd")).unwrap_err();
    assert_eq!(err, GameError::MalformedLevel);
    assert!(game.is_finished());
    assert_eq!(game.score(), 500);
}

#[test]
fn crate_wraps_onto_goal() {
    // Pushing East from the last column wraps the crate to column 0 of its
    // row, straight onto the goal.
    let mut game = Game::new(vec![rows("G  PC\n     \n")]).unwrap();
    let outcome = game.submit_move_sequence(&glyphs("d")).unwrap();
    assert_eq!(outcome, SessionOutcome::Completed { reward: 500 });
    assert!(game.is_finished());
    assert_eq!(game.crate_pos(), Pos { x: 0, y: 0 });
}

#[test]
fn attempt_move_reports_the_outcome() {
    let mut game = Game::new(vec![rows(LEVEL_ONE)]).unwrap();
    assert_eq!(game.attempt_move(Occupant::Player, Direction::North), MoveOutcome::Blocked);
    assert_eq!(game.attempt_move(Occupant::Player, Direction::South), MoveOutcome::Moved);
    // Push the crate East by hand, then drive the crate itself onto the goal.
    assert_eq!(game.attempt_move(Occupant::Player, Direction::East), MoveOutcome::Moved);
    assert_eq!(game.player_pos(), Pos { x: 2, y: 2 });
    assert_eq!(game.crate_pos(), Pos { x: 3, y: 2 });
    assert_eq!(
        game.attempt_move(Occupant::Crate, Direction::South),
        MoveOutcome::MovedAndLevelComplete,
    );
    assert_eq!(game.crate_pos(), game.goal_pos());
    // Drive the crate back off the goal: the goal glyph is restored.
    assert_eq!(game.attempt_move(Occupant::Crate, Direction::North), MoveOutcome::Moved);
    assert_eq!(game.crate_pos(), Pos { x: 3, y: 2 });
    assert_eq!(rendered(&game), "#####\n#   #\n# PC#\n#  G#\n#####\n");
}

#[test]
fn empty_input_line_changes_nothing() {
    let mut game = Game::new(vec![rows(LEVEL_ONE)]).unwrap();
    let before = rendered(&game);
    assert_eq!(game.submit_move_sequence(&Vec::new()).unwrap(), SessionOutcome::LevelOpen);
    assert_eq!(rendered(&game), before);
    assert_eq!(game.score(), 0);
}

#[test]
fn exactly_one_crate_cell_throughout() {
    let mut game = Game::new(vec![rows("P G\n   \n C \n")]).unwrap();
    for line in ["w", "ss", "ddww", "aaas", "wdsa"] {
        game.submit_move_sequence(&glyphs(line)).unwrap();
        let crates = rendered(&game).chars().filter(|c| *c == 'C').count();
        assert_eq!(crates, 1);
        let players = rendered(&game).chars().filter(|c| *c == 'P').count();
        assert_eq!(players, 1);
    }
}

#[test]
fn rejects_empty_level_text() {
    let err = Game::new(vec![rows("")]).unwrap_err();
    assert_eq!(err, GameError::MalformedLevel);
}
