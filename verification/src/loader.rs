//! Level loader: turns raw level text, already split into rows of glyphs,
//! into a populated board with the discovered player, crate and goal
//! coordinates, validating glyph legality and level shape.

use vstd::prelude::*;

use crate::engine::LevelState;
use crate::errors::GameError;
use crate::grid::{legal_glyph, spec_kind_of, Board, Cell, CellType, Pos};

verus! {

/// The rows of glyphs a vector of glyph vectors holds.
pub open spec fn rows_view(rows: Seq<Vec<char>>) -> Seq<Seq<char>> {
    rows.map_values(|r: Vec<char>| r@)
}

/// Whether `p` indexes a glyph of the level text.
pub open spec fn pos_in_rows(rows: Seq<Seq<char>>, p: Pos) -> bool {
    p.y < rows.len() && p.x < rows[p.y as int].len()
}

/// The glyph at `p`.
pub open spec fn glyph_at(rows: Seq<Seq<char>>, p: Pos) -> char {
    rows[p.y as int][p.x as int]
}

/// Every glyph of the text belongs to the level alphabet.
pub open spec fn all_legal(rows: Seq<Seq<char>>) -> bool {
    forall|p: Pos| pos_in_rows(rows, p) ==> legal_glyph(#[trigger] glyph_at(rows, p))
}

/// `q` comes before row `y`, column `x` in row-major scan order: top to
/// bottom, and left to right within a row.
pub open spec fn scanned_before(q: Pos, y: int, x: int) -> bool {
    (q.y as int) < y || (q.y as int == y && (q.x as int) < x)
}

/// `p` carries the first illegal glyph of the text in scan order.
pub open spec fn first_illegal_at(rows: Seq<Seq<char>>, p: Pos) -> bool {
    &&& pos_in_rows(rows, p)
    &&& !legal_glyph(glyph_at(rows, p))
    &&& forall|q: Pos|
        pos_in_rows(rows, q) && scanned_before(q, p.y as int, p.x as int) ==> legal_glyph(
            #[trigger] glyph_at(rows, q),
        )
}

/// The glyph `g` stands at `p` and nowhere else.
pub open spec fn unique_glyph_at(rows: Seq<Seq<char>>, g: char, p: Pos) -> bool {
    &&& pos_in_rows(rows, p)
    &&& glyph_at(rows, p) == g
    &&& forall|q: Pos| pos_in_rows(rows, q) && #[trigger] glyph_at(rows, q) == g ==> q == p
}

/// Every row is as long as the first.
pub open spec fn rows_rectangular(rows: Seq<Seq<char>>) -> bool {
    forall|r: int| 0 <= r < rows.len() ==> #[trigger] rows[r].len() == rows[0].len()
}

/// A well-formed level: legal glyphs only, a non-empty rectangular block, and
/// exactly one player, one crate and one goal glyph.
pub open spec fn level_ok(rows: Seq<Seq<char>>) -> bool {
    &&& all_legal(rows)
    &&& rows.len() > 0
    &&& rows[0].len() > 0
    &&& rows_rectangular(rows)
    &&& exists|p: Pos| unique_glyph_at(rows, 'P', p)
    &&& exists|p: Pos| unique_glyph_at(rows, 'C', p)
    &&& exists|p: Pos| unique_glyph_at(rows, 'G', p)
}

/// The kind `st`'s grid holds at `p` (a trigger head for `parsed_from`).
pub open spec fn kind_at_rows(st: LevelState, p: Pos) -> CellType {
    st.board.grid[p.y as int][p.x as int]
}

/// `st` is the level state the text `rows` describes: the grid maps the
/// glyphs cell for cell, the three coordinates sit at the unique glyphs, and
/// nothing is completed yet.
pub open spec fn parsed_from(rows: Seq<Seq<char>>, st: LevelState) -> bool {
    &&& st.board.grid.len() == rows.len()
    &&& forall|r: int| 0 <= r < rows.len() ==> #[trigger] st.board.grid[r].len() == rows[r].len()
    &&& forall|p: Pos|
        pos_in_rows(rows, p) ==> #[trigger] kind_at_rows(st, p) == spec_kind_of(glyph_at(rows, p))
    &&& unique_glyph_at(rows, 'P', st.player)
    &&& unique_glyph_at(rows, 'C', st.board.crate_pos)
    &&& unique_glyph_at(rows, 'G', st.board.goal)
    &&& st.completed == false
}

/// While scanning, `found` is sound and complete for glyph `g` over the part
/// of the text before row `y`, column `x` in scan order.
spec fn found_inv(rows: Seq<Seq<char>>, g: char, found: Option<Pos>, y: int, x: int) -> bool {
    match found {
        None => forall|q: Pos|
            pos_in_rows(rows, q) && scanned_before(q, y, x) ==> #[trigger] glyph_at(rows, q) != g,
        Some(p) => {
            &&& pos_in_rows(rows, p)
            &&& scanned_before(p, y, x)
            &&& glyph_at(rows, p) == g
            &&& forall|q: Pos|
                pos_in_rows(rows, q) && scanned_before(q, y, x) && #[trigger] glyph_at(rows, q)
                    == g ==> q == p
        },
    }
}

/// Scan order at the end of a row is scan order at the start of the next.
proof fn lemma_row_end_rolls_over(
    rows: Seq<Seq<char>>,
    g: char,
    found: Option<Pos>,
    y: int,
)
    requires
        0 <= y < rows.len(),
        found_inv(rows, g, found, y, rows[y].len() as int),
    ensures
        found_inv(rows, g, found, y + 1, 0),
{
    assert forall|q: Pos| pos_in_rows(rows, q) && scanned_before(q, y + 1, 0) implies scanned_before(
        q,
        y,
        rows[y].len() as int,
    ) by {}
}

/// Once two distinct coordinates carry glyph `g`, no coordinate carries it
/// uniquely.
proof fn lemma_two_places_no_unique(rows: Seq<Seq<char>>, g: char, a: Pos, b: Pos)
    requires
        pos_in_rows(rows, a),
        pos_in_rows(rows, b),
        glyph_at(rows, a) == g,
        glyph_at(rows, b) == g,
        a != b,
    ensures
        !exists|u: Pos| unique_glyph_at(rows, g, u),
{
    assert forall|u: Pos| !unique_glyph_at(rows, g, u) by {
        if unique_glyph_at(rows, g, u) {
            assert(a == u);
            assert(b == u);
        }
    }
}

/// Turns level text into a board plus the player's starting coordinate.
///
/// The text is scanned row-major. The first glyph outside the alphabet, if
/// any, is reported as `InvalidLevelChar` with its coordinates; a text of
/// legal glyphs that is empty, ragged, or without exactly one `P`, one `C`
/// and one `G` is rejected as `MalformedLevel`; anything else parses.
pub fn parse_level(rows: &Vec<Vec<char>>) -> (res: Result<(Board, Pos), GameError>)
    ensures
        ({
            let rs = rows_view(rows@);
            &&& (res is Ok <==> level_ok(rs))
            &&& match res {
                Ok((b, player)) => parsed_from(
                    rs,
                    LevelState { board: b@, player, completed: false },
                ),
                Err(GameError::InvalidLevelChar { glyph, row, col }) => {
                    &&& first_illegal_at(rs, Pos { x: col, y: row })
                    &&& glyph_at(rs, Pos { x: col, y: row }) == glyph
                },
                Err(GameError::MalformedLevel) => all_legal(rs) && !level_ok(rs),
                Err(GameError::InvalidDirectionInput { .. }) => false,
            }
        }),
{
    let ghost rs = rows_view(rows@);
    // First pass: every glyph must belong to the alphabet; report the first
    // offender in scan order.
    let mut y: usize = 0;
    while y < rows.len()
        invariant
            y <= rows.len(),
            rs == rows_view(rows@),
            forall|q: Pos|
                pos_in_rows(rs, q) && scanned_before(q, y as int, 0) ==> legal_glyph(
                    #[trigger] glyph_at(rs, q),
                ),
        decreases rows.len() - y,
    {
        let row = &rows[y];
        let mut x: usize = 0;
        while x < row.len()
            invariant
                x <= row@.len(),
                y < rows.len(),
                rs == rows_view(rows@),
                row@ == rs[y as int],
                forall|q: Pos|
                    pos_in_rows(rs, q) && scanned_before(q, y as int, x as int) ==> legal_glyph(
                        #[trigger] glyph_at(rs, q),
                    ),
            decreases row@.len() - x,
        {
            let c = row[x];
            if !(c == '#' || c == ' ' || c == 'C' || c == 'P' || c == 'G') {
                proof {
                    let p = Pos { x, y };
                    assert(glyph_at(rs, p) == c);
                    assert(!all_legal(rs));
                    assert(first_illegal_at(rs, p));
                }
                return Err(GameError::InvalidLevelChar { glyph: c, row: y, col: x });
            }
            x = x + 1;
        }
        proof {
            assert forall|q: Pos|
                pos_in_rows(rs, q) && scanned_before(q, y as int + 1, 0) implies legal_glyph(
                #[trigger] glyph_at(rs, q),
            ) by {
                assert(scanned_before(q, y as int, x as int) || (q.y == y && q.x < rs[y as int].len()
                    && x as int == rs[y as int].len()));
            }
        }
        y = y + 1;
    }
    proof {
        assert forall|p: Pos| pos_in_rows(rs, p) implies legal_glyph(#[trigger] glyph_at(rs, p)) by {
            assert(scanned_before(p, rows@.len() as int, 0));
        }
        assert(all_legal(rs));
    }
    // Second pass: the shape. Build the cells, record where the three unique
    // glyphs stand, and reject duplicates, ragged rows and empty levels.
    if rows.len() == 0 {
        return Err(GameError::MalformedLevel);
    }
    let width = rows[0].len();
    if width == 0 {
        return Err(GameError::MalformedLevel);
    }
    let mut cells: Vec<Vec<Cell>> = Vec::new();
    let mut player: Option<Pos> = None;
    let mut crate_found: Option<Pos> = None;
    let mut goal_found: Option<Pos> = None;
    let mut y: usize = 0;
    while y < rows.len()
        invariant
            y <= rows.len(),
            rs == rows_view(rows@),
            all_legal(rs),
            rows@.len() > 0,
            width == rs[0].len(),
            width > 0,
            cells@.len() == y,
            forall|r: int| 0 <= r < y ==> #[trigger] rs[r].len() == width,
            forall|r: int| 0 <= r < y ==> #[trigger] cells@[r]@.len() == width,
            forall|r: int, c: int|
                0 <= r < y && 0 <= c < width ==> (#[trigger] cells@[r]@[c]).cell_type
                    == spec_kind_of(rs[r][c]),
            found_inv(rs, 'P', player, y as int, 0),
            found_inv(rs, 'C', crate_found, y as int, 0),
            found_inv(rs, 'G', goal_found, y as int, 0),
        decreases rows.len() - y,
    {
        let row = &rows[y];
        if row.len() != width {
            proof {
                assert(rs[y as int].len() != rs[0].len());
                assert(!rows_rectangular(rs));
            }
            return Err(GameError::MalformedLevel);
        }
        let mut out_row: Vec<Cell> = Vec::new();
        let mut x: usize = 0;
        while x < row.len()
            invariant
                x <= row@.len(),
                y < rows.len(),
                rs == rows_view(rows@),
                all_legal(rs),
                row@ == rs[y as int],
                row@.len() == width,
                out_row@.len() == x,
                forall|c: int|
                    0 <= c < x ==> (#[trigger] out_row@[c]).cell_type == spec_kind_of(
                        rs[y as int][c],
                    ),
                found_inv(rs, 'P', player, y as int, x as int),
                found_inv(rs, 'C', crate_found, y as int, x as int),
                found_inv(rs, 'G', goal_found, y as int, x as int),
            decreases row@.len() - x,
        {
            let c = row[x];
            let kind = if c == '#' {
                CellType::Wall
            } else if c == ' ' {
                CellType::Floor
            } else if c == 'C' {
                CellType::Crate
            } else if c == 'P' {
                CellType::Player
            } else {
                CellType::Goal
            };
            let here = Pos { x, y };
            proof {
                assert(glyph_at(rs, here) == c);
                assert(kind == spec_kind_of(c));
            }
            if c == 'P' {
                if player.is_some() {
                    proof {
                        lemma_two_places_no_unique(rs, 'P', player.unwrap(), here);
                    }
                    return Err(GameError::MalformedLevel);
                }
                player = Some(here);
            } else if c == 'C' {
                if crate_found.is_some() {
                    proof {
                        lemma_two_places_no_unique(rs, 'C', crate_found.unwrap(), here);
                    }
                    return Err(GameError::MalformedLevel);
                }
                crate_found = Some(here);
            } else if c == 'G' {
                if goal_found.is_some() {
                    proof {
                        lemma_two_places_no_unique(rs, 'G', goal_found.unwrap(), here);
                    }
                    return Err(GameError::MalformedLevel);
                }
                goal_found = Some(here);
            }
            out_row.push(Cell::new(kind));
            x = x + 1;
        }
        proof {
            lemma_row_end_rolls_over(rs, 'P', player, y as int);
            lemma_row_end_rolls_over(rs, 'C', crate_found, y as int);
            lemma_row_end_rolls_over(rs, 'G', goal_found, y as int);
        }
        cells.push(out_row);
        y = y + 1;
    }
    proof {
        assert(rows_rectangular(rs)) by {
            assert forall|r: int| 0 <= r < rs.len() implies #[trigger] rs[r].len() == rs[0].len()
                by {}
        }
    }
    match (player, crate_found, goal_found) {
        (Some(pp), Some(cp), Some(gp)) => {
            proof {
                assert(unique_glyph_at(rs, 'P', pp)) by {
                    assert forall|q: Pos|
                        pos_in_rows(rs, q) && #[trigger] glyph_at(rs, q) == 'P' implies q == pp by {
                        assert(scanned_before(q, rows@.len() as int, 0));
                    }
                }
                assert(unique_glyph_at(rs, 'C', cp)) by {
                    assert forall|q: Pos|
                        pos_in_rows(rs, q) && #[trigger] glyph_at(rs, q) == 'C' implies q == cp by {
                        assert(scanned_before(q, rows@.len() as int, 0));
                    }
                }
                assert(unique_glyph_at(rs, 'G', gp)) by {
                    assert forall|q: Pos|
                        pos_in_rows(rs, q) && #[trigger] glyph_at(rs, q) == 'G' implies q == gp by {
                        assert(scanned_before(q, rows@.len() as int, 0));
                    }
                }
                assert(level_ok(rs));
            }
            let b = Board::assemble(cells, gp, cp);
            proof {
                let st = LevelState { board: b@, player: pp, completed: false };
                assert forall|p: Pos| pos_in_rows(rs, p) implies #[trigger] kind_at_rows(st, p)
                    == spec_kind_of(glyph_at(rs, p)) by {
                    assert((cells@[p.y as int]@[p.x as int]).cell_type == spec_kind_of(
                        rs[p.y as int][p.x as int],
                    ));
                }
                assert(parsed_from(rs, st));
            }
            Ok((b, pp))
        },
        _ => {
            proof {
                if player is None {
                    assert forall|u: Pos| !unique_glyph_at(rs, 'P', u) by {
                        if unique_glyph_at(rs, 'P', u) {
                            assert(scanned_before(u, rows@.len() as int, 0));
                            assert(glyph_at(rs, u) != 'P');
                        }
                    }
                } else if crate_found is None {
                    assert forall|u: Pos| !unique_glyph_at(rs, 'C', u) by {
                        if unique_glyph_at(rs, 'C', u) {
                            assert(scanned_before(u, rows@.len() as int, 0));
                            assert(glyph_at(rs, u) != 'C');
                        }
                    }
                } else {
                    assert forall|u: Pos| !unique_glyph_at(rs, 'G', u) by {
                        if unique_glyph_at(rs, 'G', u) {
                            assert(scanned_before(u, rows@.len() as int, 0));
                            assert(glyph_at(rs, u) != 'G');
                        }
                    }
                }
            }
            Err(GameError::MalformedLevel)
        },
    }
}

/// A parsed well-formed level is a well-formed engine state: the glyph map is
/// one to one between kinds and glyphs, so unique glyphs make unique kinds.
pub proof fn lemma_parsed_level_wf(rows: Seq<Seq<char>>, st: LevelState)
    requires
        level_ok(rows),
        parsed_from(rows, st),
        crate::grid::grid_sized(st.board.grid),
    ensures
        crate::engine::state_wf(st),
{
    let g = st.board.grid;
    assert forall|p: Pos| crate::grid::in_bounds(g, p) implies pos_in_rows(rows, p)
        && crate::grid::kind_at(g, p) == spec_kind_of(glyph_at(rows, p)) by {
        assert(g[p.y as int].len() == rows[p.y as int].len());
        assert(kind_at_rows(st, p) == spec_kind_of(glyph_at(rows, p)));
    }
    assert forall|p: Pos| pos_in_rows(rows, p) implies crate::grid::in_bounds(g, p) by {
        assert(g[p.y as int].len() == rows[p.y as int].len());
    }
    assert(crate::grid::rectangular(g)) by {
        assert forall|r: int| 0 <= r < g.len() implies #[trigger] g[r].len() == g[0].len() by {
            assert(g[r].len() == rows[r].len());
            assert(rows[r].len() == rows[0].len());
            assert(g[0].len() == rows[0].len());
        }
    }
    assert forall|p: Pos| crate::grid::in_bounds(g, p) implies ((#[trigger] crate::grid::kind_at(
        g,
        p,
    )) is Player <==> p == st.player) by {
        assert(legal_glyph(glyph_at(rows, p)));
        if crate::grid::kind_at(g, p) is Player {
            assert(glyph_at(rows, p) == 'P');
        }
        if p == st.player {
            assert(glyph_at(rows, p) == 'P');
        }
    }
    assert forall|p: Pos| crate::grid::in_bounds(g, p) implies ((#[trigger] crate::grid::kind_at(
        g,
        p,
    )) is Crate <==> p == st.board.crate_pos) by {
        assert(legal_glyph(glyph_at(rows, p)));
        if crate::grid::kind_at(g, p) is Crate {
            assert(glyph_at(rows, p) == 'C');
        }
        if p == st.board.crate_pos {
            assert(glyph_at(rows, p) == 'C');
        }
    }
    assert forall|p: Pos| crate::grid::in_bounds(g, p) implies ((#[trigger] crate::grid::kind_at(
        g,
        p,
    )) is Goal <==> (p == st.board.goal && st.board.goal != st.board.crate_pos && st.board.goal
        != st.player)) by {
        assert(legal_glyph(glyph_at(rows, p)));
        if crate::grid::kind_at(g, p) is Goal {
            assert(glyph_at(rows, p) == 'G');
        }
        if p == st.board.goal {
            assert(glyph_at(rows, p) == 'G');
        }
        assert(glyph_at(rows, st.board.crate_pos) == 'C');
        assert(glyph_at(rows, st.player) == 'P');
    }
}

} // verus!
