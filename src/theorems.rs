//! Facts about games played on the board model, proved once for all boards
//! and moves.
use vstd::prelude::*;
use crate::board::{in_bounds, Board, BoardView, CellState, GameState};

verus! {

/// The board after playing `moves` in order, starting from `b`.
pub open spec fn play_all(b: BoardView, moves: Seq<(int, int)>) -> BoardView
    decreases moves.len(),
{
    if moves.len() == 0 {
        b
    } else {
        play_all(b, moves.drop_last()).after_move(moves.last().0, moves.last().1)
    }
}

/// The player to move after `n` turns have passed, starting from `st`.
pub open spec fn turn_after(st: GameState, n: nat) -> GameState {
    if n % 2 == 0 {
        st
    } else if st is XTurn {
        GameState::OTurn
    } else {
        GameState::XTurn
    }
}

/// The mark that the player to move in `st` places.
pub open spec fn mover_mark(st: GameState) -> CellState {
    if st is XTurn {
        CellState::X
    } else {
        CellState::O
    }
}

/// The other mark.
pub open spec fn opponent(m: CellState) -> CellState {
    if m is X {
        CellState::O
    } else {
        CellState::X
    }
}

/// The state in which the player with mark `m` has won.
pub open spec fn won_by(m: CellState) -> GameState {
    if m is X {
        GameState::XWon
    } else {
        GameState::OWon
    }
}

/// Scanning the lines ends in the starting state or in a win.
proof fn lemma_scan_outcomes(b: BoardView, k: int, st: GameState)
    ensures
        b.scan_lines(k, st) == st || b.scan_lines(k, st) is XWon || b.scan_lines(k, st) is OWon,
    decreases k,
{
    if k > 0 {
        lemma_scan_outcomes(b, k - 1, st);
    }
}

/// With no line among the first `k` filled by either mark, the scan keeps
/// the starting state.
proof fn lemma_scan_no_line(b: BoardView, k: int, st: GameState)
    requires
        0 <= k <= 8,
        forall|j: int| 0 <= j < k ==> !#[trigger] b.line_filled(j, CellState::X),
        forall|j: int| 0 <= j < k ==> !#[trigger] b.line_filled(j, CellState::O),
    ensures
        b.scan_lines(k, st) == st,
    decreases k,
{
    if k > 0 {
        lemma_scan_no_line(b, k - 1, st);
    }
}

/// With a line filled by `m` among the first `k`, and none by the other
/// mark, the scan ends in a win for `m`.
proof fn lemma_scan_one_winner(b: BoardView, k: int, st: GameState, m: CellState)
    requires
        0 <= k <= 8,
        m is X || m is O,
        exists|j: int| 0 <= j < k && #[trigger] b.line_filled(j, m),
        forall|j: int| 0 <= j < k ==> !#[trigger] b.line_filled(j, opponent(m)),
    ensures
        b.scan_lines(k, st) == won_by(m),
    decreases k,
{
    if !b.line_filled(k - 1, m) {
        let j = choose|j: int| 0 <= j < k && #[trigger] b.line_filled(j, m);
        assert(j < k - 1);
        lemma_scan_one_winner(b, k - 1, st, m);
    }
}

/// Every board is seen as three rows of three cells, so the facts below
/// apply to the view of any `Board`.
pub proof fn lemma_board_view_wf(b: Board)
    ensures
        b@.wf(),
{
}

/// A move keeps the board's shape.
proof fn lemma_move_wf(b: BoardView, r: int, c: int)
    requires
        b.wf(),
        in_bounds(r, c),
    ensures
        b.after_move(r, c).wf(),
{
    let p = b.place(r, c);
    assert(p.wf());
}

/// Every mark on the board stays where it is after a move, and a finished
/// game stays finished.
pub proof fn lemma_move_keeps_marks(b: BoardView, r: int, c: int)
    requires
        b.wf(),
        in_bounds(r, c),
    ensures
        forall|i: int, j: int|
            0 <= i < 3 && 0 <= j < 3 && b.cell(i, j) != CellState::Empty ==> #[trigger] b.after_move(r, c).cell(i, j)
                == b.cell(i, j),
        !b.state.in_play() ==> b.after_move(r, c) == b,
{
}

/// Moving twice on the same cell gives the board that the first move gave.
pub proof fn lemma_move_twice(b: BoardView, r: int, c: int)
    requires
        b.wf(),
        in_bounds(r, c),
    ensures
        b.after_move(r, c).after_move(r, c) == b.after_move(r, c),
{
    let a = b.after_move(r, c);
    if b.state.in_play() && b.cell(r, c) == CellState::Empty {
        assert(a.cell(r, c) != CellState::Empty);
    }
}

/// A move that completes a line of the mover's mark, on a board where the
/// opponent has no line, wins the game for the mover.
pub proof fn lemma_completing_line_wins(b: BoardView, r: int, c: int)
    requires
        b.wf(),
        b.state.in_play(),
        in_bounds(r, c),
        b.cell(r, c) == CellState::Empty,
        b.place(r, c).has_line(mover_mark(b.state)),
        !b.has_line(opponent(mover_mark(b.state))),
    ensures
        b.after_move(r, c).state == won_by(mover_mark(b.state)),
{
    let m = mover_mark(b.state);
    let p = b.place(r, c);
    assert forall|j: int| 0 <= j < 8 implies !#[trigger] p.line_filled(j, opponent(m)) by {
        if p.line_filled(j, opponent(m)) {
            assert(b.line_filled(j, opponent(m)));
        }
    }
    lemma_scan_one_winner(p, 8, p.state, m);
}

/// A move that fills the last empty cell without completing a line of
/// either mark ends the game in a draw.
pub proof fn lemma_full_board_draws(b: BoardView, r: int, c: int)
    requires
        b.wf(),
        b.state.in_play(),
        in_bounds(r, c),
        b.cell(r, c) == CellState::Empty,
        b.place(r, c).is_full(),
        !b.place(r, c).has_line(CellState::X),
        !b.place(r, c).has_line(CellState::O),
    ensures
        b.after_move(r, c).state == GameState::Draw,
{
    let p = b.place(r, c);
    lemma_scan_no_line(p, 8, p.state);
}

/// The moves stand on the grid, on cells that are empty in `b`, each cell
/// at most once.
pub open spec fn fresh_moves(b: BoardView, moves: Seq<(int, int)>) -> bool {
    &&& forall|i: int| 0 <= i < moves.len() ==> in_bounds(#[trigger] moves[i].0, moves[i].1)
    &&& forall|i: int| 0 <= i < moves.len() ==> b.at(#[trigger] moves[i]) == CellState::Empty
    &&& forall|i: int, j: int| 0 <= i < j < moves.len() ==> #[trigger] moves[i] != #[trigger] moves[j]
}

/// After the first `i` moves the board keeps its shape, and while the game
/// goes on, the turn has passed `i` times and the cells still to be played
/// are empty.
proof fn lemma_prefix(b: BoardView, moves: Seq<(int, int)>, i: int)
    requires
        b.wf(),
        b.state.in_play(),
        fresh_moves(b, moves),
        0 <= i <= moves.len(),
    ensures
        play_all(b, moves.take(i)).wf(),
        play_all(b, moves.take(i)).state.in_play() ==> {
            &&& play_all(b, moves.take(i)).state == turn_after(b.state, i as nat)
            &&& forall|j: int| i <= j < moves.len() ==> play_all(b, moves.take(i)).at(#[trigger] moves[j]) == CellState::Empty
        },
    decreases i,
{
    if i == 0 {
        assert(moves.take(0) =~= Seq::<(int, int)>::empty());
    } else {
        lemma_prefix(b, moves, i - 1);
        let u = play_all(b, moves.take(i - 1));
        assert(moves.take(i).drop_last() =~= moves.take(i - 1));
        let rc = moves[i - 1];
        assert(moves.take(i).last() == rc);
        assert(play_all(b, moves.take(i)) == u.after_move(rc.0, rc.1));
        lemma_move_wf(u, rc.0, rc.1);
        if u.state.in_play() {
            let p = u.place(rc.0, rc.1);
            lemma_scan_outcomes(p, 8, p.state);
            assert forall|j: int| i <= j < moves.len() implies u.after_move(rc.0, rc.1).at(#[trigger] moves[j]) == CellState::Empty by {
                assert(moves[i - 1] != moves[j]);
                assert(u.at(moves[j]) == CellState::Empty);
            }
        }
    }
}

/// Once the game is over after `i` moves, later moves change nothing.
proof fn lemma_over_stays(b: BoardView, moves: Seq<(int, int)>, i: int, j: int)
    requires
        0 <= i <= j <= moves.len(),
        !play_all(b, moves.take(i)).state.in_play(),
    ensures
        play_all(b, moves.take(j)) == play_all(b, moves.take(i)),
    decreases j,
{
    if j > i {
        lemma_over_stays(b, moves, i, j - 1);
        assert(moves.take(j).drop_last() =~= moves.take(j - 1));
    }
}

/// Playing moves on distinct empty cells passes the turn back and forth,
/// X to O to X, until the game is over; from then on the board no longer
/// changes.
pub proof fn lemma_turns_alternate(b: BoardView, moves: Seq<(int, int)>)
    requires
        b.wf(),
        b.state.in_play(),
        fresh_moves(b, moves),
    ensures
        forall|i: int|
            0 <= i <= moves.len() && (#[trigger] play_all(b, moves.take(i))).state.in_play() ==> play_all(
                b,
                moves.take(i),
            ).state == turn_after(b.state, i as nat),
        forall|i: int, j: int|
            #![trigger play_all(b, moves.take(i)), play_all(b, moves.take(j))]
            0 <= i <= j <= moves.len() && !play_all(b, moves.take(i)).state.in_play() ==> play_all(b, moves.take(j))
                == play_all(b, moves.take(i)),
{
    assert forall|i: int|
        0 <= i <= moves.len() && (#[trigger] play_all(b, moves.take(i))).state.in_play() implies play_all(
            b,
            moves.take(i),
        ).state == turn_after(b.state, i as nat) by {
        lemma_prefix(b, moves, i);
    }
    assert forall|i: int, j: int|
        #![trigger play_all(b, moves.take(i)), play_all(b, moves.take(j))]
        0 <= i <= j <= moves.len() && !play_all(b, moves.take(i)).state.in_play() implies play_all(b, moves.take(j))
            == play_all(b, moves.take(i)) by {
        lemma_over_stays(b, moves, i, j);
    }
}

/// Where neither mark fills a line, the scan leaves the board as it is.
proof fn lemma_no_line_keeps_state(v: BoardView)
    requires
        forall|k: int| 0 <= k < 8 ==> !#[trigger] v.line_filled(k, CellState::X),
        forall|k: int| 0 <= k < 8 ==> !#[trigger] v.line_filled(k, CellState::O),
    ensures
        v.checked() == v,
{
    lemma_scan_no_line(v, 8, v.state);
}

/// From the empty board, X plays (0, 0), (0, 1) and (0, 2) while O plays
/// two other cells off the top row in between: the game goes on until the
/// third X, which wins it.
pub proof fn lemma_top_row_wins(p: (int, int), q: (int, int))
    requires
        in_bounds(p.0, p.1),
        in_bounds(q.0, q.1),
        p.0 != 0,
        q.0 != 0,
        p != q,
    ensures
        ({
            let s4 = BoardView::empty().after_move(0, 0).after_move(p.0, p.1).after_move(0, 1).after_move(q.0, q.1);
            &&& s4.state == GameState::XTurn
            &&& s4.after_move(0, 2).state == GameState::XWon
        }),
{
    let s0 = BoardView::empty();
    let s1 = s0.after_move(0, 0);
    let p1 = s0.place(0, 0);
    assert forall|k: int| 0 <= k < 8 implies !#[trigger] p1.line_filled(k, CellState::X) by {}
    assert forall|k: int| 0 <= k < 8 implies !#[trigger] p1.line_filled(k, CellState::O) by {}
    lemma_no_line_keeps_state(p1);
    assert(p1.cell(0, 1) == CellState::Empty);
    assert(s1 == p1);
    let s2 = s1.after_move(p.0, p.1);
    let p2 = s1.place(p.0, p.1);
    assert forall|k: int| 0 <= k < 8 implies !#[trigger] p2.line_filled(k, CellState::X) by {}
    assert forall|k: int| 0 <= k < 8 implies !#[trigger] p2.line_filled(k, CellState::O) by {}
    lemma_no_line_keeps_state(p2);
    assert(p2.cell(0, 1) == CellState::Empty);
    assert(s2 == p2);
    let s3 = s2.after_move(0, 1);
    let p3 = s2.place(0, 1);
    assert forall|k: int| 0 <= k < 8 implies !#[trigger] p3.line_filled(k, CellState::X) by {}
    assert forall|k: int| 0 <= k < 8 implies !#[trigger] p3.line_filled(k, CellState::O) by {}
    lemma_no_line_keeps_state(p3);
    assert(p3.cell(0, 2) == CellState::Empty);
    assert(s3 == p3);
    let s4 = s3.after_move(q.0, q.1);
    let p4 = s3.place(q.0, q.1);
    assert forall|k: int| 0 <= k < 8 implies !#[trigger] p4.line_filled(k, CellState::X) by {}
    assert forall|k: int| 0 <= k < 8 implies !#[trigger] p4.line_filled(k, CellState::O) by {}
    lemma_no_line_keeps_state(p4);
    assert(p4.cell(0, 2) == CellState::Empty);
    assert(s4 == p4);
    assert(s4.place(0, 2).line_filled(0, CellState::X));
    lemma_completing_line_wins(s4, 0, 2);
}

} // verus!
