//! Turn-based game state machine: a board wrapped with match-level state —
//! per-side clocks, game mode, promotion-pending flag, game-over flag — and
//! the single authoritative transition that applies one turn.

use vstd::prelude::*;
use crate::board::{BoardRep, Color, Move, Piece, PieceKind, PosView};
use crate::rules::{
    apply_spec, last_rank, legal_list, legal_moves, lemma_apply_no_ghost,
    lemma_legal_list_sound, simulate_move,
};

verus! {

/// Milliseconds on each clock at the start of a default-mode match.
pub const DEFAULT_CLOCK_MS: u64 = 1800000;

/// Milliseconds on each clock at the start of a blitz-mode match.
pub const BLITZ_CLOCK_MS: u64 = 300000;

/// Game mode: identical rules, different starting clock duration.
#[derive(Clone, Copy, Debug, PartialEq, Eq, Structural)]
pub enum GameMode {
    Default,
    Blitz,
}

/// Why a submitted command could not advance the game.
#[derive(Clone, Copy, Debug, PartialEq, Eq, Structural)]
pub enum MoveError {
    /// A well-formed move that is not in the current side's legal-move set.
    InvalidMove,
    /// Malformed move or promotion text.
    ParseError,
    /// A move submitted during the opponent's turn.
    WrongTurn,
    /// A command that the current state does not accept, such as a plain move
    /// while a promotion kind is owed, or a promotion with none pending.
    ProtocolViolation,
}

/// The currently legal moves, per color, recomputed after every applied move.
#[derive(Debug)]
pub struct PlayerValidMoves {
    pub white: Vec<Move>,
    pub black: Vec<Move>,
}

/// Mathematical model of a `GameState`.
pub struct GsView {
    pub board: PosView,
    pub white_moves: Seq<Move>,
    pub black_moves: Seq<Move>,
    /// 1 while White is to move, 2 while Black is.
    pub player_turn: u8,
    pub white_ms: u64,
    pub black_ms: u64,
    pub mode: GameMode,
    /// The partially applied pawn move awaiting a promotion kind, if any.
    pub pending: Option<Move>,
    pub over: bool,
}

impl GsView {
    /// The side to move.
    pub open spec fn active(self) -> Color {
        if self.player_turn == 1 {
            Color::White
        } else {
            Color::Black
        }
    }

    /// Milliseconds left on the active side's clock.
    pub open spec fn active_ms(self) -> u64 {
        if self.player_turn == 1 {
            self.white_ms
        } else {
            self.black_ms
        }
    }

    /// The legal-move list of the active side.
    pub open spec fn active_moves(self) -> Seq<Move> {
        if self.player_turn == 1 {
            self.white_moves
        } else {
            self.black_moves
        }
    }

    /// Well-formedness: a valid board, a valid turn indicator, no promotion
    /// left pending once the game is over, move lists that are exactly the
    /// legal moves of the current board while the match runs with no
    /// promotion pending, and a promoting pawn on its last rank while one is.
    pub open spec fn wf(self) -> bool {
        &&& self.board.wf()
        &&& self.player_turn == 1 || self.player_turn == 2
        &&& (self.over ==> self.pending is None)
        &&& (!self.over && self.pending is None ==> self.white_moves == legal_list(
            self.board,
            Color::White,
        ) && self.black_moves == legal_list(self.board, Color::Black))
        &&& (self.pending matches Some(pm) ==> pm.to.on_board() && (self.board.at(
            pm.to.x as int,
            pm.to.y as int,
        ) matches Some(p) && p.kind is Pawn && p.color == self.active() && pm.to.y as int
            == last_rank(p.color)))
    }
}

/// The single authoritative game state of one match: one position, the
/// current legal-move sets, the active color, two countdown clocks, the mode
/// and the promotion/game-over flags.  Created once per match and owned
/// exclusively by the game loop.
#[derive(Debug)]
pub struct GameState {
    pub board: BoardRep,
    pub move_list: PlayerValidMoves,
    pub player_turn: u8,
    pub white_timer: u64,
    pub black_timer: u64,
    pub mode: GameMode,
    pub promotion_pending: Option<Move>,
    pub game_over: bool,
}

impl View for GameState {
    type V = GsView;

    open spec fn view(&self) -> GsView {
        GsView {
            board: self.board@,
            white_moves: self.move_list.white@,
            black_moves: self.move_list.black@,
            player_turn: self.player_turn,
            white_ms: self.white_timer,
            black_ms: self.black_timer,
            mode: self.mode,
            pending: self.promotion_pending,
            over: self.game_over,
        }
    }
}

/// The state a fresh default-mode match starts in.
pub open spec fn initial_game() -> GsView {
    GsView {
        board: crate::board::start_pos(),
        white_moves: legal_list(crate::board::start_pos(), Color::White),
        black_moves: legal_list(crate::board::start_pos(), Color::Black),
        player_turn: 1,
        white_ms: DEFAULT_CLOCK_MS,
        black_ms: DEFAULT_CLOCK_MS,
        mode: GameMode::Default,
        pending: None,
        over: false,
    }
}

impl GameState {
    /// A fresh match: standard starting position, White to move, full
    /// default clocks, both legal-move sets computed.
    pub fn new() -> (r: GameState)
        ensures
            r@ == initial_game(),
            r@.wf(),
    {
        let board = BoardRep::starting();
        let white = legal_moves(&board, Color::White);
        let black = legal_moves(&board, Color::Black);
        GameState {
            board,
            move_list: PlayerValidMoves { white, black },
            player_turn: 1,
            white_timer: DEFAULT_CLOCK_MS,
            black_timer: DEFAULT_CLOCK_MS,
            mode: GameMode::Default,
            promotion_pending: None,
            game_over: false,
        }
    }

    /// Switch a fresh match to blitz mode: same rules, shorter clocks.
    pub fn blitz_mode(&mut self)
        requires
            old(self)@.wf(),
        ensures
            final(self)@.wf(),
            final(self)@ == (GsView {
                white_ms: BLITZ_CLOCK_MS,
                black_ms: BLITZ_CLOCK_MS,
                mode: GameMode::Blitz,
                ..old(self)@
            }),
    {
        self.mode = GameMode::Blitz;
        self.white_timer = BLITZ_CLOCK_MS;
        self.black_timer = BLITZ_CLOCK_MS;
    }

    /// The active side resigns: the game ends at once, and any pending
    /// promotion is discarded with it, so a finished game never still owes a
    /// promotion kind.
    pub fn resign(&mut self)
        requires
            old(self)@.wf(),
        ensures
            final(self)@.wf(),
            final(self)@ == (GsView { over: true, pending: None, ..old(self)@ }),
    {
        self.game_over = true;
        self.promotion_pending = None;
    }
}

/// The move is a pawn advance onto its last rank submitted without a
/// promotion kind: applying it must leave the match awaiting the kind.
pub open spec fn promotes_without_kind(v: PosView, m: Move) -> bool {
    &&& v.at(m.from.x as int, m.from.y as int) matches Some(p) && p.kind is Pawn && m.to.y as int
        == last_rank(p.color)
    &&& m.promotion is None
}

/// The state after the active side loses on time: its clock is exhausted,
/// the game is over, and any pending promotion is discarded with it.
pub open spec fn timeout_state(g: GsView) -> GsView {
    GsView {
        white_ms: if g.player_turn == 1 {
            0
        } else {
            g.white_ms
        },
        black_ms: if g.player_turn == 2 {
            0
        } else {
            g.black_ms
        },
        over: true,
        pending: None,
        ..g
    }
}

/// The common tail of a completed turn: the mover's clock is charged with
/// the elapsed time, both legal-move sets are recomputed for the new board,
/// the active color switches, and the game ends if the side now to move has
/// no legal reply (checkmate or stalemate).
pub open spec fn turn_tail(g: GsView, board2: PosView, el: u64) -> GsView {
    let white2 = legal_list(board2, Color::White);
    let black2 = legal_list(board2, Color::Black);
    let next: u8 = if g.player_turn == 1 {
        2
    } else {
        1
    };
    GsView {
        board: board2,
        white_moves: white2,
        black_moves: black2,
        player_turn: next,
        white_ms: if g.player_turn == 1 {
            (g.white_ms - el) as u64
        } else {
            g.white_ms
        },
        black_ms: if g.player_turn == 2 {
            (g.black_ms - el) as u64
        } else {
            g.black_ms
        },
        mode: g.mode,
        pending: None,
        over: if next == 1 {
            white2.len() == 0
        } else {
            black2.len() == 0
        },
    }
}

/// What one move submission does to the game state, and what it returns.
pub open spec fn take_turn_spec(g: GsView, m: Move, el: u64) -> (GsView, Result<(), MoveError>) {
    if g.over || g.pending is Some {
        (g, Err(MoveError::ProtocolViolation))
    } else if el >= g.active_ms() {
        (timeout_state(g), Ok(()))
    } else if !g.active_moves().contains(m) {
        (g, Err(MoveError::InvalidMove))
    } else if promotes_without_kind(g.board, m) {
        (
            GsView {
                board: apply_spec(g.board, m),
                pending: Some(m),
                ..g
            },
            Ok(()),
        )
    } else {
        (turn_tail(g, apply_spec(g.board, m), el), Ok(()))
    }
}

/// Taking a turn preserves well-formedness of the game state.
pub proof fn lemma_take_turn_wf(g: GsView, m: Move, el: u64)
    requires
        g.wf(),
    ensures
        take_turn_spec(g, m, el).0.wf(),
{
    if !(g.over || g.pending is Some) && el < g.active_ms() && g.active_moves().contains(m) {
        lemma_legal_list_sound(g.board, g.active(), m);
        lemma_apply_no_ghost(g.board, m);
        let board2 = apply_spec(g.board, m);
        assert(board2.wf());
    }
}

/// Finalizing a promotion preserves well-formedness of the game state.
pub proof fn lemma_submit_promotion_wf(g: GsView, kind: PieceKind, el: u64)
    requires
        g.wf(),
    ensures
        submit_promotion_spec(g, kind, el).0.wf(),
{
    if !(g.over || g.pending is None) && kind != PieceKind::Pawn && kind != PieceKind::King && el
        < g.active_ms() {
        let pm = g.pending->Some_0;
        let board2 = PosView {
            board: g.board.board.update(pm.to.index(), Some(Piece { kind, color: g.active() })),
            ..g.board
        };
        assert(board2.wf());
    }
}

/// Does the list hold this exact move?
fn contains_move(v: &Vec<Move>, m: Move) -> (r: bool)
    ensures
        r == v@.contains(m),
{
    let mut i: usize = 0;
    while i < v.len()
        invariant
            0 <= i <= v.len(),
            forall|j: int| 0 <= j < i ==> v@[j] != m,
        decreases v.len() - i,
    {
        if v[i] == m {
            assert(v@.contains(m));
            return true;
        }
        i = i + 1;
    }
    false
}

/// Apply one turn for the active side: forfeit on an exhausted clock, reject
/// a move outside the current legal-move set, hold a kindless promotion for
/// later finalization, and otherwise complete the move — charge the clock,
/// recompute both legal-move sets, detect checkmate and stalemate, and pass
/// the turn to the other side.
pub fn take_turn(gs: &mut GameState, m: Move, elapsed_ms: u64) -> (r: Result<(), MoveError>)
    requires
        old(gs)@.wf(),
    ensures
        final(gs)@.wf(),
        (final(gs)@, r) == take_turn_spec(old(gs)@, m, elapsed_ms),
{
    let ghost g0 = gs@;
    if gs.game_over || gs.promotion_pending.is_some() {
        return Err(MoveError::ProtocolViolation);
    }
    let active_is_white = gs.player_turn == 1;
    let active_clock = if active_is_white {
        gs.white_timer
    } else {
        gs.black_timer
    };
    if elapsed_ms >= active_clock {
        if active_is_white {
            gs.white_timer = 0;
        } else {
            gs.black_timer = 0;
        }
        gs.game_over = true;
        assert(gs@ == timeout_state(g0));
        return Ok(());
    }
    let in_set = if active_is_white {
        contains_move(&gs.move_list.white, m)
    } else {
        contains_move(&gs.move_list.black, m)
    };
    if !in_set {
        return Err(MoveError::InvalidMove);
    }
    let ghost active = g0.active();
    proof {
        lemma_legal_list_sound(g0.board, active, m);
    }
    let piece = gs.board.piece_at(m.from.x, m.from.y).unwrap();
    let next_board = simulate_move(&gs.board, m);
    let promoting = matches!(piece.kind, PieceKind::Pawn) && m.promotion.is_none() && m.to.y == (
    if matches!(piece.color, Color::White) {
        7
    } else {
        0
    });
    if promoting {
        proof {
            lemma_apply_no_ghost(g0.board, m);
        }
        gs.board = next_board;
        gs.promotion_pending = Some(m);
        return Ok(());
    }
    finish_turn(gs, next_board, elapsed_ms);
    proof {
        assert(gs@ == turn_tail(g0, apply_spec(g0.board, m), elapsed_ms));
    }
    Ok(())
}

/// The executable common tail of a turn; see `turn_tail`.
fn finish_turn(gs: &mut GameState, next_board: BoardRep, elapsed_ms: u64)
    requires
        old(gs)@.wf(),
        next_board@.wf(),
        !old(gs)@.over,
        elapsed_ms < old(gs)@.active_ms(),
    ensures
        final(gs)@.wf(),
        final(gs)@ == turn_tail(old(gs)@, next_board@, elapsed_ms),
{
    let white = legal_moves(&next_board, Color::White);
    let black = legal_moves(&next_board, Color::Black);
    if gs.player_turn == 1 {
        gs.white_timer = gs.white_timer - elapsed_ms;
        gs.player_turn = 2;
        gs.game_over = black.len() == 0;
    } else {
        gs.black_timer = gs.black_timer - elapsed_ms;
        gs.player_turn = 1;
        gs.game_over = white.len() == 0;
    }
    gs.board = next_board;
    gs.move_list = PlayerValidMoves { white, black };
    gs.promotion_pending = None;
}

/// What one promotion-kind submission does to the game state, and what it
/// returns: the pending pawn takes the chosen kind, then the turn completes
/// exactly as a plain move does.
pub open spec fn submit_promotion_spec(g: GsView, kind: PieceKind, el: u64) -> (
    GsView,
    Result<(), MoveError>,
) {
    if g.over || g.pending is None {
        (g, Err(MoveError::ProtocolViolation))
    } else if kind == PieceKind::Pawn || kind == PieceKind::King {
        (g, Err(MoveError::InvalidMove))
    } else if el >= g.active_ms() {
        (timeout_state(g), Ok(()))
    } else {
        let pm = g.pending->Some_0;
        let board2 = PosView {
            board: g.board.board.update(
                pm.to.index(),
                Some(Piece { kind, color: g.active() }),
            ),
            ..g.board
        };
        (turn_tail(g, board2, el), Ok(()))
    }
}

/// Finalize a pending promotion with the chosen kind, then complete the turn:
/// clock charge, legal-move recomputation, terminal detection, color switch.
pub fn submit_promotion(gs: &mut GameState, kind: PieceKind, elapsed_ms: u64) -> (r: Result<
    (),
    MoveError,
>)
    requires
        old(gs)@.wf(),
    ensures
        final(gs)@.wf(),
        (final(gs)@, r) == submit_promotion_spec(old(gs)@, kind, elapsed_ms),
{
    let ghost g0 = gs@;
    let pm = match gs.promotion_pending {
        Some(pm) => {
            if gs.game_over {
                return Err(MoveError::ProtocolViolation);
            }
            pm
        },
        None => {
            return Err(MoveError::ProtocolViolation);
        },
    };
    if matches!(kind, PieceKind::Pawn) || matches!(kind, PieceKind::King) {
        return Err(MoveError::InvalidMove);
    }
    let active_is_white = gs.player_turn == 1;
    let active_clock = if active_is_white {
        gs.white_timer
    } else {
        gs.black_timer
    };
    if elapsed_ms >= active_clock {
        if active_is_white {
            gs.white_timer = 0;
        } else {
            gs.black_timer = 0;
        }
        gs.game_over = true;
        gs.promotion_pending = None;
        assert(gs@ == timeout_state(g0));
        return Ok(());
    }
    let color = if active_is_white {
        Color::White
    } else {
        Color::Black
    };
    let idx = pm.to.y as usize * 8 + pm.to.x as usize;
    let mut next_board = crate::rules::copy_board(&gs.board);
    next_board.squares[idx] = Some(Piece { kind, color });
    finish_turn(gs, next_board, elapsed_ms);
    proof {
        assert(gs@ == submit_promotion_spec(g0, kind, elapsed_ms).0);
    }
    Ok(())
}

} // verus!
