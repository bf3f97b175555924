//! Request/response protocol surface: the reply envelope, the engine-level
//! state machine over mode selection and match play, and its transition
//! function.

use vstd::prelude::*;
use vstd::arithmetic::div_mod::lemma_fundamental_div_mod;
use crate::board::{Move, Piece, PosView};
use crate::game::{
    take_turn, take_turn_spec, submit_promotion, submit_promotion_spec, GameMode, GameState,
    GsView, MoveError, BLITZ_CLOCK_MS, DEFAULT_CLOCK_MS, initial_game,
};
use crate::parse::{
    move_text, parse_move_text, parse_promotion_text, promotion_text, CmdView, InputType,
};
use crate::wire::{
    board_wire_ok, boardrep_to_bitboard, decode_square, wire_ok, BitBoard, lemma_wire_round_trip,
};

verus! {

/// A full state snapshot sent to the client after a command.
#[derive(Clone, Copy, Debug, PartialEq)]
pub struct Response {
    pub board: BitBoard,
    /// Milliseconds left on White's clock.
    pub timer_white: u64,
    /// Milliseconds left on Black's clock.
    pub timer_black: u64,
    /// 1 while White is to move, 2 while Black is.
    pub player_turn: u8,
    pub game_end: bool,
    pub promotion_required: bool,
}

/// What a `Response` tells the client: the per-square occupancy its board
/// planes decode to, and the match-level state.
pub struct RespView {
    pub board: Seq<Option<Piece>>,
    pub timer_white: u64,
    pub timer_black: u64,
    pub player_turn: u8,
    pub game_end: bool,
    pub promotion_required: bool,
}

impl View for Response {
    type V = RespView;

    open spec fn view(&self) -> RespView {
        RespView {
            board: Seq::new(64, |i: int| decode_square(self.board, i % 8, i / 8)),
            timer_white: self.timer_white,
            timer_black: self.timer_black,
            player_turn: self.player_turn,
            game_end: self.game_end,
            promotion_required: self.promotion_required,
        }
    }
}

/// One reply per request: a snapshot, or a typed error.
#[derive(Clone, Copy, Debug, PartialEq)]
pub enum ServerResponse {
    Response(Response),
    Error(MoveError),
}

/// Mathematical model of a `ServerResponse`.
pub enum SrvView {
    Reply(RespView),
    Fault(MoveError),
}

impl View for ServerResponse {
    type V = SrvView;

    open spec fn view(&self) -> SrvView {
        match self {
            ServerResponse::Response(r) => SrvView::Reply(r@),
            ServerResponse::Error(e) => SrvView::Fault(*e),
        }
    }
}

/// The snapshot a game state presents to the client.
pub open spec fn snapshot_of(g: GsView) -> RespView {
    RespView {
        board: g.board.board,
        timer_white: g.white_ms,
        timer_black: g.black_ms,
        player_turn: g.player_turn,
        game_end: g.over,
        promotion_required: g.pending is Some,
    }
}

proof fn lemma_decoded_board(v: PosView, w: BitBoard)
    requires
        v.wf(),
        wire_ok(v, w),
    ensures
        Seq::new(64, |i: int| decode_square(w, i % 8, i / 8)) == v.board,
{
    let d = Seq::new(64, |i: int| decode_square(w, i % 8, i / 8));
    assert forall|i: int| 0 <= i < 64 implies d[i] == v.board[i] by {
        lemma_fundamental_div_mod(i, 8);
        lemma_wire_round_trip(v, w, i % 8, i / 8);
    };
    assert(d =~= v.board);
}

/// Build the client-visible snapshot of a game state.
pub fn make_snapshot(gs: &GameState) -> (r: Response)
    requires
        gs@.wf(),
    ensures
        r@ == snapshot_of(gs@),
        wire_ok(gs@.board, r.board),
{
    let w = boardrep_to_bitboard(&gs.board);
    let r = Response {
        board: w,
        timer_white: gs.white_timer,
        timer_black: gs.black_timer,
        player_turn: gs.player_turn,
        game_end: gs.game_over,
        promotion_required: gs.promotion_pending.is_some(),
    };
    proof {
        lemma_decoded_board(gs@.board, w);
    }
    r
}

/// The engine-level state machine: awaiting mode selection while no match
/// exists, in progress while one does.  The game state is owned exclusively
/// by the game loop that steps this machine.
pub struct Engine {
    pub game: Option<GameState>,
}

/// Mathematical model of an `Engine`.
pub struct EngView {
    pub game: Option<GsView>,
}

impl View for Engine {
    type V = EngView;

    open spec fn view(&self) -> EngView {
        match self.game {
            Some(ref g) => EngView { game: Some(g@) },
            None => EngView { game: None },
        }
    }
}

impl EngView {
    /// Any live match is well-formed.
    pub open spec fn wf(self) -> bool {
        match self.game {
            Some(g) => g.wf(),
            None => true,
        }
    }
}

/// The fresh match a mode selection starts.
pub open spec fn mode_init(m: GameMode) -> GsView {
    if m is Blitz {
        GsView {
            white_ms: BLITZ_CLOCK_MS,
            black_ms: BLITZ_CLOCK_MS,
            mode: GameMode::Blitz,
            ..initial_game()
        }
    } else {
        initial_game()
    }
}

/// What one command does to the engine, and the single reply it yields.
///
/// Every command yields exactly one reply.  A command a state does not
/// accept either reflects the unchanged state back or names a typed error;
/// it never silently drops.  `Reset` returns to mode selection from any
/// state and reports a fresh default match.  A move while a promotion kind
/// is owed is a protocol error; a move during the automated side's turn is a
/// wrong-turn error; move or promotion text that fits no grammar is a parse
/// error.
pub open spec fn step_spec(e: EngView, c: CmdView, el: u64) -> (EngView, SrvView) {
    match c {
        CmdView::Reset => (
            EngView { game: None },
            SrvView::Reply(snapshot_of(initial_game())),
        ),
        CmdView::Mode(m) => match e.game {
            None => {
                let g = mode_init(m);
                (EngView { game: Some(g) }, SrvView::Reply(snapshot_of(g)))
            },
            Some(g) => (e, SrvView::Reply(snapshot_of(g))),
        },
        CmdView::Resign => match e.game {
            None => (e, SrvView::Fault(MoveError::ProtocolViolation)),
            Some(g) => {
                if g.over {
                    (e, SrvView::Reply(snapshot_of(g)))
                } else {
                    let g2 = GsView { over: true, pending: None, ..g };
                    (EngView { game: Some(g2) }, SrvView::Reply(snapshot_of(g2)))
                }
            },
        },
        CmdView::Exit => match e.game {
            None => (e, SrvView::Fault(MoveError::ProtocolViolation)),
            Some(g) => (e, SrvView::Reply(snapshot_of(g))),
        },
        CmdView::MoveText(t) => match e.game {
            None => (e, SrvView::Fault(MoveError::ProtocolViolation)),
            Some(g) => {
                if g.over {
                    (e, SrvView::Reply(snapshot_of(g)))
                } else if g.pending is Some {
                    match promotion_text(t) {
                        Some(k) => {
                            let (g2, res) = submit_promotion_spec(g, k, el);
                            (
                                EngView { game: Some(g2) },
                                match res {
                                    Ok(_) => SrvView::Reply(snapshot_of(g2)),
                                    Err(err) => SrvView::Fault(err),
                                },
                            )
                        },
                        None => {
                            if move_text(t) is Some {
                                (e, SrvView::Fault(MoveError::ProtocolViolation))
                            } else {
                                (e, SrvView::Fault(MoveError::ParseError))
                            }
                        },
                    }
                } else {
                    match move_text(t) {
                        None => (e, SrvView::Fault(MoveError::ParseError)),
                        Some(m) => {
                            if g.player_turn == 2 {
                                (e, SrvView::Fault(MoveError::WrongTurn))
                            } else {
                                let (g2, res) = take_turn_spec(g, m, el);
                                (
                                    EngView { game: Some(g2) },
                                    match res {
                                        Ok(_) => SrvView::Reply(snapshot_of(g2)),
                                        Err(err) => SrvView::Fault(err),
                                    },
                                )
                            }
                        },
                    }
                }
            },
        },
    }
}

impl Engine {
    /// A fresh engine, awaiting mode selection.
    pub fn new() -> (r: Engine)
        ensures
            r@ == (EngView { game: None }),
    {
        Engine { game: None }
    }

    /// Process one command against the authoritative state, yielding exactly
    /// one reply.  `elapsed_ms` is the wall time since the previous applied
    /// move, measured by the caller.
    pub fn step(&mut self, cmd: InputType, elapsed_ms: u64) -> (r: ServerResponse)
        requires
            old(self)@.wf(),
        ensures
            final(self)@.wf(),
            (final(self)@, r@) == step_spec(old(self)@, cmd@, elapsed_ms),
            r matches ServerResponse::Response(resp) ==> board_wire_ok(resp@.board, resp.board),
    {
        let ghost e0 = self@;
        match cmd {
            InputType::Reset => {
                self.game = None;
                let fresh = GameState::new();
                ServerResponse::Response(make_snapshot(&fresh))
            },
            InputType::GameMode(m) => {
                match self.game {
                    None => {
                        let mut g = GameState::new();
                        if matches!(m, GameMode::Blitz) {
                            g.blitz_mode();
                        }
                        let snap = make_snapshot(&g);
                        self.game = Some(g);
                        ServerResponse::Response(snap)
                    },
                    Some(ref g) => ServerResponse::Response(make_snapshot(g)),
                }
            },
            InputType::Resign => {
                match self.game {
                    None => ServerResponse::Error(MoveError::ProtocolViolation),
                    Some(ref mut g) => {
                        if g.game_over {
                            ServerResponse::Response(make_snapshot(g))
                        } else {
                            g.resign();
                            ServerResponse::Response(make_snapshot(g))
                        }
                    },
                }
            },
            InputType::Exit => {
                match self.game {
                    None => ServerResponse::Error(MoveError::ProtocolViolation),
                    Some(ref g) => ServerResponse::Response(make_snapshot(g)),
                }
            },
            InputType::Move(text) => {
                match self.game {
                    None => ServerResponse::Error(MoveError::ProtocolViolation),
                    Some(ref mut g) => {
                        if g.game_over {
                            ServerResponse::Response(make_snapshot(g))
                        } else if g.promotion_pending.is_some() {
                            match parse_promotion_text(text.as_str()) {
                                Some(k) => {
                                    match submit_promotion(g, k, elapsed_ms) {
                                        Ok(_) => ServerResponse::Response(make_snapshot(g)),
                                        Err(err) => ServerResponse::Error(err),
                                    }
                                },
                                None => {
                                    if parse_move_text(text.as_str()).is_some() {
                                        ServerResponse::Error(MoveError::ProtocolViolation)
                                    } else {
                                        ServerResponse::Error(MoveError::ParseError)
                                    }
                                },
                            }
                        } else {
                            match parse_move_text(text.as_str()) {
                                None => ServerResponse::Error(MoveError::ParseError),
                                Some(m) => {
                                    if g.player_turn == 2 {
                                        ServerResponse::Error(MoveError::WrongTurn)
                                    } else {
                                        match take_turn(g, m, elapsed_ms) {
                                            Ok(_) => ServerResponse::Response(make_snapshot(g)),
                                            Err(err) => ServerResponse::Error(err),
                                        }
                                    }
                                },
                            }
                        }
                    },
                }
            },
        }
    }
}

/// A command naming a move that is not in the current side's legal-move set
/// always yields the invalid-move error and leaves the whole engine state —
/// board, clocks, active color — unchanged.
pub proof fn lemma_invalid_move_rejected(e: EngView, g: GsView, t: Seq<char>, m: Move, el: u64)
    requires
        e.game == Some(g),
        g.wf(),
        !g.over,
        g.pending is None,
        g.player_turn == 1,
        el < g.active_ms(),
        move_text(t) == Some(m),
        !g.active_moves().contains(m),
    ensures
        step_spec(e, CmdView::MoveText(t), el) == (
            EngView { game: Some(g) },
            SrvView::Fault(MoveError::InvalidMove),
        ),
{
    assert(take_turn_spec(g, m, el) == (g, Err::<(), MoveError>(MoveError::InvalidMove)));
    assert(EngView { game: Some(g) } =~= e);
}

/// Mode selection never starts the clocks: a fresh match begins with the
/// full duration of its mode on both clocks, and selecting a mode while a
/// match runs changes nothing.  Clocks are charged only when a turn is
/// applied.
pub proof fn lemma_mode_select_leaves_clocks_full(e: EngView, m: GameMode, el: u64)
    ensures
        e.game is None ==> {
            let g = step_spec(e, CmdView::Mode(m), el).0.game->Some_0;
            &&& g.white_ms == if m is Blitz {
                BLITZ_CLOCK_MS
            } else {
                DEFAULT_CLOCK_MS
            }
            &&& g.black_ms == g.white_ms
            &&& !g.over
        },
        e.game is Some ==> step_spec(e, CmdView::Mode(m), el).0 == e,
{
}

/// Resetting from any state returns the engine to mode selection, and the
/// reply reports a fresh starting position with full default clocks.
pub proof fn lemma_reset_returns_to_mode_selection(e: EngView, el: u64)
    ensures
        step_spec(e, CmdView::Reset, el).0 == (EngView { game: None }),
        step_spec(e, CmdView::Reset, el).1 == SrvView::Reply(snapshot_of(initial_game())),
{
}

} // verus!
