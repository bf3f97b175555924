//! Game state machine behaviour: clocks, promotion, terminal states, and the
//! automated opponent.

use cheess::ai::BigBrain;
use cheess::board::{BoardRep, Color, Coordinates, Move, Piece, PieceKind};
use cheess::game::{
    submit_promotion, take_turn, GameMode, GameState, MoveError, PlayerValidMoves,
    BLITZ_CLOCK_MS, DEFAULT_CLOCK_MS,
};
use cheess::rules::legal_moves;

fn mv(fx: u8, fy: u8, tx: u8, ty: u8) -> Move {
    Move {
        from: Coordinates { x: fx, y: fy },
        to: Coordinates { x: tx, y: ty },
        promotion: None,
    }
}

fn game_from_board(board: BoardRep) -> GameState {
    let white = legal_moves(&board, Color::White);
    let black = legal_moves(&board, Color::Black);
    GameState {
        board,
        move_list: PlayerValidMoves { white, black },
        player_turn: 1,
        white_timer: DEFAULT_CLOCK_MS,
        black_timer: DEFAULT_CLOCK_MS,
        mode: GameMode::Default,
        promotion_pending: None,
        game_over: false,
    }
}

fn empty_board() -> BoardRep {
    BoardRep {
        squares: vec![None; 64],
        castle_wk: false,
        castle_wq: false,
        castle_bk: false,
        castle_bq: false,
        ep_file: None,
    }
}

fn put(b: &mut BoardRep, x: u8, y: u8, kind: PieceKind, color: Color) {
    b.squares[y as usize * 8 + x as usize] = Some(Piece { kind, color });
}

#[test]
fn new_game_starts_with_full_clocks_and_white_to_move() {
    let gs = GameState::new();
    assert_eq!(gs.player_turn, 1);
    assert_eq!(gs.white_timer, DEFAULT_CLOCK_MS);
    assert_eq!(gs.black_timer, DEFAULT_CLOCK_MS);
    assert!(!gs.game_over);
    assert_eq!(gs.promotion_pending, None);
    assert_eq!(gs.move_list.white.len(), 20);
}

#[test]
fn blitz_mode_only_shortens_the_clocks() {
    let mut gs = GameState::new();
    gs.blitz_mode();
    assert_eq!(gs.mode, GameMode::Blitz);
    assert_eq!(gs.white_timer, BLITZ_CLOCK_MS);
    assert_eq!(gs.black_timer, BLITZ_CLOCK_MS);
    assert_eq!(gs.move_list.white.len(), 20);
}

#[test]
fn taking_a_turn_charges_only_the_movers_clock() {
    let mut gs = GameState::new();
    let r = take_turn(&mut gs, mv(4, 1, 4, 3), 2500);
    assert_eq!(r, Ok(()));
    assert_eq!(gs.white_timer, DEFAULT_CLOCK_MS - 2500);
    assert_eq!(gs.black_timer, DEFAULT_CLOCK_MS);
    assert_eq!(gs.player_turn, 2);
    assert!(!gs.game_over);
}

#[test]
fn rejected_move_changes_nothing() {
    let mut gs = GameState::new();
    let r = take_turn(&mut gs, mv(0, 0, 0, 3), 1000);
    assert_eq!(r, Err(MoveError::InvalidMove));
    assert_eq!(gs.player_turn, 1);
    assert_eq!(gs.white_timer, DEFAULT_CLOCK_MS);
    assert_eq!(gs.black_timer, DEFAULT_CLOCK_MS);
    let b = BoardRep::starting();
    for y in 0..8u8 {
        for x in 0..8u8 {
            assert_eq!(gs.board.piece_at(x, y), b.piece_at(x, y));
        }
    }
}

#[test]
fn exhausted_clock_forfeits_the_game() {
    let mut gs = GameState::new();
    let r = take_turn(&mut gs, mv(4, 1, 4, 3), DEFAULT_CLOCK_MS);
    assert_eq!(r, Ok(()));
    assert!(gs.game_over);
    assert_eq!(gs.white_timer, 0);
    // the move itself was never applied
    assert_eq!(gs.board.piece_at(4, 3), None);
}

#[test]
fn fools_mate_ends_the_game() {
    let mut gs = GameState::new();
    assert_eq!(take_turn(&mut gs, mv(5, 1, 5, 2), 1), Ok(()));
    assert_eq!(take_turn(&mut gs, mv(4, 6, 4, 4), 1), Ok(()));
    assert_eq!(take_turn(&mut gs, mv(6, 1, 6, 3), 1), Ok(()));
    assert_eq!(take_turn(&mut gs, mv(3, 7, 7, 3), 1), Ok(()));
    assert!(gs.game_over);
    assert_eq!(gs.move_list.white.len(), 0);
}

#[test]
fn promotion_is_held_until_a_kind_arrives() {
    let mut b = empty_board();
    put(&mut b, 4, 0, PieceKind::King, Color::White);
    put(&mut b, 0, 6, PieceKind::Pawn, Color::White);
    put(&mut b, 7, 7, PieceKind::King, Color::Black);
    let mut gs = game_from_board(b);
    let push = mv(0, 6, 0, 7);
    assert_eq!(take_turn(&mut gs, push, 10), Ok(()));
    assert_eq!(gs.promotion_pending, Some(push));
    // the pawn has arrived but keeps its kind until the choice lands
    assert_eq!(
        gs.board.piece_at(0, 7),
        Some(Piece { kind: PieceKind::Pawn, color: Color::White })
    );
    assert_eq!(gs.player_turn, 1);
    // a further plain move is refused while the kind is owed
    assert_eq!(
        take_turn(&mut gs, mv(4, 0, 4, 1), 10),
        Err(MoveError::ProtocolViolation)
    );
    assert_eq!(submit_promotion(&mut gs, PieceKind::Queen, 10), Ok(()));
    assert_eq!(
        gs.board.piece_at(0, 7),
        Some(Piece { kind: PieceKind::Queen, color: Color::White })
    );
    assert_eq!(gs.promotion_pending, None);
    assert_eq!(gs.player_turn, 2);
}

#[test]
fn promotion_kind_must_be_promotable() {
    let mut b = empty_board();
    put(&mut b, 4, 0, PieceKind::King, Color::White);
    put(&mut b, 0, 6, PieceKind::Pawn, Color::White);
    put(&mut b, 7, 7, PieceKind::King, Color::Black);
    let mut gs = game_from_board(b);
    assert_eq!(take_turn(&mut gs, mv(0, 6, 0, 7), 10), Ok(()));
    assert_eq!(
        submit_promotion(&mut gs, PieceKind::King, 10),
        Err(MoveError::InvalidMove)
    );
    assert_eq!(
        submit_promotion(&mut gs, PieceKind::Pawn, 10),
        Err(MoveError::InvalidMove)
    );
    assert_eq!(submit_promotion(&mut gs, PieceKind::Knight, 10), Ok(()));
    assert_eq!(
        gs.board.piece_at(0, 7),
        Some(Piece { kind: PieceKind::Knight, color: Color::White })
    );
}

#[test]
fn promotion_with_no_move_pending_is_a_protocol_error() {
    let mut gs = GameState::new();
    assert_eq!(
        submit_promotion(&mut gs, PieceKind::Queen, 10),
        Err(MoveError::ProtocolViolation)
    );
    assert_eq!(gs.player_turn, 1);
}

#[test]
fn resign_discards_a_pending_promotion() {
    let mut b = empty_board();
    put(&mut b, 4, 0, PieceKind::King, Color::White);
    put(&mut b, 0, 6, PieceKind::Pawn, Color::White);
    put(&mut b, 7, 7, PieceKind::King, Color::Black);
    let mut gs = game_from_board(b);
    assert_eq!(take_turn(&mut gs, mv(0, 6, 0, 7), 10), Ok(()));
    assert!(gs.promotion_pending.is_some());
    gs.resign();
    // a finished game never still owes a promotion kind
    assert!(gs.game_over);
    assert_eq!(gs.promotion_pending, None);
}

#[test]
fn timeout_while_promoting_ends_without_pending() {
    let mut b = empty_board();
    put(&mut b, 4, 0, PieceKind::King, Color::White);
    put(&mut b, 0, 6, PieceKind::Pawn, Color::White);
    put(&mut b, 7, 7, PieceKind::King, Color::Black);
    let mut gs = game_from_board(b);
    assert_eq!(take_turn(&mut gs, mv(0, 6, 0, 7), 10), Ok(()));
    assert_eq!(submit_promotion(&mut gs, PieceKind::Queen, DEFAULT_CLOCK_MS), Ok(()));
    assert!(gs.game_over);
    assert_eq!(gs.white_timer, 0);
    assert_eq!(gs.promotion_pending, None);
}

#[test]
fn automated_side_completes_its_own_promotion() {
    // Black's only legal move is a pawn advance onto its last rank
    let mut b = empty_board();
    put(&mut b, 4, 3, PieceKind::King, Color::White);
    put(&mut b, 6, 5, PieceKind::Queen, Color::White);
    put(&mut b, 0, 1, PieceKind::Pawn, Color::Black);
    put(&mut b, 7, 7, PieceKind::King, Color::Black);
    let mut gs = game_from_board(b);
    gs.player_turn = 2;
    assert_eq!(gs.move_list.black, vec![mv(0, 1, 0, 0)]);
    let brain = BigBrain::new();
    brain.ai_make_move(&mut gs, 1);
    assert_eq!(
        gs.board.piece_at(0, 0),
        Some(Piece { kind: PieceKind::Queen, color: Color::Black })
    );
    assert_eq!(gs.promotion_pending, None);
    assert_eq!(gs.player_turn, 1);
}

#[test]
fn resign_ends_the_game_at_once() {
    let mut gs = GameState::new();
    gs.resign();
    assert!(gs.game_over);
    assert_eq!(
        take_turn(&mut gs, mv(4, 1, 4, 3), 1),
        Err(MoveError::ProtocolViolation)
    );
}

#[test]
fn chosen_move_comes_from_the_offered_list() {
    let brain = BigBrain::new();
    let single = vec![mv(1, 1, 1, 2)];
    assert_eq!(brain.choose_move(&single), mv(1, 1, 1, 2));
    let several = vec![mv(0, 1, 0, 2), mv(1, 1, 1, 3), mv(6, 0, 5, 2)];
    for _ in 0..32 {
        let picked = brain.choose_move(&several);
        assert!(several.contains(&picked));
    }
}

#[test]
fn automated_side_replies_when_it_is_black_to_move() {
    let mut gs = GameState::new();
    assert_eq!(take_turn(&mut gs, mv(4, 1, 4, 3), 1), Ok(()));
    assert_eq!(gs.player_turn, 2);
    let brain = BigBrain::new();
    brain.ai_make_move(&mut gs, 1);
    assert_eq!(gs.player_turn, 1);
    assert!(!gs.game_over);
    // Black really moved: its back ranks no longer hold all sixteen pieces
    let mut black_home = 0;
    for y in 6..8u8 {
        for x in 0..8u8 {
            if gs.board.piece_at(x, y).is_some() {
                black_home += 1;
            }
        }
    }
    assert_eq!(black_home, 15);
}

#[test]
fn automated_side_stays_quiet_on_whites_turn() {
    let mut gs = GameState::new();
    let brain = BigBrain::new();
    brain.ai_make_move(&mut gs, 1);
    assert_eq!(gs.player_turn, 1);
    let b = BoardRep::starting();
    for y in 0..8u8 {
        for x in 0..8u8 {
            assert_eq!(gs.board.piece_at(x, y), b.piece_at(x, y));
        }
    }
}
