//! Protocol surface: request-line parsing, the engine transition function,
//! and the FIFO coordinator.

use cheess::board::{BoardRep, Color, Coordinates, Move, Piece, PieceKind};
use cheess::game::{GameMode, GameState, MoveError, PlayerValidMoves, BLITZ_CLOCK_MS, DEFAULT_CLOCK_MS};
use cheess::parse::{parse_command, parse_move_text, parse_promotion_text, InputType};
use cheess::protocol::{Engine, Response, ServerResponse};
use cheess::queue::{pump, ResponseQueue, UserInput};
use cheess::rules::legal_moves;
use cheess::wire::piece_from_bitboard;

fn mv(fx: u8, fy: u8, tx: u8, ty: u8) -> Move {
    Move {
        from: Coordinates { x: fx, y: fy },
        to: Coordinates { x: tx, y: ty },
        promotion: None,
    }
}

fn reply(sr: ServerResponse) -> Response {
    match sr {
        ServerResponse::Response(r) => r,
        ServerResponse::Error(e) => panic!("expected a snapshot, got {:?}", e),
    }
}

fn fault(sr: ServerResponse) -> MoveError {
    match sr {
        ServerResponse::Error(e) => e,
        ServerResponse::Response(_) => panic!("expected an error reply"),
    }
}

#[test]
fn request_lines_parse_to_commands() {
    assert!(matches!(parse_command("exit"), InputType::Exit));
    assert!(matches!(parse_command("  ReSiGn \n"), InputType::Resign));
    assert!(matches!(parse_command("RESET\n"), InputType::Reset));
    assert!(matches!(
        parse_command("\"default\"\n"),
        InputType::GameMode(GameMode::Default)
    ));
    assert!(matches!(
        parse_command("\"BLITZ\""),
        InputType::GameMode(GameMode::Blitz)
    ));
    match parse_command("  (1,1) (1,2)\n") {
        InputType::Move(s) => assert_eq!(s, "(1,1) (1,2)"),
        other => panic!("unexpected command {:?}", other),
    }
    match parse_command("gibberish") {
        InputType::Move(s) => assert_eq!(s, "gibberish"),
        other => panic!("unexpected command {:?}", other),
    }
}

#[test]
fn move_text_grammar_is_exact() {
    assert_eq!(parse_move_text("(1,1) (1,2)"), Some(mv(1, 1, 1, 2)));
    assert_eq!(parse_move_text("(0,7) (7,0)"), Some(mv(0, 7, 7, 0)));
    assert_eq!(parse_move_text("(8,1) (1,2)"), None);
    assert_eq!(parse_move_text("(1,1)(1,2)"), None);
    assert_eq!(parse_move_text("1,1 1,2"), None);
    assert_eq!(parse_move_text(""), None);
}

#[test]
fn promotion_text_names_the_four_kinds() {
    assert_eq!(parse_promotion_text("Rook"), Some(PieceKind::Rook));
    assert_eq!(parse_promotion_text("knight"), Some(PieceKind::Knight));
    assert_eq!(parse_promotion_text("BISHOP"), Some(PieceKind::Bishop));
    assert_eq!(parse_promotion_text("Queen"), Some(PieceKind::Queen));
    assert_eq!(parse_promotion_text("king"), None);
    assert_eq!(parse_promotion_text("pawn"), None);
    assert_eq!(parse_promotion_text("queenx"), None);
}

#[test]
fn mode_select_then_first_move_flips_turn_and_starts_clocks() {
    let mut e = Engine::new();
    let r1 = reply(e.step(parse_command("\"default\"\n"), 500));
    // clocks have not started at mode selection
    assert_eq!(r1.timer_white, DEFAULT_CLOCK_MS);
    assert_eq!(r1.timer_black, DEFAULT_CLOCK_MS);
    assert_eq!(r1.player_turn, 1);
    assert!(!r1.game_end && !r1.promotion_required);
    let r2 = reply(e.step(parse_command("(1,1) (1,2)\n"), 700));
    // the pawn advanced
    assert_eq!(piece_from_bitboard(&r2.board, 1, 1), None);
    assert_eq!(
        piece_from_bitboard(&r2.board, 1, 2),
        Some(Piece { kind: PieceKind::Pawn, color: Color::White })
    );
    // the active color flipped and only the mover's clock ran
    assert_eq!(r2.player_turn, 2);
    assert_eq!(r2.timer_white, DEFAULT_CLOCK_MS - 700);
    assert_eq!(r2.timer_black, DEFAULT_CLOCK_MS);
}

#[test]
fn blitz_select_starts_with_short_clocks() {
    let mut e = Engine::new();
    let r = reply(e.step(parse_command("\"blitz\""), 0));
    assert_eq!(r.timer_white, BLITZ_CLOCK_MS);
    assert_eq!(r.timer_black, BLITZ_CLOCK_MS);
}

#[test]
fn reset_returns_to_mode_selection_with_a_fresh_board() {
    let mut e = Engine::new();
    let _ = e.step(parse_command("\"blitz\""), 0);
    let _ = e.step(parse_command("(1,1) (1,3)"), 10);
    let r = reply(e.step(parse_command("reset"), 0));
    assert!(e.game.is_none());
    assert_eq!(r.timer_white, DEFAULT_CLOCK_MS);
    assert_eq!(r.timer_black, DEFAULT_CLOCK_MS);
    assert_eq!(r.player_turn, 1);
    let start = BoardRep::starting();
    for y in 0..8u8 {
        for x in 0..8u8 {
            assert_eq!(piece_from_bitboard(&r.board, x, y), start.piece_at(x, y));
        }
    }
    // a fresh match can be selected again afterwards
    let r2 = reply(e.step(parse_command("\"default\""), 0));
    assert_eq!(r2.player_turn, 1);
}

#[test]
fn unknown_move_yields_invalid_move_and_changes_nothing() {
    let mut e = Engine::new();
    let _ = e.step(parse_command("\"default\""), 0);
    let before = reply(e.step(parse_command("exit"), 0));
    let r = e.step(parse_command("(0,3) (0,4)"), 10);
    assert_eq!(fault(r), MoveError::InvalidMove);
    let after = reply(e.step(parse_command("exit"), 0));
    assert_eq!(before, after);
}

#[test]
fn malformed_text_yields_parse_error() {
    let mut e = Engine::new();
    let _ = e.step(parse_command("\"default\""), 0);
    assert_eq!(fault(e.step(parse_command("gibberish"), 5)), MoveError::ParseError);
    assert_eq!(fault(e.step(parse_command("(9,9) (0,0)"), 5)), MoveError::ParseError);
}

#[test]
fn commands_before_mode_selection_are_protocol_errors() {
    let mut e = Engine::new();
    assert_eq!(
        fault(e.step(parse_command("(1,1) (1,2)"), 0)),
        MoveError::ProtocolViolation
    );
    assert_eq!(fault(e.step(parse_command("resign"), 0)), MoveError::ProtocolViolation);
}

#[test]
fn moves_during_the_automated_sides_turn_are_wrong_turn() {
    let mut e = Engine::new();
    let _ = e.step(parse_command("\"default\""), 0);
    let _ = e.step(parse_command("(1,1) (1,2)"), 1);
    assert_eq!(
        fault(e.step(parse_command("(2,1) (2,2)"), 1)),
        MoveError::WrongTurn
    );
}

#[test]
fn resign_reports_game_over() {
    let mut e = Engine::new();
    let _ = e.step(parse_command("\"default\""), 0);
    let r = reply(e.step(parse_command("resign"), 0));
    assert!(r.game_end);
}

#[test]
fn promotion_over_the_protocol_blocks_plain_moves() {
    let mut b = BoardRep {
        squares: vec![None; 64],
        castle_wk: false,
        castle_wq: false,
        castle_bk: false,
        castle_bq: false,
        ep_file: None,
    };
    b.squares[0 * 8 + 4] = Some(Piece { kind: PieceKind::King, color: Color::White });
    b.squares[6 * 8 + 0] = Some(Piece { kind: PieceKind::Pawn, color: Color::White });
    b.squares[7 * 8 + 7] = Some(Piece { kind: PieceKind::King, color: Color::Black });
    let white = legal_moves(&b, Color::White);
    let black = legal_moves(&b, Color::Black);
    let gs = GameState {
        board: b,
        move_list: PlayerValidMoves { white, black },
        player_turn: 1,
        white_timer: DEFAULT_CLOCK_MS,
        black_timer: DEFAULT_CLOCK_MS,
        mode: GameMode::Default,
        promotion_pending: None,
        game_over: false,
    };
    let mut e = Engine { game: Some(gs) };
    let r = reply(e.step(parse_command("(0,6) (0,7)"), 5));
    assert!(r.promotion_required);
    assert_eq!(r.player_turn, 1);
    // a plain move is rejected with a protocol error until the kind arrives
    assert_eq!(
        fault(e.step(parse_command("(4,0) (4,1)"), 5)),
        MoveError::ProtocolViolation
    );
    // garbage while a kind is owed is a parse error
    assert_eq!(fault(e.step(parse_command("zzz"), 5)), MoveError::ParseError);
    let done = reply(e.step(parse_command("Queen"), 5));
    assert!(!done.promotion_required);
    assert_eq!(done.player_turn, 2);
    assert_eq!(
        piece_from_bitboard(&done.board, 0, 7),
        Some(Piece { kind: PieceKind::Queen, color: Color::White })
    );
}

#[test]
fn resigning_while_a_kind_is_owed_clears_the_promotion_flag() {
    let mut b = BoardRep {
        squares: vec![None; 64],
        castle_wk: false,
        castle_wq: false,
        castle_bk: false,
        castle_bq: false,
        ep_file: None,
    };
    b.squares[0 * 8 + 4] = Some(Piece { kind: PieceKind::King, color: Color::White });
    b.squares[6 * 8 + 0] = Some(Piece { kind: PieceKind::Pawn, color: Color::White });
    b.squares[7 * 8 + 7] = Some(Piece { kind: PieceKind::King, color: Color::Black });
    let white = legal_moves(&b, Color::White);
    let black = legal_moves(&b, Color::Black);
    let gs = GameState {
        board: b,
        move_list: PlayerValidMoves { white, black },
        player_turn: 1,
        white_timer: DEFAULT_CLOCK_MS,
        black_timer: DEFAULT_CLOCK_MS,
        mode: GameMode::Default,
        promotion_pending: None,
        game_over: false,
    };
    let mut e = Engine { game: Some(gs) };
    let pending = reply(e.step(parse_command("(0,6) (0,7)"), 5));
    assert!(pending.promotion_required);
    // game-end and promotion-required are never reported together
    let resigned = reply(e.step(parse_command("resign"), 5));
    assert!(resigned.game_end);
    assert!(!resigned.promotion_required);
    // once the match is over, a plain move is a no-op snapshot of it
    let after = reply(e.step(parse_command("(4,0) (4,1)"), 5));
    assert!(after.game_end && !after.promotion_required);
}

#[test]
fn queues_are_strictly_first_in_first_out() {
    let mut q = UserInput::new();
    q.enqueue_command(InputType::Reset);
    q.enqueue_command(InputType::Exit);
    q.enqueue_command(InputType::Resign);
    assert!(matches!(q.dequeue_command(), Some(InputType::Reset)));
    assert!(matches!(q.dequeue_command(), Some(InputType::Exit)));
    assert!(matches!(q.dequeue_command(), Some(InputType::Resign)));
    assert!(q.dequeue_command().is_none());
}

#[test]
fn pumped_responses_come_back_in_command_order() {
    let lines = [
        "\"default\"",
        "(1,1) (1,2)",
        "(9,9) (0,0)",
        "reset",
        "\"blitz\"",
        "(4,1) (4,3)",
    ];
    // reference: the same commands stepped one at a time
    let mut reference = Engine::new();
    let expected: Vec<ServerResponse> =
        lines.iter().map(|l| reference.step(parse_command(l), 3)).collect();

    let mut e = Engine::new();
    let mut inq = UserInput::new();
    let mut outq = ResponseQueue::new();
    for l in lines {
        inq.enqueue_command(parse_command(l));
    }
    pump(&mut e, &mut inq, &mut outq, 3);
    assert!(inq.dequeue_command().is_none());
    let mut got = Vec::new();
    while let Some(r) = outq.dequeue_response() {
        got.push(r);
    }
    assert_eq!(got.len(), lines.len());
    assert_eq!(got, expected);
}
