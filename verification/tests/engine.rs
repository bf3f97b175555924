//! Board model, legality engine and wire-form behaviour on concrete games.

use cheess::board::{BoardRep, Color, Coordinates, Move, Piece, PieceKind};
use cheess::rules::{king_in_check, legal_moves, simulate_move};
use cheess::wire::{boardrep_to_bitboard, piece_from_bitboard};

fn mv(fx: u8, fy: u8, tx: u8, ty: u8) -> Move {
    Move {
        from: Coordinates { x: fx, y: fy },
        to: Coordinates { x: tx, y: ty },
        promotion: None,
    }
}

#[test]
fn starting_position_layout() {
    let b = BoardRep::starting();
    assert_eq!(
        b.piece_at(0, 0),
        Some(Piece { kind: PieceKind::Rook, color: Color::White })
    );
    assert_eq!(
        b.piece_at(4, 0),
        Some(Piece { kind: PieceKind::King, color: Color::White })
    );
    assert_eq!(
        b.piece_at(3, 1),
        Some(Piece { kind: PieceKind::Pawn, color: Color::White })
    );
    assert_eq!(b.piece_at(3, 3), None);
    assert_eq!(
        b.piece_at(4, 7),
        Some(Piece { kind: PieceKind::King, color: Color::Black })
    );
    assert_eq!(
        b.piece_at(6, 6),
        Some(Piece { kind: PieceKind::Pawn, color: Color::Black })
    );
    assert!(b.castle_wk && b.castle_wq && b.castle_bk && b.castle_bq);
    assert_eq!(b.ep_file, None);
}

#[test]
fn twenty_legal_moves_for_white_at_start() {
    let b = BoardRep::starting();
    let white = legal_moves(&b, Color::White);
    assert_eq!(white.len(), 20);
    let black = legal_moves(&b, Color::Black);
    assert_eq!(black.len(), 20);
}

#[test]
fn legal_moves_leave_own_king_safe() {
    let b = BoardRep::starting();
    for color in [Color::White, Color::Black] {
        for m in legal_moves(&b, color) {
            let after = simulate_move(&b, m);
            assert!(!king_in_check(&after, color));
        }
    }
}

#[test]
fn apply_empties_origin_and_fills_destination() {
    let b = BoardRep::starting();
    let m = mv(4, 1, 4, 3);
    assert!(legal_moves(&b, Color::White).contains(&m));
    let after = simulate_move(&b, m);
    assert_eq!(after.piece_at(4, 1), None);
    assert_eq!(
        after.piece_at(4, 3),
        Some(Piece { kind: PieceKind::Pawn, color: Color::White })
    );
    // the double push records en-passant eligibility for one ply
    assert_eq!(after.ep_file, Some(4));
}

#[test]
fn wire_round_trip_matches_every_square() {
    let b = BoardRep::starting();
    let w = boardrep_to_bitboard(&b);
    for y in 0..8u8 {
        for x in 0..8u8 {
            assert_eq!(piece_from_bitboard(&w, x, y), b.piece_at(x, y));
        }
    }
    let after = simulate_move(&b, mv(6, 0, 5, 2));
    let w2 = boardrep_to_bitboard(&after);
    for y in 0..8u8 {
        for x in 0..8u8 {
            assert_eq!(piece_from_bitboard(&w2, x, y), after.piece_at(x, y));
        }
    }
}

#[test]
fn wire_planes_use_the_documented_layout() {
    let b = BoardRep::starting();
    let w = boardrep_to_bitboard(&b);
    // white rook on a1 = square 0: rook plane and white plane have bit 0
    assert_eq!(w.planes[0] & 1, 1);
    assert_eq!(w.planes[6] & 1, 1);
    assert_eq!(w.planes[7] & 1, 0);
    // white pawns fill rank 1: pawn plane holds 0xff00 there
    assert_eq!(w.planes[5] & 0xffff, 0xff00);
    // black occupancy covers the top two ranks
    assert_eq!(w.planes[7], 0xffff_0000_0000_0000);
}

#[test]
fn en_passant_capture_removes_the_passed_pawn() {
    let mut b = BoardRep::starting();
    b = simulate_move(&b, mv(4, 1, 4, 3));
    b = simulate_move(&b, mv(0, 6, 0, 5));
    b = simulate_move(&b, mv(4, 3, 4, 4));
    b = simulate_move(&b, mv(3, 6, 3, 4));
    assert_eq!(b.ep_file, Some(3));
    let ep = mv(4, 4, 3, 5);
    assert!(legal_moves(&b, Color::White).contains(&ep));
    let after = simulate_move(&b, ep);
    assert_eq!(
        after.piece_at(3, 5),
        Some(Piece { kind: PieceKind::Pawn, color: Color::White })
    );
    assert_eq!(after.piece_at(4, 4), None);
    // the captured pawn is gone although the destination was empty
    assert_eq!(after.piece_at(3, 4), None);
    assert_eq!(after.ep_file, None);
}

#[test]
fn kingside_castle_moves_king_and_rook() {
    let mut b = BoardRep::starting();
    b = simulate_move(&b, mv(6, 0, 5, 2));
    b = simulate_move(&b, mv(0, 6, 0, 5));
    b = simulate_move(&b, mv(6, 1, 6, 2));
    b = simulate_move(&b, mv(1, 6, 1, 5));
    b = simulate_move(&b, mv(5, 0, 6, 1));
    b = simulate_move(&b, mv(2, 6, 2, 5));
    let castle = mv(4, 0, 6, 0);
    assert!(legal_moves(&b, Color::White).contains(&castle));
    let after = simulate_move(&b, castle);
    assert_eq!(
        after.piece_at(6, 0),
        Some(Piece { kind: PieceKind::King, color: Color::White })
    );
    assert_eq!(
        after.piece_at(5, 0),
        Some(Piece { kind: PieceKind::Rook, color: Color::White })
    );
    assert_eq!(after.piece_at(4, 0), None);
    assert_eq!(after.piece_at(7, 0), None);
    assert!(!after.castle_wk && !after.castle_wq);
}

#[test]
fn moving_a_rook_forfeits_that_castling_right() {
    let mut b = BoardRep::starting();
    b = simulate_move(&b, mv(0, 1, 0, 3));
    b = simulate_move(&b, mv(0, 6, 0, 5));
    b = simulate_move(&b, mv(0, 0, 0, 1));
    assert!(!b.castle_wq);
    assert!(b.castle_wk);
}

#[test]
fn fools_mate_is_detected_as_checkmate() {
    let mut b = BoardRep::starting();
    b = simulate_move(&b, mv(5, 1, 5, 2));
    b = simulate_move(&b, mv(4, 6, 4, 4));
    b = simulate_move(&b, mv(6, 1, 6, 3));
    let queen_mate = mv(3, 7, 7, 3);
    assert!(legal_moves(&b, Color::Black).contains(&queen_mate));
    b = simulate_move(&b, queen_mate);
    assert!(king_in_check(&b, Color::White));
    assert_eq!(legal_moves(&b, Color::White).len(), 0);
}

#[test]
fn per_piece_moves_are_the_legal_moves_from_that_square() {
    let b = BoardRep::starting();
    let pawn_moves = cheess::rules::get_valid_moves_for_piece(&b, Color::White, 4, 1);
    assert_eq!(pawn_moves, vec![mv(4, 1, 4, 2), mv(4, 1, 4, 3)]);
    let knight_moves = cheess::rules::get_valid_moves_for_piece(&b, Color::White, 1, 0);
    assert_eq!(knight_moves.len(), 2);
    assert!(knight_moves.contains(&mv(1, 0, 0, 2)));
    assert!(knight_moves.contains(&mv(1, 0, 2, 2)));
    // a blocked rook, and an empty square, offer nothing
    assert!(cheess::rules::get_valid_moves_for_piece(&b, Color::White, 0, 0).is_empty());
    assert!(cheess::rules::get_valid_moves_for_piece(&b, Color::White, 4, 4).is_empty());
}

#[test]
fn illegal_shapes_are_not_generated() {
    let b = BoardRep::starting();
    let white = legal_moves(&b, Color::White);
    // a rook cannot jump over its own pawn
    assert!(!white.contains(&mv(0, 0, 0, 3)));
    // a pawn cannot capture straight ahead or move sideways
    assert!(!white.contains(&mv(4, 1, 5, 2)));
    assert!(!white.contains(&mv(4, 1, 5, 1)));
    // the king cannot castle through blocked squares at the start
    assert!(!white.contains(&mv(4, 0, 6, 0)));
}
