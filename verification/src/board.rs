//! Board data model: squares, pieces, moves, and the rich board
//! representation that the legality engine works on.

use vstd::prelude::*;

verus! {

/// Side of a piece, or of the player to move.
#[derive(Clone, Copy, Debug, PartialEq, Eq, Structural)]
pub enum Color {
    White,
    Black,
}

impl Color {
    /// The opposing side.
    pub open spec fn other_spec(self) -> Color {
        match self {
            Color::White => Color::Black,
            Color::Black => Color::White,
        }
    }

    #[verifier::when_used_as_spec(other_spec)]
    pub fn other(self) -> (r: Color)
        ensures
            r == self.other_spec(),
    {
        match self {
            Color::White => Color::Black,
            Color::Black => Color::White,
        }
    }
}

/// Kind of a chess piece.
#[derive(Clone, Copy, Debug, PartialEq, Eq, Structural)]
pub enum PieceKind {
    Pawn,
    Knight,
    Bishop,
    Rook,
    Queen,
    King,
}

/// One piece: a kind together with the side it belongs to.
#[derive(Clone, Copy, Debug, PartialEq, Eq, Structural)]
pub struct Piece {
    pub kind: PieceKind,
    pub color: Color,
}

/// A board coordinate: file `x` and rank `y`, each in `[0, 8)`.
/// Rank 0 is White's back rank; White pawns advance toward larger `y`.
#[derive(Clone, Copy, Debug, PartialEq, Eq, Structural)]
pub struct Coordinates {
    pub x: u8,
    pub y: u8,
}

impl Coordinates {
    /// Linear square index, `y * 8 + x`, in `[0, 64)` for on-board coordinates.
    pub open spec fn index(self) -> int {
        self.y * 8 + self.x
    }

    /// Both components in range.
    pub open spec fn on_board(self) -> bool {
        self.x < 8 && self.y < 8
    }
}

/// A move: origin square, destination square, and an optional promotion kind
/// for a pawn reaching the last rank.  A move is only meaningful relative to
/// the board it was generated from.
#[derive(Clone, Copy, Debug, PartialEq, Eq, Structural)]
pub struct Move {
    pub from: Coordinates,
    pub to: Coordinates,
    pub promotion: Option<PieceKind>,
}

/// Mathematical model of a `BoardRep`: the 64 squares in rank-major order,
/// the four castling rights, and the en-passant file, if any.
pub struct PosView {
    pub board: Seq<Option<Piece>>,
    /// White may still castle kingside.
    pub wk: bool,
    /// White may still castle queenside.
    pub wq: bool,
    /// Black may still castle kingside.
    pub bk: bool,
    /// Black may still castle queenside.
    pub bq: bool,
    /// File of a pawn that just advanced two squares, eligible to be captured
    /// en passant on this ply.
    pub ep: Option<u8>,
}

impl PosView {
    /// Structural validity: 64 squares, en-passant file in range.
    pub open spec fn wf(self) -> bool {
        &&& self.board.len() == 64
        &&& match self.ep {
            Some(f) => f < 8,
            None => true,
        }
    }

    /// The content of the square at (`x`, `y`).
    pub open spec fn at(self, x: int, y: int) -> Option<Piece> {
        self.board[y * 8 + x]
    }
}

/// Rich board representation: per-square piece lookup plus the history-derived
/// state (castling rights, en-passant eligibility) that future legality checks
/// need.  It projects losslessly onto the 8-plane wire form.
#[derive(Debug)]
pub struct BoardRep {
    /// The 64 squares, index `y * 8 + x`.
    pub squares: Vec<Option<Piece>>,
    /// White may still castle kingside (king and h-rook unmoved).
    pub castle_wk: bool,
    /// White may still castle queenside.
    pub castle_wq: bool,
    /// Black may still castle kingside.
    pub castle_bk: bool,
    /// Black may still castle queenside.
    pub castle_bq: bool,
    /// File of a pawn that just advanced two squares, if any.
    pub ep_file: Option<u8>,
}

impl View for BoardRep {
    type V = PosView;

    open spec fn view(&self) -> PosView {
        PosView {
            board: self.squares@,
            wk: self.castle_wk,
            wq: self.castle_wq,
            bk: self.castle_bk,
            bq: self.castle_bq,
            ep: self.ep_file,
        }
    }
}

/// The piece standing on square `i` in the standard starting position.
pub open spec fn start_piece(i: int) -> Option<Piece> {
    let x = i % 8;
    let y = i / 8;
    if y == 1 {
        Some(Piece { kind: PieceKind::Pawn, color: Color::White })
    } else if y == 6 {
        Some(Piece { kind: PieceKind::Pawn, color: Color::Black })
    } else if y == 0 {
        Some(Piece { kind: back_rank_kind(x), color: Color::White })
    } else if y == 7 {
        Some(Piece { kind: back_rank_kind(x), color: Color::Black })
    } else {
        None
    }
}

/// The piece kind on file `x` of a back rank in the starting position.
pub open spec fn back_rank_kind(x: int) -> PieceKind {
    if x == 0 || x == 7 {
        PieceKind::Rook
    } else if x == 1 || x == 6 {
        PieceKind::Knight
    } else if x == 2 || x == 5 {
        PieceKind::Bishop
    } else if x == 3 {
        PieceKind::Queen
    } else {
        PieceKind::King
    }
}

/// The standard starting position as a view: all rights intact, no en-passant
/// square, pieces on their initial squares.
pub open spec fn start_pos() -> PosView {
    PosView {
        board: Seq::new(64, |i: int| start_piece(i)),
        wk: true,
        wq: true,
        bk: true,
        bq: true,
        ep: None,
    }
}

fn start_piece_exec(i: usize) -> (r: Option<Piece>)
    requires
        i < 64,
    ensures
        r == start_piece(i as int),
{
    let x = i % 8;
    let y = i / 8;
    if y == 1 {
        Some(Piece { kind: PieceKind::Pawn, color: Color::White })
    } else if y == 6 {
        Some(Piece { kind: PieceKind::Pawn, color: Color::Black })
    } else if y == 0 || y == 7 {
        let kind = if x == 0 || x == 7 {
            PieceKind::Rook
        } else if x == 1 || x == 6 {
            PieceKind::Knight
        } else if x == 2 || x == 5 {
            PieceKind::Bishop
        } else if x == 3 {
            PieceKind::Queen
        } else {
            PieceKind::King
        };
        let color = if y == 0 {
            Color::White
        } else {
            Color::Black
        };
        Some(Piece { kind, color })
    } else {
        None
    }
}

impl BoardRep {
    /// Construct the standard starting position.
    pub fn starting() -> (r: BoardRep)
        ensures
            r@ == start_pos(),
            r@.wf(),
    {
        let mut squares: Vec<Option<Piece>> = Vec::new();
        for i in 0..64usize
            invariant
                squares.len() == i,
                forall|j: int| 0 <= j < i ==> squares@[j] == start_piece(j),
        {
            squares.push(start_piece_exec(i));
        }
        let r = BoardRep {
            squares,
            castle_wk: true,
            castle_wq: true,
            castle_bk: true,
            castle_bq: true,
            ep_file: None,
        };
        proof {
            assert(r@.board =~= start_pos().board);
            assert(r@ == start_pos());
        }
        r
    }

    /// O(1) occupancy query: the piece on square (`x`, `y`), if any.
    pub fn piece_at(&self, x: u8, y: u8) -> (r: Option<Piece>)
        requires
            self@.wf(),
            x < 8,
            y < 8,
        ensures
            r == self@.at(x as int, y as int),
    {
        self.squares[y as usize * 8 + x as usize]
    }
}

} // verus!
