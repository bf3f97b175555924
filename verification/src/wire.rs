//! Compact wire representation of a position: eight 64-bit occupancy planes,
//! one per piece kind and one per color, with one bit per board square.

use vstd::prelude::*;
use crate::board::{BoardRep, Color, Piece, PieceKind, PosView};

verus! {

/// The 8-plane mask set sent to the presentation process.  Planes 0..6 hold
/// the piece kinds (rook, knight, bishop, queen, king, pawn), planes 6 and 7
/// the white and black occupancy.
#[derive(Clone, Copy, Debug, PartialEq, Eq)]
pub struct BitBoard {
    pub planes: [u64; 8],
}

/// Bit `i` of the mask is set.
pub open spec fn bit_set(m: u64, i: u64) -> bool {
    (m >> i) & 1u64 == 1u64
}

/// Plane number of a piece kind in the wire form.
pub open spec fn kind_plane(k: PieceKind) -> int {
    match k {
        PieceKind::Rook => 0,
        PieceKind::Knight => 1,
        PieceKind::Bishop => 2,
        PieceKind::Queen => 3,
        PieceKind::King => 4,
        PieceKind::Pawn => 5,
    }
}

/// Plane number of a color in the wire form.
pub open spec fn color_plane(c: Color) -> int {
    match c {
        Color::White => 6,
        Color::Black => 7,
    }
}

/// The mask `m` marks exactly the squares holding a piece of kind `k`.
pub open spec fn kind_plane_ok(b: Seq<Option<Piece>>, m: u64, k: PieceKind) -> bool {
    forall|s: u64|
        s < 64 ==> (#[trigger] bit_set(m, s) <==> (b[s as int] matches Some(p) && p.kind == k))
}

/// The mask `m` marks exactly the squares holding a piece of color `c`.
pub open spec fn color_plane_ok(b: Seq<Option<Piece>>, m: u64, c: Color) -> bool {
    forall|s: u64|
        s < 64 ==> (#[trigger] bit_set(m, s) <==> (b[s as int] matches Some(p) && p.color == c))
}

/// The wire form `w` is the faithful projection of the squares `b`: each
/// kind plane and each color plane marks exactly the right squares.  This
/// pins every bit of every plane.
pub open spec fn board_wire_ok(b: Seq<Option<Piece>>, w: BitBoard) -> bool {
    &&& forall|k: PieceKind| #[trigger] kind_plane_ok(b, w.planes[kind_plane(k)], k)
    &&& forall|c: Color| #[trigger] color_plane_ok(b, w.planes[color_plane(c)], c)
}

/// The wire form `w` is the faithful projection of the position `v`.
pub open spec fn wire_ok(v: PosView, w: BitBoard) -> bool {
    board_wire_ok(v.board, w)
}

proof fn lemma_or_bit(m: u64, i: u64, j: u64)
    by (bit_vector)
    requires
        i < 64,
        j < 64,
    ensures
        ((m | (1u64 << i)) >> j) & 1u64 == if i == j {
            1u64
        } else {
            (m >> j) & 1u64
        },
{
}

proof fn lemma_zero_bit(j: u64)
    by (bit_vector)
    ensures
        (0u64 >> j) & 1u64 == 0u64,
{
}

/// Build the mask of the squares for which `want` holds of the square's
/// piece, where `want` is the kind test (when `by_kind`) for `kind`, or the
/// color test for `color`.
fn build_plane(b: &BoardRep, by_kind: bool, kind: PieceKind, color: Color) -> (m: u64)
    requires
        b@.wf(),
    ensures
        by_kind ==> kind_plane_ok(b@.board, m, kind),
        !by_kind ==> color_plane_ok(b@.board, m, color),
{
    let mut m: u64 = 0;
    let mut s: usize = 0;
    proof {
        assert forall|j: u64| j < 64 implies !bit_set(0u64, j) by {
            lemma_zero_bit(j);
        };
    }
    while s < 64
        invariant
            b@.wf(),
            0 <= s <= 64,
            forall|j: u64|
                j < s ==> (#[trigger] bit_set(m, j) <==> (b@.board[j as int] matches Some(p) && (if by_kind {
                    p.kind == kind
                } else {
                    p.color == color
                }))),
            forall|j: u64| s <= j < 64 ==> !#[trigger] bit_set(m, j),
        decreases 64 - s,
    {
        let here = match b.squares[s] {
            Some(p) => {
                if by_kind {
                    p.kind == kind
                } else {
                    p.color == color
                }
            },
            None => false,
        };
        if here {
            let ghost m0 = m;
            m = m | (1u64 << (s as u64));
            proof {
                assert forall|j: u64| j < 64 implies bit_set(m, j) == (bit_set(m0, j) || j == s
                    as u64) by {
                    lemma_or_bit(m0, s as u64, j);
                };
            }
        }
        s = s + 1;
    }
    m
}

/// Convert the rich board representation to its 8-plane wire form.
pub fn boardrep_to_bitboard(b: &BoardRep) -> (w: BitBoard)
    requires
        b@.wf(),
    ensures
        wire_ok(b@, w),
{
    let rook = build_plane(b, true, PieceKind::Rook, Color::White);
    let knight = build_plane(b, true, PieceKind::Knight, Color::White);
    let bishop = build_plane(b, true, PieceKind::Bishop, Color::White);
    let queen = build_plane(b, true, PieceKind::Queen, Color::White);
    let king = build_plane(b, true, PieceKind::King, Color::White);
    let pawn = build_plane(b, true, PieceKind::Pawn, Color::White);
    let white = build_plane(b, false, PieceKind::Pawn, Color::White);
    let black = build_plane(b, false, PieceKind::Pawn, Color::Black);
    let w = BitBoard { planes: [rook, knight, bishop, queen, king, pawn, white, black] };
    proof {
        assert forall|k: PieceKind| #[trigger] kind_plane_ok(b@.board, w.planes[kind_plane(k)], k) by {
            match k {
                PieceKind::Rook => assert(w.planes[0] == rook),
                PieceKind::Knight => assert(w.planes[1] == knight),
                PieceKind::Bishop => assert(w.planes[2] == bishop),
                PieceKind::Queen => assert(w.planes[3] == queen),
                PieceKind::King => assert(w.planes[4] == king),
                PieceKind::Pawn => assert(w.planes[5] == pawn),
            }
        };
        assert forall|c: Color| #[trigger] color_plane_ok(b@.board, w.planes[color_plane(c)], c) by {
            match c {
                Color::White => assert(w.planes[6] == white),
                Color::Black => assert(w.planes[7] == black),
            }
        };
    }
    w
}

/// The piece a reader of the wire form derives for square (`x`, `y`):
/// the first kind plane with the square's bit set, colored by whichever
/// color plane has it set.
pub open spec fn decode_square(w: BitBoard, x: int, y: int) -> Option<Piece> {
    let s = (y * 8 + x) as u64;
    let color = if bit_set(w.planes[6], s) {
        Some(Color::White)
    } else if bit_set(w.planes[7], s) {
        Some(Color::Black)
    } else {
        None
    };
    let kind = if bit_set(w.planes[0], s) {
        Some(PieceKind::Rook)
    } else if bit_set(w.planes[1], s) {
        Some(PieceKind::Knight)
    } else if bit_set(w.planes[2], s) {
        Some(PieceKind::Bishop)
    } else if bit_set(w.planes[3], s) {
        Some(PieceKind::Queen)
    } else if bit_set(w.planes[4], s) {
        Some(PieceKind::King)
    } else if bit_set(w.planes[5], s) {
        Some(PieceKind::Pawn)
    } else {
        None
    };
    match (kind, color) {
        (Some(k), Some(c)) => Some(Piece { kind: k, color: c }),
        _ => None,
    }
}

/// Re-derive the occupancy of square (`x`, `y`) from the wire form.
pub fn piece_from_bitboard(w: &BitBoard, x: u8, y: u8) -> (r: Option<Piece>)
    requires
        x < 8,
        y < 8,
    ensures
        r == decode_square(*w, x as int, y as int),
{
    let s = (y as u64) * 8 + (x as u64);
    let color = if (w.planes[6] >> s) & 1u64 == 1u64 {
        Some(Color::White)
    } else if (w.planes[7] >> s) & 1u64 == 1u64 {
        Some(Color::Black)
    } else {
        None
    };
    let kind = if (w.planes[0] >> s) & 1u64 == 1u64 {
        Some(PieceKind::Rook)
    } else if (w.planes[1] >> s) & 1u64 == 1u64 {
        Some(PieceKind::Knight)
    } else if (w.planes[2] >> s) & 1u64 == 1u64 {
        Some(PieceKind::Bishop)
    } else if (w.planes[3] >> s) & 1u64 == 1u64 {
        Some(PieceKind::Queen)
    } else if (w.planes[4] >> s) & 1u64 == 1u64 {
        Some(PieceKind::King)
    } else if (w.planes[5] >> s) & 1u64 == 1u64 {
        Some(PieceKind::Pawn)
    } else {
        None
    };
    match (kind, color) {
        (Some(k), Some(c)) => Some(Piece { kind: k, color: c }),
        _ => None,
    }
}

/// The wire form of a position keeps the plane invariants: every square is
/// covered by at most one kind plane and at most one color plane, and a
/// square set in a kind plane is set in exactly one color plane.
pub proof fn lemma_wire_masks_exclusive(v: PosView, w: BitBoard, s: u64)
    requires
        v.wf(),
        wire_ok(v, w),
        s < 64,
    ensures
        forall|k1: PieceKind, k2: PieceKind|
            bit_set(#[trigger] w.planes[kind_plane(k1)], s) && bit_set(
                #[trigger] w.planes[kind_plane(k2)],
                s,
            ) ==> k1 == k2,
        !(bit_set(w.planes[6], s) && bit_set(w.planes[7], s)),
        (exists|k: PieceKind| bit_set(#[trigger] w.planes[kind_plane(k)], s)) <==> (bit_set(
            w.planes[6],
            s,
        ) || bit_set(w.planes[7], s)),
{
    assert forall|k: PieceKind| #[trigger]
        bit_set(w.planes[kind_plane(k)], s) implies (v.board[s as int] matches Some(p) && p.kind
        == k) by {
        assert(kind_plane_ok(v.board, w.planes[kind_plane(k)], k));
    };
    assert(kind_plane_ok(v.board, w.planes[kind_plane(PieceKind::Pawn)], PieceKind::Pawn));
    assert(kind_plane_ok(v.board, w.planes[kind_plane(PieceKind::Knight)], PieceKind::Knight));
    assert(kind_plane_ok(v.board, w.planes[kind_plane(PieceKind::Bishop)], PieceKind::Bishop));
    assert(kind_plane_ok(v.board, w.planes[kind_plane(PieceKind::Rook)], PieceKind::Rook));
    assert(kind_plane_ok(v.board, w.planes[kind_plane(PieceKind::Queen)], PieceKind::Queen));
    assert(kind_plane_ok(v.board, w.planes[kind_plane(PieceKind::King)], PieceKind::King));
    assert(color_plane_ok(v.board, w.planes[color_plane(Color::White)], Color::White));
    assert(color_plane_ok(v.board, w.planes[color_plane(Color::Black)], Color::Black));
    match v.board[s as int] {
        Some(p) => {
            assert(bit_set(w.planes[kind_plane(p.kind)], s));
        },
        None => {},
    }
}

/// Round trip: converting a position to the 8-plane wire form and re-deriving
/// the occupancy of any square gives back exactly the piece and color the
/// position holds there.
pub proof fn lemma_wire_round_trip(v: PosView, w: BitBoard, x: int, y: int)
    requires
        v.wf(),
        wire_ok(v, w),
        0 <= x < 8,
        0 <= y < 8,
    ensures
        decode_square(w, x, y) == v.at(x, y),
{
    let s = (y * 8 + x) as u64;
    assert(kind_plane_ok(v.board, w.planes[kind_plane(PieceKind::Rook)], PieceKind::Rook));
    assert(kind_plane_ok(v.board, w.planes[kind_plane(PieceKind::Knight)], PieceKind::Knight));
    assert(kind_plane_ok(v.board, w.planes[kind_plane(PieceKind::Bishop)], PieceKind::Bishop));
    assert(kind_plane_ok(v.board, w.planes[kind_plane(PieceKind::Queen)], PieceKind::Queen));
    assert(kind_plane_ok(v.board, w.planes[kind_plane(PieceKind::King)], PieceKind::King));
    assert(kind_plane_ok(v.board, w.planes[kind_plane(PieceKind::Pawn)], PieceKind::Pawn));
    assert(color_plane_ok(v.board, w.planes[color_plane(Color::White)], Color::White));
    assert(color_plane_ok(v.board, w.planes[color_plane(Color::Black)], Color::Black));
    assert(s < 64);
}

} // verus!
