//! Legality engine: movement rules, attack detection, move application and
//! legal-move enumeration, with their mathematical specifications.

use vstd::prelude::*;
use crate::board::{BoardRep, Color, Coordinates, Move, Piece, PieceKind, PosView};

verus! {

/// Sign of an integer: -1, 0 or 1.
pub open spec fn delta_sign(a: int) -> int {
    if a > 0 {
        1
    } else if a < 0 {
        -1
    } else {
        0
    }
}

/// Absolute value of an integer.
pub open spec fn delta_abs(a: int) -> int {
    if a >= 0 {
        a
    } else {
        -a
    }
}

/// The `n` squares reached from (`x`, `y`) by stepping (`dx`, `dy`) once, then
/// twice, and so on, are all empty.  This is the path-clearness condition for
/// sliding pieces: the squares strictly between origin and destination.
pub open spec fn seg_clear(b: Seq<Option<Piece>>, x: int, y: int, dx: int, dy: int, n: nat) -> bool
    decreases n,
{
    n == 0 || {
        let nx = x + dx;
        let ny = y + dy;
        b[ny * 8 + nx] is None && seg_clear(b, nx, ny, dx, dy, (n - 1) as nat)
    }
}

/// Rook-shaped line: same file or same rank.
pub open spec fn rook_line(fx: int, fy: int, tx: int, ty: int) -> bool {
    fx == tx || fy == ty
}

/// Bishop-shaped line: equal file and rank distance.
pub open spec fn diag_line(fx: int, fy: int, tx: int, ty: int) -> bool {
    delta_abs(tx - fx) == delta_abs(ty - fy)
}

/// Number of king steps between the two squares.
pub open spec fn cheb(fx: int, fy: int, tx: int, ty: int) -> int {
    if delta_abs(tx - fx) >= delta_abs(ty - fy) {
        delta_abs(tx - fx)
    } else {
        delta_abs(ty - fy)
    }
}

/// All squares strictly between the two (aligned) squares are empty.
pub open spec fn path_clear(b: Seq<Option<Piece>>, fx: int, fy: int, tx: int, ty: int) -> bool {
    seg_clear(
        b,
        fx,
        fy,
        delta_sign(tx - fx),
        delta_sign(ty - fy),
        (cheb(fx, fy, tx, ty) - 1) as nat,
    )
}

/// Knight jump shape.
pub open spec fn knight_jump(fx: int, fy: int, tx: int, ty: int) -> bool {
    (delta_abs(tx - fx) == 1 && delta_abs(ty - fy) == 2) || (delta_abs(tx - fx) == 2 && delta_abs(
        ty - fy,
    ) == 1)
}

/// Single king step shape.
pub open spec fn king_step(fx: int, fy: int, tx: int, ty: int) -> bool {
    cheb(fx, fy, tx, ty) == 1
}

/// Direction a pawn of the given color advances in (rank 0 is White's side).
pub open spec fn pawn_dir(c: Color) -> int {
    if c is White {
        1
    } else {
        -1
    }
}

/// The piece standing on (`fx`, `fy`) attacks square (`tx`, `ty`): the
/// capture-shape relation used for check detection.  Pawns attack only
/// diagonally; castling and pawn pushes are not attacks.
pub open spec fn attack_shape(
    b: Seq<Option<Piece>>,
    p: Piece,
    fx: int,
    fy: int,
    tx: int,
    ty: int,
) -> bool {
    match p.kind {
        PieceKind::Pawn => ty - fy == pawn_dir(p.color) && (tx == fx + 1 || tx == fx - 1),
        PieceKind::Knight => knight_jump(fx, fy, tx, ty),
        PieceKind::King => king_step(fx, fy, tx, ty),
        PieceKind::Rook => rook_line(fx, fy, tx, ty) && path_clear(b, fx, fy, tx, ty),
        PieceKind::Bishop => diag_line(fx, fy, tx, ty) && path_clear(b, fx, fy, tx, ty),
        PieceKind::Queen => (rook_line(fx, fy, tx, ty) || diag_line(fx, fy, tx, ty)) && path_clear(
            b,
            fx,
            fy,
            tx,
            ty,
        ),
    }
}

/// Some piece on (`fx`, `fy`) attacks (`tx`, `ty`).
pub open spec fn attacks(b: Seq<Option<Piece>>, fx: int, fy: int, tx: int, ty: int) -> bool {
    &&& 0 <= fx < 8 && 0 <= fy < 8 && 0 <= tx < 8 && 0 <= ty < 8
    &&& !(fx == tx && fy == ty)
    &&& match b[fy * 8 + fx] {
        Some(p) => attack_shape(b, p, fx, fy, tx, ty),
        None => false,
    }
}

/// Square (`tx`, `ty`) is attacked by some piece of color `by`.
pub open spec fn attacked(b: Seq<Option<Piece>>, tx: int, ty: int, by: Color) -> bool {
    exists|fx: int, fy: int|
        0 <= fx < 8 && 0 <= fy < 8 && (b[fy * 8 + fx] matches Some(p) && p.color == by)
            && #[trigger] attacks(b, fx, fy, tx, ty)
}

/// The king of color `c` stands on a square attacked by the other side.
pub open spec fn in_check(b: Seq<Option<Piece>>, c: Color) -> bool {
    exists|kx: int, ky: int|
        0 <= kx < 8 && 0 <= ky < 8 && b[ky * 8 + kx] == Some(
            Piece { kind: PieceKind::King, color: c },
        ) && #[trigger] attacked(b, kx, ky, c.other())
}

/// Rank a pawn of color `c` starts on.
pub open spec fn pawn_start_rank(c: Color) -> int {
    if c is White {
        1
    } else {
        6
    }
}

/// Last rank for a pawn of color `c`: reaching it promotes.
pub open spec fn last_rank(c: Color) -> int {
    if c is White {
        7
    } else {
        0
    }
}

/// Rank a pawn of color `c` captures en passant from.
pub open spec fn ep_rank(c: Color) -> int {
    if c is White {
        4
    } else {
        3
    }
}

/// Pawn movement: single push, double push from the start rank, diagonal
/// capture, or en-passant capture of a pawn that just double-advanced.
pub open spec fn pawn_move(v: PosView, c: Color, fx: int, fy: int, tx: int, ty: int) -> bool {
    let d = pawn_dir(c);
    ||| (tx == fx && ty == fy + d && v.at(tx, ty) is None)
    ||| (tx == fx && fy == pawn_start_rank(c) && ty == fy + 2 * d && v.at(fx, fy + d) is None
        && v.at(tx, ty) is None)
    ||| ((tx == fx + 1 || tx == fx - 1) && ty == fy + d && (v.at(tx, ty) matches Some(q)
        && q.color != c))
    ||| ((tx == fx + 1 || tx == fx - 1) && ty == fy + d && fy == ep_rank(c) && v.at(tx, ty) is None
        && v.ep == Some(tx as u8) && v.at(tx, fy) == Some(
        Piece { kind: PieceKind::Pawn, color: c.other() },
    ))
}

/// Castling: the king on its home square moves two files toward an unmoved
/// rook, the squares between are empty, the right is intact, and neither the
/// king's square nor the squares it crosses are attacked.
pub open spec fn castle_move(v: PosView, c: Color, m: Move) -> bool {
    let y = if c is White {
        0int
    } else {
        7int
    };
    let foe = c.other();
    &&& m.from.x == 4 && m.from.y == y && m.to.y == y
    &&& !attacked(v.board, 4, y, foe)
    &&& {
        ||| (m.to.x == 6 && (if c is White {
            v.wk
        } else {
            v.bk
        }) && v.at(7, y) == Some(Piece { kind: PieceKind::Rook, color: c }) && v.at(5, y) is None
            && v.at(6, y) is None && !attacked(v.board, 5, y, foe) && !attacked(v.board, 6, y, foe))
        ||| (m.to.x == 2 && (if c is White {
            v.wq
        } else {
            v.bq
        }) && v.at(0, y) == Some(Piece { kind: PieceKind::Rook, color: c }) && v.at(1, y) is None
            && v.at(2, y) is None && v.at(3, y) is None && !attacked(v.board, 3, y, foe)
            && !attacked(v.board, 2, y, foe))
    }
}

/// Movement-shape rule for the piece `p` standing on the origin of `m`.
pub open spec fn move_shape(v: PosView, p: Piece, m: Move) -> bool {
    let fx = m.from.x as int;
    let fy = m.from.y as int;
    let tx = m.to.x as int;
    let ty = m.to.y as int;
    match p.kind {
        PieceKind::Pawn => pawn_move(v, p.color, fx, fy, tx, ty),
        PieceKind::Knight => knight_jump(fx, fy, tx, ty),
        PieceKind::King => king_step(fx, fy, tx, ty) || castle_move(v, p.color, m),
        PieceKind::Rook => rook_line(fx, fy, tx, ty) && path_clear(v.board, fx, fy, tx, ty),
        PieceKind::Bishop => diag_line(fx, fy, tx, ty) && path_clear(v.board, fx, fy, tx, ty),
        PieceKind::Queen => (rook_line(fx, fy, tx, ty) || diag_line(fx, fy, tx, ty)) && path_clear(
            v.board,
            fx,
            fy,
            tx,
            ty,
        ),
    }
}

/// A promotion kind may only accompany a pawn move onto its last rank, and
/// may name neither a pawn nor a king.
pub open spec fn promotion_ok(p: Piece, m: Move) -> bool {
    match m.promotion {
        None => true,
        Some(k) => p.kind is Pawn && m.to.y == last_rank(p.color) && k != PieceKind::Pawn && k
            != PieceKind::King,
    }
}

/// A pseudo-legal move: obeys the piece movement rules, but may still leave
/// the mover's own king in check.
pub open spec fn pseudo_legal(v: PosView, m: Move) -> bool {
    &&& m.from.on_board() && m.to.on_board()
    &&& m.from != m.to
    &&& match v.at(m.from.x as int, m.from.y as int) {
        Some(p) => {
            &&& (match v.at(m.to.x as int, m.to.y as int) {
                Some(q) => q.color != p.color,
                None => true,
            })
            &&& move_shape(v, p, m)
            &&& promotion_ok(p, m)
        },
        None => false,
    }
}

/// Walk the squares strictly between the two aligned squares and test that
/// they are all empty.
fn seg_clear_exec(b: &BoardRep, fx: u8, fy: u8, tx: u8, ty: u8) -> (r: bool)
    requires
        b@.wf(),
        fx < 8 && fy < 8 && tx < 8 && ty < 8,
        !(fx == tx && fy == ty),
        rook_line(fx as int, fy as int, tx as int, ty as int) || diag_line(
            fx as int,
            fy as int,
            tx as int,
            ty as int,
        ),
    ensures
        r == path_clear(b@.board, fx as int, fy as int, tx as int, ty as int),
{
    let dx: i16 = if tx > fx {
        1
    } else if tx < fx {
        -1
    } else {
        0
    };
    let dy: i16 = if ty > fy {
        1
    } else if ty < fy {
        -1
    } else {
        0
    };
    let adx: i16 = if tx >= fx {
        tx as i16 - fx as i16
    } else {
        fx as i16 - tx as i16
    };
    let ady: i16 = if ty >= fy {
        ty as i16 - fy as i16
    } else {
        fy as i16 - ty as i16
    };
    let n: i16 = if adx >= ady {
        adx - 1
    } else {
        ady - 1
    };
    let ghost target = path_clear(b@.board, fx as int, fy as int, tx as int, ty as int);
    let mut cx: i16 = fx as i16;
    let mut cy: i16 = fy as i16;
    let mut k: i16 = 0;
    assert(n == cheb(fx as int, fy as int, tx as int, ty as int) - 1);
    while k < n
        invariant
            b@.wf(),
            0 <= k <= n,
            n <= 7,
            0 <= cx < 8 && 0 <= cy < 8,
            dx == delta_sign(tx as int - fx as int),
            dy == delta_sign(ty as int - fy as int),
            fx < 8 && fy < 8 && tx < 8 && ty < 8,
            target == path_clear(b@.board, fx as int, fy as int, tx as int, ty as int),
            (dx == 1 ==> cx + (n - k) + 1 == tx),
            (dx == -1 ==> cx - (n - k) - 1 == tx),
            (dx == 0 ==> cx == tx),
            (dy == 1 ==> cy + (n - k) + 1 == ty),
            (dy == -1 ==> cy - (n - k) - 1 == ty),
            (dy == 0 ==> cy == ty),
            seg_clear(b@.board, cx as int, cy as int, dx as int, dy as int, (n - k) as nat)
                == target,
        decreases n - k,
    {
        let nx = cx + dx;
        let ny = cy + dy;
        assert(0 <= nx < 8 && 0 <= ny < 8);
        let idx: usize = ny as usize * 8 + nx as usize;
        if b.squares[idx].is_some() {
            proof {
                assert((n - k) as nat != 0);
                assert(b@.board[(cy + dy) * 8 + (cx + dx)] is Some);
                assert(!seg_clear(
                    b@.board,
                    cx as int,
                    cy as int,
                    dx as int,
                    dy as int,
                    (n - k) as nat,
                ));
            }
            return false;
        }
        cx = nx;
        cy = ny;
        k = k + 1;
    }
    true
}

/// Does the piece on (`fx`, `fy`), if any, attack (`tx`, `ty`)?
fn attacks_exec(b: &BoardRep, fx: u8, fy: u8, tx: u8, ty: u8) -> (r: bool)
    requires
        b@.wf(),
        fx < 8 && fy < 8 && tx < 8 && ty < 8,
    ensures
        r == attacks(b@.board, fx as int, fy as int, tx as int, ty as int),
{
    if fx == tx && fy == ty {
        return false;
    }
    let p = match b.piece_at(fx, fy) {
        Some(p) => p,
        None => {
            return false;
        },
    };
    let dxa: i16 = if tx >= fx {
        tx as i16 - fx as i16
    } else {
        fx as i16 - tx as i16
    };
    let dya: i16 = if ty >= fy {
        ty as i16 - fy as i16
    } else {
        fy as i16 - ty as i16
    };
    match p.kind {
        PieceKind::Pawn => {
            let dir: i16 = if matches!(p.color, Color::White) {
                1
            } else {
                -1
            };
            ty as i16 - fy as i16 == dir && dxa == 1
        },
        PieceKind::Knight => (dxa == 1 && dya == 2) || (dxa == 2 && dya == 1),
        PieceKind::King => dxa <= 1 && dya <= 1,
        PieceKind::Rook => (fx == tx || fy == ty) && seg_clear_exec(b, fx, fy, tx, ty),
        PieceKind::Bishop => dxa == dya && seg_clear_exec(b, fx, fy, tx, ty),
        PieceKind::Queen => (fx == tx || fy == ty || dxa == dya) && seg_clear_exec(
            b,
            fx,
            fy,
            tx,
            ty,
        ),
    }
}

/// The piece on linear square `s`, if any, is of color `by` and attacks
/// (`tx`, `ty`).  Single-index form of the attacker condition, used to drive
/// the search loops.
pub open spec fn attacker_at(b: Seq<Option<Piece>>, s: int, tx: int, ty: int, by: Color) -> bool {
    (b[s] matches Some(p) && p.color == by) && attacks(b, s % 8, s / 8, tx, ty)
}

proof fn lemma_square_index(x: int, y: int)
    by (nonlinear_arith)
    requires
        0 <= x < 8,
        0 <= y,
    ensures
        (y * 8 + x) % 8 == x,
        (y * 8 + x) / 8 == y,
{
}

/// The two-coordinate and the single-index attacker conditions describe the
/// same squares.
proof fn lemma_attacked_by_index(b: Seq<Option<Piece>>, tx: int, ty: int, by: Color)
    ensures
        attacked(b, tx, ty, by) <==> exists|s: int| 0 <= s < 64 && #[trigger] attacker_at(b, s, tx, ty, by),
{
    if attacked(b, tx, ty, by) {
        let (fx, fy) = choose|fx: int, fy: int|
            0 <= fx < 8 && 0 <= fy < 8 && (b[fy * 8 + fx] matches Some(p) && p.color == by)
                && #[trigger] attacks(b, fx, fy, tx, ty);
        lemma_square_index(fx, fy);
        assert(attacker_at(b, fy * 8 + fx, tx, ty, by));
    }
    if exists|s: int| 0 <= s < 64 && #[trigger] attacker_at(b, s, tx, ty, by) {
        let s = choose|s: int| 0 <= s < 64 && #[trigger] attacker_at(b, s, tx, ty, by);
        assert(0 <= s % 8 < 8 && 0 <= s / 8 < 8);
        assert((s / 8) * 8 + s % 8 == s) by (nonlinear_arith);
        assert(attacks(b, s % 8, s / 8, tx, ty));
    }
}

/// Is square (`tx`, `ty`) attacked by any piece of color `by`?
pub fn square_attacked(b: &BoardRep, tx: u8, ty: u8, by: Color) -> (r: bool)
    requires
        b@.wf(),
        tx < 8 && ty < 8,
    ensures
        r == attacked(b@.board, tx as int, ty as int, by),
{
    proof {
        lemma_attacked_by_index(b@.board, tx as int, ty as int, by);
    }
    let mut i: usize = 0;
    while i < 64
        invariant
            b@.wf(),
            tx < 8 && ty < 8,
            0 <= i <= 64,
            forall|s: int|
                0 <= s < i ==> !#[trigger] attacker_at(b@.board, s, tx as int, ty as int, by),
        decreases 64 - i,
    {
        let fx = (i % 8) as u8;
        let fy = (i / 8) as u8;
        proof {
            lemma_square_index(fx as int, fy as int);
        }
        let from_piece = b.piece_at(fx, fy);
        let color_matches = match from_piece {
            Some(p) => matches!(p.color, Color::White) == matches!(by, Color::White),
            None => false,
        };
        if color_matches && attacks_exec(b, fx, fy, tx, ty) {
            assert(attacker_at(b@.board, i as int, tx as int, ty as int, by));
            proof {
                lemma_attacked_by_index(b@.board, tx as int, ty as int, by);
            }
            return true;
        }
        assert(!attacker_at(b@.board, i as int, tx as int, ty as int, by));
        i = i + 1;
    }
    false
}

/// The king of color `c` stands on linear square `s` and is attacked.
pub open spec fn king_checked_at(b: Seq<Option<Piece>>, s: int, c: Color) -> bool {
    b[s] == Some(Piece { kind: PieceKind::King, color: c }) && attacked(b, s % 8, s / 8, c.other())
}

proof fn lemma_in_check_by_index(b: Seq<Option<Piece>>, c: Color)
    ensures
        in_check(b, c) <==> exists|s: int| 0 <= s < 64 && #[trigger] king_checked_at(b, s, c),
{
    if in_check(b, c) {
        let (kx, ky) = choose|kx: int, ky: int|
            0 <= kx < 8 && 0 <= ky < 8 && b[ky * 8 + kx] == Some(
                Piece { kind: PieceKind::King, color: c },
            ) && #[trigger] attacked(b, kx, ky, c.other());
        lemma_square_index(kx, ky);
        assert(king_checked_at(b, ky * 8 + kx, c));
    }
    if exists|s: int| 0 <= s < 64 && #[trigger] king_checked_at(b, s, c) {
        let s = choose|s: int| 0 <= s < 64 && #[trigger] king_checked_at(b, s, c);
        assert(0 <= s % 8 < 8 && 0 <= s / 8 < 8);
        assert((s / 8) * 8 + s % 8 == s) by (nonlinear_arith);
        assert(attacked(b, s % 8, s / 8, c.other()));
    }
}

/// Does the castling rule accept `m` for the king of color `c`?
fn castle_move_exec(b: &BoardRep, c: Color, m: Move) -> (r: bool)
    requires
        b@.wf(),
        m.from.on_board() && m.to.on_board(),
    ensures
        r == castle_move(b@, c, m),
{
    let y: u8 = if matches!(c, Color::White) {
        0
    } else {
        7
    };
    let foe = c.other();
    if !(m.from.x == 4 && m.from.y == y && m.to.y == y) {
        return false;
    }
    if square_attacked(b, 4, y, foe) {
        return false;
    }
    let kingside_right = if matches!(c, Color::White) {
        b.castle_wk
    } else {
        b.castle_bk
    };
    let queenside_right = if matches!(c, Color::White) {
        b.castle_wq
    } else {
        b.castle_bq
    };
    let rook = Piece { kind: PieceKind::Rook, color: c };
    if m.to.x == 6 {
        kingside_right && (match b.piece_at(7, y) {
            Some(q) => q == rook,
            None => false,
        }) && b.piece_at(5, y).is_none() && b.piece_at(6, y).is_none() && !square_attacked(
            b,
            5,
            y,
            foe,
        ) && !square_attacked(b, 6, y, foe)
    } else if m.to.x == 2 {
        queenside_right && (match b.piece_at(0, y) {
            Some(q) => q == rook,
            None => false,
        }) && b.piece_at(1, y).is_none() && b.piece_at(2, y).is_none() && b.piece_at(3, y).is_none()
            && !square_attacked(b, 3, y, foe) && !square_attacked(b, 2, y, foe)
    } else {
        false
    }
}

/// Does the pawn movement rule accept the move for a pawn of color `c`?
fn pawn_move_exec(b: &BoardRep, c: Color, m: Move) -> (r: bool)
    requires
        b@.wf(),
        m.from.on_board() && m.to.on_board(),
    ensures
        r == pawn_move(
            b@,
            c,
            m.from.x as int,
            m.from.y as int,
            m.to.x as int,
            m.to.y as int,
        ),
{
    let fx = m.from.x as i16;
    let fy = m.from.y as i16;
    let tx = m.to.x as i16;
    let ty = m.to.y as i16;
    let d: i16 = if matches!(c, Color::White) {
        1
    } else {
        -1
    };
    let start: i16 = if matches!(c, Color::White) {
        1
    } else {
        6
    };
    let ep_from: i16 = if matches!(c, Color::White) {
        4
    } else {
        3
    };
    let dest = b.piece_at(m.to.x, m.to.y);
    let single = tx == fx && ty == fy + d && dest.is_none();
    if single {
        return true;
    }
    let double = tx == fx && fy == start && ty == fy + 2 * d && dest.is_none() && {
        let mid_y = (fy + d) as u8;
        b.piece_at(m.from.x, mid_y).is_none()
    };
    if double {
        return true;
    }
    let diagonal = (tx == fx + 1 || tx == fx - 1) && ty == fy + d;
    if !diagonal {
        return false;
    }
    match dest {
        Some(q) => q.color != c,
        None => {
            let ep_matches = match b.ep_file {
                Some(f) => f == m.to.x,
                None => false,
            };
            fy == ep_from && ep_matches && (match b.piece_at(m.to.x, m.from.y) {
                Some(q) => q == Piece { kind: PieceKind::Pawn, color: c.other() },
                None => false,
            })
        },
    }
}

/// Is `m` a pseudo-legal move on this board?
pub fn is_pseudo_legal(b: &BoardRep, m: Move) -> (r: bool)
    requires
        b@.wf(),
    ensures
        r == pseudo_legal(b@, m),
{
    if !(m.from.x < 8 && m.from.y < 8 && m.to.x < 8 && m.to.y < 8) {
        return false;
    }
    if m.from.x == m.to.x && m.from.y == m.to.y {
        return false;
    }
    let p = match b.piece_at(m.from.x, m.from.y) {
        Some(p) => p,
        None => {
            return false;
        },
    };
    match b.piece_at(m.to.x, m.to.y) {
        Some(q) => {
            if q.color == p.color {
                return false;
            }
        },
        None => {},
    }
    let promo_ok = match m.promotion {
        None => true,
        Some(k) => {
            let last: u8 = if matches!(p.color, Color::White) {
                7
            } else {
                0
            };
            matches!(p.kind, PieceKind::Pawn) && m.to.y == last && !matches!(k, PieceKind::Pawn)
                && !matches!(k, PieceKind::King)
        },
    };
    if !promo_ok {
        return false;
    }
    let fx = m.from.x as i16;
    let fy = m.from.y as i16;
    let tx = m.to.x as i16;
    let ty = m.to.y as i16;
    let dxa: i16 = if tx >= fx {
        tx - fx
    } else {
        fx - tx
    };
    let dya: i16 = if ty >= fy {
        ty - fy
    } else {
        fy - ty
    };
    match p.kind {
        PieceKind::Pawn => pawn_move_exec(b, p.color, m),
        PieceKind::Knight => (dxa == 1 && dya == 2) || (dxa == 2 && dya == 1),
        PieceKind::King => (dxa <= 1 && dya <= 1) || castle_move_exec(b, p.color, m),
        PieceKind::Rook => (fx == tx || fy == ty) && seg_clear_exec(
            b,
            m.from.x,
            m.from.y,
            m.to.x,
            m.to.y,
        ),
        PieceKind::Bishop => dxa == dya && seg_clear_exec(b, m.from.x, m.from.y, m.to.x, m.to.y),
        PieceKind::Queen => (fx == tx || fy == ty || dxa == dya) && seg_clear_exec(
            b,
            m.from.x,
            m.from.y,
            m.to.x,
            m.to.y,
        ),
    }
}

/// Is the king of color `c` in check?
pub fn king_in_check(b: &BoardRep, c: Color) -> (r: bool)
    requires
        b@.wf(),
    ensures
        r == in_check(b@.board, c),
{
    proof {
        lemma_in_check_by_index(b@.board, c);
    }
    let mut i: usize = 0;
    while i < 64
        invariant
            b@.wf(),
            0 <= i <= 64,
            forall|s: int| 0 <= s < i ==> !#[trigger] king_checked_at(b@.board, s, c),
        decreases 64 - i,
    {
        let kx = (i % 8) as u8;
        let ky = (i / 8) as u8;
        proof {
            lemma_square_index(kx as int, ky as int);
        }
        let is_own_king = match b.piece_at(kx, ky) {
            Some(p) => p == Piece { kind: PieceKind::King, color: c },
            None => false,
        };
        if is_own_king && square_attacked(b, kx, ky, c.other()) {
            assert(king_checked_at(b@.board, i as int, c));
            proof {
                lemma_in_check_by_index(b@.board, c);
            }
            return true;
        }
        assert(!king_checked_at(b@.board, i as int, c));
        i = i + 1;
    }
    false
}

/// The piece that ends up on the destination square: the mover, or the chosen
/// promotion kind for a promoting pawn.
pub open spec fn placed_piece(p: Piece, m: Move) -> Piece {
    match m.promotion {
        Some(k) => Piece { kind: k, color: p.color },
        None => p,
    }
}

/// The move is an en-passant capture: a pawn moving diagonally onto an empty
/// square.
pub open spec fn is_ep_capture(v: PosView, p: Piece, m: Move) -> bool {
    p.kind is Pawn && m.to.x != m.from.x && v.at(m.to.x as int, m.to.y as int) is None
}

/// The move is a castle: a king moving two files.
pub open spec fn is_castle(p: Piece, m: Move) -> bool {
    p.kind is King && delta_abs(m.to.x - m.from.x) == 2
}

/// The successor position after applying `m`: the moved (or promoted) piece
/// lands on the destination, the origin empties, an en-passant victim or the
/// castling rook is moved as a side effect, castling rights are lost when the
/// king or a corner rook moves or a corner square is captured onto, and
/// en-passant eligibility is recorded for exactly one ply after a double pawn
/// push.
pub open spec fn apply_spec(v: PosView, m: Move) -> PosView {
    match v.at(m.from.x as int, m.from.y as int) {
        None => v,
        Some(p) => {
            let from_i = m.from.index();
            let to_i = m.to.index();
            let y = m.from.y as int;
            let b1 = v.board.update(to_i, Some(placed_piece(p, m))).update(from_i, None);
            let b2 = if is_ep_capture(v, p, m) {
                b1.update(y * 8 + m.to.x, None)
            } else {
                b1
            };
            let b3 = if is_castle(p, m) {
                if m.to.x == 6 {
                    b2.update(y * 8 + 5, Some(Piece { kind: PieceKind::Rook, color: p.color }))
                        .update(y * 8 + 7, None)
                } else {
                    b2.update(y * 8 + 3, Some(Piece { kind: PieceKind::Rook, color: p.color }))
                        .update(y * 8 + 0, None)
                }
            } else {
                b2
            };
            let king_moved_white = p.kind is King && p.color is White;
            let king_moved_black = p.kind is King && p.color is Black;
            PosView {
                board: b3,
                wk: v.wk && !king_moved_white && from_i != 7 && to_i != 7,
                wq: v.wq && !king_moved_white && from_i != 0 && to_i != 0,
                bk: v.bk && !king_moved_black && from_i != 63 && to_i != 63,
                bq: v.bq && !king_moved_black && from_i != 56 && to_i != 56,
                ep: if p.kind is Pawn && (m.to.y - m.from.y == 2 || m.from.y - m.to.y == 2) {
                    Some(m.to.x)
                } else {
                    None
                },
            }
        },
    }
}

fn copy_squares(v: &Vec<Option<Piece>>) -> (r: Vec<Option<Piece>>)
    ensures
        r@ == v@,
{
    let mut r: Vec<Option<Piece>> = Vec::new();
    let mut i: usize = 0;
    while i < v.len()
        invariant
            0 <= i <= v.len(),
            r@ =~= v@.subrange(0, i as int),
        decreases v.len() - i,
    {
        r.push(v[i]);
        i = i + 1;
    }
    proof {
        assert(r@ =~= v@);
    }
    r
}

/// An identical copy of the board, including rights and en-passant state.
pub fn copy_board(b: &BoardRep) -> (r: BoardRep)
    ensures
        r@ == b@,
{
    BoardRep {
        squares: copy_squares(&b.squares),
        castle_wk: b.castle_wk,
        castle_wq: b.castle_wq,
        castle_bk: b.castle_bk,
        castle_bq: b.castle_bq,
        ep_file: b.ep_file,
    }
}

/// Apply a pseudo-legal move to a scratch copy of the board, yielding the
/// successor position.
pub fn simulate_move(b: &BoardRep, m: Move) -> (r: BoardRep)
    requires
        b@.wf(),
        pseudo_legal(b@, m),
    ensures
        r@ == apply_spec(b@, m),
        r@.wf(),
{
    // pseudo-legality guarantees an occupied origin square
    let p = b.piece_at(m.from.x, m.from.y).unwrap();
    let placed = match m.promotion {
        Some(k) => Piece { kind: k, color: p.color },
        None => p,
    };
    let from_i = m.from.y as usize * 8 + m.from.x as usize;
    let to_i = m.to.y as usize * 8 + m.to.x as usize;
    let mut squares = copy_squares(&b.squares);
    let dest_empty = squares[to_i].is_none();
    squares[to_i] = Some(placed);
    squares[from_i] = None;
    let ep_capture = matches!(p.kind, PieceKind::Pawn) && m.to.x != m.from.x && dest_empty;
    if ep_capture {
        let victim_i = m.from.y as usize * 8 + m.to.x as usize;
        squares[victim_i] = None;
    }
    let dxa: i16 = if m.to.x >= m.from.x {
        m.to.x as i16 - m.from.x as i16
    } else {
        m.from.x as i16 - m.to.x as i16
    };
    let castle = matches!(p.kind, PieceKind::King) && dxa == 2;
    if castle {
        let y = m.from.y as usize;
        let rook = Some(Piece { kind: PieceKind::Rook, color: p.color });
        if m.to.x == 6 {
            squares[y * 8 + 5] = rook;
            squares[y * 8 + 7] = None;
        } else {
            squares[y * 8 + 3] = rook;
            squares[y * 8 + 0] = None;
        }
    }
    let king_white = matches!(p.kind, PieceKind::King) && matches!(p.color, Color::White);
    let king_black = matches!(p.kind, PieceKind::King) && matches!(p.color, Color::Black);
    let double_push = matches!(p.kind, PieceKind::Pawn) && (m.to.y == m.from.y + 2 || m.to.y + 2
        == m.from.y);
    let r = BoardRep {
        squares,
        castle_wk: b.castle_wk && !king_white && from_i != 7 && to_i != 7,
        castle_wq: b.castle_wq && !king_white && from_i != 0 && to_i != 0,
        castle_bk: b.castle_bk && !king_black && from_i != 63 && to_i != 63,
        castle_bq: b.castle_bq && !king_black && from_i != 56 && to_i != 56,
        ep_file: if double_push {
            Some(m.to.x)
        } else {
            None
        },
    };
    proof {
        assert(r@.board =~= apply_spec(b@, m).board);
        assert(r@ == apply_spec(b@, m));
    }
    r
}

/// No duplication or ghosting: applying a pseudo-legal move empties the
/// origin square and puts exactly the moved (or promoted) piece on the
/// destination, so no piece ever stands on both at once.
pub proof fn lemma_apply_no_ghost(v: PosView, m: Move)
    requires
        v.wf(),
        pseudo_legal(v, m),
    ensures
        apply_spec(v, m).at(m.from.x as int, m.from.y as int) is None,
        apply_spec(v, m).at(m.to.x as int, m.to.y as int) == Some(
            placed_piece(v.at(m.from.x as int, m.from.y as int)->Some_0, m),
        ),
{
    let p = v.at(m.from.x as int, m.from.y as int)->Some_0;
    let from_i = m.from.index();
    let to_i = m.to.index();
    assert(from_i != to_i);
    if is_ep_capture(v, p, m) {
        // the captured pawn stands beside the origin, on neither endpoint
        assert(m.from.y as int * 8 + m.to.x != from_i);
        assert(m.from.y as int * 8 + m.to.x != to_i);
    }
    if is_castle(p, m) {
        // the rook's two squares are distinct from both king squares
        assert(m.from.x == 4);
    }
}

/// A legal move for the side `c`: pseudo-legal, moving a piece of `c`, and
/// leaving `c`'s own king out of check afterwards.
pub open spec fn is_legal(v: PosView, c: Color, m: Move) -> bool {
    &&& pseudo_legal(v, m)
    &&& (v.at(m.from.x as int, m.from.y as int) matches Some(p) && p.color == c)
    &&& !in_check(apply_spec(v, m).board, c)
}

/// The candidate move numbered `k` in the enumeration of all origin /
/// destination pairs: origin square `k / 64`, destination square `k % 64`,
/// no promotion kind.
pub open spec fn move_of_pair(k: int) -> Move {
    Move {
        from: Coordinates { x: (((k / 64) % 8) as u8), y: (((k / 64) / 8) as u8) },
        to: Coordinates { x: ((k % 64) % 8) as u8, y: (((k % 64) / 8) as u8) },
        promotion: None,
    }
}

/// The pair number under which `m` is enumerated.
pub open spec fn pair_index(m: Move) -> int {
    (m.from.y * 8 + m.from.x) * 64 + m.to.y * 8 + m.to.x
}

/// The legal moves among the first `n` candidate pairs, in enumeration order.
pub open spec fn legal_upto(v: PosView, c: Color, n: int) -> Seq<Move>
    decreases n,
{
    if n <= 0 {
        Seq::empty()
    } else {
        let prefix = legal_upto(v, c, n - 1);
        if is_legal(v, c, move_of_pair(n - 1)) {
            prefix.push(move_of_pair(n - 1))
        } else {
            prefix
        }
    }
}

/// The full legal-move list for side `c`, in enumeration order.
pub open spec fn legal_list(v: PosView, c: Color) -> Seq<Move> {
    legal_upto(v, c, 4096)
}

proof fn lemma_legal_upto_sound(v: PosView, c: Color, n: int, m: Move)
    requires
        legal_upto(v, c, n).contains(m),
    ensures
        is_legal(v, c, m),
    decreases n,
{
    if n > 0 {
        let prefix = legal_upto(v, c, n - 1);
        if is_legal(v, c, move_of_pair(n - 1)) {
            let pushed = prefix.push(move_of_pair(n - 1));
            let i = choose|i: int| 0 <= i < pushed.len() && (#[trigger] pushed[i]) == m;
            if i < prefix.len() {
                assert(prefix[i] == m);
                assert(prefix.contains(m));
                lemma_legal_upto_sound(v, c, n - 1, m);
            } else {
                assert(m == move_of_pair(n - 1));
            }
        } else {
            lemma_legal_upto_sound(v, c, n - 1, m);
        }
    }
}

proof fn lemma_legal_upto_complete(v: PosView, c: Color, n: int, k: int)
    requires
        0 <= k < n,
        is_legal(v, c, move_of_pair(k)),
    ensures
        legal_upto(v, c, n).contains(move_of_pair(k)),
    decreases n,
{
    let prefix = legal_upto(v, c, n - 1);
    if k == n - 1 {
        let pushed = prefix.push(move_of_pair(k));
        assert(pushed[pushed.len() - 1] == move_of_pair(k));
        assert(pushed.contains(move_of_pair(k)));
    } else {
        lemma_legal_upto_complete(v, c, n - 1, k);
        let i = choose|i: int| 0 <= i < prefix.len() && (#[trigger] prefix[i]) == move_of_pair(k);
        if is_legal(v, c, move_of_pair(n - 1)) {
            assert(prefix.push(move_of_pair(n - 1))[i] == move_of_pair(k));
        }
    }
}

/// Every move gets a pair number that enumerates back to it.
proof fn lemma_move_pair_encode(m: Move)
    requires
        m.from.on_board(),
        m.to.on_board(),
        m.promotion is None,
    ensures
        0 <= pair_index(m) < 4096,
        move_of_pair(pair_index(m)) == m,
{
    let f = m.from.y * 8 + m.from.x;
    let t = m.to.y * 8 + m.to.x;
    lemma_square_index(m.from.x as int, m.from.y as int);
    lemma_square_index(m.to.x as int, m.to.y as int);
    assert(0 <= f < 64 && 0 <= t < 64);
    assert((f * 64 + t) / 64 == f && (f * 64 + t) % 64 == t) by (nonlinear_arith)
        requires
            0 <= f < 64,
            0 <= t < 64,
    ;
}

/// Legality filter soundness: every move in the generated legal list is
/// pseudo-legal, moves a piece of the right color, and — once applied —
/// leaves the mover's own king not in check.
pub proof fn lemma_legal_list_sound(v: PosView, c: Color, m: Move)
    requires
        legal_list(v, c).contains(m),
    ensures
        is_legal(v, c, m),
        !in_check(apply_spec(v, m).board, c),
{
    lemma_legal_upto_sound(v, c, 4096, m);
}

/// Legality filter completeness: every legal move without a promotion kind
/// appears in the generated legal list.
pub proof fn lemma_legal_list_complete(v: PosView, c: Color, m: Move)
    requires
        m.from.on_board(),
        m.to.on_board(),
        m.promotion is None,
        is_legal(v, c, m),
    ensures
        legal_list(v, c).contains(m),
{
    lemma_move_pair_encode(m);
    lemma_legal_upto_complete(v, c, 4096, pair_index(m));
}

/// Enumerate the legal moves for side `color` by generating every candidate
/// origin/destination pair, filtering by the movement rules, and keeping only
/// those that leave the own king safe after a simulated application.
pub fn legal_moves(b: &BoardRep, color: Color) -> (r: Vec<Move>)
    requires
        b@.wf(),
    ensures
        r@ == legal_list(b@, color),
{
    let mut r: Vec<Move> = Vec::new();
    let mut k: usize = 0;
    while k < 4096
        invariant
            b@.wf(),
            0 <= k <= 4096,
            r@ == legal_upto(b@, color, k as int),
        decreases 4096 - k,
    {
        let from_idx = k / 64;
        let to_idx = k % 64;
        let m = Move {
            from: Coordinates { x: (from_idx % 8) as u8, y: (from_idx / 8) as u8 },
            to: Coordinates { x: (to_idx % 8) as u8, y: (to_idx / 8) as u8 },
            promotion: None,
        };
        assert(m == move_of_pair(k as int));
        let mut ok = false;
        if is_pseudo_legal(b, m) {
            let piece = b.piece_at(m.from.x, m.from.y).unwrap();
            if piece.color == color {
                let nb = simulate_move(b, m);
                ok = !king_in_check(&nb, color);
            }
        }
        if ok {
            r.push(m);
        }
        assert(ok == is_legal(b@, color, move_of_pair(k as int)));
        k = k + 1;
    }
    r
}

/// The legal moves for side `c` that start on the square `sq`, in
/// enumeration order.
pub open spec fn moves_from(v: PosView, c: Color, sq: Coordinates) -> Seq<Move> {
    legal_list(v, c).filter(|m: Move| m.from == sq)
}

/// The legal moves of the piece standing on (`x`, `y`), for side `color`.
pub fn get_valid_moves_for_piece(b: &BoardRep, color: Color, x: u8, y: u8) -> (r: Vec<Move>)
    requires
        b@.wf(),
    ensures
        r@ == moves_from(b@, color, Coordinates { x, y }),
{
    let sq = Coordinates { x, y };
    let all = legal_moves(b, color);
    let mut r: Vec<Move> = Vec::new();
    let mut i: usize = 0;
    proof {
        assert(all@.take(0) =~= Seq::<Move>::empty());
        reveal(Seq::filter);
    }
    while i < all.len()
        invariant
            0 <= i <= all@.len(),
            sq == (Coordinates { x, y }),
            r@ == all@.take(i as int).filter(|m: Move| m.from == sq),
        decreases all@.len() - i,
    {
        let m = all[i];
        proof {
            reveal(Seq::filter);
            let t = all@.take(i + 1);
            assert(t.drop_last() =~= all@.take(i as int));
            assert(t.last() == m);
        }
        if m.from.x == x && m.from.y == y {
            proof {
                assert(m.from == sq);
            }
            r.push(m);
        }
        i = i + 1;
    }
    proof {
        assert(all@.take(all@.len() as int) =~= all@);
    }
    r
}

} // verus!
