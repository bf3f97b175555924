//! Parsing one line of request text into a tagged command, and move /
//! promotion-kind text into values.  Keywords are matched case-insensitively
//! and surrounding whitespace is ignored, as the protocol promises.

use vstd::prelude::*;
use crate::board::{Coordinates, Move, PieceKind};
use crate::game::GameMode;

verus! {

/// A command submitted by the client, parsed from one request line.
/// Text that is no keyword is forwarded as `Move` and judged later by the
/// state machine, so unknown commands and illegal moves share one error
/// surface.
#[derive(Debug)]
pub enum InputType {
    Exit,
    Resign,
    Reset,
    GameMode(GameMode),
    Move(String),
}

/// Mathematical model of an `InputType`; move text as its characters.
pub enum CmdView {
    Exit,
    Resign,
    Reset,
    Mode(GameMode),
    MoveText(Seq<char>),
}

impl View for InputType {
    type V = CmdView;

    open spec fn view(&self) -> CmdView {
        match self {
            InputType::Exit => CmdView::Exit,
            InputType::Resign => CmdView::Resign,
            InputType::Reset => CmdView::Reset,
            InputType::GameMode(m) => CmdView::Mode(*m),
            InputType::Move(s) => CmdView::MoveText(s@),
        }
    }
}

/// Whitespace that is trimmed from a request line.
pub open spec fn is_ws(c: char) -> bool {
    c == ' ' || c == '\n' || c == '\r' || c == '\t'
}

/// The sequence with leading whitespace removed.
pub open spec fn trim_front(s: Seq<char>) -> Seq<char>
    decreases s.len(),
{
    if s.len() > 0 && is_ws(s[0]) {
        trim_front(s.drop_first())
    } else {
        s
    }
}

/// The sequence with trailing whitespace removed.
pub open spec fn trim_back(s: Seq<char>) -> Seq<char>
    decreases s.len(),
{
    if s.len() > 0 && is_ws(s[s.len() - 1]) {
        trim_back(s.drop_last())
    } else {
        s
    }
}

/// The sequence with whitespace removed from both ends.
pub open spec fn trimmed(s: Seq<char>) -> Seq<char> {
    trim_back(trim_front(s))
}

proof fn lemma_trim_front_at(s: Seq<char>, lo: int)
    requires
        0 <= lo <= s.len(),
        forall|j: int| 0 <= j < lo ==> is_ws(#[trigger] s[j]),
        lo == s.len() || !is_ws(s[lo]),
    ensures
        trim_front(s) == s.subrange(lo, s.len() as int),
    decreases lo,
{
    if lo == 0 {
        assert(s.subrange(0, s.len() as int) =~= s);
    } else {
        let d = s.drop_first();
        assert(d =~= s.subrange(1, s.len() as int));
        lemma_trim_front_at(d, lo - 1);
        assert(d.subrange(lo - 1, d.len() as int) =~= s.subrange(lo, s.len() as int));
    }
}

proof fn lemma_trim_back_at(s: Seq<char>, hi: int)
    requires
        0 <= hi <= s.len(),
        forall|j: int| hi <= j < s.len() ==> is_ws(#[trigger] s[j]),
        hi == 0 || !is_ws(s[hi - 1]),
    ensures
        trim_back(s) == s.subrange(0, hi),
    decreases s.len(),
{
    if hi == s.len() {
        assert(trim_back(s) == s);
        assert(s.subrange(0, hi) =~= s);
    } else {
        let d = s.drop_last();
        assert(d =~= s.subrange(0, s.len() - 1));
        lemma_trim_back_at(d, hi);
        assert(d.subrange(0, hi) =~= s.subrange(0, hi));
    }
}

/// Case-insensitive match of one character against a letter given in both
/// cases.
pub open spec fn ci(c: char, l: char, u: char) -> bool {
    c == l || c == u
}

/// The trimmed line reads `resign`, in any casing.
pub open spec fn kw_resign(t: Seq<char>) -> bool {
    t.len() == 6 && ci(t[0], 'r', 'R') && ci(t[1], 'e', 'E') && ci(t[2], 's', 'S') && ci(
        t[3],
        'i',
        'I',
    ) && ci(t[4], 'g', 'G') && ci(t[5], 'n', 'N')
}

/// The trimmed line reads `exit`, in any casing.
pub open spec fn kw_exit(t: Seq<char>) -> bool {
    t.len() == 4 && ci(t[0], 'e', 'E') && ci(t[1], 'x', 'X') && ci(t[2], 'i', 'I') && ci(
        t[3],
        't',
        'T',
    )
}

/// The trimmed line reads `reset`, in any casing.
pub open spec fn kw_reset(t: Seq<char>) -> bool {
    t.len() == 5 && ci(t[0], 'r', 'R') && ci(t[1], 'e', 'E') && ci(t[2], 's', 'S') && ci(
        t[3],
        'e',
        'E',
    ) && ci(t[4], 't', 'T')
}

/// The trimmed line reads `"default"` — the JSON form of the default mode.
pub open spec fn kw_default(t: Seq<char>) -> bool {
    t.len() == 9 && t[0] == '"' && ci(t[1], 'd', 'D') && ci(t[2], 'e', 'E') && ci(t[3], 'f', 'F')
        && ci(t[4], 'a', 'A') && ci(t[5], 'u', 'U') && ci(t[6], 'l', 'L') && ci(t[7], 't', 'T')
        && t[8] == '"'
}

/// The trimmed line reads `"blitz"` — the JSON form of the blitz mode.
pub open spec fn kw_blitz(t: Seq<char>) -> bool {
    t.len() == 7 && t[0] == '"' && ci(t[1], 'b', 'B') && ci(t[2], 'l', 'L') && ci(t[3], 'i', 'I')
        && ci(t[4], 't', 'T') && ci(t[5], 'z', 'Z') && t[6] == '"'
}

/// Value of a board-coordinate digit, or 8 for any other character.
pub open spec fn digit_val(c: char) -> u8 {
    if c == '0' {
        0
    } else if c == '1' {
        1
    } else if c == '2' {
        2
    } else if c == '3' {
        3
    } else if c == '4' {
        4
    } else if c == '5' {
        5
    } else if c == '6' {
        6
    } else if c == '7' {
        7
    } else {
        8
    }
}

/// Move text has the exact shape `(x,y) (x,y)` with single digits in
/// `[0, 8)`; anything else parses to nothing.
pub open spec fn move_text(t: Seq<char>) -> Option<Move> {
    if t.len() == 11 && t[0] == '(' && digit_val(t[1]) < 8 && t[2] == ',' && digit_val(t[3]) < 8
        && t[4] == ')' && t[5] == ' ' && t[6] == '(' && digit_val(t[7]) < 8 && t[8] == ','
        && digit_val(t[9]) < 8 && t[10] == ')' {
        Some(
            Move {
                from: Coordinates { x: digit_val(t[1]), y: digit_val(t[3]) },
                to: Coordinates { x: digit_val(t[7]), y: digit_val(t[9]) },
                promotion: None,
            },
        )
    } else {
        None
    }
}

/// Promotion-kind text: one of the four promotable kinds by name, in any
/// casing.
pub open spec fn promotion_text(t: Seq<char>) -> Option<PieceKind> {
    if t.len() == 4 && ci(t[0], 'r', 'R') && ci(t[1], 'o', 'O') && ci(t[2], 'o', 'O') && ci(
        t[3],
        'k',
        'K',
    ) {
        Some(PieceKind::Rook)
    } else if t.len() == 6 && ci(t[0], 'k', 'K') && ci(t[1], 'n', 'N') && ci(t[2], 'i', 'I') && ci(
        t[3],
        'g',
        'G',
    ) && ci(t[4], 'h', 'H') && ci(t[5], 't', 'T') {
        Some(PieceKind::Knight)
    } else if t.len() == 6 && ci(t[0], 'b', 'B') && ci(t[1], 'i', 'I') && ci(t[2], 's', 'S') && ci(
        t[3],
        'h',
        'H',
    ) && ci(t[4], 'o', 'O') && ci(t[5], 'p', 'P') {
        Some(PieceKind::Bishop)
    } else if t.len() == 5 && ci(t[0], 'q', 'Q') && ci(t[1], 'u', 'U') && ci(t[2], 'e', 'E') && ci(
        t[3],
        'e',
        'E',
    ) && ci(t[4], 'n', 'N') {
        Some(PieceKind::Queen)
    } else {
        None
    }
}

/// What one request line means: a keyword command, a mode selection, or —
/// for any other text — a move/promotion string to be judged by the state
/// machine.
pub open spec fn parse_command_spec(s: Seq<char>) -> CmdView {
    let t = trimmed(s);
    if kw_resign(t) {
        CmdView::Resign
    } else if kw_exit(t) {
        CmdView::Exit
    } else if kw_reset(t) {
        CmdView::Reset
    } else if kw_default(t) {
        CmdView::Mode(GameMode::Default)
    } else if kw_blitz(t) {
        CmdView::Mode(GameMode::Blitz)
    } else {
        CmdView::MoveText(t)
    }
}

fn is_ws_exec(c: char) -> (r: bool)
    ensures
        r == is_ws(c),
{
    c == ' ' || c == '\n' || c == '\r' || c == '\t'
}

/// Trim the line and hand back the trimmed text, whose characters are
/// exactly `trimmed` of the input's.
fn trim_exec(line: &str) -> (t: &str)
    ensures
        t@ == trimmed(line@),
{
    let n = line.unicode_len();
    let mut lo: usize = 0;
    while lo < n && is_ws_exec(line.get_char(lo))
        invariant
            0 <= lo <= n,
            n == line@.len(),
            forall|j: int| 0 <= j < lo ==> is_ws(#[trigger] line@[j]),
        decreases n - lo,
    {
        lo = lo + 1;
    }
    let mut hi: usize = n;
    while hi > lo && is_ws_exec(line.get_char(hi - 1))
        invariant
            lo <= hi <= n,
            n == line@.len(),
            forall|j: int| hi <= j < n ==> is_ws(#[trigger] line@[j]),
        decreases hi,
    {
        hi = hi - 1;
    }
    let t = line.substring_char(lo, hi);
    proof {
        lemma_trim_front_at(line@, lo as int);
        let f = line@.subrange(lo as int, n as int);
        assert(forall|j: int|
            hi - lo <= j < f.len() ==> is_ws(#[trigger] f[j]));
        lemma_trim_back_at(f, hi - lo);
        assert(f.subrange(0, hi - lo) =~= line@.subrange(lo as int, hi as int));
    }
    t
}

fn digit_exec(c: char) -> (r: u8)
    ensures
        r == digit_val(c),
{
    if c == '0' {
        0
    } else if c == '1' {
        1
    } else if c == '2' {
        2
    } else if c == '3' {
        3
    } else if c == '4' {
        4
    } else if c == '5' {
        5
    } else if c == '6' {
        6
    } else if c == '7' {
        7
    } else {
        8
    }
}

/// Parse trimmed move text of the shape `(x,y) (x,y)`.
pub fn parse_move_text(t: &str) -> (r: Option<Move>)
    ensures
        r == move_text(t@),
{
    if t.unicode_len() != 11 {
        return None;
    }
    let d1 = digit_exec(t.get_char(1));
    let d3 = digit_exec(t.get_char(3));
    let d7 = digit_exec(t.get_char(7));
    let d9 = digit_exec(t.get_char(9));
    if t.get_char(0) == '(' && d1 < 8 && t.get_char(2) == ',' && d3 < 8 && t.get_char(4) == ')'
        && t.get_char(5) == ' ' && t.get_char(6) == '(' && d7 < 8 && t.get_char(8) == ',' && d9 < 8
        && t.get_char(10) == ')' {
        Some(
            Move {
                from: Coordinates { x: d1, y: d3 },
                to: Coordinates { x: d7, y: d9 },
                promotion: None,
            },
        )
    } else {
        None
    }
}

/// Parse trimmed promotion-kind text: `rook`, `knight`, `bishop` or `queen`,
/// in any casing.
pub fn parse_promotion_text(t: &str) -> (r: Option<PieceKind>)
    ensures
        r == promotion_text(t@),
{
    let n = t.unicode_len();
    if n == 4 {
        let c0 = t.get_char(0);
        let c1 = t.get_char(1);
        let c2 = t.get_char(2);
        let c3 = t.get_char(3);
        if (c0 == 'r' || c0 == 'R') && (c1 == 'o' || c1 == 'O') && (c2 == 'o' || c2 == 'O') && (c3
            == 'k' || c3 == 'K') {
            return Some(PieceKind::Rook);
        }
    }
    if n == 6 {
        let c0 = t.get_char(0);
        let c1 = t.get_char(1);
        let c2 = t.get_char(2);
        let c3 = t.get_char(3);
        let c4 = t.get_char(4);
        let c5 = t.get_char(5);
        if (c0 == 'k' || c0 == 'K') && (c1 == 'n' || c1 == 'N') && (c2 == 'i' || c2 == 'I') && (c3
            == 'g' || c3 == 'G') && (c4 == 'h' || c4 == 'H') && (c5 == 't' || c5 == 'T') {
            return Some(PieceKind::Knight);
        }
        if (c0 == 'b' || c0 == 'B') && (c1 == 'i' || c1 == 'I') && (c2 == 's' || c2 == 'S') && (c3
            == 'h' || c3 == 'H') && (c4 == 'o' || c4 == 'O') && (c5 == 'p' || c5 == 'P') {
            return Some(PieceKind::Bishop);
        }
    }
    if n == 5 {
        let c0 = t.get_char(0);
        let c1 = t.get_char(1);
        let c2 = t.get_char(2);
        let c3 = t.get_char(3);
        let c4 = t.get_char(4);
        if (c0 == 'q' || c0 == 'Q') && (c1 == 'u' || c1 == 'U') && (c2 == 'e' || c2 == 'E') && (c3
            == 'e' || c3 == 'E') && (c4 == 'n' || c4 == 'N') {
            return Some(PieceKind::Queen);
        }
    }
    None
}

/// Parse one request line into a command.
pub fn parse_command(line: &str) -> (r: InputType)
    ensures
        r@ == parse_command_spec(line@),
{
    let t = trim_exec(line);
    let n = t.unicode_len();
    if n == 6 {
        let c0 = t.get_char(0);
        let c1 = t.get_char(1);
        let c2 = t.get_char(2);
        let c3 = t.get_char(3);
        let c4 = t.get_char(4);
        let c5 = t.get_char(5);
        if (c0 == 'r' || c0 == 'R') && (c1 == 'e' || c1 == 'E') && (c2 == 's' || c2 == 'S') && (c3
            == 'i' || c3 == 'I') && (c4 == 'g' || c4 == 'G') && (c5 == 'n' || c5 == 'N') {
            return InputType::Resign;
        }
    }
    if n == 4 {
        let c0 = t.get_char(0);
        let c1 = t.get_char(1);
        let c2 = t.get_char(2);
        let c3 = t.get_char(3);
        if (c0 == 'e' || c0 == 'E') && (c1 == 'x' || c1 == 'X') && (c2 == 'i' || c2 == 'I') && (c3
            == 't' || c3 == 'T') {
            return InputType::Exit;
        }
    }
    if n == 5 {
        let c0 = t.get_char(0);
        let c1 = t.get_char(1);
        let c2 = t.get_char(2);
        let c3 = t.get_char(3);
        let c4 = t.get_char(4);
        if (c0 == 'r' || c0 == 'R') && (c1 == 'e' || c1 == 'E') && (c2 == 's' || c2 == 'S') && (c3
            == 'e' || c3 == 'E') && (c4 == 't' || c4 == 'T') {
            return InputType::Reset;
        }
    }
    if n == 9 {
        let c0 = t.get_char(0);
        let c1 = t.get_char(1);
        let c2 = t.get_char(2);
        let c3 = t.get_char(3);
        let c4 = t.get_char(4);
        let c5 = t.get_char(5);
        let c6 = t.get_char(6);
        let c7 = t.get_char(7);
        let c8 = t.get_char(8);
        if c0 == '"' && (c1 == 'd' || c1 == 'D') && (c2 == 'e' || c2 == 'E') && (c3 == 'f' || c3
            == 'F') && (c4 == 'a' || c4 == 'A') && (c5 == 'u' || c5 == 'U') && (c6 == 'l' || c6
            == 'L') && (c7 == 't' || c7 == 'T') && c8 == '"' {
            return InputType::GameMode(GameMode::Default);
        }
    }
    if n == 7 {
        let c0 = t.get_char(0);
        let c1 = t.get_char(1);
        let c2 = t.get_char(2);
        let c3 = t.get_char(3);
        let c4 = t.get_char(4);
        let c5 = t.get_char(5);
        let c6 = t.get_char(6);
        if c0 == '"' && (c1 == 'b' || c1 == 'B') && (c2 == 'l' || c2 == 'L') && (c3 == 'i' || c3
            == 'I') && (c4 == 't' || c4 == 'T') && (c5 == 'z' || c5 == 'Z') && c6 == '"' {
            return InputType::GameMode(GameMode::Blitz);
        }
    }
    InputType::Move(String::from_str(t))
}

} // verus!
