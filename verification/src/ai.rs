//! The automated opponent: a pluggable move-selection policy.  The current
//! strategy draws a uniformly random move from its side's legal-move set and
//! promotes to a queen whenever its move reaches the last rank.

use vstd::prelude::*;
use rand::Rng;
use crate::board::{Move, PieceKind};
use crate::game::{
    submit_promotion, submit_promotion_spec, take_turn, take_turn_spec, GameState, GsView,
};
use crate::protocol::{Engine, EngView};

verus! {

/// The move-selection policy of the automated side.  Stateless today: it
/// consults only the legal-move set it is handed.
pub struct BigBrain {}

/// Relies on rand::Rng::gen_range over `0..n`, through rand::thread_rng:
/// returns a value in `[0, n)`; it panics only on an empty range, which the
/// precondition excludes.  Nothing more is promised of a random draw.
#[verifier::external_body]
fn random_below(n: usize) -> (r: usize)
    requires
        n > 0,
    ensures
        r < n,
{
    rand::thread_rng().gen_range(0..n)
}

/// The automated side has a turn to take: Black to move in a live match with
/// no promotion pending and a nonempty legal-move set.
pub open spec fn ai_turn_possible(g: GsView) -> bool {
    g.player_turn == 2 && !g.over && g.pending is None && g.black_moves.len() > 0
}

/// The state after the automated side plays `m`: the turn is taken, and a
/// kindless last-rank pawn advance is finalized at once as a queen.
pub open spec fn ai_step_spec(g: GsView, m: Move, el: u64) -> GsView {
    let g1 = take_turn_spec(g, m, el).0;
    if g1.pending is Some {
        submit_promotion_spec(g1, PieceKind::Queen, 0).0
    } else {
        g1
    }
}

impl BigBrain {
    /// A fresh policy.
    pub fn new() -> BigBrain {
        BigBrain {  }
    }

    /// Choose one move from a nonempty legal-move list.
    pub fn choose_move(&self, moves: &Vec<Move>) -> (r: Move)
        requires
            moves@.len() > 0,
        ensures
            moves@.contains(r),
    {
        let i = random_below(moves.len());
        let m = moves[i];
        proof {
            assert(moves@[i as int] == m);
        }
        m
    }

    /// Let the automated side take its turn: while the match is in progress
    /// with Black to move, no promotion pending and at least one legal reply,
    /// apply one of Black's legal moves, completing any promotion of its own
    /// as a queen; in every other state leave the game untouched.
    pub fn ai_make_move(&self, gs: &mut GameState, elapsed_ms: u64)
        requires
            old(gs)@.wf(),
        ensures
            final(gs)@.wf(),
            ai_turn_possible(old(gs)@) ==> exists|i: int|
                0 <= i < old(gs)@.black_moves.len() && final(gs)@ == ai_step_spec(
                    old(gs)@,
                    #[trigger] old(gs)@.black_moves[i],
                    elapsed_ms,
                ),
            !ai_turn_possible(old(gs)@) ==> final(gs)@ == old(gs)@,
    {
        let ghost g0 = gs@;
        if gs.player_turn == 2 && !gs.game_over && gs.promotion_pending.is_none()
            && gs.move_list.black.len() > 0 {
            let m = self.choose_move(&gs.move_list.black);
            let _ = take_turn(gs, m, elapsed_ms);
            if gs.promotion_pending.is_some() {
                let _ = submit_promotion(gs, PieceKind::Queen, 0);
            }
            proof {
                let i = choose|i: int|
                    0 <= i < g0.black_moves.len() && g0.black_moves[i] == m;
                assert(gs@ == ai_step_spec(g0, g0.black_moves[i], elapsed_ms));
            }
        }
    }
}

/// Run the automated side against the engine's live match, if there is one:
/// the match advances by exactly one of Black's legal moves when one is due,
/// and stays untouched otherwise.
pub fn ai_turn(e: &mut Engine, brain: &BigBrain, elapsed_ms: u64)
    requires
        old(e)@.wf(),
    ensures
        final(e)@.wf(),
        old(e)@.game is None ==> final(e)@ == old(e)@,
        old(e)@.game matches Some(g) ==> (final(e)@.game matches Some(g2) && {
            &&& ai_turn_possible(g) ==> exists|i: int|
                0 <= i < g.black_moves.len() && g2 == ai_step_spec(
                    g,
                    #[trigger] g.black_moves[i],
                    elapsed_ms,
                )
            &&& !ai_turn_possible(g) ==> g2 == g
        }),
{
    match e.game {
        Some(ref mut g) => brain.ai_make_move(g, elapsed_ms),
        None => {},
    }
}

} // verus!
