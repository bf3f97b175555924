//! Command/response coordinator: two strict FIFO queues that decouple the
//! IPC listener (producer of commands, consumer of responses) from the game
//! loop (consumer of commands, producer of responses).  Responses leave in
//! exactly the order their triggering commands arrived.

use vstd::prelude::*;
use std::collections::VecDeque;
use crate::parse::{CmdView, InputType};
use crate::protocol::{step_spec, Engine, EngView, ServerResponse, SrvView};

verus! {

/// The inbound command queue, fed by the listener and drained by the game
/// loop.  Strictly first-in, first-out.
#[derive(Debug)]
pub struct UserInput {
    pub input_queue: VecDeque<InputType>,
}

impl UserInput {
    /// An empty inbound queue.
    pub fn new() -> (r: UserInput)
        ensures
            r.input_queue@ == Seq::<InputType>::empty(),
    {
        UserInput { input_queue: VecDeque::new() }
    }

    /// Append a command at the back; every earlier command stays ahead of it.
    pub fn enqueue_command(&mut self, c: InputType)
        ensures
            final(self).input_queue@ == old(self).input_queue@.push(c),
    {
        self.input_queue.push_back(c);
    }

    /// Remove and return the oldest command, if any.
    pub fn dequeue_command(&mut self) -> (r: Option<InputType>)
        ensures
            match r {
                Some(c) => old(self).input_queue@.len() > 0 && c == old(self).input_queue@[0]
                    && final(self).input_queue@ == old(self).input_queue@.drop_first(),
                None => old(self).input_queue@.len() == 0
                    && final(self).input_queue@ == old(self).input_queue@,
            },
    {
        let r = self.input_queue.pop_front();
        proof {
            if old(self).input_queue@.len() > 0 {
                assert(old(self).input_queue@.subrange(1, old(self).input_queue@.len() as int)
                    =~= old(self).input_queue@.drop_first());
            }
        }
        r
    }
}

/// The outbound response queue, fed by the game loop and drained by the
/// listener.  Strictly first-in, first-out.
#[derive(Debug)]
pub struct ResponseQueue {
    pub res_queue: VecDeque<ServerResponse>,
}

impl ResponseQueue {
    /// An empty outbound queue.
    pub fn new() -> (r: ResponseQueue)
        ensures
            r.res_queue@ == Seq::<ServerResponse>::empty(),
    {
        ResponseQueue { res_queue: VecDeque::new() }
    }

    /// Append a response at the back; every earlier response stays ahead.
    pub fn enqueue_response(&mut self, r: ServerResponse)
        ensures
            final(self).res_queue@ == old(self).res_queue@.push(r),
    {
        self.res_queue.push_back(r);
    }

    /// Remove and return the oldest response, if any.
    pub fn dequeue_response(&mut self) -> (r: Option<ServerResponse>)
        ensures
            match r {
                Some(c) => old(self).res_queue@.len() > 0 && c == old(self).res_queue@[0]
                    && final(self).res_queue@ == old(self).res_queue@.drop_first(),
                None => old(self).res_queue@.len() == 0
                    && final(self).res_queue@ == old(self).res_queue@,
            },
    {
        let r = self.res_queue.pop_front();
        proof {
            if old(self).res_queue@.len() > 0 {
                assert(old(self).res_queue@.subrange(1, old(self).res_queue@.len() as int)
                    =~= old(self).res_queue@.drop_first());
            }
        }
        r
    }
}

/// The commands a queue holds, as their mathematical views, oldest first.
pub open spec fn cmd_views(q: Seq<InputType>) -> Seq<CmdView> {
    q.map_values(|c: InputType| c@)
}

/// The engine state and the replies, in order, after processing a sequence
/// of commands one at a time with the given per-command elapsed time.
pub open spec fn run_spec(e: EngView, cmds: Seq<CmdView>, el: u64) -> (EngView, Seq<SrvView>)
    decreases cmds.len(),
{
    if cmds.len() == 0 {
        (e, Seq::empty())
    } else {
        let first = step_spec(e, cmds[0], el);
        let rest = run_spec(first.0, cmds.drop_first(), el);
        (rest.0, seq![first.1] + rest.1)
    }
}

/// Processing a command sequence yields exactly one reply per command, and
/// the reply at position `i` is the one its command produced against the
/// state left by the commands before it: replies come in command order, with
/// none lost, duplicated or reordered.
pub proof fn lemma_run_in_order(e: EngView, cmds: Seq<CmdView>, el: u64, i: int)
    requires
        0 <= i < cmds.len(),
    ensures
        run_spec(e, cmds, el).1.len() == cmds.len(),
        run_spec(e, cmds, el).1[i] == step_spec(
            run_spec(e, cmds.take(i), el).0,
            cmds[i],
            el,
        ).1,
    decreases cmds.len(),
{
    lemma_run_length(e, cmds, el);
    if i == 0 {
        assert(cmds.take(0) =~= Seq::<CmdView>::empty());
        assert(run_spec(e, cmds.take(0), el).0 == e);
        assert(run_spec(e, cmds, el).1[0] == step_spec(e, cmds[0], el).1);
    } else {
        let first = step_spec(e, cmds[0], el);
        let tail = cmds.drop_first();
        lemma_run_in_order(first.0, tail, el, i - 1);
        lemma_run_length(first.0, tail, el);
        assert(run_spec(e, cmds, el).1[i] == run_spec(first.0, tail, el).1[i - 1]);
        assert(tail.take(i - 1) =~= cmds.take(i).drop_first());
        assert(cmds.take(i)[0] == cmds[0]);
        assert(run_spec(e, cmds.take(i), el).0 == run_spec(first.0, tail.take(i - 1), el).0);
        assert(tail[i - 1] == cmds[i]);
    }
}

/// One reply per command: no loss and no duplication.
pub proof fn lemma_run_length(e: EngView, cmds: Seq<CmdView>, el: u64)
    ensures
        run_spec(e, cmds, el).1.len() == cmds.len(),
        e.wf() ==> run_spec(e, cmds, el).0.wf(),
    decreases cmds.len(),
{
    if cmds.len() > 0 {
        let first = step_spec(e, cmds[0], el);
        if e.wf() {
            lemma_step_preserves_wf(e, cmds[0], el);
        }
        lemma_run_length(first.0, cmds.drop_first(), el);
    }
}

/// Stepping a well-formed engine leaves it well-formed.
pub proof fn lemma_step_preserves_wf(e: EngView, c: CmdView, el: u64)
    requires
        e.wf(),
    ensures
        step_spec(e, c, el).0.wf(),
{
    match c {
        CmdView::MoveText(t) => {
            match e.game {
                Some(g) => {
                    if !g.over && g.pending is Some {
                        match crate::parse::promotion_text(t) {
                            Some(k) => {
                                crate::game::lemma_submit_promotion_wf(g, k, el);
                            },
                            None => {},
                        }
                    } else if !g.over {
                        match crate::parse::move_text(t) {
                            Some(m) => {
                                if g.player_turn != 2 {
                                    crate::game::lemma_take_turn_wf(g, m, el);
                                }
                            },
                            None => {},
                        }
                    }
                },
                None => {},
            }
        },
        _ => {},
    }
}

/// Drain the inbound queue in arrival order through the engine, appending
/// exactly one response per command to the outbound queue, in the same
/// order.  This is the game loop's whole interaction with the coordinator.
pub fn pump(e: &mut Engine, inq: &mut UserInput, outq: &mut ResponseQueue, elapsed_ms: u64)
    requires
        old(e)@.wf(),
    ensures
        final(e)@.wf(),
        final(inq).input_queue@ == Seq::<InputType>::empty(),
        final(e)@ == run_spec(old(e)@, cmd_views(old(inq).input_queue@), elapsed_ms).0,
        final(outq).res_queue@.map_values(|r: ServerResponse| r@) == old(outq).res_queue@.map_values(
            |r: ServerResponse| r@,
        ) + run_spec(old(e)@, cmd_views(old(inq).input_queue@), elapsed_ms).1,
{
    let ghost target = run_spec(e@, cmd_views(inq.input_queue@), elapsed_ms);
    let ghost base = outq.res_queue@.map_values(|r: ServerResponse| r@);
    loop
        invariant
            e@.wf(),
            target.0 == run_spec(e@, cmd_views(inq.input_queue@), elapsed_ms).0,
            base + target.1 == outq.res_queue@.map_values(|r: ServerResponse| r@) + run_spec(
                e@,
                cmd_views(inq.input_queue@),
                elapsed_ms,
            ).1,
        ensures
            inq.input_queue@.len() == 0,
            e@.wf(),
            e@ == target.0,
            outq.res_queue@.map_values(|r: ServerResponse| r@) == base + target.1,
        decreases inq.input_queue@.len(),
    {
        let ghost cmds0 = cmd_views(inq.input_queue@);
        let cmd = match inq.dequeue_command() {
            Some(c) => c,
            None => {
                proof {
                    assert(cmds0 =~= Seq::<CmdView>::empty());
                    assert(run_spec(e@, cmds0, elapsed_ms).1 =~= Seq::<SrvView>::empty());
                    assert(base + target.1 =~= outq.res_queue@.map_values(
                        |r: ServerResponse| r@,
                    ));
                }
                break ;
            },
        };
        proof {
            assert(cmds0.len() > 0 && cmds0[0] == cmd@);
            assert(cmd_views(inq.input_queue@) =~= cmds0.drop_first());
        }
        let ghost e_before = e@;
        let resp = e.step(cmd, elapsed_ms);
        let ghost out0 = outq.res_queue@;
        outq.enqueue_response(resp);
        proof {
            let tail = cmds0.drop_first();
            // one unfolding of the run: the first reply, then the rest
            assert(run_spec(e_before, cmds0, elapsed_ms).0 == run_spec(e@, tail, elapsed_ms).0);
            assert(run_spec(e_before, cmds0, elapsed_ms).1 == seq![resp@] + run_spec(
                e@,
                tail,
                elapsed_ms,
            ).1);
            assert(outq.res_queue@.map_values(|r: ServerResponse| r@) =~= out0.map_values(
                |r: ServerResponse| r@,
            ).push(resp@));
            assert(base + target.1 =~= outq.res_queue@.map_values(|r: ServerResponse| r@)
                + run_spec(e@, tail, elapsed_ms).1);
        }
    }
}

} // verus!
