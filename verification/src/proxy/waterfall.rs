//! The walk through the servers of a group, in the order of their priority.
//!
//! The walk says what is to be done next and is told what came of it, until it comes to an
//! answer for the client. Each server is asked about ([`crate::proxy::servers`]) and, where
//! nothing speaks against it, tried ([`crate::proxy::failover`]).

use vstd::prelude::*;

use crate::circuit_breaker::Access;
use crate::proxy::failover;
use crate::proxy::failover::{after_last_server, Answer, FailoverAttempt, Step};
use crate::proxy::refusal::Refusal;
use crate::proxy::rows::Effect;
use crate::proxy::servers;
use crate::proxy::servers::{after_access, after_query, start_gate, Caller, Gate, Query, Server};

verus! {

/// What is to be done next.
#[derive(Debug, Clone, Copy, PartialEq, Eq, Structural)]
pub enum Task {
    /// Ask this of the server in hand.
    Ask(Query),
    /// Send the request to the server in hand, as a probe or not.
    Send { probe: bool },
    /// Take this step with the server in hand.
    Go(Step),
    /// Answer the client.
    Relay(Answer),
    /// Refuse the request: no server is left.
    Refuse(Refusal),
}

/// How far the walk has come.
pub struct Progress {
    /// The server in hand.
    pub position: int,
    /// Some server has been tried.
    pub attempted: bool,
    /// Some server has been skipped for a request limit.
    pub rate_limited: bool,
    pub chain: Seq<FailoverAttempt>,
}

/// What the walk comes to: how far it has come, what is to be recorded, and what is to be
/// done next.
pub struct Turnout {
    pub progress: Progress,
    pub effects: Seq<Effect>,
    pub task: Task,
}

/// What all servers are walked through for.
pub struct Walk<'a> {
    pub servers: &'a Vec<Server>,
    pub caller: &'a Caller,
    /// The request is billed.
    pub billing: bool,
}

/// The walk at the server in hand, of which this is known. One that is skipped is followed
/// by the next; after the last the request is refused.
pub open spec fn at_gate(walk: Walk, p: Progress, gate: Gate) -> Turnout
    decreases walk.servers@.len() - p.position,
{
    match gate {
        Gate::Ask(query) => Turnout {
            progress: p,
            effects: Seq::empty(),
            task: Task::Ask(query),
        },
        Gate::Try { probe } => Turnout {
            progress: Progress { attempted: true, ..p },
            effects: Seq::empty(),
            task: Task::Send { probe },
        },
        Gate::Skip { rate_limited } => {
            let next = Progress {
                position: p.position + 1,
                rate_limited: p.rate_limited || rate_limited,
                ..p
            };
            if next.position >= walk.servers@.len() {
                at_end(walk, next)
            } else {
                at_gate(
                    walk,
                    next,
                    servers::gate_start(walk.servers@[next.position], *walk.caller),
                )
            }
        },
    }
}

/// The walk when no server is left.
pub open spec fn at_end(walk: Walk, p: Progress) -> Turnout {
    let (effects, refusal) = failover::ended(p.attempted, p.rate_limited, walk.billing, p.chain);
    Turnout { progress: p, effects, task: Task::Refuse(refusal) }
}

/// The walk from its start.
pub open spec fn at_start(walk: Walk, p: Progress) -> Turnout {
    if walk.servers@.len() == 0 {
        at_end(walk, p)
    } else {
        at_gate(walk, p, servers::gate_start(walk.servers@[0], *walk.caller))
    }
}

/// The walk after a step with the server in hand was decided.
pub open spec fn at_step(walk: Walk, p: Progress, step: Step) -> Turnout {
    match step {
        Step::NextServer => at_gate(walk, p, Gate::Skip { rate_limited: false }),
        Step::Relay(answer) => Turnout {
            progress: p,
            effects: Seq::empty(),
            task: Task::Relay(answer),
        },
        step => Turnout { progress: p, effects: Seq::empty(), task: Task::Go(step) },
    }
}

/// The walk of one request.
#[derive(Debug)]
pub struct Waterfall {
    position: usize,
    attempted: bool,
    rate_limited: bool,
    /// The attempts so far.
    pub chain: Vec<FailoverAttempt>,
}

impl Waterfall {
    /// How far the walk has come.
    pub closed spec fn view(&self) -> Progress {
        Progress {
            position: self.position as int,
            attempted: self.attempted,
            rate_limited: self.rate_limited,
            chain: self.chain@,
        }
    }

    /// A walk that has not started. A server may have been asked to count tokens before.
    pub fn new(asked_before: bool, chain: Vec<FailoverAttempt>) -> (r: Self)
        ensures
            r@ == (Progress {
                position: 0,
                attempted: asked_before,
                rate_limited: false,
                chain: chain@,
            }),
    {
        Waterfall { position: 0, attempted: asked_before, rate_limited: false, chain }
    }

    /// The position of the server in hand.
    pub fn position(&self) -> (r: usize)
        ensures
            r == self@.position,
    {
        self.position
    }

    fn end(&self, walk: &Walk) -> (r: (Vec<Effect>, Task))
        ensures
            r.0@ == at_end(*walk, self@).effects,
            r.1 == at_end(*walk, self@).task,
    {
        let (effects, refusal) = after_last_server(
            self.attempted,
            self.rate_limited,
            walk.billing,
            &self.chain,
        );
        (effects, Task::Refuse(refusal))
    }

    /// Goes on with what is known of the server in hand.
    fn pass(&mut self, walk: &Walk, gate: Gate) -> (r: (Vec<Effect>, Task))
        requires
            old(self)@.position < walk.servers@.len(),
        ensures
            ({
                let turnout = at_gate(*walk, old(self)@, gate);
                final(self)@ == turnout.progress && r.0@ == turnout.effects && r.1 == turnout.task
            }),
    {
        let ghost turnout = at_gate(*walk, self@, gate);
        let count: usize = walk.servers.len();
        let mut known = gate;
        loop
            invariant
                count == walk.servers@.len(),
                self.position < count,
                turnout == at_gate(*walk, old(self)@, gate),
                at_gate(*walk, self@, known) == turnout,
            decreases count - self.position,
        {
            let none: Vec<Effect> = Vec::new();
            assert(none@ =~= Seq::empty());
            match known {
                Gate::Ask(query) => {
                    return (none, Task::Ask(query));
                },
                Gate::Try { probe } => {
                    self.attempted = true;
                    return (none, Task::Send { probe });
                },
                Gate::Skip { rate_limited } => {
                    self.position = self.position + 1;
                    self.rate_limited = self.rate_limited || rate_limited;
                    if self.position >= count {
                        return self.end(walk);
                    }
                    known = start_gate(&walk.servers[self.position], walk.caller);
                },
            }
        }
    }

    /// Starts the walk.
    pub fn start(&mut self, walk: &Walk) -> (r: (Vec<Effect>, Task))
        requires
            old(self)@.position == 0,
        ensures
            ({
                let turnout = at_start(*walk, old(self)@);
                final(self)@ == turnout.progress && r.0@ == turnout.effects && r.1 == turnout.task
            }),
    {
        if walk.servers.len() == 0 {
            return self.end(walk);
        }
        let gate = start_gate(&walk.servers[0], walk.caller);
        self.pass(walk, gate)
    }

    /// Goes on with the answer to a question.
    pub fn answer(&mut self, walk: &Walk, query: Query, yes: bool) -> (r: (Vec<Effect>, Task))
        requires
            0 <= old(self)@.position < walk.servers@.len(),
        ensures
            ({
                let server = walk.servers@[old(self)@.position];
                let turnout = at_gate(
                    *walk,
                    old(self)@,
                    servers::gate_next(server, *walk.caller, query, yes),
                );
                final(self)@ == turnout.progress && r.0@ == turnout.effects && r.1 == turnout.task
            }),
    {
        let gate = after_query(&walk.servers[self.position], walk.caller, query, yes);
        self.pass(walk, gate)
    }

    /// Goes on with the access that the circuit breaker gives.
    pub fn access(&mut self, walk: &Walk, access: Access) -> (r: (Vec<Effect>, Task))
        requires
            0 <= old(self)@.position < walk.servers@.len(),
        ensures
            ({
                let turnout = at_gate(*walk, old(self)@, servers::gate_access(access));
                final(self)@ == turnout.progress && r.0@ == turnout.effects && r.1 == turnout.task
            }),
    {
        self.pass(walk, after_access(access))
    }

    /// Goes on after a step with the server in hand was decided.
    pub fn decided(&mut self, walk: &Walk, step: Step) -> (r: (Vec<Effect>, Task))
        requires
            0 <= old(self)@.position < walk.servers@.len(),
        ensures
            ({
                let turnout = at_step(*walk, old(self)@, step);
                final(self)@ == turnout.progress && r.0@ == turnout.effects && r.1 == turnout.task
            }),
    {
        let none: Vec<Effect> = Vec::new();
        assert(none@ =~= Seq::empty());
        match step {
            Step::NextServer => self.pass(walk, Gate::Skip { rate_limited: false }),
            Step::Relay(answer) => (none, Task::Relay(answer)),
            step => (none, Task::Go(step)),
        }
    }
}

/// The walk goes through the servers in their order and leaves none out without a reason: it
/// never goes back, every server that it passes is one that is skipped out of hand, and it
/// refuses the request only after the last.
pub proof fn law_servers_are_taken_in_order(walk: Walk, p: Progress, gate: Gate)
    requires
        0 <= p.position < walk.servers@.len(),
    ensures
        ({
            let turnout = at_gate(walk, p, gate);
            let at = turnout.progress.position;
            &&& p.position <= at <= walk.servers@.len()
            &&& forall|i: int|
                p.position < i < at ==> servers::gate_start(
                    #[trigger] walk.servers@[i],
                    *walk.caller,
                ) is Skip
            &&& turnout.task is Refuse <==> at == walk.servers@.len()
            &&& turnout.progress.chain == p.chain
        }),
    decreases walk.servers@.len() - p.position,
{
    if let Gate::Skip { rate_limited } = gate {
        let next = Progress {
            position: p.position + 1,
            rate_limited: p.rate_limited || rate_limited,
            ..p
        };
        if next.position < walk.servers@.len() {
            law_servers_are_taken_in_order(
                walk,
                next,
                servers::gate_start(walk.servers@[next.position], *walk.caller),
            );
        }
    }
}

/// A walk that has failed at a server never comes back to it: the next server in hand lies
/// behind it.
pub proof fn law_failed_servers_stay_behind(walk: Walk, p: Progress)
    requires
        0 <= p.position < walk.servers@.len(),
    ensures
        at_step(walk, p, Step::NextServer).progress.position > p.position,
{
    let next = Progress { position: p.position + 1, ..p };
    if next.position < walk.servers@.len() {
        law_servers_are_taken_in_order(
            walk,
            Progress { rate_limited: p.rate_limited || false, ..next },
            servers::gate_start(walk.servers@[next.position], *walk.caller),
        );
    }
}

} // verus!
