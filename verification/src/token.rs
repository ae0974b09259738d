//! Local recovery gate tied to the negotiated transport generation.
//!
//! A token stands for the right of one session and epoch to inject input. It starts frozen, is
//! prepared once the local barrier went through, is activated once the peer shook hands, and can
//! be retired at any time. Copies share one token; a retired token never reopens.

use crate::lifecycle::{Generation, Link};
use crate::protocol::Session;
use vstd::prelude::*;

verus! {

#[derive(Clone, Copy, Debug, PartialEq, Eq, Structural)]
pub enum Gate {
    Frozen,
    Prepared,
    Active,
    Retired,
}

pub struct RecoveryToken {
    session: Session,
    epoch: u64,
    state: Gate,
    generation: Option<Generation>,
}

impl RecoveryToken {
    /// The session and the epoch whose input the token lets in.
    pub closed spec fn identity(&self) -> (Session, u64) {
        (self.session, self.epoch)
    }

    pub closed spec fn gate(&self) -> Gate {
        self.state
    }

    /// The transport generation that this token is bound to.
    pub closed spec fn bound(&self) -> Option<Generation> {
        self.generation
    }

    /// Whether input of this token may be injected.
    pub open spec fn open_at(&self, link: Link, now: u64) -> bool {
        &&& self.gate() == Gate::Active
        &&& self.bound() is Some ==> link.honours(self.bound()->0, now)
    }

    /// The same token with another state.
    pub open spec fn becomes(&self, other: &RecoveryToken, gate: Gate) -> bool {
        &&& self.identity() == other.identity()
        &&& self.bound() == other.bound()
        &&& self.gate() == gate
    }

    pub fn new(session: Session, epoch: u64) -> (r: RecoveryToken)
        ensures
            r.identity() == (session, epoch),
            r.gate() == Gate::Frozen,
            r.bound() is None,
    {
        RecoveryToken { session, epoch, state: Gate::Frozen, generation: None }
    }

    pub fn session(&self) -> (r: Session)
        ensures
            r == self.identity().0,
    {
        self.session
    }

    pub fn epoch(&self) -> (r: u64)
        ensures
            r == self.identity().1,
    {
        self.epoch
    }

    pub fn retired(&self) -> (r: bool)
        ensures
            r == (self.gate() == Gate::Retired),
    {
        self.state == Gate::Retired
    }

    pub fn frozen(&self) -> (r: bool)
        ensures
            r == (self.gate() == Gate::Frozen),
    {
        self.state == Gate::Frozen
    }

    pub fn retire(&mut self)
        ensures
            final(self).becomes(old(self), Gate::Retired),
    {
        self.state = Gate::Retired;
    }

    pub fn prepare(&mut self)
        ensures
            final(self).becomes(
                old(self),
                if old(self).gate() == Gate::Frozen {
                    Gate::Prepared
                } else {
                    old(self).gate()
                },
            ),
    {
        if self.frozen() {
            self.state = Gate::Prepared;
        }
    }

    /// The driver may activate only after the peer handshake. A retired token
    /// can never be reopened, including after reconnect with the same IDs.
    pub fn activate(&mut self) -> (r: bool)
        ensures
            r == (old(self).gate() == Gate::Prepared),
            final(self).becomes(
                old(self),
                if r {
                    Gate::Active
                } else {
                    old(self).gate()
                },
            ),
    {
        if self.state != Gate::Prepared {
            return false;
        }
        self.state = Gate::Active;
        true
    }

    pub fn valid(&self, link: &Link, now: u64) -> (r: bool)
        ensures
            r == self.open_at(*link, now),
    {
        self.state == Gate::Active && match self.generation {
            Some(generation) => link.valid(&generation, now),
            None => true,
        }
    }

    /// Ties the token to a generation of its own session and epoch.
    pub fn bind(&mut self, generation: Generation, link: &Link, now: u64) -> (r: bool)
        ensures
            r == ((generation.session, generation.epoch) == old(self).identity()
                && link.honours(generation, now)),
            final(self).identity() == old(self).identity(),
            final(self).gate() == old(self).gate(),
            final(self).bound() == (if r {
                Some(generation)
            } else {
                old(self).bound()
            }),
    {
        if !crate::bytes::same(&generation.session, &self.session) || generation.epoch != self.epoch
            || !link.valid(&generation, now) {
            return false;
        }
        self.generation = Some(generation);
        true
    }

    /// What a barrier that was awaited comes to: `None` where the token was retired or otherwise
    /// left its frozen state meanwhile, so that the result is void, and else the result itself. A
    /// success prepares the token.
    pub fn barrier_result<T, E>(&mut self, result: Result<T, E>) -> (r: Option<Result<T, E>>)
        ensures
            r == (if old(self).gate() == Gate::Frozen {
                Some(result)
            } else {
                None
            }),
            final(self).becomes(
                old(self),
                if old(self).gate() == Gate::Frozen && result is Ok {
                    Gate::Prepared
                } else {
                    old(self).gate()
                },
            ),
    {
        if !self.frozen() {
            return None;
        }
        if result.is_ok() {
            self.prepare();
        }
        Some(result)
    }
}

/// Something that happens to a token.
pub enum TokenStep {
    Retire,
    Prepare,
    Activate,
}

pub open spec fn gate_next(gate: Gate, step: TokenStep) -> Gate {
    match step {
        TokenStep::Retire => Gate::Retired,
        TokenStep::Prepare => if gate == Gate::Frozen {
            Gate::Prepared
        } else {
            gate
        },
        TokenStep::Activate => if gate == Gate::Prepared {
            Gate::Active
        } else {
            gate
        },
    }
}

pub open spec fn gate_after(gate: Gate, steps: Seq<TokenStep>) -> Gate
    decreases steps.len(),
{
    if steps.len() == 0 {
        gate
    } else {
        gate_next(gate_after(gate, steps.drop_last()), steps.last())
    }
}

/// A retired token stays retired, whatever happens to it.
pub proof fn law_retired_tokens_never_reopen(steps: Seq<TokenStep>)
    ensures
        gate_after(Gate::Retired, steps) == Gate::Retired,
    decreases steps.len(),
{
    if steps.len() > 0 {
        law_retired_tokens_never_reopen(steps.drop_last());
    }
}

/// A token is active only after it was prepared and then activated.
pub proof fn law_activation_needs_preparation(steps: Seq<TokenStep>)
    requires
        gate_after(Gate::Frozen, steps) == Gate::Active,
    ensures
        exists|i: int, j: int|
            0 <= i < j < steps.len() && (#[trigger] steps[i]) is Prepare && (
            #[trigger] steps[j]) is Activate,
    decreases steps.len(),
{
    let front = steps.drop_last();
    if gate_after(Gate::Frozen, front) == Gate::Active {
        law_activation_needs_preparation(front);
        let (i, j) = choose|i: int, j: int|
            0 <= i < j < front.len() && (#[trigger] front[i]) is Prepare && (
            #[trigger] front[j]) is Activate;
        assert(front[i] == steps[i]);
        assert(front[j] == steps[j]);
    } else {
        lemma_prepared(front);
        let i = choose|i: int| 0 <= i < front.len() && (#[trigger] front[i]) is Prepare;
        assert(front[i] == steps[i]);
        assert(steps[steps.len() - 1] is Activate);
    }
}

proof fn lemma_prepared(steps: Seq<TokenStep>)
    requires
        gate_after(Gate::Frozen, steps) == Gate::Prepared,
    ensures
        exists|i: int| 0 <= i < steps.len() && (#[trigger] steps[i]) is Prepare,
    decreases steps.len(),
{
    let front = steps.drop_last();
    if gate_after(Gate::Frozen, front) == Gate::Prepared {
        lemma_prepared(front);
        let i = choose|i: int| 0 <= i < front.len() && (#[trigger] front[i]) is Prepare;
        assert(front[i] == steps[i]);
    } else {
        assert(steps[steps.len() - 1] is Prepare);
    }
}

/// A new token is frozen, lets nothing in, and is bound to nothing.
pub proof fn law_new_tokens_are_shut(
    session: Session,
    epoch: u64,
    token: RecoveryToken,
    link: Link,
    now: u64,
    open: bool,
    frozen: bool,
    retired: bool,
)
    requires
        call_ensures(RecoveryToken::new, (session, epoch), token),
        call_ensures(RecoveryToken::valid, (&token, &link, now), open),
        call_ensures(RecoveryToken::frozen, (&token,), frozen),
        call_ensures(RecoveryToken::retired, (&token,), retired),
    ensures
        !open,
        frozen,
        !retired,
        token.identity() == (session, epoch),
{
}

/// Only a prepared token can be activated, and one that was activated is not activated again.
pub proof fn law_only_prepared_tokens_activate(
    token: &mut RecoveryToken,
    r: bool,
    again: &mut RecoveryToken,
    second: bool,
)
    requires
        call_ensures(RecoveryToken::activate, (token,), r),
        *old(again) == *final(token),
        call_ensures(RecoveryToken::activate, (again,), second),
    ensures
        r <==> old(token).gate() == Gate::Prepared,
        r ==> final(token).gate() == Gate::Active,
        !r ==> final(token).gate() == old(token).gate(),
        !second,
        final(token).identity() == old(token).identity(),
        final(token).bound() == old(token).bound(),
{
}

/// A token lets input in exactly while it is active and its generation, if it is bound to one, counts.
pub proof fn law_active_tokens_let_input_in(token: RecoveryToken, link: Link, now: u64, r: bool)
    requires
        call_ensures(RecoveryToken::valid, (&token, &link, now), r),
    ensures
        r <==> token.gate() == Gate::Active && (token.bound() matches Some(held) ==> {
            &&& link.generation matches Some(g)
            &&& g.session == held.session
            &&& g.epoch == held.epoch
            &&& g.active
            &&& g.peer_deadline matches Some(deadline) ==> now < deadline
            &&& g.committed || (g.deadline matches Some(deadline) ==> now < deadline)
        }),
{
}

/// Retiring shuts a token for good: neither preparing nor activating it nor the result of a barrier
/// opens it again.
pub proof fn law_retirement_is_final<T, E>(
    token: &mut RecoveryToken,
    prepared: &mut RecoveryToken,
    activated: &mut RecoveryToken,
    awaited: &mut RecoveryToken,
    active: bool,
    result: Result<T, E>,
    outcome: Option<Result<T, E>>,
)
    requires
        call_ensures(RecoveryToken::retire, (token,), ()),
        *old(prepared) == *final(token),
        *old(activated) == *final(token),
        *old(awaited) == *final(token),
        call_ensures(RecoveryToken::prepare, (prepared,), ()),
        call_ensures(RecoveryToken::activate, (activated,), active),
        call_ensures(RecoveryToken::barrier_result::<T, E>, (awaited, result), outcome),
    ensures
        final(token).gate() == Gate::Retired,
        final(token).identity() == old(token).identity(),
        final(token).bound() == old(token).bound(),
        final(prepared).gate() == Gate::Retired,
        !active,
        final(activated).gate() == Gate::Retired,
        outcome is None,
        final(awaited).gate() == Gate::Retired,
{
}

/// A frozen token is prepared by a call of its own or by a barrier that went through; its result, and a
/// barrier's failure, is handed on. A token that is no longer frozen voids the result.
pub proof fn law_barriers_prepare_frozen_tokens<T, E>(
    token: &mut RecoveryToken,
    result: Result<T, E>,
    r: Option<Result<T, E>>,
    plain: &mut RecoveryToken,
)
    requires
        call_ensures(RecoveryToken::barrier_result::<T, E>, (token, result), r),
        call_ensures(RecoveryToken::prepare, (plain,), ()),
    ensures
        r is Some <==> old(token).gate() == Gate::Frozen,
        r matches Some(handed) ==> handed == result,
        old(token).gate() == Gate::Frozen && result is Ok ==> final(token).gate() == Gate::Prepared,
        old(token).gate() == Gate::Frozen && result is Err ==> final(token).gate() == Gate::Frozen,
        old(token).gate() != Gate::Frozen ==> final(token).gate() == old(token).gate(),
        old(plain).gate() == Gate::Frozen ==> final(plain).gate() == Gate::Prepared,
        old(plain).gate() != Gate::Frozen ==> final(plain).gate() == old(plain).gate(),
{
}

/// A token is bound exactly to a current generation of its own session and epoch.
pub proof fn law_tokens_bind_to_their_own_generation(
    token: &mut RecoveryToken,
    generation: Generation,
    link: Link,
    now: u64,
    r: bool,
)
    requires
        call_ensures(RecoveryToken::bind, (token, generation, &link, now), r),
    ensures
        r ==> final(token).bound() == Some(generation) && generation.session
            == old(token).identity().0 && generation.epoch == old(token).identity().1,
        !r ==> final(token).bound() == old(token).bound(),
        final(token).gate() == old(token).gate(),
        final(token).identity() == old(token).identity(),
        r <==> generation.session == old(token).identity().0 && generation.epoch == old(token).identity().1 && {
            &&& link.generation matches Some(g)
            &&& g.session == generation.session
            &&& g.epoch == generation.epoch
            &&& g.active
            &&& g.peer_deadline matches Some(deadline) ==> now < deadline
            &&& g.committed || (g.deadline matches Some(deadline) ==> now < deadline)
        },
{
}

} // verus!
