//! Anti-amplification: before a path is validated, a server sends at most
//! `N` times what it received on it (RFC 9000, section 8).
use vstd::prelude::*;

use crate::tx::Signals;

verus! {

/// The factor of the limit that RFC 9000 asks for.
pub const DEFAULT_ANTI_FACTOR: usize = 3;

/// Where the limiter stands.
#[derive(Debug, Clone, Copy, PartialEq, Eq, Structural)]
pub enum AmplifierState {
    /// The limit applies.
    Normal,
    /// The path is validated: no limit any more.
    Granted,
    /// The path was abandoned: nothing may be sent.
    Aborted,
}

/// A call on a limiter, as far as its state goes.
#[derive(Debug, Clone, Copy, PartialEq, Eq, Structural)]
pub enum AmplifierOp {
    Rcvd,
    Sent,
    Balance,
    Grant,
    Abort,
}

/// The state after one call: only `grant` and `abort` change it, and only
/// from `Normal`.
pub open spec fn next_state(s: AmplifierState, op: AmplifierOp) -> AmplifierState {
    match op {
        AmplifierOp::Grant => if s == AmplifierState::Normal {
            AmplifierState::Granted
        } else {
            s
        },
        AmplifierOp::Abort => if s == AmplifierState::Normal {
            AmplifierState::Aborted
        } else {
            s
        },
        _ => s,
    }
}

/// The state after a sequence of calls.
pub open spec fn run_ops(s: AmplifierState, ops: Seq<AmplifierOp>) -> AmplifierState
    decreases ops.len(),
{
    if ops.len() == 0 {
        s
    } else {
        next_state(run_ops(s, ops.drop_last()), ops.last())
    }
}

/// `Granted` and `Aborted` are terminal: no sequence of calls leaves them.
pub proof fn terminal_states_stay(ops: Seq<AmplifierOp>)
    ensures
        run_ops(AmplifierState::Granted, ops) == AmplifierState::Granted,
        run_ops(AmplifierState::Aborted, ops) == AmplifierState::Aborted,
    decreases ops.len(),
{
    if ops.len() > 0 {
        terminal_states_stay(ops.drop_last());
    }
}

/// Send credit of an unvalidated path: each byte received adds `N` bytes of
/// credit, each byte sent takes one.
pub struct AntiAmplifier<const N: usize> {
    credit: usize,
    state: AmplifierState,
    /// Bytes received while the limit applied.
    rcvd_total: Ghost<nat>,
    /// Bytes sent while the limit applied.
    sent_total: Ghost<nat>,
    /// Whether a send ever went beyond the credit.
    overdrawn: Ghost<bool>,
    /// Whether the credit ever reached `usize::MAX` and stopped growing.
    saturated: Ghost<bool>,
}

/// The limiter with the factor of RFC 9000.
pub type DefaultAntiAmplifier = AntiAmplifier<DEFAULT_ANTI_FACTOR>;

impl<const N: usize> AntiAmplifier<N> {
    /// The credit left.
    pub closed spec fn spec_credit(&self) -> nat {
        self.credit as nat
    }

    /// Where the limiter stands.
    pub closed spec fn state(&self) -> AmplifierState {
        self.state
    }

    /// Bytes received while the limit applied.
    pub closed spec fn rcvd_total(&self) -> nat {
        self.rcvd_total@
    }

    /// Bytes sent while the limit applied.
    pub closed spec fn sent_total(&self) -> nat {
        self.sent_total@
    }

    /// Whether a send ever went beyond the credit.
    pub closed spec fn overdrawn(&self) -> bool {
        self.overdrawn@
    }

    /// Whether the credit ever reached `usize::MAX` and stopped growing.
    pub closed spec fn saturated(&self) -> bool {
        self.saturated@
    }

    /// The limiter's invariant: unless a send went beyond the credit, what was
    /// sent and what is left never exceed `N` times what was received, and
    /// are exactly that unless the credit saturated.
    pub closed spec fn wf(&self) -> bool {
        &&& !self.overdrawn@ ==> self.sent_total@ + self.credit <= N * self.rcvd_total@
        &&& !self.overdrawn@ && !self.saturated@ ==> self.sent_total@ + self.credit == N
            * self.rcvd_total@
    }

    /// A limiter with no credit, under the limit.
    pub fn new() -> (r: Self)
        ensures
            r.wf(),
            r.spec_credit() == 0,
            r.state() == AmplifierState::Normal,
            r.rcvd_total() == 0,
            r.sent_total() == 0,
            !r.overdrawn(),
            !r.saturated(),
    {
        AntiAmplifier {
            credit: 0,
            state: AmplifierState::Normal,
            rcvd_total: Ghost(0),
            sent_total: Ghost(0),
            overdrawn: Ghost(false),
            saturated: Ghost(false),
        }
    }

    /// The credit left.
    pub fn credit(&self) -> (r: usize)
        ensures
            r == self.spec_credit(),
    {
        self.credit
    }

    /// Records `amount` bytes received: under the limit the credit grows by
    /// `N * amount` (saturating at `usize::MAX`). Returns whether the sender
    /// waiting for credit is to be woken, which is so under the limit.
    pub fn on_rcvd(&mut self, amount: usize) -> (wake: bool)
        requires
            old(self).wf(),
        ensures
            final(self).wf(),
            final(self).state() == next_state(old(self).state(), AmplifierOp::Rcvd),
            wake == (old(self).state() == AmplifierState::Normal),
            old(self).state() == AmplifierState::Normal ==> {
                &&& final(self).spec_credit() == (if old(self).spec_credit() + N * amount
                    <= usize::MAX {
                    old(self).spec_credit() + N * amount
                } else {
                    usize::MAX as int
                })
                &&& final(self).rcvd_total() == old(self).rcvd_total() + amount
            },
            old(self).state() != AmplifierState::Normal ==> final(self).spec_credit()
                == old(self).spec_credit() && final(self).rcvd_total() == old(self).rcvd_total(),
            final(self).sent_total() == old(self).sent_total(),
            final(self).overdrawn() == old(self).overdrawn(),
            final(self).saturated() == (old(self).saturated() || (old(self).state()
                == AmplifierState::Normal && old(self).spec_credit() + N * amount > usize::MAX)),
    {
        if self.state != AmplifierState::Normal {
            return false;
        }
        let mul_saturates = N != 0 && amount > usize::MAX / N;
        let add: usize = if mul_saturates {
            assert(amount * N > usize::MAX) by (nonlinear_arith)
                requires
                    N > 0,
                    amount > usize::MAX / N,
            ;
            usize::MAX
        } else {
            assert(amount * N <= usize::MAX) by (nonlinear_arith)
                requires
                    N == 0 || amount <= usize::MAX / N,
            ;
            amount * N
        };
        assert(add == (if amount * N <= usize::MAX { amount * N } else { usize::MAX as int }));
        assert(add <= N * amount) by (nonlinear_arith)
            requires
                add == (if amount * N <= usize::MAX { amount * N } else { usize::MAX as int }),
        ;
        assert(N * amount == amount * N) by (nonlinear_arith);
        let ghost r0 = self.rcvd_total@;
        assert(N * (r0 + amount) == N * r0 + N * amount) by (nonlinear_arith);
        if mul_saturates || add > usize::MAX - self.credit {
            self.saturated = Ghost(true);
        }
        self.credit = self.credit.saturating_add(add);
        self.rcvd_total = Ghost((self.rcvd_total@ + amount) as nat);
        true
    }

    /// How much may be sent: unlimited once granted, nothing once aborted,
    /// else the credit, and `CREDIT` when there is none.
    pub fn balance(&self) -> (r: Result<Option<usize>, Signals>)
        ensures
            self.state() == AmplifierState::Granted ==> r == Ok::<Option<usize>, Signals>(
                Some(usize::MAX),
            ),
            self.state() == AmplifierState::Aborted ==> r == Ok::<Option<usize>, Signals>(None),
            self.state() == AmplifierState::Normal && self.spec_credit() > 0 ==> r == Ok::<
                Option<usize>,
                Signals,
            >(Some(self.spec_credit() as usize)),
            self.state() == AmplifierState::Normal && self.spec_credit() == 0 ==> (r matches Err(s)
                && s.spec_bits() == 4),
    {
        match self.state {
            AmplifierState::Granted => Ok(Some(usize::MAX)),
            AmplifierState::Aborted => Ok(None),
            AmplifierState::Normal => {
                if self.credit == 0 {
                    Err(Signals::credit())
                } else {
                    Ok(Some(self.credit))
                }
            },
        }
    }

    /// Records `amount` bytes sent: under the limit the credit shrinks by
    /// `amount`, not below zero.
    pub fn on_sent(&mut self, amount: usize)
        requires
            old(self).wf(),
        ensures
            final(self).wf(),
            final(self).state() == next_state(old(self).state(), AmplifierOp::Sent),
            final(self).rcvd_total() == old(self).rcvd_total(),
            old(self).state() == AmplifierState::Normal ==> {
                &&& final(self).spec_credit() == (if amount <= old(self).spec_credit() {
                    old(self).spec_credit() - amount
                } else {
                    0
                })
                &&& final(self).sent_total() == old(self).sent_total() + amount
                &&& final(self).overdrawn() == (old(self).overdrawn() || amount
                    > old(self).spec_credit())
            },
            old(self).state() != AmplifierState::Normal ==> final(self).spec_credit()
                == old(self).spec_credit() && final(self).sent_total() == old(self).sent_total()
                && final(self).overdrawn() == old(self).overdrawn(),
            final(self).saturated() == old(self).saturated(),
    {
        if self.state == AmplifierState::Normal {
            if amount > self.credit {
                self.overdrawn = Ghost(true);
            }
            self.credit = self.credit.saturating_sub(amount);
            self.sent_total = Ghost((self.sent_total@ + amount) as nat);
        }
    }

    /// Lifts the limit for good, once the path is validated. Returns whether
    /// the sender waiting for credit is to be woken: only on the change.
    pub fn grant(&mut self) -> (wake: bool)
        requires
            old(self).wf(),
        ensures
            final(self).wf(),
            wake == (old(self).state() == AmplifierState::Normal),
            final(self).state() == next_state(old(self).state(), AmplifierOp::Grant),
            final(self).spec_credit() == old(self).spec_credit(),
            final(self).rcvd_total() == old(self).rcvd_total(),
            final(self).sent_total() == old(self).sent_total(),
            final(self).overdrawn() == old(self).overdrawn(),
            final(self).saturated() == old(self).saturated(),
    {
        if self.state == AmplifierState::Normal {
            self.state = AmplifierState::Granted;
            true
        } else {
            false
        }
    }

    /// Stops all sending for good. Returns whether the sender waiting for
    /// credit is to be woken: only on the change.
    pub fn abort(&mut self) -> (wake: bool)
        requires
            old(self).wf(),
        ensures
            final(self).wf(),
            wake == (old(self).state() == AmplifierState::Normal),
            final(self).state() == next_state(old(self).state(), AmplifierOp::Abort),
            final(self).spec_credit() == old(self).spec_credit(),
            final(self).rcvd_total() == old(self).rcvd_total(),
            final(self).sent_total() == old(self).sent_total(),
            final(self).overdrawn() == old(self).overdrawn(),
            final(self).saturated() == old(self).saturated(),
    {
        if self.state == AmplifierState::Normal {
            self.state = AmplifierState::Aborted;
            true
        } else {
            false
        }
    }

    /// While senders keep within the balance, all that was sent under the
    /// limit is at most `N` times all that was received under it; and while
    /// the credit has not saturated, the credit is exactly the difference.
    pub proof fn amplification_bound(&self)
        requires
            self.wf(),
            !self.overdrawn(),
        ensures
            self.sent_total() <= N * self.rcvd_total(),
            !self.saturated() ==> self.spec_credit() == N * self.rcvd_total() - self.sent_total(),
    {
    }
}

} // verus!
