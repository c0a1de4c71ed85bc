//! The liveness supervisor and the main loop's decision table.
//!
//! Ordinary pixel traffic doubles as the heartbeat: any inbound
//! datagram, valid or not, resets the silence countdown. When the
//! countdown crosses the timeout threshold the controller re-runs the
//! handshake, assuming its registration has gone stale. A controller
//! fed garbage but non-empty packets therefore never re-handshakes —
//! an accepted trade-off of the protocol, kept as is.

use vstd::arithmetic::div_mod::{lemma_fundamental_div_mod, lemma_fundamental_div_mod_converse};
use vstd::arithmetic::mul::lemma_mul_inequality;
use vstd::prelude::*;

verus! {

/// The two modes of the main loop.
#[derive(Clone, Copy, Debug, PartialEq, Eq, Structural)]
pub enum Mode {
    /// Blocked on the handshake path, waiting for a discovery request.
    AwaitingHandshake,
    /// Normal operation, consuming the main socket for pixel data.
    Streaming,
}

/// What the loop must do after a step.
#[derive(Clone, Copy, Debug, PartialEq, Eq, Structural)]
pub enum Action {
    /// Nothing this step.
    Idle,
    /// Decode the datagram just received onto the pixel buffers and
    /// push them to hardware.
    ApplyFrame,
    /// Run one handshake cycle.
    RunHandshake,
}

/// What the loop observed this step.
#[derive(Clone, Copy, Debug, PartialEq, Eq, Structural)]
pub enum Event {
    /// A datagram arrived; the payload says whether it was non-empty.
    Datagram(bool),
    /// The receive call failed; treated as no data this tick.
    RecvError,
    /// The poll interval elapsed with nothing inbound.
    PollTick,
}

/// The silence countdown, in milliseconds.
pub struct LivenessState {
    pub elapsed_ms: u64,
    pub timeout_ms: u64,
    pub poll_ms: u64,
}

/// Countdown value after one silent tick: advanced by the poll
/// interval, reset to zero when it crosses the threshold.
pub open spec fn spec_tick_elapsed(elapsed: int, timeout: int, poll: int) -> int {
    if elapsed + poll > timeout {
        0
    } else {
        elapsed + poll
    }
}

/// Whether one silent tick crosses the threshold and re-triggers the
/// handshake.
pub open spec fn spec_tick_fires(elapsed: int, timeout: int, poll: int) -> bool {
    elapsed + poll > timeout
}

impl LivenessState {
    /// The poll interval is positive and no longer than the threshold,
    /// the countdown never passes the threshold, and a tick cannot
    /// overflow the counter.
    pub open spec fn wf(&self) -> bool {
        &&& 1 <= self.poll_ms
        &&& self.poll_ms <= self.timeout_ms
        &&& self.timeout_ms + self.poll_ms <= u64::MAX
        &&& self.elapsed_ms <= self.timeout_ms
    }

    /// A fresh countdown at zero.
    pub fn new(timeout_ms: u64, poll_ms: u64) -> (r: LivenessState)
        requires
            1 <= poll_ms <= timeout_ms,
            timeout_ms + poll_ms <= u64::MAX,
        ensures
            r.wf(),
            r.elapsed_ms == 0,
            r.timeout_ms == timeout_ms,
            r.poll_ms == poll_ms,
    {
        LivenessState { elapsed_ms: 0, timeout_ms, poll_ms }
    }

    /// Any datagram, valid or not, resets the countdown to zero.
    pub fn on_datagram(&mut self)
        requires
            old(self).wf(),
        ensures
            final(self).wf(),
            final(self).elapsed_ms == 0,
            final(self).timeout_ms == old(self).timeout_ms,
            final(self).poll_ms == old(self).poll_ms,
    {
        self.elapsed_ms = 0;
    }

    /// One poll tick with nothing inbound: advances the countdown by
    /// the poll interval; on crossing the threshold, reports that the
    /// handshake must be re-run and resets the countdown.
    pub fn tick(&mut self) -> (retrigger: bool)
        requires
            old(self).wf(),
        ensures
            final(self).wf(),
            final(self).timeout_ms == old(self).timeout_ms,
            final(self).poll_ms == old(self).poll_ms,
            retrigger == spec_tick_fires(
                old(self).elapsed_ms as int,
                old(self).timeout_ms as int,
                old(self).poll_ms as int,
            ),
            final(self).elapsed_ms == spec_tick_elapsed(
                old(self).elapsed_ms as int,
                old(self).timeout_ms as int,
                old(self).poll_ms as int,
            ),
    {
        let advanced = self.elapsed_ms + self.poll_ms;
        if advanced > self.timeout_ms {
            self.elapsed_ms = 0;
            true
        } else {
            self.elapsed_ms = advanced;
            false
        }
    }
}

/// One step of the main loop: from the current mode and the observed
/// event to the next mode and the action to perform. Completion of a
/// handshake cycle — success or abandonment — always returns the loop
/// to streaming; only a threshold crossing while streaming leads back
/// to awaiting a handshake.
pub fn step(mode: Mode, state: &mut LivenessState, ev: Event) -> (r: (Mode, Action))
    requires
        old(state).wf(),
    ensures
        final(state).wf(),
        final(state).timeout_ms == old(state).timeout_ms,
        final(state).poll_ms == old(state).poll_ms,
        mode == Mode::AwaitingHandshake ==> match ev {
            Event::Datagram(_) => r == (Mode::Streaming, Action::RunHandshake)
                && final(state).elapsed_ms == 0,
            Event::RecvError => r == (Mode::Streaming, Action::Idle) && final(state).elapsed_ms
                == 0,
            Event::PollTick => r == (Mode::AwaitingHandshake, Action::Idle)
                && final(state).elapsed_ms == old(state).elapsed_ms,
        },
        mode == Mode::Streaming ==> match ev {
            Event::Datagram(nonempty) => final(state).elapsed_ms == 0 && r == (
                Mode::Streaming,
                if nonempty {
                    Action::ApplyFrame
                } else {
                    Action::Idle
                },
            ),
            Event::RecvError => final(state).elapsed_ms == old(state).elapsed_ms && r == (
                Mode::Streaming,
                Action::Idle,
            ),
            Event::PollTick => {
                &&& final(state).elapsed_ms == spec_tick_elapsed(
                    old(state).elapsed_ms as int,
                    old(state).timeout_ms as int,
                    old(state).poll_ms as int,
                )
                &&& r == if spec_tick_fires(
                    old(state).elapsed_ms as int,
                    old(state).timeout_ms as int,
                    old(state).poll_ms as int,
                ) {
                    (Mode::AwaitingHandshake, Action::RunHandshake)
                } else {
                    (Mode::Streaming, Action::Idle)
                }
            },
        },
{
    match mode {
        Mode::AwaitingHandshake => match ev {
            Event::Datagram(_) => {
                state.on_datagram();
                (Mode::Streaming, Action::RunHandshake)
            },
            Event::RecvError => {
                state.on_datagram();
                (Mode::Streaming, Action::Idle)
            },
            Event::PollTick => (Mode::AwaitingHandshake, Action::Idle),
        },
        Mode::Streaming => match ev {
            Event::Datagram(nonempty) => {
                state.on_datagram();
                if nonempty {
                    (Mode::Streaming, Action::ApplyFrame)
                } else {
                    (Mode::Streaming, Action::Idle)
                }
            },
            Event::RecvError => (Mode::Streaming, Action::Idle),
            Event::PollTick => {
                if state.tick() {
                    (Mode::AwaitingHandshake, Action::RunHandshake)
                } else {
                    (Mode::Streaming, Action::Idle)
                }
            },
        },
    }
}

// ---------------------------------------------------------------------
// The liveness law
// ---------------------------------------------------------------------
/// The countdown after `n` consecutive silent ticks from a fresh reset.
pub open spec fn silent_elapsed(n: int, timeout: int, poll: int) -> int
    decreases n,
{
    if n <= 0 {
        0
    } else {
        spec_tick_elapsed(silent_elapsed(n - 1, timeout, poll), timeout, poll)
    }
}

/// How many of the first `n` consecutive silent ticks re-triggered the
/// handshake.
pub open spec fn silent_fires(n: int, timeout: int, poll: int) -> int
    decreases n,
{
    if n <= 0 {
        0
    } else {
        silent_fires(n - 1, timeout, poll) + (if spec_tick_fires(
            silent_elapsed(n - 1, timeout, poll),
            timeout,
            poll,
        ) {
            1int
        } else {
            0int
        })
    }
}

/// The liveness law: with no datagrams at all, the handshake re-fires
/// exactly once per timeout period. A period is `timeout / poll + 1`
/// ticks — the least number of poll intervals that strictly exceeds
/// the threshold — and after `n` silent ticks the handshake has been
/// re-triggered exactly `n` divided by the period times, while the
/// countdown stands at the remainder times the poll interval. (That a
/// datagram resets the countdown to zero is stated by `on_datagram`
/// and `step` themselves.)
pub proof fn lemma_liveness_period(n: int, timeout: int, poll: int)
    requires
        0 <= n,
        1 <= poll <= timeout,
    ensures
        silent_elapsed(n, timeout, poll) == (n % (timeout / poll + 1)) * poll,
        silent_fires(n, timeout, poll) == n / (timeout / poll + 1),
    decreases n,
{
    let k = timeout / poll + 1;
    lemma_fundamental_div_mod(timeout, poll);
    if n == 0 {
        lemma_fundamental_div_mod_converse(0, k, 0, 0);
    } else {
        lemma_liveness_period(n - 1, timeout, poll);
        lemma_fundamental_div_mod(n - 1, k);
        let q = (n - 1) / k;
        let r = (n - 1) % k;
        let e = silent_elapsed(n - 1, timeout, poll);
        assert(e == r * poll);
        if r == k - 1 {
            // The tick that crosses the threshold: k * poll > timeout.
            assert(e == (timeout / poll) * poll);
            assert(e <= timeout);
            assert(e + poll > timeout);
            assert(n == k * (q + 1) + 0) by (nonlinear_arith)
                requires
                    n - 1 == k * q + r,
                    r == k - 1,
            ;
            lemma_fundamental_div_mod_converse(n, k, q + 1, 0);
        } else {
            // Still inside the period: (r + 1) * poll stays under the
            // threshold because r + 1 <= k - 1 = timeout / poll.
            assert(e + poll == (r + 1) * poll) by (nonlinear_arith)
                requires
                    e == r * poll,
            ;
            lemma_mul_inequality(r + 1, k - 1, poll);
            assert((k - 1) * poll == timeout - timeout % poll);
            assert(e + poll <= timeout);
            assert(n == k * q + (r + 1)) by {
                assert(n - 1 == k * q + r);
            }
            lemma_fundamental_div_mod_converse(n, k, q, r + 1);
        }
    }
}

} // verus!
