//! The deadline of a connection: how long it may stay idle, and how long a
//! request head may take once its first byte has come.
//!
//! Instants and durations are counted in ticks of one clock; what a tick
//! is, and when the clock started, is up to the caller.

use vstd::prelude::*;

verus! {

/// What the timer is waiting for.
#[derive(Clone, Copy, Debug, PartialEq, Eq, Structural)]
pub enum TimerState {
    /// The next request has not begun.
    OnKeepAlive,
    /// A request head has begun and is not complete.
    OnRequestHead,
}

/// What an expired deadline means.
#[derive(Clone, Copy, Debug, PartialEq, Eq, Structural)]
pub enum TimeoutKind {
    /// The connection stayed idle: it closes without a response.
    KeepAliveExpire,
    /// A request head took too long: the request is answered with 408.
    RequestTimeout,
}

/// The instant `dur` after `now`, or the last instant of the clock where
/// that lies beyond it.
pub open spec fn after(now: u64, dur: u64) -> u64 {
    if now + dur > u64::MAX {
        u64::MAX
    } else {
        (now + dur) as u64
    }
}

/// Computes the instant `dur` after `now`; see [`after`].
pub fn instant_after(now: u64, dur: u64) -> (r: u64)
    ensures
        r == after(now, dur),
{
    if dur > u64::MAX - now {
        u64::MAX
    } else {
        now + dur
    }
}

/// The timer of one connection.
#[derive(Clone, Copy, Debug, PartialEq, Eq, Structural)]
pub struct Timer {
    /// How long the connection may stay idle.
    pub keep_alive: u64,
    /// How long a request head may take from its first byte on.
    pub request_head: u64,
    /// The instant at which the timer expires.
    pub deadline: u64,
    pub state: TimerState,
}

impl Timer {
    /// The timer of a connection that was accepted at `now`.
    pub open spec fn started(keep_alive: u64, request_head: u64, now: u64) -> Timer {
        Timer {
            keep_alive,
            request_head,
            deadline: after(now, keep_alive),
            state: TimerState::OnKeepAlive,
        }
    }

    /// A timer that waits for the next request from `now` on.
    pub fn new(keep_alive: u64, request_head: u64, now: u64) -> (t: Timer)
        ensures
            t == Timer::started(keep_alive, request_head, now),
    {
        Timer {
            keep_alive,
            request_head,
            deadline: instant_after(now, keep_alive),
            state: TimerState::OnKeepAlive,
        }
    }

    /// The timer after a new wait for input begins at `now`: while no
    /// request has begun, the connection may stay idle for the keep-alive
    /// time from `now` on; once a request head has begun, its deadline
    /// stands.
    pub open spec fn updated(self, now: u64) -> Timer {
        match self.state {
            TimerState::OnKeepAlive => Timer { deadline: after(now, self.keep_alive), ..self },
            TimerState::OnRequestHead => self,
        }
    }

    /// Begins a new wait for input at `now`; see [`Timer::updated`].
    pub fn update(&mut self, now: u64)
        ensures
            *final(self) == old(self).updated(now),
    {
        match self.state {
            TimerState::OnKeepAlive => {
                self.deadline = instant_after(now, self.keep_alive);
            },
            TimerState::OnRequestHead => {},
        }
    }

    /// The timer after input has come at `now`: the first byte of a
    /// request begins the time that its head may take.
    pub open spec fn begun(self, now: u64) -> Timer {
        match self.state {
            TimerState::OnKeepAlive => Timer {
                deadline: after(now, self.request_head),
                state: TimerState::OnRequestHead,
                ..self
            },
            TimerState::OnRequestHead => self,
        }
    }

    /// Notes that input has come at `now`; see [`Timer::begun`].
    pub fn first_byte(&mut self, now: u64)
        ensures
            *final(self) == old(self).begun(now),
    {
        match self.state {
            TimerState::OnKeepAlive => {
                self.deadline = instant_after(now, self.request_head);
                self.state = TimerState::OnRequestHead;
            },
            TimerState::OnRequestHead => {},
        }
    }

    /// Notes that a request head is complete: the timer waits for the next
    /// request again. The deadline stands until the next wait for input
    /// begins.
    pub fn reset_state(&mut self)
        ensures
            *final(self) == (Timer { state: TimerState::OnKeepAlive, ..*old(self) }),
    {
        self.state = TimerState::OnKeepAlive;
    }

    /// The instant at which the timer expires.
    pub fn get(&self) -> (deadline: u64)
        ensures
            deadline == self.deadline,
    {
        self.deadline
    }

    /// Whether the timer has expired at `now`.
    pub fn is_expired(&self, now: u64) -> (r: bool)
        ensures
            r == (now >= self.deadline),
    {
        now >= self.deadline
    }

    /// What it means that the timer expired while `buffered` bytes of
    /// input were waiting: an idle connection with no input closes in
    /// silence; a request that has begun is answered.
    pub open spec fn expiry(self, buffered: nat) -> TimeoutKind {
        if self.state == TimerState::OnKeepAlive && buffered == 0 {
            TimeoutKind::KeepAliveExpire
        } else {
            TimeoutKind::RequestTimeout
        }
    }

    /// Tells what an expired deadline means; see [`Timer::expiry`].
    pub fn map_to_err(&self, buffered: usize) -> (kind: TimeoutKind)
        ensures
            kind == self.expiry(buffered as nat),
    {
        match self.state {
            TimerState::OnKeepAlive => {
                if buffered == 0 {
                    TimeoutKind::KeepAliveExpire
                } else {
                    TimeoutKind::RequestTimeout
                }
            },
            TimerState::OnRequestHead => TimeoutKind::RequestTimeout,
        }
    }
}

/// A deadline that passes while input is waiting, or once a request head
/// has begun, is never the silent end of an idle connection: the request
/// is answered.
pub proof fn lemma_timeout_with_request(timer: Timer, buffered: nat)
    requires
        buffered > 0 || timer.state == TimerState::OnRequestHead,
    ensures
        timer.expiry(buffered) == TimeoutKind::RequestTimeout,
{
}

/// The time that a request head may take runs from its first byte: once
/// input has come, no later wait for input moves the deadline, until the
/// head is complete.
pub proof fn lemma_head_deadline_stands(timer: Timer, first: u64, later: u64)
    ensures
        timer.begun(first).state == TimerState::OnRequestHead,
        timer.begun(first).updated(later) == timer.begun(first),
        timer.begun(first).begun(later) == timer.begun(first),
        timer.state == TimerState::OnKeepAlive ==> timer.begun(first).deadline == after(
            first,
            timer.request_head,
        ),
{
}

} // verus!
