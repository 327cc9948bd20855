//! The lock state that gates every private-key operation.
use vstd::prelude::*;

verus! {

/// Whether private-key operations are currently allowed.
#[derive(Debug, Clone, Copy, PartialEq, Eq, Structural)]
pub enum SessionState {
    Locked,
    Unlocked { unlock_time: u64, last_activity: u64 },
}

/// The session of one store: its state, the idle time after which it locks
/// again, the count of failed unlock attempts since the last success, and the
/// count at which further attempts are refused (`0`: never).
#[derive(Debug, Clone, Copy)]
pub struct SessionManager {
    pub state: SessionState,
    pub idle_timeout: u64,
    pub failed_attempts: u32,
    pub max_failed_attempts: u32,
}

impl SessionManager {
    /// Whether the session counts as unlocked at time `now`: it was unlocked and
    /// has not been idle for longer than the timeout.
    pub open spec fn active_at(self, now: u64) -> bool {
        match self.state {
            SessionState::Locked => false,
            SessionState::Unlocked { last_activity, .. } => now as int <= last_activity as int
                + self.idle_timeout as int,
        }
    }

    /// The state after activity at `now`: an expired session locks, an active
    /// one moves its last activity forward to `now`.
    pub open spec fn state_after_touch(self, now: u64) -> SessionState {
        match self.state {
            SessionState::Locked => SessionState::Locked,
            SessionState::Unlocked { unlock_time, last_activity } => if self.active_at(now) {
                SessionState::Unlocked {
                    unlock_time,
                    last_activity: if now > last_activity {
                        now
                    } else {
                        last_activity
                    },
                }
            } else {
                SessionState::Locked
            },
        }
    }

    /// Whether failed attempts have reached the limit, so that unlocking is refused.
    pub open spec fn attempts_exhausted(self) -> bool {
        self.max_failed_attempts > 0 && self.failed_attempts >= self.max_failed_attempts
    }

    /// A locked session with no failed attempts and no limit on them.
    pub fn new(idle_timeout: u64) -> (r: SessionManager)
        ensures
            r.state == SessionState::Locked,
            r.idle_timeout == idle_timeout,
            r.failed_attempts == 0,
            r.max_failed_attempts == 0,
    {
        SessionManager { state: SessionState::Locked, idle_timeout, failed_attempts: 0, max_failed_attempts: 0 }
    }

    /// A locked session that refuses unlocking after `max_failed_attempts`
    /// failures in a row (`0`: never).
    pub fn with_limit(idle_timeout: u64, max_failed_attempts: u32) -> (r: SessionManager)
        ensures
            r.state == SessionState::Locked,
            r.idle_timeout == idle_timeout,
            r.failed_attempts == 0,
            r.max_failed_attempts == max_failed_attempts,
    {
        SessionManager { state: SessionState::Locked, idle_timeout, failed_attempts: 0, max_failed_attempts }
    }

    /// Whether unlocking is refused for too many failures.
    pub fn is_exhausted(&self) -> (r: bool)
        ensures
            r == self.attempts_exhausted(),
    {
        self.max_failed_attempts > 0 && self.failed_attempts >= self.max_failed_attempts
    }

    /// Clears the count of failed attempts (an operator's decision).
    pub fn reset_failures(&mut self)
        ensures
            final(self).state == old(self).state,
            final(self).idle_timeout == old(self).idle_timeout,
            final(self).max_failed_attempts == old(self).max_failed_attempts,
            final(self).failed_attempts == 0,
    {
        self.failed_attempts = 0;
    }

    /// Whether the session is unlocked, without counting the idle timeout.
    pub fn is_unlocked(&self) -> (r: bool)
        ensures
            r == (self.state is Unlocked),
    {
        match self.state {
            SessionState::Locked => false,
            SessionState::Unlocked { .. } => true,
        }
    }

    /// Records activity at `now`. An unlocked session that has been idle too
    /// long locks; an active one has its idle clock reset. Returns whether the
    /// session is active.
    pub fn touch(&mut self, now: u64) -> (r: bool)
        ensures
            r == old(self).active_at(now),
            final(self).idle_timeout == old(self).idle_timeout,
            final(self).failed_attempts == old(self).failed_attempts,
            final(self).state == old(self).state_after_touch(now),
            r ==> final(self).active_at(now),
    {
        match self.state {
            SessionState::Locked => false,
            SessionState::Unlocked { unlock_time, last_activity } => {
                if now <= last_activity || now - last_activity <= self.idle_timeout {
                    let latest = if now > last_activity {
                        now
                    } else {
                        last_activity
                    };
                    self.state = SessionState::Unlocked { unlock_time, last_activity: latest };
                    true
                } else {
                    self.state = SessionState::Locked;
                    false
                }
            },
        }
    }

    /// Locks the session.
    pub fn lock(&mut self)
        ensures
            final(self).state == SessionState::Locked,
            final(self).idle_timeout == old(self).idle_timeout,
            final(self).failed_attempts == old(self).failed_attempts,
            final(self).max_failed_attempts == old(self).max_failed_attempts,
    {
        self.state = SessionState::Locked;
    }

    /// Records a successful passphrase check at `now`.
    pub fn record_unlock(&mut self, now: u64)
        ensures
            final(self).state == (SessionState::Unlocked { unlock_time: now, last_activity: now }),
            final(self).idle_timeout == old(self).idle_timeout,
            final(self).failed_attempts == 0,
            final(self).max_failed_attempts == old(self).max_failed_attempts,
            final(self).active_at(now),
    {
        self.state = SessionState::Unlocked { unlock_time: now, last_activity: now };
        self.failed_attempts = 0;
    }

    /// Records a failed passphrase check: the session is locked and the count
    /// of failures grows, saturating at the largest `u32`.
    pub fn record_failure(&mut self)
        ensures
            final(self).state == SessionState::Locked,
            final(self).idle_timeout == old(self).idle_timeout,
            final(self).max_failed_attempts == old(self).max_failed_attempts,
            final(self).failed_attempts as int == if old(self).failed_attempts == u32::MAX {
                u32::MAX as int
            } else {
                old(self).failed_attempts + 1
            },
    {
        self.state = SessionState::Locked;
        self.failed_attempts = self.failed_attempts.saturating_add(1);
    }
}

} // verus!
