//! The browser-connect lifecycle of the compatibility adapter: at most one
//! connect attempt runs, it can be cancelled once, and finishing it clears
//! the connecting state; plus how an inference response status is read.

use vstd::prelude::*;

use crate::provider::PublicError;

verus! {

/// Whether a browser connect is running, and the attempt registered for
/// cancellation with whether it has been cancelled.
#[derive(Debug)]
pub struct ConnectSession {
    connecting: bool,
    active: Option<(u64, bool)>,
}

impl ConnectSession {
    pub closed spec fn is_connecting(&self) -> bool {
        self.connecting
    }

    pub closed spec fn active_attempt(&self) -> Option<(u64, bool)> {
        self.active
    }

    pub fn new() -> (s: Self)
        ensures
            !s.is_connecting(),
            s.active_attempt() is None,
    {
        ConnectSession { connecting: false, active: None }
    }

    /// Starts a connect attempt: a running connect, or a registered attempt
    /// not yet cleared, makes the session busy.
    pub fn begin_connect(&mut self, attempt: u64) -> (r: Result<(), PublicError>)
        ensures
            old(self).is_connecting() ==> r == Err::<(), PublicError>(PublicError::SessionBusy)
                && final(self).is_connecting() && final(self).active_attempt() == old(self).active_attempt(),
            !old(self).is_connecting() && old(self).active_attempt() is None ==> r is Ok
                && final(self).is_connecting() && final(self).active_attempt() == Some(
                (attempt, false),
            ),
            !old(self).is_connecting() && old(self).active_attempt() is Some ==> r == Err::<
                (),
                PublicError,
            >(PublicError::SessionBusy) && !final(self).is_connecting() && final(self).active_attempt() == old(self).active_attempt(),
    {
        if self.connecting {
            return Err(PublicError::SessionBusy);
        }
        self.connecting = true;
        if self.active.is_none() {
            self.active = Some((attempt, false));
            Ok(())
        } else {
            self.connecting = false;
            Err(PublicError::SessionBusy)
        }
    }

    /// Whether `attempt` is the registered attempt and has been cancelled.
    pub fn is_cancelled(&self, attempt: u64) -> (r: bool)
        ensures
            r == (self.active_attempt() == Some((attempt, true))),
    {
        match self.active {
            Some((id, cancelled)) => id == attempt && cancelled,
            None => false,
        }
    }

    /// Cancels the registered attempt; with none registered, or one already
    /// cancelled, the request is invalid.
    pub fn cancel_connect(&mut self) -> (r: Result<(), PublicError>)
        ensures
            final(self).is_connecting() == old(self).is_connecting(),
            match old(self).active_attempt() {
                Some((id, false)) => r is Ok && final(self).active_attempt() == Some((id, true)),
                _ => r == Err::<(), PublicError>(PublicError::InvalidInput) && final(self).active_attempt() == old(self).active_attempt(),
            },
    {
        match self.active {
            Some((id, false)) => {
                self.active = Some((id, true));
                Ok(())
            },
            _ => Err(PublicError::InvalidInput),
        }
    }

    /// Unregisters `attempt` if it is the registered attempt.
    pub fn clear_connect_cancel(&mut self, attempt: u64)
        ensures
            final(self).is_connecting() == old(self).is_connecting(),
            match old(self).active_attempt() {
                Some((id, _)) if id == attempt => final(self).active_attempt() is None,
                _ => final(self).active_attempt() == old(self).active_attempt(),
            },
    {
        if let Some((id, _)) = self.active {
            if id == attempt {
                self.active = None;
            }
        }
    }

    /// Gives up an attempt whose profile operation could not start: a
    /// cancelled attempt reports the cancellation, any other a busy session.
    pub fn abandon_busy_attempt(&mut self, attempt: u64) -> (e: PublicError)
        ensures
            e == (if old(self).active_attempt() == Some((attempt, true)) {
                PublicError::Cancelled
            } else {
                PublicError::SessionBusy
            }),
            !final(self).is_connecting(),
            match old(self).active_attempt() {
                Some((id, _)) if id == attempt => final(self).active_attempt() is None,
                _ => final(self).active_attempt() == old(self).active_attempt(),
            },
    {
        let was_cancelled = self.is_cancelled(attempt);
        self.clear_connect_cancel(attempt);
        self.connecting = false;
        if was_cancelled {
            PublicError::Cancelled
        } else {
            PublicError::SessionBusy
        }
    }

    /// Ends an attempt: it is unregistered, the session stops connecting, and
    /// the attempt's own result stands.
    pub fn finish_connect(&mut self, attempt: u64, result: Result<(), PublicError>) -> (r: Result<
        (),
        PublicError,
    >)
        ensures
            r == result,
            !final(self).is_connecting(),
            match old(self).active_attempt() {
                Some((id, _)) if id == attempt => final(self).active_attempt() is None,
                _ => final(self).active_attempt() == old(self).active_attempt(),
            },
    {
        self.clear_connect_cancel(attempt);
        self.connecting = false;
        result
    }
}

/// How an inference response status is read: unauthorized requires
/// reconnecting, forbidden means no entitlement, too many requests is rate
/// limiting, any other non-success status leaves the provider unavailable.
pub open spec fn inference_status_spec(status: u16) -> Result<(), PublicError> {
    if status == 401 {
        Err(PublicError::AuthenticationRequired)
    } else if status == 403 {
        Err(PublicError::EntitlementUnavailable)
    } else if status == 429 {
        Err(PublicError::RateLimited)
    } else if !(200 <= status <= 299) {
        Err(PublicError::ProviderUnavailable)
    } else {
        Ok(())
    }
}

pub fn inference_status_outcome(status: u16, reconnect_required: &mut bool) -> (r: Result<
    (),
    PublicError,
>)
    ensures
        r == inference_status_spec(status),
        *final(reconnect_required) == (status == 401 || *old(reconnect_required)),
{
    if status == 401 {
        *reconnect_required = true;
        return Err(PublicError::AuthenticationRequired);
    }
    if status == 403 {
        return Err(PublicError::EntitlementUnavailable);
    }
    if status == 429 {
        return Err(PublicError::RateLimited);
    }
    if status < 200 || status > 299 {
        return Err(PublicError::ProviderUnavailable);
    }
    Ok(())
}

} // verus!
