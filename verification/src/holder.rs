//! Single-slot registry for the live remote connection handle.
//!
//! At most one handle is visible to callers at any instant. The shell wraps
//! this slot in its mutual-exclusion primitive, so that one synchronization
//! call holds the slot for its entire duration; the slot itself carries the
//! decision of when use is allowed and when it must be denied.

use vstd::prelude::*;
use crate::errors::SyncError;

verus! {

/// Owns at most one live remote-client handle. Configuration swaps the
/// handle in or out; use is denied while no handle is configured.
pub struct ConnectionSlot<C> {
    handle: Option<C>,
}

impl<C> ConnectionSlot<C> {
    /// The handle currently visible to callers, if any.
    pub closed spec fn handle_opt(&self) -> Option<C> {
        self.handle
    }

    /// Whether a handle is configured.
    pub open spec fn is_set(&self) -> bool {
        self.handle_opt() is Some
    }

    /// A slot with nothing configured yet.
    pub fn empty() -> (s: Self)
        ensures
            !s.is_set(),
    {
        ConnectionSlot { handle: None }
    }

    /// Installs a freshly constructed handle. Exactly one handle survives:
    /// any previously held one is discarded.
    pub fn set(&mut self, handle: C)
        ensures
            final(self).handle_opt() == Some(handle),
    {
        self.handle = Some(handle);
    }

    /// Empties the slot, discarding any held handle.
    pub fn clear(&mut self)
        ensures
            !final(self).is_set(),
    {
        self.handle = None;
    }

    /// Applies the outcome of constructing a handle from an enabled
    /// configuration: success atomically replaces any previously held
    /// handle — only the new one survives; failure leaves the slot exactly
    /// as it was and surfaces the configuration error with its reason.
    pub fn apply_construction(&mut self, built: Result<C, String>) -> (r: Result<(), SyncError>)
        ensures
            built matches Ok(c) ==> r is Ok && final(self).handle_opt() == Some(c),
            built matches Err(reason) ==> final(self).handle_opt() == old(self).handle_opt() && r
                == Err::<(), SyncError>((SyncError::InvalidConfig { reason })),
    {
        match built {
            Ok(c) => {
                self.handle = Some(c);
                Ok(())
            },
            Err(reason) => Err(SyncError::InvalidConfig { reason }),
        }
    }

    /// Whether an operation needing the remote store may proceed.
    pub fn is_configured(&self) -> (r: bool)
        ensures
            r == self.is_set(),
    {
        self.handle.is_some()
    }

    /// Yields the configured handle for the duration of one operation, or
    /// denies use: the result is `Ok` exactly when a handle is configured,
    /// and the only possible failure is the not-configured one.
    pub fn borrow_handle(&self) -> (r: Result<&C, SyncError>)
        ensures
            r is Ok <==> self.is_set(),
            r matches Ok(c) ==> self.handle_opt() == Some(*c),
            r matches Err(e) ==> e is NotConfigured,
    {
        match &self.handle {
            Some(c) => Ok(c),
            None => Err(SyncError::NotConfigured),
        }
    }
}

} // verus!
