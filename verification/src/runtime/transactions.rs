use vstd::prelude::*;
use crate::settings::model::{AppSettings, AppSettingsView};

verus! {

/// How many settings transactions may wait for the serial transaction service.
pub const SETTINGS_TRANSACTION_QUEUE_CAPACITY: usize = 8;

/// The revision of the authoritative settings; it starts at one and only grows.
#[derive(Clone, Copy, Debug, PartialEq, Eq, Structural)]
pub struct SettingsRevision {
    value: u64,
}

impl SettingsRevision {
    pub closed spec fn spec_get(self) -> u64 {
        self.value
    }

    /// The revision of settings as they were loaded.
    pub fn initial() -> (r: Self)
        ensures
            r.spec_get() == 1,
    {
        SettingsRevision { value: 1 }
    }

    pub fn new(value: u64) -> (r: Self)
        ensures
            r.spec_get() == value,
    {
        SettingsRevision { value }
    }

    pub fn get(self) -> (r: u64)
        ensures
            r == self.spec_get(),
    {
        self.value
    }

    /// The next revision; the count stops at the largest value rather than wrap.
    pub fn next(self) -> (r: Self)
        ensures
            r.spec_get() == if self.spec_get() == u64::MAX { u64::MAX } else { (self.spec_get() + 1) as u64 },
    {
        SettingsRevision { value: self.value.saturating_add(1) }
    }
}

/// The token that ties the steps of one admitted transaction together.
#[derive(Clone, Copy, Debug, PartialEq, Eq, Structural)]
pub struct SettingsTransactionToken {
    pub value: u64,
}

#[derive(Clone, Copy, Debug, PartialEq, Eq, Structural)]
pub enum SettingsTransactionOrigin {
    Mcp,
    Tui,
}

#[derive(Clone, Copy, Debug, PartialEq, Eq, Structural)]
pub enum SettingsTransactionOutcome {
    Committed,
    Unchanged,
}

/// Why the runtime refused a step of a settings transaction.
#[derive(Clone, Copy, Debug, PartialEq, Eq, Structural)]
pub enum SettingsTransactionError {
    /// The writer expected another revision than the current one.
    RevisionConflict { expected: u64, current: u64 },
    /// An MCP writer met unsaved edits in the settings screen.
    TuiDraftConflict { current: u64 },
    /// Another transaction holds the settings.
    TransactionPending,
    /// Finalization came without a transaction in flight.
    NoPendingTransaction,
    /// The token or origin does not belong to the transaction in flight.
    TokenMismatch,
    /// A committed transaction came without its compiled request policy.
    MissingPolicy,
}

/// What an admitted transaction starts from.
#[derive(Debug)]
pub struct BeginSettingsTransactionReply {
    pub settings: AppSettings,
    pub revision: SettingsRevision,
    pub token: SettingsTransactionToken,
}

/// What a transaction hands back to the runtime once its work is done.
#[derive(Debug)]
pub struct FinalizedSettingsTransaction<P> {
    pub settings: AppSettings,
    pub policy: Option<P>,
    pub origin: SettingsTransactionOrigin,
    pub outcome: SettingsTransactionOutcome,
}

/// The runtime's authority over the settings: the current settings and request policy, the
/// revision, and the one transaction that may be in flight.
#[derive(Debug)]
pub struct SettingsAuthority<P> {
    settings: AppSettings,
    policy: P,
    revision: SettingsRevision,
    next_token: u64,
    pending: Option<(SettingsTransactionToken, SettingsTransactionOrigin)>,
    draft_dirty: bool,
    save_pending: bool,
}

pub struct AuthorityView<P> {
    pub settings: AppSettingsView,
    pub policy: P,
    pub revision: u64,
    pub next_token: u64,
    pub pending: Option<(SettingsTransactionToken, SettingsTransactionOrigin)>,
    pub draft_dirty: bool,
    pub save_pending: bool,
}

impl<P> View for SettingsAuthority<P> {
    type V = AuthorityView<P>;

    closed spec fn view(&self) -> AuthorityView<P> {
        AuthorityView {
            settings: self.settings@,
            policy: self.policy,
            revision: self.revision.spec_get(),
            next_token: self.next_token,
            pending: self.pending,
            draft_dirty: self.draft_dirty,
            save_pending: self.save_pending,
        }
    }
}

pub open spec fn pending_token(p: Option<(SettingsTransactionToken, SettingsTransactionOrigin)>) -> Option<SettingsTransactionToken> {
    match p {
        Some((t, _)) => Some(t),
        None => None,
    }
}

pub open spec fn next_revision(r: u64) -> u64 {
    if r == u64::MAX {
        u64::MAX
    } else {
        (r + 1) as u64
    }
}

/// Why a transaction may not begin now, if it may not.
pub open spec fn begin_refusal<P>(
    a: AuthorityView<P>,
    expected: Option<u64>,
    origin: SettingsTransactionOrigin,
) -> Option<SettingsTransactionError> {
    if expected is Some && expected->0 != a.revision {
        Some(SettingsTransactionError::RevisionConflict { expected: expected->0, current: a.revision })
    } else if origin == SettingsTransactionOrigin::Mcp && a.draft_dirty {
        Some(SettingsTransactionError::TuiDraftConflict { current: a.revision })
    } else if origin == SettingsTransactionOrigin::Mcp && a.save_pending {
        Some(SettingsTransactionError::TransactionPending)
    } else if a.pending is Some {
        Some(SettingsTransactionError::TransactionPending)
    } else {
        None
    }
}

impl<P> SettingsAuthority<P> {
    /// The authority over settings as loaded, with the policy compiled from them.
    pub fn new(settings: AppSettings, policy: P) -> (r: Self)
        ensures
            r@.settings == settings@,
            r@.policy == policy,
            r@.revision == 1,
            r@.next_token == 1,
            r@.pending is None,
            !r@.draft_dirty,
            !r@.save_pending,
    {
        SettingsAuthority {
            settings,
            policy,
            revision: SettingsRevision::initial(),
            next_token: 1,
            pending: None,
            draft_dirty: false,
            save_pending: false,
        }
    }

    pub fn settings(&self) -> (r: &AppSettings)
        ensures
            r@ == self@.settings,
    {
        &self.settings
    }

    pub fn policy(&self) -> (r: &P)
        ensures
            *r == self@.policy,
    {
        &self.policy
    }

    pub fn revision(&self) -> (r: SettingsRevision)
        ensures
            r.spec_get() == self@.revision,
    {
        self.revision
    }

    /// Whether a settings save or transaction holds the settings screen.
    pub fn settings_transaction_pending(&self) -> (r: bool)
        ensures
            r == self@.save_pending,
    {
        self.save_pending
    }

    /// Records whether the settings screen holds unsaved edits.
    pub fn set_draft_dirty(&mut self, dirty: bool)
        ensures
            final(self)@ == (AuthorityView { draft_dirty: dirty, ..old(self)@ }),
    {
        self.draft_dirty = dirty;
    }

    /// A save from the settings screen: refused while another is pending, else it now is.
    pub fn request_tui_save(&mut self) -> (accepted: bool)
        ensures
            accepted == !old(self)@.save_pending,
            final(self)@ == (AuthorityView { save_pending: true, ..old(self)@ }),
    {
        if self.save_pending {
            false
        } else {
            self.save_pending = true;
            true
        }
    }

    /// Admits a transaction: the writer's expected revision must be current, an MCP writer
    /// may not meet unsaved edits or a pending save, and one transaction at a time holds the
    /// settings. An admitted transaction gets a fresh token; a refused one changes nothing.
    pub fn begin(&mut self, expected_revision: Option<SettingsRevision>, origin: SettingsTransactionOrigin) -> (r: Result<
        BeginSettingsTransactionReply,
        SettingsTransactionError,
    >)
        ensures
            match r {
                Ok(reply) => {
                    &&& begin_refusal(old(self)@, match expected_revision {
                        Some(e) => Some(e.spec_get()),
                        None => None,
                    }, origin) is None
                    &&& reply.settings@ == old(self)@.settings
                    &&& reply.revision.spec_get() == old(self)@.revision
                    &&& reply.token.value == old(self)@.next_token
                    &&& final(self)@ == (AuthorityView {
                        next_token: if old(self)@.next_token == u64::MAX { u64::MAX } else { (old(self)@.next_token + 1) as u64 },
                        pending: Some((reply.token, origin)),
                        save_pending: true,
                        ..old(self)@
                    })
                },
                Err(e) => {
                    &&& begin_refusal(old(self)@, match expected_revision {
                        Some(e) => Some(e.spec_get()),
                        None => None,
                    }, origin) == Some(e)
                    &&& final(self)@ == old(self)@
                },
            },
    {
        if let Some(expected) = expected_revision {
            if expected.get() != self.revision.get() {
                return Err(
                    SettingsTransactionError::RevisionConflict { expected: expected.get(), current: self.revision.get() },
                );
            }
        }
        if matches!(origin, SettingsTransactionOrigin::Mcp) && self.draft_dirty {
            return Err(SettingsTransactionError::TuiDraftConflict { current: self.revision.get() });
        }
        if matches!(origin, SettingsTransactionOrigin::Mcp) && self.save_pending {
            return Err(SettingsTransactionError::TransactionPending);
        }
        if self.pending.is_some() {
            return Err(SettingsTransactionError::TransactionPending);
        }
        let token = SettingsTransactionToken { value: self.next_token };
        self.next_token = self.next_token.saturating_add(1);
        self.pending = Some((token, origin));
        self.save_pending = true;
        Ok(BeginSettingsTransactionReply { settings: self.settings.clone(), revision: self.revision, token })
    }

    /// Ends the transaction in flight. A committed one installs its settings and policy and
    /// advances the revision by one; an unchanged one only releases the settings. Anything
    /// that does not belong to the transaction in flight changes nothing.
    pub fn finalize(&mut self, token: SettingsTransactionToken, commit: FinalizedSettingsTransaction<P>) -> (r: Result<
        SettingsTransactionOutcome,
        SettingsTransactionError,
    >)
        ensures
            match r {
                Ok(outcome) => {
                    &&& old(self)@.pending == Some((token, commit.origin))
                    &&& outcome == commit.outcome
                    &&& final(self)@.pending is None
                    &&& !final(self)@.save_pending
                    &&& final(self)@.next_token == old(self)@.next_token
                    &&& final(self)@.draft_dirty == old(self)@.draft_dirty
                    &&& if outcome == SettingsTransactionOutcome::Committed {
                        &&& commit.policy == Some(final(self)@.policy)
                        &&& final(self)@.settings == commit.settings@
                        &&& final(self)@.revision == next_revision(old(self)@.revision)
                    } else {
                        &&& final(self)@.policy == old(self)@.policy
                        &&& final(self)@.settings == old(self)@.settings
                        &&& final(self)@.revision == old(self)@.revision
                    }
                },
                Err(e) => {
                    &&& final(self)@ == old(self)@
                    &&& e == if old(self)@.pending is None {
                        SettingsTransactionError::NoPendingTransaction
                    } else if old(self)@.pending != Some((token, commit.origin)) {
                        SettingsTransactionError::TokenMismatch
                    } else {
                        SettingsTransactionError::MissingPolicy
                    }
                    &&& (e == SettingsTransactionError::MissingPolicy ==> commit.outcome
                        == SettingsTransactionOutcome::Committed && commit.policy is None)
                },
            },
    {
        let (pending, origin) = match self.pending {
            None => {
                return Err(SettingsTransactionError::NoPendingTransaction);
            },
            Some(p) => p,
        };
        if pending.value != token.value || origin != commit.origin {
            return Err(SettingsTransactionError::TokenMismatch);
        }
        let outcome = commit.outcome;
        match outcome {
            SettingsTransactionOutcome::Committed => {
                let policy = match commit.policy {
                    Some(p) => p,
                    None => {
                        return Err(SettingsTransactionError::MissingPolicy);
                    },
                };
                self.policy = policy;
                self.settings = commit.settings;
                self.revision = self.revision.next();
            },
            SettingsTransactionOutcome::Unchanged => {},
        }
        self.save_pending = false;
        self.pending = None;
        Ok(outcome)
    }

    /// Abandons the transaction in flight; a token that is not in flight changes nothing.
    pub fn abort(&mut self, token: SettingsTransactionToken) -> (r: Result<(), SettingsTransactionError>)
        ensures
            match r {
                Ok(()) => {
                    &&& pending_token(old(self)@.pending) == Some(token)
                    &&& final(self)@ == (AuthorityView { pending: None, save_pending: false, ..old(self)@ })
                },
                Err(e) => {
                    &&& !(pending_token(old(self)@.pending) == Some(token))
                    &&& e == SettingsTransactionError::TokenMismatch
                    &&& final(self)@ == old(self)@
                },
            },
    {
        match self.pending {
            Some((pending, _)) => {
                if pending.value == token.value {
                    self.pending = None;
                    self.save_pending = false;
                    return Ok(());
                }
                Err(SettingsTransactionError::TokenMismatch)
            },
            None => Err(SettingsTransactionError::TokenMismatch),
        }
    }
}

/// The revision a finished transaction reports: one past the revision it began from when it
/// committed, the same when it changed nothing.
pub fn transaction_result_revision(outcome: SettingsTransactionOutcome, begun: SettingsRevision) -> (r: SettingsRevision)
    ensures
        r.spec_get() == if outcome == SettingsTransactionOutcome::Committed {
            next_revision(begun.spec_get())
        } else {
            begun.spec_get()
        },
{
    match outcome {
        SettingsTransactionOutcome::Committed => begun.next(),
        SettingsTransactionOutcome::Unchanged => begun,
    }
}

} // verus!
