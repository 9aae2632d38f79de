//! The error taxonomy of the wallet engine.

use vstd::prelude::*;

verus! {

/// Every way a wallet operation can be refused.  Each operation's
/// contract states exactly which inputs produce which variant.
#[derive(Clone, Copy, Debug, PartialEq, Eq, Structural)]
pub enum Error {
    /// `initialize` on a wallet that already holds a credential.
    AlreadyInitialized,
    /// An operation that needs the wallet's settings before they exist.
    NotInitialized,
    /// A transfer amount that is zero or negative.
    InvalidAmount,
    /// A withdraw or send larger than the wallet's ledger balance.
    InsufficientBalance,
    /// A spend that would push the day's total over the daily limit.
    DailyLimitExceeded,
    /// A role or policy violation: a savings-only withdrawal, recovery
    /// while disabled, an allow-list update on a non-custom wallet, or a
    /// session credential acting outside its scope.
    Unauthorized,
    /// A credential proof that fails verification: a bad signature, bad
    /// authenticator data, or a missing challenge marker.
    InvalidSignature,
    /// `complete_recovery` before the recovery delay has elapsed.
    RecoveryPending,
    /// `complete_recovery` with no recovery request pending.
    NoRecoveryPending,
    /// Removing or demoting the wallet's sole administrative credential.
    LastAdminProtected,
    /// A deposit of a token the wallet's policy does not admit.
    TokenNotAllowed,
    /// A lookup of a credential id the registry does not hold.
    NotFound,
}

} // verus!
