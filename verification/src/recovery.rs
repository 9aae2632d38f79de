//! The recovery state machine: time-locked replacement of the
//! administrative credential when it is lost.

use vstd::prelude::*;

use crate::errors::Error;
use crate::signers::{lemma_replace_primary_wf, replace_primary};
use crate::state::{Wallet, WalletModel, cred_index, has_cred};
use crate::types::{Credential, CredentialModel, RECOVERY_DELAY, RecoveryModel, RecoveryRequest, Role};

verus! {

/// What `initiate_recovery` does: on an initialized wallet with
/// recovery enabled it unconditionally (over)writes the pending
/// request, stamping it with the current time and the recovery delay.
/// No signer authorization beyond the settings flag is demanded — the
/// point of recovery is that the original credential may be lost.
pub open spec fn initiate_recovery_transition(
    w: WalletModel,
    id: Seq<u8>,
    pk: Seq<u8>,
    now: u64,
) -> (WalletModel, Result<(), Error>) {
    match w.settings {
        None => (w, Err(Error::NotInitialized)),
        Some(st) => if !st.recovery_enabled {
            (w, Err(Error::Unauthorized))
        } else {
            (
                WalletModel {
                    recovery: Some(
                        RecoveryModel {
                            new_passkey: CredentialModel {
                                id: id,
                                public_key: pk,
                                role: Role::Admin,
                                created_at: now,
                            },
                            requested_at: now,
                            expires_at: (now + RECOVERY_DELAY) as u64,
                        },
                    ),
                    ..w
                },
                Ok(()),
            )
        },
    }
}

/// What `complete_recovery` does: with no request pending it is
/// refused; before the request's expiry it is refused; afterwards the
/// pending credential replaces the primary administrative credential
/// and the request is consumed.
pub open spec fn complete_recovery_transition(w: WalletModel, now: u64) -> (
    WalletModel,
    Result<(), Error>,
) {
    match w.recovery {
        None => (w, Err(Error::NoRecoveryPending)),
        Some(req) => if now < req.expires_at {
            (w, Err(Error::RecoveryPending))
        } else {
            (WalletModel { recovery: None, ..replace_primary(w, req.new_passkey) }, Ok(()))
        },
    }
}

impl Wallet {
    /// Start (or restart) the time-locked recovery process for a new
    /// passkey credential.
    pub fn initiate_recovery(
        &mut self,
        new_passkey_id: Vec<u8>,
        new_public_key: Vec<u8>,
        now: u64,
    ) -> (r: Result<(), Error>)
        requires
            old(self)@.wf(),
            now + RECOVERY_DELAY <= u64::MAX,
        ensures
            final(self)@.wf(),
            final(self)@ == initiate_recovery_transition(
                old(self)@,
                new_passkey_id@,
                new_public_key@,
                now,
            ).0,
            r == initiate_recovery_transition(old(self)@, new_passkey_id@, new_public_key@, now).1,
    {
        let ghost w0 = self@;
        let st = match self.settings {
            Some(st) => st,
            None => {
                return Err(Error::NotInitialized);
            },
        };
        if !st.recovery_enabled {
            return Err(Error::Unauthorized);
        }
        let new_passkey = Credential {
            id: new_passkey_id,
            public_key: new_public_key,
            role: Role::Admin,
            created_at: now,
        };
        self.recovery = Some(
            RecoveryRequest { new_passkey, requested_at: now, expires_at: now + RECOVERY_DELAY },
        );
        proof {
            assert(self@ =~= initiate_recovery_transition(
                w0,
                new_passkey_id@,
                new_public_key@,
                now,
            ).0);
        }
        Ok(())
    }

    /// Complete a pending recovery once its delay has elapsed: the
    /// pending credential replaces the primary administrative
    /// credential and the request is deleted.
    pub fn complete_recovery(&mut self, now: u64) -> (r: Result<(), Error>)
        requires
            old(self)@.wf(),
        ensures
            final(self)@.wf(),
            final(self)@ == complete_recovery_transition(old(self)@, now).0,
            r == complete_recovery_transition(old(self)@, now).1,
    {
        let ghost w0 = self@;
        let (cred, expires_at) = match &self.recovery {
            Some(req) => (req.new_passkey.duplicate(), req.expires_at),
            None => {
                return Err(Error::NoRecoveryPending);
            },
        };
        if now < expires_at {
            return Err(Error::RecoveryPending);
        }
        self.replace_primary_slot(cred);
        self.recovery = None;
        proof {
            assert(self@ =~= complete_recovery_transition(w0, now).0);
        }
        Ok(())
    }
}

/// Law (recovery timing): initiating recovery at `t0` succeeds on an
/// initialized wallet with recovery enabled; completing it strictly
/// before `t0` plus the recovery delay fails with `RecoveryPending`
/// and changes nothing; completing it at or after that moment succeeds
/// and installs the pending credential as the registered credential
/// under its id; completing it again immediately afterwards fails with
/// `NoRecoveryPending`.
pub proof fn lemma_recovery_timing(
    w: WalletModel,
    id: Seq<u8>,
    pk: Seq<u8>,
    t0: u64,
    t_early: u64,
    t_done: u64,
)
    requires
        w.wf(),
        w.settings matches Some(st) && st.recovery_enabled,
        t0 + RECOVERY_DELAY <= u64::MAX,
        t_early < t0 + RECOVERY_DELAY,
        t_done >= t0 + RECOVERY_DELAY,
    ensures
        ({
            let (w1, r1) = initiate_recovery_transition(w, id, pk, t0);
            let (w2, r2) = complete_recovery_transition(w1, t_done);
            &&& r1 == Ok::<(), Error>(())
            &&& complete_recovery_transition(w1, t_early) == (
                w1,
                Err::<(), Error>(Error::RecoveryPending),
            )
            &&& r2 == Ok::<(), Error>(())
            &&& w2.recovery is None
            &&& has_cred(w2.signers, id)
            &&& w2.signers[cred_index(w2.signers, id)] == CredentialModel {
                id: id,
                public_key: pk,
                role: Role::Admin,
                created_at: t0,
            }
            &&& complete_recovery_transition(w2, t_done) == (
                w2,
                Err::<(), Error>(Error::NoRecoveryPending),
            )
        }),
{
    let (w1, r1) = initiate_recovery_transition(w, id, pk, t0);
    let cred = CredentialModel { id: id, public_key: pk, role: Role::Admin, created_at: t0 };
    assert(w1.wf());
    lemma_replace_primary_wf(w1, cred);
    let (w2, r2) = complete_recovery_transition(w1, t_done);
    assert(w2.signers == replace_primary(w1, cred).signers);
}

} // verus!
