//! The authorization decision procedure.
//!
//! Every state-changing operation is gated by this check: the
//! submitted credential proof is resolved against the registry, a
//! session credential's scope is enforced, and the WebAuthn material
//! is validated.  The cryptographic signature verification itself is
//! the host's primitive; its verdict enters here as the `sig_valid`
//! input, and the decision is exact for every value of it.

use vstd::prelude::*;

use crate::bytes::{bytes_eq, contains_bytes, contains_subslice};
use crate::errors::Error;
use crate::state::{Wallet, WalletModel, cred_index, has_cred, lemma_cred_index_unique};
use crate::types::{AuthContext, AuthContextModel, CredentialModel, WebAuthnSignature};

verus! {

/// The byte string `"challenge"`: the marker the client data must
/// carry.  This containment test is a deliberately weak placeholder
/// for full client-data parsing, kept exactly as weak as it is; do not
/// mistake it for a binding of the signature to the payload.
pub open spec fn challenge_marker() -> Seq<u8> {
    seq![99u8, 104u8, 97u8, 108u8, 108u8, 101u8, 110u8, 103u8, 101u8]
}

/// The challenge marker as a byte vector.
fn challenge_marker_bytes() -> (r: Vec<u8>)
    ensures
        r@ == challenge_marker(),
{
    let mut r: Vec<u8> = Vec::new();
    r.push(99);
    r.push(104);
    r.push(97);
    r.push(108);
    r.push(108);
    r.push(101);
    r.push(110);
    r.push(103);
    r.push(101);
    proof {
        assert(r@ =~= challenge_marker());
    }
    r
}

/// A session credential oversteps its scope when any of the submitted
/// contexts removes a credential other than itself; administrative
/// credentials are unrestricted.
pub open spec fn scope_violation(cred: CredentialModel, contexts: Seq<AuthContextModel>) -> bool {
    cred.role is Session && exists|k: int|
        0 <= k < contexts.len() && ((#[trigger] contexts[k])
            matches AuthContextModel::RemoveCredential { target_id } && target_id != cred.id)
}

/// The WebAuthn material checks: authenticator data of at least 37
/// bytes with the user-present flag (bit 0 of byte 32) set, and client
/// data containing the challenge marker.
pub open spec fn webauthn_material_ok(auth_data: Seq<u8>, client_data: Seq<u8>) -> bool {
    &&& auth_data.len() >= 37
    &&& auth_data[32] & 0x01 != 0
    &&& contains_bytes(client_data, challenge_marker())
}

/// The whole decision: an unknown credential id is `NotFound`; a
/// session credential removing another credential is `Unauthorized`; a
/// failed host signature check or failed WebAuthn material check is
/// `InvalidSignature`; everything else is authorized.
pub open spec fn auth_decision(
    w: WalletModel,
    id: Seq<u8>,
    auth_data: Seq<u8>,
    client_data: Seq<u8>,
    contexts: Seq<AuthContextModel>,
    sig_valid: bool,
) -> Result<(), Error> {
    if !has_cred(w.signers, id) {
        Err(Error::NotFound)
    } else if scope_violation(w.signers[cred_index(w.signers, id)], contexts) {
        Err(Error::Unauthorized)
    } else if !sig_valid {
        Err(Error::InvalidSignature)
    } else if !webauthn_material_ok(auth_data, client_data) {
        Err(Error::InvalidSignature)
    } else {
        Ok(())
    }
}

impl Wallet {
    /// Decide whether the submitted credential proof authorizes the
    /// submitted operation contexts.  `sig_valid` is the host's
    /// verdict on the signature against the resolved public key, over
    /// the message derived from the authenticator material and the
    /// operation's signature payload; everything else is decided here.
    /// On success the host renews the credential's and the wallet's
    /// leases.
    pub fn check_auth(
        &self,
        signature: &WebAuthnSignature,
        contexts: &Vec<AuthContext>,
        sig_valid: bool,
    ) -> (r: Result<(), Error>)
        requires
            self@.wf(),
        ensures
            r == auth_decision(
                self@,
                signature.id@,
                signature.authenticator_data@,
                signature.client_data_json@,
                contexts@.map_values(|c: AuthContext| c@),
                sig_valid,
            ),
    {
        let ghost ctxs = contexts@.map_values(|c: AuthContext| c@);
        let idx = match self.find_credential_index(&signature.id) {
            None => {
                return Err(Error::NotFound);
            },
            Some(i) => i,
        };
        proof {
            assert(has_cred(self@.signers, signature.id@));
            lemma_cred_index_unique(self@.signers, idx as int);
        }
        let role = self.signers[idx].role;
        match role {
            crate::types::Role::Session => {
                let mut j: usize = 0;
                while j < contexts.len()
                    invariant
                        j <= contexts.len(),
                        ctxs == contexts@.map_values(|c: AuthContext| c@),
                        ctxs.len() == contexts@.len(),
                        idx < self@.signers.len(),
                        self@.signers[idx as int].id == signature.id@,
                        has_cred(self@.signers, signature.id@),
                        idx as int == cred_index(self@.signers, signature.id@),
                        self@.signers[idx as int].role is Session,
                        forall|k: int|
                            0 <= k < j ==> ((#[trigger] ctxs[k])
                                matches AuthContextModel::RemoveCredential { target_id }
                                ==> target_id == signature.id@),
                        forall|k: int| 0 <= k < contexts@.len() ==> ctxs[k] == contexts@[k]@,
                    decreases contexts.len() - j,
                {
                    match &contexts[j] {
                        AuthContext::RemoveCredential { target_id } => {
                            if !bytes_eq(target_id, &signature.id) {
                                proof {
                                    assert(ctxs[j as int]
                                        matches AuthContextModel::RemoveCredential {
                                        target_id: t,
                                    } && t != signature.id@);
                                }
                                return Err(Error::Unauthorized);
                            }
                        },
                        AuthContext::Other => {},
                    }
                    j += 1;
                }
            },
            crate::types::Role::Admin => {},
        }
        if !sig_valid {
            return Err(Error::InvalidSignature);
        }
        if signature.authenticator_data.len() < 37 {
            return Err(Error::InvalidSignature);
        }
        let flags = signature.authenticator_data[32];
        if flags & 0x01 == 0 {
            return Err(Error::InvalidSignature);
        }
        let marker = challenge_marker_bytes();
        if !contains_subslice(&signature.client_data_json, &marker) {
            return Err(Error::InvalidSignature);
        }
        Ok(())
    }
}

} // verus!
