//! The wallet's data model: credentials, settings, policy, spending,
//! recovery and transaction records, together with their mathematical
//! views used in contracts.

use vstd::prelude::*;

use crate::bytes::clone_bytes;

verus! {

/// Seconds per day; timestamps are bucketed by this for the daily limit.
pub const SECONDS_PER_DAY: u64 = 24 * 60 * 60;

/// Default daily spending limit when `initialize` is given none
/// ($10,000 with 7 decimal places).
pub const MAX_DAILY_LIMIT: i128 = 10_000_0000000;

/// How long a recovery request must age before it can be completed.
pub const RECOVERY_DELAY: u64 = ((60 * 60 * 24) / 5) * 7;

/// Cap on the transaction history ring; the oldest record is evicted
/// first once the cap is reached.
pub const HISTORY_CAP: usize = 50;

/// The tier of a credential: administrative credentials are
/// unrestricted, session credentials are scope-limited and expire with
/// their lease.
#[derive(Clone, Copy, Debug, PartialEq, Eq, Structural)]
pub enum Role {
    Admin,
    Session,
}

/// The wallet's policy class, fixed at initialization.
#[derive(Clone, Copy, Debug, PartialEq, Eq, Structural)]
pub enum WalletType {
    Standard,
    SavingsOnly,
    StableCoinsOnly,
    Custom,
}

/// Wallet-wide settings, written once by `initialize`.
#[derive(Clone, Copy, Debug, PartialEq, Eq, Structural)]
pub struct WalletSettings {
    pub daily_limit: i128,
    pub recovery_enabled: bool,
    pub created_at: u64,
}

/// The singleton daily spending record: the day bucket and the amount
/// accumulated within it.  A stored record whose bucket is not the
/// current day reads as zero (lazy rollover).
#[derive(Clone, Copy, Debug, PartialEq, Eq, Structural)]
pub struct DailySpending {
    pub date: u64,
    pub amount: i128,
}

/// A passkey credential authorized to act for the wallet.
#[derive(Debug)]
pub struct Credential {
    /// Opaque unique identifier of the credential.
    pub id: Vec<u8>,
    /// The credential's public key (65 bytes, uncompressed point).
    pub public_key: Vec<u8>,
    /// Administrative or session tier.
    pub role: Role,
    /// Timestamp at which the credential was created.
    pub created_at: u64,
}

/// Mathematical view of a credential.
pub struct CredentialModel {
    pub id: Seq<u8>,
    pub public_key: Seq<u8>,
    pub role: Role,
    pub created_at: u64,
}

impl View for Credential {
    type V = CredentialModel;

    open spec fn view(&self) -> CredentialModel {
        CredentialModel {
            id: self.id@,
            public_key: self.public_key@,
            role: self.role,
            created_at: self.created_at,
        }
    }
}

impl Credential {
    /// A fresh copy of the credential.
    pub fn duplicate(&self) -> (r: Credential)
        ensures
            r@ == self@,
    {
        Credential {
            id: clone_bytes(&self.id),
            public_key: clone_bytes(&self.public_key),
            role: self.role,
            created_at: self.created_at,
        }
    }
}

/// A completed transfer recorded in the bounded history.
#[derive(Debug)]
pub struct Transaction {
    pub from: Vec<u8>,
    pub to: Vec<u8>,
    pub token: Vec<u8>,
    pub amount: i128,
    pub timestamp: u64,
    pub tx_hash: Vec<u8>,
}

/// Mathematical view of a transaction record.
pub struct TransactionModel {
    pub from: Seq<u8>,
    pub to: Seq<u8>,
    pub token: Seq<u8>,
    pub amount: i128,
    pub timestamp: u64,
    pub tx_hash: Seq<u8>,
}

impl View for Transaction {
    type V = TransactionModel;

    open spec fn view(&self) -> TransactionModel {
        TransactionModel {
            from: self.from@,
            to: self.to@,
            token: self.token@,
            amount: self.amount,
            timestamp: self.timestamp,
            tx_hash: self.tx_hash@,
        }
    }
}

impl Transaction {
    /// A fresh copy of the record.
    pub fn duplicate(&self) -> (r: Transaction)
        ensures
            r@ == self@,
    {
        Transaction {
            from: clone_bytes(&self.from),
            to: clone_bytes(&self.to),
            token: clone_bytes(&self.token),
            amount: self.amount,
            timestamp: self.timestamp,
            tx_hash: clone_bytes(&self.tx_hash),
        }
    }
}

/// A pending, time-locked replacement of the administrative credential.
#[derive(Debug)]
pub struct RecoveryRequest {
    pub new_passkey: Credential,
    pub requested_at: u64,
    pub expires_at: u64,
}

/// Mathematical view of a recovery request.
pub struct RecoveryModel {
    pub new_passkey: CredentialModel,
    pub requested_at: u64,
    pub expires_at: u64,
}

impl View for RecoveryRequest {
    type V = RecoveryModel;

    open spec fn view(&self) -> RecoveryModel {
        RecoveryModel {
            new_passkey: self.new_passkey@,
            requested_at: self.requested_at,
            expires_at: self.expires_at,
        }
    }
}

/// A credential proof submitted with an operation: the WebAuthn
/// assertion material for the claimed credential id.
#[derive(Debug)]
pub struct WebAuthnSignature {
    /// Which registered credential the proof claims to come from.
    pub id: Vec<u8>,
    /// Raw authenticator data (at least 37 bytes when well formed).
    pub authenticator_data: Vec<u8>,
    /// The client data, which must carry the challenge marker.
    pub client_data_json: Vec<u8>,
    /// The signature bytes; checked by the host's crypto primitive.
    pub signature: Vec<u8>,
}

/// One sub-operation the wallet is about to perform under the submitted
/// credential proof; the scope rule for session credentials inspects
/// these.
#[derive(Debug)]
pub enum AuthContext {
    /// The operation removes the credential with the given id.
    RemoveCredential { target_id: Vec<u8> },
    /// Any other operation of the wallet.
    Other,
}

/// Mathematical view of an authorization context.
pub enum AuthContextModel {
    RemoveCredential { target_id: Seq<u8> },
    Other,
}

impl View for AuthContext {
    type V = AuthContextModel;

    open spec fn view(&self) -> AuthContextModel {
        match self {
            AuthContext::RemoveCredential { target_id } => AuthContextModel::RemoveCredential {
                target_id: target_id@,
            },
            AuthContext::Other => AuthContextModel::Other,
        }
    }
}

/// A token movement that the host must perform on the external ledger
/// when the engine accepts an operation.
#[derive(Debug, PartialEq, Eq)]
pub enum TokenAction {
    /// Move `amount` of `token` from the depositor into the wallet.
    TransferIn { from: Vec<u8>, token: Vec<u8>, amount: i128 },
    /// Move `amount` of `token` out of the wallet to the recipient.
    TransferOut { to: Vec<u8>, token: Vec<u8>, amount: i128 },
}

} // verus!
