//! The wallet's operation surface: initialization and the three token
//! operations.  Each operation decides, updates the wallet's own state,
//! and hands the host the token movement it must perform on the
//! external ledger; the host supplies the ambient inputs (time, the
//! wallet's address, the ledger balance).

use vstd::prelude::*;

use crate::bytes::clone_bytes;
use crate::errors::Error;
use crate::ledger::record_transition;
use crate::policy::spend_update;
use crate::state::{Wallet, WalletModel};
use crate::types::{
    Credential, CredentialModel, MAX_DAILY_LIMIT, Role, TokenAction, TransactionModel,
    WalletSettings, WalletType,
};

verus! {

/// The mathematical view of an optional token list argument.
pub open spec fn token_list_view(ts: Option<Vec<Vec<u8>>>) -> Option<Seq<Seq<u8>>> {
    match ts {
        Some(v) => Some(v@.map_values(|t: Vec<u8>| t@)),
        None => None,
    }
}

/// What `initialize` does: on a wallet that holds no credential yet it
/// installs the bootstrap admin credential, the settings (with the
/// default limit when none is given and recovery enabled), the policy
/// class, the owner, the allow-list (kept only for a `Custom` wallet)
/// and an empty history; on any other wallet it is refused and changes
/// nothing.
pub open spec fn initialize_transition(
    w: WalletModel,
    owner: Seq<u8>,
    passkey_id: Seq<u8>,
    public_key: Seq<u8>,
    daily_limit: Option<i128>,
    wallet_type: WalletType,
    allowed_tokens: Option<Seq<Seq<u8>>>,
    now: u64,
) -> (WalletModel, Result<(), Error>) {
    if w.signers.len() > 0 {
        (w, Err(Error::AlreadyInitialized))
    } else {
        (
            WalletModel {
                signers: seq![
                    CredentialModel {
                        id: passkey_id,
                        public_key: public_key,
                        role: Role::Admin,
                        created_at: now,
                    },
                ],
                admin_count: 1,
                settings: Some(
                    WalletSettings {
                        daily_limit: match daily_limit {
                            Some(l) => l,
                            None => MAX_DAILY_LIMIT,
                        },
                        recovery_enabled: true,
                        created_at: now,
                    },
                ),
                wallet_type: Some(wallet_type),
                owner: Some(owner),
                allowed_tokens: if wallet_type is Custom && allowed_tokens is Some {
                    allowed_tokens
                } else {
                    None
                },
                daily: w.daily,
                recovery: w.recovery,
                history: Seq::empty(),
                log: Seq::empty(),
            },
            Ok(()),
        )
    }
}

/// Whether a deposit is admissible: the amount must be positive, the
/// wallet initialized, and the token admitted by the wallet's policy.
pub open spec fn deposit_decision(w: WalletModel, token: Seq<u8>, amount: i128) -> Result<
    (),
    Error,
> {
    if amount <= 0 {
        Err(Error::InvalidAmount)
    } else if w.settings is None {
        Err(Error::NotInitialized)
    } else if !w.token_allowed(token) {
        Err(Error::TokenNotAllowed)
    } else {
        Ok(())
    }
}

/// What `withdraw` does: positive amount, initialized wallet, no
/// withdrawals at all from a savings-only wallet, the daily limit
/// honored (boundary inclusive), the ledger balance sufficient; on
/// success the day's spending grows by the amount.
pub open spec fn withdraw_transition(w: WalletModel, amount: i128, now: u64, balance: i128) -> (
    WalletModel,
    Result<(), Error>,
) {
    if amount <= 0 {
        (w, Err(Error::InvalidAmount))
    } else if w.settings is None {
        (w, Err(Error::NotInitialized))
    } else if w.wallet_type == Some(WalletType::SavingsOnly) {
        (w, Err(Error::Unauthorized))
    } else if w.current_spending(now) + amount > w.effective_limit() {
        (w, Err(Error::DailyLimitExceeded))
    } else if balance < amount {
        (w, Err(Error::InsufficientBalance))
    } else {
        (spend_update(w, amount, now), Ok(()))
    }
}

/// What `send` does: like `withdraw` without the savings-only block
/// (savings wallets send at their halved limit), and on success the
/// transfer is also recorded in the bounded history.
pub open spec fn send_transition(
    w: WalletModel,
    wallet_address: Seq<u8>,
    to: Seq<u8>,
    token: Seq<u8>,
    amount: i128,
    now: u64,
    balance: i128,
) -> (WalletModel, Result<(), Error>) {
    if amount <= 0 {
        (w, Err(Error::InvalidAmount))
    } else if w.settings is None {
        (w, Err(Error::NotInitialized))
    } else if w.current_spending(now) + amount > w.effective_limit() {
        (w, Err(Error::DailyLimitExceeded))
    } else if balance < amount {
        (w, Err(Error::InsufficientBalance))
    } else {
        let tx = TransactionModel {
            from: wallet_address,
            to: to,
            token: token,
            amount: amount,
            timestamp: now,
            tx_hash: Seq::empty(),
        };
        (record_transition(spend_update(w, amount, now), tx), Ok(()))
    }
}

impl Wallet {
    /// Initialize a new wallet with its bootstrap passkey, settings
    /// and policy.  Fails with `AlreadyInitialized` on a wallet that
    /// already holds any credential.
    pub fn initialize(
        &mut self,
        owner: Vec<u8>,
        passkey_id: Vec<u8>,
        public_key: Vec<u8>,
        daily_limit: Option<i128>,
        wallet_type: WalletType,
        allowed_tokens: Option<Vec<Vec<u8>>>,
        now: u64,
    ) -> (r: Result<(), Error>)
        requires
            old(self)@.wf(),
        ensures
            final(self)@.wf(),
            final(self)@ == initialize_transition(
                old(self)@,
                owner@,
                passkey_id@,
                public_key@,
                daily_limit,
                wallet_type,
                token_list_view(allowed_tokens),
                now,
            ).0,
            r == initialize_transition(
                old(self)@,
                owner@,
                passkey_id@,
                public_key@,
                daily_limit,
                wallet_type,
                token_list_view(allowed_tokens),
                now,
            ).1,
    {
        let ghost w0 = self@;
        if self.signers.len() > 0 {
            return Err(Error::AlreadyInitialized);
        }
        let cred = Credential { id: passkey_id, public_key, role: Role::Admin, created_at: now };
        self.signers.push(cred);
        self.admin_count = 1;
        let limit = match daily_limit {
            Some(l) => l,
            None => MAX_DAILY_LIMIT,
        };
        self.settings = Some(
            WalletSettings { daily_limit: limit, recovery_enabled: true, created_at: now },
        );
        self.wallet_type = Some(wallet_type);
        self.owner = Some(owner);
        let is_custom = match wallet_type {
            WalletType::Custom => true,
            _ => false,
        };
        self.allowed_tokens = if is_custom {
            allowed_tokens
        } else {
            None
        };
        self.history = Vec::new();
        self.log = Ghost(Seq::empty());
        proof {
            let s = self@.signers;
            assert(s.len() == 1);
            assert(s.last().role is Admin);
            assert(s.drop_last() =~= Seq::<CredentialModel>::empty());
            assert(crate::state::count_admins(s.drop_last()) == 0);
            assert(self@.history =~= Seq::<TransactionModel>::empty());
            assert(self@ =~= initialize_transition(
                w0,
                owner@,
                passkey_id@,
                public_key@,
                daily_limit,
                wallet_type,
                token_list_view(allowed_tokens),
                now,
            ).0);
        }
        Ok(())
    }

    /// Decide a deposit and hand the host the transfer to perform.
    /// The depositor's own authorization and the actual token movement
    /// are the host's; the wallet's state does not change.
    pub fn deposit(&self, from: &Vec<u8>, token: &Vec<u8>, amount: i128) -> (r: Result<
        TokenAction,
        Error,
    >)
        requires
            self@.wf(),
        ensures
            r is Ok <==> deposit_decision(self@, token@, amount) is Ok,
            r matches Err(e) ==> deposit_decision(self@, token@, amount) == Err::<(), Error>(e),
            r matches Ok(a) ==> a matches TokenAction::TransferIn { from: f, token: t, amount: am }
                && f@ == from@ && t@ == token@ && am == amount,
    {
        if amount <= 0 {
            return Err(Error::InvalidAmount);
        }
        if self.settings.is_none() {
            return Err(Error::NotInitialized);
        }
        if !self.check_token_allowed(token) {
            return Err(Error::TokenNotAllowed);
        }
        Ok(
            TokenAction::TransferIn {
                from: clone_bytes(from),
                token: clone_bytes(token),
                amount,
            },
        )
    }

    /// Withdraw from the wallet to a destination: decide, charge the
    /// daily limit, and hand the host the outbound transfer.  `now` is
    /// the host's clock and `balance` the wallet's current balance of
    /// the token on the external ledger.
    pub fn withdraw(
        &mut self,
        token: &Vec<u8>,
        amount: i128,
        destination: &Vec<u8>,
        now: u64,
        balance: i128,
    ) -> (r: Result<TokenAction, Error>)
        requires
            old(self)@.wf(),
        ensures
            final(self)@.wf(),
            final(self)@ == withdraw_transition(old(self)@, amount, now, balance).0,
            r is Ok <==> withdraw_transition(old(self)@, amount, now, balance).1 is Ok,
            r matches Err(e) ==> withdraw_transition(old(self)@, amount, now, balance).1
                == Err::<(), Error>(e),
            r matches Ok(a) ==> a matches TokenAction::TransferOut { to, token: t, amount: am }
                && to@ == destination@ && t@ == token@ && am == amount,
    {
        if amount <= 0 {
            return Err(Error::InvalidAmount);
        }
        if self.settings.is_none() {
            return Err(Error::NotInitialized);
        }
        let savings = match self.wallet_type {
            Some(WalletType::SavingsOnly) => true,
            _ => false,
        };
        if savings {
            return Err(Error::Unauthorized);
        }
        if let Err(e) = self.check_daily_limit(amount, now) {
            return Err(e);
        }
        if balance < amount {
            return Err(Error::InsufficientBalance);
        }
        self.update_daily_spending(amount, now);
        Ok(
            TokenAction::TransferOut {
                to: clone_bytes(destination),
                token: clone_bytes(token),
                amount,
            },
        )
    }

    /// Send to another wallet: decide, charge the daily limit, record
    /// the transfer in the bounded history, and hand the host the
    /// outbound transfer.  `wallet_address` is the wallet's own
    /// address, recorded as the transfer's source.
    pub fn send(
        &mut self,
        wallet_address: &Vec<u8>,
        to_wallet: &Vec<u8>,
        token: &Vec<u8>,
        amount: i128,
        now: u64,
        balance: i128,
    ) -> (r: Result<TokenAction, Error>)
        requires
            old(self)@.wf(),
        ensures
            final(self)@.wf(),
            final(self)@ == send_transition(
                old(self)@,
                wallet_address@,
                to_wallet@,
                token@,
                amount,
                now,
                balance,
            ).0,
            r is Ok <==> send_transition(
                old(self)@,
                wallet_address@,
                to_wallet@,
                token@,
                amount,
                now,
                balance,
            ).1 is Ok,
            r matches Err(e) ==> send_transition(
                old(self)@,
                wallet_address@,
                to_wallet@,
                token@,
                amount,
                now,
                balance,
            ).1 == Err::<(), Error>(e),
            r matches Ok(a) ==> a matches TokenAction::TransferOut { to, token: t, amount: am }
                && to@ == to_wallet@ && t@ == token@ && am == amount,
    {
        if amount <= 0 {
            return Err(Error::InvalidAmount);
        }
        if self.settings.is_none() {
            return Err(Error::NotInitialized);
        }
        if let Err(e) = self.check_daily_limit(amount, now) {
            return Err(e);
        }
        if balance < amount {
            return Err(Error::InsufficientBalance);
        }
        self.update_daily_spending(amount, now);
        self.record_transaction(
            clone_bytes(wallet_address),
            clone_bytes(to_wallet),
            clone_bytes(token),
            amount,
            now,
        );
        Ok(
            TokenAction::TransferOut {
                to: clone_bytes(to_wallet),
                token: clone_bytes(token),
                amount,
            },
        )
    }
}

/// Law (bootstrap happens once): initializing a fresh wallet succeeds,
/// and initializing the resulting wallet a second time — with any
/// arguments whatsoever — fails with `AlreadyInitialized` and changes
/// nothing.
pub proof fn lemma_initialize_idempotent(
    w: WalletModel,
    owner: Seq<u8>,
    passkey_id: Seq<u8>,
    public_key: Seq<u8>,
    daily_limit: Option<i128>,
    wallet_type: WalletType,
    allowed_tokens: Option<Seq<Seq<u8>>>,
    now: u64,
    owner2: Seq<u8>,
    passkey_id2: Seq<u8>,
    public_key2: Seq<u8>,
    daily_limit2: Option<i128>,
    wallet_type2: WalletType,
    allowed_tokens2: Option<Seq<Seq<u8>>>,
    now2: u64,
)
    requires
        w.wf(),
        w.signers.len() == 0,
    ensures
        initialize_transition(
            w,
            owner,
            passkey_id,
            public_key,
            daily_limit,
            wallet_type,
            allowed_tokens,
            now,
        ).1 == Ok::<(), Error>(()),
        ({
            let w1 = initialize_transition(
                w,
                owner,
                passkey_id,
                public_key,
                daily_limit,
                wallet_type,
                allowed_tokens,
                now,
            ).0;
            initialize_transition(
                w1,
                owner2,
                passkey_id2,
                public_key2,
                daily_limit2,
                wallet_type2,
                allowed_tokens2,
                now2,
            ) == (w1, Err::<(), Error>(Error::AlreadyInitialized))
        }),
{
}

} // verus!
