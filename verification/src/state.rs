//! The wallet state and its mathematical model.
//!
//! A `Wallet` owns every entity of one wallet instance: the signer
//! registry, the settings, the policy configuration, the daily spending
//! record, the pending recovery request and the bounded transaction
//! history.  The host threads the state through every operation
//! explicitly; there is no ambient storage.

use vstd::prelude::*;

use crate::types::{
    Credential, CredentialModel, DailySpending, HISTORY_CAP, RecoveryModel, RecoveryRequest, Role,
    Transaction, TransactionModel, WalletSettings, WalletType,
};

verus! {

/// How many administrative credentials a registry holds.
pub open spec fn count_admins(s: Seq<CredentialModel>) -> int
    decreases s.len(),
{
    if s.len() == 0 {
        0
    } else {
        count_admins(s.drop_last()) + if s.last().role is Admin {
            1int
        } else {
            0int
        }
    }
}

/// No two credentials of the registry share an id.
pub open spec fn unique_ids(s: Seq<CredentialModel>) -> bool {
    forall|i: int, j: int| 0 <= i < j < s.len() ==> s[i].id != s[j].id
}

/// Some credential of the registry has the given id.
pub open spec fn has_cred(s: Seq<CredentialModel>, id: Seq<u8>) -> bool {
    exists|i: int| 0 <= i < s.len() && s[i].id == id
}

/// The index of the credential with the given id (unique when
/// `unique_ids` holds).
pub open spec fn cred_index(s: Seq<CredentialModel>, id: Seq<u8>) -> int {
    choose|i: int| 0 <= i < s.len() && s[i].id == id
}

/// Some credential of the registry is administrative.
pub open spec fn has_admin(s: Seq<CredentialModel>) -> bool {
    exists|i: int| 0 <= i < s.len() && s[i].role is Admin
}

/// The index of the first administrative credential.
pub open spec fn first_admin_index(s: Seq<CredentialModel>) -> int
    decreases s.len(),
{
    if s.len() == 0 {
        0
    } else if s[0].role is Admin {
        0
    } else {
        1 + first_admin_index(s.drop_first())
    }
}

pub proof fn lemma_count_admins_push(s: Seq<CredentialModel>, c: CredentialModel)
    ensures
        count_admins(s.push(c)) == count_admins(s) + if c.role is Admin {
            1int
        } else {
            0int
        },
{
    assert(s.push(c).drop_last() =~= s);
}

pub proof fn lemma_count_admins_remove(s: Seq<CredentialModel>, i: int)
    requires
        0 <= i < s.len(),
    ensures
        count_admins(s.remove(i)) == count_admins(s) - if s[i].role is Admin {
            1int
        } else {
            0int
        },
    decreases s.len(),
{
    if i == s.len() - 1 {
        assert(s.remove(i) =~= s.drop_last());
    } else {
        assert(s.remove(i).drop_last() =~= s.drop_last().remove(i));
        lemma_count_admins_remove(s.drop_last(), i);
        assert(s.remove(i).last() == s.last());
    }
}

pub proof fn lemma_count_admins_update(s: Seq<CredentialModel>, i: int, c: CredentialModel)
    requires
        0 <= i < s.len(),
    ensures
        count_admins(s.update(i, c)) == count_admins(s) - (if s[i].role is Admin {
            1int
        } else {
            0int
        }) + if c.role is Admin {
            1int
        } else {
            0int
        },
    decreases s.len(),
{
    if i == s.len() - 1 {
        assert(s.update(i, c).drop_last() =~= s.drop_last());
        assert(s.update(i, c).last() == c);
    } else {
        assert(s.update(i, c).drop_last() =~= s.drop_last().update(i, c));
        lemma_count_admins_update(s.drop_last(), i, c);
        assert(s.update(i, c).last() == s.last());
    }
}

/// A registry with a positive admin count holds an admin, and the
/// other way round.
pub proof fn lemma_count_admins_positive(s: Seq<CredentialModel>)
    ensures
        count_admins(s) > 0 <==> has_admin(s),
        count_admins(s) >= 0,
        count_admins(s) <= s.len(),
    decreases s.len(),
{
    if s.len() > 0 {
        lemma_count_admins_positive(s.drop_last());
        if s.last().role is Admin {
            assert(s[s.len() - 1].role is Admin);
        } else if has_admin(s) {
            let i = choose|i: int| 0 <= i < s.len() && s[i].role is Admin;
            assert(s.drop_last()[i].role is Admin);
        }
    }
}

/// The first admin index points at the first administrative credential.
pub proof fn lemma_first_admin_index(s: Seq<CredentialModel>)
    requires
        has_admin(s),
    ensures
        0 <= first_admin_index(s) < s.len(),
        s[first_admin_index(s)].role is Admin,
        forall|k: int| 0 <= k < first_admin_index(s) ==> !(s[k].role is Admin),
    decreases s.len(),
{
    if s.len() > 0 && !(s[0].role is Admin) {
        let t = s.drop_first();
        assert(has_admin(t)) by {
            let i = choose|i: int| 0 <= i < s.len() && s[i].role is Admin;
            assert(t[i - 1].role is Admin);
        }
        lemma_first_admin_index(t);
        assert(forall|k: int| 0 <= k < first_admin_index(s) ==> !(s[k].role is Admin)) by {
            assert(forall|k: int|
                1 <= k < first_admin_index(s) ==> s[k] == t[k - 1] && !(t[k - 1].role is Admin));
        }
    }
}

/// Uniqueness survives removing an entry, and nothing left carries the
/// removed entry's id.
pub proof fn lemma_unique_remove(s: Seq<CredentialModel>, i: int)
    requires
        unique_ids(s),
        0 <= i < s.len(),
    ensures
        unique_ids(s.remove(i)),
        forall|k: int| 0 <= k < s.remove(i).len() ==> s.remove(i)[k].id != s[i].id,
{
    let t = s.remove(i);
    assert(forall|k: int| 0 <= k < t.len() ==> t[k] == (if k < i {
        s[k]
    } else {
        s[k + 1]
    }));
}

/// Uniqueness survives replacing an entry by one with the same id.
pub proof fn lemma_unique_update_same_id(s: Seq<CredentialModel>, i: int, c: CredentialModel)
    requires
        unique_ids(s),
        0 <= i < s.len(),
        c.id == s[i].id,
    ensures
        unique_ids(s.update(i, c)),
{
}

/// Uniqueness survives appending a credential with a fresh id.
pub proof fn lemma_unique_push_fresh(s: Seq<CredentialModel>, c: CredentialModel)
    requires
        unique_ids(s),
        !has_cred(s, c.id),
    ensures
        unique_ids(s.push(c)),
{
    let t = s.push(c);
    assert forall|i: int, j: int| 0 <= i < j < t.len() implies t[i].id != t[j].id by {
        if j == s.len() {
            assert(t[i] == s[i]);
            assert(!(0 <= i < s.len() && s[i].id == c.id));
        }
    }
}

/// In a registry without duplicate ids, `cred_index` is the one index
/// that holds a given id.
pub proof fn lemma_cred_index_unique(s: Seq<CredentialModel>, i: int)
    requires
        unique_ids(s),
        0 <= i < s.len(),
    ensures
        cred_index(s, s[i].id) == i,
{
    assert(has_cred(s, s[i].id));
    let j = cred_index(s, s[i].id);
    if i < j {
        assert(s[i].id != s[j].id);
    } else if j < i {
        assert(s[j].id != s[i].id);
    }
}

/// Two distinct administrative credentials put the admin count at two
/// or more.
pub proof fn lemma_two_admins(s: Seq<CredentialModel>, i: int, j: int)
    requires
        0 <= i < s.len(),
        0 <= j < s.len(),
        i != j,
        s[i].role is Admin,
        s[j].role is Admin,
    ensures
        count_admins(s) >= 2,
{
    lemma_count_admins_remove(s, j);
    let t = s.remove(j);
    let i2 = if i < j {
        i
    } else {
        i - 1
    };
    assert(t[i2].role is Admin);
    assert(has_admin(t));
    lemma_count_admins_positive(t);
}

/// The bounded window of an append-only log that the history retains:
/// the most recent `HISTORY_CAP` records.
pub open spec fn history_window(log: Seq<TransactionModel>) -> Seq<TransactionModel> {
    if log.len() <= HISTORY_CAP {
        log
    } else {
        log.subrange(log.len() - HISTORY_CAP, log.len() as int)
    }
}

/// Mathematical view of a whole wallet.
#[verifier::ext_equal]
pub struct WalletModel {
    /// The signer registry, in insertion order.
    pub signers: Seq<CredentialModel>,
    /// The admin signer counter; well-formedness ties it to the count
    /// of administrative credentials in the registry.
    pub admin_count: u32,
    /// The settings, present once the wallet is initialized.
    pub settings: Option<WalletSettings>,
    /// The policy class, present once the wallet is initialized.
    pub wallet_type: Option<WalletType>,
    /// The wallet owner's address, present once initialized.
    pub owner: Option<Seq<u8>>,
    /// The custom allow-list, when one has been supplied.
    pub allowed_tokens: Option<Seq<Seq<u8>>>,
    /// The singleton daily spending record.
    pub daily: Option<DailySpending>,
    /// The pending recovery request, if any.
    pub recovery: Option<RecoveryModel>,
    /// The bounded transaction history (newest last).
    pub history: Seq<TransactionModel>,
    /// The unbounded, append-only log of every recorded transaction;
    /// the history is always its most recent window.
    pub log: Seq<TransactionModel>,
}

impl WalletModel {
    /// The wallet has been initialized: its settings exist.
    pub open spec fn is_initialized(self) -> bool {
        self.settings is Some
    }

    /// The daily limit this wallet is actually held to: the configured
    /// limit, halved for savings-only wallets (for a non-negative
    /// configured limit; a negative limit already rejects every spend).
    pub open spec fn effective_limit(self) -> int {
        match (self.settings, self.wallet_type) {
            (Some(st), Some(wt)) => if wt is SavingsOnly && st.daily_limit >= 0 {
                st.daily_limit as int / 2
            } else {
                st.daily_limit as int
            },
            _ => 0,
        }
    }

    /// What the daily spending record reads as at time `now`: the
    /// stored amount when the stored day bucket is current, else zero
    /// (lazy rollover; reading never mutates).
    pub open spec fn current_spending(self, now: u64) -> int {
        match self.daily {
            Some(d) => if d.date == day_bucket(now) {
                d.amount as int
            } else {
                0
            },
            None => 0,
        }
    }

    /// Token admissibility under the wallet's policy class.  The
    /// curated stable-coin set of the `StableCoinsOnly` class is empty
    /// configuration, so that class admits no token; a `Custom` wallet
    /// without an allow-list admits none either.
    pub open spec fn token_allowed(self, token: Seq<u8>) -> bool {
        match self.wallet_type {
            Some(WalletType::Standard) => true,
            Some(WalletType::SavingsOnly) => true,
            Some(WalletType::StableCoinsOnly) => false,
            Some(WalletType::Custom) => match self.allowed_tokens {
                Some(ts) => ts.contains(token),
                None => false,
            },
            None => false,
        }
    }

    /// Well-formedness: the invariants every operation preserves.
    pub open spec fn wf(self) -> bool {
        &&& self.admin_count as int == count_admins(self.signers)
        &&& unique_ids(self.signers)
        &&& (self.signers.len() > 0 ==> self.admin_count >= 1)
        &&& (self.settings is Some ==> self.signers.len() > 0)
        &&& (self.wallet_type is Some <==> self.settings is Some)
        &&& (self.owner is Some <==> self.settings is Some)
        &&& (self.allowed_tokens is Some ==> self.settings is Some)
        &&& (self.recovery is Some ==> self.settings is Some)
        &&& (self.recovery matches Some(r) ==> r.new_passkey.role is Admin)
        &&& (self.daily is Some ==> self.settings is Some)
        &&& (self.daily matches Some(d) ==> 0 <= d.amount && d.amount as int
            <= self.effective_limit())
        &&& self.history.len() <= HISTORY_CAP
        &&& self.history == history_window(self.log)
    }
}

/// The integer day bucket of a timestamp.
pub open spec fn day_bucket(now: u64) -> u64 {
    now / (crate::types::SECONDS_PER_DAY)
}

/// One wallet instance's entire state.
pub struct Wallet {
    pub signers: Vec<Credential>,
    pub admin_count: u32,
    pub settings: Option<WalletSettings>,
    pub wallet_type: Option<WalletType>,
    pub owner: Option<Vec<u8>>,
    pub allowed_tokens: Option<Vec<Vec<u8>>>,
    pub daily: Option<DailySpending>,
    pub recovery: Option<RecoveryRequest>,
    pub history: Vec<Transaction>,
    /// Ghost record of every transaction ever appended, used to state
    /// the FIFO-window law of the bounded history.
    pub log: Ghost<Seq<TransactionModel>>,
}

impl View for Wallet {
    type V = WalletModel;

    open spec fn view(&self) -> WalletModel {
        WalletModel {
            signers: self.signers@.map_values(|c: Credential| c@),
            admin_count: self.admin_count,
            settings: self.settings,
            wallet_type: self.wallet_type,
            owner: match self.owner {
                Some(o) => Some(o@),
                None => None,
            },
            allowed_tokens: match self.allowed_tokens {
                Some(ts) => Some(ts@.map_values(|t: Vec<u8>| t@)),
                None => None,
            },
            daily: self.daily,
            recovery: match self.recovery {
                Some(r) => Some(r@),
                None => None,
            },
            history: self.history@.map_values(|t: Transaction| t@),
            log: self.log@,
        }
    }
}

impl Wallet {
    /// A fresh wallet: no credentials, no settings, no history.
    pub fn new() -> (w: Wallet)
        ensures
            w@.wf(),
            !w@.is_initialized(),
            w@.signers.len() == 0,
            w@.admin_count == 0,
            w@.daily is None,
            w@.recovery is None,
            w@.history.len() == 0,
            w@.log.len() == 0,
    {
        let w = Wallet {
            signers: Vec::new(),
            admin_count: 0,
            settings: None,
            wallet_type: None,
            owner: None,
            allowed_tokens: None,
            daily: None,
            recovery: None,
            history: Vec::new(),
            log: Ghost(Seq::empty()),
        };
        proof {
            assert(w@.signers =~= Seq::<CredentialModel>::empty());
            assert(w@.history =~= Seq::<TransactionModel>::empty());
        }
        w
    }

    /// The index of the registered credential with the given id.
    pub(crate) fn find_credential_index(&self, id: &Vec<u8>) -> (r: Option<usize>)
        ensures
            match r {
                Some(i) => i < self@.signers.len() && self@.signers[i as int].id == id@,
                None => !has_cred(self@.signers, id@),
            },
    {
        let mut i: usize = 0;
        while i < self.signers.len()
            invariant
                i <= self.signers.len(),
                self@.signers.len() == self.signers@.len(),
                forall|k: int| 0 <= k < i ==> self@.signers[k].id != id@,
                forall|k: int|
                    0 <= k < self.signers@.len() ==> self@.signers[k] == self.signers@[k]@,
            decreases self.signers.len() - i,
        {
            if crate::bytes::bytes_eq(&self.signers[i].id, id) {
                return Some(i);
            }
            i += 1;
        }
        None
    }

    /// The number of administrative credentials currently registered.
    pub fn get_admin_count(&self) -> (r: u32)
        ensures
            r == self@.admin_count,
    {
        self.admin_count
    }

    /// Whether a credential with the given id is registered.
    pub fn has_credential(&self, id: &Vec<u8>) -> (r: bool)
        ensures
            r == has_cred(self@.signers, id@),
    {
        match self.find_credential_index(id) {
            Some(i) => {
                proof {
                    assert(has_cred(self@.signers, id@));
                }
                true
            },
            None => false,
        }
    }
}

} // verus!
