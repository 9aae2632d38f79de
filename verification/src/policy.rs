//! The policy engine: token admissibility, the daily spending ledger
//! and the wallet's policy configuration.

use vstd::prelude::*;

use crate::bytes::{bytes_eq, clone_bytes};
use crate::errors::Error;
use crate::state::{Wallet, WalletModel, day_bucket};
use crate::types::{DailySpending, SECONDS_PER_DAY, WalletType};

verus! {

/// Whether a spend of `amount` at time `now` passes the daily limit:
/// the day's accumulated spending plus the new amount may not exceed
/// the effective limit (the boundary itself is allowed).
pub open spec fn daily_limit_check(w: WalletModel, amount: i128, now: u64) -> Result<(), Error> {
    if w.settings is None {
        Err(Error::NotInitialized)
    } else if w.current_spending(now) + amount > w.effective_limit() {
        Err(Error::DailyLimitExceeded)
    } else {
        Ok(())
    }
}

/// The state after recording a spend of `amount` at time `now`: the
/// daily record holds the current day bucket and the day's new total.
pub open spec fn spend_update(w: WalletModel, amount: i128, now: u64) -> WalletModel {
    WalletModel {
        daily: Some(
            DailySpending {
                date: day_bucket(now),
                amount: (w.current_spending(now) + amount) as i128,
            },
        ),
        ..w
    }
}

/// What `update_allowed_tokens` does: only an initialized wallet of
/// the `Custom` policy class may replace its allow-list.
pub open spec fn update_allowed_tokens_transition(w: WalletModel, ts: Seq<Seq<u8>>) -> (
    WalletModel,
    Result<(), Error>,
) {
    if w.settings is None {
        (w, Err(Error::NotInitialized))
    } else if w.wallet_type != Some(WalletType::Custom) {
        (w, Err(Error::Unauthorized))
    } else {
        (WalletModel { allowed_tokens: Some(ts), ..w }, Ok(()))
    }
}

/// Whether a token list holds the given token.
fn contains_token(ts: &Vec<Vec<u8>>, token: &Vec<u8>) -> (r: bool)
    ensures
        r == ts@.map_values(|t: Vec<u8>| t@).contains(token@),
{
    let ghost m = ts@.map_values(|t: Vec<u8>| t@);
    let mut i: usize = 0;
    while i < ts.len()
        invariant
            i <= ts.len(),
            m == ts@.map_values(|t: Vec<u8>| t@),
            m.len() == ts@.len(),
            forall|k: int| 0 <= k < i ==> m[k] != token@,
        decreases ts.len() - i,
    {
        if bytes_eq(&ts[i], token) {
            proof {
                assert(m[i as int] == token@);
            }
            return true;
        }
        i += 1;
    }
    false
}

impl Wallet {
    /// The spending accumulated in the current day bucket.  Reads of a
    /// record from an earlier day roll over to zero without touching
    /// storage, and the result is never negative.
    pub fn get_daily_spending(&self, now: u64) -> (r: i128)
        requires
            self@.wf(),
        ensures
            r as int == self@.current_spending(now),
            r >= 0,
    {
        let today = now / SECONDS_PER_DAY;
        match self.daily {
            Some(d) => {
                if d.date == today {
                    d.amount
                } else {
                    0
                }
            },
            None => 0,
        }
    }

    /// The daily limit the wallet is held to, halved for savings-only
    /// wallets.
    fn effective_limit_value(&self) -> (r: i128)
        requires
            self@.wf(),
            self@.settings is Some,
        ensures
            r as int == self@.effective_limit(),
    {
        let st = match self.settings {
            Some(st) => st,
            None => {
                proof {
                    assert(false);
                }
                return 0;
            },
        };
        let savings = match self.wallet_type {
            Some(WalletType::SavingsOnly) => true,
            _ => false,
        };
        if savings && st.daily_limit >= 0 {
            ((st.daily_limit as u128) / 2) as i128
        } else {
            st.daily_limit
        }
    }

    /// Decide whether a spend of `amount` at time `now` is admissible
    /// under the daily limit; decides only, mutates nothing.
    pub fn check_daily_limit(&self, amount: i128, now: u64) -> (r: Result<(), Error>)
        requires
            self@.wf(),
        ensures
            r == daily_limit_check(self@, amount, now),
    {
        if self.settings.is_none() {
            return Err(Error::NotInitialized);
        }
        let current = self.get_daily_spending(now);
        let effective = self.effective_limit_value();
        match current.checked_add(amount) {
            Some(total) => {
                if total > effective {
                    Err(Error::DailyLimitExceeded)
                } else {
                    Ok(())
                }
            },
            None => {
                if amount > 0 {
                    // the true sum exceeds every representable limit
                    Err(Error::DailyLimitExceeded)
                } else {
                    // the true sum is below every representable limit
                    Ok(())
                }
            },
        }
    }

    /// Record a spend that has passed the daily limit check: the daily
    /// record takes the current day bucket and the day's new total.
    pub(crate) fn update_daily_spending(&mut self, amount: i128, now: u64)
        requires
            old(self)@.wf(),
            old(self)@.settings is Some,
            amount > 0,
            old(self)@.current_spending(now) + amount <= old(self)@.effective_limit(),
        ensures
            final(self)@.wf(),
            final(self)@ == spend_update(old(self)@, amount, now),
    {
        let ghost w0 = self@;
        let current = self.get_daily_spending(now);
        let today = now / SECONDS_PER_DAY;
        self.daily = Some(DailySpending { date: today, amount: current + amount });
        proof {
            assert(self@ =~= spend_update(w0, amount, now));
        }
    }

    /// Replace the allow-list of a `Custom` wallet.
    pub fn update_allowed_tokens(&mut self, tokens: Vec<Vec<u8>>) -> (r: Result<(), Error>)
        requires
            old(self)@.wf(),
        ensures
            final(self)@.wf(),
            final(self)@ == update_allowed_tokens_transition(
                old(self)@,
                tokens@.map_values(|t: Vec<u8>| t@),
            ).0,
            r == update_allowed_tokens_transition(old(self)@, tokens@.map_values(|t: Vec<u8>| t@)).1,
    {
        let ghost w0 = self@;
        if self.settings.is_none() {
            return Err(Error::NotInitialized);
        }
        let custom = match self.wallet_type {
            Some(WalletType::Custom) => true,
            _ => false,
        };
        if !custom {
            return Err(Error::Unauthorized);
        }
        self.allowed_tokens = Some(tokens);
        proof {
            assert(self@ =~= update_allowed_tokens_transition(
                w0,
                tokens@.map_values(|t: Vec<u8>| t@),
            ).0);
        }
        Ok(())
    }

    /// Whether the wallet's policy admits the given token.
    pub fn check_token_allowed(&self, token: &Vec<u8>) -> (r: bool)
        requires
            self@.wf(),
            self@.is_initialized(),
        ensures
            r == self@.token_allowed(token@),
    {
        let wt = match self.wallet_type {
            Some(wt) => wt,
            None => {
                proof {
                    assert(false);
                }
                return false;
            },
        };
        match wt {
            WalletType::Standard => true,
            WalletType::SavingsOnly => true,
            WalletType::StableCoinsOnly => false,
            WalletType::Custom => {
                match &self.allowed_tokens {
                    Some(ts) => contains_token(ts, token),
                    None => false,
                }
            },
        }
    }

    /// The wallet's policy class.
    pub fn get_wallet_type(&self) -> (r: WalletType)
        requires
            self@.is_initialized(),
            self@.wf(),
        ensures
            self@.wallet_type == Some(r),
    {
        match self.wallet_type {
            Some(wt) => wt,
            None => {
                proof {
                    assert(false);
                }
                WalletType::Standard
            },
        }
    }

    /// The wallet owner's address.
    pub fn get_owner(&self) -> (r: Vec<u8>)
        requires
            self@.is_initialized(),
            self@.wf(),
        ensures
            self@.owner == Some(r@),
    {
        match &self.owner {
            Some(o) => clone_bytes(o),
            None => {
                proof {
                    assert(false);
                }
                Vec::new()
            },
        }
    }
}

/// Law (daily rollover): reading the daily spending of a well-formed
/// wallet yields zero whenever the stored record's day bucket is not
/// the current one (or no record exists), and never yields a negative
/// amount.
pub proof fn lemma_daily_rollover(w: WalletModel, now: u64)
    requires
        w.wf(),
    ensures
        match w.daily {
            Some(d) => d.date != day_bucket(now) ==> w.current_spending(now) == 0,
            None => w.current_spending(now) == 0,
        },
        w.current_spending(now) >= 0,
{
}

/// Law (empty allow-list): a `Custom` wallet whose allow-list is
/// absent or empty admits no token at all.
pub proof fn lemma_custom_empty_rejects_all(w: WalletModel, token: Seq<u8>)
    requires
        w.wallet_type == Some(WalletType::Custom),
        match w.allowed_tokens {
            Some(ts) => ts.len() == 0,
            None => true,
        },
    ensures
        !w.token_allowed(token),
{
}

/// Law (allow-list is exact): after replacing a `Custom` wallet's
/// allow-list, exactly the listed tokens are admitted, and the update
/// itself succeeds.
pub proof fn lemma_allowed_tokens_exact(w: WalletModel, ts: Seq<Seq<u8>>, token: Seq<u8>)
    requires
        w.wf(),
        w.settings is Some,
        w.wallet_type == Some(WalletType::Custom),
    ensures
        update_allowed_tokens_transition(w, ts).1 == Ok::<(), Error>(()),
        update_allowed_tokens_transition(w, ts).0.token_allowed(token) <==> ts.contains(token),
{
}

} // verus!
