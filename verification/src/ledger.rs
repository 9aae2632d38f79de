//! The transaction ledger: a bounded, append-only ring of completed
//! transfers kept for audit.  When the cap is reached the oldest
//! record is evicted first (strict FIFO).

use vstd::prelude::*;

use crate::state::{Wallet, WalletModel, history_window};
use crate::types::{HISTORY_CAP, Transaction, TransactionModel};

verus! {

/// What recording a completed transfer does: the record is appended to
/// the history and to the (ghost) all-time log, and the history is
/// trimmed to the most recent `HISTORY_CAP` records.
pub open spec fn record_transition(w: WalletModel, tx: TransactionModel) -> WalletModel {
    let h1 = w.history.push(tx);
    WalletModel {
        history: if h1.len() > HISTORY_CAP {
            h1.subrange(1, h1.len() as int)
        } else {
            h1
        },
        log: w.log.push(tx),
        ..w
    }
}

impl Wallet {
    /// Append a completed transfer to the bounded history, evicting
    /// the oldest record once the cap is exceeded.
    pub(crate) fn record_transaction(
        &mut self,
        from: Vec<u8>,
        to: Vec<u8>,
        token: Vec<u8>,
        amount: i128,
        now: u64,
    )
        requires
            old(self)@.wf(),
        ensures
            final(self)@.wf(),
            final(self)@ == record_transition(
                old(self)@,
                TransactionModel {
                    from: from@,
                    to: to@,
                    token: token@,
                    amount: amount,
                    timestamp: now,
                    tx_hash: Seq::empty(),
                },
            ),
    {
        let ghost w0 = self@;
        let tx = Transaction { from, to, token, amount, timestamp: now, tx_hash: Vec::new() };
        let ghost txm = tx@;
        proof {
            assert(txm.tx_hash =~= Seq::<u8>::empty());
        }
        self.history.push(tx);
        if self.history.len() > HISTORY_CAP {
            self.history.remove(0);
            proof {
                let h1 = w0.history.push(txm);
                assert(self@.history =~= h1.subrange(1, h1.len() as int));
            }
        } else {
            proof {
                assert(self@.history =~= w0.history.push(txm));
            }
        }
        self.log = Ghost(self.log@.push(txm));
        proof {
            assert(self@ =~= record_transition(w0, txm));
            lemma_record_preserves_window(w0, txm);
        }
    }

    /// The recorded history, newest record last, at most `HISTORY_CAP`
    /// records.
    pub fn get_transaction_history(&self) -> (r: Vec<Transaction>)
        ensures
            r@.map_values(|t: Transaction| t@) == self@.history,
    {
        let mut r: Vec<Transaction> = Vec::new();
        let mut i: usize = 0;
        while i < self.history.len()
            invariant
                i <= self.history.len(),
                self@.history.len() == self.history@.len(),
                forall|k: int|
                    0 <= k < self.history@.len() ==> self@.history[k] == self.history@[k]@,
                r@.len() == i,
                forall|k: int| 0 <= k < i ==> r@[k]@ == self@.history[k],
            decreases self.history.len() - i,
        {
            let tx = self.history[i].duplicate();
            r.push(tx);
            i += 1;
        }
        proof {
            assert(r@.map_values(|t: Transaction| t@) =~= self@.history);
        }
        r
    }
}

/// Appending a record keeps the history equal to the most recent
/// window of the all-time log.
proof fn lemma_record_preserves_window(w: WalletModel, tx: TransactionModel)
    requires
        w.history == history_window(w.log),
        w.history.len() <= HISTORY_CAP,
    ensures
        record_transition(w, tx).history == history_window(record_transition(w, tx).log),
        record_transition(w, tx).history.len() <= HISTORY_CAP,
{
    let h1 = w.history.push(tx);
    let l1 = w.log.push(tx);
    if h1.len() > HISTORY_CAP {
        assert(w.log.len() > HISTORY_CAP - 1);
        assert(h1.subrange(1, h1.len() as int) =~= history_window(l1));
    } else {
        assert(h1 =~= history_window(l1));
    }
}

/// Law (history cap): a well-formed wallet's history holds at most
/// `HISTORY_CAP` records, exactly the most recent ones of everything
/// ever recorded, in order; everything older has been evicted.
pub proof fn lemma_history_window(w: WalletModel)
    requires
        w.wf(),
    ensures
        w.history.len() <= HISTORY_CAP,
        w.history.len() == if w.log.len() <= HISTORY_CAP {
            w.log.len()
        } else {
            HISTORY_CAP as nat
        },
        forall|i: int|
            0 <= i < w.history.len() ==> w.history[i] == w.log[w.log.len() - w.history.len() + i],
{
}

} // verus!
