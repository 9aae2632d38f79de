//! The signer registry: adding, removing and replacing credentials.
//!
//! The registry owns the single most safety-critical guarantee of the
//! wallet: it can never reach a state with zero administrative
//! credentials while any credential remains.  Every operation here
//! states its exact transition and preserves well-formedness.

use vstd::prelude::*;

use crate::bytes::{bytes_eq, clone_bytes};
use crate::errors::Error;
use crate::state::{
    Wallet, WalletModel, count_admins, cred_index, first_admin_index, has_admin, has_cred,
    lemma_count_admins_positive, lemma_count_admins_push, lemma_count_admins_remove,
    lemma_count_admins_update, lemma_cred_index_unique, lemma_first_admin_index,
    lemma_two_admins, lemma_unique_push_fresh, lemma_unique_remove, lemma_unique_update_same_id,
    unique_ids,
};
use crate::types::{Credential, CredentialModel, Role};

verus! {

/// What `add` does to a wallet.  The first-ever credential bootstraps
/// the registry and is forced administrative; afterwards, adding under
/// an id already registered migrates the credential between tiers
/// (session entries are replaced in place, promotions append a fresh
/// admin entry, demotions append a fresh session entry), and demoting
/// the sole admin is refused so the registry never loses its last
/// administrative credential.
pub open spec fn add_transition(
    w: WalletModel,
    id: Seq<u8>,
    pk: Seq<u8>,
    admin: bool,
    now: u64,
) -> (WalletModel, Result<(), Error>) {
    let admin_cred = CredentialModel { id: id, public_key: pk, role: Role::Admin, created_at: now };
    let session_cred = CredentialModel {
        id: id,
        public_key: pk,
        role: Role::Session,
        created_at: now,
    };
    if w.signers.len() == 0 {
        (WalletModel { signers: seq![admin_cred], admin_count: 1, ..w }, Ok(()))
    } else if admin {
        if has_cred(w.signers, id) {
            let i = cred_index(w.signers, id);
            if w.signers[i].role is Session {
                (
                    WalletModel {
                        signers: w.signers.remove(i).push(admin_cred),
                        admin_count: (w.admin_count + 1) as u32,
                        ..w
                    },
                    Ok(()),
                )
            } else {
                (WalletModel { signers: w.signers.update(i, admin_cred), ..w }, Ok(()))
            }
        } else {
            (
                WalletModel {
                    signers: w.signers.push(admin_cred),
                    admin_count: (w.admin_count + 1) as u32,
                    ..w
                },
                Ok(()),
            )
        }
    } else {
        if has_cred(w.signers, id) {
            let i = cred_index(w.signers, id);
            if w.signers[i].role is Admin {
                if w.admin_count <= 1 {
                    (w, Err(Error::LastAdminProtected))
                } else {
                    (
                        WalletModel {
                            signers: w.signers.remove(i).push(session_cred),
                            admin_count: (w.admin_count - 1) as u32,
                            ..w
                        },
                        Ok(()),
                    )
                }
            } else {
                (WalletModel { signers: w.signers.update(i, session_cred), ..w }, Ok(()))
            }
        } else {
            (WalletModel { signers: w.signers.push(session_cred), ..w }, Ok(()))
        }
    }
}

/// What `remove` does to a wallet: a session credential leaves
/// unconditionally, an administrative credential leaves only while
/// another admin remains, an unknown id is refused.
pub open spec fn remove_transition(w: WalletModel, id: Seq<u8>) -> (WalletModel, Result<
    (),
    Error,
>) {
    if !has_cred(w.signers, id) {
        (w, Err(Error::NotFound))
    } else {
        let i = cred_index(w.signers, id);
        if w.signers[i].role is Session {
            (WalletModel { signers: w.signers.remove(i), ..w }, Ok(()))
        } else if w.admin_count <= 1 {
            (w, Err(Error::LastAdminProtected))
        } else {
            (
                WalletModel {
                    signers: w.signers.remove(i),
                    admin_count: (w.admin_count - 1) as u32,
                    ..w
                },
                Ok(()),
            )
        }
    }
}

impl Wallet {
    /// Add a credential to the registry, or migrate an existing one
    /// between tiers.  The first credential ever added bootstraps the
    /// wallet and is made administrative whatever was requested;
    /// subsequent calls must already have been authorized through the
    /// decision procedure.
    pub fn add(&mut self, id: Vec<u8>, public_key: Vec<u8>, admin: bool, now: u64) -> (r: Result<
        (),
        Error,
    >)
        requires
            old(self)@.wf(),
            old(self)@.signers.len() < u32::MAX,
        ensures
            final(self)@.wf(),
            final(self)@ == add_transition(old(self)@, id@, public_key@, admin, now).0,
            r == add_transition(old(self)@, id@, public_key@, admin, now).1,
    {
        let ghost w0 = self@;
        proof {
            lemma_count_admins_positive(w0.signers);
        }
        if self.signers.len() == 0 {
            let cred = Credential { id, public_key, role: Role::Admin, created_at: now };
            self.signers.push(cred);
            self.admin_count = 1;
            proof {
                let s = self@.signers;
                assert(s.len() == 1);
                assert(s.last().role is Admin);
                assert(s.drop_last() =~= Seq::<CredentialModel>::empty());
                assert(count_admins(s.drop_last()) == 0);
                assert(count_admins(s) == 1);
                assert(s =~= seq![add_transition(w0, id@, public_key@, admin, now).0.signers[0]]);
                assert(self@ =~= add_transition(w0, id@, public_key@, admin, now).0);
            }
            return Ok(());
        }
        let found = self.find_credential_index(&id);
        match found {
            Some(i) => {
                proof {
                    lemma_cred_index_unique(w0.signers, i as int);
                    assert(has_cred(w0.signers, id@));
                }
                let role = self.signers[i].role;
                match (role, admin) {
                    (Role::Session, true) => {
                        // promotion: drop the session entry, append the
                        // admin credential
                        self.signers.remove(i);
                        let cred = Credential { id, public_key, role: Role::Admin, created_at: now };
                        self.signers.push(cred);
                        self.admin_count = self.admin_count + 1;
                        proof {
                            let s1 = w0.signers.remove(i as int);
                            lemma_count_admins_remove(w0.signers, i as int);
                            lemma_count_admins_push(s1, cred@);
                            lemma_unique_remove(w0.signers, i as int);
                            assert(!has_cred(s1, id@));
                            lemma_unique_push_fresh(s1, cred@);
                            assert(self@.signers =~= s1.push(cred@));
                            assert(self@ =~= add_transition(w0, id@, public_key@, admin, now).0);
                        }
                        Ok(())
                    },
                    (Role::Admin, true) => {
                        // replace an existing admin credential in place
                        let cred = Credential { id, public_key, role: Role::Admin, created_at: now };
                        self.signers.set(i, cred);
                        proof {
                            lemma_count_admins_update(w0.signers, i as int, cred@);
                            lemma_unique_update_same_id(w0.signers, i as int, cred@);
                            assert(self@.signers =~= w0.signers.update(i as int, cred@));
                            assert(self@ =~= add_transition(w0, id@, public_key@, admin, now).0);
                        }
                        Ok(())
                    },
                    (Role::Admin, false) => {
                        // demotion: refuse on the sole admin, else drop
                        // the admin entry and append a session entry
                        if self.admin_count <= 1 {
                            return Err(Error::LastAdminProtected);
                        }
                        self.signers.remove(i);
                        let cred = Credential {
                            id,
                            public_key,
                            role: Role::Session,
                            created_at: now,
                        };
                        self.signers.push(cred);
                        self.admin_count = self.admin_count - 1;
                        proof {
                            let s1 = w0.signers.remove(i as int);
                            lemma_count_admins_remove(w0.signers, i as int);
                            lemma_count_admins_push(s1, cred@);
                            lemma_unique_remove(w0.signers, i as int);
                            assert(!has_cred(s1, id@));
                            lemma_unique_push_fresh(s1, cred@);
                            assert(self@.signers =~= s1.push(cred@));
                            assert(self@ =~= add_transition(w0, id@, public_key@, admin, now).0);
                        }
                        Ok(())
                    },
                    (Role::Session, false) => {
                        // refresh an existing session credential in place
                        let cred = Credential {
                            id,
                            public_key,
                            role: Role::Session,
                            created_at: now,
                        };
                        self.signers.set(i, cred);
                        proof {
                            lemma_count_admins_update(w0.signers, i as int, cred@);
                            lemma_unique_update_same_id(w0.signers, i as int, cred@);
                            assert(self@.signers =~= w0.signers.update(i as int, cred@));
                            assert(self@ =~= add_transition(w0, id@, public_key@, admin, now).0);
                        }
                        Ok(())
                    },
                }
            },
            None => {
                let role = if admin {
                    Role::Admin
                } else {
                    Role::Session
                };
                let cred = Credential { id, public_key, role, created_at: now };
                self.signers.push(cred);
                if admin {
                    self.admin_count = self.admin_count + 1;
                }
                proof {
                    lemma_count_admins_push(w0.signers, cred@);
                    lemma_unique_push_fresh(w0.signers, cred@);
                    assert(self@.signers =~= w0.signers.push(cred@));
                    assert(self@ =~= add_transition(w0, id@, public_key@, admin, now).0);
                }
                Ok(())
            },
        }
    }

    /// Remove the credential with the given id from whichever tier
    /// holds it.  Removing the sole administrative credential is
    /// refused with `LastAdminProtected`; an unknown id with
    /// `NotFound`.
    pub fn remove(&mut self, id: &Vec<u8>) -> (r: Result<(), Error>)
        requires
            old(self)@.wf(),
        ensures
            final(self)@.wf(),
            final(self)@ == remove_transition(old(self)@, id@).0,
            r == remove_transition(old(self)@, id@).1,
    {
        let ghost w0 = self@;
        proof {
            lemma_count_admins_positive(w0.signers);
        }
        match self.find_credential_index(id) {
            None => Err(Error::NotFound),
            Some(i) => {
                proof {
                    lemma_cred_index_unique(w0.signers, i as int);
                    assert(has_cred(w0.signers, id@));
                }
                let role = self.signers[i].role;
                match role {
                    Role::Session => {
                        self.signers.remove(i);
                        proof {
                            lemma_count_admins_remove(w0.signers, i as int);
                            lemma_unique_remove(w0.signers, i as int);
                            assert(self@.signers =~= w0.signers.remove(i as int));
                            assert(self@ =~= remove_transition(w0, id@).0);
                            lemma_count_admins_positive(self@.signers);
                        }
                        Ok(())
                    },
                    Role::Admin => {
                        if self.admin_count <= 1 {
                            return Err(Error::LastAdminProtected);
                        }
                        self.signers.remove(i);
                        self.admin_count = self.admin_count - 1;
                        proof {
                            lemma_count_admins_remove(w0.signers, i as int);
                            lemma_unique_remove(w0.signers, i as int);
                            assert(self@.signers =~= w0.signers.remove(i as int));
                            assert(self@ =~= remove_transition(w0, id@).0);
                        }
                        Ok(())
                    },
                }
            },
        }
    }
}

/// What replacing the primary administrative credential does: the
/// first admin slot takes the new credential, and any other entry that
/// already carried the new credential's id leaves the registry (with
/// the counter adjusted if it was administrative).
pub open spec fn replace_primary(w: WalletModel, cred: CredentialModel) -> WalletModel {
    let k = first_admin_index(w.signers);
    let s1 = w.signers.update(k, cred);
    if exists|j: int| 0 <= j < s1.len() && j != k && s1[j].id == cred.id {
        let j = choose|j: int| 0 <= j < s1.len() && j != k && s1[j].id == cred.id;
        WalletModel {
            signers: s1.remove(j),
            admin_count: (w.admin_count - if s1[j].role is Admin {
                1int
            } else {
                0int
            }) as u32,
            ..w
        }
    } else {
        WalletModel { signers: s1, ..w }
    }
}

/// What `update_passkey` does to a wallet: on an initialized wallet it
/// replaces the primary administrative credential; otherwise it is
/// refused.
pub open spec fn update_passkey_transition(
    w: WalletModel,
    id: Seq<u8>,
    pk: Seq<u8>,
    now: u64,
) -> (WalletModel, Result<(), Error>) {
    if w.settings is None {
        (w, Err(Error::NotInitialized))
    } else {
        (
            replace_primary(
                w,
                CredentialModel { id: id, public_key: pk, role: Role::Admin, created_at: now },
            ),
            Ok(()),
        )
    }
}

/// Deduplication after a primary replacement keeps ids unique.
proof fn lemma_replace_dedup_unique(s0: Seq<CredentialModel>, k: int, d: int, c: CredentialModel)
    requires
        unique_ids(s0),
        0 <= k < s0.len(),
        0 <= d < s0.len(),
        d != k,
        s0[d].id == c.id,
    ensures
        unique_ids(s0.update(k, c).remove(d)),
{
    let s1 = s0.update(k, c);
    let t = s1.remove(d);
    assert(forall|x: int| 0 <= x < t.len() ==> t[x] == (if x < d {
        s1[x]
    } else {
        s1[x + 1]
    }));
    assert forall|a: int, b: int| 0 <= a < b < t.len() implies t[a].id != t[b].id by {
        let a0 = if a < d {
            a
        } else {
            a + 1
        };
        let b0 = if b < d {
            b
        } else {
            b + 1
        };
        if a0 == k {
            assert(s1[b0] == s0[b0]);
        } else if b0 == k {
            assert(s1[a0] == s0[a0]);
        } else {
            assert(s1[a0] == s0[a0] && s1[b0] == s0[b0]);
        }
    }
}

/// A primary replacement without a duplicate id keeps ids unique.
proof fn lemma_replace_unique(s0: Seq<CredentialModel>, k: int, c: CredentialModel)
    requires
        unique_ids(s0),
        0 <= k < s0.len(),
        forall|j: int| 0 <= j < s0.len() && j != k ==> s0[j].id != c.id,
    ensures
        unique_ids(s0.update(k, c)),
{
}

impl Wallet {
    /// The index of the first administrative credential.
    fn first_admin_slot(&self) -> (r: usize)
        requires
            has_admin(self@.signers),
        ensures
            r as int == first_admin_index(self@.signers),
            r < self@.signers.len(),
            self@.signers[r as int].role is Admin,
    {
        let mut i: usize = 0;
        while i < self.signers.len()
            invariant
                i <= self.signers.len(),
                self@.signers.len() == self.signers@.len(),
                forall|k: int| 0 <= k < i ==> !(self@.signers[k].role is Admin),
                has_admin(self@.signers),
                forall|k: int|
                    0 <= k < self.signers@.len() ==> self@.signers[k] == self.signers@[k]@,
            decreases self.signers.len() - i,
        {
            let role = self.signers[i].role;
            match role {
                Role::Admin => {
                    proof {
                        lemma_first_admin_index(self@.signers);
                    }
                    return i;
                },
                Role::Session => {},
            }
            i += 1;
        }
        proof {
            lemma_first_admin_index(self@.signers);
            assert(false);
        }
        0
    }

    /// Install `cred` in the primary administrative slot, dropping any
    /// other registry entry that carries the same id.
    pub(crate) fn replace_primary_slot(&mut self, cred: Credential)
        requires
            old(self)@.wf(),
            old(self)@.settings is Some,
            cred@.role is Admin,
        ensures
            final(self)@.wf(),
            final(self)@ == replace_primary(old(self)@, cred@),
    {
        let ghost w0 = self@;
        let ghost target = cred@;
        proof {
            lemma_count_admins_positive(w0.signers);
        }
        let k = self.first_admin_slot();
        let dup_id = clone_bytes(&cred.id);
        self.signers.set(k, cred);
        let ghost s1 = w0.signers.update(k as int, target);
        proof {
            assert(self@.signers =~= s1);
            lemma_count_admins_update(w0.signers, k as int, target);
        }
        let mut j: usize = 0;
        let mut dup: Option<usize> = None;
        while j < self.signers.len()
            invariant
                j <= self.signers.len(),
                self@.signers == s1,
                self@.signers.len() == self.signers@.len(),
                k < s1.len(),
                dup_id@ == target.id,
                forall|x: int|
                    0 <= x < self.signers@.len() ==> self@.signers[x] == self.signers@[x]@,
                match dup {
                    Some(d) => d < s1.len() && d != k && s1[d as int].id == target.id,
                    None => forall|l: int| 0 <= l < j && l != k ==> s1[l].id != target.id,
                },
            decreases self.signers.len() - j,
        {
            if j != k && dup.is_none() {
                if bytes_eq(&self.signers[j].id, &dup_id) {
                    dup = Some(j);
                }
            }
            j += 1;
        }
        match dup {
            None => {
                proof {
                    assert(!(exists|jj: int|
                        0 <= jj < s1.len() && jj != k && s1[jj].id == target.id));
                    assert forall|l: int|
                        0 <= l < w0.signers.len() && l != k implies w0.signers[l].id
                        != target.id by {
                        assert(s1[l] == w0.signers[l]);
                        assert(s1[l].id != target.id);
                    }
                    lemma_replace_unique(w0.signers, k as int, target);
                    assert(self@ =~= replace_primary(w0, target));
                }
            },
            Some(d) => {
                proof {
                    assert(exists|jj: int| 0 <= jj < s1.len() && jj != k && s1[jj].id == target.id);
                    let jc = choose|jj: int|
                        0 <= jj < s1.len() && jj != k && s1[jj].id == target.id;
                    if jc != d {
                        // two distinct non-primary entries with the same
                        // id would contradict registry uniqueness
                        assert(s1[jc] == w0.signers[jc]);
                        assert(s1[d as int] == w0.signers[d as int]);
                        if jc < d {
                            assert(w0.signers[jc].id != w0.signers[d as int].id);
                        } else {
                            assert(w0.signers[d as int].id != w0.signers[jc].id);
                        }
                    }
                    assert(jc == d);
                }
                let removed = self.signers.remove(d);
                let removed_role = removed.role;
                match removed_role {
                    Role::Admin => {
                        proof {
                            lemma_two_admins(s1, k as int, d as int);
                        }
                        self.admin_count = self.admin_count - 1;
                    },
                    Role::Session => {},
                }
                proof {
                    lemma_count_admins_remove(s1, d as int);
                    lemma_replace_dedup_unique(w0.signers, k as int, d as int, target);
                    assert(self@.signers =~= s1.remove(d as int));
                    assert(self@ =~= replace_primary(w0, target));
                    lemma_count_admins_positive(self@.signers);
                }
            },
        }
    }

    /// Replace the wallet's primary passkey credential (device
    /// migration).  Requires an initialized wallet; the host gates the
    /// call on passkey authentication.
    pub fn update_passkey(
        &mut self,
        new_passkey_id: Vec<u8>,
        new_public_key: Vec<u8>,
        now: u64,
    ) -> (r: Result<(), Error>)
        requires
            old(self)@.wf(),
        ensures
            final(self)@.wf(),
            final(self)@ == update_passkey_transition(
                old(self)@,
                new_passkey_id@,
                new_public_key@,
                now,
            ).0,
            r == update_passkey_transition(old(self)@, new_passkey_id@, new_public_key@, now).1,
    {
        if self.settings.is_none() {
            return Err(Error::NotInitialized);
        }
        let cred = Credential {
            id: new_passkey_id,
            public_key: new_public_key,
            role: Role::Admin,
            created_at: now,
        };
        self.replace_primary_slot(cred);
        Ok(())
    }
}

/// Replacing the primary credential of a well-formed, initialized
/// wallet with an administrative credential keeps the wallet well
/// formed, and afterwards the new credential is the one registered
/// under its id.
pub proof fn lemma_replace_primary_wf(w: WalletModel, cred: CredentialModel)
    requires
        w.wf(),
        w.settings is Some,
        cred.role is Admin,
    ensures
        replace_primary(w, cred).wf(),
        replace_primary(w, cred).admin_count >= 1,
        has_cred(replace_primary(w, cred).signers, cred.id),
        replace_primary(w, cred).signers[cred_index(replace_primary(w, cred).signers, cred.id)]
            == cred,
        replace_primary(w, cred).settings == w.settings,
        replace_primary(w, cred).recovery == w.recovery,
        replace_primary(w, cred).daily == w.daily,
        replace_primary(w, cred).history == w.history,
        replace_primary(w, cred).log == w.log,
{
    lemma_count_admins_positive(w.signers);
    lemma_first_admin_index(w.signers);
    let k = first_admin_index(w.signers);
    let s1 = w.signers.update(k, cred);
    lemma_count_admins_update(w.signers, k, cred);
    if exists|j: int| 0 <= j < s1.len() && j != k && s1[j].id == cred.id {
        let j = choose|j: int| 0 <= j < s1.len() && j != k && s1[j].id == cred.id;
        let t = s1.remove(j);
        lemma_count_admins_remove(s1, j);
        lemma_replace_dedup_unique(w.signers, k, j, cred);
        if s1[j].role is Admin {
            lemma_two_admins(s1, k, j);
        }
        let k2 = if k < j {
            k
        } else {
            k - 1
        };
        assert(t[k2] == s1[k]);
        assert(has_cred(t, cred.id));
        lemma_cred_index_unique(t, k2);
        lemma_count_admins_positive(t);
        assert(count_admins(t) >= 1) by {
            assert(t[k2].role is Admin);
            assert(has_admin(t));
        }
    } else {
        assert forall|l: int| 0 <= l < w.signers.len() && l != k implies w.signers[l].id
            != cred.id by {
            assert(s1[l] == w.signers[l]);
        }
        lemma_replace_unique(w.signers, k, cred);
        assert(s1[k] == cred);
        assert(has_cred(s1, cred.id));
        lemma_cred_index_unique(s1, k);
        assert(count_admins(s1) == count_admins(w.signers));
    }
}

/// `add` preserves well-formedness and grows the registry by at most
/// one entry.
pub proof fn lemma_add_preserves_wf(
    w: WalletModel,
    id: Seq<u8>,
    pk: Seq<u8>,
    admin: bool,
    now: u64,
)
    requires
        w.wf(),
        w.signers.len() < u32::MAX,
    ensures
        add_transition(w, id, pk, admin, now).0.wf(),
        add_transition(w, id, pk, admin, now).0.signers.len() <= w.signers.len() + 1,
{
    lemma_count_admins_positive(w.signers);
    let w1 = add_transition(w, id, pk, admin, now).0;
    if w.signers.len() == 0 {
        let s = w1.signers;
        assert(s.len() == 1);
        assert(s.last().role is Admin);
        assert(s.drop_last() =~= Seq::<CredentialModel>::empty());
        assert(count_admins(s.drop_last()) == 0);
        assert(count_admins(s) == 1);
    } else if has_cred(w.signers, id) {
        let i = cred_index(w.signers, id);
        assert(0 <= i < w.signers.len() && w.signers[i].id == id);
        let cred = CredentialModel {
            id: id,
            public_key: pk,
            role: if admin {
                Role::Admin
            } else {
                Role::Session
            },
            created_at: now,
        };
        if w.signers[i].role is Session && admin {
            let s1 = w.signers.remove(i);
            lemma_count_admins_remove(w.signers, i);
            lemma_count_admins_push(s1, cred);
            lemma_unique_remove(w.signers, i);
            lemma_unique_push_fresh(s1, cred);
        } else if w.signers[i].role is Admin && !admin && w.admin_count > 1 {
            let s1 = w.signers.remove(i);
            lemma_count_admins_remove(w.signers, i);
            lemma_count_admins_push(s1, cred);
            lemma_unique_remove(w.signers, i);
            lemma_unique_push_fresh(s1, cred);
        } else if w.signers[i].role is Session || (w.signers[i].role is Admin && admin) {
            lemma_count_admins_update(w.signers, i, cred);
            lemma_unique_update_same_id(w.signers, i, cred);
        }
    } else {
        let cred = CredentialModel {
            id: id,
            public_key: pk,
            role: if admin {
                Role::Admin
            } else {
                Role::Session
            },
            created_at: now,
        };
        lemma_count_admins_push(w.signers, cred);
        lemma_unique_push_fresh(w.signers, cred);
    }
}

/// `remove` preserves well-formedness and never grows the registry.
pub proof fn lemma_remove_preserves_wf(w: WalletModel, id: Seq<u8>)
    requires
        w.wf(),
    ensures
        remove_transition(w, id).0.wf(),
        remove_transition(w, id).0.signers.len() <= w.signers.len(),
{
    lemma_count_admins_positive(w.signers);
    if has_cred(w.signers, id) {
        let i = cred_index(w.signers, id);
        assert(0 <= i < w.signers.len() && w.signers[i].id == id);
        if w.signers[i].role is Session || w.admin_count > 1 {
            lemma_count_admins_remove(w.signers, i);
            lemma_unique_remove(w.signers, i);
            lemma_count_admins_positive(remove_transition(w, id).0.signers);
        }
    }
}

/// One registry operation, for stating the last-admin law over whole
/// sequences of them.
pub enum RegistryOp {
    Add { id: Seq<u8>, public_key: Seq<u8>, admin: bool, now: u64 },
    Remove { id: Seq<u8> },
}

/// The state after one registry operation (its result discarded).
pub open spec fn apply_registry_op(w: WalletModel, op: RegistryOp) -> WalletModel {
    match op {
        RegistryOp::Add { id, public_key, admin, now } => add_transition(
            w,
            id,
            public_key,
            admin,
            now,
        ).0,
        RegistryOp::Remove { id } => remove_transition(w, id).0,
    }
}

/// The state after a whole sequence of registry operations.
pub open spec fn apply_registry_ops(w: WalletModel, ops: Seq<RegistryOp>) -> WalletModel
    decreases ops.len(),
{
    if ops.len() == 0 {
        w
    } else {
        apply_registry_ops(apply_registry_op(w, ops[0]), ops.drop_first())
    }
}

/// Law (last-admin invariant, all sequences): whatever sequence of
/// `add` and `remove` operations runs on a well-formed wallet, the
/// wallet stays well formed, and while any credential remains the
/// admin signer counter never reaches zero.  The length bound only
/// keeps the counter's 32 bits from running out: no sequence shorter
/// than that can overflow it.
pub proof fn lemma_registry_invariant_all_sequences(w: WalletModel, ops: Seq<RegistryOp>)
    requires
        w.wf(),
        w.signers.len() + ops.len() < u32::MAX,
    ensures
        apply_registry_ops(w, ops).wf(),
        apply_registry_ops(w, ops).signers.len() <= w.signers.len() + ops.len(),
        apply_registry_ops(w, ops).signers.len() > 0 ==> apply_registry_ops(w, ops).admin_count
            >= 1,
    decreases ops.len(),
{
    if ops.len() > 0 {
        let w1 = apply_registry_op(w, ops[0]);
        match ops[0] {
            RegistryOp::Add { id, public_key, admin, now } => {
                lemma_add_preserves_wf(w, id, public_key, admin, now);
            },
            RegistryOp::Remove { id } => {
                lemma_remove_preserves_wf(w, id);
            },
        }
        lemma_registry_invariant_all_sequences(w1, ops.drop_first());
    }
}

/// Law (last admin stands): in a well-formed wallet whose sole
/// administrative credential is asked to be removed, `remove` fails
/// with `LastAdminProtected` and changes nothing.
pub proof fn lemma_last_admin_protected(w: WalletModel, id: Seq<u8>)
    requires
        w.wf(),
        has_cred(w.signers, id),
        w.signers[cred_index(w.signers, id)].role is Admin,
        w.admin_count == 1,
    ensures
        remove_transition(w, id) == (w, Err::<(), Error>(Error::LastAdminProtected)),
{
}

/// Law (no admin-less registry): well-formedness ties the admin signer
/// counter to the registry, so a wallet that still holds any
/// credential holds at least one administrative credential, and the
/// counter is never zero while it does.  `add` and `remove` preserve
/// well-formedness (their contracts say so), so no sequence of them
/// leaves this state.
pub proof fn lemma_admins_never_exhausted(w: WalletModel)
    requires
        w.wf(),
        w.signers.len() > 0,
    ensures
        w.admin_count >= 1,
        count_admins(w.signers) >= 1,
        exists|i: int| 0 <= i < w.signers.len() && w.signers[i].role is Admin,
{
    lemma_count_admins_positive(w.signers);
}

} // verus!
