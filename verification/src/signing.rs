//! The signing stage: one concurrently-running task per account, each
//! appending its signed transaction to a shared pending set, and a barrier
//! that holds broadcast back until every task has finished.
//!
//! The session is the shared state those tasks mutate: which accounts have
//! finished, and the pending set in append order. Append order is completion
//! order, not account order; the session's invariant ties every appended entry
//! to the one account it was signed for, whatever the interleaving was.
use vstd::prelude::*;
use vstd::set_lib::{lemma_int_range, set_int_range};

use crate::bytes::clone_bytes;

verus! {

/// One input account: a 20-byte address and its 32-byte secret key. Created by
/// the external loader, read-only to the core.
pub struct AccountRecord {
    pub address: Vec<u8>,
    pub secret_key: Vec<u8>,
}

impl AccountRecord {
    /// The shapes the loader guarantees.
    pub open spec fn wf(self) -> bool {
        self.address@.len() == 20 && self.secret_key@.len() == 32
    }
}

/// One account's fully signed transaction: the raw payload ready for
/// submission, its hash, the signing account, and the nonce embedded in it.
/// Immutable after creation; consumed exactly once by the broadcast stage.
pub struct SignedTransaction {
    pub raw_bytes: Vec<u8>,
    pub hash: Vec<u8>,
    pub origin: Vec<u8>,
    pub nonce: u64,
}

/// The shared state of the signing stage.
pub struct SigningSession {
    /// The input accounts, one signing task each.
    pub accounts: Vec<AccountRecord>,
    /// Which accounts' tasks have finished.
    pub done: Vec<bool>,
    /// The signed transactions, in completion order.
    pub pending: Vec<SignedTransaction>,
    /// Which account each pending entry was signed for, in the same order.
    pub order: Ghost<Seq<int>>,
}

impl SigningSession {
    /// The session's invariant: every pending entry belongs to exactly one
    /// finished account, and every finished account has exactly one entry.
    pub open spec fn wf(self) -> bool {
        &&& self.done@.len() == self.accounts@.len()
        &&& self.order@.len() == self.pending@.len()
        &&& forall|j: int|
            0 <= j < self.order@.len() ==> 0 <= #[trigger] self.order@[j]
                < self.accounts@.len()
        &&& forall|j1: int, j2: int|
            0 <= j1 < j2 < self.order@.len() ==> self.order@[j1] != self.order@[j2]
        &&& forall|j: int|
            0 <= j < self.pending@.len() ==> (#[trigger] self.pending@[j]).origin@
                == self.accounts@[self.order@[j]].address@
        &&& forall|i: int|
            0 <= i < self.done@.len() ==> (#[trigger] self.done@[i] <==> self.order@.contains(
                i,
            ))
    }

    /// Every signing task has finished: the barrier condition.
    pub open spec fn spec_all_done(self) -> bool {
        forall|i: int| 0 <= i < self.done@.len() ==> #[trigger] self.done@[i]
    }

    /// A fresh session: nothing signed, nothing done.
    pub fn new(accounts: Vec<AccountRecord>) -> (s: SigningSession)
        ensures
            s.wf(),
            s.accounts@ == accounts@,
            s.pending@.len() == 0,
            s.done@.len() == accounts@.len(),
            forall|i: int| 0 <= i < s.done@.len() ==> !s.done@[i],
    {
        let n = accounts.len();
        let mut done: Vec<bool> = Vec::new();
        let mut k: usize = 0;
        while k < n
            invariant
                k <= n,
                done@.len() == k,
                forall|i: int| 0 <= i < k ==> !done@[i],
            decreases n - k,
        {
            done.push(false);
            k += 1;
        }
        let s = SigningSession {
            accounts,
            done,
            pending: Vec::new(),
            order: Ghost(Seq::empty()),
        };
        proof {
            assert forall|i: int| 0 <= i < s.done@.len() implies (s.done@[i]
                <==> s.order@.contains(i)) by {
                assert(!s.order@.contains(i));
            }
        }
        s
    }

    pub fn account_count(&self) -> (n: usize)
        ensures
            n == self.accounts@.len(),
    {
        self.accounts.len()
    }

    pub fn pending_count(&self) -> (n: usize)
        ensures
            n == self.pending@.len(),
    {
        self.pending.len()
    }

    /// Has this account's signing task already finished?
    pub fn is_done(&self, i: usize) -> (r: bool)
        requires
            self.wf(),
            i < self.accounts@.len(),
        ensures
            r == self.done@[i as int],
    {
        self.done[i]
    }

    /// The barrier check: has every signing task finished?
    pub fn all_done(&self) -> (r: bool)
        ensures
            r == self.spec_all_done(),
    {
        let mut k: usize = 0;
        while k < self.done.len()
            invariant
                k <= self.done@.len(),
                forall|i: int| 0 <= i < k ==> #[trigger] self.done@[i],
            decreases self.done@.len() - k,
        {
            if !self.done[k] {
                return false;
            }
            k += 1;
        }
        true
    }

    /// One signing task finishing: append the signed transaction for account
    /// `i` to the pending set and mark the account done. Succeeds exactly when
    /// the account exists and was not already done; otherwise the session is
    /// left untouched.
    pub fn record_signed(&mut self, i: usize, nonce: u64, raw_bytes: Vec<u8>, hash: Vec<u8>) -> (r:
        bool)
        requires
            old(self).wf(),
        ensures
            final(self).wf(),
            r <==> (i < old(self).accounts@.len() && !old(self).done@[i as int]),
            !r ==> *final(self) == *old(self),
            r ==> {
                &&& final(self).accounts@ == old(self).accounts@
                &&& final(self).done@ == old(self).done@.update(i as int, true)
                &&& final(self).order@ == old(self).order@.push(i as int)
                &&& final(self).pending@.len() == old(self).pending@.len() + 1
                &&& (forall|j: int|
                    0 <= j < old(self).pending@.len() ==> final(self).pending@[j] == old(
                        self,
                    ).pending@[j])
                &&& final(self).pending@.last().raw_bytes@ == raw_bytes@
                &&& final(self).pending@.last().hash@ == hash@
                &&& final(self).pending@.last().origin@ == old(self).accounts@[i as int].address@
                &&& final(self).pending@.last().nonce == nonce
            },
    {
        if i >= self.accounts.len() {
            return false;
        }
        if self.done[i] {
            return false;
        }
        let ghost old_order = self.order@;
        let ghost old_done = self.done@;
        let origin = clone_bytes(&self.accounts[i].address);
        let entry = SignedTransaction { raw_bytes, hash, origin, nonce };
        self.pending.push(entry);
        self.done.set(i, true);
        self.order = Ghost(old_order.push(i as int));
        proof {
            assert(!old_order.contains(i as int));
            assert forall|j1: int, j2: int|
                0 <= j1 < j2 < self.order@.len() implies self.order@[j1] != self.order@[j2] by {
                if j2 == self.order@.len() - 1 {
                    assert(old_order[j1] != i as int);
                }
            }
            assert forall|k: int| 0 <= k < self.done@.len() implies (#[trigger] self.done@[k]
                <==> self.order@.contains(k)) by {
                if k == i as int {
                    assert(self.order@[self.order@.len() - 1] == i as int);
                    assert(self.order@.contains(i as int));
                } else {
                    if old_done[k] {
                        let j = choose|j: int| 0 <= j < old_order.len() && old_order[j] == k;
                        assert(self.order@[j] == k);
                        assert(self.order@.contains(k));
                    } else {
                        if self.order@.contains(k) {
                            let j = choose|j: int|
                                0 <= j < self.order@.len() && self.order@[j] == k;
                            assert(j < old_order.len());
                            assert(old_order.contains(k));
                        }
                    }
                }
            }
        }
        true
    }

    /// Law: when every signing task has finished, the pending set holds
    /// exactly one signed transaction per input account.
    pub proof fn lemma_complete_count(self)
        requires
            self.wf(),
            self.spec_all_done(),
        ensures
            self.pending@.len() == self.accounts@.len(),
    {
        let ord = self.order@;
        let n = self.accounts@.len() as int;
        assert(ord.no_duplicates()) by {
            assert forall|j1: int, j2: int|
                0 <= j1 < ord.len() && 0 <= j2 < ord.len() && j1 != j2 implies ord[j1]
                != ord[j2] by {}
        }
        ord.unique_seq_to_set();
        assert(ord.to_set() =~= set_int_range(0, n)) by {
            assert forall|x: int| set_int_range(0, n).contains(x) implies ord.to_set().contains(
                x,
            ) by {
                assert(self.done@[x]);
                assert(ord.contains(x));
            }
        }
        lemma_int_range(0, n);
    }

    /// Law: pairwise distinct account addresses give pairwise distinct origin
    /// addresses in the pending set.
    pub proof fn lemma_distinct_origins(self)
        requires
            self.wf(),
            forall|i1: int, i2: int|
                0 <= i1 < self.accounts@.len() && 0 <= i2 < self.accounts@.len() && i1 != i2
                    ==> self.accounts@[i1].address@ != self.accounts@[i2].address@,
        ensures
            forall|j1: int, j2: int|
                0 <= j1 < self.pending@.len() && 0 <= j2 < self.pending@.len() && j1 != j2
                    ==> self.pending@[j1].origin@ != self.pending@[j2].origin@,
    {
        assert forall|j1: int, j2: int|
            0 <= j1 < self.pending@.len() && 0 <= j2 < self.pending@.len() && j1
                != j2 implies self.pending@[j1].origin@ != self.pending@[j2].origin@ by {
            if j1 < j2 {
                assert(self.order@[j1] != self.order@[j2]);
            } else {
                assert(self.order@[j2] != self.order@[j1]);
            }
        }
    }

    /// Law: every finished account appears in the pending set, under its own
    /// address.
    pub proof fn lemma_account_coverage(self, i: int)
        requires
            self.wf(),
            0 <= i < self.accounts@.len(),
            self.done@[i],
        ensures
            exists|j: int|
                0 <= j < self.pending@.len() && self.order@[j] == i && self.pending@[j].origin@
                    == self.accounts@[i].address@,
    {
        assert(self.order@.contains(i));
        let j = choose|j: int| 0 <= j < self.order@.len() && self.order@[j] == i;
        assert(self.pending@[j].origin@ == self.accounts@[i].address@);
    }

    /// Account `i`'s entry in the pending set carries its noted nonce.
    pub open spec fn spec_has_entry_with_nonce(self, i: int, noted: Seq<u64>) -> bool {
        exists|j: int|
            0 <= j < self.pending@.len() && self.order@[j] == i
                && (#[trigger] self.pending@[j]).nonce == noted[i]
    }

    /// Law: however the signing tasks interleaved, once all are done the
    /// pending set carries each account's own nonce: for per-account nonces
    /// `noted`, every account's nonce appears under its entry, and distinct
    /// per-account nonces give a pending set with no duplicate and no missing
    /// nonce.
    pub proof fn lemma_nonces_complete(self, noted: Seq<u64>)
        requires
            self.wf(),
            self.spec_all_done(),
            noted.len() == self.accounts@.len(),
            forall|j: int|
                0 <= j < self.pending@.len() ==> (#[trigger] self.pending@[j]).nonce
                    == noted[self.order@[j]],
        ensures
            self.pending@.len() == noted.len(),
            forall|i: int| 0 <= i < noted.len() ==> #[trigger] self.spec_has_entry_with_nonce(
                i,
                noted,
            ),
            (forall|i1: int, i2: int|
                0 <= i1 < noted.len() && 0 <= i2 < noted.len() && i1 != i2 ==> noted[i1]
                    != noted[i2]) ==> (forall|j1: int, j2: int|
                0 <= j1 < self.pending@.len() && 0 <= j2 < self.pending@.len() && j1 != j2
                    ==> self.pending@[j1].nonce != self.pending@[j2].nonce),
    {
        self.lemma_complete_count();
        assert forall|i: int| 0 <= i < noted.len() implies #[trigger] self.spec_has_entry_with_nonce(
            i,
            noted,
        ) by {
            assert(self.done@[i]);
            assert(self.order@.contains(i));
            let j = choose|j: int| 0 <= j < self.order@.len() && self.order@[j] == i;
            assert(self.pending@[j].nonce == noted[i]);
        }
        if forall|i1: int, i2: int|
            0 <= i1 < noted.len() && 0 <= i2 < noted.len() && i1 != i2 ==> noted[i1] != noted[i2] {
            assert forall|j1: int, j2: int|
                0 <= j1 < self.pending@.len() && 0 <= j2 < self.pending@.len() && j1
                    != j2 implies self.pending@[j1].nonce != self.pending@[j2].nonce by {
                if j1 < j2 {
                    assert(self.order@[j1] != self.order@[j2]);
                    assert(noted[self.order@[j1]] != noted[self.order@[j2]]);
                } else {
                    assert(self.order@[j2] != self.order@[j1]);
                    assert(noted[self.order@[j2]] != noted[self.order@[j1]]);
                }
            }
        }
    }
    /// Law: however the signing tasks interleaved, the nonces of a complete
    /// pending set are a permutation of the per-account ones — the multiset
    /// identity behind `lemma_nonces_complete`, holding even when several
    /// accounts observed the same nonce.
    pub proof fn lemma_nonce_multiset(self, noted: Seq<u64>)
        requires
            self.wf(),
            self.spec_all_done(),
            noted.len() == self.accounts@.len(),
            forall|j: int|
                0 <= j < self.pending@.len() ==> (#[trigger] self.pending@[j]).nonce
                    == noted[self.order@[j]],
        ensures
            self.pending@.map_values(|t: SignedTransaction| t.nonce).to_multiset()
                == noted.to_multiset(),
    {
        self.lemma_complete_count();
        let nonces = self.pending@.map_values(|t: SignedTransaction| t.nonce);
        let through = self.order@.map_values(|i: int| noted[i]);
        assert(nonces =~= through);
        assert(self.order@.no_duplicates()) by {
            assert forall|j1: int, j2: int|
                0 <= j1 < self.order@.len() && 0 <= j2 < self.order@.len() && j1
                    != j2 implies self.order@[j1] != self.order@[j2] by {}
        }
        assert forall|i: int| 0 <= i < noted.len() implies #[trigger] self.order@.contains(i) by {
            assert(self.done@[i]);
        }
        lemma_permuted_multiset(self.order@, noted);
    }
}

/// For `ord` a permutation of the indices of `vals`, reading `vals` through
/// `ord` permutes it: the two multisets agree.
proof fn lemma_permuted_multiset(ord: Seq<int>, vals: Seq<u64>)
    requires
        ord.no_duplicates(),
        ord.len() == vals.len(),
        forall|j: int| 0 <= j < ord.len() ==> 0 <= #[trigger] ord[j] < vals.len(),
        forall|i: int| 0 <= i < vals.len() ==> #[trigger] ord.contains(i),
    ensures
        ord.map_values(|i: int| vals[i]).to_multiset() == vals.to_multiset(),
    decreases vals.len(),
{
    broadcast use vstd::seq_lib::group_to_multiset_ensures;
    broadcast use vstd::multiset::group_multiset_axioms;

    let f = |i: int| vals[i];
    let mapped = ord.map_values(f);
    let n = vals.len() as int;
    if n == 0 {
        assert(mapped =~= Seq::<u64>::empty());
        assert(mapped.to_multiset() =~= vals.to_multiset());
    } else {
        let last = n - 1;
        assert(ord.contains(last));
        let jn = choose|j: int| 0 <= j < ord.len() && ord[j] == last;
        let ord2 = ord.remove(jn);
        ord.remove_ensures(jn);
        let vals2 = vals.drop_last();

        assert(ord2.no_duplicates()) by {
            assert forall|a: int, b: int|
                0 <= a < ord2.len() && 0 <= b < ord2.len() && a != b implies ord2[a]
                != ord2[b] by {
                let a0 = if a < jn {
                    a
                } else {
                    a + 1
                };
                let b0 = if b < jn {
                    b
                } else {
                    b + 1
                };
                assert(ord2[a] == ord[a0]);
                assert(ord2[b] == ord[b0]);
            }
        }
        assert forall|j: int| 0 <= j < ord2.len() implies 0 <= #[trigger] ord2[j]
            < vals2.len() by {
            let j0 = if j < jn {
                j
            } else {
                j + 1
            };
            assert(ord2[j] == ord[j0]);
            assert(ord[j0] != ord[jn]);
        }
        assert forall|i: int| 0 <= i < vals2.len() implies #[trigger] ord2.contains(i) by {
            assert(ord.contains(i));
            let j = choose|j: int| 0 <= j < ord.len() && ord[j] == i;
            assert(j != jn);
            if j < jn {
                assert(ord2[j] == i);
            } else {
                assert(ord2[j - 1] == i);
            }
        }

        let f2 = |i: int| vals2[i];
        let mapped2 = ord2.map_values(f2);
        assert(mapped2 =~= mapped.remove(jn)) by {
            mapped.remove_ensures(jn);
            assert forall|k: int|
                0 <= k < mapped2.len() implies mapped2[k] == mapped.remove(jn)[k] by {
                let k0 = if k < jn {
                    k
                } else {
                    k + 1
                };
                assert(mapped.remove(jn)[k] == mapped[k0]);
                assert(mapped[k0] == f(ord[k0]));
                assert(ord2[k] == ord[k0]);
                assert(0 <= ord2[k] < vals2.len());
                assert(vals2[ord2[k]] == vals[ord2[k]]);
            }
        }

        lemma_permuted_multiset(ord2, vals2);

        let x = vals[last];
        assert(mapped[jn] == x);
        assert(mapped.remove(jn).to_multiset() =~= mapped.to_multiset().remove(x));
        assert(vals2.push(x) =~= vals);
        assert(vals2.push(x).to_multiset() =~= vals2.to_multiset().insert(x));
        assert(mapped.contains(x)) by {
            assert(mapped[jn] == x);
        }
        assert(mapped.to_multiset().count(x) > 0);
        assert(mapped.to_multiset() =~= mapped.to_multiset().remove(x).insert(x)) by {
            assert forall|y: u64| #[trigger] mapped.to_multiset().remove(x).insert(x).count(y)
                == mapped.to_multiset().count(y) by {}
        }
        assert(mapped.to_multiset() =~= vals.to_multiset()) by {
            assert(mapped.to_multiset().remove(x) == mapped2.to_multiset());
            assert(mapped2.to_multiset() == vals2.to_multiset());
        }
    }
}

} // verus!
