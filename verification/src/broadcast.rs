//! The broadcast stage: it opens only once every signing task has finished
//! (the hard barrier), submits each signed transaction, and confirms each one
//! by polling the chain head until it moves past the height recorded at
//! submission. A missing receipt is a valid terminal state, reported as an
//! empty receipt rather than an error.
use vstd::prelude::*;

use crate::bytes::clone_bytes;
use crate::signing::{SignedTransaction, SigningSession};

verus! {

/// The post-execution record the node returns once a transaction is mined.
#[derive(Clone, Copy, Debug, PartialEq, Eq, Structural)]
pub struct Receipt {
    /// 1 on success, 0 on failure.
    pub status: u64,
    /// The block the transaction was included in.
    pub block_number: u64,
    /// Gas consumed by the execution.
    pub gas_used: u128,
}

impl Default for Receipt {
    /// The empty receipt that stands in when the node reports none.
    fn default() -> (r: Receipt)
        ensures
            r.status == 0,
            r.block_number == 0,
            r.gas_used == 0,
    {
        Receipt { status: 0, block_number: 0, gas_used: 0 }
    }
}

/// One transaction's terminal confirmation state.
pub struct ConfirmationResult {
    /// The hash the node acknowledged the submission with.
    pub tx_hash: Vec<u8>,
    /// The chain height at which confirmation was observed.
    pub mined_block: u64,
    /// The receipt, or the empty receipt when the node reported none.
    pub receipt: Receipt,
    /// Whether the node reported a receipt at all.
    pub receipt_present: bool,
}

/// Assemble one transaction's result. A missing receipt yields the empty
/// receipt, never an error.
pub fn finish_confirmation(tx_hash: Vec<u8>, mined_block: u64, receipt: Option<Receipt>) -> (r:
    ConfirmationResult)
    ensures
        r.tx_hash@ == tx_hash@,
        r.mined_block == mined_block,
        r.receipt_present == (receipt is Some),
        r.receipt == match receipt {
            Some(rc) => rc,
            None => Receipt { status: 0, block_number: 0, gas_used: 0 },
        },
{
    match receipt {
        Some(rc) => ConfirmationResult { tx_hash, mined_block, receipt: rc, receipt_present: true },
        None => ConfirmationResult {
            tx_hash,
            mined_block,
            receipt: Receipt { status: 0, block_number: 0, gas_used: 0 },
            receipt_present: false,
        },
    }
}

/// Confirmation of one broadcast transaction: poll the chain head until it
/// differs from the height recorded at submission. Confirmed is terminal.
pub struct ConfirmationPoll {
    /// The chain height recorded when the transaction was submitted.
    pub submitted_height: u64,
    /// The height at which confirmation was observed, once it was.
    pub confirmed: Option<u64>,
}

impl ConfirmationPoll {
    /// Start polling for a transaction submitted at this chain height.
    pub fn new(submitted_height: u64) -> (p: ConfirmationPoll)
        ensures
            p.submitted_height == submitted_height,
            p.confirmed is None,
    {
        ConfirmationPoll { submitted_height, confirmed: None }
    }

    pub open spec fn spec_confirmed(self) -> bool {
        self.confirmed is Some
    }

    /// One observation of the chain head: confirmation exactly when it
    /// differs from the height at submission; once confirmed, later
    /// observations change nothing.
    pub fn observe(&mut self, height: u64) -> (done: bool)
        ensures
            final(self).submitted_height == old(self).submitted_height,
            done == final(self).spec_confirmed(),
            old(self).spec_confirmed() ==> *final(self) == *old(self),
            !old(self).spec_confirmed() ==> final(self).confirmed == (if height != old(
                self,
            ).submitted_height {
                Some(height)
            } else {
                None::<u64>
            }),
    {
        match self.confirmed {
            Some(_) => true,
            None => {
                if height != self.submitted_height {
                    self.confirmed = Some(height);
                    true
                } else {
                    false
                }
            },
        }
    }

    /// The mined block a confirmed poll reports.
    pub fn mined_block(&self) -> (h: u64)
        requires
            self.spec_confirmed(),
        ensures
            Some(h) == self.confirmed,
    {
        match self.confirmed {
            Some(h) => h,
            None => 0,
        }
    }
}

/// The broadcast stage over the frozen pending set. It can only be opened on
/// a signing session whose every task has finished: the barrier between
/// signing and broadcast. No broadcast happens before then, because the raw
/// bytes to submit are handed out only by an open stage.
pub struct BroadcastSession {
    /// The signed transactions, frozen in the order signing appended them.
    pub txs: Vec<SignedTransaction>,
}

impl BroadcastSession {
    /// The barrier: open the broadcast stage exactly when every signing task
    /// has finished, freezing the pending set.
    pub fn begin(signing: SigningSession) -> (r: Option<BroadcastSession>)
        ensures
            r is Some <==> signing.spec_all_done(),
            r is Some ==> r->0.txs@ == signing.pending@,
    {
        if signing.all_done() {
            Some(BroadcastSession { txs: signing.pending })
        } else {
            None
        }
    }

    pub fn tx_count(&self) -> (n: usize)
        ensures
            n == self.txs@.len(),
    {
        self.txs.len()
    }

    /// The raw bytes and hash of one frozen transaction, for submission.
    pub fn tx_at(&self, j: usize) -> (t: (Vec<u8>, Vec<u8>))
        requires
            j < self.txs@.len(),
        ensures
            t.0@ == self.txs@[j as int].raw_bytes@,
            t.1@ == self.txs@[j as int].hash@,
    {
        let tx = &self.txs[j];
        (clone_bytes(&tx.raw_bytes), clone_bytes(&tx.hash))
    }
}

/// Law: a broadcast stage opened on a fully signed session carries exactly
/// one transaction per input account, and — for pairwise distinct input
/// addresses — no two of its transactions share an origin.
pub proof fn lemma_stage_covers_all_accounts(signing: SigningSession, stage: BroadcastSession)
    requires
        signing.wf(),
        signing.spec_all_done(),
        stage.txs@ == signing.pending@,
        forall|i1: int, i2: int|
            0 <= i1 < signing.accounts@.len() && 0 <= i2 < signing.accounts@.len() && i1 != i2
                ==> signing.accounts@[i1].address@ != signing.accounts@[i2].address@,
    ensures
        stage.txs@.len() == signing.accounts@.len(),
        forall|j1: int, j2: int|
            0 <= j1 < stage.txs@.len() && 0 <= j2 < stage.txs@.len() && j1 != j2
                ==> stage.txs@[j1].origin@ != stage.txs@[j2].origin@,
{
    signing.lemma_complete_count();
    signing.lemma_distinct_origins();
}

/// The poll after a whole run of chain-head observations, first one first.
pub open spec fn spec_poll_run(p: ConfirmationPoll, observations: Seq<u64>) -> ConfirmationPoll
    decreases observations.len(),
{
    if observations.len() == 0 {
        p
    } else {
        spec_poll_run(spec_poll_step(p, observations[0]), observations.drop_first())
    }
}

/// The poll one observation later.
pub open spec fn spec_poll_step(p: ConfirmationPoll, height: u64) -> ConfirmationPoll {
    if p.confirmed is Some {
        p
    } else if height != p.submitted_height {
        ConfirmationPoll { submitted_height: p.submitted_height, confirmed: Some(height) }
    } else {
        p
    }
}

/// Law: a poll that starts unconfirmed confirms exactly at the first
/// observation that differs from the submission height, and reports that
/// observation as the mined block.
pub proof fn lemma_poll_first_change(p: ConfirmationPoll, observations: Seq<u64>, k: int)
    requires
        !p.spec_confirmed(),
        0 <= k < observations.len(),
        forall|m: int| 0 <= m < k ==> observations[m] == p.submitted_height,
        observations[k] != p.submitted_height,
    ensures
        spec_poll_run(p, observations).confirmed == Some(observations[k]),
    decreases observations.len(),
{
    if k == 0 {
        let p1 = spec_poll_step(p, observations[0]);
        assert(p1.confirmed == Some(observations[0]));
        lemma_poll_stays_confirmed(p1, observations.drop_first());
    } else {
        assert(observations[0] == p.submitted_height);
        let rest = observations.drop_first();
        assert(spec_poll_step(p, observations[0]) == p);
        assert(rest[k - 1] == observations[k]);
        assert forall|m: int| 0 <= m < k - 1 implies rest[m] == p.submitted_height by {
            assert(rest[m] == observations[m + 1]);
        }
        lemma_poll_first_change(p, rest, k - 1);
    }
}

/// Law: while the chain head stays at the submission height, the poll never
/// confirms — a stalled chain blocks that one confirmation indefinitely.
pub proof fn lemma_poll_stalled(p: ConfirmationPoll, observations: Seq<u64>)
    requires
        !p.spec_confirmed(),
        forall|m: int| 0 <= m < observations.len() ==> observations[m] == p.submitted_height,
    ensures
        !spec_poll_run(p, observations).spec_confirmed(),
        spec_poll_run(p, observations) == p,
    decreases observations.len(),
{
    if observations.len() > 0 {
        assert(spec_poll_step(p, observations[0]) == p);
        let rest = observations.drop_first();
        assert forall|m: int| 0 <= m < rest.len() implies rest[m] == p.submitted_height by {
            assert(rest[m] == observations[m + 1]);
        }
        lemma_poll_stalled(p, rest);
    }
}

/// Law: once confirmed, a poll never reverts, whatever is observed afterwards.
pub proof fn lemma_poll_stays_confirmed(p: ConfirmationPoll, observations: Seq<u64>)
    requires
        p.spec_confirmed(),
    ensures
        spec_poll_run(p, observations) == p,
    decreases observations.len(),
{
    if observations.len() > 0 {
        assert(spec_poll_step(p, observations[0]) == p);
        lemma_poll_stays_confirmed(p, observations.drop_first());
    }
}

} // verus!
