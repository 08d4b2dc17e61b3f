//! The coordinator's write protocol. Before the ledger is invoked, a write
//! is recorded as pending under an idempotency key (its operation and the
//! caller's nonce); a retry with the same key finds that record instead of
//! starting a second write. The ledger's answer then settles the record:
//! confirmed, failed for a deterministic rejection, or left pending for the
//! reconciler when the outcome is unknown.

use vstd::prelude::*;
use crate::audit::derefs;
use crate::contract::ContractError;
use crate::error::AppError;

verus! {

/// The kind of write that a pending record belongs to.
#[derive(Clone, Copy, Debug, PartialEq, Eq, Structural)]
pub enum Operation {
    CreateCampaign,
    Donate,
    ProposeDisbursement,
}

/// Where a write stands with respect to the ledger.
#[derive(Clone, Copy, Debug, PartialEq, Eq, Structural)]
pub enum WriteState {
    PendingChain,
    Failed,
    Confirmed,
}

/// What an invocation of the ledger came back with.
pub enum ChainOutcome {
    /// Accepted, under this transaction hash.
    Confirmed(String),
    /// Refused for good.
    Rejected(ContractError),
    /// Unknown: a network error or a timeout.
    Transient,
}

/// One write, keyed by its operation and the caller's nonce.
pub struct PendingWrite {
    pub operation: Operation,
    pub nonce: String,
    pub row_id: u128,
    pub state: WriteState,
    pub tx_hash: Option<String>,
    pub rejection: Option<ContractError>,
}

/// What starting a write found.
#[derive(Clone, Copy, Debug, PartialEq, Eq, Structural)]
pub enum Begun {
    /// A new write, recorded as pending under this row.
    Fresh(u128),
    /// A write with the same key already exists: its row and its state.
    Existing(u128, WriteState),
}

/// The record of writes, at most one per key.
pub struct WriteLog {
    writes: Vec<PendingWrite>,
}

/// Record `w` has the key (`op`, `nonce`).
pub open spec fn has_key(w: PendingWrite, op: Operation, nonce: Seq<char>) -> bool {
    w.operation == op && w.nonce@ == nonce
}

/// The records of `s` still waiting for the ledger, in order.
pub open spec fn still_pending(s: Seq<PendingWrite>) -> Seq<PendingWrite>
    decreases s.len(),
{
    if s.len() == 0 {
        Seq::empty()
    } else if s.last().state == WriteState::PendingChain {
        still_pending(s.drop_last()).push(s.last())
    } else {
        still_pending(s.drop_last())
    }
}

/// Record `w` after the ledger answered `outcome`, when it was pending.
pub open spec fn settled(w: PendingWrite, outcome: ChainOutcome) -> PendingWrite {
    match outcome {
        ChainOutcome::Confirmed(tx) => PendingWrite {
            operation: w.operation,
            nonce: w.nonce,
            row_id: w.row_id,
            state: WriteState::Confirmed,
            tx_hash: Some(tx),
            rejection: w.rejection,
        },
        ChainOutcome::Rejected(e) => PendingWrite {
            operation: w.operation,
            nonce: w.nonce,
            row_id: w.row_id,
            state: WriteState::Failed,
            tx_hash: w.tx_hash,
            rejection: Some(e),
        },
        ChainOutcome::Transient => w,
    }
}

/// What the caller is answered for record `w` once settled.
pub open spec fn answer(w: PendingWrite) -> Result<(), AppError> {
    match w.state {
        WriteState::Confirmed => Ok(()),
        WriteState::Failed => Err(AppError::ChainRejected(
            match w.rejection {
                Some(e) => e,
                None => ContractError::NotFound,
            },
        )),
        WriteState::PendingChain => Err(AppError::ChainTransient),
    }
}

impl WriteLog {
    /// All records, oldest first.
    pub closed spec fn write_seq(&self) -> Seq<PendingWrite> {
        self.writes@
    }

    /// At most one record per key.
    pub open spec fn wf(&self) -> bool {
        forall|i: int, j: int|
            0 <= i < j < self.write_seq().len() ==> !has_key(
                #[trigger] self.write_seq()[j],
                (#[trigger] self.write_seq()[i]).operation,
                self.write_seq()[i].nonce@,
            )
    }

    /// Whether a record has the key (`op`, `nonce`).
    pub open spec fn knows(&self, op: Operation, nonce: Seq<char>) -> bool {
        exists|i: int| 0 <= i < self.write_seq().len() && has_key(#[trigger] self.write_seq()[i], op, nonce)
    }

    /// The position of the record with the key (`op`, `nonce`).
    pub open spec fn position(&self, op: Operation, nonce: Seq<char>) -> int {
        choose|i: int| 0 <= i < self.write_seq().len() && has_key(#[trigger] self.write_seq()[i], op, nonce)
    }

    /// An empty record.
    pub fn new() -> (r: WriteLog)
        ensures
            r.wf(),
            r.write_seq().len() == 0,
    {
        WriteLog { writes: Vec::new() }
    }

    fn find(&self, op: Operation, nonce: &String) -> (r: Option<usize>)
        requires
            self.wf(),
        ensures
            match r {
                Some(i) => self.knows(op, nonce@) && i == self.position(op, nonce@) && i < self.write_seq().len(),
                None => !self.knows(op, nonce@),
            },
    {
        let mut i: usize = 0;
        while i < self.writes.len()
            invariant
                self.wf(),
                i <= self.writes@.len(),
                forall|k: int| 0 <= k < i ==> !has_key(#[trigger] self.writes@[k], op, nonce@),
            decreases self.writes@.len() - i,
        {
            if self.writes[i].operation == op && self.writes[i].nonce == *nonce {
                proof {
                    assert(has_key(self.write_seq()[i as int], op, nonce@));
                    assert(self.knows(op, nonce@));
                    let j = self.position(op, nonce@);
                    if j > i {
                        assert(!has_key(self.write_seq()[j], self.write_seq()[i as int].operation, self.write_seq()[i as int].nonce@));
                    }
                }
                return Some(i);
            }
            i = i + 1;
        }
        None
    }

    /// Starts the write (`op`, `nonce`) for mirror row `row_id`: a new key is
    /// recorded as pending; a known key changes nothing and reports the
    /// existing write.
    pub fn begin(&mut self, op: Operation, nonce: String, row_id: u128) -> (r: Begun)
        requires
            old(self).wf(),
        ensures
            final(self).wf(),
            if old(self).knows(op, nonce@) {
                let w = old(self).write_seq()[old(self).position(op, nonce@)];
                r == Begun::Existing(w.row_id, w.state) && *final(self) == *old(self)
            } else {
                &&& r == Begun::Fresh(row_id)
                &&& final(self).write_seq() == old(self).write_seq().push(
                    (PendingWrite {
                        operation: op,
                        nonce,
                        row_id,
                        state: WriteState::PendingChain,
                        tx_hash: None,
                        rejection: None,
                    }),
                )
            },
    {
        match self.find(op, &nonce) {
            Some(i) => Begun::Existing(self.writes[i].row_id, self.writes[i].state),
            None => {
                let w = PendingWrite {
                    operation: op,
                    nonce,
                    row_id,
                    state: WriteState::PendingChain,
                    tx_hash: None,
                    rejection: None,
                };
                self.writes.push(w);
                proof {
                    let s = self.write_seq();
                    assert forall|i: int, j: int| 0 <= i < j < s.len() implies !has_key(
                        #[trigger] s[j],
                        (#[trigger] s[i]).operation,
                        s[i].nonce@,
                    ) by {
                        assert(s[i] == old(self).write_seq()[i]);
                        if j < s.len() - 1 {
                            assert(s[j] == old(self).write_seq()[j]);
                        } else if has_key(s[j], s[i].operation, s[i].nonce@) {
                            assert(has_key(old(self).write_seq()[i], op, nonce@));
                        }
                    }
                }
                Begun::Fresh(row_id)
            },
        }
    }

    /// Settles the write (`op`, `nonce`) with the ledger's answer and says
    /// what the caller is told: success once confirmed, the ledger's
    /// rejection once failed, a transient failure while the outcome is
    /// unknown. Only a pending write changes; a settled one keeps its state
    /// and its answer. An unknown key is an internal error.
    pub fn settle(&mut self, op: Operation, nonce: &String, outcome: ChainOutcome) -> (r: Result<(), AppError>)
        requires
            old(self).wf(),
        ensures
            final(self).wf(),
            if !old(self).knows(op, nonce@) {
                r == Err::<(), AppError>(AppError::Internal) && *final(self) == *old(self)
            } else {
                let k = old(self).position(op, nonce@);
                let w = old(self).write_seq()[k];
                if w.state == WriteState::PendingChain {
                    &&& final(self).write_seq() == old(self).write_seq().update(k, settled(w, outcome))
                    &&& r == answer(settled(w, outcome))
                } else {
                    &&& *final(self) == *old(self)
                    &&& r == answer(w)
                }
            },
    {
        let i = match self.find(op, nonce) {
            Some(i) => i,
            None => {
                return Err(AppError::Internal);
            },
        };
        if self.writes[i].state != WriteState::PendingChain {
            return match self.writes[i].state {
                WriteState::Confirmed => Ok(()),
                _ => Err(AppError::ChainRejected(
                    match self.writes[i].rejection {
                        Some(e) => e,
                        None => ContractError::NotFound,
                    },
                )),
            };
        }
        let r = match outcome {
            ChainOutcome::Confirmed(tx) => {
                self.writes[i].state = WriteState::Confirmed;
                self.writes[i].tx_hash = Some(tx);
                Ok(())
            },
            ChainOutcome::Rejected(e) => {
                self.writes[i].state = WriteState::Failed;
                self.writes[i].rejection = Some(e);
                Err(AppError::ChainRejected(e))
            },
            ChainOutcome::Transient => Err(AppError::ChainTransient),
        };
        proof {
            let s = self.write_seq();
            assert(s =~= old(self).write_seq().update(i as int, s[i as int]));
            assert forall|a: int, b: int| 0 <= a < b < s.len() implies !has_key(
                #[trigger] s[b],
                (#[trigger] s[a]).operation,
                s[a].nonce@,
            ) by {
                assert(s[a].operation == old(self).write_seq()[a].operation && s[a].nonce == old(self).write_seq()[a].nonce);
                assert(s[b].operation == old(self).write_seq()[b].operation && s[b].nonce == old(self).write_seq()[b].nonce);
            }
        }
        r
    }

    /// The writes still waiting for the ledger, oldest first: the
    /// reconciler's work list.
    pub fn pending(&self) -> (r: Vec<&PendingWrite>)
        ensures
            derefs(r@) == still_pending(self.write_seq()),
    {
        let ghost s = self.writes@;
        let mut r: Vec<&PendingWrite> = Vec::new();
        let mut i: usize = 0;
        while i < self.writes.len()
            invariant
                i <= s.len(),
                s == self.writes@,
                derefs(r@) == still_pending(s.take(i as int)),
            decreases s.len() - i,
        {
            proof {
                assert(s.take(i + 1).drop_last() =~= s.take(i as int));
                assert(s.take(i + 1).last() == s[i as int]);
            }
            if self.writes[i].state == WriteState::PendingChain {
                let ghost before = r@;
                r.push(&self.writes[i]);
                proof {
                    assert(derefs(r@) =~= derefs(before).push(s[i as int]));
                }
            }
            i = i + 1;
        }
        proof {
            assert(s.take(i as int) =~= s);
        }
        r
    }

    /// The record of the write (`op`, `nonce`), if there is one.
    pub fn lookup(&self, op: Operation, nonce: &String) -> (r: Option<&PendingWrite>)
        requires
            self.wf(),
        ensures
            match r {
                Some(w) => self.knows(op, nonce@) && *w == self.write_seq()[self.position(op, nonce@)],
                None => !self.knows(op, nonce@),
            },
    {
        match self.find(op, nonce) {
            Some(i) => Some(&self.writes[i]),
            None => None,
        }
    }
}

} // verus!
