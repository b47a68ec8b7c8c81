//! Transactions on a register-addressed bus, and the session that carries a
//! plan of them out one by one. The owner of the bus performs each
//! transaction and hands back the reply; the session judges it, and ends at
//! the first reply that is not acceptable.

use vstd::prelude::*;
use crate::sensor::BME280Error;

verus! {

/// One transaction on the bus, for the owner of the bus to perform.
#[derive(Clone, Copy, Debug, PartialEq, Eq, Structural)]
pub enum Transaction {
    /// Write `value` to `register`.
    Write { register: u8, value: u8 },
    /// Read `register` back; any byte but `expected` is reported as `mismatch`.
    ReadBack { register: u8, expected: u8, mismatch: BME280Error },
    /// Read `len` bytes in one burst that starts at `register`.
    Burst { register: u8, len: usize },
}

/// What the bus answered to a transaction.
#[derive(Debug, PartialEq, Eq)]
pub enum BusReply {
    /// The transfer failed.
    Failed,
    /// A write went through.
    Done,
    /// A read went through, with these bytes.
    Data(Vec<u8>),
}

/// The verdict on the reply to a transaction. A failed transfer, and a reply
/// of another shape than the transaction asks for, are bus errors; a byte
/// read back that differs from the expected one is the transaction's own
/// mismatch error.
pub open spec fn judged(transaction: Transaction, reply: BusReply) -> Result<(), BME280Error> {
    match (transaction, reply) {
        (Transaction::Write { .. }, BusReply::Done) => Ok(()),
        (Transaction::ReadBack { expected, mismatch, .. }, BusReply::Data(bytes)) => {
            if bytes@.len() != 1 {
                Err(BME280Error::BusError)
            } else if bytes@[0] == expected {
                Ok(())
            } else {
                Err(mismatch)
            }
        },
        (Transaction::Burst { len, .. }, BusReply::Data(bytes)) => {
            if bytes@.len() == len {
                Ok(())
            } else {
                Err(BME280Error::BusError)
            }
        },
        _ => Err(BME280Error::BusError),
    }
}

impl Transaction {
    /// Judges the reply to this transaction.
    pub fn judge(&self, reply: &BusReply) -> (verdict: Result<(), BME280Error>)
        ensures
            verdict == judged(*self, *reply),
    {
        match reply {
            BusReply::Failed => Err(BME280Error::BusError),
            BusReply::Done => match self {
                Transaction::Write { .. } => Ok(()),
                _ => Err(BME280Error::BusError),
            },
            BusReply::Data(bytes) => match self {
                Transaction::Write { .. } => Err(BME280Error::BusError),
                Transaction::ReadBack { expected, mismatch, .. } => {
                    if bytes.len() != 1 {
                        Err(BME280Error::BusError)
                    } else if bytes[0] == *expected {
                        Ok(())
                    } else {
                        Err(*mismatch)
                    }
                },
                Transaction::Burst { len, .. } => {
                    if bytes.len() == *len {
                        Ok(())
                    } else {
                        Err(BME280Error::BusError)
                    }
                },
            },
        }
    }
}

/// A session as plain values: the plan, the replies accepted so far, and the
/// error that ended it, if one did.
pub struct SessionState {
    pub plan: Seq<Transaction>,
    pub replies: Seq<BusReply>,
    pub failure: Option<BME280Error>,
}

impl SessionState {
    /// The replies answer the first transactions of the plan, one each, and
    /// every one of them is acceptable.
    pub open spec fn wf(self) -> bool {
        &&& self.replies.len() <= self.plan.len()
        &&& forall|k: int|
            0 <= k < self.replies.len() ==> judged(self.plan[k], #[trigger] self.replies[k]) is Ok
    }

    /// The transaction to perform next: the first one not yet answered,
    /// unless the session has failed or the plan is carried out.
    pub open spec fn pending(self) -> Option<Transaction> {
        if self.failure is None && self.replies.len() < self.plan.len() {
            Some(self.plan[self.replies.len() as int])
        } else {
            None
        }
    }

    /// How the session ended: with the error of the first reply that was not
    /// acceptable, or well once every transaction is answered. Nothing while
    /// a transaction is pending.
    pub open spec fn outcome(self) -> Option<Result<(), BME280Error>> {
        match self.failure {
            Some(error) => Some(Err(error)),
            None => if self.replies.len() < self.plan.len() {
                None
            } else {
                Some(Ok(()))
            },
        }
    }

    /// The verdict on a reply: that on the pending transaction, or, with
    /// nothing pending, how the session ended.
    pub open spec fn verdict(self, reply: BusReply) -> Result<(), BME280Error> {
        match self.pending() {
            Some(transaction) => judged(transaction, reply),
            None => match self.failure {
                Some(error) => Err(error),
                None => Ok(()),
            },
        }
    }

    /// The session after a reply: an acceptable reply to the pending
    /// transaction is kept, any other ends the session with its error. With
    /// nothing pending the reply is dropped.
    pub open spec fn answered(self, reply: BusReply) -> Self {
        match self.pending() {
            None => self,
            Some(transaction) => match judged(transaction, reply) {
                Ok(()) => SessionState { replies: self.replies.push(reply), ..self },
                Err(error) => SessionState { failure: Some(error), ..self },
            },
        }
    }
}

/// A plan of transactions being carried out.
#[derive(Debug)]
pub struct Session {
    pub plan: Vec<Transaction>,
    pub replies: Vec<BusReply>,
    pub failure: Option<BME280Error>,
}

impl View for Session {
    type V = SessionState;

    open spec fn view(&self) -> SessionState {
        SessionState { plan: self.plan@, replies: self.replies@, failure: self.failure }
    }
}

impl Session {
    /// A session that has the whole plan before it.
    pub fn new(plan: Vec<Transaction>) -> (session: Self)
        ensures
            session@ == (SessionState { plan: plan@, replies: Seq::empty(), failure: None }),
            session@.wf(),
    {
        Session { plan, replies: Vec::new(), failure: None }
    }

    /// The transaction to perform next, if there is one.
    pub fn pending(&self) -> (next: Option<Transaction>)
        ensures
            next == self@.pending(),
    {
        if self.failure.is_none() && self.replies.len() < self.plan.len() {
            Some(self.plan[self.replies.len()])
        } else {
            None
        }
    }

    /// Takes the reply to the pending transaction and hands back the verdict
    /// on it.
    pub fn answer(&mut self, reply: BusReply) -> (verdict: Result<(), BME280Error>)
        ensures
            final(self)@ == old(self)@.answered(reply),
            verdict == old(self)@.verdict(reply),
            old(self)@.wf() ==> final(self)@.wf(),
    {
        match self.pending() {
            None => match self.failure {
                Some(error) => Err(error),
                None => Ok(()),
            },
            Some(transaction) => {
                let verdict = transaction.judge(&reply);
                match verdict {
                    Ok(()) => {
                        self.replies.push(reply);
                    },
                    Err(error) => {
                        self.failure = Some(error);
                    },
                }
                verdict
            },
        }
    }

    /// How the session ended, if it has.
    pub fn outcome(&self) -> (outcome: Option<Result<(), BME280Error>>)
        ensures
            outcome == self@.outcome(),
    {
        match self.failure {
            Some(error) => Some(Err(error)),
            None => if self.replies.len() < self.plan.len() {
                None
            } else {
                Some(Ok(()))
            },
        }
    }
}

/// A session that every reply was acceptable to ends well, and not before
/// its last transaction is answered; the first reply that is not acceptable
/// ends it with the error of that reply, and nothing is performed after it.
pub proof fn lemma_session_ends_at_first_failure(s: SessionState, reply: BusReply)
    requires
        s.wf(),
        s.pending() is Some,
    ensures
        s.outcome() is None,
        judged(s.pending()->0, reply) is Ok ==> s.answered(reply).replies.len() == s.replies.len()
            + 1 && (s.answered(reply).outcome() is Some <==> s.replies.len() + 1 == s.plan.len()),
        judged(s.pending()->0, reply) is Err ==> s.answered(reply).outcome() == Some(
            judged(s.pending()->0, reply),
        ) && s.answered(reply).pending() is None,
        s.answered(reply).wf(),
{
}

} // verus!
