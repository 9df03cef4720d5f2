//! The ledger of one client as a mathematical value, and the rules by which
//! transactions change it.
//!
//! Every rule is a function from a ledger to either the ledger that follows
//! or the reason for which the transaction is turned down. A transaction that
//! is turned down changes nothing.

use crate::amount::Parts;
use crate::transaction::{ApplyError, Instruction, TransType, TxState};
use vstd::prelude::*;

verus! {

/// The number of fractional digits to which balances are rounded when they
/// are written out.
pub const PLACES: u32 = 4;

/// `true` or `false`, as text.
pub open spec fn bool_text(b: bool) -> Seq<char> {
    if b {
        "true"@
    } else {
        "false"@
    }
}

/// What the ledger remembers of a deposit or withdrawal.
pub struct Entry {
    pub amount: Parts,
    pub state: TxState,
}

/// The balances of one client, the lock, and the recorded transactions by id.
#[verifier::ext_equal]
pub struct Ledger {
    pub available: Parts,
    pub held: Parts,
    pub total: Parts,
    pub locked: bool,
    pub records: Map<u32, Entry>,
}

impl Ledger {
    /// The ledger of a client that has not been heard of yet.
    pub open spec fn fresh() -> Ledger {
        Ledger {
            available: Parts::zero(),
            held: Parts::zero(),
            total: Parts::zero(),
            locked: false,
            records: Map::empty(),
        }
    }

    /// Whether the total is what is available and what is held together.
    pub open spec fn balanced(self) -> bool {
        self.total.units() == self.available.units() + self.held.units()
    }

    /// The ledger with `tx` recorded as an unsettled transaction of `amount`.
    /// An earlier record under the same id is replaced.
    pub open spec fn recorded(self, tx: u32, amount: Parts) -> Ledger {
        Ledger {
            records: self.records.insert(tx, Entry { amount, state: TxState::Unsettled }),
            ..self
        }
    }

    /// Adds `amount` to what is available and to the total.
    pub open spec fn deposited(self, amount: Parts) -> Result<Ledger, ApplyError> {
        if self.locked {
            Err(ApplyError::AccountLocked)
        } else {
            match (self.available.plus(amount), self.total.plus(amount)) {
                (Some(available), Some(total)) => Ok(Ledger { available, total, ..self }),
                _ => Err(ApplyError::Overflow),
            }
        }
    }

    /// Takes `amount` from what is available and from the total, where that
    /// much is available.
    pub open spec fn withdrawn(self, amount: Parts) -> Result<Ledger, ApplyError> {
        if self.locked {
            Err(ApplyError::AccountLocked)
        } else if self.available.units() < amount.units() {
            Err(ApplyError::InsufficientFunds)
        } else {
            match (self.available.minus(amount), self.total.minus(amount)) {
                (Some(available), Some(total)) => Ok(Ledger { available, total, ..self }),
                _ => Err(ApplyError::Overflow),
            }
        }
    }

    /// Puts the unsettled transaction `tx` under dispute: its amount moves
    /// from what is available to what is held. A lock does not stand in the
    /// way.
    pub open spec fn disputed(self, tx: u32) -> Result<Ledger, ApplyError> {
        if !self.records.contains_key(tx) {
            Err(ApplyError::UnknownTransaction)
        } else {
            let entry = self.records[tx];
            match entry.state {
                TxState::Disputed => Err(ApplyError::AlreadyDisputed),
                TxState::ChargedBack => Err(ApplyError::AlreadyChargedBack),
                TxState::Unsettled => match (
                    self.available.minus(entry.amount),
                    self.held.plus(entry.amount),
                ) {
                    (Some(available), Some(held)) => Ok(
                        Ledger {
                            available,
                            held,
                            records: self.records.insert(
                                tx,
                                Entry { amount: entry.amount, state: TxState::Disputed },
                            ),
                            ..self
                        },
                    ),
                    _ => Err(ApplyError::Overflow),
                },
            }
        }
    }

    /// Ends the dispute of `tx` in the client's favour: its amount moves back
    /// from what is held to what is available, and `tx` is unsettled again.
    pub open spec fn resolved(self, tx: u32) -> Result<Ledger, ApplyError> {
        if !self.records.contains_key(tx) {
            Err(ApplyError::UnknownTransaction)
        } else {
            let entry = self.records[tx];
            if entry.state != TxState::Disputed {
                Err(ApplyError::NotDisputed)
            } else {
                match (self.available.plus(entry.amount), self.held.minus(entry.amount)) {
                    (Some(available), Some(held)) => Ok(
                        Ledger {
                            available,
                            held,
                            records: self.records.insert(
                                tx,
                                Entry { amount: entry.amount, state: TxState::Unsettled },
                            ),
                            ..self
                        },
                    ),
                    _ => Err(ApplyError::Overflow),
                }
            }
        }
    }

    /// Ends the dispute of `tx` against the client: its amount leaves what is
    /// held and the total, `tx` is charged back for good, and the account is
    /// locked.
    pub open spec fn charged_back(self, tx: u32) -> Result<Ledger, ApplyError> {
        if !self.records.contains_key(tx) {
            Err(ApplyError::UnknownTransaction)
        } else {
            let entry = self.records[tx];
            if entry.state != TxState::Disputed {
                Err(ApplyError::NotDisputed)
            } else {
                match (self.held.minus(entry.amount), self.total.minus(entry.amount)) {
                    (Some(held), Some(total)) => Ok(
                        Ledger {
                            held,
                            total,
                            locked: true,
                            records: self.records.insert(
                                tx,
                                Entry { amount: entry.amount, state: TxState::ChargedBack },
                            ),
                            ..self
                        },
                    ),
                    _ => Err(ApplyError::Overflow),
                }
            }
        }
    }

    /// A deposit as a transaction: the lock is looked at first, then the
    /// amount; a deposit that goes through is recorded under its id.
    pub open spec fn deposit_applied(self, tx: u32, amount: Option<Parts>) -> Result<
        Ledger,
        ApplyError,
    > {
        if self.locked {
            Err(ApplyError::AccountLocked)
        } else {
            match amount {
                None => Err(ApplyError::MissingAmount),
                Some(a) => match self.deposited(a) {
                    Ok(next) => Ok(next.recorded(tx, a)),
                    Err(e) => Err(e),
                },
            }
        }
    }

    /// A withdrawal as a transaction: the lock is looked at first, then the
    /// amount; only a withdrawal that goes through is recorded under its id.
    pub open spec fn withdrawal_applied(self, tx: u32, amount: Option<Parts>) -> Result<
        Ledger,
        ApplyError,
    > {
        if self.locked {
            Err(ApplyError::AccountLocked)
        } else {
            match amount {
                None => Err(ApplyError::MissingAmount),
                Some(a) => match self.withdrawn(a) {
                    Ok(next) => Ok(next.recorded(tx, a)),
                    Err(e) => Err(e),
                },
            }
        }
    }

    /// What a transaction makes of the ledger, or why it is turned down.
    pub open spec fn applied(self, t: Instruction) -> Result<Ledger, ApplyError> {
        match t.trans {
            TransType::Deposit => self.deposit_applied(t.tx, t.amount),
            TransType::Withdrawal => self.withdrawal_applied(t.tx, t.amount),
            TransType::Dispute => self.disputed(t.tx),
            TransType::Resolve => self.resolved(t.tx),
            TransType::Chargeback => self.charged_back(t.tx),
        }
    }

    /// The ledger after a transaction: unchanged where it is turned down.
    pub open spec fn after(self, t: Instruction) -> Ledger {
        match self.applied(t) {
            Ok(next) => next,
            Err(_) => self,
        }
    }

    /// The balances and the lock as one row of the final report: each
    /// balance rounded to four fractional digits and written with exactly
    /// four, then `true` or `false`, with a comma and a space between them.
    pub open spec fn row(self) -> Seq<char> {
        self.available.fixed_text(PLACES as nat) + ", "@ + self.held.fixed_text(PLACES as nat)
            + ", "@ + self.total.fixed_text(PLACES as nat) + ", "@ + bool_text(self.locked)
    }

    /// The balances and the lock as one line for a log: each balance rounded
    /// to at most four fractional digits.
    pub open spec fn description(self) -> Seq<char> {
        "Client { available: "@ + self.available.rounded(PLACES as nat).text() + "  held: "@
            + self.held.rounded(PLACES as nat).text() + "  total: "@ + self.total.rounded(
            PLACES as nat,
        ).text() + "  locked: "@ + bool_text(self.locked) + " }"@
    }

    /// The ledger after a run of transactions, in their order.
    pub open spec fn after_all(self, ts: Seq<Instruction>) -> Ledger
        decreases ts.len(),
    {
        if ts.len() == 0 {
            self
        } else {
            self.after_all(ts.drop_last()).after(ts.last())
        }
    }
}

/// How a call that changes a ledger relates to the rule it follows: where
/// the rule gives a ledger, the call succeeds and leaves that ledger; where
/// the rule gives an error, the call returns it and leaves the ledger alone.
pub open spec fn follows(
    before: Ledger,
    after: Ledger,
    result: Result<(), ApplyError>,
    rule: Result<Ledger, ApplyError>,
) -> bool {
    match rule {
        Ok(next) => result == Ok::<(), ApplyError>(()) && after == next,
        Err(e) => result == Err::<(), ApplyError>(e) && after == before,
    }
}

} // verus!
