//! Transaction records and the ways in which one can be turned down.

use crate::amount::{parts_of, Amount, Parts};
use vstd::prelude::*;

verus! {

/// The kind of a transaction.
#[derive(Clone, Copy, Debug, PartialEq, Eq, Structural)]
pub enum TransType {
    Deposit,
    Withdrawal,
    Dispute,
    Resolve,
    Chargeback,
}

/// Where a deposit or withdrawal stands.
#[derive(Clone, Copy, Debug, PartialEq, Eq, Structural)]
pub enum TxState {
    /// Recorded and not under dispute.
    Unsettled,
    /// Under dispute: its amount is held.
    Disputed,
    /// Charged back after a dispute. Nothing leads out of this state.
    ChargedBack,
}

/// Why a transaction was turned down. The ledger is unchanged in every case.
#[derive(Clone, Copy, Debug, PartialEq, Eq, Structural)]
pub enum ApplyError {
    /// A deposit or withdrawal on a locked account.
    AccountLocked,
    /// A deposit or withdrawal that names no amount.
    MissingAmount,
    /// A withdrawal of more than is available.
    InsufficientFunds,
    /// A dispute, resolve or chargeback of a transaction that was never
    /// recorded.
    UnknownTransaction,
    /// A dispute of a transaction that is under dispute already.
    AlreadyDisputed,
    /// A dispute of a transaction that was charged back.
    AlreadyChargedBack,
    /// A resolve or chargeback of a transaction that is not under dispute.
    NotDisputed,
    /// A balance that no decimal can hold exactly.
    Overflow,
}

impl ApplyError {
    /// Whether the error ends the run. Only `Overflow` does: every other
    /// error drops one transaction and the run goes on.
    pub fn is_fatal(&self) -> (r: bool)
        ensures
            r == (*self == ApplyError::Overflow),
    {
        match self {
            ApplyError::Overflow => true,
            _ => false,
        }
    }
}

/// A transaction as the ledger sees it.
pub struct Instruction {
    pub trans: TransType,
    pub client: u16,
    pub tx: u32,
    pub amount: Option<Parts>,
}

/// One transaction: what to do, for which client, under which id, and with
/// which amount. Disputes, resolves and chargebacks carry no amount: they
/// point at an earlier transaction by its id.
#[derive(Clone, Copy, Debug, PartialEq)]
pub struct Transaction {
    pub trans: TransType,
    pub client: u16,
    pub tx: u32,
    pub amount: Option<Amount>,
}

impl View for Transaction {
    type V = Instruction;

    open spec fn view(&self) -> Instruction {
        Instruction {
            trans: self.trans,
            client: self.client,
            tx: self.tx,
            amount: parts_of(self.amount),
        }
    }
}

impl Transaction {
    /// A transaction from its four fields.
    pub fn new(trans: TransType, client: u16, tx: u32, amount: Option<Amount>) -> (t: Transaction)
        ensures
            t == (Transaction { trans, client, tx, amount }),
    {
        Transaction { trans, client, tx, amount }
    }
}

} // verus!
