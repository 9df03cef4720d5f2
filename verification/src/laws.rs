//! What holds of every ledger, proved from the rules in `ledger`.

use crate::amount::Parts;
use crate::ledger::Ledger;
use crate::registry::{ledger_of, routed};
use crate::transaction::{ApplyError, Instruction, TransType, TxState};
use vstd::prelude::*;

verus! {

/// Whether every transaction of the run is a deposit.
pub open spec fn only_deposits(ts: Seq<Instruction>) -> bool {
    forall|i: int| 0 <= i < ts.len() ==> (#[trigger] ts[i]).trans == TransType::Deposit
}

/// Whether a transaction is a deposit or a withdrawal.
pub open spec fn moves_money(t: Instruction) -> bool {
    t.trans == TransType::Deposit || t.trans == TransType::Withdrawal
}

/// The dispute of the transaction `tx`.
pub open spec fn dispute_of(client: u16, tx: u32) -> Instruction {
    Instruction { trans: TransType::Dispute, client, tx, amount: None }
}

/// After any run of deposits on a fresh ledger, nothing is held and the
/// total is what is available.
pub proof fn law_deposits_only(ts: Seq<Instruction>)
    requires
        only_deposits(ts),
    ensures
        Ledger::fresh().after_all(ts).held == Parts::zero(),
        Ledger::fresh().after_all(ts).total == Ledger::fresh().after_all(ts).available,
        Ledger::fresh().after_all(ts).held.units() == 0,
        Ledger::fresh().after_all(ts).total.units() == Ledger::fresh().after_all(
            ts,
        ).available.units(),
    decreases ts.len(),
{
    if ts.len() > 0 {
        assert(only_deposits(ts.drop_last())) by {
            assert forall|i: int| 0 <= i < ts.drop_last().len() implies (
            #[trigger] ts.drop_last()[i]).trans == TransType::Deposit by {
                assert(ts.drop_last()[i] == ts[i]);
            }
        }
        law_deposits_only(ts.drop_last());
    }
}

/// A withdrawal of more than is available changes nothing, and no
/// withdrawal takes what is available below zero.
pub proof fn law_withdrawal_within_funds(l: Ledger, t: Instruction)
    requires
        t.trans == TransType::Withdrawal,
    ensures
        t.amount matches Some(a) && a.units() > l.available.units() ==> l.after(t) == l
            && l.applied(t) is Err,
        l.available.units() >= 0 ==> l.after(t).available.units() >= 0,
{
}

/// A dispute followed by the resolve of the same transaction gives back the
/// ledger of before: every balance has its old value, the lock is as it was,
/// and so is every record.
pub proof fn law_dispute_then_resolve(l: Ledger, tx: u32)
    requires
        l.disputed(tx) is Ok,
        l.disputed(tx).unwrap().resolved(tx) is Ok,
    ensures
        ({
            let back = l.disputed(tx).unwrap().resolved(tx).unwrap();
            &&& back.available.units() == l.available.units()
            &&& back.held.units() == l.held.units()
            &&& back.total == l.total
            &&& back.locked == l.locked
            &&& back.records == l.records
        }),
{
    assert(l.disputed(tx).unwrap().resolved(tx).unwrap().records =~= l.records);
}

/// A locked ledger turns down every deposit and every withdrawal, and is
/// left as it was.
pub proof fn law_locked_rejects(l: Ledger, t: Instruction)
    requires
        l.locked,
        moves_money(t),
    ensures
        l.applied(t) == Err::<Ledger, ApplyError>(ApplyError::AccountLocked),
        l.after(t) == l,
{
}

/// A lock does not stand in the way of a dispute: whether a dispute goes
/// through, and what it makes of the balances and records, is the same with
/// and without the lock.
pub proof fn law_lock_does_not_stop_disputes(l: Ledger, tx: u32)
    ensures
        (Ledger { locked: true, ..l }).disputed(tx) is Ok <==> l.disputed(tx) is Ok,
        l.disputed(tx) is Ok ==> (Ledger { locked: true, ..l }).disputed(tx).unwrap() == (Ledger {
            locked: true,
            ..l.disputed(tx).unwrap()
        }),
{
}

/// A chargeback that goes through locks the ledger.
pub proof fn law_chargeback_locks(l: Ledger, tx: u32)
    requires
        l.charged_back(tx) is Ok,
    ensures
        l.charged_back(tx).unwrap().locked,
        l.charged_back(tx).unwrap().records[tx].state == TxState::ChargedBack,
{
}

/// Once a ledger is locked it stays locked, whatever follows; and each
/// deposit or withdrawal that follows leaves what is available and the total
/// (and all the rest) as it found them.
pub proof fn law_lock_is_sticky(l: Ledger, ts: Seq<Instruction>)
    requires
        l.locked,
    ensures
        l.after_all(ts).locked,
        ts.len() > 0 && moves_money(ts.last()) ==> l.after_all(ts) == l.after_all(ts.drop_last()),
    decreases ts.len(),
{
    if ts.len() > 0 {
        law_lock_is_sticky(l, ts.drop_last());
        let before = l.after_all(ts.drop_last());
        if moves_money(ts.last()) {
            law_locked_rejects(before, ts.last());
        }
    }
}

/// A transaction that was charged back stays so: on a locked ledger, which
/// is what a chargeback leaves, no run of transactions changes its record.
pub proof fn law_chargeback_is_terminal(l: Ledger, tx: u32, ts: Seq<Instruction>)
    requires
        l.locked,
        l.records.contains_key(tx),
        l.records[tx].state == TxState::ChargedBack,
    ensures
        l.after_all(ts).records.contains_key(tx),
        l.after_all(ts).records[tx] == l.records[tx],
    decreases ts.len(),
{
    if ts.len() > 0 {
        law_chargeback_is_terminal(l, tx, ts.drop_last());
        law_lock_is_sticky(l, ts.drop_last());
        let before = l.after_all(ts.drop_last());
        if moves_money(ts.last()) {
            law_locked_rejects(before, ts.last());
        }
    }
}

/// A transaction under dispute cannot be disputed again: the second dispute
/// is turned down and changes nothing.
pub proof fn law_disputed_once(l: Ledger, client: u16, tx: u32)
    requires
        l.records.contains_key(tx),
        l.records[tx].state == TxState::Disputed,
    ensures
        l.disputed(tx) == Err::<Ledger, ApplyError>(ApplyError::AlreadyDisputed),
        l.after(dispute_of(client, tx)) == l,
{
}

/// Right after a dispute that went through, a second dispute of the same
/// transaction is turned down.
pub proof fn law_second_dispute_rejected(l: Ledger, tx: u32)
    requires
        l.disputed(tx) is Ok,
    ensures
        l.disputed(tx).unwrap().disputed(tx) == Err::<Ledger, ApplyError>(
            ApplyError::AlreadyDisputed,
        ),
{
}

/// A transaction under dispute stays recorded, and only two things make it
/// unsettled again: its resolve, or a deposit or withdrawal that is recorded
/// anew under the same id.
pub proof fn law_dispute_lasts(l: Ledger, tx: u32, t: Instruction)
    requires
        l.records.contains_key(tx),
        l.records[tx].state == TxState::Disputed,
    ensures
        l.after(t).records.contains_key(tx),
        l.after(t).records[tx].state == TxState::Unsettled ==> t.tx == tx && (t.trans
            == TransType::Resolve || moves_money(t)),
{
}

/// A record is never lost, and its amount changes only where a deposit or
/// withdrawal is recorded anew under its id.
pub proof fn law_records_are_kept(l: Ledger, t: Instruction, tx: u32)
    requires
        l.records.contains_key(tx),
    ensures
        l.after(t).records.contains_key(tx),
        !(moves_money(t) && t.tx == tx) ==> l.after(t).records[tx].amount == l.records[tx].amount,
{
}

/// A transaction leaves the records of all other ids as they were.
pub proof fn law_other_records_untouched(l: Ledger, t: Instruction, other: u32)
    requires
        other != t.tx,
    ensures
        l.after(t).records.contains_key(other) == l.records.contains_key(other),
        l.records.contains_key(other) ==> l.after(t).records[other] == l.records[other],
{
}

/// Every transaction keeps the balances in step: where the total was what
/// is available and what is held together, it still is.
pub proof fn law_balanced(l: Ledger, t: Instruction)
    requires
        l.balanced(),
    ensures
        l.after(t).balanced(),
{
}

/// A fresh ledger is in step, and stays so through every run.
pub proof fn law_always_balanced(ts: Seq<Instruction>)
    ensures
        Ledger::fresh().after_all(ts).balanced(),
    decreases ts.len(),
{
    if ts.len() > 0 {
        law_always_balanced(ts.drop_last());
        law_balanced(Ledger::fresh().after_all(ts.drop_last()), ts.last());
    }
}

/// A transaction touches the ledger of its own client and no other.
pub proof fn law_route_leaves_others(ledgers: Map<u16, Ledger>, t: Instruction, other: u16)
    requires
        other != t.client,
    ensures
        routed(ledgers, t).contains_key(other) == ledgers.contains_key(other),
        ledger_of(routed(ledgers, t), other) == ledger_of(ledgers, other),
        routed(ledgers, t).contains_key(t.client),
{
}

/// Transactions of two different clients can change places: the ledgers
/// come out the same.
pub proof fn law_clients_do_not_interfere(ledgers: Map<u16, Ledger>, s: Instruction, t: Instruction)
    requires
        s.client != t.client,
    ensures
        routed(routed(ledgers, s), t) == routed(routed(ledgers, t), s),
{
    assert(routed(routed(ledgers, s), t) =~= routed(routed(ledgers, t), s));
}

/// A transaction that is turned down leaves the ledger as it was.
pub proof fn law_rejection_changes_nothing(l: Ledger, t: Instruction)
    requires
        l.applied(t) is Err,
    ensures
        l.after(t) == l,
{
}

} // verus!
