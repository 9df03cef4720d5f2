//! The account of one client.

use crate::amount::Amount;
use crate::decimal::ends_in_places;
use crate::ledger::{bool_text, follows, Entry, Ledger, PLACES};
use crate::transaction::{ApplyError, Transaction, TransType, TxState};
use std::collections::HashMap;
use vstd::prelude::*;
use vstd::std_specs::hash::*;
use vstd::string::*;

verus! {

/// A deposit or withdrawal as the account keeps it.
#[derive(Clone, Copy)]
struct TxRecord {
    amount: Amount,
    state: TxState,
}

impl View for TxRecord {
    type V = Entry;

    closed spec fn view(&self) -> Entry {
        Entry { amount: self.amount@, state: self.state }
    }
}

/// The three balances and the lock. The total is at all times what is
/// available and what is held together.
#[derive(Clone, Copy)]
struct Balances {
    available: Amount,
    held: Amount,
    total: Amount,
    locked: bool,
}

impl Balances {
    #[verifier::type_invariant]
    spec fn in_step(self) -> bool {
        self.total@.units() == self.available@.units() + self.held@.units()
    }
}

/// The account of one client: three balances, a lock, and for every deposit
/// and withdrawal that went through its amount and where it stands.
///
/// An account that is locked stays locked: no deposit or withdrawal is taken
/// after that.
pub struct Client {
    records: HashMap<u32, TxRecord>,
    balances: Balances,
}

impl View for Client {
    type V = Ledger;

    closed spec fn view(&self) -> Ledger {
        Ledger {
            available: self.balances.available@,
            held: self.balances.held@,
            total: self.balances.total@,
            locked: self.balances.locked,
            records: self.records@.map_values(|r: TxRecord| r@),
        }
    }
}

fn bool_str(b: bool) -> (s: &'static str)
    ensures
        s@ == bool_text(b),
{
    if b {
        "true"
    } else {
        "false"
    }
}

impl Default for Client {
    /// An account with nothing in it, unlocked.
    fn default() -> (c: Client)
        ensures
            c@ == Ledger::fresh(),
            c@.balanced(),
    {
        let zero = Amount::zero();
        let c = Client {
            records: HashMap::new(),
            balances: Balances { available: zero, held: zero, total: zero, locked: false },
        };
        assert(c@.records =~= Map::empty());
        c
    }
}

impl Client {
    /// What the client can withdraw.
    pub fn available(&self) -> (a: Amount)
        ensures
            a@ == self@.available,
            self@.balanced(),
    {
        proof {
            use_type_invariant(&self.balances);
        }
        self.balances.available
    }

    /// What is held back while disputes last.
    pub fn held(&self) -> (a: Amount)
        ensures
            a@ == self@.held,
            self@.balanced(),
    {
        proof {
            use_type_invariant(&self.balances);
        }
        self.balances.held
    }

    /// The total.
    pub fn total(&self) -> (a: Amount)
        ensures
            a@ == self@.total,
            self@.balanced(),
    {
        proof {
            use_type_invariant(&self.balances);
        }
        self.balances.total
    }

    /// Whether the account is locked.
    pub fn locked(&self) -> (b: bool)
        ensures
            b == self@.locked,
    {
        self.balances.locked
    }

    /// Where the transaction `tx` stands, if it was recorded.
    pub fn state_of(&self, tx: u32) -> (s: Option<TxState>)
        ensures
            match s {
                Some(state) => self@.records.contains_key(tx) && self@.records[tx].state == state,
                None => !self@.records.contains_key(tx),
            },
    {
        broadcast use group_hash_axioms;

        match self.records.get(&tx) {
            Some(record) => Some(record.state),
            None => None,
        }
    }

    /// The amount of the transaction `tx`, if it was recorded.
    pub fn amount_of(&self, tx: u32) -> (a: Option<Amount>)
        ensures
            match a {
                Some(amount) => self@.records.contains_key(tx) && self@.records[tx].amount
                    == amount@,
                None => !self@.records.contains_key(tx),
            },
    {
        broadcast use group_hash_axioms;

        match self.records.get(&tx) {
            Some(record) => Some(record.amount),
            None => None,
        }
    }

    /// Records `tx` as an unsettled transaction of `amount`, so that a later
    /// dispute finds it.
    pub fn add_record(&mut self, tx: u32, amount: Amount) -> (r: Result<(), ApplyError>)
        ensures
            r == Ok::<(), ApplyError>(()),
            final(self)@ == old(self)@.recorded(tx, amount@),
            final(self)@.balanced(),
    {
        proof {
            use_type_invariant(&self.balances);
        }
        self.put(tx, amount, TxState::Unsettled);
        Ok(())
    }

    fn put(&mut self, tx: u32, amount: Amount, state: TxState)
        ensures
            final(self)@ == (Ledger {
                records: old(self)@.records.insert(tx, Entry { amount: amount@, state }),
                ..old(self)@
            }),
    {
        broadcast use group_hash_axioms;

        self.records.insert(tx, TxRecord { amount, state });
        assert(self@.records =~= old(self)@.records.insert(tx, Entry { amount: amount@, state }));
    }

    /// Pays `amount` in.
    pub fn deposit(&mut self, amount: Amount) -> (r: Result<(), ApplyError>)
        ensures
            follows(old(self)@, final(self)@, r, old(self)@.deposited(amount@)),
            final(self)@.balanced(),
    {
        proof {
            use_type_invariant(&self.balances);
        }
        let now = self.balances;
        if now.locked {
            return Err(ApplyError::AccountLocked);
        }
        match (now.available.checked_add(&amount), now.total.checked_add(&amount)) {
            (Some(available), Some(total)) => {
                self.balances = Balances { available, total, ..now };
                Ok(())
            },
            _ => Err(ApplyError::Overflow),
        }
    }

    /// Pays `amount` out, where that much is available.
    pub fn withdrawal(&mut self, amount: Amount) -> (r: Result<(), ApplyError>)
        ensures
            follows(old(self)@, final(self)@, r, old(self)@.withdrawn(amount@)),
            final(self)@.balanced(),
    {
        proof {
            use_type_invariant(&self.balances);
        }
        let now = self.balances;
        if now.locked {
            return Err(ApplyError::AccountLocked);
        }
        if !now.available.at_least(&amount) {
            return Err(ApplyError::InsufficientFunds);
        }
        match (now.available.checked_sub(&amount), now.total.checked_sub(&amount)) {
            (Some(available), Some(total)) => {
                self.balances = Balances { available, total, ..now };
                Ok(())
            },
            _ => Err(ApplyError::Overflow),
        }
    }

    /// Puts the transaction `tx` under dispute.
    pub fn dispute(&mut self, tx: u32) -> (r: Result<(), ApplyError>)
        ensures
            follows(old(self)@, final(self)@, r, old(self)@.disputed(tx)),
            final(self)@.balanced(),
    {
        proof {
            use_type_invariant(&self.balances);
        }
        let (amount, state) = match self.lookup(tx) {
            Some(found) => found,
            None => {
                return Err(ApplyError::UnknownTransaction);
            },
        };
        match state {
            TxState::Disputed => {
                return Err(ApplyError::AlreadyDisputed);
            },
            TxState::ChargedBack => {
                return Err(ApplyError::AlreadyChargedBack);
            },
            TxState::Unsettled => {},
        }
        let now = self.balances;
        match (now.available.checked_sub(&amount), now.held.checked_add(&amount)) {
            (Some(available), Some(held)) => {
                self.balances = Balances { available, held, ..now };
                self.put(tx, amount, TxState::Disputed);
                Ok(())
            },
            _ => Err(ApplyError::Overflow),
        }
    }

    /// Ends the dispute of `tx` in the client's favour.
    pub fn resolve(&mut self, tx: u32) -> (r: Result<(), ApplyError>)
        ensures
            follows(old(self)@, final(self)@, r, old(self)@.resolved(tx)),
            final(self)@.balanced(),
    {
        proof {
            use_type_invariant(&self.balances);
        }
        let (amount, state) = match self.lookup(tx) {
            Some(found) => found,
            None => {
                return Err(ApplyError::UnknownTransaction);
            },
        };
        match state {
            TxState::Disputed => {},
            _ => {
                return Err(ApplyError::NotDisputed);
            },
        }
        let now = self.balances;
        match (now.available.checked_add(&amount), now.held.checked_sub(&amount)) {
            (Some(available), Some(held)) => {
                self.balances = Balances { available, held, ..now };
                self.put(tx, amount, TxState::Unsettled);
                Ok(())
            },
            _ => Err(ApplyError::Overflow),
        }
    }

    /// Ends the dispute of `tx` against the client, and locks the account.
    pub fn chargeback(&mut self, tx: u32) -> (r: Result<(), ApplyError>)
        ensures
            follows(old(self)@, final(self)@, r, old(self)@.charged_back(tx)),
            final(self)@.balanced(),
    {
        proof {
            use_type_invariant(&self.balances);
        }
        let (amount, state) = match self.lookup(tx) {
            Some(found) => found,
            None => {
                return Err(ApplyError::UnknownTransaction);
            },
        };
        match state {
            TxState::Disputed => {},
            _ => {
                return Err(ApplyError::NotDisputed);
            },
        }
        let now = self.balances;
        match (now.held.checked_sub(&amount), now.total.checked_sub(&amount)) {
            (Some(held), Some(total)) => {
                self.balances = Balances { held, total, locked: true, ..now };
                self.put(tx, amount, TxState::ChargedBack);
                Ok(())
            },
            _ => Err(ApplyError::Overflow),
        }
    }

    /// The balances and the lock as one row of the final report. Each
    /// balance is written with exactly four fractional digits.
    pub fn row_text(&self) -> (s: String)
        ensures
            s@ == self@.row(),
            ends_in_places(self@.available.fixed_text(PLACES as nat), PLACES as nat),
            ends_in_places(self@.held.fixed_text(PLACES as nat), PLACES as nat),
            ends_in_places(self@.total.fixed_text(PLACES as nat), PLACES as nat),
    {
        let now = self.balances;
        let mut s = now.available.fixed_text(PLACES);
        s.append(", ");
        s.append(now.held.fixed_text(PLACES).as_str());
        s.append(", ");
        s.append(now.total.fixed_text(PLACES).as_str());
        s.append(", ");
        s.append(bool_str(now.locked));
        s
    }

    /// The balances and the lock as one line for a log.
    pub fn debug_text(&self) -> (s: String)
        ensures
            s@ == self@.description(),
    {
        let now = self.balances;
        let mut s = String::from_str("Client { available: ");
        s.append(now.available.round_dp(PLACES).text().as_str());
        s.append("  held: ");
        s.append(now.held.round_dp(PLACES).text().as_str());
        s.append("  total: ");
        s.append(now.total.round_dp(PLACES).text().as_str());
        s.append("  locked: ");
        s.append(bool_str(now.locked));
        s.append(" }");
        s
    }

    fn lookup(&self, tx: u32) -> (found: Option<(Amount, TxState)>)
        ensures
            match found {
                Some(p) => self@.records.contains_key(tx) && self@.records[tx] == (Entry {
                    amount: p.0@,
                    state: p.1,
                }),
                None => !self@.records.contains_key(tx),
            },
    {
        broadcast use group_hash_axioms;

        match self.records.get(&tx) {
            Some(record) => Some((record.amount, record.state)),
            None => None,
        }
    }

    /// Applies one transaction to the account. A transaction that is turned
    /// down leaves the account as it was.
    pub fn transact(&mut self, transaction: Transaction) -> (r: Result<(), ApplyError>)
        ensures
            follows(old(self)@, final(self)@, r, old(self)@.applied(transaction@)),
            final(self)@.balanced(),
    {
        proof {
            use_type_invariant(&self.balances);
        }
        match transaction.trans {
            TransType::Deposit => {
                if self.balances.locked {
                    return Err(ApplyError::AccountLocked);
                }
                match transaction.amount {
                    Some(amount) => {
                        match self.deposit(amount) {
                            Ok(()) => self.add_record(transaction.tx, amount),
                            Err(e) => Err(e),
                        }
                    },
                    None => Err(ApplyError::MissingAmount),
                }
            },
            TransType::Withdrawal => {
                if self.balances.locked {
                    return Err(ApplyError::AccountLocked);
                }
                match transaction.amount {
                    Some(amount) => {
                        match self.withdrawal(amount) {
                            Ok(()) => self.add_record(transaction.tx, amount),
                            Err(e) => Err(e),
                        }
                    },
                    None => Err(ApplyError::MissingAmount),
                }
            },
            TransType::Dispute => self.dispute(transaction.tx),
            TransType::Resolve => self.resolve(transaction.tx),
            TransType::Chargeback => self.chargeback(transaction.tx),
        }
    }
}

} // verus!
