//! The accounts of all clients, by client id.

use crate::client::Client;
use crate::ledger::Ledger;
use crate::transaction::{ApplyError, Instruction, Transaction};
use std::collections::HashMap;
use vstd::prelude::*;
use vstd::std_specs::hash::*;
use vstd::std_specs::iter::IteratorSpec;

verus! {

/// The ledger that `ledgers` holds for the client `id`: a fresh one where
/// the client has not been heard of.
pub open spec fn ledger_of(ledgers: Map<u16, Ledger>, id: u16) -> Ledger {
    if ledgers.contains_key(id) {
        ledgers[id]
    } else {
        Ledger::fresh()
    }
}

/// What a caller is told of a transaction: nothing where it went through,
/// the reason where it was turned down.
pub open spec fn verdict(rule: Result<Ledger, ApplyError>) -> Result<(), ApplyError> {
    match rule {
        Ok(_) => Ok(()),
        Err(e) => Err(e),
    }
}

/// The ledgers after a transaction was routed to its client.
pub open spec fn routed(ledgers: Map<u16, Ledger>, t: Instruction) -> Map<u16, Ledger> {
    ledgers.insert(t.client, ledger_of(ledgers, t.client).after(t))
}

/// One account for every client that a transaction has named so far.
pub struct Registry {
    clients: HashMap<u16, Client>,
}

impl View for Registry {
    type V = Map<u16, Ledger>;

    closed spec fn view(&self) -> Map<u16, Ledger> {
        self.clients@.map_values(|c: Client| c@)
    }
}

impl Registry {
    /// A registry without clients.
    pub fn new() -> (r: Registry)
        ensures
            r@ == Map::<u16, Ledger>::empty(),
    {
        let r = Registry { clients: HashMap::new() };
        assert(r@ =~= Map::<u16, Ledger>::empty());
        r
    }

    /// Hands a transaction to the account of its client, which is opened
    /// first where the client is new. The account stays in the registry
    /// whether the transaction goes through or not.
    pub fn route(&mut self, transaction: Transaction) -> (r: Result<(), ApplyError>)
        ensures
            final(self)@ == routed(old(self)@, transaction@),
            r == verdict(ledger_of(old(self)@, transaction.client).applied(transaction@)),
    {
        broadcast use group_hash_axioms;

        let id = transaction.client;
        let mut client = match self.clients.remove(&id) {
            Some(known) => known,
            None => Client::default(),
        };
        let r = client.transact(transaction);
        self.clients.insert(id, client);
        assert(self@ =~= routed(old(self)@, transaction@));
        r
    }

    /// The account of the client `id`, if there is one.
    pub fn get(&self, id: u16) -> (c: Option<&Client>)
        ensures
            match c {
                Some(client) => self@.contains_key(id) && self@[id] == client@,
                None => !self@.contains_key(id),
            },
    {
        broadcast use group_hash_axioms;

        self.clients.get(&id)
    }

    /// The number of clients.
    pub fn len(&self) -> (n: usize)
        ensures
            n == self@.len(),
    {
        broadcast use group_hash_axioms;

        assert(self@.dom() =~= self.clients@.dom());
        self.clients.len()
    }

    /// The ids of all clients, each once, in no particular order.
    pub fn client_ids(&self) -> (ids: Vec<u16>)
        ensures
            ids@.no_duplicates(),
            ids@.to_set() == self@.dom(),
    {
        broadcast use group_hash_axioms;

        let mut ids: Vec<u16> = Vec::new();
        let keys = self.clients.keys();
        let ghost all: Seq<u16> = keys.remaining().unref();
        for id in it: keys
            invariant
                it.seq().unref() == all,
                0 <= it.index() <= all.len(),
                ids@ == all.take(it.index()),
        {
            ids.push(*id);
        }
        assert(ids@ =~= all);
        assert(self@.dom() =~= self.clients@.dom());
        ids
    }
}

} // verus!
