use crate::datatypes::{fresh_client, Client, Transaction, TransactionType};
use crate::ring_buffer::{find_by_id, keep_last, RingBuffer};
use std::collections::HashMap;
use vstd::prelude::*;

verus! {

broadcast use vstd::std_specs::hash::group_hash_axioms;

/// Why a transaction was rejected.
#[derive(Debug, PartialEq, Eq, Structural, Clone, Copy)]
pub enum TransactionError {
    /// A deposit or withdrawal without an amount, or a disputed transaction
    /// that carries none.
    MissingAmount,
    /// A withdrawal larger than the available funds.
    InsufficientFunds,
    /// A dispute of an id that the lookback buffer does not hold.
    UnknownTransaction,
    /// A dispute of a transaction that is neither a deposit nor a withdrawal.
    InvalidDisputeTarget,
    /// A resolve or chargeback of an id that is not under dispute.
    UnknownDispute,
    /// The account of a disputed transaction does not exist.
    UnknownAccount,
    /// A balance would leave the range of `i64`.
    BalanceOverflow,
}

/// The account `id` of the ledger, or a fresh one if it has none.
pub open spec fn account_of(clients: Map<u16, Client>, id: u16) -> Client {
    if clients.contains_key(id) {
        clients[id]
    } else {
        fresh_client(id)
    }
}

/// Whether `v` fits in an `i64`.
pub open spec fn fits(v: int) -> bool {
    i64::MIN <= v <= i64::MAX
}

/// What processing `tx` does: the result, then the new ledger, lookback
/// buffer contents and registry of disputed transactions, given the old ones
/// and the buffer's capacity.
pub open spec fn process_spec(
    tx: Transaction,
    clients: Map<u16, Client>,
    buffer: Seq<Transaction>,
    cap: nat,
    held: Map<u32, Transaction>,
) -> (Result<(), TransactionError>, Map<u16, Client>, Seq<Transaction>, Map<u32, Transaction>) {
    match tx.tx_type {
        TransactionType::Deposit => {
            let c = account_of(clients, tx.client);
            match tx.amount {
                None => (Err(TransactionError::MissingAmount), clients, buffer, held),
                Some(a) => if !fits(c.available + a) || !fits(c.total + a) {
                    (Err(TransactionError::BalanceOverflow), clients, buffer, held)
                } else {
                    let n = Client {
                        available: (c.available + a) as i64,
                        total: (c.total + a) as i64,
                        ..c
                    };
                    (Ok(()), clients.insert(tx.client, n), keep_last(buffer.push(tx), cap), held)
                },
            }
        },
        TransactionType::Withdrawal => {
            let c = account_of(clients, tx.client);
            match tx.amount {
                None => (Err(TransactionError::MissingAmount), clients, buffer, held),
                Some(a) => if c.available < a {
                    (Err(TransactionError::InsufficientFunds), clients, buffer, held)
                } else if !fits(c.total - a) {
                    (Err(TransactionError::BalanceOverflow), clients, buffer, held)
                } else {
                    let n = Client {
                        available: (c.available - a) as i64,
                        total: (c.total - a) as i64,
                        ..c
                    };
                    (Ok(()), clients.insert(tx.client, n), keep_last(buffer.push(tx), cap), held)
                },
            }
        },
        TransactionType::Dispute => match find_by_id(buffer, tx.id) {
            None => (Err(TransactionError::UnknownTransaction), clients, buffer, held),
            Some(d) => if !clients.contains_key(d.client) {
                (Err(TransactionError::UnknownAccount), clients, buffer, held)
            } else if !(d.tx_type == TransactionType::Deposit || d.tx_type
                == TransactionType::Withdrawal) {
                (Err(TransactionError::InvalidDisputeTarget), clients, buffer, held)
            } else {
                let c = clients[d.client];
                match d.amount {
                    None => (Err(TransactionError::MissingAmount), clients, buffer, held),
                    Some(a) => if !fits(c.available - a) || !fits(c.held + a) {
                        (Err(TransactionError::BalanceOverflow), clients, buffer, held)
                    } else {
                        let n = Client {
                            available: (c.available - a) as i64,
                            held: (c.held + a) as i64,
                            ..c
                        };
                        (Ok(()), clients.insert(d.client, n), buffer, held.insert(tx.id, d))
                    },
                }
            },
        },
        TransactionType::Resolve => if !held.contains_key(tx.id) {
            (Err(TransactionError::UnknownDispute), clients, buffer, held)
        } else {
            let d = held[tx.id];
            if !clients.contains_key(d.client) {
                (Err(TransactionError::UnknownAccount), clients, buffer, held)
            } else {
                let c = clients[d.client];
                match d.amount {
                    None => (Err(TransactionError::MissingAmount), clients, buffer, held),
                    Some(a) => if !fits(c.held - a) || !fits(c.available + a) {
                        (Err(TransactionError::BalanceOverflow), clients, buffer, held)
                    } else {
                        let n = Client {
                            available: (c.available + a) as i64,
                            held: (c.held - a) as i64,
                            ..c
                        };
                        (Ok(()), clients.insert(d.client, n), buffer, held.remove(tx.id))
                    },
                }
            }
        },
        TransactionType::Chargeback => if !held.contains_key(tx.id) {
            (Err(TransactionError::UnknownDispute), clients, buffer, held)
        } else {
            let d = held[tx.id];
            if !clients.contains_key(d.client) {
                (Err(TransactionError::UnknownAccount), clients, buffer, held)
            } else {
                let c = clients[d.client];
                match d.amount {
                    None => (Err(TransactionError::MissingAmount), clients, buffer, held),
                    Some(a) => if !fits(c.held - a) || !fits(c.total - a) {
                        (Err(TransactionError::BalanceOverflow), clients, buffer, held)
                    } else {
                        let n = Client {
                            held: (c.held - a) as i64,
                            total: (c.total - a) as i64,
                            locked: true,
                            ..c
                        };
                        (Ok(()), clients.insert(d.client, n), buffer, held.remove(tx.id))
                    },
                }
            }
        },
    }
}

/// The account `id`, or a fresh one if the ledger has none.
fn account_or_new(clients: &HashMap<u16, Client>, id: u16) -> (r: Client)
    ensures
        r == account_of(clients@, id),
{
    match clients.get(&id) {
        Some(c) => *c,
        None => Client::new(id),
    }
}

/// Whether `v` fits in an `i64`.
fn fits_i64(v: i128) -> (r: bool)
    ensures
        r == fits(v as int),
{
    i64::MIN as i128 <= v && v <= i64::MAX as i128
}

/// Processes one transaction against the ledger `clients`, the lookback
/// buffer `processed_txs` and the registry `held_txs` of transactions under
/// dispute.
///
/// A rejected transaction changes nothing. A deposit or withdrawal that is
/// applied opens the account it names if it is new, and is pushed into the
/// lookback buffer.
pub fn process_transaction(
    tx: Transaction,
    clients: &mut HashMap<u16, Client>,
    processed_txs: &mut RingBuffer<Transaction>,
    held_txs: &mut HashMap<u32, Transaction>,
) -> (r: Result<(), TransactionError>)
    requires
        old(processed_txs).wf(),
    ensures
        final(processed_txs).wf(),
        final(processed_txs).capacity() == old(processed_txs).capacity(),
        (r, final(clients)@, final(processed_txs)@, final(held_txs)@) == process_spec(
            tx,
            old(clients)@,
            old(processed_txs)@,
            old(processed_txs).capacity(),
            old(held_txs)@,
        ),
{
    match tx.tx_type {
        TransactionType::Deposit => {
            let c = account_or_new(clients, tx.client);
            let a = match tx.amount {
                Some(a) => a,
                None => return Err(TransactionError::MissingAmount),
            };
            let available = c.available as i128 + a as i128;
            let total = c.total as i128 + a as i128;
            if !fits_i64(available) || !fits_i64(total) {
                return Err(TransactionError::BalanceOverflow);
            }
            let n = Client { available: available as i64, total: total as i64, ..c };
            clients.insert(tx.client, n);
            processed_txs.push(tx);
        },
        TransactionType::Withdrawal => {
            let c = account_or_new(clients, tx.client);
            let a = match tx.amount {
                Some(a) => a,
                None => return Err(TransactionError::MissingAmount),
            };
            if (c.available as i128) < a as i128 {
                return Err(TransactionError::InsufficientFunds);
            }
            let available = c.available as i128 - a as i128;
            let total = c.total as i128 - a as i128;
            if !fits_i64(total) {
                return Err(TransactionError::BalanceOverflow);
            }
            let n = Client { available: available as i64, total: total as i64, ..c };
            clients.insert(tx.client, n);
            processed_txs.push(tx);
        },
        TransactionType::Dispute => {
            let d = match processed_txs.get_by_tx(tx.id) {
                Some(d) => *d,
                None => return Err(TransactionError::UnknownTransaction),
            };
            let c = match clients.get(&d.client) {
                Some(c) => *c,
                None => return Err(TransactionError::UnknownAccount),
            };
            match d.tx_type {
                TransactionType::Deposit | TransactionType::Withdrawal => {},
                _ => return Err(TransactionError::InvalidDisputeTarget),
            }
            let a = match d.amount {
                Some(a) => a,
                None => return Err(TransactionError::MissingAmount),
            };
            let available = c.available as i128 - a as i128;
            let held = c.held as i128 + a as i128;
            if !fits_i64(available) || !fits_i64(held) {
                return Err(TransactionError::BalanceOverflow);
            }
            let n = Client { available: available as i64, held: held as i64, ..c };
            clients.insert(d.client, n);
            held_txs.insert(tx.id, d);
        },
        TransactionType::Resolve => {
            let d = match held_txs.get(&tx.id) {
                Some(d) => *d,
                None => return Err(TransactionError::UnknownDispute),
            };
            let c = match clients.get(&d.client) {
                Some(c) => *c,
                None => return Err(TransactionError::UnknownAccount),
            };
            let a = match d.amount {
                Some(a) => a,
                None => return Err(TransactionError::MissingAmount),
            };
            let held = c.held as i128 - a as i128;
            let available = c.available as i128 + a as i128;
            if !fits_i64(held) || !fits_i64(available) {
                return Err(TransactionError::BalanceOverflow);
            }
            let n = Client { available: available as i64, held: held as i64, ..c };
            clients.insert(d.client, n);
            held_txs.remove(&tx.id);
        },
        TransactionType::Chargeback => {
            let d = match held_txs.get(&tx.id) {
                Some(d) => *d,
                None => return Err(TransactionError::UnknownDispute),
            };
            let c = match clients.get(&d.client) {
                Some(c) => *c,
                None => return Err(TransactionError::UnknownAccount),
            };
            let a = match d.amount {
                Some(a) => a,
                None => return Err(TransactionError::MissingAmount),
            };
            let held = c.held as i128 - a as i128;
            let total = c.total as i128 - a as i128;
            if !fits_i64(held) || !fits_i64(total) {
                return Err(TransactionError::BalanceOverflow);
            }
            let n = Client { held: held as i64, total: total as i64, locked: true, ..c };
            clients.insert(d.client, n);
            held_txs.remove(&tx.id);
        },
    }
    Ok(())
}

} // verus!
