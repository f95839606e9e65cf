use vstd::prelude::*;

verus! {

/// The kind of a transaction.
#[derive(Debug, PartialEq, Eq, Structural, Clone, Copy)]
pub enum TransactionType {
    Deposit,
    Withdrawal,
    Dispute,
    Resolve,
    Chargeback,
}

/// One record of the input log.
///
/// For a deposit or a withdrawal, `id` names the transaction itself and
/// `amount` its value in units of `1 / AMOUNT_SCALE`; for a dispute, resolve
/// or chargeback, `id` names the transaction it refers to and `amount` is
/// absent.
#[derive(Debug, Clone, Copy)]
pub struct Transaction {
    pub tx_type: TransactionType,
    pub client: u16,
    pub id: u32,
    pub amount: Option<u64>,
}

/// The state of one account. Balances are in units of `1 / AMOUNT_SCALE`.
#[derive(Debug, Clone, Copy)]
pub struct Client {
    pub client: u16,
    pub available: i64,
    pub held: i64,
    pub total: i64,
    pub locked: bool,
}

/// A fresh account: every balance zero, not locked.
pub open spec fn fresh_client(client: u16) -> Client {
    Client { client, available: 0, held: 0, total: 0, locked: false }
}

impl Client {
    /// Its total is the sum of its available and held funds.
    pub open spec fn balanced(&self) -> bool {
        self.total == self.available + self.held
    }

    pub fn new(client: u16) -> (r: Self)
        ensures
            r == fresh_client(client),
    {
        Self { client, available: 0, held: 0, total: 0, locked: false }
    }
}

} // verus!
