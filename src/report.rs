use crate::datatypes::Client;
use vstd::prelude::*;

verus! {

/// Number of amount units in one ten-thousandth of currency, the step of
/// reported balances.
pub const REPORT_STEP: u64 = 10_000;

/// `v` amount units rounded to the nearest ten-thousandth of currency,
/// halves away from zero; the result counts ten-thousandths.
pub open spec fn rounded(v: int) -> int {
    if v >= 0 {
        (v + REPORT_STEP / 2) / REPORT_STEP as int
    } else {
        -((-v + REPORT_STEP / 2) / REPORT_STEP as int)
    }
}

/// The final record of an account, with balances in ten-thousandths of
/// currency.
#[derive(Debug, Clone, Copy)]
pub struct AccountReport {
    pub client: u16,
    pub available: i64,
    pub held: i64,
    pub total: i64,
    pub locked: bool,
}

/// Rounds a balance of `v` amount units to ten-thousandths of currency,
/// halves away from zero.
pub fn round_to_report(v: i64) -> (r: i64)
    ensures
        r == rounded(v as int),
{
    let magnitude: u64 = if v >= 0 {
        v as u64
    } else {
        (-(v + 1)) as u64 + 1
    };
    let q: u64 = (magnitude + REPORT_STEP / 2) / REPORT_STEP;
    if v >= 0 {
        q as i64
    } else {
        -(q as i64)
    }
}

impl Client {
    /// The account as reported at the end of a run: its balances rounded to
    /// ten-thousandths of currency.
    pub fn report(&self) -> (r: AccountReport)
        ensures
            r.client == self.client,
            r.available == rounded(self.available as int),
            r.held == rounded(self.held as int),
            r.total == rounded(self.total as int),
            r.locked == self.locked,
    {
        AccountReport {
            client: self.client,
            available: round_to_report(self.available),
            held: round_to_report(self.held),
            total: round_to_report(self.total),
            locked: self.locked,
        }
    }
}

} // verus!
