//! The transaction records that the ledger is made of.

use std::collections::HashMap;
use vstd::prelude::*;

verus! {

/// The ledger index: bookings by transaction identifier.
pub type RecordMap = HashMap<u32, Record>;

/// The ledger in the order in which it arrived.
pub type RecordVec = Vec<Record>;

/// What a record asks for.
#[derive(Clone, Copy, Debug, PartialEq, Eq, Structural)]
pub enum Type {
    DEPOSIT,
    WITHDRAWAL,
    DISPUTE,
    RESOLVE,
    CHARGEBACK,
}

/// Where a deposit or withdrawal stands in the dispute process.
#[derive(Clone, Copy, Debug, PartialEq, Eq, Structural)]
pub enum Status {
    NONE,
    DISPUTED,
    RESOLVED,
    CHARGEBACKED,
}

/// One line of the ledger.
///
/// `amount` is counted in the smallest unit of the currency. Deposits and
/// withdrawals carry one; a dispute, resolve or chargeback carries none and
/// names in `tx` the deposit or withdrawal it refers to.
#[derive(Clone, Copy, Debug, PartialEq, Eq)]
pub struct Record {
    pub kind: Type,
    pub client: u16,
    pub tx: u32,
    pub amount: Option<i64>,
    pub status: Option<Status>,
}

impl Type {
    /// Deposits and withdrawals move money by themselves and are kept in the index.
    pub open spec fn is_booking(self) -> bool {
        self == Type::DEPOSIT || self == Type::WITHDRAWAL
    }

    /// Disputes, resolves and chargebacks act on an earlier booking.
    pub open spec fn is_dispute_family(self) -> bool {
        self == Type::DISPUTE || self == Type::RESOLVE || self == Type::CHARGEBACK
    }
}

impl Record {
    /// The amount as a mathematical integer, zero where there is none.
    pub open spec fn amount_or_zero(self) -> int {
        match self.amount {
            Some(amount) => amount as int,
            None => 0,
        }
    }

    /// Whether the index marks this booking as under dispute.
    pub open spec fn is_disputed(self) -> bool {
        self.status == Some(Status::DISPUTED)
    }
}

} // verus!
