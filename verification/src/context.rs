//! Per-transaction scratch state and the result written on success.

use vstd::prelude::*;

verus! {

/// Transaction-scoped mutable scratch: the fee the running contract accrues.
/// Created per incoming transaction and discarded after commit or rollback.
pub struct TransactionContext {
    pub contract_fee: i64,
}

impl TransactionContext {
    /// A fresh context with no fee accrued.
    pub fn new() -> (r: TransactionContext)
        ensures
            r.contract_fee == 0,
    {
        TransactionContext { contract_fee: 0 }
    }
}

/// The outcome a successful contract execution records.
#[derive(Debug)]
pub struct TransactionResult {
    pub success: bool,
}

impl TransactionResult {
    /// The success verdict.
    pub fn success() -> (r: TransactionResult)
        ensures
            r.success,
    {
        TransactionResult { success: true }
    }
}

} // verus!
