//! The manager: owner of the state database and the blackhole account, and
//! the dispatcher that drives the two-phase actuator protocol.

use vstd::prelude::*;

use crate::account::{
    spec_apu_apply, spec_apu_validate, spec_au_apply, spec_au_validate,
    AccountPermissionUpdateContract, AccountUpdateContract,
};
use crate::address::{spec_is_valid_address, Address};
use crate::context::{TransactionContext, TransactionResult};
use crate::errors::Error;
use crate::state_db::{Account, StateDb};

verus! {

/// A plain value transfer; routed through the manager but handled by an
/// actuator family outside this core, so dispatch rejects it as unsupported.
pub struct TransferContract {
    pub owner_address: Vec<u8>,
    pub to_address: Vec<u8>,
    pub amount: i64,
}

/// Mathematical form of a transfer contract.
#[verifier::ext_equal]
pub ghost struct TransferContractV {
    pub owner_address: Seq<u8>,
    pub to_address: Seq<u8>,
    pub amount: int,
}

impl View for TransferContract {
    type V = TransferContractV;

    open spec fn view(&self) -> TransferContractV {
        TransferContractV {
            owner_address: self.owner_address@,
            to_address: self.to_address@,
            amount: self.amount as int,
        }
    }
}

/// The tagged union of contract variants the manager routes.
pub enum ContractPb {
    AccountUpdate(AccountUpdateContract),
    AccountPermissionUpdate(AccountPermissionUpdateContract),
    Transfer(TransferContract),
}

/// Mathematical form of the contract union.
pub ghost enum ContractPbV {
    AccountUpdate(crate::account::AccountUpdateContractV),
    AccountPermissionUpdate(crate::account::AccountPermissionUpdateContractV),
    Transfer(TransferContractV),
}

impl View for ContractPb {
    type V = ContractPbV;

    open spec fn view(&self) -> ContractPbV {
        match self {
            ContractPb::AccountUpdate(c) => ContractPbV::AccountUpdate(c@),
            ContractPb::AccountPermissionUpdate(c) => ContractPbV::AccountPermissionUpdate(c@),
            ContractPb::Transfer(c) => ContractPbV::Transfer(c@),
        }
    }
}

/// Owner of the state database for the duration of a block, and of the
/// distinguished blackhole account that accumulates consumed fees.
pub struct Manager {
    pub state_db: StateDb,
    pub blackhole: Address,
}

impl Manager {
    /// The address of the blackhole account.
    pub open spec fn spec_blackhole(self) -> Seq<u8> {
        self.blackhole@
    }

    /// A well-formed manager: well-formed state, and a blackhole account that
    /// exists in it.
    pub open spec fn wf(self) -> bool {
        &&& self.state_db@.wf()
        &&& spec_is_valid_address(self.spec_blackhole())
        &&& self.state_db@.has_account(self.spec_blackhole())
    }

    /// Builds a manager over a state database with the given blackhole
    /// address.
    pub fn new(state_db: StateDb, blackhole: Address) -> (r: Manager)
        ensures
            r.state_db@ == state_db@,
            r.spec_blackhole() == blackhole@,
    {
        Manager { state_db, blackhole }
    }

    /// The blackhole address.
    pub fn blackhole_address(&self) -> (r: &Address)
        ensures
            r@ == self.spec_blackhole(),
    {
        &self.blackhole
    }

    /// Credits the blackhole sink with consumed fees.  The credit fails only
    /// when the sink's balance cannot take it without overflowing.
    pub fn add_to_blackhole(&mut self, amount: i64) -> (r: Result<(), Error>)
        requires
            old(self).state_db@.wf_keys(),
            old(self).state_db@.has_account(old(self).spec_blackhole()),
            spec_is_valid_address(old(self).spec_blackhole()),
            old(self).state_db@.account_of(old(self).spec_blackhole()).balance >= 0,
            amount >= 0,
        ensures
            final(self).spec_blackhole() == old(self).spec_blackhole(),
            final(self).state_db@.wf_keys(),
            final(self).state_db@.witnesses == old(self).state_db@.witnesses,
            final(self).state_db@.allow_update_account_name == old(
                self,
            ).state_db@.allow_update_account_name,
            final(self).state_db@.allow_multisig == old(self).state_db@.allow_multisig,
            final(self).state_db@.account_permission_update_fee == old(
                self,
            ).state_db@.account_permission_update_fee,
            ({
                let db = old(self).state_db@;
                let bh = old(self).spec_blackhole();
                let idx = db.account_index(bh);
                let credited = db.account_of(bh).balance + amount;
                &&& (r is Ok <==> credited <= i64::MAX)
                &&& r is Ok ==> final(self).state_db@.accounts == db.accounts.update(
                    idx,
                    (
                        bh,
                        crate::state_db::AccountV {
                            balance: credited,
                            ..db.accounts[idx].1
                        },
                    ),
                )
                &&& r is Err ==> final(self).state_db@.accounts == db.accounts && r == Err::<
                    (),
                    Error,
                >(Error::MathOverflow)
            }),
    {
        proof {
            crate::state_db::lemma_account_index(old(self).state_db@, old(self).spec_blackhole());
        }
        let mut acct: Account = self.state_db.must_get_account(&self.blackhole);
        match acct.balance.checked_add(amount) {
            Some(credited) => {
                acct.balance = credited;
                self.state_db.put_account(&self.blackhole, acct);
                Ok(())
            },
            None => Err(Error::MathOverflow),
        }
    }

    /// Routes one contract to its actuator, driving the two-phase protocol:
    /// `validate` against a read-only view of state, then `execute`.  A
    /// rejected contract leaves the state exactly as it was; the verdict and
    /// the final state are pinned for every variant.
    pub fn process_contract(&mut self, contract: &ContractPb, ctx: &mut TransactionContext) -> (r:
        Result<TransactionResult, Error>)
        requires
            old(self).wf(),
        ensures
            final(self).wf(),
            final(self).spec_blackhole() == old(self).spec_blackhole(),
            r is Err ==> final(self).state_db@ == old(self).state_db@,
            r is Ok ==> r.unwrap().success,
            ({
                let db = old(self).state_db@;
                let bh = old(self).spec_blackhole();
                match contract@ {
                    ContractPbV::AccountUpdate(c) => {
                        &&& r == match spec_au_validate(c, db) {
                            Err(e) => Err(e),
                            Ok(_) => Ok::<TransactionResult, Error>(
                                TransactionResult { success: true },
                            ),
                        }
                        &&& r is Ok ==> final(self).state_db@ == spec_au_apply(c, db)
                        &&& *final(ctx) == *old(ctx)
                    },
                    ContractPbV::AccountPermissionUpdate(c) => {
                        let v = spec_apu_validate(c, db);
                        let fee = db.account_permission_update_fee;
                        let credit_ok = fee == 0 || db.account_of(bh).balance + fee <= i64::MAX;
                        &&& v is Err ==> r == Err::<TransactionResult, Error>(v.unwrap_err())
                            && *final(ctx) == *old(ctx)
                        &&& v is Ok && !credit_ok ==> r == Err::<TransactionResult, Error>(
                            Error::MathOverflow,
                        ) && final(ctx).contract_fee as int == fee
                        &&& v is Ok && credit_ok ==> r == Ok::<TransactionResult, Error>(
                            TransactionResult { success: true },
                        ) && final(self).state_db@ == spec_apu_apply(c, db, bh)
                            && final(ctx).contract_fee as int == fee
                    },
                    ContractPbV::Transfer(_) => {
                        &&& r == Err::<TransactionResult, Error>(Error::UnsupportedContract)
                        &&& *final(ctx) == *old(ctx)
                    },
                }
            }),
    {
        match contract {
            ContractPb::AccountUpdate(c) => {
                match c.validate(self, ctx) {
                    Err(e) => Err(e),
                    Ok(_) => c.execute(self, ctx),
                }
            },
            ContractPb::AccountPermissionUpdate(c) => {
                match c.validate(self, ctx) {
                    Err(e) => Err(e),
                    Ok(_) => c.execute(self, ctx),
                }
            },
            ContractPb::Transfer(_) => Err(Error::UnsupportedContract),
        }
    }
}

} // verus!
