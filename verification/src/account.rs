//! The account actuators: name update and permission update.

use vstd::prelude::*;

use crate::address::{bytes_eq, copy_bytes, spec_is_valid_address, Address};
use crate::context::{TransactionContext, TransactionResult};
use crate::errors::Error;
use crate::manager::Manager;
use crate::permission::{
    check_permission, keys_view, spec_check_permission, Permission, PermissionType, PermissionV,
    MAX_ACCOUNT_NAME_BYTES, MAX_ACTIVE_PERMISSIONS,
};
use crate::state_db::{
    actives_view, copy_account, copy_keys, lemma_account_index, lemma_sum_balances_update,
    lemma_two_balances_le_sum, lemma_witness_index, sum_balances, Account, AccountV,
    ActivePermission, ActivePermissionV, ChainParameter, OwnerPermission, OwnerPermissionV,
    StateDbV, WitnessV,
};

verus! {

/// Sets an account's name.
pub struct AccountUpdateContract {
    pub owner_address: Vec<u8>,
    pub account_name: Vec<u8>,
}

/// Mathematical form of a name update.
#[verifier::ext_equal]
pub ghost struct AccountUpdateContractV {
    pub owner_address: Seq<u8>,
    pub account_name: Seq<u8>,
}

impl View for AccountUpdateContract {
    type V = AccountUpdateContractV;

    open spec fn view(&self) -> AccountUpdateContractV {
        AccountUpdateContractV {
            owner_address: self.owner_address@,
            account_name: self.account_name@,
        }
    }
}

/// The mathematical form of a permission sequence.
pub open spec fn permissions_view(s: Seq<Permission>) -> Seq<PermissionV> {
    s.map_values(|p: Permission| p@)
}

/// Replaces an account's owner, active and witness permissions.
pub struct AccountPermissionUpdateContract {
    pub owner_address: Vec<u8>,
    pub owner: Option<Permission>,
    pub witness: Option<Permission>,
    pub actives: Vec<Permission>,
}

/// Mathematical form of a permission update.
#[verifier::ext_equal]
pub ghost struct AccountPermissionUpdateContractV {
    pub owner_address: Seq<u8>,
    pub owner: Option<PermissionV>,
    pub witness: Option<PermissionV>,
    pub actives: Seq<PermissionV>,
}

impl View for AccountPermissionUpdateContract {
    type V = AccountPermissionUpdateContractV;

    open spec fn view(&self) -> AccountPermissionUpdateContractV {
        AccountPermissionUpdateContractV {
            owner_address: self.owner_address@,
            owner: match self.owner {
                Some(p) => Some(p@),
                None => None,
            },
            witness: match self.witness {
                Some(p) => Some(p@),
                None => None,
            },
            actives: permissions_view(self.actives@),
        }
    }
}

/// The record a deterministic scan of the account family by name hands back:
/// the record at the highest matching scan position, if any matches.
pub open spec fn spec_find_account_by_name(
    accounts: Seq<(Seq<u8>, AccountV)>,
    name: Seq<u8>,
) -> Option<AccountV>
    decreases accounts.len(),
{
    if accounts.len() == 0 {
        None
    } else if accounts.last().1.name == name {
        Some(accounts.last().1)
    } else {
        spec_find_account_by_name(accounts.drop_last(), name)
    }
}

/// The scan finds a record exactly when some account carries the name.
pub proof fn lemma_find_account_by_name_exists(accounts: Seq<(Seq<u8>, AccountV)>, name: Seq<u8>)
    ensures
        spec_find_account_by_name(accounts, name) is Some <==> exists|i: int|
            0 <= i < accounts.len() && (#[trigger] accounts[i]).1.name == name,
    decreases accounts.len(),
{
    if accounts.len() > 0 {
        lemma_find_account_by_name_exists(accounts.drop_last(), name);
        if accounts.last().1.name == name {
        } else if spec_find_account_by_name(accounts.drop_last(), name) is Some {
            let i = choose|i: int|
                0 <= i < accounts.drop_last().len() && (#[trigger] accounts.drop_last()[i]).1.name
                    == name;
            assert(accounts[i].1.name == name);
        } else {
            if exists|i: int| 0 <= i < accounts.len() && (#[trigger] accounts[i]).1.name == name {
                let i = choose|i: int|
                    0 <= i < accounts.len() && (#[trigger] accounts[i]).1.name == name;
                assert(i < accounts.len() - 1);
                assert(accounts.drop_last()[i].1.name == name);
            }
        }
    }
}

/// Finds an account in the state database by its name, scanning the whole
/// family in deterministic order.
#[verifier::loop_isolation(false)]
pub fn find_account_by_name(manager: &Manager, acct_name: &Vec<u8>) -> (r: Option<Account>)
    ensures
        r is Some <==> spec_find_account_by_name(
            manager.state_db@.accounts,
            acct_name@,
        ) is Some,
        r is Some ==> Some(r.unwrap()@) == spec_find_account_by_name(
            manager.state_db@.accounts,
            acct_name@,
        ),
{
    let ghost accounts = manager.state_db@.accounts;
    let mut found: Option<Account> = None;
    let n = manager.state_db.accounts_len();
    let mut i: usize = 0;
    while i < n
        invariant
            0 <= i <= n,
            (found is Some <==> spec_find_account_by_name(
                accounts.take(i as int),
                acct_name@,
            ) is Some),
            found is Some ==> Some(found.unwrap()@) == spec_find_account_by_name(
                accounts.take(i as int),
                acct_name@,
            ),
        decreases n - i,
    {
        let (_, value) = manager.state_db.account_at(i);
        proof {
            assert(accounts.take(i + 1 as int).drop_last() =~= accounts.take(i as int));
            assert(accounts.take(i + 1 as int).last() == accounts[i as int]);
        }
        if bytes_eq(value.name.as_slice(), acct_name.as_slice()) {
            found = Some(copy_account(value));
        }
        i += 1;
    }
    proof {
        assert(accounts.take(n as int) =~= accounts);
    }
    found
}

/// The verdict of validating a name update against the state.  The rules
/// stand in the reference order: name size, owner-address form, account
/// existence, the legacy renaming gate, and — only under that gate — global
/// name uniqueness.
pub open spec fn spec_au_validate(c: AccountUpdateContractV, db: StateDbV) -> Result<(), Error> {
    if c.account_name.len() > MAX_ACCOUNT_NAME_BYTES {
        Err(Error::InvalidAccountName)
    } else if !spec_is_valid_address(c.owner_address) {
        Err(Error::InvalidOwnerAddress)
    } else if !db.has_account(c.owner_address) {
        Err(Error::AccountNotExists)
    } else if db.account_of(c.owner_address).name.len() > 0 && db.allow_update_account_name == 0 {
        Err(Error::AccountNameAlreadyExists)
    } else if db.allow_update_account_name == 0 && spec_find_account_by_name(
        db.accounts,
        c.account_name,
    ) is Some {
        Err(Error::SameAccountNameExists)
    } else {
        Ok(())
    }
}

/// The state a successful name update leaves: the owner's record carries the
/// new name; everything else is untouched.
pub open spec fn spec_au_apply(c: AccountUpdateContractV, db: StateDbV) -> StateDbV {
    let i = db.account_index(c.owner_address);
    let acct = db.accounts[i].1;
    StateDbV {
        accounts: db.accounts.update(
            i,
            (c.owner_address, AccountV { name: c.account_name, ..acct }),
        ),
        ..db
    }
}

impl AccountUpdateContract {
    /// A name update costs nothing.
    pub fn fee(&self, _manager: &Manager) -> (r: i64)
        ensures
            r == 0,
    {
        0
    }

    /// Checks a name update against a read-only view of state.  Leaves the
    /// context untouched: a name update carries no fee.
    pub fn validate(&self, manager: &Manager, ctx: &mut TransactionContext) -> (r: Result<
        (),
        Error,
    >)
        requires
            manager.wf(),
        ensures
            r == spec_au_validate(self@, manager.state_db@),
            *final(ctx) == *old(ctx),
    {
        if self.account_name.len() > MAX_ACCOUNT_NAME_BYTES {
            return Err(Error::InvalidAccountName);
        }
        let owner_address = match Address::from_bytes(self.owner_address.as_slice()) {
            Some(a) => a,
            None => {
                return Err(Error::InvalidOwnerAddress);
            },
        };
        let acct = match manager.state_db.get_account(&owner_address) {
            Some(a) => a,
            None => {
                return Err(Error::AccountNotExists);
            },
        };
        let allow_update_account_name = manager.state_db.get_param(
            ChainParameter::AllowUpdateAccountName,
        ) != 0;
        if acct.name.len() > 0 && !allow_update_account_name {
            return Err(Error::AccountNameAlreadyExists);
        }
        if !allow_update_account_name && find_account_by_name(manager, &self.account_name).is_some()
        {
            return Err(Error::SameAccountNameExists);
        }
        Ok(())
    }

    /// Applies a validated name update: loads the account, sets the name,
    /// persists.
    pub fn execute(&self, manager: &mut Manager, ctx: &mut TransactionContext) -> (r: Result<
        TransactionResult,
        Error,
    >)
        requires
            old(manager).wf(),
            spec_au_validate(self@, old(manager).state_db@) is Ok,
        ensures
            r is Ok && r.unwrap().success,
            final(manager).state_db@ == spec_au_apply(self@, old(manager).state_db@),
            final(manager).spec_blackhole() == old(manager).spec_blackhole(),
            final(manager).wf(),
            *final(ctx) == *old(ctx),
    {
        let ghost db = old(manager).state_db@;
        proof {
            lemma_account_index(db, self.owner_address@);
        }
        let owner_address = Address::from_bytes(self.owner_address.as_slice()).unwrap();
        let mut owner_acct = manager.state_db.must_get_account(&owner_address);
        owner_acct.name = copy_bytes(&self.account_name);
        manager.state_db.put_account(&owner_address, owner_acct);
        proof {
            let i = db.account_index(self.owner_address@);
            assert(final(manager).state_db@ =~= spec_au_apply(self@, db));
            lemma_sum_balances_update(
                db.accounts,
                i,
                (self.owner_address@, AccountV { name: self.account_name@, ..db.accounts[i].1 }),
            );
            assert(final(manager).state_db@.wf_keys());
            assert(final(manager).state_db@.wf_balances());
            let bh = old(manager).spec_blackhole();
            let k = choose|k: int| 0 <= k < db.accounts.len() && db.accounts[k].0 == bh;
            assert(final(manager).state_db@.accounts[k].0 == bh);
            assert(final(manager).state_db@.has_account(bh));
        }
        Ok(TransactionResult::success())
    }
}

/// The verdict of checking the active permissions from index `i` on: the
/// first rejection wins.
pub open spec fn spec_apu_check_actives(actives: Seq<PermissionV>, i: int) -> Result<(), Error>
    decreases actives.len() - i,
{
    if !(0 <= i < actives.len()) {
        Ok(())
    } else {
        match spec_check_permission(actives[i], PermissionType::Active) {
            Err(e) => Err(e),
            Ok(_) => spec_apu_check_actives(actives, i + 1),
        }
    }
}

/// The verdict of validating a permission update against the state, rule by
/// rule in the reference order: the multisig gate, owner-address form,
/// account existence, presence of the owner permission, the witness
/// permission (required, checked, or refused depending on whether the account
/// is a witness), the active-permission count, the owner and active
/// descriptors themselves, and finally fee sufficiency.
pub open spec fn spec_apu_validate(
    c: AccountPermissionUpdateContractV,
    db: StateDbV,
) -> Result<(), Error> {
    if db.allow_multisig == 0 {
        Err(Error::MultisigDisabled)
    } else if !spec_is_valid_address(c.owner_address) {
        Err(Error::InvalidOwnerAddress)
    } else if !db.has_account(c.owner_address) {
        Err(Error::AccountNotExists)
    } else if c.owner is None {
        Err(Error::MissingOwnerPermission)
    } else if db.has_witness(c.owner_address) && c.witness is None {
        Err(Error::MissingWitnessPermission)
    } else if db.has_witness(c.owner_address) && spec_check_permission(
        c.witness.unwrap(),
        PermissionType::Witness,
    ) is Err {
        spec_check_permission(c.witness.unwrap(), PermissionType::Witness)
    } else if !db.has_witness(c.owner_address) && c.witness is Some {
        Err(Error::NotAWitness)
    } else if c.actives.len() == 0 {
        Err(Error::MissingActivePermissions)
    } else if c.actives.len() > MAX_ACTIVE_PERMISSIONS {
        Err(Error::TooManyActivePermissions)
    } else if spec_check_permission(c.owner.unwrap(), PermissionType::Owner) is Err {
        spec_check_permission(c.owner.unwrap(), PermissionType::Owner)
    } else if spec_apu_check_actives(c.actives, 0) is Err {
        spec_apu_check_actives(c.actives, 0)
    } else if db.account_of(c.owner_address).balance < db.account_permission_update_fee {
        Err(Error::InsufficientBalance)
    } else {
        Ok(())
    }
}

/// What a successful validation guarantees, spelled out for the execute
/// phase and for callers.
pub proof fn lemma_apu_validate_ok(c: AccountPermissionUpdateContractV, db: StateDbV)
    requires
        spec_apu_validate(c, db) is Ok,
    ensures
        db.allow_multisig != 0,
        spec_is_valid_address(c.owner_address),
        db.has_account(c.owner_address),
        c.owner is Some,
        db.has_witness(c.owner_address) <==> c.witness is Some,
        c.witness is Some ==> spec_check_permission(
            c.witness.unwrap(),
            PermissionType::Witness,
        ) is Ok,
        0 < c.actives.len() <= MAX_ACTIVE_PERMISSIONS,
        spec_check_permission(c.owner.unwrap(), PermissionType::Owner) is Ok,
        spec_apu_check_actives(c.actives, 0) is Ok,
        db.account_of(c.owner_address).balance >= db.account_permission_update_fee,
{
}

/// An owner permission normalized into the account's internal shape.
pub open spec fn spec_normalized_owner(p: PermissionV) -> OwnerPermissionV {
    OwnerPermissionV { threshold: p.threshold, keys: p.keys }
}

/// An active permission normalized into the account's internal shape.
pub open spec fn spec_normalized_active(p: PermissionV) -> ActivePermissionV {
    ActivePermissionV {
        threshold: p.threshold,
        keys: p.keys,
        operations: p.operations,
        permission_name: p.name,
    }
}

/// The state a successful permission update leaves.  The owner's record
/// carries the supplied owner and active permissions and is debited the fee;
/// when a witness permission is supplied, the witness record's signature key
/// becomes the permission's first key; the blackhole is credited the fee
/// before the owner's record is stored, so an update whose owner is the
/// blackhole itself ends with the owner's debited record.
pub open spec fn spec_apu_apply(
    c: AccountPermissionUpdateContractV,
    db: StateDbV,
    blackhole: Seq<u8>,
) -> StateDbV {
    let i = db.account_index(c.owner_address);
    let acct = db.accounts[i].1;
    let fee = db.account_permission_update_fee;
    let new_acct = AccountV {
        owner_permission: Some(spec_normalized_owner(c.owner.unwrap())),
        active_permissions: c.actives.map_values(|p: PermissionV| spec_normalized_active(p)),
        balance: acct.balance - fee,
        ..acct
    };
    let new_witnesses = if c.witness is Some {
        let w = db.witness_index(c.owner_address);
        db.witnesses.update(
            w,
            (c.owner_address, WitnessV { signature_key: c.witness.unwrap().keys[0].address }),
        )
    } else {
        db.witnesses
    };
    let credited_accounts = if fee != 0 {
        let j = db.account_index(blackhole);
        db.accounts.update(
            j,
            (blackhole, AccountV { balance: db.accounts[j].1.balance + fee, ..db.accounts[j].1 }),
        )
    } else {
        db.accounts
    };
    StateDbV {
        accounts: credited_accounts.update(i, (c.owner_address, new_acct)),
        witnesses: new_witnesses,
        ..db
    }
}

impl AccountPermissionUpdateContract {
    /// The fee a permission update costs, read from chain parameters.
    pub fn fee(&self, manager: &Manager) -> (r: i64)
        ensures
            r as int == manager.state_db@.account_permission_update_fee,
    {
        manager.state_db.get_param(ChainParameter::AccountPermissionUpdateFee)
    }

    /// Checks a permission update against a read-only view of state and, on
    /// success, records the fee the execution will debit.
    #[verifier::loop_isolation(false)]
    pub fn validate(&self, manager: &Manager, ctx: &mut TransactionContext) -> (r: Result<
        (),
        Error,
    >)
        requires
            manager.wf(),
        ensures
            r == spec_apu_validate(self@, manager.state_db@),
            r is Ok ==> final(ctx).contract_fee as int
                == manager.state_db@.account_permission_update_fee,
            r is Err ==> *final(ctx) == *old(ctx),
    {
        if manager.state_db.get_param(ChainParameter::AllowMultisig) == 0 {
            return Err(Error::MultisigDisabled);
        }
        let owner_address = match Address::from_bytes(self.owner_address.as_slice()) {
            Some(a) => a,
            None => {
                return Err(Error::InvalidOwnerAddress);
            },
        };
        let acct = match manager.state_db.get_account(&owner_address) {
            Some(a) => a,
            None => {
                return Err(Error::AccountNotExists);
            },
        };
        if self.owner.is_none() {
            return Err(Error::MissingOwnerPermission);
        }
        let is_witness = manager.state_db.get_witness(&owner_address).is_some();
        if is_witness {
            match &self.witness {
                Some(wit_perm) => {
                    match check_permission(wit_perm, PermissionType::Witness) {
                        Err(e) => {
                            return Err(e);
                        },
                        Ok(_) => {},
                    }
                },
                None => {
                    return Err(Error::MissingWitnessPermission);
                },
            }
        } else if self.witness.is_some() {
            return Err(Error::NotAWitness);
        }
        if self.actives.len() == 0 {
            return Err(Error::MissingActivePermissions);
        }
        if self.actives.len() > MAX_ACTIVE_PERMISSIONS {
            return Err(Error::TooManyActivePermissions);
        }
        let owner_perm = match &self.owner {
            Some(p) => p,
            None => {
                return Err(Error::MissingOwnerPermission);
            },
        };
        match check_permission(owner_perm, PermissionType::Owner) {
            Err(e) => {
                return Err(e);
            },
            Ok(_) => {},
        }
        let ghost gactives = self@.actives;
        let mut i: usize = 0;
        while i < self.actives.len()
            invariant
                0 <= i <= gactives.len(),
                spec_apu_check_actives(gactives, 0) == spec_apu_check_actives(gactives, i as int),
            decreases gactives.len() - i,
        {
            match check_permission(&self.actives[i], PermissionType::Active) {
                Err(e) => {
                    proof {
                        assert(spec_apu_check_actives(gactives, i as int) == Err::<(), Error>(e));
                    }
                    return Err(e);
                },
                Ok(_) => {},
            }
            i += 1;
        }
        let fee = self.fee(manager);
        if acct.balance < fee {
            return Err(Error::InsufficientBalance);
        }
        ctx.contract_fee = fee;
        Ok(())
    }

    /// Applies a validated permission update: replaces the owner and active
    /// permissions, renews the witness signature key when supplied, and moves
    /// the fee from the owner to the blackhole.  Nothing is written unless
    /// the whole execution can succeed, so the blackhole credit is
    /// bounds-checked up front.
    #[verifier::loop_isolation(false)]
    pub fn execute(&self, manager: &mut Manager, ctx: &mut TransactionContext) -> (r: Result<
        TransactionResult,
        Error,
    >)
        requires
            old(manager).wf(),
            spec_apu_validate(self@, old(manager).state_db@) is Ok,
            old(ctx).contract_fee as int == old(manager).state_db@.account_permission_update_fee,
        ensures
            *final(ctx) == *old(ctx),
            final(manager).spec_blackhole() == old(manager).spec_blackhole(),
            ({
                let db = old(manager).state_db@;
                let bh = old(manager).spec_blackhole();
                let fee = db.account_permission_update_fee;
                &&& (r is Ok <==> fee == 0 || db.account_of(bh).balance + fee <= i64::MAX)
                &&& r is Ok ==> final(manager).state_db@ == spec_apu_apply(self@, db, bh)
                    && final(manager).wf() && r.unwrap().success
                &&& r is Err ==> final(manager).state_db@ == db && r == Err::<
                    TransactionResult,
                    Error,
                >(Error::MathOverflow)
            }),
    {
        proof {
            lemma_apu_validate_ok(self@, old(manager).state_db@);
            lemma_account_index(old(manager).state_db@, self.owner_address@);
            lemma_account_index(old(manager).state_db@, old(manager).spec_blackhole());
        }
        let ghost db = old(manager).state_db@;
        let ghost bh = old(manager).spec_blackhole();
        let ghost i = db.account_index(self.owner_address@);
        let ghost j = db.account_index(bh);
        let owner_address = Address::from_bytes(self.owner_address.as_slice()).unwrap();
        let fee = ctx.contract_fee;
        if fee != 0 {
            let bh_acct = manager.state_db.get_account(manager.blackhole_address()).unwrap();
            if bh_acct.balance.checked_add(fee).is_none() {
                return Err(Error::MathOverflow);
            }
        }
        let mut owner_acct = manager.state_db.must_get_account(&owner_address);
        let owner_perm = match &self.owner {
            Some(p) => p,
            None => {
                return Err(Error::MissingOwnerPermission);
            },
        };
        owner_acct.owner_permission = Some(
            OwnerPermission { threshold: owner_perm.threshold, keys: copy_keys(&owner_perm.keys) },
        );
        let mut actives: Vec<ActivePermission> = Vec::new();
        let mut k: usize = 0;
        while k < self.actives.len()
            invariant
                0 <= k <= self.actives@.len(),
                actives@.len() == k,
                forall|m: int|
                    0 <= m < k ==> (#[trigger] actives@[m])@ == spec_normalized_active(
                        self@.actives[m],
                    ),
            decreases self.actives@.len() - k,
        {
            let p = &self.actives[k];
            actives.push(
                ActivePermission {
                    threshold: p.threshold,
                    keys: copy_keys(&p.keys),
                    operations: copy_bytes(&p.operations),
                    permission_name: copy_bytes(&p.name),
                },
            );
            k += 1;
        }
        proof {
            assert(actives_view(actives@) =~= self@.actives.map_values(
                |p: PermissionV| spec_normalized_active(p),
            ));
        }
        owner_acct.active_permissions = actives;
        if self.witness.is_some() {
            proof {
                lemma_witness_index(db, self.owner_address@);
                crate::permission::lemma_accepted_permission_invariants(
                    self@.witness.unwrap(),
                    PermissionType::Witness,
                );
            }
            let wit_perm = match &self.witness {
                Some(p) => p,
                None => {
                    return Err(Error::MissingWitnessPermission);
                },
            };
            let mut wit = manager.state_db.must_get_witness(&owner_address);
            wit.signature_key = copy_bytes(&wit_perm.keys[0].address);
            manager.state_db.put_witness(&owner_address, wit);
        }
        let ghost db1 = manager.state_db@;
        proof {
            assert(db1.accounts == db.accounts);
            assert(db1.accounts[i].0 == self.owner_address@);
            assert(db1.has_account(self.owner_address@));
            assert(db1.accounts[j].0 == bh);
            assert(db1.has_account(bh));
            lemma_account_index(db1, self.owner_address@);
            lemma_account_index(db1, bh);
            assert(db1.account_index(bh) == j);
            assert(db1.account_of(bh) == db.account_of(bh));
        }
        if fee != 0 {
            owner_acct.balance = owner_acct.balance - fee;
            match manager.add_to_blackhole(fee) {
                Ok(_) => {},
                Err(_) => {
                    proof {
                        assert(false);
                    }
                    return Err(Error::MathOverflow);
                },
            }
        }
        let ghost db2 = manager.state_db@;
        proof {
            if fee != 0 {
                assert(db2.accounts == db.accounts.update(
                    j,
                    (bh, AccountV { balance: db.accounts[j].1.balance + fee, ..db.accounts[j].1 }),
                ));
            } else {
                assert(db2.accounts == db.accounts);
            }
            assert(forall|m: int|
                0 <= m < db2.accounts.len() ==> (#[trigger] db2.accounts[m]).0
                    == db.accounts[m].0);
            assert(db2.accounts[i].0 == self.owner_address@);
            assert(db2.has_account(self.owner_address@));
            lemma_account_index(db2, self.owner_address@);
            assert(db2.account_index(self.owner_address@) == i);
        }
        manager.state_db.put_account(&owner_address, owner_acct);
        proof {
            let dbf = manager.state_db@;
            let applied = spec_apu_apply(self@, db, bh);
            assert(dbf.accounts == db2.accounts.update(i, (self.owner_address@, owner_acct@)));
            assert(owner_acct@ =~= AccountV {
                owner_permission: Some(spec_normalized_owner(self@.owner.unwrap())),
                active_permissions: self@.actives.map_values(
                    |p: PermissionV| spec_normalized_active(p),
                ),
                balance: db.accounts[i].1.balance - fee,
                ..db.accounts[i].1
            });
            assert(dbf =~= applied);
            // conservation of the balance total keeps the supply bound
            if fee != 0 {
                lemma_sum_balances_update(
                    db.accounts,
                    j,
                    (bh, AccountV { balance: db.accounts[j].1.balance + fee, ..db.accounts[j].1 }),
                );
            }
            lemma_sum_balances_update(db2.accounts, i, (self.owner_address@, owner_acct@));
            assert(sum_balances(dbf.accounts) <= i64::MAX);
            assert(forall|m: int|
                0 <= m < dbf.accounts.len() ==> (#[trigger] dbf.accounts[m]).1.balance >= 0);
            assert(dbf.wf_balances());
            let w = choose|w: int| 0 <= w < db.accounts.len() && db.accounts[w].0 == bh;
            assert(dbf.accounts[w].0 == bh);
            assert(dbf.has_account(bh));
            assert(final(manager).wf());
        }
        Ok(TransactionResult::success())
    }
}

/// Once `validate` has passed, `execute` cannot be refused: in a well-formed
/// state whose total supply fits a signed 64-bit integer, the blackhole
/// credit of a validated permission update is always in range, as long as
/// the paying owner is not the blackhole itself.
pub proof fn lemma_validated_update_always_executes(
    c: AccountPermissionUpdateContractV,
    db: StateDbV,
    blackhole: Seq<u8>,
)
    requires
        db.wf(),
        db.has_account(blackhole),
        spec_apu_validate(c, db) is Ok,
        c.owner_address != blackhole,
    ensures
        db.account_permission_update_fee == 0 || db.account_of(blackhole).balance
            + db.account_permission_update_fee <= i64::MAX,
{
    lemma_apu_validate_ok(c, db);
    lemma_account_index(db, c.owner_address);
    lemma_account_index(db, blackhole);
    let i = db.account_index(c.owner_address);
    let j = db.account_index(blackhole);
    if db.account_permission_update_fee != 0 {
        lemma_two_balances_le_sum(db.accounts, i, j);
    }
}

/// A successful name update conserves the total of account balances: it
/// touches no balance at all.
pub proof fn lemma_name_update_conserves_total(c: AccountUpdateContractV, db: StateDbV)
    requires
        db.wf_keys(),
        spec_au_validate(c, db) is Ok,
    ensures
        sum_balances(spec_au_apply(c, db).accounts) == sum_balances(db.accounts),
{
    lemma_account_index(db, c.owner_address);
    let i = db.account_index(c.owner_address);
    lemma_sum_balances_update(
        db.accounts,
        i,
        (c.owner_address, AccountV { name: c.account_name, ..db.accounts[i].1 }),
    );
}

/// Fees move value, they do not destroy it: a successful permission update
/// whose owner is not the blackhole itself conserves the total of account
/// balances, the blackhole's included.  (When the owner is the blackhole,
/// the reference node's write order lets the final store of the debited
/// owner record overwrite the credit, so the total drops by the fee; that
/// input is excluded here.)
pub proof fn lemma_permission_update_conserves_total(
    c: AccountPermissionUpdateContractV,
    db: StateDbV,
    blackhole: Seq<u8>,
)
    requires
        db.wf_keys(),
        db.has_account(blackhole),
        spec_apu_validate(c, db) is Ok,
        c.owner_address != blackhole,
    ensures
        sum_balances(spec_apu_apply(c, db, blackhole).accounts) == sum_balances(db.accounts),
{
    lemma_apu_validate_ok(c, db);
    lemma_account_index(db, c.owner_address);
    lemma_account_index(db, blackhole);
    let i = db.account_index(c.owner_address);
    let j = db.account_index(blackhole);
    let fee = db.account_permission_update_fee;
    let acct = db.accounts[i].1;
    let new_acct = AccountV {
        owner_permission: Some(spec_normalized_owner(c.owner.unwrap())),
        active_permissions: c.actives.map_values(|p: PermissionV| spec_normalized_active(p)),
        balance: acct.balance - fee,
        ..acct
    };
    if fee != 0 {
        let credited = db.accounts.update(
            j,
            (blackhole, AccountV { balance: db.accounts[j].1.balance + fee, ..db.accounts[j].1 }),
        );
        lemma_sum_balances_update(
            db.accounts,
            j,
            (blackhole, AccountV { balance: db.accounts[j].1.balance + fee, ..db.accounts[j].1 }),
        );
        lemma_sum_balances_update(credited, i, (c.owner_address, new_acct));
    } else {
        lemma_sum_balances_update(db.accounts, i, (c.owner_address, new_acct));
    }
}

/// Under the legacy renaming gate, a name update is accepted only when no
/// account at all held the requested name at the point of validation.
pub proof fn lemma_name_unique_on_success(c: AccountUpdateContractV, db: StateDbV)
    requires
        spec_au_validate(c, db) is Ok,
        db.allow_update_account_name == 0,
    ensures
        forall|k: int|
            0 <= k < db.accounts.len() ==> (#[trigger] db.accounts[k]).1.name != c.account_name,
{
    lemma_find_account_by_name_exists(db.accounts, c.account_name);
}

/// A permission update rewrites permissions, balances and a signature key,
/// but no account's address or name.
pub proof fn lemma_permission_update_preserves_names(
    c: AccountPermissionUpdateContractV,
    db: StateDbV,
    blackhole: Seq<u8>,
)
    requires
        db.wf_keys(),
        db.has_account(blackhole),
        db.has_account(c.owner_address),
    ensures
        spec_apu_apply(c, db, blackhole).accounts.len() == db.accounts.len(),
        forall|k: int|
            0 <= k < db.accounts.len() ==> (#[trigger] spec_apu_apply(
                c,
                db,
                blackhole,
            ).accounts[k]).0 == db.accounts[k].0 && spec_apu_apply(
                c,
                db,
                blackhole,
            ).accounts[k].1.name == db.accounts[k].1.name,
{
    lemma_account_index(db, c.owner_address);
    lemma_account_index(db, blackhole);
}

/// A name update to `name` followed by a successful permission update leaves
/// the name in place.
pub proof fn lemma_rename_then_permission_update(
    au: AccountUpdateContractV,
    apu: AccountPermissionUpdateContractV,
    db: StateDbV,
    blackhole: Seq<u8>,
)
    requires
        db.wf_keys(),
        db.has_account(blackhole),
        spec_au_validate(au, db) is Ok,
        spec_apu_validate(apu, spec_au_apply(au, db)) is Ok,
        apu.owner_address == au.owner_address,
    ensures
        ({
            let renamed = spec_au_apply(au, db);
            let updated = spec_apu_apply(apu, renamed, blackhole);
            updated.account_of(au.owner_address).name == au.account_name
        }),
{
    lemma_account_index(db, au.owner_address);
    let i = db.account_index(au.owner_address);
    let renamed = spec_au_apply(au, db);
    assert(forall|k: int|
        0 <= k < renamed.accounts.len() ==> (#[trigger] renamed.accounts[k]).0
            == db.accounts[k].0);
    assert(renamed.wf_keys());
    assert(renamed.accounts[i].0 == au.owner_address);
    assert(renamed.has_account(au.owner_address));
    let w = choose|w: int| 0 <= w < db.accounts.len() && db.accounts[w].0 == blackhole;
    assert(renamed.accounts[w].0 == blackhole);
    assert(renamed.has_account(blackhole));
    lemma_account_index(renamed, au.owner_address);
    assert(renamed.account_index(au.owner_address) == i);
    assert(renamed.account_of(au.owner_address).name == au.account_name);
    lemma_permission_update_preserves_names(apu, renamed, blackhole);
    let updated = spec_apu_apply(apu, renamed, blackhole);
    assert(updated.accounts[i].0 == au.owner_address);
    assert(updated.has_account(au.owner_address));
    assert(forall|k: int, l: int|
        0 <= k < l < updated.accounts.len() ==> updated.accounts[k].0 != updated.accounts[l].0);
    lemma_account_index(updated, au.owner_address);
    assert(updated.account_index(au.owner_address) == i);
    assert(updated.accounts[i].1.name == renamed.accounts[i].1.name);
}

/// Re-executing the same permission update yields the same owner account
/// state — permissions and name unchanged — except that the fee is debited
/// once more.
pub proof fn lemma_permission_update_idempotent(
    c: AccountPermissionUpdateContractV,
    db: StateDbV,
    blackhole: Seq<u8>,
)
    requires
        db.wf_keys(),
        db.has_account(blackhole),
        spec_apu_validate(c, db) is Ok,
        spec_apu_validate(c, spec_apu_apply(c, db, blackhole)) is Ok,
    ensures
        ({
            let once = spec_apu_apply(c, db, blackhole);
            let twice = spec_apu_apply(c, once, blackhole);
            let a1 = once.account_of(c.owner_address);
            let a2 = twice.account_of(c.owner_address);
            &&& a2.owner_permission == a1.owner_permission
            &&& a2.active_permissions == a1.active_permissions
            &&& a2.name == a1.name
            &&& a2.balance == a1.balance - db.account_permission_update_fee
        }),
{
    lemma_apu_validate_ok(c, db);
    lemma_account_index(db, c.owner_address);
    lemma_account_index(db, blackhole);
    let i = db.account_index(c.owner_address);
    let j = db.account_index(blackhole);
    let once = spec_apu_apply(c, db, blackhole);
    assert(forall|k: int|
        0 <= k < once.accounts.len() ==> (#[trigger] once.accounts[k]).0 == db.accounts[k].0);
    assert(once.wf_keys());
    assert(once.accounts[i].0 == c.owner_address);
    assert(once.has_account(c.owner_address));
    assert(once.accounts[j].0 == blackhole);
    assert(once.has_account(blackhole));
    lemma_account_index(once, c.owner_address);
    lemma_account_index(once, blackhole);
    assert(once.account_index(c.owner_address) == i);
    assert(once.account_index(blackhole) == j);
    let twice = spec_apu_apply(c, once, blackhole);
    assert(forall|k: int|
        0 <= k < twice.accounts.len() ==> (#[trigger] twice.accounts[k]).0 == db.accounts[k].0);
    assert(twice.accounts[i].0 == c.owner_address);
    assert(twice.has_account(c.owner_address));
    lemma_account_index(twice, c.owner_address);
    assert(twice.account_index(c.owner_address) == i);
    assert(once.account_permission_update_fee == db.account_permission_update_fee);
}

} // verus!

