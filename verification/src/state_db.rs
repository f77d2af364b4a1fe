//! The entities of on-chain state and the typed state database facade over
//! them.

use vstd::prelude::*;
use vstd::pervasive::VecAdditionalExecFns;

use crate::address::{bytes_eq, copy_bytes, spec_is_valid_address, Address, ADDRESS_LEN};
use crate::permission::{keys_view, KeyV, PermissionKey};

verus! {

/// The owner permission held by an account.
pub struct OwnerPermission {
    pub threshold: i64,
    pub keys: Vec<PermissionKey>,
}

/// Mathematical form of an owner permission.
#[verifier::ext_equal]
pub ghost struct OwnerPermissionV {
    pub threshold: int,
    pub keys: Seq<KeyV>,
}

impl View for OwnerPermission {
    type V = OwnerPermissionV;

    open spec fn view(&self) -> OwnerPermissionV {
        OwnerPermissionV { threshold: self.threshold as int, keys: keys_view(self.keys@) }
    }
}

/// One active permission held by an account.
pub struct ActivePermission {
    pub threshold: i64,
    pub keys: Vec<PermissionKey>,
    pub operations: Vec<u8>,
    pub permission_name: Vec<u8>,
}

/// Mathematical form of an active permission.
#[verifier::ext_equal]
pub ghost struct ActivePermissionV {
    pub threshold: int,
    pub keys: Seq<KeyV>,
    pub operations: Seq<u8>,
    pub permission_name: Seq<u8>,
}

impl View for ActivePermission {
    type V = ActivePermissionV;

    open spec fn view(&self) -> ActivePermissionV {
        ActivePermissionV {
            threshold: self.threshold as int,
            keys: keys_view(self.keys@),
            operations: self.operations@,
            permission_name: self.permission_name@,
        }
    }
}

/// The mathematical form of an active-permission sequence.
pub open spec fn actives_view(s: Seq<ActivePermission>) -> Seq<ActivePermissionV> {
    s.map_values(|p: ActivePermission| p@)
}

/// An account record.  Asset balances, votes and frozen resources of the full
/// protocol are not read by the account actuators and are left out.
pub struct Account {
    pub name: Vec<u8>,
    pub balance: i64,
    pub owner_permission: Option<OwnerPermission>,
    pub active_permissions: Vec<ActivePermission>,
}

/// Mathematical form of an account record.
#[verifier::ext_equal]
pub ghost struct AccountV {
    pub name: Seq<u8>,
    pub balance: int,
    pub owner_permission: Option<OwnerPermissionV>,
    pub active_permissions: Seq<ActivePermissionV>,
}

impl View for Account {
    type V = AccountV;

    open spec fn view(&self) -> AccountV {
        AccountV {
            name: self.name@,
            balance: self.balance as int,
            owner_permission: match self.owner_permission {
                Some(p) => Some(p@),
                None => None,
            },
            active_permissions: actives_view(self.active_permissions@),
        }
    }
}

/// A witness (super-representative) record.  Only the signature key is read
/// by the account actuators.
pub struct Witness {
    pub signature_key: Vec<u8>,
}

/// Mathematical form of a witness record.
#[verifier::ext_equal]
pub ghost struct WitnessV {
    pub signature_key: Seq<u8>,
}

impl View for Witness {
    type V = WitnessV;

    open spec fn view(&self) -> WitnessV {
        WitnessV { signature_key: self.signature_key@ }
    }
}

/// The chain parameters the account actuators read.
#[derive(Clone, Copy, Debug, PartialEq, Eq, Structural)]
pub enum ChainParameter {
    AllowUpdateAccountName,
    AllowMultisig,
    AccountPermissionUpdateFee,
}

/// Mathematical form of the state database: the account family, the witness
/// family, and the current value of each chain parameter.
#[verifier::ext_equal]
pub ghost struct StateDbV {
    pub accounts: Seq<(Seq<u8>, AccountV)>,
    pub witnesses: Seq<(Seq<u8>, WitnessV)>,
    pub allow_update_account_name: int,
    pub allow_multisig: int,
    pub account_permission_update_fee: int,
}

/// The running total of the balances of an account family.
pub open spec fn sum_balances(s: Seq<(Seq<u8>, AccountV)>) -> int
    decreases s.len(),
{
    if s.len() == 0 {
        0
    } else {
        s[0].1.balance + sum_balances(s.drop_first())
    }
}

impl StateDbV {
    /// The current value of one chain parameter.
    pub open spec fn param(self, p: ChainParameter) -> int {
        match p {
            ChainParameter::AllowUpdateAccountName => self.allow_update_account_name,
            ChainParameter::AllowMultisig => self.allow_multisig,
            ChainParameter::AccountPermissionUpdateFee => self.account_permission_update_fee,
        }
    }

    /// Whether an account record exists under `a`.
    pub open spec fn has_account(self, a: Seq<u8>) -> bool {
        exists|i: int| 0 <= i < self.accounts.len() && self.accounts[i].0 == a
    }

    /// The index of the account record under `a`; meaningful only when the
    /// record exists and the keys are distinct.
    pub open spec fn account_index(self, a: Seq<u8>) -> int {
        choose|i: int| 0 <= i < self.accounts.len() && self.accounts[i].0 == a
    }

    /// The account record under `a`.
    pub open spec fn account_of(self, a: Seq<u8>) -> AccountV {
        self.accounts[self.account_index(a)].1
    }

    /// Whether a witness record exists under `a`.
    pub open spec fn has_witness(self, a: Seq<u8>) -> bool {
        exists|i: int| 0 <= i < self.witnesses.len() && self.witnesses[i].0 == a
    }

    /// The index of the witness record under `a`.
    pub open spec fn witness_index(self, a: Seq<u8>) -> int {
        choose|i: int| 0 <= i < self.witnesses.len() && self.witnesses[i].0 == a
    }

    /// The witness record under `a`.
    pub open spec fn witness_of(self, a: Seq<u8>) -> WitnessV {
        self.witnesses[self.witness_index(a)].1
    }

    /// Structural well-formedness of the key space: every key well formed and
    /// no key repeated within a family.
    pub open spec fn wf_keys(self) -> bool {
        &&& forall|i: int|
            0 <= i < self.accounts.len() ==> spec_is_valid_address(#[trigger] self.accounts[i].0)
        &&& forall|i: int, j: int|
            0 <= i < j < self.accounts.len() ==> self.accounts[i].0 != self.accounts[j].0
        &&& forall|i: int|
            0 <= i < self.witnesses.len() ==> spec_is_valid_address(#[trigger] self.witnesses[i].0)
        &&& forall|i: int, j: int|
            0 <= i < j < self.witnesses.len() ==> self.witnesses[i].0 != self.witnesses[j].0
    }

    /// Monetary well-formedness: no negative balance, a total supply that fits
    /// a signed 64-bit integer, and a non-negative permission-update fee.
    pub open spec fn wf_balances(self) -> bool {
        &&& forall|i: int| 0 <= i < self.accounts.len() ==> (#[trigger] self.accounts[i].1).balance >= 0
        &&& sum_balances(self.accounts) <= i64::MAX
        &&& self.account_permission_update_fee >= 0
    }

    /// Full well-formedness of the state.
    pub open spec fn wf(self) -> bool {
        self.wf_keys() && self.wf_balances()
    }
}

/// With distinct account keys, the account index is the one index holding `a`.
pub proof fn lemma_account_index(db: StateDbV, a: Seq<u8>)
    requires
        db.wf_keys(),
        db.has_account(a),
    ensures
        0 <= db.account_index(a) < db.accounts.len(),
        db.accounts[db.account_index(a)].0 == a,
        forall|i: int|
            0 <= i < db.accounts.len() && (#[trigger] db.accounts[i]).0 == a ==> i
                == db.account_index(a),
{
    let idx = db.account_index(a);
    assert(0 <= idx < db.accounts.len() && db.accounts[idx].0 == a);
    assert forall|i: int|
        0 <= i < db.accounts.len() && (#[trigger] db.accounts[i]).0 == a implies i == idx by {
        if i < idx {
            assert(db.accounts[i].0 != db.accounts[idx].0);
        } else if idx < i {
            assert(db.accounts[idx].0 != db.accounts[i].0);
        }
    }
}

/// With distinct witness keys, the witness index is the one index holding `a`.
pub proof fn lemma_witness_index(db: StateDbV, a: Seq<u8>)
    requires
        db.wf_keys(),
        db.has_witness(a),
    ensures
        0 <= db.witness_index(a) < db.witnesses.len(),
        db.witnesses[db.witness_index(a)].0 == a,
        forall|i: int|
            0 <= i < db.witnesses.len() && (#[trigger] db.witnesses[i]).0 == a ==> i
                == db.witness_index(a),
{
    let idx = db.witness_index(a);
    assert(0 <= idx < db.witnesses.len() && db.witnesses[idx].0 == a);
    assert forall|i: int|
        0 <= i < db.witnesses.len() && (#[trigger] db.witnesses[i]).0 == a implies i == idx by {
        if i < idx {
            assert(db.witnesses[i].0 != db.witnesses[idx].0);
        } else if idx < i {
            assert(db.witnesses[idx].0 != db.witnesses[i].0);
        }
    }
}

/// Replacing one record changes the total balance by the difference at that
/// index.
pub proof fn lemma_sum_balances_update(s: Seq<(Seq<u8>, AccountV)>, i: int, e: (Seq<u8>, AccountV))
    requires
        0 <= i < s.len(),
    ensures
        sum_balances(s.update(i, e)) == sum_balances(s) - s[i].1.balance + e.1.balance,
    decreases s.len(),
{
    if i == 0 {
        assert(s.update(0, e).drop_first() =~= s.drop_first());
        assert(s.update(0, e)[0] == e);
    } else {
        assert(s.update(i, e).drop_first() =~= s.drop_first().update(i - 1, e));
        lemma_sum_balances_update(s.drop_first(), i - 1, e);
    }
}

/// With no negative balance the total is non-negative.
pub proof fn lemma_sum_balances_nonneg(s: Seq<(Seq<u8>, AccountV)>)
    requires
        forall|i: int| 0 <= i < s.len() ==> (#[trigger] s[i]).1.balance >= 0,
    ensures
        sum_balances(s) >= 0,
    decreases s.len(),
{
    if s.len() > 0 {
        lemma_sum_balances_nonneg(s.drop_first());
    }
}

/// With no negative balance, each single balance is at most the total.
pub proof fn lemma_balance_le_sum(s: Seq<(Seq<u8>, AccountV)>, i: int)
    requires
        forall|k: int| 0 <= k < s.len() ==> (#[trigger] s[k]).1.balance >= 0,
        0 <= i < s.len(),
    ensures
        s[i].1.balance <= sum_balances(s),
    decreases s.len(),
{
    if i == 0 {
        lemma_sum_balances_nonneg(s.drop_first());
    } else {
        lemma_balance_le_sum(s.drop_first(), i - 1);
    }
}

/// With no negative balance, two distinct balances together are at most the
/// total.
pub proof fn lemma_two_balances_le_sum(s: Seq<(Seq<u8>, AccountV)>, i: int, j: int)
    requires
        forall|k: int| 0 <= k < s.len() ==> (#[trigger] s[k]).1.balance >= 0,
        0 <= i < s.len(),
        0 <= j < s.len(),
        i != j,
    ensures
        s[i].1.balance + s[j].1.balance <= sum_balances(s),
    decreases s.len(),
{
    if i == 0 {
        lemma_balance_le_sum(s.drop_first(), j - 1);
    } else if j == 0 {
        lemma_balance_le_sum(s.drop_first(), i - 1);
    } else {
        lemma_two_balances_le_sum(s.drop_first(), i - 1, j - 1);
    }
}

/// An owned copy of a key sequence.
pub fn copy_keys(src: &Vec<PermissionKey>) -> (r: Vec<PermissionKey>)
    ensures
        keys_view(r@) == keys_view(src@),
{
    let mut out: Vec<PermissionKey> = Vec::new();
    let mut i: usize = 0;
    while i < src.len()
        invariant
            0 <= i <= src@.len(),
            out@.len() == i,
            forall|k: int| 0 <= k < i ==> (#[trigger] out@[k])@ == src@[k]@,
        decreases src@.len() - i,
    {
        let key = &src[i];
        out.push(PermissionKey { address: copy_bytes(&key.address), weight: key.weight });
        i += 1;
    }
    proof {
        assert(keys_view(out@) =~= keys_view(src@));
    }
    out
}

/// An owned copy of an owner permission.
pub fn copy_owner_permission(src: &OwnerPermission) -> (r: OwnerPermission)
    ensures
        r@ == src@,
{
    OwnerPermission { threshold: src.threshold, keys: copy_keys(&src.keys) }
}

/// An owned copy of an active permission.
pub fn copy_active_permission(src: &ActivePermission) -> (r: ActivePermission)
    ensures
        r@ == src@,
{
    ActivePermission {
        threshold: src.threshold,
        keys: copy_keys(&src.keys),
        operations: copy_bytes(&src.operations),
        permission_name: copy_bytes(&src.permission_name),
    }
}

/// An owned copy of an account record.
pub fn copy_account(src: &Account) -> (r: Account)
    ensures
        r@ == src@,
{
    let owner_permission = match &src.owner_permission {
        Some(p) => Some(copy_owner_permission(p)),
        None => None,
    };
    let mut actives: Vec<ActivePermission> = Vec::new();
    let mut i: usize = 0;
    while i < src.active_permissions.len()
        invariant
            0 <= i <= src.active_permissions@.len(),
            actives@.len() == i,
            forall|k: int| 0 <= k < i ==> (#[trigger] actives@[k])@ == src.active_permissions@[k]@,
        decreases src.active_permissions@.len() - i,
    {
        let p = copy_active_permission(&src.active_permissions[i]);
        actives.push(p);
        i += 1;
    }
    proof {
        assert(actives_view(actives@) =~= actives_view(src.active_permissions@));
    }
    Account {
        name: copy_bytes(&src.name),
        balance: src.balance,
        owner_permission,
        active_permissions: actives,
    }
}

/// An owned copy of a witness record.
pub fn copy_witness(src: &Witness) -> (r: Witness)
    ensures
        r@ == src@,
{
    Witness { signature_key: copy_bytes(&src.signature_key) }
}

/// The state database facade: three strongly typed families under one store.
/// Scans within a family follow insertion order, which is deterministic.
pub struct StateDb {
    accounts: Vec<(Address, Account)>,
    witnesses: Vec<(Address, Witness)>,
    allow_update_account_name: i64,
    allow_multisig: i64,
    account_permission_update_fee: i64,
}

impl View for StateDb {
    type V = StateDbV;

    closed spec fn view(&self) -> StateDbV {
        StateDbV {
            accounts: self.accounts@.map_values(|e: (Address, Account)| (e.0@, e.1@)),
            witnesses: self.witnesses@.map_values(|e: (Address, Witness)| (e.0@, e.1@)),
            allow_update_account_name: self.allow_update_account_name as int,
            allow_multisig: self.allow_multisig as int,
            account_permission_update_fee: self.account_permission_update_fee as int,
        }
    }
}

impl StateDb {
    /// An empty store with every chain parameter zero.
    pub fn new() -> (r: StateDb)
        ensures
            r@.accounts.len() == 0,
            r@.witnesses.len() == 0,
            r@.allow_update_account_name == 0,
            r@.allow_multisig == 0,
            r@.account_permission_update_fee == 0,
            r@.wf(),
    {
        let db = StateDb {
            accounts: Vec::new(),
            witnesses: Vec::new(),
            allow_update_account_name: 0,
            allow_multisig: 0,
            account_permission_update_fee: 0,
        };
        proof {
            assert(db@.accounts =~= Seq::<(Seq<u8>, AccountV)>::empty());
            assert(db@.witnesses =~= Seq::<(Seq<u8>, WitnessV)>::empty());
        }
        db
    }

    /// Reads the current value of a chain parameter; the parameter family is
    /// total, so the read always succeeds.
    pub fn get_param(&self, p: ChainParameter) -> (r: i64)
        ensures
            r as int == self@.param(p),
    {
        match p {
            ChainParameter::AllowUpdateAccountName => self.allow_update_account_name,
            ChainParameter::AllowMultisig => self.allow_multisig,
            ChainParameter::AccountPermissionUpdateFee => self.account_permission_update_fee,
        }
    }

    /// Sets the current value of a chain parameter.
    pub fn put_param(&mut self, p: ChainParameter, value: i64)
        ensures
            final(self)@.param(p) == value as int,
            final(self)@.accounts == old(self)@.accounts,
            final(self)@.witnesses == old(self)@.witnesses,
            forall|q: ChainParameter| q != p ==> final(self)@.param(q) == old(self)@.param(q),
    {
        match p {
            ChainParameter::AllowUpdateAccountName => {
                self.allow_update_account_name = value;
            },
            ChainParameter::AllowMultisig => {
                self.allow_multisig = value;
            },
            ChainParameter::AccountPermissionUpdateFee => {
                self.account_permission_update_fee = value;
            },
        }
    }

    /// Looks an account up by address, handing back an owned copy of the
    /// record when one exists.
    #[verifier::loop_isolation(false)]
    pub fn get_account(&self, address: &Address) -> (r: Option<Account>)
        requires
            self@.wf_keys(),
        ensures
            r is Some <==> self@.has_account(address@),
            r is Some ==> r.unwrap()@ == self@.account_of(address@),
    {
        let n = self.accounts.len();
        let mut i: usize = 0;
        while i < n
            invariant
                n == self.accounts@.len(),
                0 <= i <= n,
                forall|k: int| 0 <= k < i ==> (#[trigger] self@.accounts[k]).0 != address@,
                self@.wf_keys(),
            decreases n - i,
        {
            let entry = &self.accounts[i];
            if bytes_eq(entry.0.as_bytes(), address.as_bytes()) {
                proof {
                    assert(self@.accounts[i as int].0 == address@);
                    lemma_account_index(self@, address@);
                }
                return Some(copy_account(&entry.1));
            }
            i += 1;
        }
        proof {
            if self@.has_account(address@) {
                let k = choose|k: int|
                    0 <= k < self@.accounts.len() && self@.accounts[k].0 == address@;
                assert(self@.accounts[k].0 != address@);
            }
        }
        None
    }

    /// Looks an account up that the caller has established to exist; the
    /// counterpart of a lookup that would otherwise assert.
    pub fn must_get_account(&self, address: &Address) -> (r: Account)
        requires
            self@.wf_keys(),
            self@.has_account(address@),
        ensures
            r@ == self@.account_of(address@),
    {
        self.get_account(address).unwrap()
    }

    /// Stores an account record under its address, replacing any record the
    /// address already had, else appending a fresh one.
    #[verifier::loop_isolation(false)]
    pub fn put_account(&mut self, address: &Address, account: Account)
        requires
            old(self)@.wf_keys(),
            address.wf(),
        ensures
            final(self)@.wf_keys(),
            final(self)@.witnesses == old(self)@.witnesses,
            final(self)@.allow_update_account_name == old(self)@.allow_update_account_name,
            final(self)@.allow_multisig == old(self)@.allow_multisig,
            final(self)@.account_permission_update_fee == old(self)@.account_permission_update_fee,
            old(self)@.has_account(address@) ==> final(self)@.accounts == old(
                self,
            )@.accounts.update(old(self)@.account_index(address@), (address@, account@)),
            !old(self)@.has_account(address@) ==> final(self)@.accounts == old(
                self,
            )@.accounts.push((address@, account@)),
    {
        let ghost olddb = self@;
        let n = self.accounts.len();
        let mut i: usize = 0;
        while i < n
            invariant
                self@ == olddb,
                n == self.accounts@.len(),
                0 <= i <= n,
                forall|k: int| 0 <= k < i ==> (#[trigger] self@.accounts[k]).0 != address@,
                self@.wf_keys(),
            decreases n - i,
        {
            let hit = bytes_eq(self.accounts[i].0.as_bytes(), address.as_bytes());
            if hit {
                proof {
                    assert(olddb.accounts[i as int].0 == address@);
                    lemma_account_index(olddb, address@);
                }
                self.accounts.set(i, (address.duplicate(), account));
                proof {
                    assert(self@.accounts =~= olddb.accounts.update(
                        i as int,
                        (address@, self.accounts@[i as int].1@),
                    ));
                    assert(self@.witnesses =~= olddb.witnesses);
                }
                return ;
            }
            i += 1;
        }
        proof {
            if olddb.has_account(address@) {
                let k = choose|k: int| 0 <= k < olddb.accounts.len() && olddb.accounts[k].0 == address@;
                assert(olddb.accounts[k].0 != address@);
            }
        }
        self.accounts.push((address.duplicate(), account));
        proof {
            assert(self@.accounts =~= olddb.accounts.push(
                (address@, self.accounts@[olddb.accounts.len() as int].1@),
            ));
            assert(self@.witnesses =~= olddb.witnesses);
        }
    }

    /// Looks a witness record up by address.
    #[verifier::loop_isolation(false)]
    pub fn get_witness(&self, address: &Address) -> (r: Option<Witness>)
        requires
            self@.wf_keys(),
        ensures
            r is Some <==> self@.has_witness(address@),
            r is Some ==> r.unwrap()@ == self@.witness_of(address@),
    {
        let n = self.witnesses.len();
        let mut i: usize = 0;
        while i < n
            invariant
                n == self.witnesses@.len(),
                0 <= i <= n,
                forall|k: int| 0 <= k < i ==> (#[trigger] self@.witnesses[k]).0 != address@,
                self@.wf_keys(),
            decreases n - i,
        {
            let entry = &self.witnesses[i];
            if bytes_eq(entry.0.as_bytes(), address.as_bytes()) {
                proof {
                    assert(self@.witnesses[i as int].0 == address@);
                    lemma_witness_index(self@, address@);
                }
                return Some(copy_witness(&entry.1));
            }
            i += 1;
        }
        proof {
            if self@.has_witness(address@) {
                let k = choose|k: int|
                    0 <= k < self@.witnesses.len() && self@.witnesses[k].0 == address@;
                assert(self@.witnesses[k].0 != address@);
            }
        }
        None
    }

    /// Looks a witness record up that the caller has established to exist.
    pub fn must_get_witness(&self, address: &Address) -> (r: Witness)
        requires
            self@.wf_keys(),
            self@.has_witness(address@),
        ensures
            r@ == self@.witness_of(address@),
    {
        self.get_witness(address).unwrap()
    }

    /// Stores a witness record under its address, replacing any record the
    /// address already had, else appending a fresh one.
    #[verifier::loop_isolation(false)]
    pub fn put_witness(&mut self, address: &Address, witness: Witness)
        requires
            old(self)@.wf_keys(),
            address.wf(),
        ensures
            final(self)@.wf_keys(),
            final(self)@.accounts == old(self)@.accounts,
            final(self)@.allow_update_account_name == old(self)@.allow_update_account_name,
            final(self)@.allow_multisig == old(self)@.allow_multisig,
            final(self)@.account_permission_update_fee == old(self)@.account_permission_update_fee,
            old(self)@.has_witness(address@) ==> final(self)@.witnesses == old(
                self,
            )@.witnesses.update(old(self)@.witness_index(address@), (address@, witness@)),
            !old(self)@.has_witness(address@) ==> final(self)@.witnesses == old(
                self,
            )@.witnesses.push((address@, witness@)),
    {
        let ghost olddb = self@;
        let n = self.witnesses.len();
        let mut i: usize = 0;
        while i < n
            invariant
                self@ == olddb,
                n == self.witnesses@.len(),
                0 <= i <= n,
                forall|k: int| 0 <= k < i ==> (#[trigger] self@.witnesses[k]).0 != address@,
                self@.wf_keys(),
            decreases n - i,
        {
            let hit = bytes_eq(self.witnesses[i].0.as_bytes(), address.as_bytes());
            if hit {
                proof {
                    assert(olddb.witnesses[i as int].0 == address@);
                    lemma_witness_index(olddb, address@);
                }
                self.witnesses.set(i, (address.duplicate(), witness));
                proof {
                    assert(self@.witnesses =~= olddb.witnesses.update(
                        i as int,
                        (address@, self.witnesses@[i as int].1@),
                    ));
                    assert(self@.accounts =~= olddb.accounts);
                }
                return ;
            }
            i += 1;
        }
        proof {
            if olddb.has_witness(address@) {
                let k = choose|k: int|
                    0 <= k < olddb.witnesses.len() && olddb.witnesses[k].0 == address@;
                assert(olddb.witnesses[k].0 != address@);
            }
        }
        self.witnesses.push((address.duplicate(), witness));
        proof {
            assert(self@.witnesses =~= olddb.witnesses.push(
                (address@, self.witnesses@[olddb.witnesses.len() as int].1@),
            ));
            assert(self@.accounts =~= olddb.accounts);
        }
    }

    /// How many account records the store holds; scan support.
    pub fn accounts_len(&self) -> (r: usize)
        ensures
            r == self@.accounts.len(),
    {
        self.accounts.len()
    }

    /// The record at one scan position of the account family.
    pub fn account_at(&self, i: usize) -> (r: (&Address, &Account))
        requires
            i < self@.accounts.len(),
        ensures
            r.0@ == self@.accounts[i as int].0,
            r.1@ == self@.accounts[i as int].1,
    {
        let entry = &self.accounts[i];
        (&entry.0, &entry.1)
    }
}

} // verus!
