use tron_actuators::account::{AccountPermissionUpdateContract, AccountUpdateContract};
use tron_actuators::address::Address;
use tron_actuators::context::TransactionContext;
use tron_actuators::errors::Error;
use tron_actuators::manager::{ContractPb, Manager, TransferContract};
use tron_actuators::permission::{Permission, PermissionKey};
use tron_actuators::state_db::{Account, ChainParameter, StateDb, Witness};

fn addr_bytes(tag: u8) -> Vec<u8> {
    let mut v = vec![0x41u8];
    v.extend(std::iter::repeat(tag).take(20));
    v
}

fn addr(tag: u8) -> Address {
    Address::from_bytes(&addr_bytes(tag)).unwrap()
}

fn plain_account(name: &[u8], balance: i64) -> Account {
    Account {
        name: name.to_vec(),
        balance,
        owner_permission: None,
        active_permissions: Vec::new(),
    }
}

fn key(tag: u8, weight: i64) -> PermissionKey {
    PermissionKey { address: addr_bytes(tag), weight }
}

fn owner_perm(threshold: i64, keys: Vec<PermissionKey>) -> Permission {
    Permission { threshold, name: b"owner".to_vec(), parent_id: 0, operations: Vec::new(), keys }
}

fn witness_perm(threshold: i64, keys: Vec<PermissionKey>) -> Permission {
    Permission { threshold, name: b"witness".to_vec(), parent_id: 0, operations: Vec::new(), keys }
}

fn ops_mask(bits: &[usize]) -> Vec<u8> {
    let mut ops = vec![0u8; 32];
    for &b in bits {
        ops[b / 8] |= 1 << (b % 8);
    }
    ops
}

fn active_perm(threshold: i64, keys: Vec<PermissionKey>) -> Permission {
    Permission {
        threshold,
        name: b"active".to_vec(),
        parent_id: 0,
        operations: ops_mask(&[0, 1, 2]),
        keys,
    }
}

const BLACKHOLE: u8 = 0xff;

/// A manager over a state with the blackhole account and one user account.
fn manager_with(accounts: Vec<(u8, Account)>, params: Vec<(ChainParameter, i64)>) -> Manager {
    let mut db = StateDb::new();
    db.put_account(&addr(BLACKHOLE), plain_account(b"", 0));
    for (tag, acct) in accounts {
        db.put_account(&addr(tag), acct);
    }
    for (p, v) in params {
        db.put_param(p, v);
    }
    Manager::new(db, addr(BLACKHOLE))
}

fn balances_total(manager: &Manager) -> i64 {
    let mut total = 0i64;
    let mut i = 0;
    while i < manager.state_db.accounts_len() {
        let (_, acct) = manager.state_db.account_at(i);
        total += acct.balance;
        i += 1;
    }
    total
}

fn name_update(owner: u8, name: &[u8]) -> ContractPb {
    ContractPb::AccountUpdate(AccountUpdateContract {
        owner_address: addr_bytes(owner),
        account_name: name.to_vec(),
    })
}

fn permission_update(owner: u8, witness: Option<Permission>) -> ContractPb {
    ContractPb::AccountPermissionUpdate(AccountPermissionUpdateContract {
        owner_address: addr_bytes(owner),
        owner: Some(owner_perm(1, vec![key(owner, 1)])),
        witness,
        actives: vec![active_perm(2, vec![key(owner, 1), key(2, 1)])],
    })
}

#[test]
fn simple_rename() {
    let mut manager = manager_with(
        vec![(1, plain_account(b"", 77))],
        vec![(ChainParameter::AllowUpdateAccountName, 1)],
    );
    let mut ctx = TransactionContext::new();
    let r = manager.process_contract(&name_update(1, b"alice"), &mut ctx);
    assert!(r.is_ok());
    assert!(r.unwrap().success);
    let acct = manager.state_db.get_account(&addr(1)).unwrap();
    assert_eq!(acct.name, b"alice".to_vec());
    assert_eq!(acct.balance, 77);
}

#[test]
fn rename_blocked_under_legacy_gate() {
    let mut manager = manager_with(
        vec![(1, plain_account(b"alice", 77))],
        vec![(ChainParameter::AllowUpdateAccountName, 0)],
    );
    let mut ctx = TransactionContext::new();
    let r = manager.process_contract(&name_update(1, b"bob"), &mut ctx);
    assert_eq!(r.unwrap_err(), Error::AccountNameAlreadyExists);
    assert_eq!(Error::AccountNameAlreadyExists.message(), "account name already exists");
    let acct = manager.state_db.get_account(&addr(1)).unwrap();
    assert_eq!(acct.name, b"alice".to_vec());
}

#[test]
fn rename_to_taken_name_blocked_under_legacy_gate() {
    let mut manager = manager_with(
        vec![(1, plain_account(b"", 77)), (2, plain_account(b"bob", 5))],
        vec![(ChainParameter::AllowUpdateAccountName, 0)],
    );
    let mut ctx = TransactionContext::new();
    let r = manager.process_contract(&name_update(1, b"bob"), &mut ctx);
    assert_eq!(r.unwrap_err(), Error::SameAccountNameExists);
    assert_eq!(Error::SameAccountNameExists.message(), "the same account name already exists");
}

#[test]
fn duplicate_names_allowed_when_gate_open() {
    let mut manager = manager_with(
        vec![(1, plain_account(b"", 77)), (2, plain_account(b"bob", 5))],
        vec![(ChainParameter::AllowUpdateAccountName, 1)],
    );
    let mut ctx = TransactionContext::new();
    assert!(manager.process_contract(&name_update(1, b"bob"), &mut ctx).is_ok());
    assert_eq!(manager.state_db.get_account(&addr(1)).unwrap().name, b"bob".to_vec());
}

#[test]
fn oversized_account_name_rejected() {
    let mut manager = manager_with(
        vec![(1, plain_account(b"", 77))],
        vec![(ChainParameter::AllowUpdateAccountName, 1)],
    );
    let mut ctx = TransactionContext::new();
    let long = vec![b'x'; 201];
    let r = manager.process_contract(&name_update(1, &long), &mut ctx);
    assert_eq!(r.unwrap_err(), Error::InvalidAccountName);
    assert_eq!(Error::InvalidAccountName.message(), "invalid account name");
    let exact = vec![b'x'; 200];
    assert!(manager.process_contract(&name_update(1, &exact), &mut ctx).is_ok());
}

#[test]
fn rename_of_missing_account_rejected() {
    let mut manager = manager_with(vec![], vec![(ChainParameter::AllowUpdateAccountName, 1)]);
    let mut ctx = TransactionContext::new();
    let r = manager.process_contract(&name_update(9, b"alice"), &mut ctx);
    assert_eq!(r.unwrap_err(), Error::AccountNotExists);
    assert_eq!(Error::AccountNotExists.message(), "account not exists");
}

#[test]
fn rename_with_malformed_owner_address_rejected() {
    let mut manager = manager_with(vec![], vec![(ChainParameter::AllowUpdateAccountName, 1)]);
    let mut ctx = TransactionContext::new();
    let c = ContractPb::AccountUpdate(AccountUpdateContract {
        owner_address: vec![0x41u8; 20],
        account_name: b"alice".to_vec(),
    });
    let r = manager.process_contract(&c, &mut ctx);
    assert_eq!(r.unwrap_err(), Error::InvalidOwnerAddress);
    assert_eq!(Error::InvalidOwnerAddress.message(), "invalid owner_address");
}

#[test]
fn permission_update_with_fee() {
    let mut manager = manager_with(
        vec![(1, plain_account(b"", 500_000_000))],
        vec![
            (ChainParameter::AllowMultisig, 1),
            (ChainParameter::AccountPermissionUpdateFee, 100_000_000),
        ],
    );
    let before = balances_total(&manager);
    let mut ctx = TransactionContext::new();
    let r = manager.process_contract(&permission_update(1, None), &mut ctx);
    assert!(r.is_ok());
    assert_eq!(ctx.contract_fee, 100_000_000);

    let acct = manager.state_db.get_account(&addr(1)).unwrap();
    assert_eq!(acct.balance, 400_000_000);
    let owner = acct.owner_permission.unwrap();
    assert_eq!(owner.threshold, 1);
    assert_eq!(owner.keys.len(), 1);
    assert_eq!(owner.keys[0].address, addr_bytes(1));
    assert_eq!(owner.keys[0].weight, 1);
    assert_eq!(acct.active_permissions.len(), 1);
    let active = &acct.active_permissions[0];
    assert_eq!(active.threshold, 2);
    assert_eq!(active.permission_name, b"active".to_vec());
    assert_eq!(active.operations, ops_mask(&[0, 1, 2]));
    assert_eq!(active.keys.len(), 2);
    assert_eq!(active.keys[1].address, addr_bytes(2));

    let blackhole = manager.state_db.get_account(&addr(BLACKHOLE)).unwrap();
    assert_eq!(blackhole.balance, 100_000_000);
    // the fee moved value; it destroyed none
    assert_eq!(balances_total(&manager), before);
}

#[test]
fn witness_account_requires_witness_permission() {
    let mut manager = manager_with(
        vec![(1, plain_account(b"", 500))],
        vec![(ChainParameter::AllowMultisig, 1)],
    );
    manager.state_db.put_witness(&addr(1), Witness { signature_key: addr_bytes(1) });
    let mut ctx = TransactionContext::new();
    let r = manager.process_contract(&permission_update(1, None), &mut ctx);
    assert_eq!(r.unwrap_err(), Error::MissingWitnessPermission);
    assert_eq!(Error::MissingWitnessPermission.message(), "missing witness permission");
}

#[test]
fn non_witness_with_witness_permission_rejected() {
    let mut manager = manager_with(
        vec![(1, plain_account(b"", 500))],
        vec![(ChainParameter::AllowMultisig, 1)],
    );
    let mut ctx = TransactionContext::new();
    let wit = witness_perm(1, vec![key(3, 1)]);
    let r = manager.process_contract(&permission_update(1, Some(wit)), &mut ctx);
    assert_eq!(r.unwrap_err(), Error::NotAWitness);
    assert_eq!(Error::NotAWitness.message(), "account is not a witness");
}

#[test]
fn witness_signature_key_renewed() {
    let mut manager = manager_with(
        vec![(1, plain_account(b"", 500))],
        vec![(ChainParameter::AllowMultisig, 1)],
    );
    manager.state_db.put_witness(&addr(1), Witness { signature_key: addr_bytes(1) });
    let mut ctx = TransactionContext::new();
    let wit = witness_perm(1, vec![key(3, 1)]);
    let r = manager.process_contract(&permission_update(1, Some(wit)), &mut ctx);
    assert!(r.is_ok());
    let record = manager.state_db.get_witness(&addr(1)).unwrap();
    assert_eq!(record.signature_key, addr_bytes(3));
}

#[test]
fn insufficient_balance_for_fee() {
    let mut manager = manager_with(
        vec![(1, plain_account(b"", 1))],
        vec![
            (ChainParameter::AllowMultisig, 1),
            (ChainParameter::AccountPermissionUpdateFee, 100_000_000),
        ],
    );
    let mut ctx = TransactionContext::new();
    let r = manager.process_contract(&permission_update(1, None), &mut ctx);
    assert_eq!(r.unwrap_err(), Error::InsufficientBalance);
    assert_eq!(
        Error::InsufficientBalance.message(),
        "insufficient balance to set account permission"
    );
    let acct = manager.state_db.get_account(&addr(1)).unwrap();
    assert_eq!(acct.balance, 1);
    assert!(acct.owner_permission.is_none());
}

#[test]
fn multisig_gate_closed_rejected() {
    let mut manager = manager_with(vec![(1, plain_account(b"", 500))], vec![]);
    let mut ctx = TransactionContext::new();
    let r = manager.process_contract(&permission_update(1, None), &mut ctx);
    assert_eq!(r.unwrap_err(), Error::MultisigDisabled);
    assert_eq!(Error::MultisigDisabled.message(), "multisig is disabled on chain");
}

#[test]
fn missing_owner_permission_rejected() {
    let mut manager = manager_with(
        vec![(1, plain_account(b"", 500))],
        vec![(ChainParameter::AllowMultisig, 1)],
    );
    let mut ctx = TransactionContext::new();
    let c = ContractPb::AccountPermissionUpdate(AccountPermissionUpdateContract {
        owner_address: addr_bytes(1),
        owner: None,
        witness: None,
        actives: vec![active_perm(1, vec![key(1, 1)])],
    });
    let r = manager.process_contract(&c, &mut ctx);
    assert_eq!(r.unwrap_err(), Error::MissingOwnerPermission);
    assert_eq!(Error::MissingOwnerPermission.message(), "missing owner permission");
}

#[test]
fn active_permission_count_bounds() {
    let mut manager = manager_with(
        vec![(1, plain_account(b"", 500))],
        vec![(ChainParameter::AllowMultisig, 1)],
    );
    let mut ctx = TransactionContext::new();
    let build = |n: usize| {
        ContractPb::AccountPermissionUpdate(AccountPermissionUpdateContract {
            owner_address: addr_bytes(1),
            owner: Some(owner_perm(1, vec![key(1, 1)])),
            witness: None,
            actives: (0..n).map(|_| active_perm(1, vec![key(1, 1)])).collect(),
        })
    };
    assert!(manager.process_contract(&build(8), &mut ctx).is_ok());
    let r = manager.process_contract(&build(9), &mut ctx);
    assert_eq!(r.unwrap_err(), Error::TooManyActivePermissions);
    assert_eq!(Error::TooManyActivePermissions.message(), "too many active permissions");
    let r = manager.process_contract(&build(0), &mut ctx);
    assert_eq!(r.unwrap_err(), Error::MissingActivePermissions);
    assert_eq!(Error::MissingActivePermissions.message(), "missing active permissions");
}

#[test]
fn permission_update_is_idempotent_modulo_fee() {
    let mut manager = manager_with(
        vec![(1, plain_account(b"carol", 500))],
        vec![
            (ChainParameter::AllowMultisig, 1),
            (ChainParameter::AccountPermissionUpdateFee, 100),
        ],
    );
    let mut ctx = TransactionContext::new();
    assert!(manager.process_contract(&permission_update(1, None), &mut ctx).is_ok());
    let first = manager.state_db.get_account(&addr(1)).unwrap();
    let mut ctx2 = TransactionContext::new();
    assert!(manager.process_contract(&permission_update(1, None), &mut ctx2).is_ok());
    let second = manager.state_db.get_account(&addr(1)).unwrap();

    assert_eq!(second.name, first.name);
    assert_eq!(second.balance, first.balance - 100);
    let o1 = first.owner_permission.unwrap();
    let o2 = second.owner_permission.unwrap();
    assert_eq!(o2.threshold, o1.threshold);
    assert_eq!(o2.keys.len(), o1.keys.len());
    assert_eq!(o2.keys[0].address, o1.keys[0].address);
    assert_eq!(o2.keys[0].weight, o1.keys[0].weight);
    assert_eq!(second.active_permissions.len(), first.active_permissions.len());
    let a1 = &first.active_permissions[0];
    let a2 = &second.active_permissions[0];
    assert_eq!(a2.threshold, a1.threshold);
    assert_eq!(a2.operations, a1.operations);
    assert_eq!(a2.permission_name, a1.permission_name);
}

#[test]
fn rename_then_permission_update_keeps_name() {
    let mut manager = manager_with(
        vec![(1, plain_account(b"", 500))],
        vec![
            (ChainParameter::AllowUpdateAccountName, 1),
            (ChainParameter::AllowMultisig, 1),
        ],
    );
    let mut ctx = TransactionContext::new();
    assert!(manager.process_contract(&name_update(1, b"alice"), &mut ctx).is_ok());
    let mut ctx2 = TransactionContext::new();
    assert!(manager.process_contract(&permission_update(1, None), &mut ctx2).is_ok());
    assert_eq!(manager.state_db.get_account(&addr(1)).unwrap().name, b"alice".to_vec());
}

#[test]
fn transfer_contract_unsupported() {
    let mut manager = manager_with(vec![(1, plain_account(b"", 500))], vec![]);
    let mut ctx = TransactionContext::new();
    let c = ContractPb::Transfer(TransferContract {
        owner_address: addr_bytes(1),
        to_address: addr_bytes(2),
        amount: 5,
    });
    let r = manager.process_contract(&c, &mut ctx);
    assert_eq!(r.unwrap_err(), Error::UnsupportedContract);
    assert_eq!(Error::UnsupportedContract.message(), "unsupported contract");
}
