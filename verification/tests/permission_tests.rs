use tron_actuators::errors::Error;
use tron_actuators::permission::{check_permission, Permission, PermissionKey, PermissionType};

fn addr(tag: u8) -> Vec<u8> {
    let mut v = vec![0x41u8];
    v.extend(std::iter::repeat(tag).take(20));
    v
}

fn key(tag: u8, weight: i64) -> PermissionKey {
    PermissionKey { address: addr(tag), weight }
}

fn owner_perm(threshold: i64, keys: Vec<PermissionKey>) -> Permission {
    Permission { threshold, name: b"owner".to_vec(), parent_id: 0, operations: Vec::new(), keys }
}

/// A 32-byte operations mask with only the given bit positions set.
fn ops_mask(bits: &[usize]) -> Vec<u8> {
    let mut ops = vec![0u8; 32];
    for &b in bits {
        ops[b / 8] |= 1 << (b % 8);
    }
    ops
}

fn active_perm(threshold: i64, keys: Vec<PermissionKey>, ops: Vec<u8>) -> Permission {
    Permission { threshold, name: b"active".to_vec(), parent_id: 0, operations: ops, keys }
}

#[test]
fn five_keys_accepted() {
    let keys = (0u8..5).map(|t| key(t, 1)).collect();
    assert_eq!(check_permission(&owner_perm(1, keys), PermissionType::Owner), Ok(()));
}

#[test]
fn six_keys_rejected() {
    let keys = (0u8..6).map(|t| key(t, 1)).collect();
    let r = check_permission(&owner_perm(1, keys), PermissionType::Owner);
    assert_eq!(r, Err(Error::TooManyKeys));
    assert_eq!(
        r.unwrap_err().message(),
        "number of keys in permission should not be greater than 5"
    );
}

#[test]
fn no_keys_rejected() {
    let r = check_permission(&owner_perm(1, Vec::new()), PermissionType::Owner);
    assert_eq!(r, Err(Error::NoPermissionKey));
    assert_eq!(r.unwrap_err().message(), "no permission key provided");
}

#[test]
fn threshold_zero_rejected() {
    let r = check_permission(&owner_perm(0, vec![key(1, 1)]), PermissionType::Owner);
    assert_eq!(r, Err(Error::ThresholdTooSmall));
    assert_eq!(r.unwrap_err().message(), "permission threshold should be greater than 0");
}

#[test]
fn threshold_one_single_weight_one_key_accepted() {
    assert_eq!(check_permission(&owner_perm(1, vec![key(1, 1)]), PermissionType::Owner), Ok(()));
}

#[test]
fn permission_name_33_bytes_rejected() {
    let mut p = owner_perm(1, vec![key(1, 1)]);
    p.name = vec![b'x'; 33];
    let r = check_permission(&p, PermissionType::Owner);
    assert_eq!(r, Err(Error::PermissionNameTooLong));
    assert_eq!(r.unwrap_err().message(), "permission name is too long");
}

#[test]
fn permission_name_32_bytes_accepted() {
    let mut p = owner_perm(1, vec![key(1, 1)]);
    p.name = vec![b'x'; 32];
    assert_eq!(check_permission(&p, PermissionType::Owner), Ok(()));
}

#[test]
fn nonzero_parent_id_rejected() {
    let mut p = owner_perm(1, vec![key(1, 1)]);
    p.parent_id = 2;
    let r = check_permission(&p, PermissionType::Owner);
    assert_eq!(r, Err(Error::InvalidParentId));
    assert_eq!(r.unwrap_err().message(), "parent_id must be 0(owner)");
}

#[test]
fn malformed_key_address_rejected() {
    let mut bad = key(1, 1);
    bad.address = vec![0x41u8; 20];
    let r = check_permission(&owner_perm(1, vec![bad]), PermissionType::Owner);
    assert_eq!(r, Err(Error::InvalidKeyAddress));
    assert_eq!(r.unwrap_err().message(), "invalid key address");
}

#[test]
fn zero_weight_rejected() {
    let r = check_permission(&owner_perm(1, vec![key(1, 0)]), PermissionType::Owner);
    assert_eq!(r, Err(Error::KeyWeightTooSmall));
    assert_eq!(r.unwrap_err().message(), "weight of key should be greater than 0");
}

#[test]
fn weight_sum_overflow_rejected() {
    let keys = vec![key(1, i64::MAX), key(2, 1)];
    let r = check_permission(&owner_perm(1, keys), PermissionType::Owner);
    assert_eq!(r, Err(Error::MathOverflow));
    assert_eq!(r.unwrap_err().message(), "math overflow");
}

#[test]
fn duplicated_address_rejected_before_weight_sum_check() {
    // the duplicate wins even though the weight sum (2) is under the
    // threshold (3)
    let keys = vec![key(1, 1), key(1, 1)];
    let r = check_permission(&active_perm(3, keys, ops_mask(&[1])), PermissionType::Active);
    assert_eq!(r, Err(Error::DuplicatedAddress));
    assert_eq!(r.unwrap_err().message(), "duplicated address in keys");
}

#[test]
fn weight_sum_below_threshold_rejected() {
    let keys = vec![key(1, 1), key(2, 1)];
    let r = check_permission(&owner_perm(3, keys), PermissionType::Owner);
    assert_eq!(r, Err(Error::WeightSumTooSmall));
    assert_eq!(
        r.unwrap_err().message(),
        "sum of all weights should be greater than threshold"
    );
}

#[test]
fn owner_with_operations_rejected() {
    let mut p = owner_perm(1, vec![key(1, 1)]);
    p.operations = ops_mask(&[1]);
    let r = check_permission(&p, PermissionType::Owner);
    assert_eq!(r, Err(Error::OperationsNotNeeded));
    assert_eq!(r.unwrap_err().message(), "no operations vec needed");
}

#[test]
fn witness_with_operations_rejected() {
    let mut p = owner_perm(1, vec![key(1, 1)]);
    p.operations = ops_mask(&[1]);
    assert_eq!(check_permission(&p, PermissionType::Witness), Err(Error::OperationsNotNeeded));
}

#[test]
fn active_with_short_operations_rejected() {
    let p = active_perm(1, vec![key(1, 1)], vec![0u8; 31]);
    let r = check_permission(&p, PermissionType::Active);
    assert_eq!(r, Err(Error::OperationsLengthWrong));
    assert_eq!(r.unwrap_err().message(), "operations vec length must be 32");
}

#[test]
fn active_with_empty_operations_rejected() {
    let p = active_perm(1, vec![key(1, 1)], Vec::new());
    assert_eq!(check_permission(&p, PermissionType::Active), Err(Error::OperationsLengthWrong));
}

#[test]
fn active_with_defined_operations_accepted() {
    let p = active_perm(1, vec![key(1, 1)], ops_mask(&[0, 1, 2, 10, 46]));
    assert_eq!(check_permission(&p, PermissionType::Active), Ok(()));
}

#[test]
fn active_with_undefined_operation_rejected() {
    let p = active_perm(1, vec![key(1, 1)], ops_mask(&[1, 7]));
    let r = check_permission(&p, PermissionType::Active);
    assert_eq!(r, Err(Error::UndefinedOperation(7)));
    assert_eq!(r.unwrap_err().message(), "operation of 7 is undefined");
}

#[test]
fn active_with_high_undefined_operation_rejected() {
    let p = active_perm(1, vec![key(1, 1)], ops_mask(&[1, 200]));
    let r = check_permission(&p, PermissionType::Active);
    assert_eq!(r, Err(Error::UndefinedOperation(200)));
    assert_eq!(r.unwrap_err().message(), "operation of 200 is undefined");
}

#[test]
fn lowest_undefined_operation_reported() {
    let p = active_perm(1, vec![key(1, 1)], ops_mask(&[21, 29, 255]));
    assert_eq!(check_permission(&p, PermissionType::Active), Err(Error::UndefinedOperation(21)));
}
