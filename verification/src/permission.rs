//! The permission algebra: structural and semantic validation of multisig
//! permission descriptors.

use vstd::prelude::*;

use crate::address::{bytes_eq, spec_is_valid_address, ADDRESS_LEN};
use crate::errors::Error;

verus! {

/// Most keys one permission may carry.
pub const MAX_KEYS_PER_PERMISSION: usize = 5;

/// Most active permissions one account may carry.
pub const MAX_ACTIVE_PERMISSIONS: usize = 8;

/// Longest account name, in bytes.
pub const MAX_ACCOUNT_NAME_BYTES: usize = 200;

/// Longest permission name, in bytes.
pub const PERMISSION_NAME_MAX_BYTES: usize = 32;

/// Exact width of an active permission's operations mask, in bytes.
pub const PERMISSION_OPERATIONS_BYTES: usize = 32;

/// Which slot of an account a permission descriptor is destined for.
#[derive(Clone, Copy, Debug, PartialEq, Eq, Structural)]
pub enum PermissionType {
    Owner,
    Witness,
    Active,
}

/// One weighted key of a permission.
pub struct PermissionKey {
    pub address: Vec<u8>,
    pub weight: i64,
}

/// Mathematical form of a weighted key.
#[verifier::ext_equal]
pub ghost struct KeyV {
    pub address: Seq<u8>,
    pub weight: int,
}

impl View for PermissionKey {
    type V = KeyV;

    open spec fn view(&self) -> KeyV {
        KeyV { address: self.address@, weight: self.weight as int }
    }
}

/// The mathematical form of a key sequence.
pub open spec fn keys_view(s: Seq<PermissionKey>) -> Seq<KeyV> {
    s.map_values(|k: PermissionKey| k@)
}

/// A permission descriptor as it arrives on the wire.
pub struct Permission {
    pub threshold: i64,
    pub name: Vec<u8>,
    pub parent_id: i32,
    pub operations: Vec<u8>,
    pub keys: Vec<PermissionKey>,
}

/// Mathematical form of a permission descriptor.
#[verifier::ext_equal]
pub ghost struct PermissionV {
    pub threshold: int,
    pub name: Seq<u8>,
    pub parent_id: int,
    pub operations: Seq<u8>,
    pub keys: Seq<KeyV>,
}

impl View for Permission {
    type V = PermissionV;

    open spec fn view(&self) -> PermissionV {
        PermissionV {
            threshold: self.threshold as int,
            name: self.name@,
            parent_id: self.parent_id as int,
            operations: self.operations@,
            keys: keys_view(self.keys@),
        }
    }
}

/// Whether `code` is a defined contract-type code of the protocol's closed
/// enumeration of built-in contracts.
pub open spec fn spec_contract_type_defined(code: int) -> bool {
    ||| 0 <= code <= 6
    ||| 8 <= code <= 20
    ||| 30 <= code <= 33
    ||| 41 <= code <= 46
    ||| code == 48
    ||| code == 49
    ||| 51 <= code <= 53
}

/// Executable mirror of [`spec_contract_type_defined`].
pub fn contract_type_defined(code: u16) -> (r: bool)
    ensures
        r == spec_contract_type_defined(code as int),
{
    (code <= 6) || (8 <= code && code <= 20) || (30 <= code && code <= 33) || (41 <= code
        && code <= 46) || code == 48 || code == 49 || (51 <= code && code <= 53)
}

/// Whether bit `i` of the little-endian operations mask `ops` is set.
pub open spec fn spec_op_bit(ops: Seq<u8>, i: int) -> bool {
    (ops[i / 8] >> ((i % 8) as u8)) & 1 != 0
}

/// The lowest bit position in `start..256` that is set in `ops` but is not a
/// defined contract-type code; 256 when there is none.
pub open spec fn spec_first_undefined_operation(ops: Seq<u8>, start: int) -> int
    decreases 256 - start,
{
    if !(0 <= start < 256) {
        256
    } else if spec_op_bit(ops, start) && !spec_contract_type_defined(start) {
        start
    } else {
        spec_first_undefined_operation(ops, start + 1)
    }
}

/// The verdict of scanning a permission's keys from index `i` on, carrying the
/// weight sum accumulated so far.  Checks stand in the reference order:
/// address form, weight positivity, overflow of the running sum, duplicate
/// against every earlier key.
pub open spec fn spec_check_keys(keys: Seq<KeyV>, i: int, sum: int) -> Result<int, Error>
    decreases keys.len() - i,
{
    if !(0 <= i < keys.len()) {
        Ok(sum)
    } else if !spec_is_valid_address(keys[i].address) {
        Err(Error::InvalidKeyAddress)
    } else if keys[i].weight <= 0 {
        Err(Error::KeyWeightTooSmall)
    } else if sum + keys[i].weight > i64::MAX {
        Err(Error::MathOverflow)
    } else if exists|j: int| 0 <= j < i && keys[j].address == keys[i].address {
        Err(Error::DuplicatedAddress)
    } else {
        spec_check_keys(keys, i + 1, sum + keys[i].weight)
    }
}

/// The verdict of the whole permission check, mirroring the reference node's
/// rule order exactly, so that every node rejects with the same diagnostic.
pub open spec fn spec_check_permission(p: PermissionV, pt: PermissionType) -> Result<(), Error> {
    if p.keys.len() > MAX_KEYS_PER_PERMISSION {
        Err(Error::TooManyKeys)
    } else if p.keys.len() == 0 {
        Err(Error::NoPermissionKey)
    } else if p.threshold <= 0 {
        Err(Error::ThresholdTooSmall)
    } else if p.name.len() > PERMISSION_NAME_MAX_BYTES {
        Err(Error::PermissionNameTooLong)
    } else if p.parent_id != 0 {
        Err(Error::InvalidParentId)
    } else {
        match spec_check_keys(p.keys, 0, 0) {
            Err(e) => Err(e),
            Ok(weight_sum) => {
                if weight_sum < p.threshold {
                    Err(Error::WeightSumTooSmall)
                } else {
                    match pt {
                        PermissionType::Owner | PermissionType::Witness => {
                            if p.operations.len() != 0 {
                                Err(Error::OperationsNotNeeded)
                            } else {
                                Ok(())
                            }
                        },
                        PermissionType::Active => {
                            if p.operations.len() != PERMISSION_OPERATIONS_BYTES {
                                Err(Error::OperationsLengthWrong)
                            } else {
                                let u = spec_first_undefined_operation(p.operations, 0);
                                if u < 256 {
                                    Err(Error::UndefinedOperation(u as u16))
                                } else {
                                    Ok(())
                                }
                            }
                        },
                    }
                }
            },
        }
    }
}

/// Validates one permission descriptor for the expected slot.  The rule order
/// is consensus-relevant and matches the reference node; in particular the
/// scan of all 256 mask bit positions is kept as the reference node has it,
/// even though codes past the highest defined one can never be reached.
#[verifier::loop_isolation(false)]
pub fn check_permission(perm: &Permission, perm_type: PermissionType) -> (r: Result<(), Error>)
    ensures
        r == spec_check_permission(perm@, perm_type),
{
    if perm.keys.len() > MAX_KEYS_PER_PERMISSION {
        return Err(Error::TooManyKeys);
    }
    if perm.keys.len() == 0 {
        return Err(Error::NoPermissionKey);
    }
    if perm.threshold <= 0 {
        return Err(Error::ThresholdTooSmall);
    }
    if perm.name.len() > PERMISSION_NAME_MAX_BYTES {
        return Err(Error::PermissionNameTooLong);
    }
    if perm.parent_id != 0 {
        return Err(Error::InvalidParentId);
    }
    let ghost gkeys = perm@.keys;
    let mut weight_sum: i64 = 0;
    let mut i: usize = 0;
    while i < perm.keys.len()
        invariant
            gkeys == perm@.keys,
            gkeys.len() == perm.keys@.len(),
            forall|k: int| 0 <= k < gkeys.len() ==> gkeys[k] == perm.keys@[k]@,
            0 <= i <= gkeys.len(),
            0 <= weight_sum,
            spec_check_keys(gkeys, 0, 0) == spec_check_keys(gkeys, i as int, weight_sum as int),
        decreases gkeys.len() - i,
    {
        let key = &perm.keys[i];
        if key.address.len() != ADDRESS_LEN {
            proof {
                assert(spec_check_keys(gkeys, i as int, weight_sum as int) == Err::<int, Error>(
                    Error::InvalidKeyAddress,
                ));
            }
            return Err(Error::InvalidKeyAddress);
        }
        if key.weight <= 0 {
            proof {
                assert(spec_check_keys(gkeys, i as int, weight_sum as int) == Err::<int, Error>(
                    Error::KeyWeightTooSmall,
                ));
            }
            return Err(Error::KeyWeightTooSmall);
        }
        let next_sum = match weight_sum.checked_add(key.weight) {
            Some(s) => s,
            None => {
                proof {
                    assert(spec_check_keys(gkeys, i as int, weight_sum as int) == Err::<
                        int,
                        Error,
                    >(Error::MathOverflow));
                }
                return Err(Error::MathOverflow);
            },
        };
        let mut j: usize = 0;
        while j < i
            invariant
                gkeys == perm@.keys,
                gkeys.len() == perm.keys@.len(),
                forall|k: int| 0 <= k < gkeys.len() ==> gkeys[k] == perm.keys@[k]@,
                0 <= j <= i < gkeys.len(),
                forall|k: int| 0 <= k < j ==> gkeys[k].address != gkeys[i as int].address,
            decreases i - j,
        {
            if bytes_eq(perm.keys[j].address.as_slice(), perm.keys[i].address.as_slice()) {
                proof {
                    assert(gkeys[j as int].address == gkeys[i as int].address);
                    assert(spec_check_keys(gkeys, i as int, weight_sum as int) == Err::<
                        int,
                        Error,
                    >(Error::DuplicatedAddress));
                }
                return Err(Error::DuplicatedAddress);
            }
            j += 1;
        }
        weight_sum = next_sum;
        i += 1;
    }
    if weight_sum < perm.threshold {
        return Err(Error::WeightSumTooSmall);
    }
    match perm_type {
        PermissionType::Owner | PermissionType::Witness => {
            if perm.operations.len() != 0 {
                return Err(Error::OperationsNotNeeded);
            }
            Ok(())
        },
        PermissionType::Active => {
            if perm.operations.len() != PERMISSION_OPERATIONS_BYTES {
                return Err(Error::OperationsLengthWrong);
            }
            let ghost gops = perm@.operations;
            let mut t: usize = 0;
            while t < 256
                invariant
                    gops == perm@.operations,
                    gops.len() == PERMISSION_OPERATIONS_BYTES,
                    gops.len() == perm.operations@.len(),
                    forall|k: int| 0 <= k < gops.len() ==> gops[k] == perm.operations@[k],
                    0 <= t <= 256,
                    spec_first_undefined_operation(gops, 0) == spec_first_undefined_operation(
                        gops,
                        t as int,
                    ),
                decreases 256 - t,
            {
                let mask = (perm.operations[t / 8] >> ((t % 8) as u8)) & 1;
                if mask != 0 && !contract_type_defined(t as u16) {
                    proof {
                        assert(spec_op_bit(gops, t as int));
                        assert(spec_first_undefined_operation(gops, t as int) == t as int);
                    }
                    return Err(Error::UndefinedOperation(t as u16));
                }
                t += 1;
            }
            Ok(())
        },
    }
}

/// The total weight of a key sequence.
pub open spec fn sum_weights(keys: Seq<KeyV>) -> int
    decreases keys.len(),
{
    if keys.len() == 0 {
        0
    } else {
        keys[0].weight + sum_weights(keys.drop_first())
    }
}

proof fn lemma_check_keys_ok(keys: Seq<KeyV>, i: int, sum: int)
    requires
        0 <= i <= keys.len(),
        spec_check_keys(keys, i, sum) is Ok,
    ensures
        spec_check_keys(keys, i, sum) == Ok::<int, Error>(sum + sum_weights(keys.skip(i))),
        forall|k: int| i <= k < keys.len() ==> keys[k].weight > 0,
        forall|k: int, l: int|
            i <= k < keys.len() && 0 <= l < k ==> keys[k].address != keys[l].address,
    decreases keys.len() - i,
{
    if i == keys.len() {
        assert(keys.skip(i) =~= Seq::<KeyV>::empty());
    } else {
        lemma_check_keys_ok(keys, i + 1, sum + keys[i].weight);
        assert(keys.skip(i).drop_first() =~= keys.skip(i + 1));
        assert(keys.skip(i)[0] == keys[i]);
    }
}

/// What holds of every accepted permission descriptor: a positive threshold,
/// strictly positive weights, pairwise distinct key addresses, and a weight
/// sum that reaches the threshold.
pub proof fn lemma_accepted_permission_invariants(p: PermissionV, pt: PermissionType)
    requires
        spec_check_permission(p, pt) is Ok,
    ensures
        p.threshold > 0,
        0 < p.keys.len() <= MAX_KEYS_PER_PERMISSION,
        sum_weights(p.keys) >= p.threshold,
        forall|k: int| 0 <= k < p.keys.len() ==> p.keys[k].weight > 0,
        forall|k: int, l: int|
            0 <= k < p.keys.len() && 0 <= l < p.keys.len() && k != l ==> p.keys[k].address
                != p.keys[l].address,
{
    lemma_check_keys_ok(p.keys, 0, 0);
    assert(p.keys.skip(0) =~= p.keys);
    assert forall|k: int, l: int|
        0 <= k < p.keys.len() && 0 <= l < p.keys.len() && k != l implies p.keys[k].address
        != p.keys[l].address by {
        if l < k {
            assert(p.keys[k].address != p.keys[l].address);
        } else {
            assert(p.keys[l].address != p.keys[k].address);
        }
    }
}

} // verus!
