//! The closed set of rejections the actuator core can produce.

use vstd::prelude::*;
use vstd::string::StringExecFns;

verus! {

/// One diagnostic per protocol rule that a contract can break.  The variants
/// follow the reference node's rejection messages one for one; [`Error::message`]
/// renders the exact human-readable string for each.
#[derive(Clone, Copy, Debug, PartialEq, Eq, Structural)]
pub enum Error {
    /// Account name longer than the protocol maximum.
    InvalidAccountName,
    /// The contract's owner address does not parse as an address.
    InvalidOwnerAddress,
    /// No account record exists for the owner address.
    AccountNotExists,
    /// The account already carries a name and renaming is gated off.
    AccountNameAlreadyExists,
    /// Another account already holds the requested name (legacy gate).
    SameAccountNameExists,
    /// The multisig feature gate is off.
    MultisigDisabled,
    /// The permission update carries no owner permission.
    MissingOwnerPermission,
    /// The account is a witness but no witness permission was supplied.
    MissingWitnessPermission,
    /// A witness permission was supplied for a non-witness account.
    NotAWitness,
    /// The permission update carries no active permissions.
    MissingActivePermissions,
    /// More active permissions than the protocol maximum.
    TooManyActivePermissions,
    /// The account balance cannot cover the permission-update fee.
    InsufficientBalance,
    /// More keys in one permission than the protocol maximum.
    TooManyKeys,
    /// A permission with no keys at all.
    NoPermissionKey,
    /// A permission threshold that is not strictly positive.
    ThresholdTooSmall,
    /// A permission name longer than the protocol maximum.
    PermissionNameTooLong,
    /// A permission whose parent id is not the owner permission's id.
    InvalidParentId,
    /// A key address that does not parse as an address.
    InvalidKeyAddress,
    /// A key weight that is not strictly positive.
    KeyWeightTooSmall,
    /// The key weights overflow a signed 64-bit sum.
    MathOverflow,
    /// The same address appears twice among a permission's keys.
    DuplicatedAddress,
    /// The key weights sum to less than the threshold.
    WeightSumTooSmall,
    /// An owner or witness permission carrying an operations mask.
    OperationsNotNeeded,
    /// An active permission whose operations mask is not exactly 32 bytes.
    OperationsLengthWrong,
    /// An active permission mask with a bit set at an undefined contract-type
    /// code; the payload is the offending bit position.
    UndefinedOperation(u16),
    /// A contract variant no actuator handles.
    UnsupportedContract,
}

/// The decimal character for one digit value.
pub open spec fn spec_digit_char(d: int) -> char {
    if d == 0 {
        '0'
    } else if d == 1 {
        '1'
    } else if d == 2 {
        '2'
    } else if d == 3 {
        '3'
    } else if d == 4 {
        '4'
    } else if d == 5 {
        '5'
    } else if d == 6 {
        '6'
    } else if d == 7 {
        '7'
    } else if d == 8 {
        '8'
    } else {
        '9'
    }
}

/// The decimal rendering of a non-negative number.
pub open spec fn spec_dec_digits(n: int) -> Seq<char>
    decreases n,
{
    if n < 10 {
        seq![spec_digit_char(n)]
    } else {
        spec_dec_digits(n / 10).push(spec_digit_char(n % 10))
    }
}

/// One decimal digit as a string slice.
fn digit_str(d: u8) -> (r: &'static str)
    requires
        d < 10,
    ensures
        r@ == seq![spec_digit_char(d as int)],
{
    proof {
        reveal_strlit("0");
        reveal_strlit("1");
        reveal_strlit("2");
        reveal_strlit("3");
        reveal_strlit("4");
        reveal_strlit("5");
        reveal_strlit("6");
        reveal_strlit("7");
        reveal_strlit("8");
        reveal_strlit("9");
    }
    let r = if d == 0 {
        "0"
    } else if d == 1 {
        "1"
    } else if d == 2 {
        "2"
    } else if d == 3 {
        "3"
    } else if d == 4 {
        "4"
    } else if d == 5 {
        "5"
    } else if d == 6 {
        "6"
    } else if d == 7 {
        "7"
    } else if d == 8 {
        "8"
    } else {
        "9"
    };
    proof {
        assert(r@ =~= seq![spec_digit_char(d as int)]);
    }
    r
}

/// The decimal rendering of a number, as the diagnostic line embeds it.
fn dec_str(n: u16) -> (r: String)
    ensures
        r@ == spec_dec_digits(n as int),
    decreases n,
{
    if n < 10 {
        digit_str(n as u8).to_owned()
    } else {
        let mut s = dec_str(n / 10);
        s.append(digit_str((n % 10) as u8));
        proof {
            assert(s@ =~= spec_dec_digits((n / 10) as int).push(
                spec_digit_char((n % 10) as int),
            ));
        }
        s
    }
}

impl Error {
    /// The reference node's diagnostic line for this rejection; every node
    /// must produce these strings byte for byte.
    pub open spec fn spec_message(self) -> Seq<char> {
        match self {
            Error::InvalidAccountName => "invalid account name"@,
            Error::InvalidOwnerAddress => "invalid owner_address"@,
            Error::AccountNotExists => "account not exists"@,
            Error::AccountNameAlreadyExists => "account name already exists"@,
            Error::SameAccountNameExists => "the same account name already exists"@,
            Error::MultisigDisabled => "multisig is disabled on chain"@,
            Error::MissingOwnerPermission => "missing owner permission"@,
            Error::MissingWitnessPermission => "missing witness permission"@,
            Error::NotAWitness => "account is not a witness"@,
            Error::MissingActivePermissions => "missing active permissions"@,
            Error::TooManyActivePermissions => "too many active permissions"@,
            Error::InsufficientBalance => "insufficient balance to set account permission"@,
            Error::TooManyKeys => "number of keys in permission should not be greater than 5"@,
            Error::NoPermissionKey => "no permission key provided"@,
            Error::ThresholdTooSmall => "permission threshold should be greater than 0"@,
            Error::PermissionNameTooLong => "permission name is too long"@,
            Error::InvalidParentId => "parent_id must be 0(owner)"@,
            Error::InvalidKeyAddress => "invalid key address"@,
            Error::KeyWeightTooSmall => "weight of key should be greater than 0"@,
            Error::MathOverflow => "math overflow"@,
            Error::DuplicatedAddress => "duplicated address in keys"@,
            Error::WeightSumTooSmall => "sum of all weights should be greater than threshold"@,
            Error::OperationsNotNeeded => "no operations vec needed"@,
            Error::OperationsLengthWrong => "operations vec length must be 32"@,
            Error::UndefinedOperation(i) => "operation of "@ + spec_dec_digits(i as int)
                + " is undefined"@,
            Error::UnsupportedContract => "unsupported contract"@,
        }
    }

    /// Renders the diagnostic line.
    pub fn message(&self) -> (r: String)
        ensures
            r@ == self.spec_message(),
    {
        match self {
            Error::InvalidAccountName => "invalid account name".to_owned(),
            Error::InvalidOwnerAddress => "invalid owner_address".to_owned(),
            Error::AccountNotExists => "account not exists".to_owned(),
            Error::AccountNameAlreadyExists => "account name already exists".to_owned(),
            Error::SameAccountNameExists => "the same account name already exists".to_owned(),
            Error::MultisigDisabled => "multisig is disabled on chain".to_owned(),
            Error::MissingOwnerPermission => "missing owner permission".to_owned(),
            Error::MissingWitnessPermission => "missing witness permission".to_owned(),
            Error::NotAWitness => "account is not a witness".to_owned(),
            Error::MissingActivePermissions => "missing active permissions".to_owned(),
            Error::TooManyActivePermissions => "too many active permissions".to_owned(),
            Error::InsufficientBalance => "insufficient balance to set account permission"
                .to_owned(),
            Error::TooManyKeys => "number of keys in permission should not be greater than 5"
                .to_owned(),
            Error::NoPermissionKey => "no permission key provided".to_owned(),
            Error::ThresholdTooSmall => "permission threshold should be greater than 0".to_owned(),
            Error::PermissionNameTooLong => "permission name is too long".to_owned(),
            Error::InvalidParentId => "parent_id must be 0(owner)".to_owned(),
            Error::InvalidKeyAddress => "invalid key address".to_owned(),
            Error::KeyWeightTooSmall => "weight of key should be greater than 0".to_owned(),
            Error::MathOverflow => "math overflow".to_owned(),
            Error::DuplicatedAddress => "duplicated address in keys".to_owned(),
            Error::WeightSumTooSmall => "sum of all weights should be greater than threshold"
                .to_owned(),
            Error::OperationsNotNeeded => "no operations vec needed".to_owned(),
            Error::OperationsLengthWrong => "operations vec length must be 32".to_owned(),
            Error::UndefinedOperation(i) => {
                let mut s = "operation of ".to_owned();
                s.append(dec_str(*i).as_str());
                s.append(" is undefined");
                proof {
                    assert(s@ =~= "operation of "@ + spec_dec_digits(*i as int)
                        + " is undefined"@);
                }
                s
            },
            Error::UnsupportedContract => "unsupported contract".to_owned(),
        }
    }
}

} // verus!
