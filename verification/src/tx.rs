//! Assembly of a raw transaction around one contract, and the fixed bodies
//! of the front end's RPC requests.

use vstd::prelude::*;
use vstd::string::StringExecFns;

use crate::address::{copy_bytes_of_slice, Address};
use crate::manager::{ContractPb, ContractPbV, TransferContract};

verus! {

/// Milliseconds a freshly assembled transaction stays valid.
pub const TRANSACTION_LIFETIME_MS: i64 = 60_000;

/// A raw transaction as it is signed and broadcast: one contract, the
/// reference-block abbreviation of a recent block hash, and an expiration
/// timestamp in milliseconds since the epoch.
pub struct TransactionRaw {
    pub contract: ContractPb,
    pub ref_block_bytes: Vec<u8>,
    pub ref_block_hash: Vec<u8>,
    pub expiration: i64,
}

/// An owned copy of `src[from..to]`.
pub fn copy_range(src: &[u8], from: usize, to: usize) -> (r: Vec<u8>)
    requires
        from <= to <= src@.len(),
    ensures
        r@ == src@.subrange(from as int, to as int),
{
    let mut out: Vec<u8> = Vec::new();
    let mut i: usize = from;
    while i < to
        invariant
            from <= i <= to <= src@.len(),
            out@ == src@.subrange(from as int, i as int),
        decreases to - i,
    {
        out.push(src[i]);
        proof {
            assert(out@ =~= src@.subrange(from as int, i + 1 as int));
        }
        i += 1;
    }
    out
}

impl TransactionRaw {
    /// Assembles a raw transaction around a contract: the reference-block
    /// fields are bytes 6..8 and 8..16 of a recent block hash, and the
    /// expiration is the current time plus the transaction lifetime.  Fails
    /// exactly when the hash is shorter than 16 bytes or the expiration
    /// would not fit a 64-bit millisecond timestamp.
    pub fn assemble(contract: ContractPb, block_hash: &[u8], now_ms: i64) -> (r: Option<
        TransactionRaw,
    >)
        ensures
            r is Some <==> block_hash@.len() >= 16 && now_ms + TRANSACTION_LIFETIME_MS
                <= i64::MAX,
            r is Some ==> {
                let t = r.unwrap();
                &&& t.contract == contract
                &&& t.ref_block_bytes@ == block_hash@.subrange(6, 8)
                &&& t.ref_block_hash@ == block_hash@.subrange(8, 16)
                &&& t.expiration == now_ms + TRANSACTION_LIFETIME_MS
            },
    {
        if block_hash.len() < 16 {
            return None;
        }
        let expiration = match now_ms.checked_add(TRANSACTION_LIFETIME_MS) {
            Some(e) => e,
            None => {
                return None;
            },
        };
        Some(
            TransactionRaw {
                contract,
                ref_block_bytes: copy_range(block_hash, 6, 8),
                ref_block_hash: copy_range(block_hash, 8, 16),
                expiration,
            },
        )
    }
}

/// The transfer contract the front end assembles from parsed arguments.
pub fn build_transfer(from: &Address, to: &Address, amount: i64) -> (r: ContractPb)
    ensures
        (r@ matches ContractPbV::Transfer(t) && t.owner_address == from@ && t.to_address == to@
            && t.amount == amount as int),
{
    ContractPb::Transfer(
        TransferContract {
            owner_address: copy_bytes_of_slice(from.as_bytes()),
            to_address: copy_bytes_of_slice(to.as_bytes()),
            amount,
        },
    )
}

/// The JSON body of the broadcast mutation: the hex transaction and its hex
/// signature spliced into the fixed GraphQL template.
pub fn send_raw_transaction_body(raw: &str, signature: &str) -> (r: String)
    ensures
        r@ == "{ \"query\": \"mutation { txn: sendRawTransaction(rawData: \\\""@ + raw@
            + "\\\", signatures: [\\\""@ + signature@ + "\\\"]) }\" }"@,
{
    let mut body = String::new();
    body.append("{ \"query\": \"mutation { txn: sendRawTransaction(rawData: \\\"");
    body.append(raw);
    body.append("\\\", signatures: [\\\"");
    body.append(signature);
    body.append("\\\"]) }\" }");
    proof {
        assert(body@ =~= "{ \"query\": \"mutation { txn: sendRawTransaction(rawData: \\\""@ + raw@
            + "\\\", signatures: [\\\""@ + signature@ + "\\\"]) }\" }"@);
    }
    body
}

/// An error of the command-line front end, carrying a plain message.
pub struct CliError {
    pub message: String,
}

/// Wraps a diagnostic message in the front end's error value.
pub fn custom_error(msg: &str) -> (r: CliError)
    ensures
        r.message@ == msg@,
{
    CliError { message: msg.to_owned() }
}

} // verus!
