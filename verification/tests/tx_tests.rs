use tron_actuators::address::Address;
use tron_actuators::hex_codec::{decode_hex, encode_hex};
use tron_actuators::manager::{ContractPb, TransferContract};
use tron_actuators::tx::{
    build_transfer, custom_error, send_raw_transaction_body, TransactionRaw,
    TRANSACTION_LIFETIME_MS,
};

fn addr_bytes(tag: u8) -> Vec<u8> {
    let mut v = vec![0x41u8];
    v.extend(std::iter::repeat(tag).take(20));
    v
}

fn transfer() -> ContractPb {
    ContractPb::Transfer(TransferContract {
        owner_address: addr_bytes(1),
        to_address: addr_bytes(2),
        amount: 1_000_000,
    })
}

#[test]
fn assemble_takes_reference_block_fields_from_hash() {
    let hash: Vec<u8> = (0u8..32).collect();
    let raw = TransactionRaw::assemble(transfer(), &hash, 1_000).unwrap();
    assert_eq!(raw.ref_block_bytes, vec![6u8, 7]);
    assert_eq!(raw.ref_block_hash, vec![8u8, 9, 10, 11, 12, 13, 14, 15]);
    assert_eq!(raw.expiration, 1_000 + TRANSACTION_LIFETIME_MS);
    match raw.contract {
        ContractPb::Transfer(t) => {
            assert_eq!(t.owner_address, addr_bytes(1));
            assert_eq!(t.to_address, addr_bytes(2));
            assert_eq!(t.amount, 1_000_000);
        },
        _ => panic!("wrong contract variant"),
    }
}

#[test]
fn assemble_rejects_short_hash() {
    let hash: Vec<u8> = (0u8..15).collect();
    assert!(TransactionRaw::assemble(transfer(), &hash, 1_000).is_none());
}

#[test]
fn assemble_accepts_exactly_16_byte_hash() {
    let hash: Vec<u8> = (0u8..16).collect();
    assert!(TransactionRaw::assemble(transfer(), &hash, 1_000).is_some());
}

#[test]
fn assemble_rejects_expiration_overflow() {
    let hash: Vec<u8> = (0u8..32).collect();
    assert!(TransactionRaw::assemble(transfer(), &hash, i64::MAX).is_none());
}

#[test]
fn build_transfer_copies_addresses() {
    let from = Address::from_bytes(&addr_bytes(1)).unwrap();
    let to = Address::from_bytes(&addr_bytes(2)).unwrap();
    match build_transfer(&from, &to, 42) {
        ContractPb::Transfer(t) => {
            assert_eq!(t.owner_address, addr_bytes(1));
            assert_eq!(t.to_address, addr_bytes(2));
            assert_eq!(t.amount, 42);
        },
        _ => panic!("wrong contract variant"),
    }
}

#[test]
fn broadcast_body_splices_raw_and_signature() {
    let body = send_raw_transaction_body("deadbeef", "0102");
    assert_eq!(
        body,
        "{ \"query\": \"mutation { txn: sendRawTransaction(rawData: \\\"deadbeef\\\", \
         signatures: [\\\"0102\\\"]) }\" }"
    );
}

#[test]
fn custom_error_keeps_the_message() {
    assert_eq!(custom_error("illegal contract").message, "illegal contract");
}

#[test]
fn hex_encodes_lower_case_pairs() {
    assert_eq!(encode_hex(&[0x00, 0x41, 0xde, 0xad, 0xbe, 0xef]), "0041deadbeef");
    assert_eq!(encode_hex(&[]), "");
}

#[test]
fn hex_decodes_both_cases() {
    assert_eq!(decode_hex(b"0041DEadBEef").unwrap(), vec![0x00u8, 0x41, 0xde, 0xad, 0xbe, 0xef]);
    assert_eq!(decode_hex(b"").unwrap(), Vec::<u8>::new());
}

#[test]
fn hex_rejects_odd_length_and_stray_bytes() {
    assert!(decode_hex(b"abc").is_none());
    assert!(decode_hex(b"zz").is_none());
}

#[test]
fn hex_round_trip() {
    let bytes: Vec<u8> = (0u8..=255).collect();
    let text = encode_hex(&bytes);
    assert_eq!(decode_hex(text.as_bytes()).unwrap(), bytes);
}
