use evm_conformance::codec::{
    decode_account, decode_accounts, decode_h160, decode_h256, decode_hex_data, decode_network,
    decode_number, decode_storage_word, DecodeError,
};
use evm_conformance::model::{NetworkType, RawAccountState};

#[test]
fn hex_data_round_trip() {
    let bytes = vec![0xdeu8, 0xad, 0xbe, 0xef];
    let text = format!("0x{}", "deadbeef");
    assert_eq!(decode_hex_data(&text).unwrap(), bytes);
    assert_eq!(decode_hex_data("0x").unwrap(), Vec::<u8>::new());
    assert_eq!(
        decode_hex_data("0x00112233445566778899aAbBcCdDeEfF").unwrap(),
        vec![0x00u8, 0x11, 0x22, 0x33, 0x44, 0x55, 0x66, 0x77, 0x88, 0x99, 0xaa, 0xbb, 0xcc, 0xdd, 0xee, 0xff],
    );
}

#[test]
fn hex_data_errors() {
    assert_eq!(decode_hex_data("deadbeef"), Err(DecodeError::MissingPrefix));
    assert_eq!(decode_hex_data(""), Err(DecodeError::MissingPrefix));
    assert_eq!(decode_hex_data("0xzz"), Err(DecodeError::InvalidHex));
    assert_eq!(decode_hex_data("0x123"), Err(DecodeError::InvalidHex));
}

#[test]
fn storage_word_padding_short_form() {
    let word = decode_storage_word("0x1").unwrap();
    let mut expected = [0u8; 32];
    expected[31] = 1;
    assert_eq!(word.0, expected);
}

#[test]
fn storage_word_full_width_unchanged() {
    let full = format!("0x01{}ff", "00".repeat(30));
    assert_eq!(full.len(), 66);
    let mut expected = [0u8; 32];
    expected[0] = 0x01;
    expected[31] = 0xff;
    assert_eq!(decode_storage_word(&full).unwrap().0, expected);
}

#[test]
fn storage_word_errors() {
    assert_eq!(decode_storage_word("1"), Err(DecodeError::MissingPrefix));
    assert_eq!(decode_storage_word("0xgg"), Err(DecodeError::InvalidFixedBytes));
    let too_long = format!("0x{}", "00".repeat(33));
    assert_eq!(decode_storage_word(&too_long), Err(DecodeError::InvalidFixedBytes));
}

#[test]
fn network_type_literals() {
    assert!(matches!(decode_network("Istanbul"), Ok(NetworkType::Istanbul)));
    assert!(matches!(decode_network("Berlin"), Ok(NetworkType::Berlin)));
    assert!(matches!(decode_network("London"), Ok(NetworkType::London)));
    assert!(matches!(decode_network("Merge"), Ok(NetworkType::Merge)));
}

#[test]
fn network_type_rejects_everything_else() {
    assert_eq!(
        decode_network("Homestead"),
        Err(DecodeError::UnknownNetwork("Homestead".to_string())),
    );
    assert_eq!(
        decode_network("istanbul"),
        Err(DecodeError::UnknownNetwork("istanbul".to_string())),
    );
    assert_eq!(decode_network(""), Err(DecodeError::UnknownNetwork(String::new())));
}

#[test]
fn numbers_decimal_and_hex() {
    assert_eq!(decode_number("42").unwrap().0, [42u64, 0, 0, 0]);
    assert_eq!(decode_number("0x10").unwrap().0, [16u64, 0, 0, 0]);
    assert_eq!(decode_number("").unwrap().0, [0u64, 0, 0, 0]);
    assert_eq!(decode_number("0x").unwrap().0, [0u64, 0, 0, 0]);
    assert_eq!(decode_number("18446744073709551616").unwrap().0, [0u64, 1, 0, 0]);
    assert_eq!(decode_number("0x20000").unwrap().0, [0x20000u64, 0, 0, 0]);
}

#[test]
fn numbers_errors() {
    assert_eq!(decode_number("xyz"), Err(DecodeError::InvalidNumber));
    assert_eq!(decode_number("12a"), Err(DecodeError::InvalidNumber));
    assert_eq!(decode_number("0x1g"), Err(DecodeError::InvalidNumber));
    let too_wide = format!("0x1{}", "0".repeat(64));
    assert_eq!(decode_number(&too_wide), Err(DecodeError::InvalidNumber));
    let overflow_dec = format!("1{}", "0".repeat(78));
    assert_eq!(decode_number(&overflow_dec), Err(DecodeError::InvalidNumber));
}

#[test]
fn fixed_bytes_fields() {
    let addr = decode_h160("0x095e7baea6a6c7c4c2dfeb977efac326af552d87").unwrap();
    assert_eq!(addr.0[0], 0x09);
    assert_eq!(addr.0[19], 0x87);
    let hash = decode_h256(&format!("0x11{}22", "00".repeat(30))).unwrap();
    assert_eq!(hash.0[0], 0x11);
    assert_eq!(hash.0[31], 0x22);
    let bare = decode_h160("095e7baea6a6c7c4c2dfeb977efac326af552d87").unwrap();
    assert_eq!(bare.0, addr.0);
}

#[test]
fn fixed_bytes_errors() {
    assert_eq!(decode_h160("0x1234"), Err(DecodeError::InvalidFixedBytes));
    assert_eq!(
        decode_h256(&format!("0x{}", "00".repeat(31))),
        Err(DecodeError::InvalidFixedBytes),
    );
    assert_eq!(
        decode_h160(&format!("0x{}zz", "00".repeat(19))),
        Err(DecodeError::InvalidFixedBytes),
    );
}

#[test]
fn account_decoding() {
    let raw = RawAccountState {
        balance: "0x0ba1a9ce0ba1a9ce".to_string(),
        code: "0x6001".to_string(),
        nonce: "7".to_string(),
        storage: vec![("0x1".to_string(), "0xff".to_string())],
    };
    let acct = decode_account(&raw).unwrap();
    assert_eq!(acct.balance.0, [0x0ba1a9ce0ba1a9ceu64, 0, 0, 0]);
    assert_eq!(acct.code, vec![0x60u8, 0x01]);
    assert_eq!(acct.nonce.0, [7u64, 0, 0, 0]);
    assert_eq!(acct.storage.len(), 1);
    let mut key = [0u8; 32];
    key[31] = 1;
    let mut val = [0u8; 32];
    val[31] = 0xff;
    assert_eq!(acct.storage[0].0 .0, key);
    assert_eq!(acct.storage[0].1 .0, val);
}

#[test]
fn account_decoding_first_error_wins() {
    let raw = RawAccountState {
        balance: "zz".to_string(),
        code: "6001".to_string(),
        nonce: "7".to_string(),
        storage: Vec::new(),
    };
    assert_eq!(decode_account(&raw), Err(DecodeError::InvalidNumber));
    let raw2 = RawAccountState {
        balance: "0".to_string(),
        code: "6001".to_string(),
        nonce: "zz".to_string(),
        storage: Vec::new(),
    };
    assert_eq!(decode_account(&raw2), Err(DecodeError::MissingPrefix));
}

#[test]
fn storage_dedup_is_last_wins() {
    let raw = RawAccountState {
        balance: "0".to_string(),
        code: "0x".to_string(),
        nonce: "0".to_string(),
        storage: vec![
            ("0x1".to_string(), "0x02".to_string()),
            ("0x2".to_string(), "0x05".to_string()),
            ("0x01".to_string(), "0x03".to_string()),
        ],
    };
    let acct = decode_account(&raw).unwrap();
    // 0x1 and 0x01 pad to the same 32-byte key: one entry remains, holding
    // the later value, in first-appearance order.
    assert_eq!(acct.storage.len(), 2);
    let mut key1 = [0u8; 32];
    key1[31] = 1;
    let mut val3 = [0u8; 32];
    val3[31] = 3;
    assert_eq!(acct.storage[0].0 .0, key1);
    assert_eq!(acct.storage[0].1 .0, val3);
    let mut key2 = [0u8; 32];
    key2[31] = 2;
    assert_eq!(acct.storage[1].0 .0, key2);
}

#[test]
fn account_map_dedup_is_last_wins() {
    let mk = |nonce: &str| RawAccountState {
        balance: "0".to_string(),
        code: "0x".to_string(),
        nonce: nonce.to_string(),
        storage: Vec::new(),
    };
    // Two spellings of one address: upper-case hex and bare lower-case hex.
    let entries = vec![
        (format!("0x{}", "AB".repeat(20)), mk("1")),
        (format!("{}", "ab".repeat(20)), mk("2")),
    ];
    let accounts = decode_accounts(&entries).unwrap();
    assert_eq!(accounts.len(), 1);
    assert_eq!(accounts[0].0 .0, [0xabu8; 20]);
    assert_eq!(accounts[0].1.nonce.0, [2u64, 0, 0, 0]);
}
