use exa_substreams::{account_key, Address, KeyValueStore, Uint256, DEPLOYER, FACTORY};

#[test]
fn key_is_prefix_and_lowercase_hex() {
    assert_eq!(
        account_key(&Address::deployer()),
        "account:5ff137d4b0fdcd49dca30c7cf57e578a026d2789"
    );
    assert_eq!(
        account_key(&Address::factory()),
        "account:6e1b5a67add32e8dc034c23b8022b54821ed297b"
    );
}

#[test]
fn key_spells_every_nibble() {
    let bytes = [
        0x01, 0x23, 0x45, 0x67, 0x89, 0xab, 0xcd, 0xef, 0x00, 0xff, 0x10, 0x0f, 0xa0, 0x0a, 0x9f,
        0xf9, 0x7c, 0xc7, 0xde, 0xed,
    ];
    assert_eq!(
        account_key(&Address { bytes }),
        "account:0123456789abcdef00ff100fa00a9ff97cc7deed"
    );
    assert_eq!(account_key(&Address { bytes }).len(), 48);
}

#[test]
fn allow_listed_addresses() {
    assert_eq!(Address::deployer().bytes, DEPLOYER);
    assert_eq!(Address::factory().bytes, FACTORY);
    assert_eq!(DEPLOYER[0], 0x5F);
    assert_eq!(DEPLOYER[19], 0x89);
    assert_eq!(FACTORY[0], 0x6E);
    assert_eq!(FACTORY[19], 0x7b);
    assert_ne!(Address::deployer(), Address::factory());
}

#[test]
fn addresses_compare_by_bytes() {
    let a = Address { bytes: [7; 20] };
    let mut other = [7u8; 20];
    assert_eq!(a, Address { bytes: other });
    other[19] = 8;
    assert_ne!(a, Address { bytes: other });
    other[19] = 7;
    other[0] = 6;
    assert_ne!(a, Address { bytes: other });
}

#[test]
fn address_from_slice_wants_twenty_bytes() {
    let bytes: Vec<u8> = (0u8..20).collect();
    let address = Address::from_slice(&bytes).unwrap();
    assert_eq!(address.bytes.to_vec(), bytes);
    assert_eq!(Address::from_slice(&bytes[..19]), None);
    assert_eq!(Address::from_slice(&[0u8; 21]), None);
    assert_eq!(Address::from_slice(&[]), None);
}

#[test]
fn zero_is_all_bytes_zero() {
    assert!(Uint256 { bytes: [0; 32] }.is_zero());
    for i in 0..32 {
        let mut bytes = [0u8; 32];
        bytes[i] = 1;
        assert!(!Uint256 { bytes }.is_zero());
    }
    assert!(!Uint256 { bytes: [0xff; 32] }.is_zero());
}

#[test]
fn store_answers_with_the_last_write() {
    let (a, b) = (Address { bytes: [1; 20] }, Address { bytes: [2; 20] });
    let mut store = KeyValueStore::new();
    assert_eq!(store.get_last(&"k".to_string()), None);
    store.set("k".to_string(), a);
    store.set("other".to_string(), b);
    assert_eq!(store.get_last(&"k".to_string()), Some(a));
    assert_eq!(store.get_last(&"other".to_string()), Some(b));
    store.set("k".to_string(), b);
    assert_eq!(store.get_last(&"k".to_string()), Some(b));
    assert_eq!(store.get_last(&"other".to_string()), Some(b));
    assert_eq!(store.get_last(&"K".to_string()), None);
    assert_eq!(store.get_last(&"".to_string()), None);
}

#[test]
fn same_write_twice_changes_no_answer() {
    let a = Address { bytes: [1; 20] };
    let mut store = KeyValueStore::new();
    store.set("k".to_string(), a);
    let once = store.get_last(&"k".to_string());
    store.set("k".to_string(), a);
    assert_eq!(store.get_last(&"k".to_string()), once);
    store.set("z".to_string(), Address { bytes: [9; 20] });
    store.set("k".to_string(), a);
    assert_eq!(store.get_last(&"k".to_string()), once);
    assert_eq!(once, Some(a));
}
