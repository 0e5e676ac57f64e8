use exa_substreams::{
    decode_block, decode_log, decode_payload, map_accounts, map_transfers, store_accounts,
    AccountDeployedEvent, Address, EventPayload, KeyValueStore, LogEntry, RawLog, Transfer,
    TransferEvent, Uint256, ACCOUNT_DEPLOYED_TOPIC, TRANSFER_TOPIC,
};

fn address(byte: u8) -> Address {
    Address { bytes: [byte; 20] }
}

fn word_of(address: &Address) -> Vec<u8> {
    let mut word = vec![0u8; 12];
    word.extend_from_slice(&address.bytes);
    word
}

fn amount_word(value: u64) -> Vec<u8> {
    let mut word = vec![0u8; 24];
    word.extend_from_slice(&value.to_be_bytes());
    word
}

fn raw_transfer(emitter: &Address, from: &Address, to: &Address, value: u64) -> RawLog {
    RawLog {
        address: emitter.bytes.to_vec(),
        topics: vec![TRANSFER_TOPIC.to_vec(), word_of(from), word_of(to)],
        data: amount_word(value),
    }
}

fn raw_deploy(emitter: &Address, sender: &Address, factory: &Address, paymaster: &Address) -> RawLog {
    let mut data = word_of(factory);
    data.extend(word_of(paymaster));
    RawLog {
        address: emitter.bytes.to_vec(),
        topics: vec![ACCOUNT_DEPLOYED_TOPIC.to_vec(), vec![0x77; 32], word_of(sender)],
        data,
    }
}

#[test]
fn signature_hashes() {
    assert_eq!(
        TRANSFER_TOPIC.iter().map(|b| format!("{:02x}", b)).collect::<String>(),
        "ddf252ad1be2c89b69c2b068fc378daa952ba7f163c4a11628f55a4df523b3ef"
    );
    assert_eq!(
        ACCOUNT_DEPLOYED_TOPIC.iter().map(|b| format!("{:02x}", b)).collect::<String>(),
        "d51a9c61267aa6196961883ecf5ff2da6619c37dac0fa92122513fb32c032d2d"
    );
}

#[test]
fn transfer_decodes_to_recipient_and_amount() {
    let raw = raw_transfer(&address(0x70), &address(1), &address(2), 100);
    let mut value = [0u8; 32];
    value[31] = 100;
    assert_eq!(
        decode_log(&raw),
        Some(LogEntry {
            address: address(0x70),
            payload: EventPayload::Transfer(TransferEvent {
                to: address(2),
                value: Uint256 { bytes: value },
            }),
        })
    );
}

#[test]
fn deployment_decodes_to_factory_and_sender() {
    let raw = raw_deploy(&address(5), &address(0xAA), &address(0x6E), &address(0));
    assert_eq!(
        decode_payload(&raw),
        EventPayload::AccountDeployed(AccountDeployedEvent {
            factory: address(0x6E),
            sender: address(0xAA),
        })
    );
}

#[test]
fn high_bytes_of_an_address_word_are_not_looked_at() {
    let mut raw = raw_transfer(&address(0x70), &address(1), &address(2), 1);
    for byte in raw.topics[2].iter_mut().take(12) {
        *byte = 0xff;
    }
    match decode_payload(&raw) {
        EventPayload::Transfer(event) => assert_eq!(event.to, address(2)),
        other => panic!("{:?}", other),
    }
}

#[test]
fn amount_keeps_all_bytes_of_the_word() {
    let mut raw = raw_transfer(&address(0x70), &address(1), &address(2), 0);
    raw.data[0] = 0x80;
    match decode_payload(&raw) {
        EventPayload::Transfer(event) => {
            assert_eq!(event.value.bytes[0], 0x80);
            assert!(!event.value.is_zero());
        }
        other => panic!("{:?}", other),
    }
    let zero = raw_transfer(&address(0x70), &address(1), &address(2), 0);
    match decode_payload(&zero) {
        EventPayload::Transfer(event) => assert!(event.value.is_zero()),
        other => panic!("{:?}", other),
    }
}

#[test]
fn other_shapes_are_unmatched() {
    let good = raw_transfer(&address(0x70), &address(1), &address(2), 1);

    let mut four_topics = good.clone();
    four_topics.topics.push(vec![0; 32]);
    four_topics.data = vec![];
    assert_eq!(decode_payload(&four_topics), EventPayload::Unmatched);

    let mut two_topics = good.clone();
    two_topics.topics.pop();
    assert_eq!(decode_payload(&two_topics), EventPayload::Unmatched);

    let mut no_topics = good.clone();
    no_topics.topics.clear();
    assert_eq!(decode_payload(&no_topics), EventPayload::Unmatched);

    let mut long_data = good.clone();
    long_data.data.extend(vec![0u8; 32]);
    assert_eq!(decode_payload(&long_data), EventPayload::Unmatched);

    let mut short_data = good.clone();
    short_data.data.pop();
    assert_eq!(decode_payload(&short_data), EventPayload::Unmatched);

    let mut other_hash = good.clone();
    other_hash.topics[0][31] ^= 1;
    assert_eq!(decode_payload(&other_hash), EventPayload::Unmatched);

    let mut short_hash = good.clone();
    short_hash.topics[0].pop();
    assert_eq!(decode_payload(&short_hash), EventPayload::Unmatched);

    let mut short_topic = good.clone();
    short_topic.topics[2].pop();
    assert_eq!(decode_payload(&short_topic), EventPayload::Unmatched);

    let mut short_payer = good.clone();
    short_payer.topics[1].pop();
    assert_eq!(decode_payload(&short_payer), EventPayload::Unmatched);

    let deploy = raw_deploy(&address(5), &address(0xAA), &address(0x6E), &address(0));
    let mut deploy_short = deploy.clone();
    deploy_short.data.truncate(32);
    assert_eq!(decode_payload(&deploy_short), EventPayload::Unmatched);

    let mut crossed = deploy.clone();
    crossed.topics[0] = TRANSFER_TOPIC.to_vec();
    assert_eq!(decode_payload(&crossed), EventPayload::Unmatched);
}

#[test]
fn emitting_address_must_be_twenty_bytes() {
    let mut raw = raw_transfer(&address(0x70), &address(1), &address(2), 1);
    raw.address.push(0);
    assert_eq!(decode_log(&raw), None);
    raw.address.truncate(19);
    assert_eq!(decode_log(&raw), None);
    raw.address.clear();
    assert_eq!(decode_log(&raw), None);
}

#[test]
fn block_decodes_entry_by_entry_in_order() {
    let logs = vec![
        raw_deploy(&Address::deployer(), &address(0xAA), &Address::factory(), &address(0)),
        RawLog { address: vec![9; 20], topics: vec![], data: vec![1, 2, 3] },
        raw_transfer(&address(0x70), &address(1), &address(0xAA), 100),
    ];
    let block = decode_block(&logs).unwrap();
    assert_eq!(block.logs.len(), 3);
    for (raw, entry) in logs.iter().zip(block.logs.iter()) {
        assert_eq!(decode_log(raw), Some(*entry));
    }
    assert_eq!(block.logs[1].payload, EventPayload::Unmatched);
    assert_eq!(decode_block(&vec![]).unwrap().logs, vec![]);

    let mut broken = logs.clone();
    broken[1].address = vec![9; 21];
    assert_eq!(decode_block(&broken), None);
}

#[test]
fn raw_block_through_all_stages() {
    let account = address(0xAA);
    let token = address(0x70);
    let logs = vec![
        raw_deploy(&Address::deployer(), &account, &Address::factory(), &address(0)),
        raw_transfer(&token, &address(1), &account, 100),
        raw_transfer(&token, &address(1), &account, 0),
        raw_deploy(&Address::deployer(), &address(0xBB), &address(0x01), &address(0)),
        raw_deploy(&token, &address(0xCC), &Address::factory(), &address(0)),
    ];
    let block = decode_block(&logs).unwrap();
    let accounts = map_accounts(&block);
    assert_eq!(accounts.accounts, vec![account]);
    let mut store = KeyValueStore::new();
    store_accounts(&accounts, &mut store);
    let transfers = map_transfers(&block, &store, &[token]);
    assert_eq!(transfers.transfers, vec![Transfer { asset: token, receiver: account }]);
}
