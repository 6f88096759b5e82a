use oracle_relay::{
    process_instruction, relay, Account, Feed, RelayError, SingleFeedAnswer, SourceRecord, Variant,
};

fn address() -> [u8; 32] {
    let mut a = [0u8; 32];
    for (i, b) in a.iter_mut().enumerate() {
        *b = i as u8 + 1;
    }
    a
}

fn btc_feed() -> Feed {
    Feed {
        address: address(),
        price: 12345,
        decimal: 6,
        time: 1000,
        name: String::from("BTC/USD"),
        price_type: String::from("spot"),
    }
}

// 32 + 8 + 8 + 8 + (4 + 7) + (4 + 4)
const BTC_LEN: usize = 75;

#[test]
fn feed_relayed_into_empty_single_feed_destination() {
    let source = SourceRecord::Feed(btc_feed()).encode();
    let mut dest = vec![0u8; BTC_LEN];

    assert_eq!(relay(Variant::SingleFeed, &source, &mut dest), Ok(()));

    let stored = SingleFeedAnswer::decode(&dest).expect("destination decodes");
    assert_eq!(stored.address, address());
    assert_eq!(stored.price, 12345);
    assert_eq!(stored.decimal, 6);
    assert_eq!(stored.time, 1000);
    assert_eq!(stored.name, "BTC/USD");
    assert_eq!(stored.price_type, "spot");
    assert_eq!(dest.len(), BTC_LEN);
}

#[test]
fn destination_one_byte_short_is_a_size_mismatch() {
    let source = SourceRecord::Feed(btc_feed()).encode();
    let mut dest = vec![0u8; BTC_LEN - 1];
    let before = dest.clone();

    assert_eq!(
        relay(Variant::SingleFeed, &source, &mut dest),
        Err(RelayError::BufferSizeMismatch)
    );
    assert_eq!(dest, before);
}

#[test]
fn source_truncated_inside_text_is_malformed() {
    let mut source = SourceRecord::Feed(btc_feed()).encode();
    // Cut inside "BTC/USD": the count says seven bytes, three are left.
    source.truncate(32 + 24 + 4 + 3);
    let mut dest = vec![0u8; BTC_LEN];
    let before = dest.clone();

    assert_eq!(
        relay(Variant::SingleFeed, &source, &mut dest),
        Err(RelayError::MalformedSource)
    );
    assert_eq!(dest, before);
}

#[test]
fn entry_point_relays_a_feed_and_keeps_other_accounts() {
    let source = SourceRecord::Feed(btc_feed()).encode();
    let mut accounts = vec![
        Account { data: source.clone() },
        Account { data: vec![0u8; BTC_LEN] },
        Account { data: vec![9, 9, 9] },
    ];

    assert_eq!(process_instruction(Variant::SingleFeed, &mut accounts), Ok(()));

    assert_eq!(accounts.len(), 3);
    assert_eq!(accounts[0].data, source);
    assert_eq!(accounts[1].data, source);
    assert_eq!(accounts[2].data, vec![9, 9, 9]);
}
