use oracle_relay::{
    map_fields, process_instruction, relay, write_destination, Account, AggregateFeed, Answer,
    AnswerRecord, CrossChainAnswer, RelayError, Report, SourceRecord, Variant,
};

fn aggregate_feed(code: &str, floor_price: u64) -> AggregateFeed {
    AggregateFeed {
        code: String::from(code),
        unit: String::from("SOL"),
        decimals: 9,
        aggregate_time: 1_650_000_000,
        floor_price,
        ai_floor_price: floor_price + 1,
        avg_price: floor_price + 2,
    }
}

fn report() -> Report {
    Report {
        source_chain: 56,
        price: 3_000_000,
        time: 1_650_000_001,
        decimal: 3,
        program_address: [0x11; 32],
        token_address: [0x22; 32],
        local_address: [0x33; 32],
        name: String::from("ETH/USD"),
        price_type: String::from("twap"),
    }
}

#[test]
fn aggregate_relay_overwrites_a_stored_answer() {
    let old = SourceRecord::AggregateFeed(aggregate_feed("BAYC", 10)).encode();
    let new = SourceRecord::AggregateFeed(aggregate_feed("MAYC", 99)).encode();
    let mut dest = old.clone();

    assert_eq!(relay(Variant::Aggregate, &new, &mut dest), Ok(()));

    let stored = Answer::decode(&dest).expect("destination decodes");
    assert_eq!(stored.code, "MAYC");
    assert_eq!(stored.unit, "SOL");
    assert_eq!(stored.decimals, 9);
    assert_eq!(stored.aggregate_time, 1_650_000_000);
    assert_eq!(stored.floor_price, 99);
    assert_eq!(stored.ai_floor_price, 100);
    assert_eq!(stored.avg_price, 101);
    assert_eq!(dest.len(), old.len());
}

#[test]
fn cross_chain_relay_stores_every_field() {
    let source = SourceRecord::Report(report()).encode();
    let mut dest = vec![0u8; source.len()];

    assert_eq!(relay(Variant::CrossChain, &source, &mut dest), Ok(()));

    let stored = CrossChainAnswer::decode(&dest).expect("destination decodes");
    assert_eq!(stored, report().into_answer());
    assert_eq!(stored.source_chain, 56);
    assert_eq!(stored.program_address, [0x11; 32]);
    assert_eq!(stored.token_address, [0x22; 32]);
    assert_eq!(stored.local_address, [0x33; 32]);
    assert_eq!(stored.name, "ETH/USD");
    assert_eq!(stored.price_type, "twap");
}

#[test]
fn relaying_twice_leaves_the_same_bytes() {
    let source = SourceRecord::AggregateFeed(aggregate_feed("BAYC", 10)).encode();
    let mut dest = vec![0u8; source.len()];

    assert_eq!(relay(Variant::Aggregate, &source, &mut dest), Ok(()));
    let once = dest.clone();
    assert_eq!(relay(Variant::Aggregate, &source, &mut dest), Ok(()));
    assert_eq!(dest, once);
}

#[test]
fn failing_twice_leaves_the_same_bytes() {
    let source = SourceRecord::AggregateFeed(aggregate_feed("BAYC", 10)).encode();
    let mut dest = vec![0u8; source.len() + 5];
    let before = dest.clone();

    assert_eq!(
        relay(Variant::Aggregate, &source, &mut dest),
        Err(RelayError::BufferSizeMismatch)
    );
    assert_eq!(
        relay(Variant::Aggregate, &source, &mut dest),
        Err(RelayError::BufferSizeMismatch)
    );
    assert_eq!(dest, before);
}

#[test]
fn longer_destination_is_a_size_mismatch() {
    let source = SourceRecord::Report(report()).encode();
    let mut dest = vec![0u8; source.len() + 1];
    let before = dest.clone();

    assert_eq!(
        relay(Variant::CrossChain, &source, &mut dest),
        Err(RelayError::BufferSizeMismatch)
    );
    assert_eq!(dest, before);
}

#[test]
fn destination_that_never_held_a_record_is_malformed() {
    let source = SourceRecord::AggregateFeed(aggregate_feed("BAYC", 10)).encode();

    let mut empty: Vec<u8> = Vec::new();
    assert_eq!(
        relay(Variant::Aggregate, &source, &mut empty),
        Err(RelayError::MalformedDestination)
    );
    assert!(empty.is_empty());

    let mut garbage = vec![0xFFu8; source.len()];
    let before = garbage.clone();
    assert_eq!(
        relay(Variant::Aggregate, &source, &mut garbage),
        Err(RelayError::MalformedDestination)
    );
    assert_eq!(garbage, before);
}

#[test]
fn malformed_source_is_reported_before_the_destination_is_looked_at() {
    let mut source = SourceRecord::AggregateFeed(aggregate_feed("BAYC", 10)).encode();
    source.push(0);

    let mut garbage = vec![0xFFu8; 10];
    assert_eq!(
        relay(Variant::Aggregate, &source, &mut garbage),
        Err(RelayError::MalformedSource)
    );
    assert_eq!(garbage, vec![0xFFu8; 10]);

    let mut fine = vec![0u8; source.len() - 1];
    assert_eq!(
        relay(Variant::Aggregate, &[], &mut fine),
        Err(RelayError::MalformedSource)
    );
    assert_eq!(fine, vec![0u8; source.len() - 1]);
}

#[test]
fn source_of_another_variant_is_malformed() {
    let source = SourceRecord::Report(report()).encode();
    let mut dest = vec![0u8; source.len()];
    assert_eq!(
        relay(Variant::Aggregate, &source, &mut dest),
        Err(RelayError::MalformedSource)
    );
    assert_eq!(dest, vec![0u8; source.len()]);
}

#[test]
fn writer_commits_only_an_answer_of_the_destination_size() {
    let answer = map_fields(SourceRecord::AggregateFeed(aggregate_feed("BAYC", 10)));
    assert!(answer.is_valid());
    let encoded = answer.encode();

    let mut dest = vec![0u8; encoded.len()];
    assert_eq!(write_destination(&mut dest, &answer), Ok(()));
    assert_eq!(dest, encoded);

    let mut short = vec![0u8; encoded.len() - 1];
    assert_eq!(
        write_destination(&mut short, &answer),
        Err(RelayError::BufferSizeMismatch)
    );
    assert_eq!(short, vec![0u8; encoded.len() - 1]);

    let mut unreadable = vec![0u8; 47];
    assert_eq!(
        write_destination(&mut unreadable, &answer),
        Err(RelayError::MalformedDestination)
    );
    assert_eq!(unreadable, vec![0u8; 47]);
}

#[test]
fn writer_reads_the_destination_under_the_answers_variant() {
    let answer = AnswerRecord::CrossChain(report().into_answer());
    let encoded = answer.encode();
    // Long enough for an empty aggregate answer, too short for a cross-chain one.
    let mut dest = vec![0u8; 48];
    assert_eq!(
        write_destination(&mut dest, &answer),
        Err(RelayError::MalformedDestination)
    );
    let mut dest = vec![0u8; encoded.len()];
    assert_eq!(write_destination(&mut dest, &answer), Ok(()));
    assert_eq!(dest, encoded);
}

#[test]
fn entry_point_needs_two_accounts() {
    let source = SourceRecord::AggregateFeed(aggregate_feed("BAYC", 10)).encode();

    let mut none: Vec<Account> = Vec::new();
    assert_eq!(
        process_instruction(Variant::Aggregate, &mut none),
        Err(RelayError::MissingAccount)
    );
    assert!(none.is_empty());

    let mut one = vec![Account { data: source.clone() }];
    assert_eq!(
        process_instruction(Variant::Aggregate, &mut one),
        Err(RelayError::MissingAccount)
    );
    assert_eq!(one, vec![Account { data: source }]);
}

#[test]
fn entry_point_relays_first_account_into_second() {
    let source = SourceRecord::AggregateFeed(aggregate_feed("BAYC", 10)).encode();
    let mut accounts = vec![
        Account { data: source.clone() },
        Account { data: vec![0u8; source.len()] },
    ];

    assert_eq!(process_instruction(Variant::Aggregate, &mut accounts), Ok(()));

    assert_eq!(accounts[0].data, source);
    assert_eq!(
        Answer::decode(&accounts[1].data),
        Some(aggregate_feed("BAYC", 10).into_answer())
    );
}

#[test]
fn entry_point_failures_leave_every_account_alone() {
    let source = SourceRecord::AggregateFeed(aggregate_feed("BAYC", 10)).encode();

    let mut short_destination = vec![
        Account { data: source.clone() },
        Account { data: vec![0u8; source.len() - 1] },
    ];
    let before = short_destination.clone();
    assert_eq!(
        process_instruction(Variant::Aggregate, &mut short_destination),
        Err(RelayError::BufferSizeMismatch)
    );
    assert_eq!(short_destination, before);

    let mut bad_source = vec![
        Account { data: source[..source.len() - 1].to_vec() },
        Account { data: vec![0u8; source.len()] },
    ];
    let before = bad_source.clone();
    assert_eq!(
        process_instruction(Variant::Aggregate, &mut bad_source),
        Err(RelayError::MalformedSource)
    );
    assert_eq!(bad_source, before);

    let mut bad_destination = vec![
        Account { data: source.clone() },
        Account { data: vec![1, 2, 3] },
    ];
    let before = bad_destination.clone();
    assert_eq!(
        process_instruction(Variant::Aggregate, &mut bad_destination),
        Err(RelayError::MalformedDestination)
    );
    assert_eq!(bad_destination, before);
}
