use nuprompt::elapsed::consume_decision;
use nuprompt::elapsed::consume_elapsed_from;
use nuprompt::elapsed::encode_ticks;
use nuprompt::elapsed::parse_record;
use nuprompt::elapsed::prev_start_file_name;
use nuprompt::elapsed::record_payload;
use nuprompt::elapsed::TickStore;
use nuprompt::ElapsedError;

#[test]
fn codec_round_trip() {
    let encoded = encode_ticks(0x0102030405060708);
    assert_eq!(encoded, vec![1, 2, 3, 4, 5, 6, 7, 8]);
    assert_eq!(parse_record(&encoded), Ok(0x0102030405060708));
    assert_eq!(parse_record(&encode_ticks(0)), Ok(0));
    assert_eq!(parse_record(&encode_ticks(u64::MAX)), Ok(u64::MAX));
}

#[test]
fn short_record_is_corrupt() {
    assert_eq!(parse_record(&vec![1, 2, 3]), Err(ElapsedError::CorruptRecord));
    assert_eq!(parse_record(&Vec::new()), Err(ElapsedError::CorruptRecord));
}

#[test]
fn consume_decision_cases() {
    assert_eq!(consume_decision(None, 10), Err(ElapsedError::NotFound));
    assert_eq!(consume_decision(Some(vec![0, 1]), 10), Err(ElapsedError::CorruptRecord));
    let rec = encode_ticks(100);
    assert_eq!(consume_decision(Some(rec), 250), Ok(150));
    // a record claiming a reading later than now clamps to zero
    let future = encode_ticks(500);
    assert_eq!(consume_decision(Some(future), 250), Ok(0));
}

#[test]
fn store_consume_before_record_not_found() {
    let mut store = TickStore::new();
    assert_eq!(store.consume_elapsed(1234, 50), Err(ElapsedError::NotFound));
}

#[test]
fn store_handshake_and_single_consumption() {
    let mut store = TickStore::new();
    store.record_start(77, 1000);
    assert_eq!(store.consume_elapsed(77, 1600), Ok(600));
    // at-most-once consumption: the record is gone now
    assert_eq!(store.consume_elapsed(77, 1700), Err(ElapsedError::NotFound));
}

#[test]
fn store_overwrites_and_isolates_pids() {
    let mut store = TickStore::new();
    store.record_start(1, 100);
    store.record_start(2, 200);
    store.record_start(1, 300);
    assert_eq!(store.consume_elapsed(1, 450), Ok(150));
    assert_eq!(store.consume_elapsed(2, 450), Ok(250));
}

#[test]
fn live_clock_handshake() {
    let payload = record_payload();
    assert_eq!(payload.len(), 8);
    let elapsed = consume_elapsed_from(Some(payload)).expect("well-formed record");
    let seconds = coarsetime::Duration::from_ticks(elapsed).as_f64();
    assert!(seconds >= 0.0);
    assert!(seconds < 5.0);
}

#[test]
fn consume_from_nothing_is_not_found() {
    assert_eq!(consume_elapsed_from(None), Err(ElapsedError::NotFound));
    assert_eq!(consume_elapsed_from(Some(vec![9, 9])), Err(ElapsedError::CorruptRecord));
}

#[test]
fn record_name_is_deterministic() {
    let name = prev_start_file_name(&b"1234".to_vec());
    assert_eq!(name, b"NUPROMPT_1234_prev_start".to_vec());
}
