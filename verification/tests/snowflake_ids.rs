use sharinflame::snowflake::{SnowflakeGenerator, GENERATE_RETRY_LIMIT, SNOWFLAKE_EPOCH_MS};

#[test]
fn monotonic_sequence() {
    let mut generator = SnowflakeGenerator::new(3, 5);
    let mut last: Option<u64> = None;
    for _ in 0..200 {
        let id = generator.generate().expect("clock is past the epoch");
        if let Some(prev) = last {
            assert!(id > prev, "ids must strictly increase: {} then {}", prev, id);
        }
        last = Some(id);
    }
    assert!(GENERATE_RETRY_LIMIT > 0);
}

#[test]
fn parse_recovers_configuration() {
    let mut generator = SnowflakeGenerator::new(7, 21);
    for _ in 0..50 {
        let id = generator.generate().unwrap();
        let (ts_ms, server, worker, _seq) = SnowflakeGenerator::parse(id);
        assert_eq!(server, 7);
        assert_eq!(worker, 21);
        assert!(ts_ms >= SNOWFLAKE_EPOCH_MS);
    }
}

#[test]
fn sequence_overflow_rolls_to_next_millisecond() {
    let mut generator = SnowflakeGenerator::new(1, 2);
    let t = SNOWFLAKE_EPOCH_MS + 1000;
    for i in 0..4096u64 {
        let id = generator.try_generate(t).expect("window not yet exhausted");
        let (_, _, _, seq) = SnowflakeGenerator::parse(id);
        assert_eq!(seq as u64, i, "sequence must count up without repeats");
    }
    // the 4097th id within the same millisecond is refused ...
    assert_eq!(generator.try_generate(t), None);
    // ... and the next millisecond starts over at sequence 0
    let id = generator.try_generate(t + 1).unwrap();
    let (ts_ms, _, _, seq) = SnowflakeGenerator::parse(id);
    assert_eq!(seq, 0);
    assert_eq!(ts_ms, t + 1);
}

#[test]
fn clock_regression_is_refused() {
    let mut generator = SnowflakeGenerator::new(0, 0);
    let t = SNOWFLAKE_EPOCH_MS + 5000;
    let first = generator.try_generate(t).unwrap();
    assert_eq!(generator.try_generate(t - 1), None);
    // the refused reading leaves the state alone: the same millisecond
    // continues its sequence
    let second = generator.try_generate(t).unwrap();
    assert!(second > first);
    let (_, _, _, seq) = SnowflakeGenerator::parse(second);
    assert_eq!(seq, 1);
}

#[test]
fn clock_before_epoch_is_refused() {
    let mut generator = SnowflakeGenerator::new(0, 0);
    assert_eq!(generator.try_generate(SNOWFLAKE_EPOCH_MS - 1), None);
    assert_eq!(generator.try_generate(0), None);
}

#[test]
fn exact_bit_layout() {
    let mut generator = SnowflakeGenerator::new(6, 9);
    let t = SNOWFLAKE_EPOCH_MS + 123456;
    let id = generator.try_generate(t).unwrap();
    let ts = 123456u64;
    assert_eq!(id, (ts << 22) | (9u64 << 17) | (6u64 << 12) | 0);
    let id2 = generator.try_generate(t).unwrap();
    assert_eq!(id2, (ts << 22) | (9u64 << 17) | (6u64 << 12) | 1);
}

#[test]
fn parse_exact_fields() {
    let ts = 555u64;
    let id = (ts << 22) | (31u64 << 17) | (1u64 << 12) | 4095;
    let (ts_ms, server, worker, seq) = SnowflakeGenerator::parse(id);
    assert_eq!(ts_ms, SNOWFLAKE_EPOCH_MS + 555);
    assert_eq!(server, 1);
    assert_eq!(worker, 31);
    assert_eq!(seq, 4095);
}
