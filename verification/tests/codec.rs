use candle_stream::candle::Candle;
use candle_stream::candle::PriceUpdate;
use candle_stream::codec::encode_candles;
use candle_stream::codec::encode_update;
use candle_stream::numtok::u64_to_decimal;
use candle_stream::numtok::parse_u64_at;
use candle_stream::parse::parse_candles;

fn candle(ts: u64, open: &str, high: &str, low: &str, close: &str, volume: &str) -> Candle {
    Candle {
        timestamp: ts,
        open: open.as_bytes().to_vec(),
        high: high.as_bytes().to_vec(),
        low: low.as_bytes().to_vec(),
        close: close.as_bytes().to_vec(),
        volume: volume.as_bytes().to_vec(),
    }
}

#[test]
fn encode_empty_update_is_ack_placeholder() {
    let u = PriceUpdate { candles: Vec::new() };
    assert_eq!(encode_update(&u), b"{\"candles\":[]}".to_vec());
}

#[test]
fn encode_one_candle() {
    let u = PriceUpdate { candles: vec![candle(1000, "1", "2", "0.5", "1.5", "100")] };
    assert_eq!(
        encode_update(&u),
        b"{\"candles\":[{\"timestamp\":1000,\"open\":1,\"high\":2,\"low\":0.5,\"close\":1.5,\"volume\":100}]}".to_vec()
    );
}

#[test]
fn encode_two_candles_joined_by_comma() {
    let cs = vec![
        candle(1, "1.0", "2.0", "0.5", "1.5", "10"),
        candle(2, "1.5", "2.5", "1.0", "2.0", "20"),
    ];
    let bytes = encode_candles(&cs);
    assert_eq!(
        bytes,
        b"[{\"timestamp\":1,\"open\":1.0,\"high\":2.0,\"low\":0.5,\"close\":1.5,\"volume\":10},{\"timestamp\":2,\"open\":1.5,\"high\":2.5,\"low\":1.0,\"close\":2.0,\"volume\":20}]".to_vec()
    );
}

#[test]
fn parse_empty_array() {
    let r = parse_candles(&b"[]".to_vec());
    assert_eq!(r, Some(Vec::new()));
}

#[test]
fn parse_empty_array_with_whitespace() {
    let r = parse_candles(&b"  [\n]\t ".to_vec());
    assert_eq!(r, Some(Vec::new()));
}

#[test]
fn parse_one_candle() {
    let r = parse_candles(
        &b"[{\"timestamp\":1000,\"open\":1,\"high\":2,\"low\":0.5,\"close\":1.5,\"volume\":100}]"
            .to_vec(),
    );
    assert_eq!(r, Some(vec![candle(1000, "1", "2", "0.5", "1.5", "100")]));
}

#[test]
fn parse_accepts_whitespace_between_tokens() {
    let r = parse_candles(
        &b" [ {\"timestamp\": 1000, \"open\": 1, \"high\": 2, \"low\": 0.5, \"close\": 1.5, \"volume\": 100} ] "
            .to_vec(),
    );
    assert_eq!(r, Some(vec![candle(1000, "1", "2", "0.5", "1.5", "100")]));
}

#[test]
fn parse_keeps_number_text_exactly() {
    let r = parse_candles(
        &b"[{\"timestamp\":5,\"open\":-1.5e3,\"high\":2E-2,\"low\":0,\"close\":0.50,\"volume\":1e9}]"
            .to_vec(),
    );
    assert_eq!(r, Some(vec![candle(5, "-1.5e3", "2E-2", "0", "0.50", "1e9")]));
}

#[test]
fn parse_rejects_trailing_junk() {
    assert_eq!(parse_candles(&b"[] extra".to_vec()), None);
}

#[test]
fn parse_rejects_missing_bracket() {
    assert_eq!(parse_candles(&b"".to_vec()), None);
    assert_eq!(parse_candles(&b"{\"candles\":[]}".to_vec()), None);
}

#[test]
fn parse_accepts_any_field_order() {
    let r = parse_candles(
        &b"[{\"open\":1,\"timestamp\":1000,\"high\":2,\"low\":0.5,\"close\":1.5,\"volume\":100}]"
            .to_vec(),
    );
    assert_eq!(r, Some(vec![candle(1000, "1", "2", "0.5", "1.5", "100")]));
    let r = parse_candles(
        &b"[{\"volume\":100,\"close\":1.5,\"low\":0.5,\"high\":2,\"open\":1,\"timestamp\":1000}]"
            .to_vec(),
    );
    assert_eq!(r, Some(vec![candle(1000, "1", "2", "0.5", "1.5", "100")]));
}

#[test]
fn parse_accepts_whitespace_before_colons() {
    let r = parse_candles(
        &b"[{\"timestamp\" : 1000, \"open\" : 1, \"high\" : 2, \"low\" : 0.5, \"close\" : 1.5, \"volume\" : 100}]"
            .to_vec(),
    );
    assert_eq!(r, Some(vec![candle(1000, "1", "2", "0.5", "1.5", "100")]));
}

#[test]
fn parse_rejects_repeated_member() {
    let r = parse_candles(
        &b"[{\"timestamp\":1000,\"open\":1,\"open\":2,\"high\":2,\"low\":0.5,\"close\":1.5,\"volume\":100}]"
            .to_vec(),
    );
    assert_eq!(r, None);
}

#[test]
fn parse_rejects_missing_member() {
    let r = parse_candles(
        &b"[{\"timestamp\":1000,\"open\":1,\"high\":2,\"low\":0.5,\"close\":1.5}]".to_vec(),
    );
    assert_eq!(r, None);
}

#[test]
fn parse_rejects_unknown_member() {
    let r = parse_candles(
        &b"[{\"timestamp\":1000,\"open\":1,\"high\":2,\"low\":0.5,\"close\":1.5,\"volume\":100,\"extra\":1}]"
            .to_vec(),
    );
    assert_eq!(r, None);
}

#[test]
fn parse_rejects_bad_number_token() {
    let r = parse_candles(
        &b"[{\"timestamp\":1000,\"open\":01,\"high\":2,\"low\":0.5,\"close\":1.5,\"volume\":100}]"
            .to_vec(),
    );
    assert_eq!(r, None);
    let r = parse_candles(
        &b"[{\"timestamp\":1000,\"open\":1.,\"high\":2,\"low\":0.5,\"close\":1.5,\"volume\":100}]"
            .to_vec(),
    );
    assert_eq!(r, None);
}

#[test]
fn parse_rejects_timestamp_with_leading_zero() {
    let r = parse_candles(
        &b"[{\"timestamp\":0100,\"open\":1,\"high\":2,\"low\":0.5,\"close\":1.5,\"volume\":100}]"
            .to_vec(),
    );
    assert_eq!(r, None);
}

#[test]
fn parse_rejects_timestamp_too_large_for_u64() {
    let r = parse_candles(
        &b"[{\"timestamp\":18446744073709551616,\"open\":1,\"high\":2,\"low\":0.5,\"close\":1.5,\"volume\":100}]"
            .to_vec(),
    );
    assert_eq!(r, None);
}

#[test]
fn parse_accepts_largest_timestamp() {
    let r = parse_candles(
        &b"[{\"timestamp\":18446744073709551615,\"open\":1,\"high\":2,\"low\":0.5,\"close\":1.5,\"volume\":100}]"
            .to_vec(),
    );
    assert_eq!(r, Some(vec![candle(u64::MAX, "1", "2", "0.5", "1.5", "100")]));
}

#[test]
fn roundtrip_many_candles() {
    let cs = vec![
        candle(0, "0", "0", "0", "0", "0"),
        candle(1000, "1", "2", "0.5", "1.5", "100"),
        candle(u64::MAX, "-3.25e-4", "9e9", "0.001", "42", "7.5"),
    ];
    let encoded = encode_candles(&cs);
    assert_eq!(parse_candles(&encoded), Some(cs));
}

#[test]
fn u64_decimal_digits() {
    assert_eq!(u64_to_decimal(0), b"0".to_vec());
    assert_eq!(u64_to_decimal(7), b"7".to_vec());
    assert_eq!(u64_to_decimal(1234567890), b"1234567890".to_vec());
    assert_eq!(u64_to_decimal(u64::MAX), b"18446744073709551615".to_vec());
}

#[test]
fn u64_parse_at_position() {
    assert_eq!(parse_u64_at(&b"123,".to_vec(), 0), Some((123, 3)));
    assert_eq!(parse_u64_at(&b"x123".to_vec(), 1), Some((123, 4)));
    assert_eq!(parse_u64_at(&b"abc".to_vec(), 0), None);
    assert_eq!(parse_u64_at(&b"0".to_vec(), 0), Some((0, 1)));
    assert_eq!(parse_u64_at(&b"00".to_vec(), 0), None);
    assert_eq!(parse_u64_at(&b"18446744073709551615".to_vec(), 0), Some((u64::MAX, 20)));
    assert_eq!(parse_u64_at(&b"18446744073709551616".to_vec(), 0), None);
}
