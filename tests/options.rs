use device_sync::options::{build_occ_symbol, parse_occ_symbol, ExpirationDate, OccSymbolError, OptionType};

fn date(y: i32, m: u32, d: u32) -> ExpirationDate {
    ExpirationDate::from_ymd(y, m, d).unwrap()
}

#[test]
fn test_parse_standard_occ_symbol() {
    let parsed = parse_occ_symbol("AAPL  240119C00195000").unwrap();
    assert_eq!(parsed.underlying, "AAPL");
    assert_eq!(parsed.expiration, date(2024, 1, 19));
    assert_eq!(parsed.option_type, OptionType::Call);
    assert_eq!(parsed.strike_thousandths, 195_000);
}

#[test]
fn test_parse_compact_occ_symbol() {
    let parsed = parse_occ_symbol("AAPL240119C00195000").unwrap();
    assert_eq!(parsed.underlying, "AAPL");
    assert_eq!(parsed.expiration, date(2024, 1, 19));
    assert_eq!(parsed.option_type, OptionType::Call);
    assert_eq!(parsed.strike_thousandths, 195_000);
}

#[test]
fn test_parse_put_option() {
    let parsed = parse_occ_symbol("MSFT  240315P00400000").unwrap();
    assert_eq!(parsed.underlying, "MSFT");
    assert_eq!(parsed.expiration, date(2024, 3, 15));
    assert_eq!(parsed.option_type, OptionType::Put);
    assert_eq!(parsed.strike_thousandths, 400_000);
}

#[test]
fn test_parse_fractional_strike() {
    let parsed = parse_occ_symbol("SPY   240119C00052500").unwrap();
    assert_eq!(parsed.strike_thousandths, 52_500);
}

#[test]
fn test_parse_small_strike() {
    let parsed = parse_occ_symbol("F     240119P00002500").unwrap();
    assert_eq!(parsed.underlying, "F");
    assert_eq!(parsed.strike_thousandths, 2_500);
}

#[test]
fn test_parse_large_strike() {
    let parsed = parse_occ_symbol("AMZN  240119C05000000").unwrap();
    assert_eq!(parsed.strike_thousandths, 5_000_000);
}

#[test]
fn test_parse_single_char_underlying() {
    let parsed = parse_occ_symbol("X     240119C00025000").unwrap();
    assert_eq!(parsed.underlying, "X");
}

#[test]
fn test_parse_lowercase() {
    let parsed = parse_occ_symbol("aapl  240119c00195000").unwrap();
    assert_eq!(parsed.underlying, "AAPL");
    assert_eq!(parsed.option_type, OptionType::Call);
}

#[test]
fn test_build_occ_symbol() {
    let symbol = build_occ_symbol("AAPL", date(2024, 1, 19), OptionType::Call, 195_000);
    assert_eq!(symbol, "AAPL240119C00195000");
}

#[test]
fn test_build_put_symbol() {
    let symbol = build_occ_symbol("MSFT", date(2024, 3, 15), OptionType::Put, 400_000);
    assert_eq!(symbol, "MSFT240315P00400000");
}

#[test]
fn test_build_fractional_strike() {
    let symbol = build_occ_symbol("SPY", date(2024, 1, 19), OptionType::Call, 52_500);
    assert_eq!(symbol, "SPY240119C00052500");
}

#[test]
fn test_roundtrip() {
    let symbol = "NVDA250117P00850000";
    let parsed = parse_occ_symbol(symbol).unwrap();
    let rebuilt = parsed.to_occ_symbol();
    assert_eq!(symbol, rebuilt);
}

#[test]
fn test_parse_spaced_roundtrip_to_compact() {
    let spaced = "NVDA  250117P00850000";
    let parsed = parse_occ_symbol(spaced).unwrap();
    let rebuilt = parsed.to_occ_symbol();
    assert_eq!(rebuilt, "NVDA250117P00850000");
}

#[test]
fn test_error_too_short() {
    let result = parse_occ_symbol("AAPL240119C001");
    assert!(matches!(result, Err(OccSymbolError::TooShort(_))));
}

#[test]
fn test_error_too_long() {
    let result = parse_occ_symbol("TOOLONG240119C00195000X");
    assert!(matches!(result, Err(OccSymbolError::TooLong(_))));
}

#[test]
fn test_error_invalid_option_type() {
    let result = parse_occ_symbol("AAPL  240119X00195000");
    assert!(matches!(result, Err(OccSymbolError::InvalidOptionType('X'))));
}

#[test]
fn test_error_invalid_date() {
    let result = parse_occ_symbol("AAPL  241319C00195000");
    assert!(matches!(result, Err(OccSymbolError::InvalidExpirationDate(_))));
}

#[test]
fn test_error_invalid_strike() {
    let result = parse_occ_symbol("AAPL  240119C001950XX");
    assert!(matches!(result, Err(OccSymbolError::InvalidStrikePrice(_))));
}

#[test]
fn test_expiration_iso() {
    let parsed = parse_occ_symbol("AAPL  240119C00195000").unwrap();
    assert_eq!(parsed.expiration_iso(), "2024-01-19");
}

#[test]
fn occ_lengths_and_empty_underlying() {
    assert_eq!(parse_occ_symbol("AAPL240119C001"), Err(OccSymbolError::TooShort(14)));
    assert_eq!(parse_occ_symbol("TOOLONG240119C00195000X"), Err(OccSymbolError::TooLong(23)));
    assert_eq!(parse_occ_symbol("      240119C00195000"), Err(OccSymbolError::EmptyUnderlying));
    assert_eq!(parse_occ_symbol("-     240119C00195000").unwrap().underlying, "-");
    assert_eq!(build_occ_symbol("x", date(2030, 12, 1), OptionType::Put, 123_456_789), "X301201P123456789");
    assert_eq!(ExpirationDate::from_ymd(2023, 2, 29), None);
}
