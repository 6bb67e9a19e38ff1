use device_sync::identifiers::{
    compute_cusip_check_digit, compute_isin_check_digit, cusip_to_isin, looks_like_cusip, looks_like_isin, parse_cusip,
    parse_isin, CusipError, IsinError,
};
use device_sync::options::{looks_like_occ_symbol, normalize_option_symbol, OptionType};
use device_sync::providers::{
    extract_main_js_url, extract_salt_from_js, extract_xml_value, guard_us_treasury, is_us_treasury_isin,
    normalize_frequency,
};

#[test]
fn test_parse_us_treasury() {
    assert!(parse_cusip("912810TH1").is_ok());
}

#[test]
fn test_parse_invalid_check_digit() {
    let result = parse_cusip("912810TH0");
    assert!(matches!(result, Err(CusipError::CheckDigitMismatch { .. })));
}

#[test]
fn test_parse_too_short() {
    assert!(matches!(parse_cusip("912810TH"), Err(CusipError::InvalidLength(8))));
}

#[test]
fn test_looks_like_cusip() {
    assert!(looks_like_cusip("912810TH1"));
    assert!(!looks_like_cusip("AAPL"));
    assert!(!looks_like_cusip("US0378331005"));
}

#[test]
fn test_cusip_to_isin_us_treasury() {
    let isin = cusip_to_isin("912810TH1", "US");
    assert_eq!(isin, "US912810TH14");
    assert!(parse_isin(&isin).is_ok());
}

#[test]
fn test_cusip_to_isin_apple() {
    let isin = cusip_to_isin("037833100", "US");
    assert_eq!(isin, "US0378331005");
    assert!(parse_isin(&isin).is_ok());
}

#[test]
fn test_valid_us_isin() {
    let result = parse_isin("US0378331005").unwrap();
    assert_eq!(result.country_code, "US");
    assert_eq!(result.nsin, "037833100");
    assert_eq!(result.check_digit, 5);
}

#[test]
fn test_valid_de_isin() {
    let result = parse_isin("DE0007236101").unwrap();
    assert_eq!(result.country_code, "DE");
    assert_eq!(result.check_digit, 1);
}

#[test]
fn test_valid_gb_isin() {
    let result = parse_isin("GB00BH4HKS39").unwrap();
    assert_eq!(result.country_code, "GB");
    assert_eq!(result.check_digit, 9);
}

#[test]
fn test_valid_us_treasury() {
    let result = parse_isin("US912810TH14").unwrap();
    assert_eq!(result.country_code, "US");
    assert_eq!(result.check_digit, 4);
}

#[test]
fn test_lowercase_accepted() {
    let result = parse_isin("us0378331005").unwrap();
    assert_eq!(result.country_code, "US");
}

#[test]
fn test_invalid_check_digit() {
    let result = parse_isin("US0378331009");
    assert!(matches!(result, Err(IsinError::CheckDigitMismatch { .. })));
}

#[test]
fn test_too_short() {
    let result = parse_isin("US037833100");
    assert!(matches!(result, Err(IsinError::InvalidLength(11))));
}

#[test]
fn test_too_long() {
    let result = parse_isin("US03783310055");
    assert!(matches!(result, Err(IsinError::InvalidLength(13))));
}

#[test]
fn test_invalid_country_code() {
    let result = parse_isin("120378331005");
    assert!(matches!(result, Err(IsinError::InvalidCountryCode(_))));
}

#[test]
fn test_looks_like_isin() {
    assert!(looks_like_isin("US0378331005"));
    assert!(looks_like_isin("DE0007236101"));
    assert!(looks_like_isin("GB00BH4HKS39"));
    assert!(!looks_like_isin("AAPL"));
    assert!(!looks_like_isin("US037833100"));
    assert!(!looks_like_isin("12ABCDEFGH05"));
    assert!(!looks_like_isin("US037833100X"));
}

#[test]
fn test_whitespace_trimmed() {
    let result = parse_isin("  US0378331005  ").unwrap();
    assert_eq!(result.country_code, "US");
}

#[test]
fn isin_errors_name_the_failing_part() {
    assert_eq!(parse_isin("120378331005"), Err(IsinError::InvalidCountryCode("12".to_string())));
    assert_eq!(parse_isin("US03783310-5"), Err(IsinError::InvalidNsin));
    assert_eq!(parse_isin("US037833100X"), Err(IsinError::InvalidCheckDigitFormat));
    assert_eq!(
        parse_isin("US0378331009"),
        Err(IsinError::CheckDigitMismatch { expected: 5, actual: 9 })
    );
}

#[test]
fn check_digits_exact_values() {
    assert_eq!(compute_isin_check_digit("US037833100"), 5);
    assert_eq!(compute_isin_check_digit("DE000723610"), 1);
    assert_eq!(compute_cusip_check_digit("912810TH"), 1);
    assert_eq!(compute_cusip_check_digit("03783310"), 0);
}

#[test]
fn cusip_rejects_letters_and_reports_mismatch() {
    assert_eq!(parse_cusip("912810TH!"), Err(CusipError::InvalidCharacter));
    assert_eq!(parse_cusip("912810THX"), Err(CusipError::InvalidCharacter));
    assert_eq!(
        parse_cusip("912810TH0"),
        Err(CusipError::CheckDigitMismatch { expected: 1, actual: 0 })
    );
    assert_eq!(parse_cusip("  912810TH1 "), Ok("912810TH1"));
}

#[test]
fn test_looks_like_occ_symbol() {
    assert!(looks_like_occ_symbol("AAPL  240119C00195000"));
    assert!(looks_like_occ_symbol("AAPL240119C00195000"));
    assert!(looks_like_occ_symbol("X     240119P00025000"));
    assert!(!looks_like_occ_symbol("AAPL"));
    assert!(!looks_like_occ_symbol("AAPL 240119X00195000"));
    assert!(!looks_like_occ_symbol("too short"));
    assert!(!looks_like_occ_symbol("WAAAAYTOOOOOOOOLONG240119C00195000"));
}

#[test]
fn test_option_type_display() {
    assert_eq!(OptionType::Call.as_str(), "CALL");
    assert_eq!(OptionType::Put.as_str(), "PUT");
}

#[test]
fn test_normalize_fidelity_call() {
    assert_eq!(normalize_option_symbol("-MU270115C600"), Some("MU270115C00600000".to_string()));
}

#[test]
fn test_normalize_fidelity_call_fractional() {
    assert_eq!(normalize_option_symbol("-MU270115C560"), Some("MU270115C00560000".to_string()));
}

#[test]
fn test_normalize_fidelity_put() {
    assert_eq!(normalize_option_symbol("-X270115P25"), Some("X270115P00025000".to_string()));
}

#[test]
fn test_normalize_no_dash() {
    assert_eq!(normalize_option_symbol("MU270115C600"), Some("MU270115C00600000".to_string()));
}

#[test]
fn test_normalize_already_standard_occ() {
    assert_eq!(normalize_option_symbol("MU270115C00600000"), None);
}

#[test]
fn test_normalize_plain_equity() {
    assert_eq!(normalize_option_symbol("AAPL"), None);
}

#[test]
fn normalize_rejects_impossible_dates_and_large_strikes() {
    assert_eq!(normalize_option_symbol("MU271315C600"), None);
    assert_eq!(normalize_option_symbol("MU270230C600"), None);
    assert_eq!(normalize_option_symbol("MU280229c600"), Some("MU280229C00600000".to_string()));
    assert_eq!(normalize_option_symbol("MU270115C100000"), None);
    assert_eq!(normalize_option_symbol("mu270115p99999"), Some("MU270115P99999000".to_string()));
}

#[test]
fn test_extract_main_js_url() {
    let html = r#"<script src="main.abc123.js"></script>"#;
    assert_eq!(extract_main_js_url(html), Some("main.abc123.js".to_string()));
    let html = r#"<script src="/assets/main.def456.js"></script>"#;
    assert_eq!(extract_main_js_url(html), Some("/assets/main.def456.js".to_string()));
    let html = r#"<script src="vendor.js"></script>"#;
    assert_eq!(extract_main_js_url(html), None);
}

#[test]
fn test_extract_salt_from_js() {
    let js = r#"something,salt:"af5a8d16eb5dc49f8a72b26fd9185475c7a",other"#;
    assert_eq!(extract_salt_from_js(js), Some("af5a8d16eb5dc49f8a72b26fd9185475c7a".to_string()));
    let js = r#"no salt here"#;
    assert_eq!(extract_salt_from_js(js), None);
}

#[test]
fn salt_with_space_and_non_hex_values() {
    assert_eq!(extract_salt_from_js(r#"x,salt: "abc123",y"#), Some("abc123".to_string()));
    assert_eq!(extract_salt_from_js(r#"salt:"xyz""#), None);
}

#[test]
fn test_is_us_treasury_isin() {
    assert!(is_us_treasury_isin("US912810TH12"));
    assert!(is_us_treasury_isin("US9128283M69"));
    assert!(!is_us_treasury_isin("DE0001102481"));
    assert!(!is_us_treasury_isin("US037833100"));
}

#[test]
fn test_guard_us_treasury() {
    assert!(guard_us_treasury("US912810TH12").is_ok());
    assert!(guard_us_treasury("DE0001102481").is_err());
}

#[test]
fn test_normalize_frequency() {
    assert_eq!(normalize_frequency("Semi-Annual"), "SEMI_ANNUAL");
    assert_eq!(normalize_frequency("SEMI_ANNUAL"), "SEMI_ANNUAL");
    assert_eq!(normalize_frequency("Annual"), "ANNUAL");
    assert_eq!(normalize_frequency("Quarterly"), "QUARTERLY");
    assert_eq!(normalize_frequency("None"), "ZERO");
    assert_eq!(normalize_frequency("unknown"), "SEMI_ANNUAL");
}

#[test]
fn test_extract_xml_value() {
    let xml = "<d:BC_10YEAR>4.57</d:BC_10YEAR>";
    assert_eq!(extract_xml_value(xml, "BC_10YEAR"), Some("4.57".to_string()));
    let xml = "<BC_1YEAR>4.22</BC_1YEAR>";
    assert_eq!(extract_xml_value(xml, "BC_1YEAR"), Some("4.22".to_string()));
    assert_eq!(extract_xml_value(xml, "BC_5YEAR"), None);
}

#[test]
fn xml_value_is_trimmed() {
    assert_eq!(extract_xml_value("<a><T> 1.5 </T></a>", "T"), Some("1.5".to_string()));
}

#[test]
fn error_messages() {
    assert_eq!(CusipError::InvalidLength(8).message(), "CUSIP must be exactly 9 characters, got 8");
    assert_eq!(
        CusipError::CheckDigitMismatch { expected: 1, actual: 0 }.message(),
        "Check digit mismatch: expected 1, got 0"
    );
    assert_eq!(IsinError::InvalidLength(13).message(), "ISIN must be exactly 12 characters, got 13");
    assert_eq!(
        IsinError::InvalidCountryCode("12".to_string()).message(),
        "Invalid country code '12': must be 2 uppercase letters"
    );
}
