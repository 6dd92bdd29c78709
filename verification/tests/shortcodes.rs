use wm_receiver::mapper::{expand_shortcode, ShortCode, ShortCodeParseError};
use wm_receiver::newbase60::sxg_to_num;

#[test]
fn does_not_parse_empty_codes() {
    assert_eq!(ShortCode::parse(""), Err(ShortCodeParseError::EmptyString))
}

#[test]
fn does_not_parse_long_codes() {
    assert_eq!(ShortCode::parse("sfd8977f879978sdf}"), Err(ShortCodeParseError::TooLong))
}

#[test]
fn does_not_parse_unsupported_types() {
    assert_eq!(ShortCode::parse("f32"), Err(ShortCodeParseError::UnsupportedType))
}

#[test]
fn parses_project_codes() {
    assert_eq!(ShortCode::parse("pfoob"), Ok(ShortCode::Project("foob")));
}

#[test]
fn parses_entry_codes() {
    assert_eq!(ShortCode::parse("e4MYA"), Ok(ShortCode::Entry(2012, 12, 18, 10)));
    assert_eq!(ShortCode::parse("e4MY0"), Ok(ShortCode::Entry(2012, 12, 18, 0)));
}

#[test]
fn rejects_bad_sxg_payloads() {
    assert_eq!(ShortCode::parse("e!!!"), Err(ShortCodeParseError::SXGError));
    // Eleven digits of the highest value overflow a u64.
    assert_eq!(ShortCode::parse("ezzzzzzzzzzz"), Err(ShortCodeParseError::SXGError));
}

#[test]
fn rejects_days_beyond_the_calendar_range() {
    // 60^6 - 1 sixtieths of a day is far past the supported calendar range.
    assert_eq!(ShortCode::parse("ezzzzzz"), Err(ShortCodeParseError::InvalidDate));
}

#[test]
fn expands_entry_codes() {
    assert_eq!(ShortCode::Entry(2021, 11, 28, 3).expand(), "2021/11/28/3/".to_string());
    assert_eq!(ShortCode::Entry(2021, 3, 28, 9).expand(), "2021/03/28/9/".to_string());
}

#[test]
fn expands_project_codes() {
    assert_eq!(ShortCode::Project("masdf").expand(), "projects/masdf/".to_string());
}

#[test]
fn expands_negative_years_with_a_sign() {
    assert_eq!(ShortCode::Entry(-5, 1, 2, 3).expand(), "-5/01/02/3/".to_string());
}

#[test]
fn expands_codes_end_to_end() {
    assert_eq!(expand_shortcode("e4MYA"), Ok("2012/12/18/10/".to_string()));
    assert_eq!(expand_shortcode("pfoob"), Ok("projects/foob/".to_string()));
    assert_eq!(expand_shortcode(""), Err(ShortCodeParseError::EmptyString));
}

#[test]
fn reads_new_base_sixty_numbers() {
    assert_eq!(sxg_to_num(""), Some(0));
    assert_eq!(sxg_to_num("0"), Some(0));
    assert_eq!(sxg_to_num("10"), Some(60));
    assert_eq!(sxg_to_num("4MYA"), Some(941530));
    // The ambiguous letters read as their look-alike digits.
    assert_eq!(sxg_to_num("I"), Some(1));
    assert_eq!(sxg_to_num("l"), Some(1));
    assert_eq!(sxg_to_num("O"), Some(0));
    assert_eq!(sxg_to_num("!"), None);
}
