use core_data::models::message::errors::{FunctionResponseError, WorkflowResponseError};
use core_data::text::{decimal, join, parse_number, split, split_path, NumberError};

#[test]
fn split_path_at_dots() {
    assert_eq!(split_path("data.a.b"), vec!["data", "a", "b"]);
    assert_eq!(split_path("data"), vec!["data"]);
    assert_eq!(split_path(""), vec![""]);
    assert_eq!(split_path("a..b"), vec!["a", "", "b"]);
    assert_eq!(split_path(".a."), vec!["", "a", ""]);
    assert_eq!(split_path("d\u{e9}j\u{e0}.vu"), vec!["d\u{e9}j\u{e0}", "vu"]);
}

#[test]
fn split_at_commas() {
    assert_eq!(split("wf1,wf2,wf3", ','), vec!["wf1", "wf2", "wf3"]);
    assert_eq!(split("one", ','), vec!["one"]);
    assert_eq!(split("a,", ','), vec!["a", ""]);
}

#[test]
fn decimal_text_of_numbers() {
    assert_eq!(decimal(0), "0");
    assert_eq!(decimal(7), "7");
    assert_eq!(decimal(10), "10");
    assert_eq!(decimal(400), "400");
    assert_eq!(decimal(65535), "65535");
    assert_eq!(decimal(u64::MAX), "18446744073709551615");
}

#[test]
fn join_two_texts() {
    assert_eq!(join("a", "b"), "ab");
    assert_eq!(join("", ""), "");
}

#[test]
fn parse_number_reads_decimal() {
    assert_eq!(parse_number("0", 100), Ok(0));
    assert_eq!(parse_number("8080", 65535), Ok(8080));
    assert_eq!(parse_number("+12", 65535), Ok(12));
    assert_eq!(parse_number("007", 65535), Ok(7));
    assert_eq!(parse_number("65535", 65535), Ok(65535));
    assert_eq!(parse_number("18446744073709551615", u64::MAX), Ok(u64::MAX));
}

#[test]
fn parse_number_says_what_is_wrong() {
    assert_eq!(parse_number("", 100), Err(NumberError::Empty));
    assert_eq!(parse_number("+", 100), Err(NumberError::InvalidDigit));
    assert_eq!(parse_number("-", 100), Err(NumberError::InvalidDigit));
    assert_eq!(parse_number("-5", 100), Err(NumberError::InvalidDigit));
    assert_eq!(parse_number("12a", 100), Err(NumberError::InvalidDigit));
    assert_eq!(parse_number(" 1", 100), Err(NumberError::InvalidDigit));
    assert_eq!(parse_number("65536", 65535), Err(NumberError::PosOverflow));
    assert_eq!(parse_number("18446744073709551616", u64::MAX), Err(NumberError::PosOverflow));
    // the first trouble from the left decides
    assert_eq!(parse_number("99999999x", 65535), Err(NumberError::PosOverflow));
    assert_eq!(parse_number("9x999999", 65535), Err(NumberError::InvalidDigit));
    assert_eq!(NumberError::Empty.text(), "cannot parse integer from empty string");
    assert_eq!(NumberError::InvalidDigit.text(), "invalid digit found in string");
    assert_eq!(NumberError::PosOverflow.text(), "number too large to fit in target type");
}

#[test]
fn parse_number_agrees_with_the_usual_one() {
    for text in ["", "+", "-", "0", "+0", "42", "4 2", "65535", "65536", "-1", "1e3", "٣"] {
        let usual = text.parse::<u16>();
        let ours = parse_number(text, 65535);
        match (usual, ours) {
            (Ok(a), Ok(b)) => assert_eq!(a as u64, b),
            (Err(a), Err(b)) => assert_eq!(a.to_string(), b.text()),
            (a, b) => panic!("{:?} and {:?} differ on {:?}", a, b, text),
        }
    }
}

#[test]
fn errors_are_reported_in_one_line() {
    let e = FunctionResponseError::new("Parse".to_string(), 400, "No content or URL provided".to_string());
    assert_eq!(e.function, "Parse");
    assert_eq!(e.code, 400);
    assert_eq!(e.message, "No content or URL provided");
    assert_eq!(e.to_string(), "Function 'Parse' failed (code 400): No content or URL provided");
    let w = WorkflowResponseError::new("wf".to_string(), 3, 500, "it broke".to_string());
    assert_eq!(w.workflow_id, "wf");
    assert_eq!(w.version, 3);
    assert_eq!(w.code, 500);
    assert_eq!(w.desciption, "it broke");
    assert_eq!(w.to_string(), "Workflow error - ID: wf, Version: 3, Code: 500, Message: it broke");
    let from = WorkflowResponseError::from(e);
    assert_eq!(from.workflow_id, "unknown");
    assert_eq!(from.version, 0);
    assert_eq!(from.code, 500);
    assert_eq!(from.desciption, "Function error: No content or URL provided (Parse)");
}
