use shaffuru::parse_length;

const ERR: &str = "length must be less than 256";

#[test]
fn parse_length_accepts_values_in_range() {
    assert_eq!(parse_length("0"), Ok(0));
    assert_eq!(parse_length("25"), Ok(25));
    assert_eq!(parse_length("255"), Ok(255));
    assert_eq!(parse_length("007"), Ok(7));
    assert_eq!(parse_length("+10"), Ok(10));
}

#[test]
fn parse_length_rejects_out_of_range() {
    assert_eq!(parse_length("256"), Err(ERR.to_string()));
    assert_eq!(parse_length("1000"), Err(ERR.to_string()));
    assert_eq!(parse_length("999999999999999999999999"), Err(ERR.to_string()));
}

#[test]
fn parse_length_rejects_malformed_input() {
    assert_eq!(parse_length(""), Err(ERR.to_string()));
    assert_eq!(parse_length("abc"), Err(ERR.to_string()));
    assert_eq!(parse_length("12a"), Err(ERR.to_string()));
    assert_eq!(parse_length("+"), Err(ERR.to_string()));
    assert_eq!(parse_length("-1"), Err(ERR.to_string()));
    assert_eq!(parse_length(" 25"), Err(ERR.to_string()));
}
