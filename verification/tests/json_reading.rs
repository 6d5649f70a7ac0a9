use huemanity::codec::parse;
use huemanity::json::Json;

#[test]
fn parse_reads_an_array_with_an_object() {
    let json = parse("[{\"error\":{\"type\":101}}]").ok().unwrap();
    let first = json.at(0).unwrap();
    let code = first.get("error").unwrap().get("type").unwrap().as_i64();
    assert_eq!(code, Some(101));
    assert!(json.at(1).is_none());
}

#[test]
fn parse_rejects_text_that_is_not_json() {
    assert!(parse("<html>").is_err());
    assert!(parse("").is_err());
    assert!(parse("{} trailing").is_err());
}

#[test]
fn parse_tells_the_three_kinds_of_number_apart() {
    let json = parse("[7, -3, 0.25, 18446744073709551615]").ok().unwrap();
    assert_eq!(json.at(0).unwrap().as_u64(), Some(7));
    assert_eq!(json.at(0).unwrap().as_i64(), Some(7));
    assert_eq!(json.at(1).unwrap().as_i64(), Some(-3));
    assert_eq!(json.at(1).unwrap().as_u64(), None);
    assert_eq!(json.at(2).unwrap().as_i64(), None);
    assert_eq!(json.at(3).unwrap().as_u64(), Some(u64::MAX));
    assert_eq!(json.at(3).unwrap().as_i64(), None);
    assert!(matches!(json.at(2), Some(Json::Number(_))));
}
