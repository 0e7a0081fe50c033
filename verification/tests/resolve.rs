use pinboard_fetch::address::BoardDescription;
use pinboard_fetch::board::Board;
use pinboard_fetch::error::{ApiError, CreationError};
use pinboard_fetch::resolve::{read_board, RawBoard};

fn description() -> BoardDescription {
    BoardDescription { user: "alice".to_string(), name: "travel-photos".to_string() }
}

fn answer_of(text: &str) -> serde_json::Value {
    serde_json::from_str(text).unwrap()
}

#[test]
fn board_is_made_of_both_fields() {
    let raw = RawBoard { id: Some("42".to_string()), pin_count: Some(5) };
    let board = Board::from_fields(description(), raw).unwrap();
    assert_eq!(board.id, "42");
    assert_eq!(board.len, 5);
    assert_eq!(board.user, "alice");
    assert_eq!(board.name, "travel-photos");
}

#[test]
fn board_without_identifier_is_a_missing_field() {
    let raw = RawBoard { id: None, pin_count: Some(5) };
    assert_eq!(Board::from_fields(description(), raw).err(), Some(ApiError::MissingField));
}

#[test]
fn board_without_pin_count_is_a_missing_field() {
    let raw = RawBoard { id: Some("42".to_string()), pin_count: None };
    assert_eq!(Board::from_fields(description(), raw).err(), Some(ApiError::MissingField));
    let raw = RawBoard { id: None, pin_count: None };
    assert_eq!(Board::from_fields(description(), raw).err(), Some(ApiError::MissingField));
}

#[test]
fn board_answer_is_read() {
    let answer = answer_of(r#"{"resource_response": {"data": {"id": "549439554489", "pin_count": 5, "name": "x"}}}"#);
    let raw = read_board(&answer);
    assert_eq!(raw.id.as_deref(), Some("549439554489"));
    assert_eq!(raw.pin_count, Some(5));
    let board = Board::from_description(description(), &answer).unwrap();
    assert_eq!(board.id, "549439554489");
    assert_eq!(board.len, 5);
    assert_eq!(board.user, "alice");
    assert_eq!(board.name, "travel-photos");
}

#[test]
fn board_with_the_largest_pin_count() {
    let answer = answer_of(r#"{"resource_response": {"data": {"id": "1", "pin_count": 18446744073709551615}}}"#);
    assert_eq!(Board::from_description(description(), &answer).unwrap().len, u64::MAX);
    let answer = answer_of(r#"{"resource_response": {"data": {"id": "1", "pin_count": 0}}}"#);
    assert_eq!(Board::from_description(description(), &answer).unwrap().len, 0);
}

#[test]
fn board_answer_with_mistyped_fields_is_a_missing_field() {
    let missing = Some(CreationError::ApiError(ApiError::MissingField));
    for text in [
        r#"{"resource_response": {"data": {"id": 7, "pin_count": 5}}}"#,
        r#"{"resource_response": {"data": {"id": "7", "pin_count": "5"}}}"#,
        r#"{"resource_response": {"data": {"id": "7", "pin_count": -1}}}"#,
        r#"{"resource_response": {"data": {"id": "7", "pin_count": 1.5}}}"#,
        r#"{"resource_response": {"data": {"id": "7", "pin_count": null}}}"#,
        r#"{"resource_response": {"data": {"id": "7"}}}"#,
        r#"{"resource_response": {"data": {"pin_count": 5}}}"#,
        r#"{"resource_response": {"data": []}}"#,
        r#"{"resource_response": {}}"#,
        r#"{}"#,
        r#"[]"#,
    ] {
        assert_eq!(Board::from_description(description(), &answer_of(text)).err(), missing);
    }
}

#[test]
fn board_fields_are_read_where_they_stand() {
    let answer = answer_of(
        r#"{"id": "outer", "pin_count": 1,
            "resource_response": {"id": "middle", "pin_count": 2,
                "data": {"id": "inner", "pin_count": 3, "more": {"id": "deeper", "pin_count": 4}}}}"#,
    );
    let raw = read_board(&answer);
    assert_eq!(raw.id.as_deref(), Some("inner"));
    assert_eq!(raw.pin_count, Some(3));
}
