use pinboard_fetch::board::PinResult;
use pinboard_fetch::error::ApiError;
use pinboard_fetch::feed::{decode_bookmarks, decode_page, decode_pins, read_page, RawPage, RawPin};
use pinboard_fetch::json::{decimal_text, element_path};

fn raw(id: Option<&str>, url: Option<&str>) -> RawPin {
    RawPin { id: id.map(|s| s.to_string()), image_url: url.map(|s| s.to_string()) }
}

fn json(text: &str) -> serde_json::Value {
    serde_json::from_str(text).unwrap()
}

fn pairs(page: &PinResult) -> Vec<(String, String)> {
    page.pins.iter().map(|p| (p.id.clone(), p.pic_url.clone())).collect()
}

fn pin_pair(id: &str, url: &str) -> (String, String) {
    (id.to_string(), url.to_string())
}

#[test]
fn pins_without_a_picture_are_dropped() {
    let pins = decode_pins(vec![
        raw(Some("1"), Some("u1")),
        raw(Some("2"), None),
        raw(None, None),
        raw(Some("4"), Some("u4")),
    ])
    .unwrap();
    assert_eq!(pins.len(), 2);
    assert_eq!((pins[0].id.as_str(), pins[0].pic_url.as_str()), ("1", "u1"));
    assert_eq!((pins[1].id.as_str(), pins[1].pic_url.as_str()), ("4", "u4"));
}

#[test]
fn no_entries_give_no_pins() {
    assert!(decode_pins(Vec::new()).unwrap().is_empty());
}

#[test]
fn picture_without_identifier_is_a_missing_field() {
    let result = decode_pins(vec![raw(Some("1"), Some("u1")), raw(None, Some("u2"))]);
    assert_eq!(result.err(), Some(ApiError::MissingField));
}

#[test]
fn bookmarks_are_kept_in_order() {
    let marks =
        decode_bookmarks(vec![Some("a".to_string()), Some("".to_string()), Some("c".to_string())]);
    assert_eq!(marks.unwrap(), vec!["a", "", "c"]);
    assert!(decode_bookmarks(Vec::new()).unwrap().is_empty());
}

#[test]
fn bookmark_that_is_no_string_is_a_missing_field() {
    let marks = decode_bookmarks(vec![Some("a".to_string()), None]);
    assert_eq!(marks.err(), Some(ApiError::MissingField));
}

#[test]
fn page_needs_both_arrays() {
    let no_items = RawPage { items: None, bookmarks: Some(Vec::new()) };
    assert_eq!(decode_page(no_items).err(), Some(ApiError::MissingField));
    let no_marks = RawPage { items: Some(Vec::new()), bookmarks: None };
    assert_eq!(decode_page(no_marks).err(), Some(ApiError::MissingField));
    let neither = RawPage { items: None, bookmarks: None };
    assert_eq!(decode_page(neither).err(), Some(ApiError::MissingField));
}

#[test]
fn page_of_nothing_is_a_page() {
    let page = decode_page(RawPage { items: Some(Vec::new()), bookmarks: Some(Vec::new()) }).unwrap();
    assert!(page.pins.is_empty());
    assert!(page.bookmarks.is_empty());
}

#[test]
fn page_is_decoded_from_its_parts() {
    let page = decode_page(RawPage {
        items: Some(vec![raw(Some("1"), None), raw(Some("2"), Some("u2"))]),
        bookmarks: Some(vec![Some("tok".to_string())]),
    })
    .unwrap();
    assert_eq!(pairs(&page), vec![pin_pair("2", "u2")]);
    assert_eq!(page.bookmarks, vec!["tok"]);
}

#[test]
fn feed_answer_is_read() {
    let answer = json(
        r#"{
            "resource_response": {"data": [
                {"id": "11", "images": {"orig": {"url": "https://i.example/a.jpg"}}},
                {"id": "12", "images": {"orig": {}}},
                {"id": "13"},
                {"type": "story", "images": {"orig": {"url": 7}}},
                {"id": "15", "images": {"orig": {"url": "https://i.example/b.png"}, "small": {}}}
            ]},
            "resource": {"options": {"bookmarks": ["tok1", "tok2"]}}
        }"#,
    );
    let raw = read_page(&answer);
    assert_eq!(raw.items.as_ref().unwrap().len(), 5);
    assert_eq!(raw.items.as_ref().unwrap()[3].id, None);
    assert_eq!(raw.items.as_ref().unwrap()[3].image_url, None);
    let page = PinResult::from_response(&answer).unwrap();
    assert_eq!(
        pairs(&page),
        vec![pin_pair("11", "https://i.example/a.jpg"), pin_pair("15", "https://i.example/b.png")]
    );
    assert_eq!(page.bookmarks, vec!["tok1", "tok2"]);
}

#[test]
fn feed_answer_without_entries_is_a_missing_field() {
    let answer = json(r#"{"resource": {"options": {"bookmarks": []}}}"#);
    assert_eq!(PinResult::from_response(&answer).err(), Some(ApiError::MissingField));
    let answer = json(r#"{"resource_response": {"data": {"0": 1}}, "resource": {"options": {"bookmarks": []}}}"#);
    assert_eq!(PinResult::from_response(&answer).err(), Some(ApiError::MissingField));
}

#[test]
fn feed_answer_without_bookmarks_is_a_missing_field() {
    let answer = json(r#"{"resource_response": {"data": []}}"#);
    assert_eq!(PinResult::from_response(&answer).err(), Some(ApiError::MissingField));
    let answer = json(r#"{"resource_response": {"data": []}, "resource": {"options": {"bookmarks": "tok"}}}"#);
    assert_eq!(PinResult::from_response(&answer).err(), Some(ApiError::MissingField));
}

#[test]
fn feed_answer_with_odd_bookmark_is_a_missing_field() {
    let answer = json(r#"{"resource_response": {"data": []}, "resource": {"options": {"bookmarks": ["a", 5]}}}"#);
    assert_eq!(PinResult::from_response(&answer).err(), Some(ApiError::MissingField));
}

#[test]
fn feed_entry_with_picture_and_no_identifier_is_a_missing_field() {
    let answer = json(
        r#"{"resource_response": {"data": [{"images": {"orig": {"url": "u"}}}]},
            "resource": {"options": {"bookmarks": []}}}"#,
    );
    assert_eq!(PinResult::from_response(&answer).err(), Some(ApiError::MissingField));
    let answer = json(
        r#"{"resource_response": {"data": [{"id": 5, "images": {"orig": {"url": "u"}}}]},
            "resource": {"options": {"bookmarks": []}}}"#,
    );
    assert_eq!(PinResult::from_response(&answer).err(), Some(ApiError::MissingField));
}

#[test]
fn feed_answer_that_is_no_object_is_a_missing_field() {
    assert_eq!(PinResult::from_response(&json("[]")).err(), Some(ApiError::MissingField));
    assert_eq!(PinResult::from_response(&json("null")).err(), Some(ApiError::MissingField));
}

#[test]
fn empty_feed_page_ends_the_feed() {
    let answer = json(r#"{"resource_response": {"data": []}, "resource": {"options": {"bookmarks": []}}}"#);
    let page = PinResult::from_response(&answer).unwrap();
    assert!(page.pins.is_empty());
    assert!(page.bookmarks.is_empty());
}

#[test]
fn long_feed_page_is_read_in_order() {
    let mut entries = Vec::new();
    let mut marks = Vec::new();
    for n in 0..123 {
        entries.push(format!(r#"{{"id": "pin{}", "images": {{"orig": {{"url": "u{}.jpg"}}}}}}"#, n, n));
        marks.push(format!(r#""mark{}""#, n));
    }
    let answer = json(&format!(
        r#"{{"resource_response": {{"data": [{}]}}, "resource": {{"options": {{"bookmarks": [{}]}}}}}}"#,
        entries.join(","),
        marks.join(",")
    ));
    let page = PinResult::from_response(&answer).unwrap();
    assert_eq!(page.pins.len(), 123);
    assert_eq!(page.bookmarks.len(), 123);
    for n in 0..123 {
        assert_eq!(page.pins[n].id, format!("pin{}", n));
        assert_eq!(page.pins[n].pic_url, format!("u{}.jpg", n));
        assert_eq!(page.bookmarks[n], format!("mark{}", n));
    }
}

#[test]
fn entries_are_read_from_the_array_alone() {
    let answer = json(
        r#"{"resource_response": {"data": [{"id": "a", "0": {"id": "wrong"}, "images": {"orig": {"url": "u"}}}],
                                  "0": {"id": "wrong"}},
            "resource": {"options": {"bookmarks": ["0", "1"]}}}"#,
    );
    let page = PinResult::from_response(&answer).unwrap();
    assert_eq!(pairs(&page), vec![pin_pair("a", "u")]);
    assert_eq!(page.bookmarks, vec!["0", "1"]);
}

#[test]
fn decimal_text_writes_numbers() {
    assert_eq!(decimal_text(0), "0");
    assert_eq!(decimal_text(7), "7");
    assert_eq!(decimal_text(9), "9");
    assert_eq!(decimal_text(10), "10");
    assert_eq!(decimal_text(1234567890), "1234567890");
    assert_eq!(decimal_text(100), "100");
    assert_eq!(decimal_text(usize::MAX), usize::MAX.to_string());
}

#[test]
fn element_path_names_a_place_in_an_element() {
    assert_eq!(element_path("/a/b", 12, "/c"), "/a/b/12/c");
    assert_eq!(element_path("/a", 0, ""), "/a/0");
    assert_eq!(element_path("", 3, "/x"), "/3/x");
}
