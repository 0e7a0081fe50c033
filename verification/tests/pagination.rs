use pinboard_fetch::board::{Pin, PinResult};
use pinboard_fetch::error::ApiError;
use pinboard_fetch::pagination::{is_terminal_token, Pagination, Progress};

fn token(marks: &[&str]) -> Vec<String> {
    marks.iter().map(|m| m.to_string()).collect()
}

fn page(ids: &[&str], marks: &[&str]) -> PinResult {
    PinResult {
        pins: ids
            .iter()
            .map(|id| Pin { id: id.to_string(), pic_url: format!("https://i.example/{}.jpg", id) })
            .collect(),
        bookmarks: token(marks),
    }
}

fn ids(pins: &[Pin]) -> Vec<String> {
    pins.iter().map(|p| p.id.clone()).collect()
}

/// Feeds the scripted answers to a walk, one per request, and says how it ended,
/// with the bookmarks of every request that was made.
fn walk(script: Vec<Result<PinResult, ApiError>>) -> (Option<Progress>, Vec<Vec<String>>) {
    let mut asked = Vec::new();
    let mut progress = Pagination::start();
    let mut script = script.into_iter();
    loop {
        match progress {
            Progress::Fetch { engine, bookmarks } => {
                let Some(answer) = script.next() else {
                    return (Some(Progress::Fetch { engine, bookmarks }), asked);
                };
                asked.push(bookmarks);
                progress = engine.on_page(answer);
            }
            settled => return (Some(settled), asked),
        }
    }
}

#[test]
fn empty_token_is_terminal() {
    assert!(is_terminal_token(&token(&[])));
}

#[test]
fn prefixed_token_is_terminal() {
    assert!(is_terminal_token(&token(&["Y2JOb25lO"])));
    assert!(is_terminal_token(&token(&["Y2JOb25lOnRydWU="])));
    assert!(is_terminal_token(&token(&["Y2JOb25lO", "more"])));
}

#[test]
fn end_mark_is_terminal() {
    assert!(is_terminal_token(&token(&["-end-"])));
    assert!(is_terminal_token(&token(&["-end-", "tok"])));
}

#[test]
fn other_tokens_are_not_terminal() {
    assert!(!is_terminal_token(&token(&["tok1"])));
    assert!(!is_terminal_token(&token(&[""])));
    assert!(!is_terminal_token(&token(&["Y2JOb25l"])));
    assert!(!is_terminal_token(&token(&["y2job25lo"])));
    assert!(!is_terminal_token(&token(&["xY2JOb25lO"])));
    assert!(!is_terminal_token(&token(&["-end"])));
    assert!(!is_terminal_token(&token(&["-end-x"])));
    assert!(!is_terminal_token(&token(&["tok", "-end-"])));
    assert!(!is_terminal_token(&token(&["tok", "Y2JOb25lO"])));
}

#[test]
fn first_request_carries_no_bookmark() {
    match Pagination::start() {
        Progress::Fetch { engine, bookmarks } => {
            assert!(engine.pins.is_empty());
            assert!(bookmarks.is_empty());
        }
        _ => panic!("a walk begins by asking"),
    }
}

#[test]
fn walk_halts_on_empty_token() {
    let (end, asked) = walk(vec![
        Ok(page(&["a", "b"], &["t1"])),
        Ok(page(&["c"], &[])),
        Ok(page(&["never"], &["t3"])),
    ]);
    match end {
        Some(Progress::Done(pins)) => assert_eq!(ids(&pins), vec!["a", "b", "c"]),
        _ => panic!("the walk should be done"),
    }
    assert_eq!(asked, vec![token(&[]), token(&["t1"])]);
}

#[test]
fn walk_halts_on_prefixed_token() {
    let (end, asked) = walk(vec![
        Ok(page(&["a"], &["t1"])),
        Ok(page(&["b"], &["t2"])),
        Ok(page(&["c", "d"], &["Y2JOb25lOabc"])),
        Ok(page(&["never"], &["t4"])),
    ]);
    match end {
        Some(Progress::Done(pins)) => assert_eq!(ids(&pins), vec!["a", "b", "c", "d"]),
        _ => panic!("the walk should be done"),
    }
    assert_eq!(asked, vec![token(&[]), token(&["t1"]), token(&["t2"])]);
}

#[test]
fn walk_halts_on_end_mark() {
    let (end, asked) = walk(vec![Ok(page(&["a"], &["-end-"])), Ok(page(&["never"], &["t"]))]);
    match end {
        Some(Progress::Done(pins)) => assert_eq!(ids(&pins), vec!["a"]),
        _ => panic!("the walk should be done"),
    }
    assert_eq!(asked, vec![token(&[])]);
}

#[test]
fn walk_keeps_the_pins_of_the_terminal_page() {
    let (end, _) = walk(vec![Ok(page(&["only"], &[]))]);
    match end {
        Some(Progress::Done(pins)) => assert_eq!(ids(&pins), vec!["only"]),
        _ => panic!("the walk should be done"),
    }
}

#[test]
fn walk_does_not_stop_by_itself() {
    let pages = 200;
    let script = (0..pages)
        .map(|n| Ok(page(&[format!("p{}", n).as_str()], &[format!("tok{}", n).as_str()])))
        .collect();
    let (end, asked) = walk(script);
    assert_eq!(asked.len(), pages);
    match end {
        Some(Progress::Fetch { engine, bookmarks }) => {
            assert_eq!(engine.pins.len(), pages);
            assert_eq!(engine.pins[0].id, "p0");
            assert_eq!(engine.pins[pages - 1].id, "p199");
            assert_eq!(bookmarks, token(&["tok199"]));
        }
        _ => panic!("the walk should still ask"),
    }
}

#[test]
fn walk_echoes_the_token_as_it_came() {
    let (_, asked) = walk(vec![
        Ok(page(&[], &["first", "second", ""])),
        Ok(page(&[], &["-end-"])),
    ]);
    assert_eq!(asked, vec![token(&[]), token(&["first", "second", ""])]);
}

#[test]
fn failure_discards_what_was_gathered() {
    let (end, asked) = walk(vec![
        Ok(page(&["a", "b"], &["t1"])),
        Err(ApiError::RequestFailed),
        Ok(page(&["c"], &[])),
    ]);
    assert!(matches!(end, Some(Progress::Failed(ApiError::RequestFailed))));
    assert_eq!(asked.len(), 2);
}

#[test]
fn missing_field_on_the_first_page_fails_the_walk() {
    let (end, _) = walk(vec![Err(ApiError::MissingField)]);
    assert!(matches!(end, Some(Progress::Failed(ApiError::MissingField))));
}

#[test]
fn two_page_board_end_to_end() {
    let (end, asked) = walk(vec![
        Ok(page(&["1", "2", "3"], &["tok1"])),
        Ok(page(&["4", "5"], &["-end-"])),
    ]);
    match end {
        Some(Progress::Done(pins)) => {
            assert_eq!(ids(&pins), vec!["1", "2", "3", "4", "5"]);
            assert_eq!(pins[3].pic_url, "https://i.example/4.jpg");
        }
        _ => panic!("the walk should be done"),
    }
    assert_eq!(asked, vec![token(&[]), token(&["tok1"])]);
}

#[test]
fn duplicates_across_pages_are_kept() {
    let (end, _) = walk(vec![Ok(page(&["a", "b"], &["t"])), Ok(page(&["b", "c"], &[]))]);
    match end {
        Some(Progress::Done(pins)) => assert_eq!(ids(&pins), vec!["a", "b", "b", "c"]),
        _ => panic!("the walk should be done"),
    }
}
