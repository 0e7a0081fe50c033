use pinboard_fetch::board::Pin;
use pinboard_fetch::download::extension;
use pinboard_fetch::text::{chars_of, same_text, starts_with};

fn pin(id: &str, url: &str) -> Pin {
    Pin { id: id.to_string(), pic_url: url.to_string() }
}

#[test]
fn extension_follows_the_last_dot() {
    assert_eq!(extension("https://i.example/736x/ab/cd/picture.jpg").as_deref(), Some("jpg"));
    assert_eq!(extension("archive.tar.gz").as_deref(), Some("gz"));
    assert_eq!(extension(".hidden").as_deref(), Some("hidden"));
}

#[test]
fn extension_may_be_empty() {
    assert_eq!(extension("picture.").as_deref(), Some(""));
    assert_eq!(extension(".").as_deref(), Some(""));
}

#[test]
fn extension_is_taken_as_it_stands() {
    assert_eq!(extension("https://i.example/a.b/c").as_deref(), Some("b/c"));
    assert_eq!(extension("a.jpg?x=1").as_deref(), Some("jpg?x=1"));
    assert_eq!(extension("é.ñ").as_deref(), Some("ñ"));
}

#[test]
fn address_without_dot_has_no_extension() {
    assert_eq!(extension("picture"), None);
    assert_eq!(extension(""), None);
    assert_eq!(extension("https://host/path"), None);
}

#[test]
fn file_name_is_identifier_dot_extension() {
    assert_eq!(pin("123", "https://i.example/x/y.png").file_name().as_deref(), Some("123.png"));
    assert_eq!(pin("a.b", "y.jpeg").file_name().as_deref(), Some("a.b.jpeg"));
    assert_eq!(pin("", "y.").file_name().as_deref(), Some("."));
}

#[test]
fn pin_without_extension_has_no_file_name() {
    assert_eq!(pin("123", "https://host/picture").file_name(), None);
}

#[test]
fn chars_of_gives_every_character() {
    assert_eq!(chars_of("aé日/"), vec!['a', 'é', '日', '/']);
    assert!(chars_of("").is_empty());
}

#[test]
fn starts_with_compares_characters() {
    assert!(starts_with("abc", ""));
    assert!(starts_with("abc", "ab"));
    assert!(starts_with("abc", "abc"));
    assert!(!starts_with("abc", "abcd"));
    assert!(!starts_with("abc", "b"));
    assert!(!starts_with("", "a"));
    assert!(starts_with("", ""));
    assert!(starts_with("été", "ét"));
    assert!(!starts_with("ete", "ét"));
}

#[test]
fn same_text_is_equality() {
    assert!(same_text("", ""));
    assert!(same_text("-end-", "-end-"));
    assert!(!same_text("-end-", "-end"));
    assert!(!same_text("-end", "-end-"));
    assert!(!same_text("a", "b"));
}
