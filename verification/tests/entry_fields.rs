use biblatex::{Chunk, ChunksExt, Entry, EntryType, RetrievalError};

fn normal(s: &str) -> Chunk {
    Chunk::Normal(s.to_string())
}

#[test]
fn set_then_get_finds_value_case_insensitively() {
    let mut e = Entry::new("key", EntryType::Article);
    e.set("Title", vec![normal("A title")]);
    assert_eq!(e.get("title"), Some(&[normal("A title")][..]));
    assert_eq!(e.get("TITLE"), Some(&[normal("A title")][..]));
    assert_eq!(e.get("author"), None);
}

#[test]
fn delete_returns_value_and_removes_field() {
    let mut e = Entry::new("key", EntryType::Book);
    e.set("note", vec![normal("x")]);
    assert_eq!(e.delete("note"), Some(vec![normal("x")]));
    assert_eq!(e.get("note"), None);
    assert_eq!(e.delete("note"), None);
}

#[test]
fn get_as_reports_missing_field() {
    let e = Entry::new("key", EntryType::Misc);
    match e.get_as::<String>("doi") {
        Err(RetrievalError::Missing(k)) => assert_eq!(k, "doi"),
        _ => panic!("expected a missing field"),
    }
}

#[test]
fn format_verbatim_concatenates_chunks() {
    let cs = vec![normal("Inside "), Chunk::Verbatim("NASA".to_string())];
    assert_eq!(cs.format_verbatim(), "Inside NASA");
}

#[test]
fn entries_are_equal_whatever_the_order_of_their_fields() {
    let mut a = Entry::new("key", EntryType::Article);
    a.set("title", vec![normal("T")]);
    a.set("author", vec![normal("A")]);
    let mut b = Entry::new("key", EntryType::Article);
    b.set("author", vec![normal("A")]);
    b.set("title", vec![normal("T")]);
    assert_eq!(a, b);
    b.set("title", vec![Chunk::Verbatim("T".to_string())]);
    assert_ne!(a, b);
    let mut c = Entry::new("key", EntryType::Book);
    c.set("author", vec![normal("A")]);
    c.set("title", vec![normal("T")]);
    assert_ne!(a, c);
    let mut d = Entry::new("key", EntryType::Article);
    d.set("title", vec![normal("T")]);
    assert_ne!(a, d);
    assert_ne!(d, a);
    let u = Entry::new("k", EntryType::Unknown("custom".to_string()));
    assert_eq!(u, Entry::new("k", EntryType::Unknown("custom".to_string())));
    assert_ne!(u, Entry::new("k", EntryType::Unknown("other".to_string())));
}
