use biblatex::raw::RawChunk;
use biblatex::{Bibliography, Chunk, ChunksExt, Entry, EntryType, RawBibliography};

fn normal(s: &str) -> Chunk {
    Chunk::Normal(s.to_string())
}

fn verbatim(s: &str) -> Chunk {
    Chunk::Verbatim(s.to_string())
}

#[test]
fn nested_braces_become_verbatim_chunks() {
    let b = Bibliography::from_str("@misc{a, title = {The {NASA} story}}", false);
    let e = b.get("a").unwrap();
    assert_eq!(e.get("title").unwrap(), &[normal("The "), verbatim("NASA"), normal(" story")][..]);
}

#[test]
fn deeper_nesting_stays_inside_one_verbatim_chunk() {
    let b = Bibliography::from_str("@misc{a, title = {a {b {c} d} e}}", false);
    let e = b.get("a").unwrap();
    assert_eq!(e.get("title").unwrap(), &[normal("a "), verbatim("b {c} d"), normal(" e")][..]);
}

#[test]
fn quoted_values_need_bibtex_forms() {
    let src = r#"@misc{q, title = "Quoted {Word}"} @misc{r, title = {Plain}}"#;
    let strict = Bibliography::from_str(src, false);
    assert!(strict.get("q").is_none());
    assert!(strict.get("r").is_some());
    let lenient = Bibliography::from_str(src, true);
    assert_eq!(lenient.get("q").unwrap().get("title").unwrap(), &[normal("Quoted "), verbatim("Word")][..]);
}

#[test]
fn abbreviations_and_concatenation() {
    let src = r#"@string{me = {Jane Doe}}
@misc{a, author = me # { and } # "John Roe", month = oct, year = 2020}"#;
    let b = Bibliography::from_str(src, true);
    let e = b.get("a").unwrap();
    assert_eq!(e.get("author").unwrap().format_verbatim(), "Jane Doe and John Roe");
    assert_eq!(e.get("month").unwrap(), &[normal("oct")][..]);
    assert_eq!(e.get("year").unwrap(), &[normal("2020")][..]);
    let date = e.get_date().unwrap();
    assert_eq!((date.year, date.month, date.day), (2020, Some(10), None));
}

#[test]
fn raw_bibliography_keeps_abbreviation_names() {
    let raw = RawBibliography::from_str("@String{pub = {ACM}} @book{b, publisher = pub}", false);
    assert_eq!(raw.abbreviations.len(), 1);
    assert_eq!(raw.abbreviations[0].0, "pub");
    assert_eq!(raw.abbreviations[0].1, vec![normal("ACM")]);
    assert_eq!(raw.entries.len(), 1);
    assert_eq!(raw.entries[0].cite_key, "b");
    assert_eq!(raw.entries[0].entry_type, "book");
    assert_eq!(raw.entries[0].fields, vec![("publisher".to_string(), vec![RawChunk::Abbreviation("pub".to_string())])]);
}

#[test]
fn comments_junk_and_malformed_entries_are_skipped() {
    let src = "junk text\n@comment{ignore {this} }\n@misc{bad, title = }\n@misc{good, title = {Kept},}\n@misc{lonely}";
    let b = Bibliography::from_str(src, false);
    assert_eq!(b.len(), 2);
    assert!(b.get("bad").is_none());
    assert_eq!(b.get("good").unwrap().get_title().unwrap().format_verbatim(), "Kept");
    assert_eq!(b.get("lonely").unwrap().fields.len(), 0);
}

#[test]
fn names_are_case_insensitive_where_bibtex_says_so() {
    let b = Bibliography::from_str("@ARTICLE{Key, TITLE = {T}} @custom{other, title = {U}}", false);
    let e = b.get("Key").unwrap();
    assert_eq!(e.entry_type, EntryType::Article);
    assert_eq!(e.fields[0].0, "title");
    assert!(b.get("key").is_none());
    assert_eq!(b.get("other").unwrap().entry_type, EntryType::Unknown("custom".to_string()));
}

#[test]
fn later_field_with_the_same_name_wins() {
    let b = Bibliography::from_str("@misc{a, note = {first}, note = {second}}", false);
    let e = b.get("a").unwrap();
    assert_eq!(e.fields.len(), 1);
    assert_eq!(e.get("note").unwrap().format_verbatim(), "second");
}

#[test]
fn entry_with_a_key_in_use_is_skipped() {
    let b = Bibliography::from_str("@misc{a, note = {first}} @misc{a, note = {second}}", false);
    assert_eq!(b.len(), 1);
    assert_eq!(b.get("a").unwrap().get("note").unwrap().format_verbatim(), "first");
}

#[test]
fn unterminated_entry_yields_nothing() {
    let b = Bibliography::from_str("@misc{a, title = {never closed", true);
    assert_eq!(b.len(), 0);
}

#[test]
fn written_entry_reads_back() {
    let mut e = Entry::new("knuth:tex", EntryType::Article);
    e.set("title", vec![normal("The "), verbatim("TeX"), normal("book")]);
    e.set("journaltitle", vec![normal("TUGboat")]);
    e.set("note", vec![verbatim(""), normal("x")]);
    let text = e.as_biblatex_string();
    let b = Bibliography::from_str(&text, false);
    assert_eq!(b.len(), 1);
    assert_eq!(b.get("knuth:tex"), Some(&e));
}

#[test]
fn written_bibliography_reads_back() {
    let mut b = Bibliography::new();
    let mut one = Entry::new("one", EntryType::Book);
    one.set("title", vec![normal("First")]);
    one.set("location", vec![normal("Berlin")]);
    let mut two = Entry::new("two", EntryType::Misc);
    two.set("note", vec![verbatim("N"), normal(" B")]);
    b.add(one.clone()).unwrap();
    b.add(two.clone()).unwrap();
    let text = b.as_biblatex_string();
    let read = Bibliography::from_str(&text, true);
    assert_eq!(read.len(), 2);
    assert_eq!(read.get("one"), Some(&one));
    assert_eq!(read.get("two"), Some(&two));
    let keys: Vec<&str> = read.iter().map(|e| e.cite_key.as_str()).collect();
    assert_eq!(keys, vec!["one", "two"]);
}
