use biblatex::types::{Date, EditorType, Gender, IntOrChunks, Pagination, Person, TypeError};
use biblatex::{Chunk, ChunksExt, Entry, EntryType, RetrievalError};

fn normal(s: &str) -> Chunk {
    Chunk::Normal(s.to_string())
}

fn entry_with(key: &str, value: &str) -> Entry {
    let mut e = Entry::new("k", EntryType::Misc);
    e.set(key, vec![normal(value)]);
    e
}

#[test]
fn integers_read_back() {
    for n in [0i64, 7, -42, 115, i64::MAX, i64::MIN] {
        let mut e = Entry::new("k", EntryType::Misc);
        e.set_as("volume", &n).unwrap();
        assert_eq!(e.get_as::<i64>("volume"), Ok(n));
    }
    assert_eq!(entry_with("volume", " 12 ").get_volume(), Ok(12));
    assert_eq!(entry_with("volume", "-0").get_volume(), Ok(0));
    assert_eq!(entry_with("volume", "4x2").get_volume(), Err(RetrievalError::TypeError(TypeError)));
    assert_eq!(entry_with("volume", "9223372036854775808").get_volume(), Err(RetrievalError::TypeError(TypeError)));
    assert_eq!(entry_with("volume", "-9223372036854775808").get_volume(), Ok(i64::MIN));
}

#[test]
fn strings_and_lists_read_back() {
    let mut e = Entry::new("k", EntryType::Misc);
    e.set_as("doi", &"10.1000/182".to_string()).unwrap();
    assert_eq!(e.get_doi(), Ok("10.1000/182".to_string()));
    let list = vec!["alpha".to_string(), "beta gamma".to_string()];
    e.set_as("keywords", &list).unwrap();
    assert_eq!(e.get("keywords").unwrap(), &[normal("alpha, beta gamma")][..]);
    assert_eq!(e.get_as::<Vec<String>>("keywords"), Ok(list));
    assert_eq!(
        entry_with("ids", " a, b,,c ").get_as::<Vec<String>>("ids"),
        Ok(vec!["a".to_string(), "b".to_string(), "c".to_string()])
    );
}

#[test]
fn dates_read_and_write() {
    let d = Date { year: 2019, month: Some(10), day: Some(3) };
    let mut e = Entry::new("k", EntryType::Misc);
    e.set("year", vec![normal("1999")]);
    e.set_date(d).unwrap();
    assert!(e.get("year").is_none());
    assert_eq!(e.get("date").unwrap(), &[normal("2019-10-03")][..]);
    assert_eq!(e.get_date(), Ok(d));
    assert_eq!(entry_with("date", "2019-13").get_date(), Err(RetrievalError::TypeError(TypeError)));
    assert!(e.set_date(Date { year: 10000, month: None, day: None }).is_err());
    assert_eq!(e.get_date(), Ok(d));

    let mut parts = Entry::new("k", EntryType::Misc);
    parts.set("year", vec![normal("2001")]);
    parts.set("month", vec![normal("October")]);
    parts.set("day", vec![normal("9")]);
    assert_eq!(parts.get_date(), Ok(Date { year: 2001, month: Some(10), day: Some(9) }));
    match Entry::new("k", EntryType::Misc).get_date() {
        Err(RetrievalError::Missing(k)) => assert_eq!(k, "date"),
        other => panic!("unexpected {:?}", other),
    }

    let mut ev = Entry::new("k", EntryType::Misc);
    ev.set_event_date(Date { year: 1969, month: Some(7), day: None }).unwrap();
    assert_eq!(ev.get("eventdate").unwrap(), &[normal("1969-07")][..]);
    assert_eq!(ev.get_event_date(), Ok(Date { year: 1969, month: Some(7), day: None }));
    assert!(ev.get_url_date().is_err());
}

#[test]
fn persons_and_name_lists() {
    let e = entry_with("author", "Doe, John and Jane Smith and van Beethoven, Jr., Ludwig");
    let authors: Vec<Person> = e.get_author().unwrap();
    assert_eq!(authors.len(), 3);
    assert_eq!((authors[0].name.as_str(), authors[0].given_name.as_str()), ("Doe", "John"));
    assert_eq!((authors[1].name.as_str(), authors[1].given_name.as_str()), ("Smith", "Jane"));
    assert_eq!(authors[2].suffix, "Jr.");
    assert_eq!(authors[2].given_name, "Ludwig");
    assert_eq!((authors[2].prefix.as_str(), authors[2].name.as_str()), ("van", "Beethoven"));
    let plain = entry_with("editor", "Jean de la Fontaine and Plato").get_as::<Vec<Person>>("editor").unwrap();
    assert_eq!(plain[0].given_name, "Jean");
    assert_eq!(plain[0].prefix, "de la");
    assert_eq!(plain[0].name, "Fontaine");
    assert_eq!((plain[1].given_name.as_str(), plain[1].name.as_str()), ("", "Plato"));
    let mut written = Entry::new("k", EntryType::Misc);
    written.set_author(plain).unwrap();
    assert_eq!(written.get("author").unwrap().format_verbatim(), "de la Fontaine, Jean and Plato");
    let publishers = entry_with("publisher", "Springer and ACM").get_publisher().unwrap();
    assert_eq!(publishers.len(), 2);
    assert_eq!(publishers[1].format_verbatim(), "ACM");
}

#[test]
fn pages_read_as_ranges() {
    let pages = entry_with("pages", "1049--1080, 12").get_pages().unwrap();
    assert_eq!(pages, vec![1049..1080, 12..12]);
    assert!(entry_with("pages", "a-b").get_pages().is_err());
}

#[test]
fn named_values() {
    assert_eq!(entry_with("editortype", " Compiler ").get_as::<EditorType>("editortype"), Ok(EditorType::Compiler));
    assert_eq!(entry_with("pagination", "Verse").get_pagination(), Ok(Pagination::Verse));
    assert_eq!(entry_with("gender", "pm").get_gender(), Ok(Gender::PluralMale));
    assert!(entry_with("gender", "xx").get_gender().is_err());
    assert_eq!(entry_with("edition", "3").get_edition(), Ok(IntOrChunks::Int(3)));
    assert_eq!(entry_with("edition", "second").get_edition(), Ok(IntOrChunks::Chunks(vec![normal("second")])));
    let mut e = Entry::new("k", EntryType::Misc);
    e.set_gender(Gender::SingularFemale).unwrap();
    assert_eq!(e.get("gender").unwrap(), &[normal("sf")][..]);
    e.set_editor_type_chunks();
}

trait EditorTypeChunks {
    fn set_editor_type_chunks(&mut self);
}

impl EditorTypeChunks for Entry {
    fn set_editor_type_chunks(&mut self) {
        self.set_as("editortype", &EditorType::Organizer).unwrap();
        assert_eq!(self.get("editortype").unwrap(), &[normal("organizer")][..]);
    }
}

#[test]
fn editors_with_roles() {
    let mut e = Entry::new("k", EntryType::Collection);
    e.set("editor", vec![normal("Uhlig, Harald")]);
    e.set("editora", vec![normal("Roe, Richard")]);
    e.set("editoratype", vec![normal("founder")]);
    let eds = e.get_editors().unwrap();
    assert_eq!(eds.len(), 2);
    assert_eq!(eds[0].0[0].name, "Uhlig");
    assert_eq!(eds[0].1, EditorType::Editor);
    assert_eq!(eds[1].1, EditorType::Founder);
    assert!(Entry::new("k", EntryType::Misc).get_editors().is_err());
}

#[test]
fn parents_from_crossref_and_xref() {
    let mut e = Entry::new("k", EntryType::InBook);
    e.set("crossref", vec![normal("book")]);
    e.set("xref", vec![normal("one, two")]);
    assert_eq!(e.get_parents(), vec!["book".to_string(), "one".to_string(), "two".to_string()]);
    assert!(Entry::new("k", EntryType::Misc).get_parents().is_empty());
}

#[test]
fn alias_getters_fall_back() {
    let e = entry_with("archiveprefix", "arXiv");
    assert_eq!(e.get_eprint_type().unwrap().format_verbatim(), "arXiv");
    let f = entry_with("pdf", "paper.pdf");
    assert_eq!(f.get_file(), Ok("paper.pdf".to_string()));
    match Entry::new("k", EntryType::Misc).get_file() {
        Err(RetrievalError::Missing(k)) => assert_eq!(k, "file"),
        other => panic!("unexpected {:?}", other),
    }
}

#[test]
fn editor_types_read_back() {
    for t in [
        EditorType::Editor,
        EditorType::Compiler,
        EditorType::Founder,
        EditorType::Continuator,
        EditorType::Redactor,
        EditorType::Reviser,
        EditorType::Collaborator,
        EditorType::Organizer,
    ] {
        let mut e = Entry::new("k", EntryType::Misc);
        e.set_as("editortype", &t).unwrap();
        assert_eq!(e.get_as::<EditorType>("editortype"), Ok(t));
    }
}

#[test]
fn bibtex_date_fields_read_back_as_the_date() {
    let d = Date { year: 987, month: Some(2), day: Some(28) };
    let mut e = Entry::new("k", EntryType::Article);
    e.set_date(d).unwrap();
    let out = e.as_bibtex_string();
    assert!(out.contains("year = {987},\nmonth = {2},\nday = {28},"));
    e.delete("date");
    assert_eq!(e.get_date(), Ok(d));
    assert_eq!(Date { year: 5, month: None, day: None }.to_fieldset(), vec![("year".to_string(), "5".to_string())]);
}

#[test]
fn three_fields_need_a_year_and_a_month_for_a_day() {
    let y = [normal("2010")];
    let m = [normal("feb")];
    let d = [normal("30")];
    assert_eq!(Date::new_from_three_fields(Some(&y), Some(&m), None), Ok(Date { year: 2010, month: Some(2), day: None }));
    assert_eq!(Date::new_from_three_fields(Some(&y), None, Some(&d)), Err(TypeError));
    assert_eq!(Date::new_from_three_fields(None, Some(&m), None), Err(TypeError));
    assert_eq!(
        Date::new_from_three_fields(Some(&y), Some(&m), Some(&d)),
        Ok(Date { year: 2010, month: Some(2), day: Some(30) })
    );
}

#[test]
fn name_lists_read_back() {
    let persons = vec![
        Person {
            name: "Beethoven".to_string(),
            given_name: "Ludwig".to_string(),
            prefix: "van".to_string(),
            suffix: String::new(),
        },
        Person {
            name: "King".to_string(),
            given_name: "Martin Luther".to_string(),
            prefix: String::new(),
            suffix: "Jr.".to_string(),
        },
        Person { name: "Plato".to_string(), given_name: String::new(), prefix: String::new(), suffix: String::new() },
    ];
    let mut e = Entry::new("k", EntryType::Misc);
    e.set_author(persons.clone()).unwrap();
    assert_eq!(
        e.get("author").unwrap().format_verbatim(),
        "van Beethoven, Ludwig and King, Jr., Martin Luther and Plato"
    );
    let back = e.get_author().unwrap();
    assert_eq!(back.len(), 3);
    for (a, b) in back.iter().zip(persons.iter()) {
        assert_eq!(a.name, b.name);
        assert_eq!(a.given_name, b.given_name);
        assert_eq!(a.prefix, b.prefix);
        assert_eq!(a.suffix, b.suffix);
    }
}

#[test]
fn page_ranges_read_back() {
    let mut e = Entry::new("k", EntryType::Article);
    e.set_pages(vec![3..7, 12..12]).unwrap();
    assert_eq!(e.get("pages").unwrap().format_verbatim(), "3-7, 12");
    assert_eq!(e.get_pages(), Ok(vec![3..7, 12..12]));
}

#[test]
fn publisher_lists_read_back() {
    let names = vec![vec![normal("Springer Verlag")], vec![normal("ACM Press")]];
    let mut e = Entry::new("k", EntryType::Book);
    e.set_publisher(names.clone()).unwrap();
    assert_eq!(e.get("publisher").unwrap().format_verbatim(), "Springer Verlag and ACM Press");
    assert_eq!(e.get_publisher(), Ok(names));
}
