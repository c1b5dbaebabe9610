use biblatex::{Chunk, ChunksExt, Entry, EntryType};

fn normal(s: &str) -> Chunk {
    Chunk::Normal(s.to_string())
}

#[test]
fn sentence_case_capitalizes_only_the_first_letter() {
    let cs = vec![normal("hello World"), Chunk::Verbatim("NASA".to_string())];
    assert_eq!(cs.format_sentence(), "Hello worldNASA");
    let umlaut = vec![normal("ähnlich")];
    assert_eq!(umlaut.format_sentence(), "Ähnlich");
    let verbatim_first = vec![Chunk::Verbatim("iPhone".to_string()), normal(" sales")];
    assert_eq!(verbatim_first.format_sentence(), "iPhone sales");
    let empty: Vec<Chunk> = vec![];
    assert_eq!(empty.format_sentence(), "");
}

#[test]
fn sentence_case_lowers_the_rest_of_normal_text() {
    let later = vec![Chunk::Verbatim("NASA".to_string()), normal(" Mission TO Mars")];
    assert_eq!(later.format_sentence(), "NASA mission to mars");
    let shouting = vec![normal("ÄHNLICH ÜBER")];
    assert_eq!(shouting.format_sentence(), "Ähnlich über");
    let empty_first = vec![normal(""), normal("Second")];
    assert_eq!(empty_first.format_sentence(), "second");
}

#[test]
fn emptiness_means_no_character_in_any_chunk() {
    // Method syntax would pick the slice's own `is_empty`.
    let none: Vec<Chunk> = vec![];
    assert!(ChunksExt::is_empty(&none[..]));
    assert!(ChunksExt::is_empty(&[normal(""), Chunk::Verbatim(String::new())][..]));
    assert!(!ChunksExt::is_empty(&[normal(""), Chunk::Verbatim("x".to_string())][..]));
}

#[test]
fn entry_types_by_name() {
    assert_eq!(EntryType::robust_from_str("PhDThesis"), EntryType::PhdThesis);
    assert_eq!(EntryType::robust_from_str("set"), EntryType::EntrySet);
    assert_eq!(EntryType::robust_from_str("Mine"), EntryType::Unknown("Mine".to_string()));
    assert_eq!(EntryType::Online.to_bibtex(), EntryType::Misc);
    assert_eq!(EntryType::PhdThesis.to_biblatex(), EntryType::Thesis);
    assert!(EntryType::Collection.is_collection());
    assert!(EntryType::MvBook.is_multi_volume());
    assert_eq!(EntryType::InProceedings.name(), "inproceedings");
}

#[test]
fn bibtex_output_uses_bibtex_names() {
    let mut e = Entry::new("web", EntryType::Online);
    e.set("location", vec![normal("Berlin")]);
    e.set("journaltitle", vec![normal("J")]);
    e.set("date", vec![normal("2020-05-01")]);
    let out = e.as_bibtex_string();
    assert_eq!(
        out,
        "@misc{web,\njournal = {J},\naddress = {Berlin},\nyear = {2020},\nmonth = {5},\nday = {1},\n}"
    );
}

#[test]
fn biblatex_output_writes_verbatim_chunks_in_braces() {
    let mut e = Entry::new("k", EntryType::Book);
    e.set("title", vec![normal("The "), Chunk::Verbatim("TeX".to_string()), normal("book")]);
    e.set("address", vec![normal("Reading")]);
    assert_eq!(e.as_biblatex_string(), "@book{k,\ntitle = {The {TeX}book},\nlocation = {Reading},\n}");
}

#[test]
fn verify_reports_missing_and_forbidden_fields() {
    let mut a = Entry::new("a", EntryType::Article);
    a.set("author", vec![normal("Doe, J.")]);
    a.set("title", vec![normal("T")]);
    a.set("journal", vec![normal("J")]);
    a.set("year", vec![normal("2000")]);
    assert_eq!(a.verify(), Ok(()));
    a.set("booktitle", vec![normal("B")]);
    a.delete("author");
    assert_eq!(a.verify(), Err((vec!["author"], vec!["booktitle"])));
    let empty_title = {
        let mut e = a.clone();
        e.delete("booktitle");
        e.set("author", vec![normal("Doe, J.")]);
        e.set("title", vec![]);
        e
    };
    assert_eq!(empty_title.verify(), Err((vec!["title"], vec![])));
}
