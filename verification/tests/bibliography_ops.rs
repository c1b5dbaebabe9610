use biblatex::{Bibliography, BibliographyError, Chunk, ChunksExt, Entry, EntryType};

fn normal(s: &str) -> Chunk {
    Chunk::Normal(s.to_string())
}

fn entry(key: &str, title: &str) -> Entry {
    let mut e = Entry::new(key, EntryType::Misc);
    e.set("title", vec![normal(title)]);
    e
}

#[test]
fn new_bibliography_is_empty() {
    let b = Bibliography::new();
    assert_eq!(b.len(), 0);
    assert!(b.get("anything").is_none());
    assert_eq!(b.iter().count(), 0);
}

#[test]
fn added_entry_is_found_by_its_key() {
    let mut b = Bibliography::new();
    let e = entry("knuth", "TAOCP");
    assert_eq!(b.add(e.clone()), Ok(()));
    assert_eq!(b.len(), 1);
    assert_eq!(b.get("knuth"), Some(&e));
}

#[test]
fn adding_a_used_key_is_refused_and_changes_nothing() {
    let mut b = Bibliography::new();
    b.add(entry("k", "first")).unwrap();
    assert_eq!(b.add(entry("k", "second")), Err(BibliographyError::KeyAlreadyPresent));
    assert_eq!(b.len(), 1);
    assert_eq!(b.get("k").unwrap().get_title().unwrap().format_verbatim(), "first");
}

#[test]
fn ids_become_aliases() {
    let mut b = Bibliography::new();
    let mut e = entry("main", "T");
    e.set("ids", vec![normal("one, two")]);
    b.add(e).unwrap();
    assert_eq!(b.get("one"), b.get("main"));
    assert_eq!(b.get("two"), b.get("main"));
    assert_eq!(b.len(), 1);
}

#[test]
fn an_id_already_in_use_stops_the_aliases_but_keeps_the_entry() {
    let mut b = Bibliography::new();
    b.add(entry("taken", "A")).unwrap();
    let mut e = entry("fresh", "B");
    e.set("ids", vec![normal("first, taken, last")]);
    assert_eq!(b.add(e), Err(BibliographyError::AliasInUse));
    assert_eq!(b.len(), 2);
    assert_eq!(b.get("first"), b.get("fresh"));
    assert_eq!(b.get("taken").unwrap().cite_key, "taken");
    assert!(b.get("last").is_none());
}

#[test]
fn add_empty_hands_out_the_new_entry() {
    let mut b = Bibliography::new();
    {
        let e = b.add_empty("blank", EntryType::Book).unwrap();
        assert_eq!(e.cite_key, "blank");
        e.set("title", vec![normal("Filled later")]);
    }
    assert_eq!(b.get("blank").unwrap().get_title().unwrap().format_verbatim(), "Filled later");
    assert_eq!(b.get("blank").unwrap().entry_type, EntryType::Book);
    assert!(matches!(b.add_empty("blank", EntryType::Misc), Err(BibliographyError::KeyAlreadyPresent)));
}

#[test]
fn alias_errors() {
    let mut b = Bibliography::new();
    b.add(entry("a", "A")).unwrap();
    b.add(entry("b", "B")).unwrap();
    assert_eq!(b.add_alias("missing", "x"), Err(BibliographyError::ItemNotFound));
    assert_eq!(b.add_alias("a", "b"), Err(BibliographyError::AliasInUse));
    assert_eq!(b.add_alias("a", "x"), Ok(()));
    assert_eq!(b.get("x"), b.get("a"));
    assert_eq!(b.get("b").unwrap().cite_key, "b");
}

#[test]
fn removing_an_entry_removes_all_its_keys() {
    let mut b = Bibliography::new();
    b.add(entry("a", "A")).unwrap();
    b.add(entry("b", "B")).unwrap();
    b.add(entry("c", "C")).unwrap();
    b.add_alias("b", "bee").unwrap();
    b.add_alias("c", "sea").unwrap();
    let removed = b.remove_item("bee").unwrap();
    assert_eq!(removed.cite_key, "b");
    assert_eq!(b.len(), 2);
    assert!(b.get("b").is_none());
    assert!(b.get("bee").is_none());
    assert_eq!(b.get("a").unwrap().cite_key, "a");
    assert_eq!(b.get("c").unwrap().cite_key, "c");
    assert_eq!(b.get("sea").unwrap().cite_key, "c");
    assert_eq!(b.remove_item("b").unwrap_err(), BibliographyError::ItemNotFound);
}

#[test]
fn changes_through_get_mut_are_visible() {
    let mut b = Bibliography::new();
    b.add(entry("a", "Old")).unwrap();
    b.add_alias("a", "alias").unwrap();
    b.get_mut("a").unwrap().set("title", vec![normal("New")]);
    assert_eq!(b.get("alias").unwrap().get_title().unwrap().format_verbatim(), "New");
    assert!(b.get_mut("nothing").is_none());
}

#[test]
fn iteration_follows_insertion_order() {
    let mut b = Bibliography::new();
    for k in ["z", "a", "m"] {
        b.add(entry(k, k)).unwrap();
    }
    let keys: Vec<String> = b.iter().map(|e| e.cite_key.clone()).collect();
    assert_eq!(keys, vec!["z", "a", "m"]);
    let owned: Vec<String> = b.into_iter().map(|e| e.cite_key).collect();
    assert_eq!(owned, vec!["z", "a", "m"]);
}

#[test]
fn bibliography_is_written_as_biblatex() {
    let mut b = Bibliography::new();
    let mut e = Entry::new("k", EntryType::Article);
    e.set("journal", vec![normal("J")]);
    b.add(e).unwrap();
    b.add(Entry::new("empty", EntryType::Online)).unwrap();
    assert_eq!(b.as_biblatex_string(), "@article{k,\njournaltitle = {J},\n}\n@online{empty,\n}\n");
    // The BibTeX name was replaced in the stored entry as well.
    assert!(b.get("k").unwrap().get("journal").is_none());
}

#[test]
fn resolving_leaves_the_bibliography_unchanged() {
    let mut b = Bibliography::new();
    let mut child = Entry::new("child", EntryType::InBook);
    child.set("crossref", vec![normal("parent")]);
    child.set("title", vec![normal("Chapter")]);
    let mut parent = Entry::new("parent", EntryType::Book);
    parent.set("title", vec![normal("Whole Book")]);
    parent.set("publisher", vec![normal("Pub")]);
    b.add(child.clone()).unwrap();
    b.add(parent).unwrap();
    let resolved = b.get_resolved("child").unwrap();
    assert_eq!(resolved.get("booktitle").unwrap().format_verbatim(), "Whole Book");
    assert_eq!(resolved.get("publisher").unwrap().format_verbatim(), "Pub");
    assert_eq!(resolved.get("title").unwrap().format_verbatim(), "Chapter");
    assert!(resolved.get("crossref").is_none());
    assert_eq!(b.get("child"), Some(&child));
}

#[test]
fn clones_are_independent() {
    let mut b = Bibliography::new();
    b.add(entry("a", "A")).unwrap();
    let copy = b.clone();
    b.remove_item("a").unwrap();
    assert_eq!(b.len(), 0);
    assert_eq!(copy.len(), 1);
    assert_eq!(copy.get("a").unwrap().cite_key, "a");
}

#[test]
fn deleting_the_stored_name_removes_a_set_field() {
    let mut e = Entry::new("k", EntryType::Article);
    e.set("Journal", vec![normal("J")]);
    e.set("volume", vec![normal("3")]);
    assert_eq!(e.delete("journal"), Some(vec![normal("J")]));
    assert!(e.get("Journal").is_none());
    assert_eq!(e.get("volume").unwrap().format_verbatim(), "3");
}

#[test]
fn aliases_are_accepted_only_when_distinct_and_unused() {
    let mut b = Bibliography::new();
    let mut twice = entry("a", "A");
    twice.set("ids", vec![normal("x, x")]);
    assert_eq!(b.add(twice), Err(BibliographyError::AliasInUse));
    let mut own = entry("b", "B");
    own.set("ids", vec![normal("b")]);
    assert_eq!(b.add(own), Err(BibliographyError::AliasInUse));
    let mut fresh = entry("c", "C");
    fresh.set("ids", vec![normal("y, z")]);
    assert_eq!(b.add(fresh), Ok(()));
    assert_eq!(b.get("z").unwrap().cite_key, "c");
}

#[test]
fn parents_fill_missing_fields_by_their_rules() {
    let src = "@article{art, title = {Paper}, crossref = {per}} \
               @periodical{per, title = {The Journal}, note = {A note}, addendum = {More}, location = {Paris}} \
               @thesis{th, title = {Thesis}, crossref = {inst}} \
               @misc{inst, institution = {Uni}, address = {Rome}}";
    let mut b = Bibliography::from_str(src, true);
    let art = b.get_resolved("art").unwrap();
    assert_eq!(art.cite_key, "art");
    assert_eq!(art.entry_type, EntryType::Article);
    assert_eq!(art.get("journaltitle").unwrap().format_verbatim(), "The Journal");
    assert_eq!(art.get("title").unwrap().format_verbatim(), "Paper");
    assert!(art.get("note").is_none());
    assert!(art.get("addendum").is_none());
    assert!(art.get("crossref").is_none());
    assert!(art.get("xdata").is_none());
    let th = b.get_resolved("th").unwrap();
    assert_eq!(th.get("school").unwrap().format_verbatim(), "Uni");
    assert!(th.get("institution").is_none());
}

#[test]
fn chains_of_parents_resolve_and_missing_ones_fail() {
    let src = "@book{a, title = {A}, crossref = {b}} @book{b, publisher = {P}, crossref = {c}} \
               @book{c, location = {L}} @book{d, title = {D}, crossref = {e}} \
               @book{e, title = {E}, crossref = {nowhere}}";
    let mut b = Bibliography::from_str(src, true);
    let a = b.get_resolved("a").unwrap();
    assert_eq!(a.get("publisher").unwrap().format_verbatim(), "P");
    assert_eq!(a.get("location").unwrap().format_verbatim(), "L");
    assert!(b.get_resolved("d").is_none());
    assert!(b.get_resolved("e").is_none());
}
