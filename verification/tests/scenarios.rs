use biblatex::{Bibliography, ChunksExt, EntryType};

const CROSS: &str = r#"
This text before the first entry is skipped.

@misc{issue201,
    title = {Issue 201: Crash on empty field},
    author = {Doe, Jane},
    date = {2020-03-14},
    ids = {github, unstable},
}

@misc{cannonfodder,
    title = {Cannon Fodder},
    author = {Roe, Richard},
    date = {2018},
}

@thesis{haug2019,
    author = {Haug, Martin},
    title = {Fundamentals of Layout},
    type = {Master's Thesis},
    school = {Technische Universität Berlin},
    date = {2019-10},
}

@periodical{ill-defined,
    author = {Smith, Anne},
    maintitle = {A Main Title},
    chapter = {3},
}

@xdata{macmillan:name,
    publisher = {Macmillan},
}

@xdata{macmillan:place,
    location = {New York and London},
}

@xdata{macmillan,
    xdata = {macmillan:name, macmillan:place},
}

@book{recursive,
    author = {Doe, John},
    title = {Recursive shennenigans and other important stuff},
    date = {2021},
    xdata = {macmillan},
}

@periodical{polecon,
    title = {Journal of Political Economy},
    editor = {Uhlig, Harald},
    date = {2007},
}

@article{arrgh,
    author = {Leeson, Peter T.},
    title = {An‐arrgh‐chy: The Law and Economics of Pirate Organization},
    crossref = {polecon},
    volume = {115},
    number = {6},
    pages = {1049--1080},
}
"#;

#[test]
fn test_alias() {
    let mut bibliography = Bibliography::from_str(CROSS, true);

    assert_eq!(bibliography.get("issue201"), bibliography.get("github"));
    bibliography.add_alias("issue201", "crap").expect("this must work");
    assert_eq!(bibliography.get("crap"), bibliography.get("unstable"));
    bibliography.remove_item("crap").expect("removal must work");
    let cf = bibliography.get("cannonfodder").unwrap();
    assert_eq!(cf.entry_type, EntryType::Misc);
    assert_eq!(cf.cite_key, "cannonfodder");
}

#[test]
fn test_bibtex_conversion() {
    let mut bibliography = Bibliography::from_str(CROSS, true);

    let biblatex = bibliography.get_mut("haug2019").unwrap().as_biblatex_string();
    assert!(biblatex.contains("institution = {Technische Universität Berlin},"));

    let bibtex = bibliography.get_mut("haug2019").unwrap().as_bibtex_string();
    assert!(bibtex.contains("school = {Technische Universität Berlin},"));
    assert!(bibtex.contains("year = {2019},"));
    assert!(bibtex.contains("month = {10},"));
    assert!(!bibtex.contains("institution"));
    assert!(!bibtex.contains("date"));
}

#[test]
fn test_verify() {
    let mut bibliography = Bibliography::from_str(CROSS, true);

    assert!(bibliography.get_mut("haug2019").unwrap().verify().is_ok());
    assert!(bibliography.get_mut("cannonfodder").unwrap().verify().is_ok());

    let ill = bibliography.get("ill-defined").unwrap();
    if let Err((exp, forb)) = ill.verify() {
        assert!(exp.contains(&"title"));
        assert!(exp.contains(&"year"));
        assert!(exp.contains(&"editor"));
        assert!(forb.contains(&"maintitle"));
        assert!(forb.contains(&"author"));
        assert!(forb.contains(&"chapter"));
        assert_eq!(exp.len(), 3);
        assert_eq!(forb.len(), 3);
    } else {
        panic!("Should not have passed test");
    }
}

#[test]
fn test_crossref() {
    let mut bibliography = Bibliography::from_str(CROSS, true);

    let e = bibliography.get_resolved("macmillan").unwrap();
    assert_eq!(e.get_publisher().unwrap()[0].format_verbatim(), "Macmillan");
    assert_eq!(e.get_location().unwrap().format_verbatim(), "New York and London");

    let book = bibliography.get_resolved("recursive").unwrap();
    assert_eq!(book.get_publisher().unwrap()[0].format_verbatim(), "Macmillan");
    assert_eq!(book.get_location().unwrap().format_verbatim(), "New York and London");
    assert_eq!(
        book.get_title().unwrap().format_verbatim(),
        "Recursive shennenigans and other important stuff"
    );

    assert_eq!(bibliography.get("arrgh").unwrap().get_parents(), vec!["polecon".to_string()]);
    let arrgh = bibliography.get_resolved("arrgh").unwrap();
    assert_eq!(arrgh.entry_type, EntryType::Article);
    assert_eq!(arrgh.get_volume().unwrap(), 115);
    assert_eq!(arrgh.get_editors().unwrap()[0].0[0].name, "Uhlig");
    assert_eq!(arrgh.get_number().unwrap().format_verbatim(), "6");
    assert_eq!(arrgh.get_journal().unwrap().format_verbatim(), "Journal of Political Economy");
    assert_eq!(
        arrgh.get_title().unwrap().format_verbatim(),
        "An‐arrgh‐chy: The Law and Economics of Pirate Organization"
    );
}

#[test]
fn resolved_entry_keeps_its_own_fields_and_drops_references() {
    let mut bibliography = Bibliography::from_str(CROSS, true);
    let arrgh = bibliography.get_resolved("arrgh").unwrap();
    assert_eq!(arrgh.get("crossref"), None);
    assert_eq!(arrgh.get("volume").unwrap().format_verbatim(), "115");
    // The parent's date replaces the missing date of the child.
    assert_eq!(arrgh.get("date").unwrap().format_verbatim(), "2007");
    // Resolving does not change the stored entry.
    assert!(bibliography.get("arrgh").unwrap().get("crossref").is_some());
}

#[test]
fn missing_crossref_target_gives_none() {
    let src = "@article{a, title = {T}, crossref = {nowhere}}";
    let mut bibliography = Bibliography::from_str(src, true);
    assert!(bibliography.get("a").is_some());
    assert!(bibliography.get_resolved("a").is_none());
}

#[test]
fn cyclic_crossref_gives_none() {
    let src = "@book{a, title = {A}, crossref = {b}} @book{b, title = {B}, crossref = {a}}";
    let mut bibliography = Bibliography::from_str(src, true);
    assert!(bibliography.get_resolved("a").is_none());
    assert!(bibliography.get_resolved("missing").is_none());
}
