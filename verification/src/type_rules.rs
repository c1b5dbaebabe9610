//! Laws on the rules that tie field names and entry types together: how a
//! type name reads, what a child inherits from a periodical, collection or
//! multi-volume parent, when a thesis has its school, how BibTeX names a
//! thesis institution, and where each editor group takes its role from.
use vstd::prelude::*;

use crate::assoc::keys_of;
use crate::chunk::ChunkView;
use crate::entry::{editor_group, editor_role, editors_of, after_crossref, bibtex_prepared, bibtex_renamed, date_fetch, ev_delete, ev_rename, set_fieldset, Fetch, expected_fields, inheritable_fields, map_get, missing_fields, required_missing, EntryView, FieldMap};
use crate::laws::{law_inherited_field, lemma_set_field_map, names_in_lower_case};
use crate::assoc::lemma_assoc_map_without;
use crate::text::{ascii_lowercase, lower_key};
use crate::types::{date_fieldset, EditorType, Person, PersonView, Type};
use crate::mechanics::{entry_type_name, entry_type_named, spec_is_collection, spec_is_multi_volume, spec_to_bibtex, requirements, EntryType};

verus! {

/// Reading a type name gives the type of that name: whenever a name is
/// recognised, the type found is written under exactly that name.
pub proof fn law_type_named_is_named(n: Seq<char>)
    ensures
        entry_type_named(n) matches Some(t) ==> entry_type_name(t) == n,
{
}

/// Each type that biblatex knows reads back from the name it is written
/// under.
pub proof fn law_type_name_reads_back(t: EntryType)
    requires
        !(t is Unknown),
    ensures
        entry_type_named(entry_type_name(t)) == Some(t),
{
    reveal_strlit("article");
    assert("article"@.len() == 7);
    reveal_strlit("book");
    assert("book"@.len() == 4);
    reveal_strlit("mvbook");
    assert("mvbook"@.len() == 6);
    reveal_strlit("inbook");
    assert("inbook"@.len() == 6);
    reveal_strlit("bookinbook");
    assert("bookinbook"@.len() == 10);
    reveal_strlit("suppbook");
    assert("suppbook"@.len() == 8);
    reveal_strlit("booklet");
    assert("booklet"@.len() == 7);
    reveal_strlit("collection");
    assert("collection"@.len() == 10);
    reveal_strlit("mvcollection");
    assert("mvcollection"@.len() == 12);
    reveal_strlit("incollection");
    assert("incollection"@.len() == 12);
    reveal_strlit("suppcollection");
    assert("suppcollection"@.len() == 14);
    reveal_strlit("dataset");
    assert("dataset"@.len() == 7);
    reveal_strlit("manual");
    assert("manual"@.len() == 6);
    reveal_strlit("misc");
    assert("misc"@.len() == 4);
    reveal_strlit("online");
    assert("online"@.len() == 6);
    reveal_strlit("patent");
    assert("patent"@.len() == 6);
    reveal_strlit("periodical");
    assert("periodical"@.len() == 10);
    reveal_strlit("suppperiodical");
    assert("suppperiodical"@.len() == 14);
    reveal_strlit("proceedings");
    assert("proceedings"@.len() == 11);
    reveal_strlit("mvproceedings");
    assert("mvproceedings"@.len() == 13);
    reveal_strlit("inproceedings");
    assert("inproceedings"@.len() == 13);
    reveal_strlit("reference");
    assert("reference"@.len() == 9);
    reveal_strlit("mvreference");
    assert("mvreference"@.len() == 11);
    reveal_strlit("inreference");
    assert("inreference"@.len() == 11);
    reveal_strlit("report");
    assert("report"@.len() == 6);
    reveal_strlit("set");
    assert("set"@.len() == 3);
    reveal_strlit("software");
    assert("software"@.len() == 8);
    reveal_strlit("thesis");
    assert("thesis"@.len() == 6);
    reveal_strlit("unpublished");
    assert("unpublished"@.len() == 11);
    reveal_strlit("xdata");
    assert("xdata"@.len() == 5);
    reveal_strlit("conference");
    assert("conference"@.len() == 10);
    reveal_strlit("electronic");
    assert("electronic"@.len() == 10);
    reveal_strlit("mastersthesis");
    assert("mastersthesis"@.len() == 13);
    reveal_strlit("phdthesis");
    assert("phdthesis"@.len() == 9);
    reveal_strlit("techreport");
    assert("techreport"@.len() == 10);
    reveal_strlit("www");
    assert("www"@.len() == 3);
    assert("mvbook"@[0] != "inbook"@[0]);
    assert("article"@[0] != "booklet"@[0]);
    assert("bookinbook"@[0] != "collection"@[0]);
    assert("mvcollection"@[0] != "incollection"@[0]);
    assert("article"@[0] != "dataset"@[0]);
    assert("booklet"@[0] != "dataset"@[0]);
    assert("mvbook"@[1] != "manual"@[1]);
    assert("inbook"@[0] != "manual"@[0]);
    assert("book"@[0] != "misc"@[0]);
    assert("mvbook"@[0] != "online"@[0]);
    assert("inbook"@[0] != "online"@[0]);
    assert("manual"@[0] != "online"@[0]);
    assert("mvbook"@[0] != "patent"@[0]);
    assert("inbook"@[0] != "patent"@[0]);
    assert("manual"@[0] != "patent"@[0]);
    assert("online"@[0] != "patent"@[0]);
    assert("bookinbook"@[0] != "periodical"@[0]);
    assert("collection"@[0] != "periodical"@[0]);
    assert("suppcollection"@[4] != "suppperiodical"@[4]);
    assert("mvproceedings"@[0] != "inproceedings"@[0]);
    assert("proceedings"@[0] != "mvreference"@[0]);
    assert("proceedings"@[0] != "inreference"@[0]);
    assert("mvreference"@[0] != "inreference"@[0]);
    assert("mvbook"@[0] != "report"@[0]);
    assert("inbook"@[0] != "report"@[0]);
    assert("manual"@[0] != "report"@[0]);
    assert("online"@[0] != "report"@[0]);
    assert("patent"@[0] != "report"@[0]);
    assert("suppbook"@[1] != "software"@[1]);
    assert("mvbook"@[0] != "thesis"@[0]);
    assert("inbook"@[0] != "thesis"@[0]);
    assert("manual"@[0] != "thesis"@[0]);
    assert("online"@[0] != "thesis"@[0]);
    assert("patent"@[0] != "thesis"@[0]);
    assert("report"@[0] != "thesis"@[0]);
    assert("proceedings"@[0] != "unpublished"@[0]);
    assert("mvreference"@[0] != "unpublished"@[0]);
    assert("inreference"@[0] != "unpublished"@[0]);
    assert("bookinbook"@[0] != "conference"@[0]);
    assert("collection"@[2] != "conference"@[2]);
    assert("periodical"@[0] != "conference"@[0]);
    assert("bookinbook"@[0] != "electronic"@[0]);
    assert("collection"@[0] != "electronic"@[0]);
    assert("periodical"@[0] != "electronic"@[0]);
    assert("conference"@[0] != "electronic"@[0]);
    assert("mvproceedings"@[1] != "mastersthesis"@[1]);
    assert("inproceedings"@[0] != "mastersthesis"@[0]);
    assert("reference"@[0] != "phdthesis"@[0]);
    assert("bookinbook"@[0] != "techreport"@[0]);
    assert("collection"@[0] != "techreport"@[0]);
    assert("periodical"@[0] != "techreport"@[0]);
    assert("conference"@[0] != "techreport"@[0]);
    assert("electronic"@[0] != "techreport"@[0]);
    assert("set"@[0] != "www"@[0]);
    match t {
        EntryType::Article => {},
        EntryType::Book => {},
        EntryType::MvBook => {},
        EntryType::InBook => {},
        EntryType::BookInBook => {},
        EntryType::SuppBook => {},
        EntryType::Booklet => {},
        EntryType::Collection => {},
        EntryType::MvCollection => {},
        EntryType::InCollection => {},
        EntryType::SuppCollection => {},
        EntryType::Dataset => {},
        EntryType::Manual => {},
        EntryType::Misc => {},
        EntryType::Online => {},
        EntryType::Patent => {},
        EntryType::Periodical => {},
        EntryType::SuppPeriodical => {},
        EntryType::Proceedings => {},
        EntryType::MvProceedings => {},
        EntryType::InProceedings => {},
        EntryType::Reference => {},
        EntryType::MvReference => {},
        EntryType::InReference => {},
        EntryType::Report => {},
        EntryType::EntrySet => {},
        EntryType::Software => {},
        EntryType::Thesis => {},
        EntryType::Unpublished => {},
        EntryType::XData => {},
        EntryType::Conference => {},
        EntryType::Electronic => {},
        EntryType::MastersThesis => {},
        EntryType::PhdThesis => {},
        EntryType::TechReport => {},
        EntryType::Www => {},
        EntryType::Unknown(_) => {},
    }
}

/// A child that lacks `journaltitle` or `journalsubtitle` and whose type
/// lets it inherit that field takes, from a periodical parent, the
/// parent's `title` for `journaltitle` and the parent's `subtitle` for
/// `journalsubtitle`.
pub proof fn law_periodical_parent_titles(ev: EntryView, cr: EntryView, f: Seq<char>)
    requires
        names_in_lower_case(cr),
        cr.entry_type is Periodical,
        f == "journaltitle"@ || f == "journalsubtitle"@,
        inheritable_fields(ev.entry_type, keys_of(cr.fields)).contains(f),
        ev.get(f) is None,
    ensures
        f == "journaltitle"@ ==> after_crossref(ev, cr).get(f) == cr.get("title"@),
        f == "journalsubtitle"@ ==> after_crossref(ev, cr).get(f) == cr.get("subtitle"@),
{
    lemma_title_names();
    law_inherited_field(ev, cr, f);
}

/// A child that lacks `booktitle`, `booksubtitle` or `booktitleaddon` and
/// whose type lets it inherit that field takes it from a collection parent's
/// `title`, `subtitle` and `titleaddon` in turn.
pub proof fn law_collection_parent_titles(ev: EntryView, cr: EntryView, f: Seq<char>)
    requires
        names_in_lower_case(cr),
        spec_is_collection(cr.entry_type),
        f == "booktitle"@ || f == "booksubtitle"@ || f == "booktitleaddon"@,
        inheritable_fields(ev.entry_type, keys_of(cr.fields)).contains(f),
        ev.get(f) is None,
    ensures
        f == "booktitle"@ ==> after_crossref(ev, cr).get(f) == cr.get("title"@),
        f == "booksubtitle"@ ==> after_crossref(ev, cr).get(f) == cr.get("subtitle"@),
        f == "booktitleaddon"@ ==> after_crossref(ev, cr).get(f) == cr.get("titleaddon"@),
{
    lemma_title_names();
    law_inherited_field(ev, cr, f);
}

/// A child that lacks `mainsubtitle` or `maintitleaddon` and whose type
/// lets it inherit that field takes it from a multi-volume parent's
/// `subtitle` and `titleaddon` in turn.
pub proof fn law_multi_volume_parent_titles(ev: EntryView, cr: EntryView, f: Seq<char>)
    requires
        names_in_lower_case(cr),
        spec_is_multi_volume(cr.entry_type),
        f == "mainsubtitle"@ || f == "maintitleaddon"@,
        inheritable_fields(ev.entry_type, keys_of(cr.fields)).contains(f),
        ev.get(f) is None,
    ensures
        f == "mainsubtitle"@ ==> after_crossref(ev, cr).get(f) == cr.get("subtitle"@),
        f == "maintitleaddon"@ ==> after_crossref(ev, cr).get(f) == cr.get("titleaddon"@),
{
    lemma_title_names();
    law_inherited_field(ev, cr, f);
}

/// A child that lacks `address`, `institution` or `school` and whose type
/// lets it inherit that field takes the parent's field of the same name,
/// or else the parent's `location`, `school` or `institution` in turn; a
/// child that lacks `journaltitle` takes, from a parent that is not a
/// periodical, the parent's `journaltitle`, or else its `journal`.
pub proof fn law_inherited_aliases(ev: EntryView, cr: EntryView, f: Seq<char>)
    requires
        names_in_lower_case(cr),
        inheritable_fields(ev.entry_type, keys_of(cr.fields)).contains(f),
        ev.get(f) is None,
        f == "address"@ || f == "institution"@ || f == "school"@ || (f == "journaltitle"@ && !(
        cr.entry_type is Periodical)),
    ensures
        f == "address"@ ==> after_crossref(ev, cr).get(f) == if cr.get("address"@) is Some {
            cr.get("address"@)
        } else {
            cr.get("location"@)
        },
        f == "institution"@ ==> after_crossref(ev, cr).get(f) == if cr.get("institution"@) is Some {
            cr.get("institution"@)
        } else {
            cr.get("school"@)
        },
        f == "school"@ ==> after_crossref(ev, cr).get(f) == if cr.get("school"@) is Some {
            cr.get("school"@)
        } else {
            cr.get("institution"@)
        },
        f == "journaltitle"@ ==> after_crossref(ev, cr).get(f) == if cr.get("journaltitle"@) is Some {
            cr.get("journaltitle"@)
        } else {
            cr.get("journal"@)
        },
{
    lemma_title_names();
    law_inherited_field(ev, cr, f);
}

/// A child that lacks a field its type lets it inherit, other than the
/// title, date and alias fields that the rules treat apart, takes the
/// parent's field of the same name.
pub proof fn law_inherited_same_name(ev: EntryView, cr: EntryView, f: Seq<char>)
    requires
        names_in_lower_case(cr),
        inheritable_fields(ev.entry_type, keys_of(cr.fields)).contains(f),
        ev.get(f) is None,
        f != "journaltitle"@,
        f != "journalsubtitle"@,
        f != "booktitle"@,
        f != "booksubtitle"@,
        f != "booktitleaddon"@,
        f != "maintitle"@,
        f != "mainsubtitle"@,
        f != "maintitleaddon"@,
        f != "address"@,
        f != "institution"@,
        f != "school"@,
        f != "title"@,
        f != "addendum"@,
        f != "note"@,
        f != "date"@,
        f != "year"@,
        f != "month"@,
        f != "day"@,
    ensures
        after_crossref(ev, cr).get(f) == cr.get(f),
{
    law_inherited_field(ev, cr, f);
}

/// What the container title names hold, letter by letter, as far as the
/// inheritance rules look at them.
proof fn lemma_title_names()
    ensures
        !"journaltitle"@.contains('s'),
        "journalsubtitle"@.contains('s'),
        "booksubtitle"@.contains('s'),
        !"booktitle"@.contains('s'),
        !"booktitle"@.contains('a'),
        !"booktitleaddon"@.contains('s'),
        "booktitleaddon"@.contains('a'),
        "mainsubtitle"@.contains('s'),
        !"maintitleaddon"@.contains('s'),
        "maintitleaddon"@.contains('a'),
        "address"@.len() == 7,
        "institution"@.len() == 11,
        "school"@.len() == 6,
        "journal"@.len() == 7,
        "location"@.len() == 8,
        "addendum"@.len() == 8,
        "note"@.len() == 4,
        "journaltitle"@.len() == 12,
        "journalsubtitle"@.len() == 15,
        "booktitle"@.len() == 9,
        "booksubtitle"@.len() == 12,
        "booktitleaddon"@.len() == 14,
        "mainsubtitle"@.len() == 12,
        "maintitleaddon"@.len() == 14,
        "maintitle"@.len() == 9,
        "date"@.len() == 4,
        "year"@.len() == 4,
        "month"@.len() == 5,
        "day"@.len() == 3,
        "title"@.len() == 5,
        "subtitle"@.len() == 8,
        "titleaddon"@.len() == 10,
{
    reveal_strlit("journaltitle");
    assert("journaltitle"@.len() == 12);
    reveal_strlit("journalsubtitle");
    assert("journalsubtitle"@.len() == 15);
    reveal_strlit("booktitle");
    assert("booktitle"@.len() == 9);
    reveal_strlit("booksubtitle");
    assert("booksubtitle"@.len() == 12);
    reveal_strlit("booktitleaddon");
    assert("booktitleaddon"@.len() == 14);
    reveal_strlit("mainsubtitle");
    assert("mainsubtitle"@.len() == 12);
    reveal_strlit("maintitleaddon");
    assert("maintitleaddon"@.len() == 14);
    reveal_strlit("maintitle");
    assert("maintitle"@.len() == 9);
    reveal_strlit("date");
    assert("date"@.len() == 4);
    reveal_strlit("year");
    assert("year"@.len() == 4);
    reveal_strlit("month");
    assert("month"@.len() == 5);
    reveal_strlit("day");
    assert("day"@.len() == 3);
    reveal_strlit("title");
    assert("title"@.len() == 5);
    reveal_strlit("subtitle");
    assert("subtitle"@.len() == 8);
    reveal_strlit("titleaddon");
    assert("titleaddon"@.len() == 10);
    reveal_strlit("address");
    assert("address"@.len() == 7);
    reveal_strlit("institution");
    assert("institution"@.len() == 11);
    reveal_strlit("school");
    assert("school"@.len() == 6);
    reveal_strlit("journal");
    assert("journal"@.len() == 7);
    reveal_strlit("location");
    assert("location"@.len() == 8);
    reveal_strlit("addendum");
    assert("addendum"@.len() == 8);
    reveal_strlit("note");
    assert("note"@.len() == 4);
    assert("journalsubtitle"@[7] == 's');
    assert("booksubtitle"@[4] == 's');
    assert("booktitleaddon"@[9] == 'a');
    assert("mainsubtitle"@[4] == 's');
    assert("maintitleaddon"@[1] == 'a');
}

/// Every field that `missing_fields` lists counts as missing.
proof fn lemma_missing_fields_are_missing(m: FieldMap, t: EntryType, fs: Seq<&'static str>)
    ensures
        forall|i: int|
            0 <= i < missing_fields(m, t, fs).len() ==> required_missing(
                m,
                t,
                (#[trigger] missing_fields(m, t, fs)[i])@,
            ),
    decreases fs.len(),
{
    if fs.len() > 0 {
        lemma_missing_fields_are_missing(m, t, fs.drop_last());
        let d = missing_fields(m, t, fs.drop_last());
        assert forall|i: int| 0 <= i < missing_fields(m, t, fs).len() implies required_missing(
            m,
            t,
            (#[trigger] missing_fields(m, t, fs)[i])@,
        ) by {
            if i < d.len() {
                assert(missing_fields(m, t, fs)[i] == d[i]);
            }
        }
    }
}

/// A thesis whose `institution` field holds a value has its school:
/// `verify` never reports `school` among the fields it expects.
pub proof fn law_thesis_institution_is_school(m: FieldMap, t: EntryType)
    requires
        t is Thesis || t is MastersThesis || t is PhdThesis,
        map_get(m, "institution"@) matches Some(c) && c.len() > 0,
    ensures
        forall|i: int| 0 <= i < expected_fields(m, t).len() ==> (#[trigger] expected_fields(m, t)[i])@ != "school"@,
{
    reveal_strlit("school");
    reveal_strlit("journaltitle");
    reveal_strlit("location");
    reveal_strlit("year");
    reveal_strlit("pages");
    reveal_strlit("author");
    reveal_strlit("editor");
    assert("school"@.len() == 6);
    assert("journaltitle"@.len() == 12);
    assert("location"@.len() == 8);
    assert("year"@.len() == 4);
    assert("pages"@.len() == 5);
    assert("author"@[0] != "school"@[0]);
    assert("editor"@[0] != "school"@[0]);
    lemma_missing_fields_are_missing(m, t, requirements(t).required);
    let mf = missing_fields(m, t, requirements(t).required);
    let e = expected_fields(m, t);
    assert forall|i: int| 0 <= i < e.len() implies (#[trigger] e[i])@ != "school"@ by {
        if i < mf.len() {
            assert(e[i] == mf[i]);
            assert(required_missing(m, t, mf[i]@));
        }
    }
}

/// Every required field that counts as missing is listed by `missing_fields`.
proof fn lemma_missing_fields_complete(m: FieldMap, t: EntryType, fs: Seq<&'static str>, j: int)
    requires
        0 <= j < fs.len(),
        required_missing(m, t, fs[j]@),
    ensures
        exists|i: int| 0 <= i < missing_fields(m, t, fs).len() && (#[trigger] missing_fields(m, t, fs)[i])@ == fs[j]@,
    decreases fs.len(),
{
    let d = fs.drop_last();
    let mf = missing_fields(m, t, fs);
    if j == fs.len() - 1 {
        assert(mf[mf.len() - 1] == fs[j]);
    } else {
        assert(d[j] == fs[j]);
        lemma_missing_fields_complete(m, t, d, j);
        let i = choose|i: int| 0 <= i < missing_fields(m, t, d).len() && (#[trigger] missing_fields(m, t, d)[i])@ == d[j]@;
        assert(mf[i] == missing_fields(m, t, d)[i]);
    }
}

/// A field that holds a value is never expected by `verify`, apart from
/// `year`, `pages`, `author` and `editor`, whose values must also read as
/// a date, page ranges or names; and `journal` stands in for
/// `journaltitle`, `address` for `location`.
pub proof fn law_filled_fields_not_expected(m: FieldMap, t: EntryType, f: Seq<char>)
    requires
        f != "year"@ && f != "pages"@ && f != "author"@ && f != "editor"@,
    ensures
        (map_get(m, f) matches Some(c) && c.len() > 0) ==> forall|i: int|
            0 <= i < expected_fields(m, t).len() ==> (#[trigger] expected_fields(m, t)[i])@ != f,
        (f == "journaltitle"@ && (map_get(m, "journal"@) matches Some(c) && c.len() > 0)) ==> forall|i: int|
            0 <= i < expected_fields(m, t).len() ==> (#[trigger] expected_fields(m, t)[i])@ != f,
        (f == "location"@ && (map_get(m, "address"@) matches Some(c) && c.len() > 0)) ==> forall|i: int|
            0 <= i < expected_fields(m, t).len() ==> (#[trigger] expected_fields(m, t)[i])@ != f,
{
    reveal_strlit("location");
    reveal_strlit("journaltitle");
    reveal_strlit("school");
    assert("location"@.len() == 8 && "journaltitle"@.len() == 12 && "school"@.len() == 6);
    lemma_missing_fields_are_missing(m, t, requirements(t).required);
    let mf = missing_fields(m, t, requirements(t).required);
    let e = expected_fields(m, t);
    assert forall|i: int| 0 <= i < e.len() && i >= mf.len() implies (#[trigger] e[i])@ == "year"@ || e[i]@
        == "pages"@ || e[i]@ == "author"@ || e[i]@ == "editor"@ by {
    }
    assert forall|i: int| 0 <= i < e.len() && i < mf.len() implies #[trigger] e[i] == mf[i] by {}
}

/// A required field of the entry's type that is empty or absent, and
/// whose stand-in (`journal` for `journaltitle`, `address` for `location`,
/// `institution` for the `school` of a thesis) is empty or absent too, is
/// expected by `verify`.
pub proof fn law_missing_required_expected(m: FieldMap, t: EntryType, j: int)
    requires
        0 <= j < requirements(t).required.len(),
        !(map_get(m, requirements(t).required[j]@) matches Some(c) && c.len() > 0),
        requirements(t).required[j]@ == "journaltitle"@ ==> !(map_get(m, "journal"@) matches Some(c) && c.len() > 0),
        requirements(t).required[j]@ == "location"@ ==> !(map_get(m, "address"@) matches Some(c) && c.len() > 0),
        requirements(t).required[j]@ == "school"@ && (t is Thesis || t is MastersThesis || t is PhdThesis)
            ==> !(map_get(m, "institution"@) matches Some(c) && c.len() > 0),
    ensures
        exists|i: int|
            0 <= i < expected_fields(m, t).len() && (#[trigger] expected_fields(m, t)[i])@
                == requirements(t).required[j]@,
{
    let fs = requirements(t).required;
    lemma_missing_fields_complete(m, t, fs, j);
    let mf = missing_fields(m, t, fs);
    let i = choose|i: int| 0 <= i < mf.len() && (#[trigger] mf[i])@ == fs[j]@;
    assert(expected_fields(m, t)[i] == mf[i]);
}

/// What renaming a field does to the fields: the old name is gone, and
/// its value, if it had one, is stored under the lower-case new name.
proof fn lemma_rename_field_map(ev: EntryView, old: Seq<char>, new: Seq<char>)
    ensures
        ev_rename(ev, old, new).field_map() == match ev.field(old) {
            Some(c) => ev.field_map().remove(old).insert(lower_key(new), c),
            None => ev.field_map().remove(old),
        },
{
    lemma_assoc_map_without(ev.fields, old);
    if let Some(c) = ev.field(old) {
        lemma_set_field_map(ev_delete(ev, old), new, c);
    }
}

/// Setting fields under names other than `k` leaves the field `k` alone.
proof fn lemma_set_fieldset_keeps(e: EntryView, fs: Seq<(Seq<char>, Seq<char>)>, k: Seq<char>)
    requires
        forall|i: int| 0 <= i < fs.len() ==> lower_key(#[trigger] fs[i].0) != k,
    ensures
        set_fieldset(e, fs).field(k) == e.field(k),
    decreases fs.len(),
{
    if fs.len() > 0 {
        let d = fs.drop_last();
        assert forall|i: int| 0 <= i < d.len() implies lower_key(#[trigger] d[i].0) != k by {
            assert(d[i] == fs[i]);
        }
        lemma_set_fieldset_keeps(e, d, k);
        assert(lower_key(fs[fs.len() - 1].0) != k);
        lemma_set_field_map(set_fieldset(e, d), fs.last().0, seq![ChunkView::Normal(fs.last().1)]);
    }
}

/// In the BibTeX form of any entry, `journaltitle` is written as `journal`
/// and `location` as `address`; an institution stays where it is unless
/// the BibTeX type is a master's or PhD thesis.
pub proof fn law_bibtex_field_names(ev: EntryView)
    ensures
        bibtex_prepared(ev).field("journaltitle"@) is None,
        bibtex_prepared(ev).field("location"@) is None,
        ev.field("journaltitle"@) matches Some(c) ==> bibtex_prepared(ev).field("journal"@) == Some(c),
        ev.field("location"@) matches Some(c) ==> bibtex_prepared(ev).field("address"@) == Some(c),
        !(spec_to_bibtex(ev.entry_type) is PhdThesis || spec_to_bibtex(ev.entry_type) is MastersThesis)
            ==> bibtex_prepared(ev).field("institution"@) == ev.field("institution"@),
{
    reveal_strlit("journaltitle");
    assert("journaltitle"@.len() == 12);
    reveal_strlit("journal");
    assert("journal"@.len() == 7);
    reveal_strlit("location");
    assert("location"@.len() == 8);
    reveal_strlit("address");
    assert("address"@.len() == 7);
    reveal_strlit("institution");
    assert("institution"@.len() == 11);
    reveal_strlit("school");
    assert("school"@.len() == 6);
    reveal_strlit("year");
    assert("year"@.len() == 4);
    reveal_strlit("month");
    assert("month"@.len() == 5);
    reveal_strlit("day");
    assert("day"@.len() == 3);
    assert(ascii_lowercase("journal"@) =~= "journal"@);
    assert(ascii_lowercase("address"@) =~= "address"@);
    assert(ascii_lowercase("school"@) =~= "school"@);
    assert(ascii_lowercase("year"@) =~= "year"@);
    assert(ascii_lowercase("month"@) =~= "month"@);
    assert(ascii_lowercase("day"@) =~= "day"@);
    assert("journal"@[0] != "address"@[0]);
    let e1 = ev_rename(ev, "journaltitle"@, "journal"@);
    let e2 = ev_rename(e1, "location"@, "address"@);
    let e3 = ev_rename(e2, "institution"@, "school"@);
    lemma_rename_field_map(ev, "journaltitle"@, "journal"@);
    lemma_rename_field_map(e1, "location"@, "address"@);
    lemma_rename_field_map(e2, "institution"@, "school"@);
    let e = bibtex_renamed(ev);
    assert(e == e3 || e == e2);
    if let Fetch::Found(d) = date_fetch(e.field_map()) {
        let fs = date_fieldset(d);
        assert forall|i: int| 0 <= i < fs.len() implies lower_key(#[trigger] fs[i].0) != "institution"@
            && lower_key(fs[i].0) != "journaltitle"@ && lower_key(fs[i].0) != "location"@ && lower_key(fs[i].0)
            != "journal"@ && lower_key(fs[i].0) != "address"@ by {
            assert(fs[i].0 == "year"@ || fs[i].0 == "month"@ || fs[i].0 == "day"@);
        }
        lemma_set_fieldset_keeps(e, fs, "institution"@);
        lemma_set_fieldset_keeps(e, fs, "journaltitle"@);
        lemma_set_fieldset_keeps(e, fs, "location"@);
        lemma_set_fieldset_keeps(e, fs, "journal"@);
        lemma_set_fieldset_keeps(e, fs, "address"@);
    }
}

/// In the BibTeX form of an entry whose BibTeX type is a master's or a PhD
/// thesis there is no `institution` field: the entry's institution is
/// written as its `school`.
pub proof fn law_bibtex_thesis_school(ev: EntryView)
    requires
        spec_to_bibtex(ev.entry_type) is PhdThesis || spec_to_bibtex(ev.entry_type) is MastersThesis,
    ensures
        bibtex_prepared(ev).field("institution"@) is None,
        ev.field("institution"@) matches Some(c) ==> bibtex_prepared(ev).field("school"@) == Some(c),
{
    reveal_strlit("journaltitle");
    assert("journaltitle"@.len() == 12);
    reveal_strlit("journal");
    assert("journal"@.len() == 7);
    reveal_strlit("location");
    assert("location"@.len() == 8);
    reveal_strlit("address");
    assert("address"@.len() == 7);
    reveal_strlit("institution");
    assert("institution"@.len() == 11);
    reveal_strlit("school");
    assert("school"@.len() == 6);
    reveal_strlit("year");
    assert("year"@.len() == 4);
    reveal_strlit("month");
    assert("month"@.len() == 5);
    reveal_strlit("day");
    assert("day"@.len() == 3);
    assert(ascii_lowercase("journal"@) =~= "journal"@);
    assert(ascii_lowercase("address"@) =~= "address"@);
    assert(ascii_lowercase("school"@) =~= "school"@);
    assert(ascii_lowercase("year"@) =~= "year"@);
    assert(ascii_lowercase("month"@) =~= "month"@);
    assert(ascii_lowercase("day"@) =~= "day"@);
    let e1 = ev_rename(ev, "journaltitle"@, "journal"@);
    let e2 = ev_rename(e1, "location"@, "address"@);
    let e3 = ev_rename(e2, "institution"@, "school"@);
    lemma_rename_field_map(ev, "journaltitle"@, "journal"@);
    lemma_rename_field_map(e1, "location"@, "address"@);
    lemma_rename_field_map(e2, "institution"@, "school"@);
    assert(bibtex_renamed(ev) == e3);
    assert(e2.field("institution"@) == ev.field("institution"@));
    if let Fetch::Found(d) = date_fetch(e3.field_map()) {
        let fs = date_fieldset(d);
        assert forall|i: int| 0 <= i < fs.len() implies lower_key(#[trigger] fs[i].0) != "institution"@
            && lower_key(fs[i].0) != "school"@ by {
            assert(fs[i].0 == "year"@ || fs[i].0 == "month"@ || fs[i].0 == "day"@);
        }
        lemma_set_fieldset_keeps(e3, fs, "institution"@);
        lemma_set_fieldset_keeps(e3, fs, "school"@);
    }
}

/// The fields that name editors, in the order their groups are listed.
pub open spec fn editor_name_fields() -> Seq<Seq<char>> {
    seq!["editor"@, "editora"@, "editorb"@, "editorc"@]
}

/// The field that holds the role of the editors named in each field of
/// [`editor_name_fields`].
pub open spec fn editor_type_fields() -> Seq<Seq<char>> {
    seq!["editortype"@, "editoratype"@, "editorbtype"@, "editorctype"@]
}

/// The editor fields are their own lower-case forms and differ from each
/// other.
proof fn lemma_editor_field_names()
    ensures
        forall|j: int| 0 <= j < 4 ==> lower_key(#[trigger] editor_name_fields()[j]) == editor_name_fields()[j],
        forall|j: int| 0 <= j < 4 ==> lower_key(#[trigger] editor_type_fields()[j]) == editor_type_fields()[j],
        forall|i: int, j: int|
            0 <= i < 4 && 0 <= j < 4 && i != j ==> #[trigger] editor_type_fields()[i] != #[trigger] editor_type_fields()[j],
        forall|i: int, j: int|
            0 <= i < 4 && 0 <= j < 4 ==> #[trigger] editor_type_fields()[i] != #[trigger] editor_name_fields()[j],
{
    reveal_strlit("editor");
    assert("editor"@.len() == 6);
    assert(ascii_lowercase("editor"@) =~= "editor"@);
    reveal_strlit("editora");
    assert("editora"@.len() == 7);
    assert(ascii_lowercase("editora"@) =~= "editora"@);
    reveal_strlit("editorb");
    assert("editorb"@.len() == 7);
    assert(ascii_lowercase("editorb"@) =~= "editorb"@);
    reveal_strlit("editorc");
    assert("editorc"@.len() == 7);
    assert(ascii_lowercase("editorc"@) =~= "editorc"@);
    reveal_strlit("editortype");
    assert("editortype"@.len() == 10);
    assert(ascii_lowercase("editortype"@) =~= "editortype"@);
    reveal_strlit("editoratype");
    assert("editoratype"@.len() == 11);
    assert(ascii_lowercase("editoratype"@) =~= "editoratype"@);
    reveal_strlit("editorbtype");
    assert("editorbtype"@.len() == 11);
    assert(ascii_lowercase("editorbtype"@) =~= "editorbtype"@);
    reveal_strlit("editorctype");
    assert("editorctype"@.len() == 11);
    assert(ascii_lowercase("editorctype"@) =~= "editorctype"@);
    assert("editora"@[6] != "editorb"@[6]);
    assert("editora"@[6] != "editorc"@[6]);
    assert("editorb"@[6] != "editorc"@[6]);
    assert("editoratype"@[6] != "editorbtype"@[6]);
    assert("editoratype"@[6] != "editorctype"@[6]);
    assert("editorbtype"@[6] != "editorctype"@[6]);
    assert forall|i: int, j: int| 0 <= i < 4 && 0 <= j < 4 && i != j implies #[trigger] editor_type_fields()[i]
        != #[trigger] editor_type_fields()[j] by {
        assert(editor_type_fields()[i][6] != editor_type_fields()[j][6] || editor_type_fields()[i].len()
            != editor_type_fields()[j].len());
    }
}

/// When the only editor field present is the `k`-th one and it reads as the
/// persons `ps`, the editors are that one group, with the role that its own
/// type field reads as, or `editor` when that field is absent or unreadable.
pub proof fn law_editor_group_role(m: FieldMap, k: int, ps: Seq<PersonView>)
    requires
        0 <= k < 4,
        forall|j: int| 0 <= j < 4 && j != k ==> map_get(m, #[trigger] editor_name_fields()[j]) is None,
        map_get(m, editor_name_fields()[k]) matches Some(c) && <Vec<Person> as Type>::spec_from_chunks(c) == Some(ps),
    ensures
        (map_get(m, editor_type_fields()[k]) matches Some(tc) && <EditorType as Type>::spec_from_chunks(tc) is Some)
            ==> editors_of(m) == seq![
            (ps, <EditorType as Type>::spec_from_chunks(map_get(m, editor_type_fields()[k])->Some_0)->Some_0),
        ],
        !(map_get(m, editor_type_fields()[k]) matches Some(tc) && <EditorType as Type>::spec_from_chunks(tc) is Some)
            ==> editors_of(m) == seq![(ps, EditorType::Editor)],
{
    let n = editor_name_fields();
    let t = editor_type_fields();
    let role = editor_role(m, t[k]);
    let one = seq![(ps, role)];
    let none = Seq::<(Seq<PersonView>, EditorType)>::empty();
    assert(n[0] == "editor"@ && n[1] == "editora"@ && n[2] == "editorb"@ && n[3] == "editorc"@);
    assert(t[0] == "editortype"@ && t[1] == "editoratype"@ && t[2] == "editorbtype"@ && t[3] == "editorctype"@);
    assert(editor_group(m, n[k], t[k]) == one);
    assert(editors_of(m) == one) by {
        if k == 0 {
            assert(map_get(m, n[1]) is None && map_get(m, n[2]) is None && map_get(m, n[3]) is None);
            assert(one + none + none + none =~= one);
        } else if k == 1 {
            assert(map_get(m, n[0]) is None && map_get(m, n[2]) is None && map_get(m, n[3]) is None);
            assert(none + one + none + none =~= one);
        } else if k == 2 {
            assert(map_get(m, n[0]) is None && map_get(m, n[1]) is None && map_get(m, n[3]) is None);
            assert(none + none + one + none =~= one);
        } else {
            assert(map_get(m, n[0]) is None && map_get(m, n[1]) is None && map_get(m, n[2]) is None);
            assert(none + none + none + one =~= one);
        }
    }
}

/// The editor groups come in the order of their fields: when exactly the
/// `k1`-th and the `k2`-th editor fields are present and read as names,
/// with `k1` before `k2`, the first group holds the names of the `k1`-th
/// field and the second those of the `k2`-th.
pub proof fn law_editor_groups_in_order(m: FieldMap, k1: int, k2: int, ps1: Seq<PersonView>, ps2: Seq<PersonView>)
    requires
        0 <= k1 < k2 < 4,
        forall|j: int| 0 <= j < 4 && j != k1 && j != k2 ==> map_get(m, #[trigger] editor_name_fields()[j]) is None,
        map_get(m, editor_name_fields()[k1]) matches Some(c) && <Vec<Person> as Type>::spec_from_chunks(c) == Some(ps1),
        map_get(m, editor_name_fields()[k2]) matches Some(c) && <Vec<Person> as Type>::spec_from_chunks(c) == Some(ps2),
    ensures
        editors_of(m).len() == 2,
        editors_of(m)[0].0 == ps1,
        editors_of(m)[1].0 == ps2,
{
    let n = editor_name_fields();
    let t = editor_type_fields();
    assert(n[0] == "editor"@ && n[1] == "editora"@ && n[2] == "editorb"@ && n[3] == "editorc"@);
    assert(t[0] == "editortype"@ && t[1] == "editoratype"@ && t[2] == "editorbtype"@ && t[3] == "editorctype"@);
    let g1 = seq![(ps1, editor_role(m, t[k1]))];
    let g2 = seq![(ps2, editor_role(m, t[k2]))];
    let none = Seq::<(Seq<PersonView>, EditorType)>::empty();
    assert(editor_group(m, n[k1], t[k1]) == g1);
    assert(editor_group(m, n[k2], t[k2]) == g2);
    assert(forall|j: int| 0 <= j < 4 && j != k1 && j != k2 ==> map_get(m, #[trigger] n[j]) is None);
    assert(editors_of(m) == g1 + g2) by {
        assert(k1 == 0 || map_get(m, n[0]) is None || k2 == 0);
        assert(k1 == 1 || map_get(m, n[1]) is None || k2 == 1);
        assert(k1 == 2 || map_get(m, n[2]) is None || k2 == 2);
        assert(k1 == 3 || map_get(m, n[3]) is None || k2 == 3);
        if k1 == 0 && k2 == 1 {
            assert(g1 + g2 + none + none =~= g1 + g2);
        } else if k1 == 0 && k2 == 2 {
            assert(g1 + none + g2 + none =~= g1 + g2);
        } else if k1 == 0 && k2 == 3 {
            assert(g1 + none + none + g2 =~= g1 + g2);
        } else if k1 == 1 && k2 == 2 {
            assert(none + g1 + g2 + none =~= g1 + g2);
        } else if k1 == 1 && k2 == 3 {
            assert(none + g1 + none + g2 =~= g1 + g2);
        } else if k1 == 2 && k2 == 3 {
            assert(none + none + g1 + g2 =~= g1 + g2);
        }
    }
}

/// A type field matters only to the group of its own name field: while the
/// `k`-th editor field is absent, giving its type field any value leaves
/// the editors as they were.
pub proof fn law_editor_type_field_is_own(m: FieldMap, k: int, c: Seq<ChunkView>)
    requires
        0 <= k < 4,
        map_get(m, editor_name_fields()[k]) is None,
    ensures
        editors_of(m.insert(editor_type_fields()[k], c)) == editors_of(m),
{
    lemma_editor_field_names();
    let m2 = m.insert(editor_type_fields()[k], c);
    let n = editor_name_fields();
    let t = editor_type_fields();
    assert forall|j: int| 0 <= j < 4 implies map_get(m2, #[trigger] n[j]) == map_get(m, n[j]) by {
        assert(lower_key(n[j]) == n[j]);
        assert(t[k] != n[j]);
    }
    assert forall|j: int| 0 <= j < 4 && j != k implies editor_role(m2, #[trigger] t[j]) == editor_role(m, t[j]) by {
        assert(lower_key(t[j]) == t[j]);
        assert(t[k] != t[j]);
    }
    assert(editor_group(m2, n[k], t[k]) == editor_group(m, n[k], t[k]));
    assert(n[0] == "editor"@ && n[1] == "editora"@ && n[2] == "editorb"@ && n[3] == "editorc"@);
    assert(t[0] == "editortype"@ && t[1] == "editoratype"@ && t[2] == "editorbtype"@ && t[3] == "editorctype"@);
    assert(editor_role(m2, t[0]) == editor_role(m, t[0]) || k == 0);
    assert(editor_role(m2, t[1]) == editor_role(m, t[1]) || k == 1);
    assert(editor_role(m2, t[2]) == editor_role(m, t[2]) || k == 2);
    assert(editor_role(m2, t[3]) == editor_role(m, t[3]) || k == 3);
    assert(map_get(m2, n[0]) == map_get(m, n[0]));
    assert(map_get(m2, n[1]) == map_get(m, n[1]));
    assert(map_get(m2, n[2]) == map_get(m, n[2]));
    assert(map_get(m2, n[3]) == map_get(m, n[3]));
}

} // verus!
