//! Entry types and the fields that each of them asks for.
use vstd::prelude::*;

use crate::text::{lower_key, str_eq, to_lowercase};

verus! {

/// Describes the type of a bibliographical entry.
///
/// Each type comes with a different set of required and allowable fields
/// that are taken into consideration in [`crate::Entry::verify`].
#[derive(Debug, PartialEq, Eq)]
pub enum EntryType {
    /// An article in a journal, magazine, newspaper, or other periodical.
    Article,
    /// A single-volume book with one or more authors.
    Book,
    /// A multi-volume book.
    MvBook,
    /// A part of a book which forms a self-contained unit with its own title.
    InBook,
    /// A book that was published as part of another book.
    BookInBook,
    /// Supplemental material in a book.
    SuppBook,
    /// A book-like work without a formal publisher or sponsoring institution.
    Booklet,
    /// A single-volume collection with multiple, self-contained contributions.
    Collection,
    /// A multi-volume collection.
    MvCollection,
    /// A contribution to a collection which forms a self-contained unit.
    InCollection,
    /// Supplemental material in a collection.
    SuppCollection,
    /// A data set or a similar collection of raw data.
    Dataset,
    /// Technical or other documentation.
    Manual,
    /// A fallback type for entries which do not fit into any other category.
    Misc,
    /// An online resource.
    Online,
    /// A patent or patent request.
    Patent,
    /// An entire issue of a periodical.
    Periodical,
    /// Supplemental material in a periodical.
    SuppPeriodical,
    /// A single-volume conference proceedings.
    Proceedings,
    /// A multi-volume proceedings entry.
    MvProceedings,
    /// An article in a conference proceedings.
    InProceedings,
    /// A single-volume work of reference such as an encyclopedia or a dictionary.
    Reference,
    /// A multi-volume work of reference.
    MvReference,
    /// An article in a work of reference.
    InReference,
    /// A technical report, research report, or white paper published by a university or some other institution.
    Report,
    /// An entry set (named `set` in files).
    EntrySet,
    /// Computer software.
    Software,
    /// A thesis written for an educational institution to satisfy the requirements for a degree.
    Thesis,
    /// A work with an author and a title which has not been formally published.
    Unpublished,
    /// A container for data which is shared by other entries.
    XData,
    /// BibTeX: an article in a conference proceedings.
    Conference,
    /// BibTeX: an online resource.
    Electronic,
    /// BibTeX: a Master's thesis.
    MastersThesis,
    /// BibTeX: a PhD thesis.
    PhdThesis,
    /// BibTeX: a technical report.
    TechReport,
    /// BibTeX: a web page.
    Www,
    /// Stores a user-defined entry type that biblatex does not know.
    Unknown(String),
}

/// How an entry type treats the `author` and `editor` fields.
#[derive(Debug, Clone, Copy, PartialEq, Eq)]
pub enum AuthorMode {
    /// Neither `author` nor `editor` is asked for.
    NoneWanted,
    /// `author` is required.
    AuthorRequired,
    /// `author` is required; `editor` is allowed.
    AuthorRequiredEditorOptional,
    /// `editor` is required.
    EditorRequired,
    /// `editor` is required and `author` is forbidden.
    EditorRequiredAuthorForbidden,
    /// One of `author` and `editor` is required.
    AuthorEditorRequired,
    /// Both `author` and `editor` are required.
    BothRequired,
}

/// How an entry type treats the `pages` and `chapter` fields.
#[derive(Debug, Clone, Copy, PartialEq, Eq)]
pub enum PagesChapterMode {
    /// Neither field is asked for.
    NoPages,
    /// `pages` is allowed.
    PagesOptional,
    /// `pages` is required.
    PagesRequired,
    /// `pages` and `chapter` are allowed.
    PagesChapterOptional,
    /// One of `pages` and `chapter` is required.
    PagesChapterRequired,
    /// Both `pages` and `chapter` are forbidden.
    BothForbidden,
}

/// The fields that an entry type asks for.
pub struct Requirements {
    /// Fields that must be present.
    pub required: Vec<&'static str>,
    /// Fields that may be present.
    pub optional: Vec<&'static str>,
    /// Fields that must not be present.
    pub forbidden: Vec<&'static str>,
    /// How `author` and `editor` are treated.
    pub author_eds_field: AuthorMode,
    /// How `pages` and `chapter` are treated.
    pub page_chapter_field: PagesChapterMode,
    /// Whether a date is required.
    pub needs_date: bool,
}

/// The mathematical value of [`Requirements`].
#[verifier::ext_equal]
pub struct RequirementsView {
    pub required: Seq<&'static str>,
    pub optional: Seq<&'static str>,
    pub forbidden: Seq<&'static str>,
    pub author_eds_field: AuthorMode,
    pub page_chapter_field: PagesChapterMode,
    pub needs_date: bool,
}

impl View for Requirements {
    type V = RequirementsView;

    open spec fn view(&self) -> RequirementsView {
        RequirementsView {
            required: self.required@,
            optional: self.optional@,
            forbidden: self.forbidden@,
            author_eds_field: self.author_eds_field,
            page_chapter_field: self.page_chapter_field,
            needs_date: self.needs_date,
        }
    }
}

impl Clone for EntryType {
    fn clone(&self) -> (r: Self)
        ensures
            r == *self,
    {
        match self {
            EntryType::Article => EntryType::Article,
            EntryType::Book => EntryType::Book,
            EntryType::MvBook => EntryType::MvBook,
            EntryType::InBook => EntryType::InBook,
            EntryType::BookInBook => EntryType::BookInBook,
            EntryType::SuppBook => EntryType::SuppBook,
            EntryType::Booklet => EntryType::Booklet,
            EntryType::Collection => EntryType::Collection,
            EntryType::MvCollection => EntryType::MvCollection,
            EntryType::InCollection => EntryType::InCollection,
            EntryType::SuppCollection => EntryType::SuppCollection,
            EntryType::Dataset => EntryType::Dataset,
            EntryType::Manual => EntryType::Manual,
            EntryType::Misc => EntryType::Misc,
            EntryType::Online => EntryType::Online,
            EntryType::Patent => EntryType::Patent,
            EntryType::Periodical => EntryType::Periodical,
            EntryType::SuppPeriodical => EntryType::SuppPeriodical,
            EntryType::Proceedings => EntryType::Proceedings,
            EntryType::MvProceedings => EntryType::MvProceedings,
            EntryType::InProceedings => EntryType::InProceedings,
            EntryType::Reference => EntryType::Reference,
            EntryType::MvReference => EntryType::MvReference,
            EntryType::InReference => EntryType::InReference,
            EntryType::Report => EntryType::Report,
            EntryType::EntrySet => EntryType::EntrySet,
            EntryType::Software => EntryType::Software,
            EntryType::Thesis => EntryType::Thesis,
            EntryType::Unpublished => EntryType::Unpublished,
            EntryType::XData => EntryType::XData,
            EntryType::Conference => EntryType::Conference,
            EntryType::Electronic => EntryType::Electronic,
            EntryType::MastersThesis => EntryType::MastersThesis,
            EntryType::PhdThesis => EntryType::PhdThesis,
            EntryType::TechReport => EntryType::TechReport,
            EntryType::Www => EntryType::Www,
            EntryType::Unknown(s) => EntryType::Unknown(s.clone()),
        }
    }
}

/// The entry type with the given lower-case name, when biblatex knows it.
pub open spec fn entry_type_named(name: Seq<char>) -> Option<EntryType> {
    if name == "article"@ {
        Some(EntryType::Article)
    }
    else if name == "book"@ {
        Some(EntryType::Book)
    }
    else if name == "mvbook"@ {
        Some(EntryType::MvBook)
    }
    else if name == "inbook"@ {
        Some(EntryType::InBook)
    }
    else if name == "bookinbook"@ {
        Some(EntryType::BookInBook)
    }
    else if name == "suppbook"@ {
        Some(EntryType::SuppBook)
    }
    else if name == "booklet"@ {
        Some(EntryType::Booklet)
    }
    else if name == "collection"@ {
        Some(EntryType::Collection)
    }
    else if name == "mvcollection"@ {
        Some(EntryType::MvCollection)
    }
    else if name == "incollection"@ {
        Some(EntryType::InCollection)
    }
    else if name == "suppcollection"@ {
        Some(EntryType::SuppCollection)
    }
    else if name == "dataset"@ {
        Some(EntryType::Dataset)
    }
    else if name == "manual"@ {
        Some(EntryType::Manual)
    }
    else if name == "misc"@ {
        Some(EntryType::Misc)
    }
    else if name == "online"@ {
        Some(EntryType::Online)
    }
    else if name == "patent"@ {
        Some(EntryType::Patent)
    }
    else if name == "periodical"@ {
        Some(EntryType::Periodical)
    }
    else if name == "suppperiodical"@ {
        Some(EntryType::SuppPeriodical)
    }
    else if name == "proceedings"@ {
        Some(EntryType::Proceedings)
    }
    else if name == "mvproceedings"@ {
        Some(EntryType::MvProceedings)
    }
    else if name == "inproceedings"@ {
        Some(EntryType::InProceedings)
    }
    else if name == "reference"@ {
        Some(EntryType::Reference)
    }
    else if name == "mvreference"@ {
        Some(EntryType::MvReference)
    }
    else if name == "inreference"@ {
        Some(EntryType::InReference)
    }
    else if name == "report"@ {
        Some(EntryType::Report)
    }
    else if name == "set"@ {
        Some(EntryType::EntrySet)
    }
    else if name == "software"@ {
        Some(EntryType::Software)
    }
    else if name == "thesis"@ {
        Some(EntryType::Thesis)
    }
    else if name == "unpublished"@ {
        Some(EntryType::Unpublished)
    }
    else if name == "xdata"@ {
        Some(EntryType::XData)
    }
    else if name == "conference"@ {
        Some(EntryType::Conference)
    }
    else if name == "electronic"@ {
        Some(EntryType::Electronic)
    }
    else if name == "mastersthesis"@ {
        Some(EntryType::MastersThesis)
    }
    else if name == "phdthesis"@ {
        Some(EntryType::PhdThesis)
    }
    else if name == "techreport"@ {
        Some(EntryType::TechReport)
    }
    else if name == "www"@ {
        Some(EntryType::Www)
    }
    else {
        None
    }
}

/// The name under which an entry type is written.
pub open spec fn entry_type_name(t: EntryType) -> Seq<char> {
    match t {
        EntryType::Article => "article"@,
        EntryType::Book => "book"@,
        EntryType::MvBook => "mvbook"@,
        EntryType::InBook => "inbook"@,
        EntryType::BookInBook => "bookinbook"@,
        EntryType::SuppBook => "suppbook"@,
        EntryType::Booklet => "booklet"@,
        EntryType::Collection => "collection"@,
        EntryType::MvCollection => "mvcollection"@,
        EntryType::InCollection => "incollection"@,
        EntryType::SuppCollection => "suppcollection"@,
        EntryType::Dataset => "dataset"@,
        EntryType::Manual => "manual"@,
        EntryType::Misc => "misc"@,
        EntryType::Online => "online"@,
        EntryType::Patent => "patent"@,
        EntryType::Periodical => "periodical"@,
        EntryType::SuppPeriodical => "suppperiodical"@,
        EntryType::Proceedings => "proceedings"@,
        EntryType::MvProceedings => "mvproceedings"@,
        EntryType::InProceedings => "inproceedings"@,
        EntryType::Reference => "reference"@,
        EntryType::MvReference => "mvreference"@,
        EntryType::InReference => "inreference"@,
        EntryType::Report => "report"@,
        EntryType::EntrySet => "set"@,
        EntryType::Software => "software"@,
        EntryType::Thesis => "thesis"@,
        EntryType::Unpublished => "unpublished"@,
        EntryType::XData => "xdata"@,
        EntryType::Conference => "conference"@,
        EntryType::Electronic => "electronic"@,
        EntryType::MastersThesis => "mastersthesis"@,
        EntryType::PhdThesis => "phdthesis"@,
        EntryType::TechReport => "techreport"@,
        EntryType::Www => "www"@,
        EntryType::Unknown(s) => s@,
    }
}

/// The closest BibTeX type.
pub open spec fn spec_to_bibtex(t: EntryType) -> EntryType {
    match t {
        EntryType::Article => EntryType::Article,
        EntryType::Book => EntryType::Book,
        EntryType::MvBook => EntryType::Book,
        EntryType::InBook => EntryType::InBook,
        EntryType::BookInBook => EntryType::InBook,
        EntryType::SuppBook => EntryType::InBook,
        EntryType::Booklet => EntryType::Booklet,
        EntryType::Collection => EntryType::Book,
        EntryType::MvCollection => EntryType::Book,
        EntryType::InCollection => EntryType::InCollection,
        EntryType::SuppCollection => EntryType::InCollection,
        EntryType::Dataset => EntryType::Misc,
        EntryType::Manual => EntryType::Manual,
        EntryType::Misc => EntryType::Misc,
        EntryType::Online => EntryType::Misc,
        EntryType::Patent => EntryType::Misc,
        EntryType::Periodical => EntryType::Misc,
        EntryType::SuppPeriodical => EntryType::Article,
        EntryType::Proceedings => EntryType::Proceedings,
        EntryType::MvProceedings => EntryType::Proceedings,
        EntryType::InProceedings => EntryType::InProceedings,
        EntryType::Reference => EntryType::Book,
        EntryType::MvReference => EntryType::Book,
        EntryType::InReference => EntryType::InCollection,
        EntryType::Report => EntryType::TechReport,
        EntryType::EntrySet => EntryType::Misc,
        EntryType::Software => EntryType::Misc,
        EntryType::Thesis => EntryType::PhdThesis,
        EntryType::Unpublished => EntryType::Unpublished,
        EntryType::XData => EntryType::Misc,
        EntryType::Conference => EntryType::Conference,
        EntryType::Electronic => EntryType::Misc,
        EntryType::MastersThesis => EntryType::MastersThesis,
        EntryType::PhdThesis => EntryType::PhdThesis,
        EntryType::TechReport => EntryType::TechReport,
        EntryType::Www => EntryType::Misc,
        EntryType::Unknown(s) => EntryType::Unknown(s),
    }
}

/// The closest BibLaTeX type.
pub open spec fn spec_to_biblatex(t: EntryType) -> EntryType {
    match t {
        EntryType::Article => EntryType::Article,
        EntryType::Book => EntryType::Book,
        EntryType::MvBook => EntryType::MvBook,
        EntryType::InBook => EntryType::InBook,
        EntryType::BookInBook => EntryType::BookInBook,
        EntryType::SuppBook => EntryType::SuppBook,
        EntryType::Booklet => EntryType::Booklet,
        EntryType::Collection => EntryType::Collection,
        EntryType::MvCollection => EntryType::MvCollection,
        EntryType::InCollection => EntryType::InCollection,
        EntryType::SuppCollection => EntryType::SuppCollection,
        EntryType::Dataset => EntryType::Dataset,
        EntryType::Manual => EntryType::Manual,
        EntryType::Misc => EntryType::Misc,
        EntryType::Online => EntryType::Online,
        EntryType::Patent => EntryType::Patent,
        EntryType::Periodical => EntryType::Periodical,
        EntryType::SuppPeriodical => EntryType::SuppPeriodical,
        EntryType::Proceedings => EntryType::Proceedings,
        EntryType::MvProceedings => EntryType::MvProceedings,
        EntryType::InProceedings => EntryType::InProceedings,
        EntryType::Reference => EntryType::Reference,
        EntryType::MvReference => EntryType::MvReference,
        EntryType::InReference => EntryType::InReference,
        EntryType::Report => EntryType::Report,
        EntryType::EntrySet => EntryType::EntrySet,
        EntryType::Software => EntryType::Software,
        EntryType::Thesis => EntryType::Thesis,
        EntryType::Unpublished => EntryType::Unpublished,
        EntryType::XData => EntryType::XData,
        EntryType::Conference => EntryType::InProceedings,
        EntryType::Electronic => EntryType::Online,
        EntryType::MastersThesis => EntryType::Thesis,
        EntryType::PhdThesis => EntryType::Thesis,
        EntryType::TechReport => EntryType::Report,
        EntryType::Www => EntryType::Online,
        EntryType::Unknown(s) => EntryType::Unknown(s),
    }
}

/// Whether entries of this type collect works under a common title.
pub open spec fn spec_is_collection(t: EntryType) -> bool {
    t is Book || t is MvBook || t is Collection || t is MvCollection || t is Reference || t is MvReference || t is Proceedings || t is MvProceedings
}

/// Whether entries of this type span several volumes.
pub open spec fn spec_is_multi_volume(t: EntryType) -> bool {
    t is MvBook || t is MvCollection || t is MvReference || t is MvProceedings
}

/// The fields that `author_eds_field` can draw on.
pub open spec fn author_fields(m: AuthorMode) -> Seq<&'static str> {
    match m {
        AuthorMode::NoneWanted => Seq::empty(),
        AuthorMode::AuthorRequired => seq!["author"],
        AuthorMode::AuthorRequiredEditorOptional => seq!["author", "editor"],
        AuthorMode::EditorRequired => seq!["editor"],
        AuthorMode::EditorRequiredAuthorForbidden => seq!["editor"],
        AuthorMode::AuthorEditorRequired => seq!["author", "editor"],
        AuthorMode::BothRequired => seq!["author", "editor"],
    }
}

/// The fields that `page_chapter_field` can draw on.
pub open spec fn page_fields(m: PagesChapterMode) -> Seq<&'static str> {
    match m {
        PagesChapterMode::NoPages => Seq::empty(),
        PagesChapterMode::PagesOptional => seq!["pages"],
        PagesChapterMode::PagesRequired => seq!["pages"],
        PagesChapterMode::PagesChapterOptional => seq!["pages", "chapter"],
        PagesChapterMode::PagesChapterRequired => seq!["pages", "chapter"],
        PagesChapterMode::BothForbidden => Seq::empty(),
    }
}

impl AuthorMode {
    /// The fields that this mode draws on.
    pub fn get_all_possible(&self) -> (r: Vec<&'static str>)
        ensures
            r@ == author_fields(*self),
    {
        match self {
            AuthorMode::NoneWanted => Vec::new(),
            AuthorMode::AuthorRequired => vec!["author"],
            AuthorMode::AuthorRequiredEditorOptional => vec!["author", "editor"],
            AuthorMode::EditorRequired => vec!["editor"],
            AuthorMode::EditorRequiredAuthorForbidden => vec!["editor"],
            AuthorMode::AuthorEditorRequired => vec!["author", "editor"],
            AuthorMode::BothRequired => vec!["author", "editor"],
        }
    }
}

impl PagesChapterMode {
    /// The fields that this mode draws on.
    pub fn get_all_possible(&self) -> (r: Vec<&'static str>)
        ensures
            r@ == page_fields(*self),
    {
        match self {
            PagesChapterMode::NoPages => Vec::new(),
            PagesChapterMode::PagesOptional => vec!["pages"],
            PagesChapterMode::PagesRequired => vec!["pages"],
            PagesChapterMode::PagesChapterOptional => vec!["pages", "chapter"],
            PagesChapterMode::PagesChapterRequired => vec!["pages", "chapter"],
            PagesChapterMode::BothForbidden => Vec::new(),
        }
    }
}

/// The fields that entries of type `t` ask for.
#[verifier::opaque]
pub open spec fn requirements(t: EntryType) -> RequirementsView {
    match t {
        EntryType::Article => RequirementsView {
            required: seq!["title", "journaltitle"],
            optional: seq!["subtitle", "titleaddon", "translator", "annotator", "commentator", "journalsubtitle", "issuetitle", "issuesubtitle", "origlanguage", "series", "volume", "number", "eid", "issue", "version", "issn", "note", "addendum", "pubstate", "doi", "eprint", "eprintclass", "eprinttype", "url", "urldate", "language"],
            forbidden: seq!["booktitle", "maintitle"],
            author_eds_field: AuthorMode::AuthorRequiredEditorOptional,
            page_chapter_field: PagesChapterMode::PagesOptional,
            needs_date: true,
        },
        EntryType::Book => RequirementsView {
            required: seq!["title"],
            optional: seq!["subtitle", "titleaddon", "maintitle", "mainsubtitle", "maintitleaddon", "volume", "part", "edition", "volumes", "series", "number", "publisher", "location", "isbn", "pagetotal", "translator", "annotator", "commentator", "introduction", "foreword", "afterword", "origlanguage", "note", "addendum", "pubstate", "doi", "eprint", "eprintclass", "eprinttype", "url", "urldate", "language"],
            forbidden: Seq::empty(),
            author_eds_field: AuthorMode::AuthorRequiredEditorOptional,
            page_chapter_field: PagesChapterMode::PagesChapterOptional,
            needs_date: true,
        },
        EntryType::MvBook => RequirementsView {
            required: seq!["title"],
            optional: seq!["subtitle", "titleaddon", "edition", "volumes", "series", "number", "publisher", "location", "isbn", "pagetotal", "translator", "annotator", "commentator", "introduction", "foreword", "afterword", "origlanguage", "note", "addendum", "pubstate", "doi", "eprint", "eprintclass", "eprinttype", "url", "urldate", "language"],
            forbidden: seq!["maintitle", "mainsubtitle", "maintitleaddon", "part", "volume"],
            author_eds_field: AuthorMode::AuthorRequiredEditorOptional,
            page_chapter_field: PagesChapterMode::BothForbidden,
            needs_date: true,
        },
        EntryType::InBook => RequirementsView {
            required: seq!["title", "booktitle"],
            optional: seq!["subtitle", "titleaddon", "booksubtitle", "booktitleaddon", "maintitle", "mainsubtitle", "maintitleaddon", "volume", "part", "edition", "volumes", "series", "number", "publisher", "location", "isbn", "translator", "annotator", "commentator", "introduction", "foreword", "afterword", "origlanguage", "bookauthor", "note", "addendum", "pubstate", "doi", "eprint", "eprintclass", "eprinttype", "url", "urldate", "language"],
            forbidden: Seq::empty(),
            author_eds_field: AuthorMode::AuthorRequiredEditorOptional,
            page_chapter_field: PagesChapterMode::PagesChapterOptional,
            needs_date: true,
        },
        EntryType::BookInBook => RequirementsView {
            required: seq!["title", "booktitle"],
            optional: seq!["subtitle", "titleaddon", "booksubtitle", "booktitleaddon", "maintitle", "mainsubtitle", "maintitleaddon", "volume", "part", "edition", "volumes", "series", "number", "publisher", "location", "isbn", "translator", "annotator", "commentator", "introduction", "foreword", "afterword", "origlanguage", "bookauthor", "note", "addendum", "pubstate", "doi", "eprint", "eprintclass", "eprinttype", "url", "urldate", "language"],
            forbidden: Seq::empty(),
            author_eds_field: AuthorMode::AuthorRequiredEditorOptional,
            page_chapter_field: PagesChapterMode::PagesChapterOptional,
            needs_date: true,
        },
        EntryType::SuppBook => RequirementsView {
            required: seq!["title", "booktitle"],
            optional: seq!["subtitle", "titleaddon", "booksubtitle", "booktitleaddon", "maintitle", "mainsubtitle", "maintitleaddon", "volume", "part", "edition", "volumes", "series", "number", "publisher", "location", "isbn", "translator", "annotator", "commentator", "introduction", "foreword", "afterword", "origlanguage", "bookauthor", "note", "addendum", "pubstate", "doi", "eprint", "eprintclass", "eprinttype", "url", "urldate", "language"],
            forbidden: Seq::empty(),
            author_eds_field: AuthorMode::AuthorRequiredEditorOptional,
            page_chapter_field: PagesChapterMode::PagesChapterOptional,
            needs_date: true,
        },
        EntryType::Booklet => RequirementsView {
            required: seq!["title"],
            optional: seq!["subtitle", "titleaddon", "howpublished", "type", "location", "pagetotal", "note", "addendum", "pubstate", "doi", "eprint", "eprintclass", "eprinttype", "url", "urldate", "language"],
            forbidden: Seq::empty(),
            author_eds_field: AuthorMode::AuthorEditorRequired,
            page_chapter_field: PagesChapterMode::PagesChapterOptional,
            needs_date: true,
        },
        EntryType::Collection => RequirementsView {
            required: seq!["title"],
            optional: seq!["subtitle", "titleaddon", "maintitle", "mainsubtitle", "maintitleaddon", "volume", "part", "edition", "volumes", "series", "number", "publisher", "location", "isbn", "pagetotal", "translator", "annotator", "commentator", "introduction", "foreword", "afterword", "origlanguage", "note", "addendum", "pubstate", "doi", "eprint", "eprintclass", "eprinttype", "url", "urldate", "language"],
            forbidden: Seq::empty(),
            author_eds_field: AuthorMode::EditorRequired,
            page_chapter_field: PagesChapterMode::PagesChapterOptional,
            needs_date: true,
        },
        EntryType::MvCollection => RequirementsView {
            required: seq!["title"],
            optional: seq!["subtitle", "titleaddon", "edition", "volumes", "series", "number", "publisher", "location", "isbn", "pagetotal", "translator", "annotator", "commentator", "introduction", "foreword", "afterword", "origlanguage", "note", "addendum", "pubstate", "doi", "eprint", "eprintclass", "eprinttype", "url", "urldate", "language"],
            forbidden: seq!["maintitle", "mainsubtitle", "maintitleaddon", "part", "volume"],
            author_eds_field: AuthorMode::EditorRequired,
            page_chapter_field: PagesChapterMode::BothForbidden,
            needs_date: true,
        },
        EntryType::InCollection => RequirementsView {
            required: seq!["title", "booktitle"],
            optional: seq!["subtitle", "titleaddon", "booksubtitle", "booktitleaddon", "maintitle", "mainsubtitle", "maintitleaddon", "volume", "part", "edition", "volumes", "series", "number", "publisher", "location", "isbn", "translator", "annotator", "commentator", "introduction", "foreword", "afterword", "origlanguage", "note", "addendum", "pubstate", "doi", "eprint", "eprintclass", "eprinttype", "url", "urldate", "language"],
            forbidden: Seq::empty(),
            author_eds_field: AuthorMode::AuthorRequiredEditorOptional,
            page_chapter_field: PagesChapterMode::PagesChapterOptional,
            needs_date: true,
        },
        EntryType::SuppCollection => RequirementsView {
            required: seq!["title", "booktitle"],
            optional: seq!["subtitle", "titleaddon", "booksubtitle", "booktitleaddon", "maintitle", "mainsubtitle", "maintitleaddon", "volume", "part", "edition", "volumes", "series", "number", "publisher", "location", "isbn", "translator", "annotator", "commentator", "introduction", "foreword", "afterword", "origlanguage", "note", "addendum", "pubstate", "doi", "eprint", "eprintclass", "eprinttype", "url", "urldate", "language"],
            forbidden: Seq::empty(),
            author_eds_field: AuthorMode::AuthorRequiredEditorOptional,
            page_chapter_field: PagesChapterMode::PagesChapterOptional,
            needs_date: true,
        },
        EntryType::Dataset => RequirementsView {
            required: seq!["title"],
            optional: seq!["subtitle", "titleaddon", "edition", "type", "series", "number", "version", "organization", "publisher", "location", "note", "addendum", "pubstate", "doi", "eprint", "eprintclass", "eprinttype", "url", "urldate", "language"],
            forbidden: Seq::empty(),
            author_eds_field: AuthorMode::AuthorEditorRequired,
            page_chapter_field: PagesChapterMode::NoPages,
            needs_date: true,
        },
        EntryType::Manual => RequirementsView {
            required: seq!["title"],
            optional: seq!["subtitle", "titleaddon", "edition", "type", "series", "number", "version", "organization", "publisher", "location", "isbn", "pagetotal", "note", "addendum", "pubstate", "doi", "eprint", "eprintclass", "eprinttype", "url", "urldate", "language"],
            forbidden: Seq::empty(),
            author_eds_field: AuthorMode::AuthorEditorRequired,
            page_chapter_field: PagesChapterMode::PagesChapterOptional,
            needs_date: true,
        },
        EntryType::Misc => RequirementsView {
            required: seq!["title"],
            optional: seq!["subtitle", "titleaddon", "howpublished", "type", "version", "organization", "location", "note", "addendum", "pubstate", "doi", "eprint", "eprintclass", "eprinttype", "url", "urldate", "language"],
            forbidden: Seq::empty(),
            author_eds_field: AuthorMode::AuthorEditorRequired,
            page_chapter_field: PagesChapterMode::NoPages,
            needs_date: true,
        },
        EntryType::Online => RequirementsView {
            required: seq!["title", "url"],
            optional: seq!["subtitle", "titleaddon", "version", "organization", "note", "addendum", "pubstate", "doi", "eprint", "eprintclass", "eprinttype", "url", "urldate", "language"],
            forbidden: Seq::empty(),
            author_eds_field: AuthorMode::AuthorEditorRequired,
            page_chapter_field: PagesChapterMode::NoPages,
            needs_date: true,
        },
        EntryType::Patent => RequirementsView {
            required: seq!["title", "number"],
            optional: seq!["holder", "subtitle", "titleaddon", "type", "version", "location", "note", "addendum", "pubstate", "doi", "eprint", "eprintclass", "eprinttype", "url", "urldate", "language"],
            forbidden: Seq::empty(),
            author_eds_field: AuthorMode::AuthorRequired,
            page_chapter_field: PagesChapterMode::NoPages,
            needs_date: true,
        },
        EntryType::Periodical => RequirementsView {
            required: seq!["title"],
            optional: seq!["subtitle", "titleaddon", "issuetitle", "issuesubtitle", "series", "volume", "number", "issue", "issn", "note", "addendum", "pubstate", "doi", "eprint", "eprintclass", "eprinttype", "url", "urldate", "language"],
            forbidden: seq!["maintitle", "booktitle"],
            author_eds_field: AuthorMode::EditorRequiredAuthorForbidden,
            page_chapter_field: PagesChapterMode::BothForbidden,
            needs_date: true,
        },
        EntryType::SuppPeriodical => RequirementsView {
            required: seq!["title", "journaltitle"],
            optional: seq!["subtitle", "titleaddon", "translator", "annotator", "commentator", "journalsubtitle", "issuetitle", "issuesubtitle", "origlanguage", "series", "volume", "number", "eid", "issue", "version", "issn", "note", "addendum", "pubstate", "doi", "eprint", "eprintclass", "eprinttype", "url", "urldate", "language"],
            forbidden: seq!["booktitle", "maintitle"],
            author_eds_field: AuthorMode::AuthorRequired,
            page_chapter_field: PagesChapterMode::PagesOptional,
            needs_date: true,
        },
        EntryType::Proceedings => RequirementsView {
            required: seq!["title"],
            optional: seq!["subtitle", "titleaddon", "maintitle", "mainsubtitle", "maintitleaddon", "eventtitle", "eventtitleaddon", "venue", "volume", "part", "volumes", "series", "number", "organization", "publisher", "location", "isbn", "pagetotal", "editor", "note", "addendum", "pubstate", "doi", "eprint", "eprintclass", "eprinttype", "url", "urldate", "language"],
            forbidden: Seq::empty(),
            author_eds_field: AuthorMode::NoneWanted,
            page_chapter_field: PagesChapterMode::PagesChapterOptional,
            needs_date: true,
        },
        EntryType::MvProceedings => RequirementsView {
            required: seq!["title"],
            optional: seq!["subtitle", "titleaddon", "eventtitle", "eventtitleaddon", "venue", "volumes", "series", "number", "organization", "publisher", "location", "isbn", "pagetotal", "editor", "note", "addendum", "pubstate", "doi", "eprint", "eprintclass", "eprinttype", "url", "urldate", "language"],
            forbidden: seq!["maintitle", "mainsubtitle", "maintitleaddon", "part", "volume"],
            author_eds_field: AuthorMode::NoneWanted,
            page_chapter_field: PagesChapterMode::BothForbidden,
            needs_date: true,
        },
        EntryType::InProceedings => RequirementsView {
            required: seq!["title", "booktitle"],
            optional: seq!["subtitle", "titleaddon", "booksubtitle", "booktitleaddon", "maintitle", "mainsubtitle", "maintitleaddon", "eventtitle", "eventtitleaddon", "venue", "volume", "part", "volumes", "series", "number", "organization", "publisher", "location", "isbn", "note", "addendum", "pubstate", "doi", "eprint", "eprintclass", "eprinttype", "url", "urldate", "language"],
            forbidden: Seq::empty(),
            author_eds_field: AuthorMode::AuthorRequiredEditorOptional,
            page_chapter_field: PagesChapterMode::PagesChapterOptional,
            needs_date: true,
        },
        EntryType::Reference => RequirementsView {
            required: seq!["title"],
            optional: seq!["subtitle", "titleaddon", "maintitle", "mainsubtitle", "maintitleaddon", "volume", "part", "edition", "volumes", "series", "number", "publisher", "location", "isbn", "pagetotal", "translator", "annotator", "commentator", "introduction", "foreword", "afterword", "origlanguage", "note", "addendum", "pubstate", "doi", "eprint", "eprintclass", "eprinttype", "url", "urldate", "language"],
            forbidden: Seq::empty(),
            author_eds_field: AuthorMode::EditorRequired,
            page_chapter_field: PagesChapterMode::PagesChapterOptional,
            needs_date: true,
        },
        EntryType::MvReference => RequirementsView {
            required: seq!["title"],
            optional: seq!["subtitle", "titleaddon", "edition", "volumes", "series", "number", "publisher", "location", "isbn", "pagetotal", "translator", "annotator", "commentator", "introduction", "foreword", "afterword", "origlanguage", "note", "addendum", "pubstate", "doi", "eprint", "eprintclass", "eprinttype", "url", "urldate", "language"],
            forbidden: seq!["maintitle", "mainsubtitle", "maintitleaddon", "part", "volume"],
            author_eds_field: AuthorMode::EditorRequired,
            page_chapter_field: PagesChapterMode::BothForbidden,
            needs_date: true,
        },
        EntryType::InReference => RequirementsView {
            required: seq!["title", "booktitle"],
            optional: seq!["subtitle", "titleaddon", "booksubtitle", "booktitleaddon", "maintitle", "mainsubtitle", "maintitleaddon", "volume", "part", "edition", "volumes", "series", "number", "publisher", "location", "isbn", "translator", "annotator", "commentator", "introduction", "foreword", "afterword", "origlanguage", "note", "addendum", "pubstate", "doi", "eprint", "eprintclass", "eprinttype", "url", "urldate", "language"],
            forbidden: Seq::empty(),
            author_eds_field: AuthorMode::AuthorRequiredEditorOptional,
            page_chapter_field: PagesChapterMode::PagesChapterOptional,
            needs_date: true,
        },
        EntryType::Report => RequirementsView {
            required: seq!["title", "type", "institution"],
            optional: seq!["subtitle", "titleaddon", "number", "version", "location", "isrn", "pagetotal", "note", "addendum", "pubstate", "doi", "eprint", "eprintclass", "eprinttype", "url", "urldate", "language"],
            forbidden: Seq::empty(),
            author_eds_field: AuthorMode::AuthorRequired,
            page_chapter_field: PagesChapterMode::PagesChapterOptional,
            needs_date: true,
        },
        EntryType::EntrySet => RequirementsView {
            required: Seq::empty(),
            optional: Seq::empty(),
            forbidden: Seq::empty(),
            author_eds_field: AuthorMode::NoneWanted,
            page_chapter_field: PagesChapterMode::NoPages,
            needs_date: false,
        },
        EntryType::Software => RequirementsView {
            required: seq!["title"],
            optional: seq!["subtitle", "titleaddon", "howpublished", "type", "version", "organization", "location", "note", "addendum", "pubstate", "doi", "eprint", "eprintclass", "eprinttype", "url", "urldate", "language"],
            forbidden: Seq::empty(),
            author_eds_field: AuthorMode::AuthorEditorRequired,
            page_chapter_field: PagesChapterMode::NoPages,
            needs_date: true,
        },
        EntryType::Thesis => RequirementsView {
            required: seq!["title", "school"],
            optional: seq!["subtitle", "titleaddon", "type", "location", "isbn", "pagetotal", "note", "addendum", "pubstate", "doi", "eprint", "eprintclass", "eprinttype", "url", "urldate", "language"],
            forbidden: Seq::empty(),
            author_eds_field: AuthorMode::AuthorRequired,
            page_chapter_field: PagesChapterMode::PagesChapterOptional,
            needs_date: true,
        },
        EntryType::Unpublished => RequirementsView {
            required: seq!["title"],
            optional: seq!["subtitle", "titleaddon", "type", "eventtitle", "venue", "howpublished", "location", "note", "addendum", "pubstate", "doi", "eprint", "eprintclass", "eprinttype", "url", "urldate", "language"],
            forbidden: Seq::empty(),
            author_eds_field: AuthorMode::AuthorRequired,
            page_chapter_field: PagesChapterMode::NoPages,
            needs_date: true,
        },
        EntryType::XData => RequirementsView {
            required: Seq::empty(),
            optional: Seq::empty(),
            forbidden: Seq::empty(),
            author_eds_field: AuthorMode::NoneWanted,
            page_chapter_field: PagesChapterMode::NoPages,
            needs_date: false,
        },
        EntryType::Conference => RequirementsView {
            required: seq!["title", "booktitle"],
            optional: seq!["subtitle", "titleaddon", "booksubtitle", "booktitleaddon", "maintitle", "mainsubtitle", "maintitleaddon", "eventtitle", "eventtitleaddon", "venue", "volume", "part", "volumes", "series", "number", "organization", "publisher", "location", "isbn", "note", "addendum", "pubstate", "doi", "eprint", "eprintclass", "eprinttype", "url", "urldate", "language"],
            forbidden: Seq::empty(),
            author_eds_field: AuthorMode::AuthorRequiredEditorOptional,
            page_chapter_field: PagesChapterMode::PagesChapterOptional,
            needs_date: true,
        },
        EntryType::Electronic => RequirementsView {
            required: seq!["title", "url"],
            optional: seq!["subtitle", "titleaddon", "version", "organization", "note", "addendum", "pubstate", "doi", "eprint", "eprintclass", "eprinttype", "url", "urldate", "language"],
            forbidden: Seq::empty(),
            author_eds_field: AuthorMode::AuthorEditorRequired,
            page_chapter_field: PagesChapterMode::NoPages,
            needs_date: true,
        },
        EntryType::MastersThesis => RequirementsView {
            required: seq!["title", "school"],
            optional: seq!["subtitle", "titleaddon", "type", "location", "isbn", "pagetotal", "note", "addendum", "pubstate", "doi", "eprint", "eprintclass", "eprinttype", "url", "urldate", "language"],
            forbidden: Seq::empty(),
            author_eds_field: AuthorMode::AuthorRequired,
            page_chapter_field: PagesChapterMode::PagesChapterOptional,
            needs_date: true,
        },
        EntryType::PhdThesis => RequirementsView {
            required: seq!["title", "school"],
            optional: seq!["subtitle", "titleaddon", "type", "location", "isbn", "pagetotal", "note", "addendum", "pubstate", "doi", "eprint", "eprintclass", "eprinttype", "url", "urldate", "language"],
            forbidden: Seq::empty(),
            author_eds_field: AuthorMode::AuthorRequired,
            page_chapter_field: PagesChapterMode::PagesChapterOptional,
            needs_date: true,
        },
        EntryType::TechReport => RequirementsView {
            required: seq!["title", "type", "institution"],
            optional: seq!["subtitle", "titleaddon", "number", "version", "location", "isrn", "pagetotal", "note", "addendum", "pubstate", "doi", "eprint", "eprintclass", "eprinttype", "url", "urldate", "language"],
            forbidden: Seq::empty(),
            author_eds_field: AuthorMode::AuthorRequired,
            page_chapter_field: PagesChapterMode::PagesChapterOptional,
            needs_date: true,
        },
        EntryType::Www => RequirementsView {
            required: seq!["title", "url"],
            optional: seq!["subtitle", "titleaddon", "version", "organization", "note", "addendum", "pubstate", "doi", "eprint", "eprintclass", "eprinttype", "url", "urldate", "language"],
            forbidden: Seq::empty(),
            author_eds_field: AuthorMode::AuthorEditorRequired,
            page_chapter_field: PagesChapterMode::NoPages,
            needs_date: true,
        },
        EntryType::Unknown(_) => RequirementsView {
            required: seq!["title"],
            optional: seq!["subtitle", "titleaddon", "howpublished", "type", "version", "organization", "location", "note", "addendum", "pubstate", "doi", "eprint", "eprintclass", "eprinttype", "url", "urldate", "language"],
            forbidden: Seq::empty(),
            author_eds_field: AuthorMode::AuthorEditorRequired,
            page_chapter_field: PagesChapterMode::NoPages,
            needs_date: true,
        },
    }
}

impl EntryType {
    /// Reads an entry type from its name, in any case; names that biblatex
    /// does not know become [`EntryType::Unknown`].
    pub fn robust_from_str(name: &str) -> (r: EntryType)
        ensures
            match entry_type_named(lower_key(name@)) {
                Some(t) => r == t,
                None => r matches EntryType::Unknown(s) && s@ == name@,
            },
    {
        let lower = to_lowercase(name);
        match Self::from_lowercase(lower.as_str()) {
            Some(t) => t,
            None => EntryType::Unknown(String::from_str(name)),
        }
    }

    /// The entry type with the given lower-case name, when biblatex knows it.
    pub fn from_lowercase(name: &str) -> (r: Option<EntryType>)
        ensures
            r == entry_type_named(name@),
    {
        if str_eq(name, "article") {
            return Some(EntryType::Article);
        }
        if str_eq(name, "book") {
            return Some(EntryType::Book);
        }
        if str_eq(name, "mvbook") {
            return Some(EntryType::MvBook);
        }
        if str_eq(name, "inbook") {
            return Some(EntryType::InBook);
        }
        if str_eq(name, "bookinbook") {
            return Some(EntryType::BookInBook);
        }
        if str_eq(name, "suppbook") {
            return Some(EntryType::SuppBook);
        }
        if str_eq(name, "booklet") {
            return Some(EntryType::Booklet);
        }
        if str_eq(name, "collection") {
            return Some(EntryType::Collection);
        }
        if str_eq(name, "mvcollection") {
            return Some(EntryType::MvCollection);
        }
        if str_eq(name, "incollection") {
            return Some(EntryType::InCollection);
        }
        if str_eq(name, "suppcollection") {
            return Some(EntryType::SuppCollection);
        }
        if str_eq(name, "dataset") {
            return Some(EntryType::Dataset);
        }
        if str_eq(name, "manual") {
            return Some(EntryType::Manual);
        }
        if str_eq(name, "misc") {
            return Some(EntryType::Misc);
        }
        if str_eq(name, "online") {
            return Some(EntryType::Online);
        }
        if str_eq(name, "patent") {
            return Some(EntryType::Patent);
        }
        if str_eq(name, "periodical") {
            return Some(EntryType::Periodical);
        }
        if str_eq(name, "suppperiodical") {
            return Some(EntryType::SuppPeriodical);
        }
        if str_eq(name, "proceedings") {
            return Some(EntryType::Proceedings);
        }
        if str_eq(name, "mvproceedings") {
            return Some(EntryType::MvProceedings);
        }
        if str_eq(name, "inproceedings") {
            return Some(EntryType::InProceedings);
        }
        if str_eq(name, "reference") {
            return Some(EntryType::Reference);
        }
        if str_eq(name, "mvreference") {
            return Some(EntryType::MvReference);
        }
        if str_eq(name, "inreference") {
            return Some(EntryType::InReference);
        }
        if str_eq(name, "report") {
            return Some(EntryType::Report);
        }
        if str_eq(name, "set") {
            return Some(EntryType::EntrySet);
        }
        if str_eq(name, "software") {
            return Some(EntryType::Software);
        }
        if str_eq(name, "thesis") {
            return Some(EntryType::Thesis);
        }
        if str_eq(name, "unpublished") {
            return Some(EntryType::Unpublished);
        }
        if str_eq(name, "xdata") {
            return Some(EntryType::XData);
        }
        if str_eq(name, "conference") {
            return Some(EntryType::Conference);
        }
        if str_eq(name, "electronic") {
            return Some(EntryType::Electronic);
        }
        if str_eq(name, "mastersthesis") {
            return Some(EntryType::MastersThesis);
        }
        if str_eq(name, "phdthesis") {
            return Some(EntryType::PhdThesis);
        }
        if str_eq(name, "techreport") {
            return Some(EntryType::TechReport);
        }
        if str_eq(name, "www") {
            return Some(EntryType::Www);
        }
        None
    }

    /// The name under which this type is written.
    pub fn name(&self) -> (r: String)
        ensures
            r@ == entry_type_name(*self),
    {
        match self {
            EntryType::Article => String::from_str("article"),
            EntryType::Book => String::from_str("book"),
            EntryType::MvBook => String::from_str("mvbook"),
            EntryType::InBook => String::from_str("inbook"),
            EntryType::BookInBook => String::from_str("bookinbook"),
            EntryType::SuppBook => String::from_str("suppbook"),
            EntryType::Booklet => String::from_str("booklet"),
            EntryType::Collection => String::from_str("collection"),
            EntryType::MvCollection => String::from_str("mvcollection"),
            EntryType::InCollection => String::from_str("incollection"),
            EntryType::SuppCollection => String::from_str("suppcollection"),
            EntryType::Dataset => String::from_str("dataset"),
            EntryType::Manual => String::from_str("manual"),
            EntryType::Misc => String::from_str("misc"),
            EntryType::Online => String::from_str("online"),
            EntryType::Patent => String::from_str("patent"),
            EntryType::Periodical => String::from_str("periodical"),
            EntryType::SuppPeriodical => String::from_str("suppperiodical"),
            EntryType::Proceedings => String::from_str("proceedings"),
            EntryType::MvProceedings => String::from_str("mvproceedings"),
            EntryType::InProceedings => String::from_str("inproceedings"),
            EntryType::Reference => String::from_str("reference"),
            EntryType::MvReference => String::from_str("mvreference"),
            EntryType::InReference => String::from_str("inreference"),
            EntryType::Report => String::from_str("report"),
            EntryType::EntrySet => String::from_str("set"),
            EntryType::Software => String::from_str("software"),
            EntryType::Thesis => String::from_str("thesis"),
            EntryType::Unpublished => String::from_str("unpublished"),
            EntryType::XData => String::from_str("xdata"),
            EntryType::Conference => String::from_str("conference"),
            EntryType::Electronic => String::from_str("electronic"),
            EntryType::MastersThesis => String::from_str("mastersthesis"),
            EntryType::PhdThesis => String::from_str("phdthesis"),
            EntryType::TechReport => String::from_str("techreport"),
            EntryType::Www => String::from_str("www"),
            EntryType::Unknown(s) => s.clone(),
        }
    }

    /// The closest BibTeX type.
    pub fn to_bibtex(&self) -> (r: EntryType)
        ensures
            r == spec_to_bibtex(*self),
    {
        match self {
            EntryType::Article => EntryType::Article,
            EntryType::Book => EntryType::Book,
            EntryType::MvBook => EntryType::Book,
            EntryType::InBook => EntryType::InBook,
            EntryType::BookInBook => EntryType::InBook,
            EntryType::SuppBook => EntryType::InBook,
            EntryType::Booklet => EntryType::Booklet,
            EntryType::Collection => EntryType::Book,
            EntryType::MvCollection => EntryType::Book,
            EntryType::InCollection => EntryType::InCollection,
            EntryType::SuppCollection => EntryType::InCollection,
            EntryType::Dataset => EntryType::Misc,
            EntryType::Manual => EntryType::Manual,
            EntryType::Misc => EntryType::Misc,
            EntryType::Online => EntryType::Misc,
            EntryType::Patent => EntryType::Misc,
            EntryType::Periodical => EntryType::Misc,
            EntryType::SuppPeriodical => EntryType::Article,
            EntryType::Proceedings => EntryType::Proceedings,
            EntryType::MvProceedings => EntryType::Proceedings,
            EntryType::InProceedings => EntryType::InProceedings,
            EntryType::Reference => EntryType::Book,
            EntryType::MvReference => EntryType::Book,
            EntryType::InReference => EntryType::InCollection,
            EntryType::Report => EntryType::TechReport,
            EntryType::EntrySet => EntryType::Misc,
            EntryType::Software => EntryType::Misc,
            EntryType::Thesis => EntryType::PhdThesis,
            EntryType::Unpublished => EntryType::Unpublished,
            EntryType::XData => EntryType::Misc,
            EntryType::Conference => EntryType::Conference,
            EntryType::Electronic => EntryType::Misc,
            EntryType::MastersThesis => EntryType::MastersThesis,
            EntryType::PhdThesis => EntryType::PhdThesis,
            EntryType::TechReport => EntryType::TechReport,
            EntryType::Www => EntryType::Misc,
            EntryType::Unknown(s) => EntryType::Unknown(s.clone()),
        }
    }

    /// The closest BibLaTeX type.
    pub fn to_biblatex(&self) -> (r: EntryType)
        ensures
            r == spec_to_biblatex(*self),
    {
        match self {
            EntryType::Article => EntryType::Article,
            EntryType::Book => EntryType::Book,
            EntryType::MvBook => EntryType::MvBook,
            EntryType::InBook => EntryType::InBook,
            EntryType::BookInBook => EntryType::BookInBook,
            EntryType::SuppBook => EntryType::SuppBook,
            EntryType::Booklet => EntryType::Booklet,
            EntryType::Collection => EntryType::Collection,
            EntryType::MvCollection => EntryType::MvCollection,
            EntryType::InCollection => EntryType::InCollection,
            EntryType::SuppCollection => EntryType::SuppCollection,
            EntryType::Dataset => EntryType::Dataset,
            EntryType::Manual => EntryType::Manual,
            EntryType::Misc => EntryType::Misc,
            EntryType::Online => EntryType::Online,
            EntryType::Patent => EntryType::Patent,
            EntryType::Periodical => EntryType::Periodical,
            EntryType::SuppPeriodical => EntryType::SuppPeriodical,
            EntryType::Proceedings => EntryType::Proceedings,
            EntryType::MvProceedings => EntryType::MvProceedings,
            EntryType::InProceedings => EntryType::InProceedings,
            EntryType::Reference => EntryType::Reference,
            EntryType::MvReference => EntryType::MvReference,
            EntryType::InReference => EntryType::InReference,
            EntryType::Report => EntryType::Report,
            EntryType::EntrySet => EntryType::EntrySet,
            EntryType::Software => EntryType::Software,
            EntryType::Thesis => EntryType::Thesis,
            EntryType::Unpublished => EntryType::Unpublished,
            EntryType::XData => EntryType::XData,
            EntryType::Conference => EntryType::InProceedings,
            EntryType::Electronic => EntryType::Online,
            EntryType::MastersThesis => EntryType::Thesis,
            EntryType::PhdThesis => EntryType::Thesis,
            EntryType::TechReport => EntryType::Report,
            EntryType::Www => EntryType::Online,
            EntryType::Unknown(s) => EntryType::Unknown(s.clone()),
        }
    }

    /// Whether entries of this type collect works under a common title.
    pub fn is_collection(&self) -> (r: bool)
        ensures
            r == spec_is_collection(*self),
    {
        match self {
            EntryType::Book | EntryType::MvBook | EntryType::Collection | EntryType::MvCollection | EntryType::Reference | EntryType::MvReference | EntryType::Proceedings | EntryType::MvProceedings => true,
            _ => false,
        }
    }

    /// Whether entries of this type span several volumes.
    pub fn is_multi_volume(&self) -> (r: bool)
        ensures
            r == spec_is_multi_volume(*self),
    {
        match self {
            EntryType::MvBook | EntryType::MvCollection | EntryType::MvReference | EntryType::MvProceedings => true,
            _ => false,
        }
    }

    /// The fields that entries of this type ask for.
    pub fn get_requirements(&self) -> (r: Requirements)
        ensures
            r@ == requirements(*self),
    {
        reveal(requirements);
        match self {
            EntryType::Article => Requirements {
                required: vec!["title", "journaltitle"],
                optional: vec!["subtitle", "titleaddon", "translator", "annotator", "commentator", "journalsubtitle", "issuetitle", "issuesubtitle", "origlanguage", "series", "volume", "number", "eid", "issue", "version", "issn", "note", "addendum", "pubstate", "doi", "eprint", "eprintclass", "eprinttype", "url", "urldate", "language"],
                forbidden: vec!["booktitle", "maintitle"],
                author_eds_field: AuthorMode::AuthorRequiredEditorOptional,
                page_chapter_field: PagesChapterMode::PagesOptional,
                needs_date: true,
            },
            EntryType::Book => Requirements {
                required: vec!["title"],
                optional: vec!["subtitle", "titleaddon", "maintitle", "mainsubtitle", "maintitleaddon", "volume", "part", "edition", "volumes", "series", "number", "publisher", "location", "isbn", "pagetotal", "translator", "annotator", "commentator", "introduction", "foreword", "afterword", "origlanguage", "note", "addendum", "pubstate", "doi", "eprint", "eprintclass", "eprinttype", "url", "urldate", "language"],
                forbidden: Vec::new(),
                author_eds_field: AuthorMode::AuthorRequiredEditorOptional,
                page_chapter_field: PagesChapterMode::PagesChapterOptional,
                needs_date: true,
            },
            EntryType::MvBook => Requirements {
                required: vec!["title"],
                optional: vec!["subtitle", "titleaddon", "edition", "volumes", "series", "number", "publisher", "location", "isbn", "pagetotal", "translator", "annotator", "commentator", "introduction", "foreword", "afterword", "origlanguage", "note", "addendum", "pubstate", "doi", "eprint", "eprintclass", "eprinttype", "url", "urldate", "language"],
                forbidden: vec!["maintitle", "mainsubtitle", "maintitleaddon", "part", "volume"],
                author_eds_field: AuthorMode::AuthorRequiredEditorOptional,
                page_chapter_field: PagesChapterMode::BothForbidden,
                needs_date: true,
            },
            EntryType::InBook => Requirements {
                required: vec!["title", "booktitle"],
                optional: vec!["subtitle", "titleaddon", "booksubtitle", "booktitleaddon", "maintitle", "mainsubtitle", "maintitleaddon", "volume", "part", "edition", "volumes", "series", "number", "publisher", "location", "isbn", "translator", "annotator", "commentator", "introduction", "foreword", "afterword", "origlanguage", "bookauthor", "note", "addendum", "pubstate", "doi", "eprint", "eprintclass", "eprinttype", "url", "urldate", "language"],
                forbidden: Vec::new(),
                author_eds_field: AuthorMode::AuthorRequiredEditorOptional,
                page_chapter_field: PagesChapterMode::PagesChapterOptional,
                needs_date: true,
            },
            EntryType::BookInBook => Requirements {
                required: vec!["title", "booktitle"],
                optional: vec!["subtitle", "titleaddon", "booksubtitle", "booktitleaddon", "maintitle", "mainsubtitle", "maintitleaddon", "volume", "part", "edition", "volumes", "series", "number", "publisher", "location", "isbn", "translator", "annotator", "commentator", "introduction", "foreword", "afterword", "origlanguage", "bookauthor", "note", "addendum", "pubstate", "doi", "eprint", "eprintclass", "eprinttype", "url", "urldate", "language"],
                forbidden: Vec::new(),
                author_eds_field: AuthorMode::AuthorRequiredEditorOptional,
                page_chapter_field: PagesChapterMode::PagesChapterOptional,
                needs_date: true,
            },
            EntryType::SuppBook => Requirements {
                required: vec!["title", "booktitle"],
                optional: vec!["subtitle", "titleaddon", "booksubtitle", "booktitleaddon", "maintitle", "mainsubtitle", "maintitleaddon", "volume", "part", "edition", "volumes", "series", "number", "publisher", "location", "isbn", "translator", "annotator", "commentator", "introduction", "foreword", "afterword", "origlanguage", "bookauthor", "note", "addendum", "pubstate", "doi", "eprint", "eprintclass", "eprinttype", "url", "urldate", "language"],
                forbidden: Vec::new(),
                author_eds_field: AuthorMode::AuthorRequiredEditorOptional,
                page_chapter_field: PagesChapterMode::PagesChapterOptional,
                needs_date: true,
            },
            EntryType::Booklet => Requirements {
                required: vec!["title"],
                optional: vec!["subtitle", "titleaddon", "howpublished", "type", "location", "pagetotal", "note", "addendum", "pubstate", "doi", "eprint", "eprintclass", "eprinttype", "url", "urldate", "language"],
                forbidden: Vec::new(),
                author_eds_field: AuthorMode::AuthorEditorRequired,
                page_chapter_field: PagesChapterMode::PagesChapterOptional,
                needs_date: true,
            },
            EntryType::Collection => Requirements {
                required: vec!["title"],
                optional: vec!["subtitle", "titleaddon", "maintitle", "mainsubtitle", "maintitleaddon", "volume", "part", "edition", "volumes", "series", "number", "publisher", "location", "isbn", "pagetotal", "translator", "annotator", "commentator", "introduction", "foreword", "afterword", "origlanguage", "note", "addendum", "pubstate", "doi", "eprint", "eprintclass", "eprinttype", "url", "urldate", "language"],
                forbidden: Vec::new(),
                author_eds_field: AuthorMode::EditorRequired,
                page_chapter_field: PagesChapterMode::PagesChapterOptional,
                needs_date: true,
            },
            EntryType::MvCollection => Requirements {
                required: vec!["title"],
                optional: vec!["subtitle", "titleaddon", "edition", "volumes", "series", "number", "publisher", "location", "isbn", "pagetotal", "translator", "annotator", "commentator", "introduction", "foreword", "afterword", "origlanguage", "note", "addendum", "pubstate", "doi", "eprint", "eprintclass", "eprinttype", "url", "urldate", "language"],
                forbidden: vec!["maintitle", "mainsubtitle", "maintitleaddon", "part", "volume"],
                author_eds_field: AuthorMode::EditorRequired,
                page_chapter_field: PagesChapterMode::BothForbidden,
                needs_date: true,
            },
            EntryType::InCollection => Requirements {
                required: vec!["title", "booktitle"],
                optional: vec!["subtitle", "titleaddon", "booksubtitle", "booktitleaddon", "maintitle", "mainsubtitle", "maintitleaddon", "volume", "part", "edition", "volumes", "series", "number", "publisher", "location", "isbn", "translator", "annotator", "commentator", "introduction", "foreword", "afterword", "origlanguage", "note", "addendum", "pubstate", "doi", "eprint", "eprintclass", "eprinttype", "url", "urldate", "language"],
                forbidden: Vec::new(),
                author_eds_field: AuthorMode::AuthorRequiredEditorOptional,
                page_chapter_field: PagesChapterMode::PagesChapterOptional,
                needs_date: true,
            },
            EntryType::SuppCollection => Requirements {
                required: vec!["title", "booktitle"],
                optional: vec!["subtitle", "titleaddon", "booksubtitle", "booktitleaddon", "maintitle", "mainsubtitle", "maintitleaddon", "volume", "part", "edition", "volumes", "series", "number", "publisher", "location", "isbn", "translator", "annotator", "commentator", "introduction", "foreword", "afterword", "origlanguage", "note", "addendum", "pubstate", "doi", "eprint", "eprintclass", "eprinttype", "url", "urldate", "language"],
                forbidden: Vec::new(),
                author_eds_field: AuthorMode::AuthorRequiredEditorOptional,
                page_chapter_field: PagesChapterMode::PagesChapterOptional,
                needs_date: true,
            },
            EntryType::Dataset => Requirements {
                required: vec!["title"],
                optional: vec!["subtitle", "titleaddon", "edition", "type", "series", "number", "version", "organization", "publisher", "location", "note", "addendum", "pubstate", "doi", "eprint", "eprintclass", "eprinttype", "url", "urldate", "language"],
                forbidden: Vec::new(),
                author_eds_field: AuthorMode::AuthorEditorRequired,
                page_chapter_field: PagesChapterMode::NoPages,
                needs_date: true,
            },
            EntryType::Manual => Requirements {
                required: vec!["title"],
                optional: vec!["subtitle", "titleaddon", "edition", "type", "series", "number", "version", "organization", "publisher", "location", "isbn", "pagetotal", "note", "addendum", "pubstate", "doi", "eprint", "eprintclass", "eprinttype", "url", "urldate", "language"],
                forbidden: Vec::new(),
                author_eds_field: AuthorMode::AuthorEditorRequired,
                page_chapter_field: PagesChapterMode::PagesChapterOptional,
                needs_date: true,
            },
            EntryType::Misc => Requirements {
                required: vec!["title"],
                optional: vec!["subtitle", "titleaddon", "howpublished", "type", "version", "organization", "location", "note", "addendum", "pubstate", "doi", "eprint", "eprintclass", "eprinttype", "url", "urldate", "language"],
                forbidden: Vec::new(),
                author_eds_field: AuthorMode::AuthorEditorRequired,
                page_chapter_field: PagesChapterMode::NoPages,
                needs_date: true,
            },
            EntryType::Online => Requirements {
                required: vec!["title", "url"],
                optional: vec!["subtitle", "titleaddon", "version", "organization", "note", "addendum", "pubstate", "doi", "eprint", "eprintclass", "eprinttype", "url", "urldate", "language"],
                forbidden: Vec::new(),
                author_eds_field: AuthorMode::AuthorEditorRequired,
                page_chapter_field: PagesChapterMode::NoPages,
                needs_date: true,
            },
            EntryType::Patent => Requirements {
                required: vec!["title", "number"],
                optional: vec!["holder", "subtitle", "titleaddon", "type", "version", "location", "note", "addendum", "pubstate", "doi", "eprint", "eprintclass", "eprinttype", "url", "urldate", "language"],
                forbidden: Vec::new(),
                author_eds_field: AuthorMode::AuthorRequired,
                page_chapter_field: PagesChapterMode::NoPages,
                needs_date: true,
            },
            EntryType::Periodical => Requirements {
                required: vec!["title"],
                optional: vec!["subtitle", "titleaddon", "issuetitle", "issuesubtitle", "series", "volume", "number", "issue", "issn", "note", "addendum", "pubstate", "doi", "eprint", "eprintclass", "eprinttype", "url", "urldate", "language"],
                forbidden: vec!["maintitle", "booktitle"],
                author_eds_field: AuthorMode::EditorRequiredAuthorForbidden,
                page_chapter_field: PagesChapterMode::BothForbidden,
                needs_date: true,
            },
            EntryType::SuppPeriodical => Requirements {
                required: vec!["title", "journaltitle"],
                optional: vec!["subtitle", "titleaddon", "translator", "annotator", "commentator", "journalsubtitle", "issuetitle", "issuesubtitle", "origlanguage", "series", "volume", "number", "eid", "issue", "version", "issn", "note", "addendum", "pubstate", "doi", "eprint", "eprintclass", "eprinttype", "url", "urldate", "language"],
                forbidden: vec!["booktitle", "maintitle"],
                author_eds_field: AuthorMode::AuthorRequired,
                page_chapter_field: PagesChapterMode::PagesOptional,
                needs_date: true,
            },
            EntryType::Proceedings => Requirements {
                required: vec!["title"],
                optional: vec!["subtitle", "titleaddon", "maintitle", "mainsubtitle", "maintitleaddon", "eventtitle", "eventtitleaddon", "venue", "volume", "part", "volumes", "series", "number", "organization", "publisher", "location", "isbn", "pagetotal", "editor", "note", "addendum", "pubstate", "doi", "eprint", "eprintclass", "eprinttype", "url", "urldate", "language"],
                forbidden: Vec::new(),
                author_eds_field: AuthorMode::NoneWanted,
                page_chapter_field: PagesChapterMode::PagesChapterOptional,
                needs_date: true,
            },
            EntryType::MvProceedings => Requirements {
                required: vec!["title"],
                optional: vec!["subtitle", "titleaddon", "eventtitle", "eventtitleaddon", "venue", "volumes", "series", "number", "organization", "publisher", "location", "isbn", "pagetotal", "editor", "note", "addendum", "pubstate", "doi", "eprint", "eprintclass", "eprinttype", "url", "urldate", "language"],
                forbidden: vec!["maintitle", "mainsubtitle", "maintitleaddon", "part", "volume"],
                author_eds_field: AuthorMode::NoneWanted,
                page_chapter_field: PagesChapterMode::BothForbidden,
                needs_date: true,
            },
            EntryType::InProceedings => Requirements {
                required: vec!["title", "booktitle"],
                optional: vec!["subtitle", "titleaddon", "booksubtitle", "booktitleaddon", "maintitle", "mainsubtitle", "maintitleaddon", "eventtitle", "eventtitleaddon", "venue", "volume", "part", "volumes", "series", "number", "organization", "publisher", "location", "isbn", "note", "addendum", "pubstate", "doi", "eprint", "eprintclass", "eprinttype", "url", "urldate", "language"],
                forbidden: Vec::new(),
                author_eds_field: AuthorMode::AuthorRequiredEditorOptional,
                page_chapter_field: PagesChapterMode::PagesChapterOptional,
                needs_date: true,
            },
            EntryType::Reference => Requirements {
                required: vec!["title"],
                optional: vec!["subtitle", "titleaddon", "maintitle", "mainsubtitle", "maintitleaddon", "volume", "part", "edition", "volumes", "series", "number", "publisher", "location", "isbn", "pagetotal", "translator", "annotator", "commentator", "introduction", "foreword", "afterword", "origlanguage", "note", "addendum", "pubstate", "doi", "eprint", "eprintclass", "eprinttype", "url", "urldate", "language"],
                forbidden: Vec::new(),
                author_eds_field: AuthorMode::EditorRequired,
                page_chapter_field: PagesChapterMode::PagesChapterOptional,
                needs_date: true,
            },
            EntryType::MvReference => Requirements {
                required: vec!["title"],
                optional: vec!["subtitle", "titleaddon", "edition", "volumes", "series", "number", "publisher", "location", "isbn", "pagetotal", "translator", "annotator", "commentator", "introduction", "foreword", "afterword", "origlanguage", "note", "addendum", "pubstate", "doi", "eprint", "eprintclass", "eprinttype", "url", "urldate", "language"],
                forbidden: vec!["maintitle", "mainsubtitle", "maintitleaddon", "part", "volume"],
                author_eds_field: AuthorMode::EditorRequired,
                page_chapter_field: PagesChapterMode::BothForbidden,
                needs_date: true,
            },
            EntryType::InReference => Requirements {
                required: vec!["title", "booktitle"],
                optional: vec!["subtitle", "titleaddon", "booksubtitle", "booktitleaddon", "maintitle", "mainsubtitle", "maintitleaddon", "volume", "part", "edition", "volumes", "series", "number", "publisher", "location", "isbn", "translator", "annotator", "commentator", "introduction", "foreword", "afterword", "origlanguage", "note", "addendum", "pubstate", "doi", "eprint", "eprintclass", "eprinttype", "url", "urldate", "language"],
                forbidden: Vec::new(),
                author_eds_field: AuthorMode::AuthorRequiredEditorOptional,
                page_chapter_field: PagesChapterMode::PagesChapterOptional,
                needs_date: true,
            },
            EntryType::Report => Requirements {
                required: vec!["title", "type", "institution"],
                optional: vec!["subtitle", "titleaddon", "number", "version", "location", "isrn", "pagetotal", "note", "addendum", "pubstate", "doi", "eprint", "eprintclass", "eprinttype", "url", "urldate", "language"],
                forbidden: Vec::new(),
                author_eds_field: AuthorMode::AuthorRequired,
                page_chapter_field: PagesChapterMode::PagesChapterOptional,
                needs_date: true,
            },
            EntryType::EntrySet => Requirements {
                required: Vec::new(),
                optional: Vec::new(),
                forbidden: Vec::new(),
                author_eds_field: AuthorMode::NoneWanted,
                page_chapter_field: PagesChapterMode::NoPages,
                needs_date: false,
            },
            EntryType::Software => Requirements {
                required: vec!["title"],
                optional: vec!["subtitle", "titleaddon", "howpublished", "type", "version", "organization", "location", "note", "addendum", "pubstate", "doi", "eprint", "eprintclass", "eprinttype", "url", "urldate", "language"],
                forbidden: Vec::new(),
                author_eds_field: AuthorMode::AuthorEditorRequired,
                page_chapter_field: PagesChapterMode::NoPages,
                needs_date: true,
            },
            EntryType::Thesis => Requirements {
                required: vec!["title", "school"],
                optional: vec!["subtitle", "titleaddon", "type", "location", "isbn", "pagetotal", "note", "addendum", "pubstate", "doi", "eprint", "eprintclass", "eprinttype", "url", "urldate", "language"],
                forbidden: Vec::new(),
                author_eds_field: AuthorMode::AuthorRequired,
                page_chapter_field: PagesChapterMode::PagesChapterOptional,
                needs_date: true,
            },
            EntryType::Unpublished => Requirements {
                required: vec!["title"],
                optional: vec!["subtitle", "titleaddon", "type", "eventtitle", "venue", "howpublished", "location", "note", "addendum", "pubstate", "doi", "eprint", "eprintclass", "eprinttype", "url", "urldate", "language"],
                forbidden: Vec::new(),
                author_eds_field: AuthorMode::AuthorRequired,
                page_chapter_field: PagesChapterMode::NoPages,
                needs_date: true,
            },
            EntryType::XData => Requirements {
                required: Vec::new(),
                optional: Vec::new(),
                forbidden: Vec::new(),
                author_eds_field: AuthorMode::NoneWanted,
                page_chapter_field: PagesChapterMode::NoPages,
                needs_date: false,
            },
            EntryType::Conference => Requirements {
                required: vec!["title", "booktitle"],
                optional: vec!["subtitle", "titleaddon", "booksubtitle", "booktitleaddon", "maintitle", "mainsubtitle", "maintitleaddon", "eventtitle", "eventtitleaddon", "venue", "volume", "part", "volumes", "series", "number", "organization", "publisher", "location", "isbn", "note", "addendum", "pubstate", "doi", "eprint", "eprintclass", "eprinttype", "url", "urldate", "language"],
                forbidden: Vec::new(),
                author_eds_field: AuthorMode::AuthorRequiredEditorOptional,
                page_chapter_field: PagesChapterMode::PagesChapterOptional,
                needs_date: true,
            },
            EntryType::Electronic => Requirements {
                required: vec!["title", "url"],
                optional: vec!["subtitle", "titleaddon", "version", "organization", "note", "addendum", "pubstate", "doi", "eprint", "eprintclass", "eprinttype", "url", "urldate", "language"],
                forbidden: Vec::new(),
                author_eds_field: AuthorMode::AuthorEditorRequired,
                page_chapter_field: PagesChapterMode::NoPages,
                needs_date: true,
            },
            EntryType::MastersThesis => Requirements {
                required: vec!["title", "school"],
                optional: vec!["subtitle", "titleaddon", "type", "location", "isbn", "pagetotal", "note", "addendum", "pubstate", "doi", "eprint", "eprintclass", "eprinttype", "url", "urldate", "language"],
                forbidden: Vec::new(),
                author_eds_field: AuthorMode::AuthorRequired,
                page_chapter_field: PagesChapterMode::PagesChapterOptional,
                needs_date: true,
            },
            EntryType::PhdThesis => Requirements {
                required: vec!["title", "school"],
                optional: vec!["subtitle", "titleaddon", "type", "location", "isbn", "pagetotal", "note", "addendum", "pubstate", "doi", "eprint", "eprintclass", "eprinttype", "url", "urldate", "language"],
                forbidden: Vec::new(),
                author_eds_field: AuthorMode::AuthorRequired,
                page_chapter_field: PagesChapterMode::PagesChapterOptional,
                needs_date: true,
            },
            EntryType::TechReport => Requirements {
                required: vec!["title", "type", "institution"],
                optional: vec!["subtitle", "titleaddon", "number", "version", "location", "isrn", "pagetotal", "note", "addendum", "pubstate", "doi", "eprint", "eprintclass", "eprinttype", "url", "urldate", "language"],
                forbidden: Vec::new(),
                author_eds_field: AuthorMode::AuthorRequired,
                page_chapter_field: PagesChapterMode::PagesChapterOptional,
                needs_date: true,
            },
            EntryType::Www => Requirements {
                required: vec!["title", "url"],
                optional: vec!["subtitle", "titleaddon", "version", "organization", "note", "addendum", "pubstate", "doi", "eprint", "eprintclass", "eprinttype", "url", "urldate", "language"],
                forbidden: Vec::new(),
                author_eds_field: AuthorMode::AuthorEditorRequired,
                page_chapter_field: PagesChapterMode::NoPages,
                needs_date: true,
            },
            EntryType::Unknown(_) => Requirements {
                required: vec!["title"],
                optional: vec!["subtitle", "titleaddon", "howpublished", "type", "version", "organization", "location", "note", "addendum", "pubstate", "doi", "eprint", "eprintclass", "eprinttype", "url", "urldate", "language"],
                forbidden: Vec::new(),
                author_eds_field: AuthorMode::AuthorEditorRequired,
                page_chapter_field: PagesChapterMode::NoPages,
                needs_date: true,
            },
        }
    }
}


/// Whether two entry types are the same; unknown types are compared by
/// their names.
pub open spec fn same_type(a: EntryType, b: EntryType) -> bool {
    match (a, b) {
        (EntryType::Unknown(x), EntryType::Unknown(y)) => x@ == y@,
        _ => a == b,
    }
}

impl EntryType {
    /// Whether `self` and `b` are the same entry type.
    pub fn same_as(&self, b: &EntryType) -> (r: bool)
        ensures
            r == same_type(*self, *b),
    {
        match self {
            EntryType::Article => matches!(b, EntryType::Article),
            EntryType::Book => matches!(b, EntryType::Book),
            EntryType::MvBook => matches!(b, EntryType::MvBook),
            EntryType::InBook => matches!(b, EntryType::InBook),
            EntryType::BookInBook => matches!(b, EntryType::BookInBook),
            EntryType::SuppBook => matches!(b, EntryType::SuppBook),
            EntryType::Booklet => matches!(b, EntryType::Booklet),
            EntryType::Collection => matches!(b, EntryType::Collection),
            EntryType::MvCollection => matches!(b, EntryType::MvCollection),
            EntryType::InCollection => matches!(b, EntryType::InCollection),
            EntryType::SuppCollection => matches!(b, EntryType::SuppCollection),
            EntryType::Dataset => matches!(b, EntryType::Dataset),
            EntryType::Manual => matches!(b, EntryType::Manual),
            EntryType::Misc => matches!(b, EntryType::Misc),
            EntryType::Online => matches!(b, EntryType::Online),
            EntryType::Patent => matches!(b, EntryType::Patent),
            EntryType::Periodical => matches!(b, EntryType::Periodical),
            EntryType::SuppPeriodical => matches!(b, EntryType::SuppPeriodical),
            EntryType::Proceedings => matches!(b, EntryType::Proceedings),
            EntryType::MvProceedings => matches!(b, EntryType::MvProceedings),
            EntryType::InProceedings => matches!(b, EntryType::InProceedings),
            EntryType::Reference => matches!(b, EntryType::Reference),
            EntryType::MvReference => matches!(b, EntryType::MvReference),
            EntryType::InReference => matches!(b, EntryType::InReference),
            EntryType::Report => matches!(b, EntryType::Report),
            EntryType::EntrySet => matches!(b, EntryType::EntrySet),
            EntryType::Software => matches!(b, EntryType::Software),
            EntryType::Thesis => matches!(b, EntryType::Thesis),
            EntryType::Unpublished => matches!(b, EntryType::Unpublished),
            EntryType::XData => matches!(b, EntryType::XData),
            EntryType::Conference => matches!(b, EntryType::Conference),
            EntryType::Electronic => matches!(b, EntryType::Electronic),
            EntryType::MastersThesis => matches!(b, EntryType::MastersThesis),
            EntryType::PhdThesis => matches!(b, EntryType::PhdThesis),
            EntryType::TechReport => matches!(b, EntryType::TechReport),
            EntryType::Www => matches!(b, EntryType::Www),
            EntryType::Unknown(x) => match b {
                EntryType::Unknown(y) => crate::text::str_eq(x.as_str(), y.as_str()),
                _ => false,
            },
        }
    }
}

} // verus!
