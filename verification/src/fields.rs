//! Typed access to the named fields of an entry.
use vstd::prelude::*;

use crate::chunk::{chunks_view, Chunk};
use crate::entry::{either, ev_set, fetch, reports, reports_chunks, Entry, RetrievalError};
use crate::types::{Gender, IntOrChunks, Pagination, Person, Type, TypeError};

verus! {

impl Entry {
    /// Get and parse the `author` field.
    pub fn get_author(&self) -> (r: Result<Vec<Person>, RetrievalError>)
        ensures
            reports(r, fetch::<Vec<Person>>(self@.get("author"@)), "author"@),
    {
        self.get_as::<Vec<Person>>("author")
    }

    /// Set a value in the `author` field.
    pub fn set_author(&mut self, item: Vec<Person>) -> (r: Result<(), TypeError>)
        ensures
            match <Vec<Person> as Type>::spec_to_chunks(item.model()) {
                Some(c) => r is Ok && final(self)@ == ev_set(old(self)@, "author"@, c),
                None => r is Err && final(self)@ == old(self)@,
            },
    {
        self.set_as("author", &item)
    }

    /// Get the `booktitle` field.
    pub fn get_book_title(&self) -> (r: Result<&[Chunk], RetrievalError>)
        ensures
            reports_chunks(r, self@.get("booktitle"@), "booktitle"@),
    {
        self.get_chunks("booktitle")
    }

    /// Set a value in the `booktitle` field.
    pub fn set_book_title(&mut self, item: Vec<Chunk>) -> (r: Result<(), TypeError>)
        ensures
            r is Ok,
            final(self)@ == ev_set(old(self)@, "booktitle"@, chunks_view(item@)),
    {
        self.set("booktitle", item);
        Ok(())
    }

    /// Get the `chapter` field.
    pub fn get_chapter(&self) -> (r: Result<&[Chunk], RetrievalError>)
        ensures
            reports_chunks(r, self@.get("chapter"@), "chapter"@),
    {
        self.get_chunks("chapter")
    }

    /// Set a value in the `chapter` field.
    pub fn set_chapter(&mut self, item: Vec<Chunk>) -> (r: Result<(), TypeError>)
        ensures
            r is Ok,
            final(self)@ == ev_set(old(self)@, "chapter"@, chunks_view(item@)),
    {
        self.set("chapter", item);
        Ok(())
    }

    /// Get and parse the `edition` field.
    pub fn get_edition(&self) -> (r: Result<IntOrChunks, RetrievalError>)
        ensures
            reports(r, fetch::<IntOrChunks>(self@.get("edition"@)), "edition"@),
    {
        self.get_as::<IntOrChunks>("edition")
    }

    /// Set a value in the `edition` field.
    pub fn set_edition(&mut self, item: IntOrChunks) -> (r: Result<(), TypeError>)
        ensures
            match <IntOrChunks as Type>::spec_to_chunks(item.model()) {
                Some(c) => r is Ok && final(self)@ == ev_set(old(self)@, "edition"@, c),
                None => r is Err && final(self)@ == old(self)@,
            },
    {
        self.set_as("edition", &item)
    }

    /// Get the `howpublished` field.
    pub fn get_how_published(&self) -> (r: Result<&[Chunk], RetrievalError>)
        ensures
            reports_chunks(r, self@.get("howpublished"@), "howpublished"@),
    {
        self.get_chunks("howpublished")
    }

    /// Set a value in the `howpublished` field.
    pub fn set_how_published(&mut self, item: Vec<Chunk>) -> (r: Result<(), TypeError>)
        ensures
            r is Ok,
            final(self)@ == ev_set(old(self)@, "howpublished"@, chunks_view(item@)),
    {
        self.set("howpublished", item);
        Ok(())
    }

    /// Get the `note` field.
    pub fn get_note(&self) -> (r: Result<&[Chunk], RetrievalError>)
        ensures
            reports_chunks(r, self@.get("note"@), "note"@),
    {
        self.get_chunks("note")
    }

    /// Set a value in the `note` field.
    pub fn set_note(&mut self, item: Vec<Chunk>) -> (r: Result<(), TypeError>)
        ensures
            r is Ok,
            final(self)@ == ev_set(old(self)@, "note"@, chunks_view(item@)),
    {
        self.set("note", item);
        Ok(())
    }

    /// Get the `number` field.
    pub fn get_number(&self) -> (r: Result<&[Chunk], RetrievalError>)
        ensures
            reports_chunks(r, self@.get("number"@), "number"@),
    {
        self.get_chunks("number")
    }

    /// Set a value in the `number` field.
    pub fn set_number(&mut self, item: Vec<Chunk>) -> (r: Result<(), TypeError>)
        ensures
            r is Ok,
            final(self)@ == ev_set(old(self)@, "number"@, chunks_view(item@)),
    {
        self.set("number", item);
        Ok(())
    }

    /// Get and parse the `organization` field.
    pub fn get_organization(&self) -> (r: Result<Vec<Vec<Chunk>>, RetrievalError>)
        ensures
            reports(r, fetch::<Vec<Vec<Chunk>>>(self@.get("organization"@)), "organization"@),
    {
        self.get_as::<Vec<Vec<Chunk>>>("organization")
    }

    /// Set a value in the `organization` field.
    pub fn set_organization(&mut self, item: Vec<Vec<Chunk>>) -> (r: Result<(), TypeError>)
        ensures
            match <Vec<Vec<Chunk>> as Type>::spec_to_chunks(item.model()) {
                Some(c) => r is Ok && final(self)@ == ev_set(old(self)@, "organization"@, c),
                None => r is Err && final(self)@ == old(self)@,
            },
    {
        self.set_as("organization", &item)
    }

    /// Get and parse the `pages` field.
    pub fn get_pages(&self) -> (r: Result<Vec<std::ops::Range<u32>>, RetrievalError>)
        ensures
            reports(r, fetch::<Vec<std::ops::Range<u32>>>(self@.get("pages"@)), "pages"@),
    {
        self.get_as::<Vec<std::ops::Range<u32>>>("pages")
    }

    /// Set a value in the `pages` field.
    pub fn set_pages(&mut self, item: Vec<std::ops::Range<u32>>) -> (r: Result<(), TypeError>)
        ensures
            match <Vec<std::ops::Range<u32>> as Type>::spec_to_chunks(item.model()) {
                Some(c) => r is Ok && final(self)@ == ev_set(old(self)@, "pages"@, c),
                None => r is Err && final(self)@ == old(self)@,
            },
    {
        self.set_as("pages", &item)
    }

    /// Get and parse the `publisher` field.
    pub fn get_publisher(&self) -> (r: Result<Vec<Vec<Chunk>>, RetrievalError>)
        ensures
            reports(r, fetch::<Vec<Vec<Chunk>>>(self@.get("publisher"@)), "publisher"@),
    {
        self.get_as::<Vec<Vec<Chunk>>>("publisher")
    }

    /// Set a value in the `publisher` field.
    pub fn set_publisher(&mut self, item: Vec<Vec<Chunk>>) -> (r: Result<(), TypeError>)
        ensures
            match <Vec<Vec<Chunk>> as Type>::spec_to_chunks(item.model()) {
                Some(c) => r is Ok && final(self)@ == ev_set(old(self)@, "publisher"@, c),
                None => r is Err && final(self)@ == old(self)@,
            },
    {
        self.set_as("publisher", &item)
    }

    /// Get the `series` field.
    pub fn get_series(&self) -> (r: Result<&[Chunk], RetrievalError>)
        ensures
            reports_chunks(r, self@.get("series"@), "series"@),
    {
        self.get_chunks("series")
    }

    /// Set a value in the `series` field.
    pub fn set_series(&mut self, item: Vec<Chunk>) -> (r: Result<(), TypeError>)
        ensures
            r is Ok,
            final(self)@ == ev_set(old(self)@, "series"@, chunks_view(item@)),
    {
        self.set("series", item);
        Ok(())
    }

    /// Get the `title` field.
    pub fn get_title(&self) -> (r: Result<&[Chunk], RetrievalError>)
        ensures
            reports_chunks(r, self@.get("title"@), "title"@),
    {
        self.get_chunks("title")
    }

    /// Set a value in the `title` field.
    pub fn set_title(&mut self, item: Vec<Chunk>) -> (r: Result<(), TypeError>)
        ensures
            r is Ok,
            final(self)@ == ev_set(old(self)@, "title"@, chunks_view(item@)),
    {
        self.set("title", item);
        Ok(())
    }

    /// Get and parse the `type` field.
    pub fn get_type(&self) -> (r: Result<String, RetrievalError>)
        ensures
            reports(r, fetch::<String>(self@.get("type"@)), "type"@),
    {
        self.get_as::<String>("type")
    }

    /// Set a value in the `type` field.
    pub fn set_type(&mut self, item: String) -> (r: Result<(), TypeError>)
        ensures
            match <String as Type>::spec_to_chunks(item.model()) {
                Some(c) => r is Ok && final(self)@ == ev_set(old(self)@, "type"@, c),
                None => r is Err && final(self)@ == old(self)@,
            },
    {
        self.set_as("type", &item)
    }

    /// Get and parse the `volume` field.
    pub fn get_volume(&self) -> (r: Result<i64, RetrievalError>)
        ensures
            reports(r, fetch::<i64>(self@.get("volume"@)), "volume"@),
    {
        self.get_as::<i64>("volume")
    }

    /// Set a value in the `volume` field.
    pub fn set_volume(&mut self, item: i64) -> (r: Result<(), TypeError>)
        ensures
            match <i64 as Type>::spec_to_chunks(item.model()) {
                Some(c) => r is Ok && final(self)@ == ev_set(old(self)@, "volume"@, c),
                None => r is Err && final(self)@ == old(self)@,
            },
    {
        self.set_as("volume", &item)
    }

    /// Get the `address` field, falling back on `location` if `address` is missing.
    pub fn get_address(&self) -> (r: Result<&[Chunk], RetrievalError>)
        ensures
            reports_chunks(r, either(self@.field_map(), "address"@, "location"@), "address"@),
    {
        self.get_either("address", "location")
    }

    /// Set a value in the `address` field.
    pub fn set_address(&mut self, item: Vec<Chunk>) -> (r: Result<(), TypeError>)
        ensures
            r is Ok,
            final(self)@ == ev_set(old(self)@, "address"@, chunks_view(item@)),
    {
        self.set("address", item);
        Ok(())
    }

    /// Get the `location` field, falling back on `address` if `location` is missing.
    pub fn get_location(&self) -> (r: Result<&[Chunk], RetrievalError>)
        ensures
            reports_chunks(r, either(self@.field_map(), "location"@, "address"@), "location"@),
    {
        self.get_either("location", "address")
    }

    /// Set a value in the `location` field.
    pub fn set_location(&mut self, item: Vec<Chunk>) -> (r: Result<(), TypeError>)
        ensures
            r is Ok,
            final(self)@ == ev_set(old(self)@, "location"@, chunks_view(item@)),
    {
        self.set("location", item);
        Ok(())
    }

    /// Get the `annotation` field, falling back on `annote` if `annotation` is missing.
    pub fn get_annotation(&self) -> (r: Result<&[Chunk], RetrievalError>)
        ensures
            reports_chunks(r, either(self@.field_map(), "annotation"@, "annote"@), "annotation"@),
    {
        self.get_either("annotation", "annote")
    }

    /// Set a value in the `annotation` field.
    pub fn set_annotation(&mut self, item: Vec<Chunk>) -> (r: Result<(), TypeError>)
        ensures
            r is Ok,
            final(self)@ == ev_set(old(self)@, "annotation"@, chunks_view(item@)),
    {
        self.set("annotation", item);
        Ok(())
    }

    /// Get the `eprinttype` field, falling back on `archiveprefix` if `eprinttype` is missing.
    pub fn get_eprint_type(&self) -> (r: Result<&[Chunk], RetrievalError>)
        ensures
            reports_chunks(r, either(self@.field_map(), "eprinttype"@, "archiveprefix"@), "eprinttype"@),
    {
        self.get_either("eprinttype", "archiveprefix")
    }

    /// Set a value in the `eprinttype` field.
    pub fn set_eprint_type(&mut self, item: Vec<Chunk>) -> (r: Result<(), TypeError>)
        ensures
            r is Ok,
            final(self)@ == ev_set(old(self)@, "eprinttype"@, chunks_view(item@)),
    {
        self.set("eprinttype", item);
        Ok(())
    }

    /// Get the `journal` field, falling back on `journaltitle` if `journal` is missing.
    pub fn get_journal(&self) -> (r: Result<&[Chunk], RetrievalError>)
        ensures
            reports_chunks(r, either(self@.field_map(), "journal"@, "journaltitle"@), "journal"@),
    {
        self.get_either("journal", "journaltitle")
    }

    /// Set a value in the `journal` field.
    pub fn set_journal(&mut self, item: Vec<Chunk>) -> (r: Result<(), TypeError>)
        ensures
            r is Ok,
            final(self)@ == ev_set(old(self)@, "journal"@, chunks_view(item@)),
    {
        self.set("journal", item);
        Ok(())
    }

    /// Get the `journaltitle` field, falling back on `journal` if `journaltitle` is missing.
    pub fn get_journal_title(&self) -> (r: Result<&[Chunk], RetrievalError>)
        ensures
            reports_chunks(r, either(self@.field_map(), "journaltitle"@, "journal"@), "journaltitle"@),
    {
        self.get_either("journaltitle", "journal")
    }

    /// Set a value in the `journaltitle` field.
    pub fn set_journal_title(&mut self, item: Vec<Chunk>) -> (r: Result<(), TypeError>)
        ensures
            r is Ok,
            final(self)@ == ev_set(old(self)@, "journaltitle"@, chunks_view(item@)),
    {
        self.set("journaltitle", item);
        Ok(())
    }

    /// Get and parse the `key` field, falling back on `sortkey` if `key` is missing.
    pub fn get_sort_key(&self) -> (r: Result<String, RetrievalError>)
        ensures
            reports(r, fetch::<String>(either(self@.field_map(), "key"@, "sortkey"@)), "key"@),
    {
        self.get_either_as::<String>("key", "sortkey")
    }

    /// Set a value in the `key` field.
    pub fn set_sort_key(&mut self, item: String) -> (r: Result<(), TypeError>)
        ensures
            match <String as Type>::spec_to_chunks(item.model()) {
                Some(c) => r is Ok && final(self)@ == ev_set(old(self)@, "key"@, c),
                None => r is Err && final(self)@ == old(self)@,
            },
    {
        self.set_as("key", &item)
    }

    /// Get and parse the `file` field, falling back on `pdf` if `file` is missing.
    pub fn get_file(&self) -> (r: Result<String, RetrievalError>)
        ensures
            reports(r, fetch::<String>(either(self@.field_map(), "file"@, "pdf"@)), "file"@),
    {
        self.get_either_as::<String>("file", "pdf")
    }

    /// Set a value in the `file` field.
    pub fn set_file(&mut self, item: String) -> (r: Result<(), TypeError>)
        ensures
            match <String as Type>::spec_to_chunks(item.model()) {
                Some(c) => r is Ok && final(self)@ == ev_set(old(self)@, "file"@, c),
                None => r is Err && final(self)@ == old(self)@,
            },
    {
        self.set_as("file", &item)
    }

    /// Get the `school` field, falling back on `institution` if `school` is missing.
    pub fn get_school(&self) -> (r: Result<&[Chunk], RetrievalError>)
        ensures
            reports_chunks(r, either(self@.field_map(), "school"@, "institution"@), "school"@),
    {
        self.get_either("school", "institution")
    }

    /// Set a value in the `school` field.
    pub fn set_school(&mut self, item: Vec<Chunk>) -> (r: Result<(), TypeError>)
        ensures
            r is Ok,
            final(self)@ == ev_set(old(self)@, "school"@, chunks_view(item@)),
    {
        self.set("school", item);
        Ok(())
    }

    /// Get the `institution` field, falling back on `school` if `institution` is missing.
    pub fn get_institution(&self) -> (r: Result<&[Chunk], RetrievalError>)
        ensures
            reports_chunks(r, either(self@.field_map(), "institution"@, "school"@), "institution"@),
    {
        self.get_either("institution", "school")
    }

    /// Set a value in the `institution` field.
    pub fn set_institution(&mut self, item: Vec<Chunk>) -> (r: Result<(), TypeError>)
        ensures
            r is Ok,
            final(self)@ == ev_set(old(self)@, "institution"@, chunks_view(item@)),
    {
        self.set("institution", item);
        Ok(())
    }

    /// Get the `abstract` field.
    pub fn get_abstract(&self) -> (r: Result<&[Chunk], RetrievalError>)
        ensures
            reports_chunks(r, self@.get("abstract"@), "abstract"@),
    {
        self.get_chunks("abstract")
    }

    /// Set a value in the `abstract` field.
    pub fn set_abstract(&mut self, item: Vec<Chunk>) -> (r: Result<(), TypeError>)
        ensures
            r is Ok,
            final(self)@ == ev_set(old(self)@, "abstract"@, chunks_view(item@)),
    {
        self.set("abstract", item);
        Ok(())
    }

    /// Get the `addendum` field.
    pub fn get_addendum(&self) -> (r: Result<&[Chunk], RetrievalError>)
        ensures
            reports_chunks(r, self@.get("addendum"@), "addendum"@),
    {
        self.get_chunks("addendum")
    }

    /// Set a value in the `addendum` field.
    pub fn set_addendum(&mut self, item: Vec<Chunk>) -> (r: Result<(), TypeError>)
        ensures
            r is Ok,
            final(self)@ == ev_set(old(self)@, "addendum"@, chunks_view(item@)),
    {
        self.set("addendum", item);
        Ok(())
    }

    /// Get and parse the `afterword` field.
    pub fn get_afterword(&self) -> (r: Result<Vec<Person>, RetrievalError>)
        ensures
            reports(r, fetch::<Vec<Person>>(self@.get("afterword"@)), "afterword"@),
    {
        self.get_as::<Vec<Person>>("afterword")
    }

    /// Set a value in the `afterword` field.
    pub fn set_afterword(&mut self, item: Vec<Person>) -> (r: Result<(), TypeError>)
        ensures
            match <Vec<Person> as Type>::spec_to_chunks(item.model()) {
                Some(c) => r is Ok && final(self)@ == ev_set(old(self)@, "afterword"@, c),
                None => r is Err && final(self)@ == old(self)@,
            },
    {
        self.set_as("afterword", &item)
    }

    /// Get and parse the `annotator` field.
    pub fn get_annotator(&self) -> (r: Result<Vec<Person>, RetrievalError>)
        ensures
            reports(r, fetch::<Vec<Person>>(self@.get("annotator"@)), "annotator"@),
    {
        self.get_as::<Vec<Person>>("annotator")
    }

    /// Set a value in the `annotator` field.
    pub fn set_annotator(&mut self, item: Vec<Person>) -> (r: Result<(), TypeError>)
        ensures
            match <Vec<Person> as Type>::spec_to_chunks(item.model()) {
                Some(c) => r is Ok && final(self)@ == ev_set(old(self)@, "annotator"@, c),
                None => r is Err && final(self)@ == old(self)@,
            },
    {
        self.set_as("annotator", &item)
    }

    /// Get and parse the `authortype` field.
    pub fn get_author_type(&self) -> (r: Result<String, RetrievalError>)
        ensures
            reports(r, fetch::<String>(self@.get("authortype"@)), "authortype"@),
    {
        self.get_as::<String>("authortype")
    }

    /// Set a value in the `authortype` field.
    pub fn set_author_type(&mut self, item: String) -> (r: Result<(), TypeError>)
        ensures
            match <String as Type>::spec_to_chunks(item.model()) {
                Some(c) => r is Ok && final(self)@ == ev_set(old(self)@, "authortype"@, c),
                None => r is Err && final(self)@ == old(self)@,
            },
    {
        self.set_as("authortype", &item)
    }

    /// Get and parse the `bookauthor` field.
    pub fn get_book_author(&self) -> (r: Result<Vec<Person>, RetrievalError>)
        ensures
            reports(r, fetch::<Vec<Person>>(self@.get("bookauthor"@)), "bookauthor"@),
    {
        self.get_as::<Vec<Person>>("bookauthor")
    }

    /// Set a value in the `bookauthor` field.
    pub fn set_book_author(&mut self, item: Vec<Person>) -> (r: Result<(), TypeError>)
        ensures
            match <Vec<Person> as Type>::spec_to_chunks(item.model()) {
                Some(c) => r is Ok && final(self)@ == ev_set(old(self)@, "bookauthor"@, c),
                None => r is Err && final(self)@ == old(self)@,
            },
    {
        self.set_as("bookauthor", &item)
    }

    /// Get and parse the `bookpagination` field.
    pub fn get_book_pagination(&self) -> (r: Result<Pagination, RetrievalError>)
        ensures
            reports(r, fetch::<Pagination>(self@.get("bookpagination"@)), "bookpagination"@),
    {
        self.get_as::<Pagination>("bookpagination")
    }

    /// Set a value in the `bookpagination` field.
    pub fn set_book_pagination(&mut self, item: Pagination) -> (r: Result<(), TypeError>)
        ensures
            match <Pagination as Type>::spec_to_chunks(item.model()) {
                Some(c) => r is Ok && final(self)@ == ev_set(old(self)@, "bookpagination"@, c),
                None => r is Err && final(self)@ == old(self)@,
            },
    {
        self.set_as("bookpagination", &item)
    }

    /// Get the `booksubtitle` field.
    pub fn get_book_subtitle(&self) -> (r: Result<&[Chunk], RetrievalError>)
        ensures
            reports_chunks(r, self@.get("booksubtitle"@), "booksubtitle"@),
    {
        self.get_chunks("booksubtitle")
    }

    /// Set a value in the `booksubtitle` field.
    pub fn set_book_subtitle(&mut self, item: Vec<Chunk>) -> (r: Result<(), TypeError>)
        ensures
            r is Ok,
            final(self)@ == ev_set(old(self)@, "booksubtitle"@, chunks_view(item@)),
    {
        self.set("booksubtitle", item);
        Ok(())
    }

    /// Get the `booktitleaddon` field.
    pub fn get_book_title_addon(&self) -> (r: Result<&[Chunk], RetrievalError>)
        ensures
            reports_chunks(r, self@.get("booktitleaddon"@), "booktitleaddon"@),
    {
        self.get_chunks("booktitleaddon")
    }

    /// Set a value in the `booktitleaddon` field.
    pub fn set_book_title_addon(&mut self, item: Vec<Chunk>) -> (r: Result<(), TypeError>)
        ensures
            r is Ok,
            final(self)@ == ev_set(old(self)@, "booktitleaddon"@, chunks_view(item@)),
    {
        self.set("booktitleaddon", item);
        Ok(())
    }

    /// Get and parse the `commentator` field.
    pub fn get_commentator(&self) -> (r: Result<Vec<Person>, RetrievalError>)
        ensures
            reports(r, fetch::<Vec<Person>>(self@.get("commentator"@)), "commentator"@),
    {
        self.get_as::<Vec<Person>>("commentator")
    }

    /// Set a value in the `commentator` field.
    pub fn set_commentator(&mut self, item: Vec<Person>) -> (r: Result<(), TypeError>)
        ensures
            match <Vec<Person> as Type>::spec_to_chunks(item.model()) {
                Some(c) => r is Ok && final(self)@ == ev_set(old(self)@, "commentator"@, c),
                None => r is Err && final(self)@ == old(self)@,
            },
    {
        self.set_as("commentator", &item)
    }

    /// Get and parse the `doi` field.
    pub fn get_doi(&self) -> (r: Result<String, RetrievalError>)
        ensures
            reports(r, fetch::<String>(self@.get("doi"@)), "doi"@),
    {
        self.get_as::<String>("doi")
    }

    /// Set a value in the `doi` field.
    pub fn set_doi(&mut self, item: String) -> (r: Result<(), TypeError>)
        ensures
            match <String as Type>::spec_to_chunks(item.model()) {
                Some(c) => r is Ok && final(self)@ == ev_set(old(self)@, "doi"@, c),
                None => r is Err && final(self)@ == old(self)@,
            },
    {
        self.set_as("doi", &item)
    }

    /// Get the `eid` field.
    pub fn get_eid(&self) -> (r: Result<&[Chunk], RetrievalError>)
        ensures
            reports_chunks(r, self@.get("eid"@), "eid"@),
    {
        self.get_chunks("eid")
    }

    /// Set a value in the `eid` field.
    pub fn set_eid(&mut self, item: Vec<Chunk>) -> (r: Result<(), TypeError>)
        ensures
            r is Ok,
            final(self)@ == ev_set(old(self)@, "eid"@, chunks_view(item@)),
    {
        self.set("eid", item);
        Ok(())
    }

    /// Get the `entrysubtype` field.
    pub fn get_entry_subtype(&self) -> (r: Result<&[Chunk], RetrievalError>)
        ensures
            reports_chunks(r, self@.get("entrysubtype"@), "entrysubtype"@),
    {
        self.get_chunks("entrysubtype")
    }

    /// Set a value in the `entrysubtype` field.
    pub fn set_entry_subtype(&mut self, item: Vec<Chunk>) -> (r: Result<(), TypeError>)
        ensures
            r is Ok,
            final(self)@ == ev_set(old(self)@, "entrysubtype"@, chunks_view(item@)),
    {
        self.set("entrysubtype", item);
        Ok(())
    }

    /// Get and parse the `eprint` field.
    pub fn get_eprint(&self) -> (r: Result<String, RetrievalError>)
        ensures
            reports(r, fetch::<String>(self@.get("eprint"@)), "eprint"@),
    {
        self.get_as::<String>("eprint")
    }

    /// Set a value in the `eprint` field.
    pub fn set_eprint(&mut self, item: String) -> (r: Result<(), TypeError>)
        ensures
            match <String as Type>::spec_to_chunks(item.model()) {
                Some(c) => r is Ok && final(self)@ == ev_set(old(self)@, "eprint"@, c),
                None => r is Err && final(self)@ == old(self)@,
            },
    {
        self.set_as("eprint", &item)
    }

    /// Get the `eprintclass` field.
    pub fn get_eprint_class(&self) -> (r: Result<&[Chunk], RetrievalError>)
        ensures
            reports_chunks(r, self@.get("eprintclass"@), "eprintclass"@),
    {
        self.get_chunks("eprintclass")
    }

    /// Set a value in the `eprintclass` field.
    pub fn set_eprint_class(&mut self, item: Vec<Chunk>) -> (r: Result<(), TypeError>)
        ensures
            r is Ok,
            final(self)@ == ev_set(old(self)@, "eprintclass"@, chunks_view(item@)),
    {
        self.set("eprintclass", item);
        Ok(())
    }

    /// Get the `eventtitle` field.
    pub fn get_eventtitle(&self) -> (r: Result<&[Chunk], RetrievalError>)
        ensures
            reports_chunks(r, self@.get("eventtitle"@), "eventtitle"@),
    {
        self.get_chunks("eventtitle")
    }

    /// Set a value in the `eventtitle` field.
    pub fn set_eventtitle(&mut self, item: Vec<Chunk>) -> (r: Result<(), TypeError>)
        ensures
            r is Ok,
            final(self)@ == ev_set(old(self)@, "eventtitle"@, chunks_view(item@)),
    {
        self.set("eventtitle", item);
        Ok(())
    }

    /// Get the `eventtitleaddon` field.
    pub fn get_eventtitle_addon(&self) -> (r: Result<&[Chunk], RetrievalError>)
        ensures
            reports_chunks(r, self@.get("eventtitleaddon"@), "eventtitleaddon"@),
    {
        self.get_chunks("eventtitleaddon")
    }

    /// Set a value in the `eventtitleaddon` field.
    pub fn set_eventtitle_addon(&mut self, item: Vec<Chunk>) -> (r: Result<(), TypeError>)
        ensures
            r is Ok,
            final(self)@ == ev_set(old(self)@, "eventtitleaddon"@, chunks_view(item@)),
    {
        self.set("eventtitleaddon", item);
        Ok(())
    }

    /// Get and parse the `foreword` field.
    pub fn get_foreword(&self) -> (r: Result<Vec<Person>, RetrievalError>)
        ensures
            reports(r, fetch::<Vec<Person>>(self@.get("foreword"@)), "foreword"@),
    {
        self.get_as::<Vec<Person>>("foreword")
    }

    /// Set a value in the `foreword` field.
    pub fn set_foreword(&mut self, item: Vec<Person>) -> (r: Result<(), TypeError>)
        ensures
            match <Vec<Person> as Type>::spec_to_chunks(item.model()) {
                Some(c) => r is Ok && final(self)@ == ev_set(old(self)@, "foreword"@, c),
                None => r is Err && final(self)@ == old(self)@,
            },
    {
        self.set_as("foreword", &item)
    }

    /// Get and parse the `holder` field.
    pub fn get_holder(&self) -> (r: Result<Vec<Person>, RetrievalError>)
        ensures
            reports(r, fetch::<Vec<Person>>(self@.get("holder"@)), "holder"@),
    {
        self.get_as::<Vec<Person>>("holder")
    }

    /// Set a value in the `holder` field.
    pub fn set_holder(&mut self, item: Vec<Person>) -> (r: Result<(), TypeError>)
        ensures
            match <Vec<Person> as Type>::spec_to_chunks(item.model()) {
                Some(c) => r is Ok && final(self)@ == ev_set(old(self)@, "holder"@, c),
                None => r is Err && final(self)@ == old(self)@,
            },
    {
        self.set_as("holder", &item)
    }

    /// Get the `indextitle` field.
    pub fn get_index_title(&self) -> (r: Result<&[Chunk], RetrievalError>)
        ensures
            reports_chunks(r, self@.get("indextitle"@), "indextitle"@),
    {
        self.get_chunks("indextitle")
    }

    /// Set a value in the `indextitle` field.
    pub fn set_index_title(&mut self, item: Vec<Chunk>) -> (r: Result<(), TypeError>)
        ensures
            r is Ok,
            final(self)@ == ev_set(old(self)@, "indextitle"@, chunks_view(item@)),
    {
        self.set("indextitle", item);
        Ok(())
    }

    /// Get and parse the `introduction` field.
    pub fn get_introduction(&self) -> (r: Result<Vec<Person>, RetrievalError>)
        ensures
            reports(r, fetch::<Vec<Person>>(self@.get("introduction"@)), "introduction"@),
    {
        self.get_as::<Vec<Person>>("introduction")
    }

    /// Set a value in the `introduction` field.
    pub fn set_introduction(&mut self, item: Vec<Person>) -> (r: Result<(), TypeError>)
        ensures
            match <Vec<Person> as Type>::spec_to_chunks(item.model()) {
                Some(c) => r is Ok && final(self)@ == ev_set(old(self)@, "introduction"@, c),
                None => r is Err && final(self)@ == old(self)@,
            },
    {
        self.set_as("introduction", &item)
    }

    /// Get the `isan` field.
    pub fn get_isan(&self) -> (r: Result<&[Chunk], RetrievalError>)
        ensures
            reports_chunks(r, self@.get("isan"@), "isan"@),
    {
        self.get_chunks("isan")
    }

    /// Set a value in the `isan` field.
    pub fn set_isan(&mut self, item: Vec<Chunk>) -> (r: Result<(), TypeError>)
        ensures
            r is Ok,
            final(self)@ == ev_set(old(self)@, "isan"@, chunks_view(item@)),
    {
        self.set("isan", item);
        Ok(())
    }

    /// Get the `isbn` field.
    pub fn get_isbn(&self) -> (r: Result<&[Chunk], RetrievalError>)
        ensures
            reports_chunks(r, self@.get("isbn"@), "isbn"@),
    {
        self.get_chunks("isbn")
    }

    /// Set a value in the `isbn` field.
    pub fn set_isbn(&mut self, item: Vec<Chunk>) -> (r: Result<(), TypeError>)
        ensures
            r is Ok,
            final(self)@ == ev_set(old(self)@, "isbn"@, chunks_view(item@)),
    {
        self.set("isbn", item);
        Ok(())
    }

    /// Get the `ismn` field.
    pub fn get_ismn(&self) -> (r: Result<&[Chunk], RetrievalError>)
        ensures
            reports_chunks(r, self@.get("ismn"@), "ismn"@),
    {
        self.get_chunks("ismn")
    }

    /// Set a value in the `ismn` field.
    pub fn set_ismn(&mut self, item: Vec<Chunk>) -> (r: Result<(), TypeError>)
        ensures
            r is Ok,
            final(self)@ == ev_set(old(self)@, "ismn"@, chunks_view(item@)),
    {
        self.set("ismn", item);
        Ok(())
    }

    /// Get the `isrn` field.
    pub fn get_isrn(&self) -> (r: Result<&[Chunk], RetrievalError>)
        ensures
            reports_chunks(r, self@.get("isrn"@), "isrn"@),
    {
        self.get_chunks("isrn")
    }

    /// Set a value in the `isrn` field.
    pub fn set_isrn(&mut self, item: Vec<Chunk>) -> (r: Result<(), TypeError>)
        ensures
            r is Ok,
            final(self)@ == ev_set(old(self)@, "isrn"@, chunks_view(item@)),
    {
        self.set("isrn", item);
        Ok(())
    }

    /// Get the `issn` field.
    pub fn get_issn(&self) -> (r: Result<&[Chunk], RetrievalError>)
        ensures
            reports_chunks(r, self@.get("issn"@), "issn"@),
    {
        self.get_chunks("issn")
    }

    /// Set a value in the `issn` field.
    pub fn set_issn(&mut self, item: Vec<Chunk>) -> (r: Result<(), TypeError>)
        ensures
            r is Ok,
            final(self)@ == ev_set(old(self)@, "issn"@, chunks_view(item@)),
    {
        self.set("issn", item);
        Ok(())
    }

    /// Get the `issue` field.
    pub fn get_issue(&self) -> (r: Result<&[Chunk], RetrievalError>)
        ensures
            reports_chunks(r, self@.get("issue"@), "issue"@),
    {
        self.get_chunks("issue")
    }

    /// Set a value in the `issue` field.
    pub fn set_issue(&mut self, item: Vec<Chunk>) -> (r: Result<(), TypeError>)
        ensures
            r is Ok,
            final(self)@ == ev_set(old(self)@, "issue"@, chunks_view(item@)),
    {
        self.set("issue", item);
        Ok(())
    }

    /// Get the `issuesubtitle` field.
    pub fn get_issue_subtitle(&self) -> (r: Result<&[Chunk], RetrievalError>)
        ensures
            reports_chunks(r, self@.get("issuesubtitle"@), "issuesubtitle"@),
    {
        self.get_chunks("issuesubtitle")
    }

    /// Set a value in the `issuesubtitle` field.
    pub fn set_issue_subtitle(&mut self, item: Vec<Chunk>) -> (r: Result<(), TypeError>)
        ensures
            r is Ok,
            final(self)@ == ev_set(old(self)@, "issuesubtitle"@, chunks_view(item@)),
    {
        self.set("issuesubtitle", item);
        Ok(())
    }

    /// Get the `issuetitle` field.
    pub fn get_issue_title(&self) -> (r: Result<&[Chunk], RetrievalError>)
        ensures
            reports_chunks(r, self@.get("issuetitle"@), "issuetitle"@),
    {
        self.get_chunks("issuetitle")
    }

    /// Set a value in the `issuetitle` field.
    pub fn set_issue_title(&mut self, item: Vec<Chunk>) -> (r: Result<(), TypeError>)
        ensures
            r is Ok,
            final(self)@ == ev_set(old(self)@, "issuetitle"@, chunks_view(item@)),
    {
        self.set("issuetitle", item);
        Ok(())
    }

    /// Get the `issuetitleaddon` field.
    pub fn get_issue_title_addon(&self) -> (r: Result<&[Chunk], RetrievalError>)
        ensures
            reports_chunks(r, self@.get("issuetitleaddon"@), "issuetitleaddon"@),
    {
        self.get_chunks("issuetitleaddon")
    }

    /// Set a value in the `issuetitleaddon` field.
    pub fn set_issue_title_addon(&mut self, item: Vec<Chunk>) -> (r: Result<(), TypeError>)
        ensures
            r is Ok,
            final(self)@ == ev_set(old(self)@, "issuetitleaddon"@, chunks_view(item@)),
    {
        self.set("issuetitleaddon", item);
        Ok(())
    }

    /// Get the `iswc` field.
    pub fn get_iswc(&self) -> (r: Result<&[Chunk], RetrievalError>)
        ensures
            reports_chunks(r, self@.get("iswc"@), "iswc"@),
    {
        self.get_chunks("iswc")
    }

    /// Set a value in the `iswc` field.
    pub fn set_iswc(&mut self, item: Vec<Chunk>) -> (r: Result<(), TypeError>)
        ensures
            r is Ok,
            final(self)@ == ev_set(old(self)@, "iswc"@, chunks_view(item@)),
    {
        self.set("iswc", item);
        Ok(())
    }

    /// Get the `journalsubtitle` field.
    pub fn get_journal_subtitle(&self) -> (r: Result<&[Chunk], RetrievalError>)
        ensures
            reports_chunks(r, self@.get("journalsubtitle"@), "journalsubtitle"@),
    {
        self.get_chunks("journalsubtitle")
    }

    /// Set a value in the `journalsubtitle` field.
    pub fn set_journal_subtitle(&mut self, item: Vec<Chunk>) -> (r: Result<(), TypeError>)
        ensures
            r is Ok,
            final(self)@ == ev_set(old(self)@, "journalsubtitle"@, chunks_view(item@)),
    {
        self.set("journalsubtitle", item);
        Ok(())
    }

    /// Get the `journaltitleaddon` field.
    pub fn get_journal_title_addon(&self) -> (r: Result<&[Chunk], RetrievalError>)
        ensures
            reports_chunks(r, self@.get("journaltitleaddon"@), "journaltitleaddon"@),
    {
        self.get_chunks("journaltitleaddon")
    }

    /// Set a value in the `journaltitleaddon` field.
    pub fn set_journal_title_addon(&mut self, item: Vec<Chunk>) -> (r: Result<(), TypeError>)
        ensures
            r is Ok,
            final(self)@ == ev_set(old(self)@, "journaltitleaddon"@, chunks_view(item@)),
    {
        self.set("journaltitleaddon", item);
        Ok(())
    }

    /// Get the `keywords` field.
    pub fn get_keywords(&self) -> (r: Result<&[Chunk], RetrievalError>)
        ensures
            reports_chunks(r, self@.get("keywords"@), "keywords"@),
    {
        self.get_chunks("keywords")
    }

    /// Set a value in the `keywords` field.
    pub fn set_keywords(&mut self, item: Vec<Chunk>) -> (r: Result<(), TypeError>)
        ensures
            r is Ok,
            final(self)@ == ev_set(old(self)@, "keywords"@, chunks_view(item@)),
    {
        self.set("keywords", item);
        Ok(())
    }

    /// Get the `label` field.
    pub fn get_label(&self) -> (r: Result<&[Chunk], RetrievalError>)
        ensures
            reports_chunks(r, self@.get("label"@), "label"@),
    {
        self.get_chunks("label")
    }

    /// Set a value in the `label` field.
    pub fn set_label(&mut self, item: Vec<Chunk>) -> (r: Result<(), TypeError>)
        ensures
            r is Ok,
            final(self)@ == ev_set(old(self)@, "label"@, chunks_view(item@)),
    {
        self.set("label", item);
        Ok(())
    }

    /// Get and parse the `language` field.
    pub fn get_language(&self) -> (r: Result<String, RetrievalError>)
        ensures
            reports(r, fetch::<String>(self@.get("language"@)), "language"@),
    {
        self.get_as::<String>("language")
    }

    /// Set a value in the `language` field.
    pub fn set_language(&mut self, item: String) -> (r: Result<(), TypeError>)
        ensures
            match <String as Type>::spec_to_chunks(item.model()) {
                Some(c) => r is Ok && final(self)@ == ev_set(old(self)@, "language"@, c),
                None => r is Err && final(self)@ == old(self)@,
            },
    {
        self.set_as("language", &item)
    }

    /// Get the `library` field.
    pub fn get_library(&self) -> (r: Result<&[Chunk], RetrievalError>)
        ensures
            reports_chunks(r, self@.get("library"@), "library"@),
    {
        self.get_chunks("library")
    }

    /// Set a value in the `library` field.
    pub fn set_library(&mut self, item: Vec<Chunk>) -> (r: Result<(), TypeError>)
        ensures
            r is Ok,
            final(self)@ == ev_set(old(self)@, "library"@, chunks_view(item@)),
    {
        self.set("library", item);
        Ok(())
    }

    /// Get the `mainsubtitle` field.
    pub fn get_main_subtitle(&self) -> (r: Result<&[Chunk], RetrievalError>)
        ensures
            reports_chunks(r, self@.get("mainsubtitle"@), "mainsubtitle"@),
    {
        self.get_chunks("mainsubtitle")
    }

    /// Set a value in the `mainsubtitle` field.
    pub fn set_main_subtitle(&mut self, item: Vec<Chunk>) -> (r: Result<(), TypeError>)
        ensures
            r is Ok,
            final(self)@ == ev_set(old(self)@, "mainsubtitle"@, chunks_view(item@)),
    {
        self.set("mainsubtitle", item);
        Ok(())
    }

    /// Get the `maintitle` field.
    pub fn get_main_title(&self) -> (r: Result<&[Chunk], RetrievalError>)
        ensures
            reports_chunks(r, self@.get("maintitle"@), "maintitle"@),
    {
        self.get_chunks("maintitle")
    }

    /// Set a value in the `maintitle` field.
    pub fn set_main_title(&mut self, item: Vec<Chunk>) -> (r: Result<(), TypeError>)
        ensures
            r is Ok,
            final(self)@ == ev_set(old(self)@, "maintitle"@, chunks_view(item@)),
    {
        self.set("maintitle", item);
        Ok(())
    }

    /// Get the `maintitleaddon` field.
    pub fn get_main_title_addon(&self) -> (r: Result<&[Chunk], RetrievalError>)
        ensures
            reports_chunks(r, self@.get("maintitleaddon"@), "maintitleaddon"@),
    {
        self.get_chunks("maintitleaddon")
    }

    /// Set a value in the `maintitleaddon` field.
    pub fn set_main_title_addon(&mut self, item: Vec<Chunk>) -> (r: Result<(), TypeError>)
        ensures
            r is Ok,
            final(self)@ == ev_set(old(self)@, "maintitleaddon"@, chunks_view(item@)),
    {
        self.set("maintitleaddon", item);
        Ok(())
    }

    /// Get the `nameaddon` field.
    pub fn get_name_addon(&self) -> (r: Result<&[Chunk], RetrievalError>)
        ensures
            reports_chunks(r, self@.get("nameaddon"@), "nameaddon"@),
    {
        self.get_chunks("nameaddon")
    }

    /// Set a value in the `nameaddon` field.
    pub fn set_name_addon(&mut self, item: Vec<Chunk>) -> (r: Result<(), TypeError>)
        ensures
            r is Ok,
            final(self)@ == ev_set(old(self)@, "nameaddon"@, chunks_view(item@)),
    {
        self.set("nameaddon", item);
        Ok(())
    }

    /// Get the `options` field.
    pub fn get_options(&self) -> (r: Result<&[Chunk], RetrievalError>)
        ensures
            reports_chunks(r, self@.get("options"@), "options"@),
    {
        self.get_chunks("options")
    }

    /// Set a value in the `options` field.
    pub fn set_options(&mut self, item: Vec<Chunk>) -> (r: Result<(), TypeError>)
        ensures
            r is Ok,
            final(self)@ == ev_set(old(self)@, "options"@, chunks_view(item@)),
    {
        self.set("options", item);
        Ok(())
    }

    /// Get and parse the `origlanguage` field.
    pub fn get_orig_language(&self) -> (r: Result<String, RetrievalError>)
        ensures
            reports(r, fetch::<String>(self@.get("origlanguage"@)), "origlanguage"@),
    {
        self.get_as::<String>("origlanguage")
    }

    /// Set a value in the `origlanguage` field.
    pub fn set_orig_language(&mut self, item: String) -> (r: Result<(), TypeError>)
        ensures
            match <String as Type>::spec_to_chunks(item.model()) {
                Some(c) => r is Ok && final(self)@ == ev_set(old(self)@, "origlanguage"@, c),
                None => r is Err && final(self)@ == old(self)@,
            },
    {
        self.set_as("origlanguage", &item)
    }

    /// Get the `origlocation` field.
    pub fn get_orig_location(&self) -> (r: Result<&[Chunk], RetrievalError>)
        ensures
            reports_chunks(r, self@.get("origlocation"@), "origlocation"@),
    {
        self.get_chunks("origlocation")
    }

    /// Set a value in the `origlocation` field.
    pub fn set_orig_location(&mut self, item: Vec<Chunk>) -> (r: Result<(), TypeError>)
        ensures
            r is Ok,
            final(self)@ == ev_set(old(self)@, "origlocation"@, chunks_view(item@)),
    {
        self.set("origlocation", item);
        Ok(())
    }

    /// Get the `pagetotal` field.
    pub fn get_page_total(&self) -> (r: Result<&[Chunk], RetrievalError>)
        ensures
            reports_chunks(r, self@.get("pagetotal"@), "pagetotal"@),
    {
        self.get_chunks("pagetotal")
    }

    /// Set a value in the `pagetotal` field.
    pub fn set_page_total(&mut self, item: Vec<Chunk>) -> (r: Result<(), TypeError>)
        ensures
            r is Ok,
            final(self)@ == ev_set(old(self)@, "pagetotal"@, chunks_view(item@)),
    {
        self.set("pagetotal", item);
        Ok(())
    }

    /// Get and parse the `pagination` field.
    pub fn get_pagination(&self) -> (r: Result<Pagination, RetrievalError>)
        ensures
            reports(r, fetch::<Pagination>(self@.get("pagination"@)), "pagination"@),
    {
        self.get_as::<Pagination>("pagination")
    }

    /// Set a value in the `pagination` field.
    pub fn set_pagination(&mut self, item: Pagination) -> (r: Result<(), TypeError>)
        ensures
            match <Pagination as Type>::spec_to_chunks(item.model()) {
                Some(c) => r is Ok && final(self)@ == ev_set(old(self)@, "pagination"@, c),
                None => r is Err && final(self)@ == old(self)@,
            },
    {
        self.set_as("pagination", &item)
    }

    /// Get the `part` field.
    pub fn get_part(&self) -> (r: Result<&[Chunk], RetrievalError>)
        ensures
            reports_chunks(r, self@.get("part"@), "part"@),
    {
        self.get_chunks("part")
    }

    /// Set a value in the `part` field.
    pub fn set_part(&mut self, item: Vec<Chunk>) -> (r: Result<(), TypeError>)
        ensures
            r is Ok,
            final(self)@ == ev_set(old(self)@, "part"@, chunks_view(item@)),
    {
        self.set("part", item);
        Ok(())
    }

    /// Get the `pubstate` field.
    pub fn get_pubstate(&self) -> (r: Result<&[Chunk], RetrievalError>)
        ensures
            reports_chunks(r, self@.get("pubstate"@), "pubstate"@),
    {
        self.get_chunks("pubstate")
    }

    /// Set a value in the `pubstate` field.
    pub fn set_pubstate(&mut self, item: Vec<Chunk>) -> (r: Result<(), TypeError>)
        ensures
            r is Ok,
            final(self)@ == ev_set(old(self)@, "pubstate"@, chunks_view(item@)),
    {
        self.set("pubstate", item);
        Ok(())
    }

    /// Get the `reprinttitle` field.
    pub fn get_reprint_title(&self) -> (r: Result<&[Chunk], RetrievalError>)
        ensures
            reports_chunks(r, self@.get("reprinttitle"@), "reprinttitle"@),
    {
        self.get_chunks("reprinttitle")
    }

    /// Set a value in the `reprinttitle` field.
    pub fn set_reprint_title(&mut self, item: Vec<Chunk>) -> (r: Result<(), TypeError>)
        ensures
            r is Ok,
            final(self)@ == ev_set(old(self)@, "reprinttitle"@, chunks_view(item@)),
    {
        self.set("reprinttitle", item);
        Ok(())
    }

    /// Get and parse the `shortauthor` field.
    pub fn get_short_author(&self) -> (r: Result<Vec<Person>, RetrievalError>)
        ensures
            reports(r, fetch::<Vec<Person>>(self@.get("shortauthor"@)), "shortauthor"@),
    {
        self.get_as::<Vec<Person>>("shortauthor")
    }

    /// Set a value in the `shortauthor` field.
    pub fn set_short_author(&mut self, item: Vec<Person>) -> (r: Result<(), TypeError>)
        ensures
            match <Vec<Person> as Type>::spec_to_chunks(item.model()) {
                Some(c) => r is Ok && final(self)@ == ev_set(old(self)@, "shortauthor"@, c),
                None => r is Err && final(self)@ == old(self)@,
            },
    {
        self.set_as("shortauthor", &item)
    }

    /// Get and parse the `shorteditor` field.
    pub fn get_short_editor(&self) -> (r: Result<Vec<Person>, RetrievalError>)
        ensures
            reports(r, fetch::<Vec<Person>>(self@.get("shorteditor"@)), "shorteditor"@),
    {
        self.get_as::<Vec<Person>>("shorteditor")
    }

    /// Set a value in the `shorteditor` field.
    pub fn set_short_editor(&mut self, item: Vec<Person>) -> (r: Result<(), TypeError>)
        ensures
            match <Vec<Person> as Type>::spec_to_chunks(item.model()) {
                Some(c) => r is Ok && final(self)@ == ev_set(old(self)@, "shorteditor"@, c),
                None => r is Err && final(self)@ == old(self)@,
            },
    {
        self.set_as("shorteditor", &item)
    }

    /// Get the `shorthand` field.
    pub fn get_shorthand(&self) -> (r: Result<&[Chunk], RetrievalError>)
        ensures
            reports_chunks(r, self@.get("shorthand"@), "shorthand"@),
    {
        self.get_chunks("shorthand")
    }

    /// Set a value in the `shorthand` field.
    pub fn set_shorthand(&mut self, item: Vec<Chunk>) -> (r: Result<(), TypeError>)
        ensures
            r is Ok,
            final(self)@ == ev_set(old(self)@, "shorthand"@, chunks_view(item@)),
    {
        self.set("shorthand", item);
        Ok(())
    }

    /// Get the `shorthandintro` field.
    pub fn get_shorthand_intro(&self) -> (r: Result<&[Chunk], RetrievalError>)
        ensures
            reports_chunks(r, self@.get("shorthandintro"@), "shorthandintro"@),
    {
        self.get_chunks("shorthandintro")
    }

    /// Set a value in the `shorthandintro` field.
    pub fn set_shorthand_intro(&mut self, item: Vec<Chunk>) -> (r: Result<(), TypeError>)
        ensures
            r is Ok,
            final(self)@ == ev_set(old(self)@, "shorthandintro"@, chunks_view(item@)),
    {
        self.set("shorthandintro", item);
        Ok(())
    }

    /// Get the `shortjournal` field.
    pub fn get_short_journal(&self) -> (r: Result<&[Chunk], RetrievalError>)
        ensures
            reports_chunks(r, self@.get("shortjournal"@), "shortjournal"@),
    {
        self.get_chunks("shortjournal")
    }

    /// Set a value in the `shortjournal` field.
    pub fn set_short_journal(&mut self, item: Vec<Chunk>) -> (r: Result<(), TypeError>)
        ensures
            r is Ok,
            final(self)@ == ev_set(old(self)@, "shortjournal"@, chunks_view(item@)),
    {
        self.set("shortjournal", item);
        Ok(())
    }

    /// Get the `shortseries` field.
    pub fn get_short_series(&self) -> (r: Result<&[Chunk], RetrievalError>)
        ensures
            reports_chunks(r, self@.get("shortseries"@), "shortseries"@),
    {
        self.get_chunks("shortseries")
    }

    /// Set a value in the `shortseries` field.
    pub fn set_short_series(&mut self, item: Vec<Chunk>) -> (r: Result<(), TypeError>)
        ensures
            r is Ok,
            final(self)@ == ev_set(old(self)@, "shortseries"@, chunks_view(item@)),
    {
        self.set("shortseries", item);
        Ok(())
    }

    /// Get the `shorttitle` field.
    pub fn get_short_title(&self) -> (r: Result<&[Chunk], RetrievalError>)
        ensures
            reports_chunks(r, self@.get("shorttitle"@), "shorttitle"@),
    {
        self.get_chunks("shorttitle")
    }

    /// Set a value in the `shorttitle` field.
    pub fn set_short_title(&mut self, item: Vec<Chunk>) -> (r: Result<(), TypeError>)
        ensures
            r is Ok,
            final(self)@ == ev_set(old(self)@, "shorttitle"@, chunks_view(item@)),
    {
        self.set("shorttitle", item);
        Ok(())
    }

    /// Get the `subtitle` field.
    pub fn get_subtitle(&self) -> (r: Result<&[Chunk], RetrievalError>)
        ensures
            reports_chunks(r, self@.get("subtitle"@), "subtitle"@),
    {
        self.get_chunks("subtitle")
    }

    /// Set a value in the `subtitle` field.
    pub fn set_subtitle(&mut self, item: Vec<Chunk>) -> (r: Result<(), TypeError>)
        ensures
            r is Ok,
            final(self)@ == ev_set(old(self)@, "subtitle"@, chunks_view(item@)),
    {
        self.set("subtitle", item);
        Ok(())
    }

    /// Get the `titleaddon` field.
    pub fn get_title_addon(&self) -> (r: Result<&[Chunk], RetrievalError>)
        ensures
            reports_chunks(r, self@.get("titleaddon"@), "titleaddon"@),
    {
        self.get_chunks("titleaddon")
    }

    /// Set a value in the `titleaddon` field.
    pub fn set_title_addon(&mut self, item: Vec<Chunk>) -> (r: Result<(), TypeError>)
        ensures
            r is Ok,
            final(self)@ == ev_set(old(self)@, "titleaddon"@, chunks_view(item@)),
    {
        self.set("titleaddon", item);
        Ok(())
    }

    /// Get and parse the `translator` field.
    pub fn get_translator(&self) -> (r: Result<Vec<Person>, RetrievalError>)
        ensures
            reports(r, fetch::<Vec<Person>>(self@.get("translator"@)), "translator"@),
    {
        self.get_as::<Vec<Person>>("translator")
    }

    /// Set a value in the `translator` field.
    pub fn set_translator(&mut self, item: Vec<Person>) -> (r: Result<(), TypeError>)
        ensures
            match <Vec<Person> as Type>::spec_to_chunks(item.model()) {
                Some(c) => r is Ok && final(self)@ == ev_set(old(self)@, "translator"@, c),
                None => r is Err && final(self)@ == old(self)@,
            },
    {
        self.set_as("translator", &item)
    }

    /// Get and parse the `url` field.
    pub fn get_url(&self) -> (r: Result<String, RetrievalError>)
        ensures
            reports(r, fetch::<String>(self@.get("url"@)), "url"@),
    {
        self.get_as::<String>("url")
    }

    /// Set a value in the `url` field.
    pub fn set_url(&mut self, item: String) -> (r: Result<(), TypeError>)
        ensures
            match <String as Type>::spec_to_chunks(item.model()) {
                Some(c) => r is Ok && final(self)@ == ev_set(old(self)@, "url"@, c),
                None => r is Err && final(self)@ == old(self)@,
            },
    {
        self.set_as("url", &item)
    }

    /// Get the `venue` field.
    pub fn get_venue(&self) -> (r: Result<&[Chunk], RetrievalError>)
        ensures
            reports_chunks(r, self@.get("venue"@), "venue"@),
    {
        self.get_chunks("venue")
    }

    /// Set a value in the `venue` field.
    pub fn set_venue(&mut self, item: Vec<Chunk>) -> (r: Result<(), TypeError>)
        ensures
            r is Ok,
            final(self)@ == ev_set(old(self)@, "venue"@, chunks_view(item@)),
    {
        self.set("venue", item);
        Ok(())
    }

    /// Get the `version` field.
    pub fn get_version(&self) -> (r: Result<&[Chunk], RetrievalError>)
        ensures
            reports_chunks(r, self@.get("version"@), "version"@),
    {
        self.get_chunks("version")
    }

    /// Set a value in the `version` field.
    pub fn set_version(&mut self, item: Vec<Chunk>) -> (r: Result<(), TypeError>)
        ensures
            r is Ok,
            final(self)@ == ev_set(old(self)@, "version"@, chunks_view(item@)),
    {
        self.set("version", item);
        Ok(())
    }

    /// Get and parse the `volumes` field.
    pub fn get_volumes(&self) -> (r: Result<i64, RetrievalError>)
        ensures
            reports(r, fetch::<i64>(self@.get("volumes"@)), "volumes"@),
    {
        self.get_as::<i64>("volumes")
    }

    /// Set a value in the `volumes` field.
    pub fn set_volumes(&mut self, item: i64) -> (r: Result<(), TypeError>)
        ensures
            match <i64 as Type>::spec_to_chunks(item.model()) {
                Some(c) => r is Ok && final(self)@ == ev_set(old(self)@, "volumes"@, c),
                None => r is Err && final(self)@ == old(self)@,
            },
    {
        self.set_as("volumes", &item)
    }

    /// Get and parse the `gender` field.
    pub fn get_gender(&self) -> (r: Result<Gender, RetrievalError>)
        ensures
            reports(r, fetch::<Gender>(self@.get("gender"@)), "gender"@),
    {
        self.get_as::<Gender>("gender")
    }

    /// Set a value in the `gender` field.
    pub fn set_gender(&mut self, item: Gender) -> (r: Result<(), TypeError>)
        ensures
            match <Gender as Type>::spec_to_chunks(item.model()) {
                Some(c) => r is Ok && final(self)@ == ev_set(old(self)@, "gender"@, c),
                None => r is Err && final(self)@ == old(self)@,
            },
    {
        self.set_as("gender", &item)
    }
}

} // verus!
