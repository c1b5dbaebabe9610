//! Bibliography entries and their fields.
use vstd::prelude::*;

use crate::assoc::{
    assoc_map, find_key, first_index, keys_of, lemma_assoc_map, lemma_assoc_map_push,
    lemma_assoc_map_update, lemma_assoc_map_without, string_keys, without_key,
};
use crate::chunk::{chunks_to_string, chunks_view, field_source, Chunk, ChunkView};
use crate::mechanics::{requirements, AuthorMode, EntryType, PagesChapterMode};
use crate::text::{lower_key, str_eq, to_lowercase};
use crate::types::{
    date_from_parts, date_of, part_text, person_views, Date, EditorType, Person, PersonView, Type,
    TypeError,
};

verus! {

/// A bibliography entry that is parsed into chunks, which can be
/// parsed into more specific types on demand on field accesses.
#[derive(Debug, Eq)]
pub struct Entry {
    /// The citation key.
    pub cite_key: String,
    /// Denotes the type of bibliography item (e.g. `article`).
    pub entry_type: EntryType,
    /// The field names with their associated chunk vectors. When a name
    /// occurs more than once, the first occurrence counts.
    pub fields: Vec<(String, Vec<Chunk>)>,
}

/// The mathematical value of an [`Entry`].
pub struct EntryView {
    pub cite_key: Seq<char>,
    pub entry_type: EntryType,
    pub fields: Seq<(Seq<char>, Seq<ChunkView>)>,
}

/// Field names with their values.
pub type FieldMap = Map<Seq<char>, Seq<ChunkView>>;

/// The value that a lookup of `key` finds: the one stored under the
/// lower-case form of `key`.
pub open spec fn map_get(m: FieldMap, key: Seq<char>) -> Option<Seq<ChunkView>> {
    m.index_opt(lower_key(key))
}

/// The entry after `set(key, v)`: the first field stored under the
/// lower-case key gets the value, or a new field is appended.
pub open spec fn ev_set(ev: EntryView, key: Seq<char>, v: Seq<ChunkView>) -> EntryView {
    EntryView {
        cite_key: ev.cite_key,
        entry_type: ev.entry_type,
        fields: insert_exact(ev.fields, lower_key(key), v),
    }
}

/// The fields after `key` was given the value `v`: the first field with
/// exactly this name gets it, or a new field is appended.
pub open spec fn insert_exact(
    fs: Seq<(Seq<char>, Seq<ChunkView>)>,
    k: Seq<char>,
    v: Seq<ChunkView>,
) -> Seq<(Seq<char>, Seq<ChunkView>)> {
    let i = first_index(keys_of(fs), k);
    if i >= 0 {
        fs.update(i, (k, v))
    } else {
        fs.push((k, v))
    }
}

/// The entry after `delete(key)`: every field stored under exactly `key`
/// is gone.
pub open spec fn ev_delete(ev: EntryView, key: Seq<char>) -> EntryView {
    EntryView { cite_key: ev.cite_key, entry_type: ev.entry_type, fields: without_key(ev.fields, key) }
}

/// The values of a list of fields.
pub open spec fn fields_view(fs: Seq<(String, Vec<Chunk>)>) -> Seq<(Seq<char>, Seq<ChunkView>)> {
    fs.map_values(|p: (String, Vec<Chunk>)| (p.0@, chunks_view(p.1@)))
}

impl View for Entry {
    type V = EntryView;

    open spec fn view(&self) -> EntryView {
        EntryView {
            cite_key: self.cite_key@,
            entry_type: self.entry_type,
            fields: fields_view(self.fields@),
        }
    }
}

impl EntryView {
    /// The fields as a map from names to values.
    pub open spec fn field_map(self) -> Map<Seq<char>, Seq<ChunkView>> {
        assoc_map(self.fields)
    }

    /// The value stored under exactly this name.
    pub open spec fn field(self, name: Seq<char>) -> Option<Seq<ChunkView>> {
        self.field_map().index_opt(name)
    }

    /// The value that [`Entry::get`] finds for `key`: the one stored under
    /// the lower-case form of `key`.
    pub open spec fn get(self, key: Seq<char>) -> Option<Seq<ChunkView>> {
        map_get(self.field_map(), key)
    }

    /// No field name occurs twice.
    pub open spec fn wf(self) -> bool {
        crate::assoc::unique_keys(keys_of(self.fields))
    }
}

/// Two entries are equal when they have the same cite key, the same type
/// and the same fields, whatever the order in which the fields are kept.
pub open spec fn same_entry(a: EntryView, b: EntryView) -> bool {
    &&& a.cite_key == b.cite_key
    &&& crate::mechanics::same_type(a.entry_type, b.entry_type)
    &&& a.field_map() == b.field_map()
}

impl PartialEq for Entry {
    fn eq(&self, other: &Self) -> (r: bool) {
        if !str_eq(self.cite_key.as_str(), other.cite_key.as_str()) {
            return false;
        }
        if !self.entry_type.same_as(&other.entry_type) {
            return false;
        }
        let ghost a = self@;
        let ghost b = other@;
        let mut i: usize = 0;
        while i < self.fields.len()
            invariant
                i <= self.fields@.len(),
                a == self@,
                b == other@,
                forall|j: int| 0 <= j < i ==> #[trigger] a.field(a.fields[j].0) == b.field(a.fields[j].0),
            decreases self.fields@.len() - i,
        {
            let k = self.fields[i].0.as_str();
            assert(a.fields[i as int].0 == k@);
            let mine = self.get_exact(k);
            let theirs = other.get_exact(k);
            match (mine, theirs) {
                (Some(x), Some(y)) => {
                    if !crate::chunk::chunks_eq(x, y) {
                        return false;
                    }
                },
                _ => {
                    proof {
                        lemma_assoc_map(a.fields, k@);
                        crate::assoc::lemma_first_index(keys_of(a.fields), k@);
                        assert(keys_of(a.fields)[i as int] == k@);
                        assert(a.field(k@) is Some);
                    }
                    return false;
                },
            }
            i = i + 1;
        }
        let mut j: usize = 0;
        while j < other.fields.len()
            invariant
                j <= other.fields@.len(),
                a == self@,
                b == other@,
                forall|n: int| 0 <= n < j ==> (#[trigger] a.field(b.fields[n].0)) is Some,
            decreases other.fields@.len() - j,
        {
            let k = other.fields[j].0.as_str();
            assert(b.fields[j as int].0 == k@);
            if self.get_exact(k).is_none() {
                proof {
                    lemma_assoc_map(b.fields, k@);
                    crate::assoc::lemma_first_index(keys_of(b.fields), k@);
                    assert(keys_of(b.fields)[j as int] == k@);
                    assert(b.field(k@) is Some);
                }
                return false;
            }
            j = j + 1;
        }
        proof {
            assert forall|k: Seq<char>| #[trigger] a.field_map().contains_key(k) implies b.field_map().contains_key(k)
                && a.field_map()[k] == b.field_map()[k] by {
                lemma_assoc_map(a.fields, k);
                crate::assoc::lemma_first_index(keys_of(a.fields), k);
                let fi = first_index(keys_of(a.fields), k);
                assert(keys_of(a.fields)[fi] == a.fields[fi].0);
                assert(a.field(a.fields[fi].0) == b.field(a.fields[fi].0));
            }
            assert forall|k: Seq<char>| #[trigger] b.field_map().contains_key(k) implies a.field_map().contains_key(k) by {
                lemma_assoc_map(b.fields, k);
                crate::assoc::lemma_first_index(keys_of(b.fields), k);
                let fi = first_index(keys_of(b.fields), k);
                assert(keys_of(b.fields)[fi] == b.fields[fi].0);
                assert(a.field(b.fields[fi].0) is Some);
            }
            assert(a.field_map() =~= b.field_map());
        }
        true
    }
}

impl vstd::std_specs::cmp::PartialEqSpecImpl for Entry {
    open spec fn obeys_eq_spec() -> bool {
        true
    }

    open spec fn eq_spec(&self, other: &Entry) -> bool {
        same_entry(self@, other@)
    }
}

/// Dropping a key that no pair has changes nothing.
pub proof fn lemma_without_key_absent(s: Seq<(Seq<char>, Seq<ChunkView>)>, k: Seq<char>)
    requires
        first_index(keys_of(s), k) == -1,
    ensures
        without_key(s, k) == s,
    decreases s.len(),
{
    if s.len() > 0 {
        let d = s.drop_last();
        crate::assoc::lemma_first_index(keys_of(s), k);
        assert(keys_of(s)[s.len() - 1] == s.last().0);
        assert(forall|j: int| 0 <= j < d.len() ==> #[trigger] keys_of(d)[j] == keys_of(s)[j]);
        crate::assoc::lemma_first_index_none(keys_of(d), k);
        lemma_without_key_absent(d, k);
        assert(d.push(s.last()) == s);
    }
}

proof fn lemma_keys_view(fs: Seq<(String, Vec<Chunk>)>)
    ensures
        keys_of(fields_view(fs)) == string_keys(fs),
{
    assert(keys_of(fields_view(fs)) =~= string_keys(fs));
}

impl Clone for Entry {
    fn clone(&self) -> (r: Self)
        ensures
            r@ == self@,
    {
        let mut fields: Vec<(String, Vec<Chunk>)> = Vec::new();
        let mut i: usize = 0;
        while i < self.fields.len()
            invariant
                i <= self.fields@.len(),
                fields_view(fields@) == fields_view(self.fields@).take(i as int),
            decreases self.fields@.len() - i,
        {
            let k = self.fields[i].0.clone();
            let v = crate::chunk::clone_chunks(self.fields[i].1.as_slice());
            let ghost before = fields_view(fields@);
            fields.push((k, v));
            assert(fields_view(fields@) =~= before.push(fields_view(self.fields@)[i as int]));
            assert(fields_view(self.fields@).take(i + 1) =~= fields_view(self.fields@).take(i as int).push(
                fields_view(self.fields@)[i as int],
            ));
            i = i + 1;
        }
        assert(fields_view(self.fields@).take(self.fields@.len() as int) == fields_view(self.fields@));
        Entry { cite_key: self.cite_key.clone(), entry_type: self.entry_type.clone(), fields }
    }
}

impl Entry {
    /// Construct new, empty entry.
    pub fn new(cite_key: &str, entry_type: EntryType) -> (r: Self)
        ensures
            r@.cite_key == cite_key@,
            r.entry_type == entry_type,
            r@.fields.len() == 0,
    {
        Self { cite_key: String::from_str(cite_key), entry_type, fields: Vec::new() }
    }

    /// The position of the field stored under exactly `name`.
    fn position(&self, name: &str) -> (r: Option<usize>)
        ensures
            match r {
                Some(i) => i < self.fields@.len() && first_index(keys_of(self@.fields), name@) == i
                    && self@.field(name@) == Some(self@.fields[i as int].1),
                None => self@.field(name@) is None,
            },
    {
        proof {
            lemma_keys_view(self.fields@);
            lemma_assoc_map(self@.fields, name@);
        }
        find_key(&self.fields, name)
    }

    /// Get the chunk slice stored under exactly the name `name`.
    pub fn get_exact(&self, name: &str) -> (r: Option<&[Chunk]>)
        ensures
            match r {
                Some(c) => self@.field(name@) == Some(chunks_view(c@)),
                None => self@.field(name@) is None,
            },
    {
        match self.position(name) {
            Some(i) => Some(self.fields[i].1.as_slice()),
            None => None,
        }
    }

    /// Get the chunk slice for a field.
    pub fn get(&self, key: &str) -> (r: Option<&[Chunk]>)
        ensures
            match r {
                Some(c) => self@.get(key@) == Some(chunks_view(c@)),
                None => self@.get(key@) is None,
            },
    {
        let k = to_lowercase(key);
        self.get_exact(k.as_str())
    }

    /// Sets a field value as a chunk vector.
    pub fn set(&mut self, key: &str, chunks: Vec<Chunk>)
        ensures
            final(self)@ == ev_set(old(self)@, key@, chunks_view(chunks@)),
            final(self)@.cite_key == old(self)@.cite_key,
            final(self).entry_type == old(self).entry_type,
            final(self)@.field_map() == old(self)@.field_map().insert(
                lower_key(key@),
                chunks_view(chunks@),
            ),
            old(self)@.wf() ==> final(self)@.wf(),
    {
        let k = to_lowercase(key);
        self.set_exact(k, chunks);
    }

    /// Stores a field under exactly the name `key`: the first field with
    /// this name gets the value, or a new field is appended.
    pub fn set_exact(&mut self, key: String, chunks: Vec<Chunk>)
        ensures
            final(self)@.cite_key == old(self)@.cite_key,
            final(self).entry_type == old(self).entry_type,
            final(self)@.fields == insert_exact(old(self)@.fields, key@, chunks_view(chunks@)),
            final(self)@.field_map() == old(self)@.field_map().insert(key@, chunks_view(chunks@)),
            old(self)@.wf() ==> final(self)@.wf(),
    {
        let ghost kv = key@;
        let ghost cv = chunks_view(chunks@);
        match self.position(key.as_str()) {
            Some(i) => {
                proof {
                    lemma_assoc_map_update(self@.fields, i as int, kv, cv);
                    crate::assoc::lemma_first_index(keys_of(self@.fields), kv);
                }
                self.fields.set(i, (key, chunks));
                proof {
                    assert(fields_view(self.fields@) =~= fields_view(old(self).fields@).update(i as int, (kv, cv)));
                    assert(keys_of(self@.fields) =~= keys_of(old(self)@.fields));
                }
            },
            None => {
                proof {
                    lemma_assoc_map_push(self@.fields, kv, cv);
                    lemma_assoc_map(self@.fields, kv);
                    lemma_keys_view(self.fields@);
                    crate::assoc::lemma_first_index(keys_of(self@.fields), kv);
                }
                self.fields.push((key, chunks));
                proof {
                    assert(fields_view(self.fields@) =~= fields_view(old(self).fields@).push((kv, cv)));
                    let ks = keys_of(self@.fields);
                    let oks = keys_of(old(self)@.fields);
                    assert(ks =~= oks.push(kv));
                    if old(self)@.wf() {
                        assert forall|a: int, b: int| 0 <= a < ks.len() && 0 <= b < ks.len() && a != b implies ks[a] != ks[b] by {
                            if a < oks.len() && b < oks.len() {
                                assert(ks[a] == oks[a] && ks[b] == oks[b]);
                            } else if a < oks.len() {
                                assert(ks[a] == oks[a]);
                            } else {
                                assert(ks[b] == oks[b]);
                            }
                        }
                    }
                }
            },
        }
    }

    /// Deletes a field from the entry.
    pub fn delete(&mut self, key: &str) -> (r: Option<Vec<Chunk>>)
        ensures
            final(self)@ == ev_delete(old(self)@, key@),
            final(self)@.cite_key == old(self)@.cite_key,
            final(self).entry_type == old(self).entry_type,
            final(self)@.field_map() == old(self)@.field_map().remove(key@),
            match r {
                Some(c) => old(self)@.field(key@) == Some(chunks_view(c@)),
                None => old(self)@.field(key@) is None,
            },
            old(self)@.wf() ==> final(self)@.wf(),
    {
        let ghost before = self@.fields;
        let pos = self.position(key);
        if pos.is_none() {
            proof {
                lemma_assoc_map(before, key@);
                assert(self@.field_map().remove(key@) =~= self@.field_map());
                lemma_without_key_absent(before, key@);
            }
            return None;
        }
        let first = pos.unwrap();
        let mut old_fields: Vec<(String, Vec<Chunk>)> = Vec::new();
        std::mem::swap(&mut old_fields, &mut self.fields);
        let ghost orig = old_fields@;
        let mut kept: Vec<(String, Vec<Chunk>)> = Vec::new();
        let mut removed: Option<Vec<Chunk>> = None;
        let mut i: usize = 0;
        for p in it: old_fields.into_iter()
            invariant
                orig == it.seq(),
                fields_view(orig) == before,
                first < orig.len(),
                first_index(keys_of(before), key@) == first,
                fields_view(kept@) == without_key(before.take(it.index()), key@),
                it.index() <= first ==> removed is None,
                it.index() > first ==> (removed matches Some(c) && chunks_view(c@) == before[first as int].1),
        {
            let ghost idx = it.index();
            assert(before.take(idx + 1).drop_last() == before.take(idx));
            assert(before[idx] == (p.0@, chunks_view(p.1@)));
            proof {
                crate::assoc::lemma_first_index(keys_of(before), key@);
                assert(keys_of(before)[idx] == before[idx].0);
            }
            if str_eq(p.0.as_str(), key) {
                if removed.is_none() {
                    removed = Some(p.1);
                }
            } else {
                let ghost kv = fields_view(kept@);
                kept.push(p);
                assert(fields_view(kept@) =~= kv.push(before[idx]));
            }
        }
        assert(before.take(orig.len() as int) == before);
        self.fields = kept;
        proof {
            lemma_assoc_map_without(before, key@);
            if old(self)@.wf() {
                crate::assoc::lemma_without_key_unique(before, key@);
            }
        }
        removed
    }
}


/// A field could not be read as the requested type.
#[derive(Debug, PartialEq, Eq)]
pub enum RetrievalError {
    /// The field with this name is not present.
    Missing(String),
    /// The field is present but is not of the requested type.
    TypeError(TypeError),
}

/// What reading a field as a type yields.
pub enum Fetch<M> {
    /// The field is not present.
    Missing,
    /// The field is present but does not read as the type.
    Malformed,
    /// The field reads as this value.
    Found(M),
}

/// Reading optional chunks as `T`.
pub open spec fn fetch<T: Type>(c: Option<Seq<ChunkView>>) -> Fetch<T::Model> {
    match c {
        None => Fetch::Missing,
        Some(cs) => match T::spec_from_chunks(cs) {
            Some(m) => Fetch::Found(m),
            None => Fetch::Malformed,
        },
    }
}

/// `r` reports the outcome `f` of reading the field named `key`.
pub open spec fn reports<T: Type>(r: Result<T, RetrievalError>, f: Fetch<T::Model>, key: Seq<char>) -> bool {
    match f {
        Fetch::Missing => r matches Err(RetrievalError::Missing(k)) && k@ == key,
        Fetch::Malformed => r matches Err(RetrievalError::TypeError(_)),
        Fetch::Found(m) => r matches Ok(v) && v.model() == m,
    }
}

/// `r` reports the outcome of reading plain chunks: present or missing.
pub open spec fn reports_chunks(r: Result<&[Chunk], RetrievalError>, c: Option<Seq<ChunkView>>, key: Seq<char>) -> bool {
    match c {
        None => r matches Err(RetrievalError::Missing(k)) && k@ == key,
        Some(cs) => r matches Ok(v) && chunks_view(v@) == cs,
    }
}

/// The value found under `key`, or else under `alias`.
pub open spec fn either(m: FieldMap, key: Seq<char>, alias: Seq<char>) -> Option<Seq<ChunkView>> {
    match map_get(m, key) {
        Some(c) => Some(c),
        None => map_get(m, alias),
    }
}

/// The date that a field map holds under the given field names: the full
/// date field, or else the year, month and day fields.
pub open spec fn date_fetch_in(
    m: FieldMap,
    date_key: Seq<char>,
    year_key: Seq<char>,
    month_key: Seq<char>,
    day_key: Seq<char>,
) -> Fetch<Date> {
    match map_get(m, date_key) {
        Some(c) => match date_of(crate::text::trim(crate::chunk::verbatim_text(c))) {
            Some(d) => Fetch::Found(d),
            None => Fetch::Malformed,
        },
        None => if map_get(m, year_key) is None {
            Fetch::Missing
        } else {
            match date_from_parts(
                part_text(map_get(m, year_key)),
                part_text(map_get(m, month_key)),
                part_text(map_get(m, day_key)),
            ) {
                Some(d) => Fetch::Found(d),
                None => Fetch::Malformed,
            }
        },
    }
}

/// The date of a field map: the `date` field, or else the `year`, `month`
/// and `day` fields.
pub open spec fn date_fetch(m: FieldMap) -> Fetch<Date> {
    date_fetch_in(m, "date"@, "year"@, "month"@, "day"@)
}

/// The editor role stored in a type field, `editor` by default.
pub open spec fn editor_role(m: FieldMap, type_field: Seq<char>) -> EditorType {
    match map_get(m, type_field) {
        Some(c) => match EditorType::spec_from_chunks(c) {
            Some(t) => t,
            None => EditorType::Editor,
        },
        None => EditorType::Editor,
    }
}

/// The editors named by one editor field, if it is present.
pub open spec fn editor_group(m: FieldMap, name_field: Seq<char>, type_field: Seq<char>) -> Seq<(Seq<PersonView>, EditorType)> {
    match map_get(m, name_field) {
        Some(c) => match <Vec<Person> as Type>::spec_from_chunks(c) {
            Some(ps) => seq![(ps, editor_role(m, type_field))],
            None => Seq::empty(),
        },
        None => Seq::empty(),
    }
}

/// The editors of a field map, one group for each of `editor` and
/// `editora` through `editorc`.
pub open spec fn editors_of(m: FieldMap) -> Seq<(Seq<PersonView>, EditorType)> {
    editor_group(m, "editor"@, "editortype"@) + editor_group(m, "editora"@, "editoratype"@)
        + editor_group(m, "editorb"@, "editorbtype"@) + editor_group(m, "editorc"@, "editorctype"@)
}

/// The values of a list of editor groups.
pub open spec fn editor_views(v: Seq<(Vec<Person>, EditorType)>) -> Seq<(Seq<PersonView>, EditorType)> {
    v.map_values(|g: (Vec<Person>, EditorType)| (person_views(g.0@), g.1))
}

/// The entry after a date was stored under the full date field of the
/// given names, with the year, month and day fields dropped.
pub open spec fn ev_set_date_in(
    ev: EntryView,
    d: Date,
    date_key: Seq<char>,
    year_key: Seq<char>,
    month_key: Seq<char>,
    day_key: Seq<char>,
) -> EntryView {
    ev_delete(ev_delete(ev_delete(ev_set(ev, date_key, date_chunks(d)), year_key), month_key), day_key)
}

/// The entry after `set_date(d)`.
pub open spec fn ev_set_date(ev: EntryView, d: Date) -> EntryView {
    ev_set_date_in(ev, d, "date"@, "year"@, "month"@, "day"@)
}

/// The chunks a date is stored as.
pub open spec fn date_chunks(d: Date) -> Seq<ChunkView> {
    seq![ChunkView::Normal(crate::types::date_text(d))]
}

/// The field map after a date is set under the given names: the full
/// date field holds it and the year, month and day fields are gone.
pub open spec fn with_date_in(
    m: FieldMap,
    d: Date,
    date_key: Seq<char>,
    year_key: Seq<char>,
    month_key: Seq<char>,
    day_key: Seq<char>,
) -> FieldMap {
    m.insert(lower_key(date_key), date_chunks(d)).remove(year_key).remove(month_key).remove(day_key)
}

/// The field map after a date is set: `date` holds it and `year`,
/// `month` and `day` are gone.
pub open spec fn with_date(m: FieldMap, d: Date) -> FieldMap {
    with_date_in(m, d, "date"@, "year"@, "month"@, "day"@)
}

impl Entry {
    /// Get the chunk slice for a field and parse it as a specific type.
    pub fn get_as<T: Type>(&self, key: &str) -> (r: Result<T, RetrievalError>)
        ensures
            reports(r, fetch::<T>(self@.get(key@)), key@),
    {
        match self.get(key) {
            None => Err(RetrievalError::Missing(String::from_str(key))),
            Some(chunks) => match T::from_chunks(chunks) {
                Ok(v) => Ok(v),
                Err(e) => Err(RetrievalError::TypeError(e)),
            },
        }
    }

    /// Get an entry but return None for empty chunk slices.
    fn get_non_empty(&self, key: &str) -> (r: Option<&[Chunk]>)
        ensures
            match r {
                Some(c) => self@.get(key@) == Some(chunks_view(c@)) && c@.len() > 0,
                None => !(self@.get(key@) matches Some(c) && c.len() > 0),
            },
    {
        match self.get(key) {
            Some(f) => if f.len() == 0 {
                None
            } else {
                Some(f)
            },
            None => None,
        }
    }

    /// The chunks of a field, or a report that it is missing.
    pub(crate) fn get_chunks(&self, key: &str) -> (r: Result<&[Chunk], RetrievalError>)
        ensures
            reports_chunks(r, self@.get(key@), key@),
    {
        match self.get(key) {
            Some(c) => Ok(c),
            None => Err(RetrievalError::Missing(String::from_str(key))),
        }
    }

    /// The chunks of a field, falling back on `alias` when it is missing.
    pub(crate) fn get_either(&self, key: &str, alias: &str) -> (r: Result<&[Chunk], RetrievalError>)
        ensures
            reports_chunks(r, either(self@.field_map(), key@, alias@), key@),
    {
        match self.get(key) {
            Some(c) => Ok(c),
            None => match self.get(alias) {
                Some(c) => Ok(c),
                None => Err(RetrievalError::Missing(String::from_str(key))),
            },
        }
    }

    /// Reads a field as `T`, falling back on `alias` when it is missing.
    pub(crate) fn get_either_as<T: Type>(&self, key: &str, alias: &str) -> (r: Result<T, RetrievalError>)
        ensures
            reports(r, fetch::<T>(either(self@.field_map(), key@, alias@)), key@),
    {
        match self.get_either(key, alias) {
            Err(e) => Err(e),
            Ok(chunks) => match T::from_chunks(chunks) {
                Ok(v) => Ok(v),
                Err(e) => Err(RetrievalError::TypeError(e)),
            },
        }
    }

    /// Sets a field value as a chunk vector as a specific type.
    pub fn set_as<T: Type>(&mut self, key: &str, value: &T) -> (r: Result<(), TypeError>)
        ensures
            final(self)@.cite_key == old(self)@.cite_key,
            final(self).entry_type == old(self).entry_type,
            old(self)@.wf() ==> final(self)@.wf(),
            match T::spec_to_chunks(value.model()) {
                Some(c) => r is Ok && final(self)@ == ev_set(old(self)@, key@, c)
                    && final(self)@.field_map() == old(self)@.field_map().insert(lower_key(key@), c),
                None => r is Err && final(self)@ == old(self)@,
            },
    {
        let chunks = value.to_chunks()?;
        self.set(key, chunks);
        Ok(())
    }

    /// Renames a field if present.
    fn rename(&mut self, old_key: &str, new_key: &str)
        ensures
            final(self)@ == match old(self)@.field(old_key@) {
                Some(c) => ev_set(ev_delete(old(self)@, old_key@), new_key@, c),
                None => ev_delete(old(self)@, old_key@),
            },
            final(self)@.cite_key == old(self)@.cite_key,
            final(self).entry_type == old(self).entry_type,
            old(self)@.wf() ==> final(self)@.wf(),
            final(self)@.field_map() == match old(self)@.field(old_key@) {
                Some(c) => old(self)@.field_map().remove(old_key@).insert(lower_key(new_key@), c),
                None => old(self)@.field_map(),
            },
    {
        if let Some(chunks) = self.delete(old_key) {
            self.set(new_key, chunks);
        }
    }

    /// Reads the date stored under the given field names: the full date
    /// field, or else the year, month and day fields.
    fn get_date_in(&self, date_key: &str, year_key: &str, month_key: &str, day_key: &str) -> (r: Result<
        Date,
        RetrievalError,
    >)
        ensures
            reports(r, date_fetch_in(self@.field_map(), date_key@, year_key@, month_key@, day_key@), date_key@),
    {
        if let Some(chunks) = self.get(date_key) {
            match Date::from_chunks(chunks) {
                Ok(d) => Ok(d),
                Err(e) => Err(RetrievalError::TypeError(e)),
            }
        } else {
            let year = self.get(year_key);
            if year.is_none() {
                return Err(RetrievalError::Missing(String::from_str(date_key)));
            }
            match Date::new_from_three_fields(year, self.get(month_key), self.get(day_key)) {
                Ok(d) => Ok(d),
                Err(e) => Err(RetrievalError::TypeError(e)),
            }
        }
    }

    /// Stores a date under the full date field of the given names and
    /// drops the year, month and day fields.
    fn set_date_in(&mut self, item: Date, date_key: &str, year_key: &str, month_key: &str, day_key: &str) -> (r:
        Result<(), TypeError>)
        ensures
            final(self)@.cite_key == old(self)@.cite_key,
            final(self).entry_type == old(self).entry_type,
            old(self)@.wf() ==> final(self)@.wf(),
            r is Ok <==> crate::types::valid_date(item),
            r is Ok ==> final(self)@.field_map() == with_date_in(
                old(self)@.field_map(),
                item,
                date_key@,
                year_key@,
                month_key@,
                day_key@,
            ),
            r is Ok ==> final(self)@ == ev_set_date_in(old(self)@, item, date_key@, year_key@, month_key@, day_key@),
            r is Err ==> final(self)@ == old(self)@,
    {
        let chunks = item.to_chunks()?;
        self.set(date_key, chunks);
        self.delete(year_key);
        self.delete(month_key);
        self.delete(day_key);
        Ok(())
    }

    /// Get and parse the `date` field, falling back to the `year`, `month`,
    /// and `day` fields when not present.
    pub fn get_date(&self) -> (r: Result<Date, RetrievalError>)
        ensures
            reports(r, date_fetch(self@.field_map()), "date"@),
    {
        self.get_date_in("date", "year", "month", "day")
    }

    /// Set a value in the `date` field and drop `year`, `month` and `day`.
    pub fn set_date(&mut self, item: Date) -> (r: Result<(), TypeError>)
        ensures
            final(self)@.cite_key == old(self)@.cite_key,
            final(self).entry_type == old(self).entry_type,
            old(self)@.wf() ==> final(self)@.wf(),
            r is Ok <==> crate::types::valid_date(item),
            r is Ok ==> final(self)@.field_map() == with_date(old(self)@.field_map(), item),
            r is Ok ==> final(self)@ == ev_set_date(old(self)@, item),
            r is Err ==> final(self)@ == old(self)@,
    {
        self.set_date_in(item, "date", "year", "month", "day")
    }

    /// Get and parse the `eventdate` field, falling back to the `eventyear`,
    /// `eventmonth`, and `eventday` fields when not present.
    pub fn get_event_date(&self) -> (r: Result<Date, RetrievalError>)
        ensures
            reports(
                r,
                date_fetch_in(self@.field_map(), "eventdate"@, "eventyear"@, "eventmonth"@, "eventday"@),
                "eventdate"@,
            ),
    {
        self.get_date_in("eventdate", "eventyear", "eventmonth", "eventday")
    }

    /// Set a value in the `eventdate` field and drop `eventyear`,
    /// `eventmonth` and `eventday`.
    pub fn set_event_date(&mut self, item: Date) -> (r: Result<(), TypeError>)
        ensures
            r is Ok <==> crate::types::valid_date(item),
            r is Ok ==> final(self)@ == ev_set_date_in(
                old(self)@,
                item,
                "eventdate"@,
                "eventyear"@,
                "eventmonth"@,
                "eventday"@,
            ),
            r is Err ==> final(self)@ == old(self)@,
    {
        self.set_date_in(item, "eventdate", "eventyear", "eventmonth", "eventday")
    }

    /// Get and parse the `origdate` field, falling back to the `origyear`,
    /// `origmonth`, and `origday` fields when not present.
    pub fn get_orig_date(&self) -> (r: Result<Date, RetrievalError>)
        ensures
            reports(
                r,
                date_fetch_in(self@.field_map(), "origdate"@, "origyear"@, "origmonth"@, "origday"@),
                "origdate"@,
            ),
    {
        self.get_date_in("origdate", "origyear", "origmonth", "origday")
    }

    /// Set a value in the `origdate` field and drop `origyear`, `origmonth`
    /// and `origday`.
    pub fn set_orig_date(&mut self, item: Date) -> (r: Result<(), TypeError>)
        ensures
            r is Ok <==> crate::types::valid_date(item),
            r is Ok ==> final(self)@ == ev_set_date_in(
                old(self)@,
                item,
                "origdate"@,
                "origyear"@,
                "origmonth"@,
                "origday"@,
            ),
            r is Err ==> final(self)@ == old(self)@,
    {
        self.set_date_in(item, "origdate", "origyear", "origmonth", "origday")
    }

    /// Get and parse the `urldate` field, falling back to the `urlyear`,
    /// `urlmonth`, and `urlday` fields when not present.
    pub fn get_url_date(&self) -> (r: Result<Date, RetrievalError>)
        ensures
            reports(
                r,
                date_fetch_in(self@.field_map(), "urldate"@, "urlyear"@, "urlmonth"@, "urlday"@),
                "urldate"@,
            ),
    {
        self.get_date_in("urldate", "urlyear", "urlmonth", "urlday")
    }

    /// Set a value in the `urldate` field and drop `urlyear`, `urlmonth`
    /// and `urlday`.
    pub fn set_url_date(&mut self, item: Date) -> (r: Result<(), TypeError>)
        ensures
            r is Ok <==> crate::types::valid_date(item),
            r is Ok ==> final(self)@ == ev_set_date_in(
                old(self)@,
                item,
                "urldate"@,
                "urlyear"@,
                "urlmonth"@,
                "urlday"@,
            ),
            r is Err ==> final(self)@ == old(self)@,
    {
        self.set_date_in(item, "urldate", "urlyear", "urlmonth", "urlday")
    }

    /// Get and parse the `editor` and `editora` through `editorc` fields
    /// and their respective `editortype` annotation fields.
    /// If any of the above fields is present, this function will return a
    /// vector with between one and four entries, one for each editorial role.
    ///
    /// The default `EditorType::Editor` will be assumed if the type field
    /// is empty.
    pub fn get_editors(&self) -> (r: Result<Vec<(Vec<Person>, EditorType)>, RetrievalError>)
        ensures
            match r {
                Ok(v) => editor_views(v@) == editors_of(self@.field_map()) && 1 <= v@.len() <= 4,
                Err(e) => editors_of(self@.field_map()).len() == 0 && (e matches RetrievalError::Missing(k)
                    && k@ == "editor"@),
            },
    {
        let mut editors: Vec<(Vec<Person>, EditorType)> = Vec::new();
        self.push_editor_group("editor", "editortype", &mut editors);
        self.push_editor_group("editora", "editoratype", &mut editors);
        self.push_editor_group("editorb", "editorbtype", &mut editors);
        self.push_editor_group("editorc", "editorctype", &mut editors);
        assert(editor_views(editors@) =~= editors_of(self@.field_map()));
        if editors.len() == 0 {
            return Err(RetrievalError::Missing(String::from_str("editor")));
        }
        Ok(editors)
    }

    /// Appends the editors named by one editor field, if it is present.
    fn push_editor_group(&self, name_field: &str, type_field: &str, editors: &mut Vec<(Vec<Person>, EditorType)>)
        ensures
            editor_views(final(editors)@) == editor_views(old(editors)@) + editor_group(
                self@.field_map(),
                name_field@,
                type_field@,
            ),
    {
        let ghost before = editor_views(editors@);
        if let Some(chunks) = self.get(name_field) {
            if let Ok(persons) = <Vec<Person> as Type>::from_chunks(chunks) {
                let editor_type = match self.get(type_field) {
                    Some(c) => match EditorType::from_chunks(c) {
                        Ok(t) => t,
                        Err(_) => EditorType::Editor,
                    },
                    None => EditorType::Editor,
                };
                let ghost pv = person_views(persons@);
                editors.push((persons, editor_type));
                assert(editor_views(editors@) =~= before.push((pv, editor_type)));
            } else {
                assert(editor_views(editors@) =~= before + Seq::empty());
            }
        } else {
            assert(editor_views(editors@) =~= before + Seq::empty());
        }
    }

    /// Gets the parents of an entry in a semantic sense (`crossref` and `xref`).
    pub fn get_parents(&self) -> (r: Vec<String>)
        ensures
            crate::types::string_views(r@) == parents_of(self@.field_map()),
    {
        let mut res: Vec<String> = Vec::new();
        if let Ok(crossref) = self.get_as::<String>("crossref") {
            res.push(crossref);
        }
        let ghost first = crate::types::string_views(res@);
        if let Ok(xrefs) = self.get_as::<Vec<String>>("xref") {
            let mut i: usize = 0;
            while i < xrefs.len()
                invariant
                    i <= xrefs@.len(),
                    crate::types::string_views(res@) == first + crate::types::string_views(xrefs@).take(i as int),
                decreases xrefs@.len() - i,
            {
                let x = xrefs[i].clone();
                let ghost b = crate::types::string_views(res@);
                res.push(x);
                assert(crate::types::string_views(res@) =~= b.push(xrefs@[i as int]@));
                assert(crate::types::string_views(xrefs@).take(i + 1) =~= crate::types::string_views(xrefs@).take(i as int).push(xrefs@[i as int]@));
                i = i + 1;
            }
            assert(crate::types::string_views(xrefs@).take(xrefs@.len() as int) == crate::types::string_views(xrefs@));
        } else {
            assert(first + Seq::<Seq<char>>::empty() =~= first);
        }
        assert(crate::types::string_views(res@) =~= parents_of(self@.field_map()));
        res
    }
}

/// The parents of an entry: the `crossref` target, then the `xref` list.
pub open spec fn parents_of(m: FieldMap) -> Seq<Seq<char>> {
    let crossref: Seq<Seq<char>> = match map_get(m, "crossref"@) {
        Some(c) => seq![crate::chunk::verbatim_text(c)],
        None => Seq::empty(),
    };
    let xref: Seq<Seq<char>> = match map_get(m, "xref"@) {
        Some(c) => crate::types::comma_list(crate::chunk::verbatim_text(c)),
        None => Seq::empty(),
    };
    crossref + xref
}


/// The value found for `key` has at least one chunk.
pub open spec fn filled(m: FieldMap, key: Seq<char>) -> bool {
    map_get(m, key) matches Some(c) && c.len() > 0
}

/// Thesis types, which accept `institution` for `school`.
pub open spec fn is_thesis(t: EntryType) -> bool {
    t is Thesis || t is MastersThesis || t is PhdThesis
}

/// A required field counts as missing: it is empty and so is its alias
/// (`journal` for `journaltitle`, `address` for `location`, and for
/// theses `institution` for `school`).
pub open spec fn required_missing(m: FieldMap, t: EntryType, f: Seq<char>) -> bool {
    if f == "journaltitle"@ {
        !filled(m, f) && !filled(m, "journal"@)
    } else if f == "location"@ {
        !filled(m, f) && !filled(m, "address"@)
    } else if f == "school"@ && is_thesis(t) {
        !filled(m, f) && !filled(m, "institution"@)
    } else {
        !filled(m, f)
    }
}

/// The required fields that are missing, in order.
pub open spec fn missing_fields(m: FieldMap, t: EntryType, fs: Seq<&'static str>) -> Seq<&'static str>
    decreases fs.len(),
{
    if fs.len() == 0 {
        fs
    } else if required_missing(m, t, fs.last()@) {
        missing_fields(m, t, fs.drop_last()).push(fs.last())
    } else {
        missing_fields(m, t, fs.drop_last())
    }
}

/// The fields that are filled, in order.
pub open spec fn filled_fields(m: FieldMap, fs: Seq<&'static str>) -> Seq<&'static str>
    decreases fs.len(),
{
    if fs.len() == 0 {
        fs
    } else if filled(m, fs.last()@) {
        filled_fields(m, fs.drop_last()).push(fs.last())
    } else {
        filled_fields(m, fs.drop_last())
    }
}

/// `pages` reads as page ranges.
pub open spec fn pages_ok(m: FieldMap) -> bool {
    fetch::<Vec<std::ops::Range<u32>>>(map_get(m, "pages"@)) is Found
}

/// `chapter` is present.
pub open spec fn chapter_ok(m: FieldMap) -> bool {
    map_get(m, "chapter"@) is Some
}

/// `author` reads as a name list.
pub open spec fn author_ok(m: FieldMap) -> bool {
    fetch::<Vec<Person>>(map_get(m, "author"@)) is Found
}

/// Some editor field is present.
pub open spec fn editors_ok(m: FieldMap) -> bool {
    editors_of(m).len() > 0
}

/// `f` when `b` holds, else nothing.
pub open spec fn when(b: bool, f: &'static str) -> Seq<&'static str> {
    if b {
        seq![f]
    } else {
        Seq::empty()
    }
}

/// The fields an entry of type `t` lacks, in the order [`Entry::verify`]
/// reports them.
pub open spec fn expected_fields(m: FieldMap, t: EntryType) -> Seq<&'static str> {
    let reqs = requirements(t);
    let pages: Seq<&'static str> = match reqs.page_chapter_field {
        PagesChapterMode::PagesRequired => when(!pages_ok(m), "pages"),
        PagesChapterMode::PagesChapterRequired => when(!pages_ok(m) && !chapter_ok(m), "pages"),
        _ => Seq::empty(),
    };
    let people: Seq<&'static str> = match reqs.author_eds_field {
        AuthorMode::AuthorRequired => when(!author_ok(m), "author"),
        AuthorMode::AuthorRequiredEditorOptional => when(!author_ok(m), "author"),
        AuthorMode::AuthorEditorRequired => when(!author_ok(m) && !editors_ok(m), "author"),
        AuthorMode::EditorRequired => when(!editors_ok(m), "editor"),
        AuthorMode::EditorRequiredAuthorForbidden => when(!editors_ok(m), "editor"),
        AuthorMode::BothRequired => when(!editors_ok(m), "editor") + when(!author_ok(m), "author"),
        _ => Seq::empty(),
    };
    missing_fields(m, t, reqs.required) + when(reqs.needs_date && !(date_fetch(m) is Found), "year") + pages
        + people
}

/// The fields an entry of type `t` holds but must not, in the order
/// [`Entry::verify`] reports them.
pub open spec fn outlawed_fields(m: FieldMap, t: EntryType) -> Seq<&'static str> {
    let reqs = requirements(t);
    let pages: Seq<&'static str> = match reqs.page_chapter_field {
        PagesChapterMode::BothForbidden => when(pages_ok(m), "pages") + when(chapter_ok(m), "chapter"),
        _ => Seq::empty(),
    };
    let people: Seq<&'static str> = match reqs.author_eds_field {
        AuthorMode::EditorRequiredAuthorForbidden => when(author_ok(m), "author"),
        _ => Seq::empty(),
    };
    filled_fields(m, reqs.forbidden) + pages + people
}

impl Entry {
    /// Verify if the entry has all fields required for its `EntryType`.
    ///
    /// This function will return `Ok(())` upon successful validation.
    /// The Err variant of the Result will contain a pair carrying two vectors
    /// of keys: The first indicating fields that should have been present
    /// but were not, the second indicating fields that were set but are forbidden
    /// by the `EntryType`.
    ///
    /// **NOTE:** This function will not resolve the Entry.
    /// If you want to support / expect files using `crossref` and `xdata`,
    /// you will want to call this method only on entries obtained through the
    /// `Bibliography::get_resolved` call.
    pub fn verify(&self) -> (r: Result<(), (Vec<&'static str>, Vec<&'static str>)>)
        ensures
            match r {
                Ok(()) => expected_fields(self@.field_map(), self.entry_type).len() == 0 && outlawed_fields(
                    self@.field_map(),
                    self.entry_type,
                ).len() == 0,
                Err((expected, outlawed)) => {
                    &&& expected@ == expected_fields(self@.field_map(), self.entry_type)
                    &&& outlawed@ == outlawed_fields(self@.field_map(), self.entry_type)
                    &&& (expected@.len() > 0 || outlawed@.len() > 0)
                },
            },
    {
        let ghost m = self@.field_map();
        let ghost t = self.entry_type;
        let reqs = self.entry_type.get_requirements();
        let thesis = match self.entry_type {
            EntryType::Thesis | EntryType::MastersThesis | EntryType::PhdThesis => true,
            _ => false,
        };
        let mut expected: Vec<&'static str> = Vec::new();
        let mut outlawed: Vec<&'static str> = Vec::new();
        let mut i: usize = 0;
        while i < reqs.required.len()
            invariant
                i <= reqs.required@.len(),
                reqs@ == requirements(t),
                m == self@.field_map(),
                t == self.entry_type,
                thesis == is_thesis(t),
                expected@ == missing_fields(m, t, reqs.required@.take(i as int)),
            decreases reqs.required@.len() - i,
        {
            let field = reqs.required[i];
            assert(reqs.required@.take(i + 1).drop_last() == reqs.required@.take(i as int));
            let missing = if str_eq(field, "journaltitle") {
                self.get_non_empty(field).is_none() && self.get_non_empty("journal").is_none()
            } else if str_eq(field, "location") {
                self.get_non_empty(field).is_none() && self.get_non_empty("address").is_none()
            } else if str_eq(field, "school") && thesis {
                self.get_non_empty(field).is_none() && self.get_non_empty("institution").is_none()
            } else {
                self.get_non_empty(field).is_none()
            };
            if missing {
                expected.push(field);
            }
            i = i + 1;
        }
        assert(reqs.required@.take(reqs.required@.len() as int) == reqs.required@);
        let mut j: usize = 0;
        while j < reqs.forbidden.len()
            invariant
                j <= reqs.forbidden@.len(),
                reqs@ == requirements(t),
                m == self@.field_map(),
                outlawed@ == filled_fields(m, reqs.forbidden@.take(j as int)),
            decreases reqs.forbidden@.len() - j,
        {
            let field = reqs.forbidden[j];
            assert(reqs.forbidden@.take(j + 1).drop_last() == reqs.forbidden@.take(j as int));
            if self.get_non_empty(field).is_some() {
                outlawed.push(field);
            }
            j = j + 1;
        }
        assert(reqs.forbidden@.take(reqs.forbidden@.len() as int) == reqs.forbidden@);
        let ghost e1 = expected@;
        let ghost o1 = outlawed@;
        if reqs.needs_date {
            if self.get_date().is_err() {
                expected.push("year");
            }
        }
        let ghost e2 = expected@;
        assert(e2 == e1 + when(reqs.needs_date && !(date_fetch(m) is Found), "year"));
        match reqs.page_chapter_field {
            PagesChapterMode::PagesRequired => {
                if self.get_pages().is_err() {
                    expected.push("pages");
                }
            },
            PagesChapterMode::PagesChapterRequired => {
                if self.get_pages().is_err() && self.get_chapter().is_err() {
                    expected.push("pages");
                }
            },
            PagesChapterMode::BothForbidden => {
                if self.get_pages().is_ok() {
                    outlawed.push("pages");
                }
                if self.get_chapter().is_ok() {
                    outlawed.push("chapter");
                }
            },
            _ => {},
        }
        let ghost e3 = expected@;
        let ghost o3 = outlawed@;
        match reqs.author_eds_field {
            AuthorMode::AuthorRequired | AuthorMode::AuthorRequiredEditorOptional => {
                if self.get_author().is_err() {
                    expected.push("author");
                }
            },
            AuthorMode::AuthorEditorRequired => {
                if self.get_author().is_err() && self.get_editors().is_err() {
                    expected.push("author");
                }
            },
            AuthorMode::EditorRequired => {
                if self.get_editors().is_err() {
                    expected.push("editor");
                }
            },
            AuthorMode::EditorRequiredAuthorForbidden => {
                if self.get_editors().is_err() {
                    expected.push("editor");
                }
                if self.get_author().is_ok() {
                    outlawed.push("author");
                }
            },
            AuthorMode::BothRequired => {
                if self.get_editors().is_err() {
                    expected.push("editor");
                }
                if self.get_author().is_err() {
                    expected.push("author");
                }
            },
            _ => {},
        }
        assert(expected@ =~= expected_fields(m, t));
        assert(outlawed@ =~= outlawed_fields(m, t));
        if expected.len() == 0 && outlawed.len() == 0 {
            Ok(())
        } else {
            Err((expected, outlawed))
        }
    }
}


/// The field of a parent that title-like fields inherit from.
pub open spec fn title_source(f: Seq<char>) -> Seq<char> {
    if f.contains('s') {
        "subtitle"@
    } else if f.contains('a') {
        "titleaddon"@
    } else {
        "title"@
    }
}

/// The value that field `f` inherits from the parent `cr`, if any.
pub open spec fn inherited_value(f: Seq<char>, cr: EntryView) -> Option<Seq<ChunkView>> {
    let cm = cr.field_map();
    if (f == "journaltitle"@ || f == "journalsubtitle"@) && cr.entry_type is Periodical {
        map_get(cm, if f.contains('s') { "subtitle"@ } else { "title"@ })
    } else if (f == "booktitle"@ || f == "booksubtitle"@ || f == "booktitleaddon"@)
        && crate::mechanics::spec_is_collection(cr.entry_type) {
        map_get(cm, title_source(f))
    } else if (f == "maintitle"@ || f == "mainsubtitle"@ || f == "maintitleaddon"@)
        && crate::mechanics::spec_is_multi_volume(cr.entry_type) {
        map_get(cm, title_source(f))
    } else if f == "address"@ {
        either(cm, f, "location"@)
    } else if f == "institution"@ {
        either(cm, f, "school"@)
    } else if f == "school"@ {
        either(cm, f, "institution"@)
    } else if f == "journaltitle"@ {
        either(cm, f, "journal"@)
    } else if f == "title"@ || f == "addendum"@ || f == "note"@ {
        None
    } else {
        map_get(cm, f)
    }
}

/// The entry after each field of `fs` that it lacks was filled from `cr`.
pub open spec fn inherit_fields(ev: EntryView, fs: Seq<Seq<char>>, cr: EntryView) -> EntryView
    decreases fs.len(),
{
    if fs.len() == 0 {
        ev
    } else {
        let e = inherit_fields(ev, fs.drop_last(), cr);
        let f = fs.last();
        if e.get(f) is Some {
            e
        } else {
            match inherited_value(f, cr) {
                Some(v) => ev_set(e, f, v),
                None => e,
            }
        }
    }
}

/// The names of a list of field names.
pub open spec fn name_views(fs: Seq<&str>) -> Seq<Seq<char>> {
    fs.map_values(|f: &str| f@)
}

/// The fields an entry of type `t` may inherit from a parent with the
/// given field names: all fields its type asks for, and for `xdata`
/// entries every field of the parent.
pub open spec fn inheritable_fields(t: EntryType, parent_keys: Seq<Seq<char>>) -> Seq<Seq<char>> {
    let reqs = requirements(t);
    let base = name_views(reqs.required) + name_views(reqs.optional) + name_views(
        crate::mechanics::page_fields(reqs.page_chapter_field),
    ) + name_views(crate::mechanics::author_fields(reqs.author_eds_field));
    if t is XData {
        base + parent_keys
    } else {
        base
    }
}

/// The entry after it inherited from the parent `cr`: missing fields are
/// filled, and unless it is an `xdata` entry, a date of the parent
/// replaces its own when its type needs one.
pub open spec fn after_crossref(ev: EntryView, cr: EntryView) -> EntryView {
    let e = inherit_fields(ev, inheritable_fields(ev.entry_type, keys_of(cr.fields)), cr);
    if ev.entry_type is XData {
        e
    } else if requirements(ev.entry_type).needs_date && date_fetch(cr.field_map()) is Found {
        ev_set_date(e, date_fetch(cr.field_map())->Found_0)
    } else {
        e
    }
}

/// A date that is read from fields can be written back.
pub proof fn lemma_date_fetch_valid(m: FieldMap)
    ensures
        date_fetch(m) matches Fetch::Found(d) ==> crate::types::valid_date(d),
{
}

/// Appends the names of `src`.
fn push_names<'a>(dst: &mut Vec<&'a str>, src: &Vec<&'a str>)
    ensures
        name_views(final(dst)@) == name_views(old(dst)@) + name_views(src@),
{
    let ghost start = name_views(dst@);
    let mut i: usize = 0;
    while i < src.len()
        invariant
            i <= src@.len(),
            name_views(dst@) == start + name_views(src@).take(i as int),
        decreases src@.len() - i,
    {
        let ghost b = name_views(dst@);
        dst.push(src[i]);
        assert(name_views(dst@) =~= b.push(src@[i as int]@));
        assert(name_views(src@).take(i + 1) =~= name_views(src@).take(i as int).push(src@[i as int]@));
        i = i + 1;
    }
    assert(name_views(src@).take(src@.len() as int) == name_views(src@));
}

impl Entry {
    /// The value that field `f` inherits from `cr`.
    fn inherited<'a>(f: &str, cr: &'a Entry) -> (r: Option<&'a [Chunk]>)
        ensures
            match r {
                Some(c) => inherited_value(f@, cr@) == Some(chunks_view(c@)),
                None => inherited_value(f@, cr@) is None,
            },
    {
        let has_s = crate::text::str_contains_char(f, 's');
        let has_a = crate::text::str_contains_char(f, 'a');
        let title_key = if has_s {
            "subtitle"
        } else if has_a {
            "titleaddon"
        } else {
            "title"
        };
        let periodical = match cr.entry_type {
            EntryType::Periodical => true,
            _ => false,
        };
        if (str_eq(f, "journaltitle") || str_eq(f, "journalsubtitle")) && periodical {
            cr.get(if has_s { "subtitle" } else { "title" })
        } else if (str_eq(f, "booktitle") || str_eq(f, "booksubtitle") || str_eq(f, "booktitleaddon"))
            && cr.entry_type.is_collection() {
            cr.get(title_key)
        } else if (str_eq(f, "maintitle") || str_eq(f, "mainsubtitle") || str_eq(f, "maintitleaddon"))
            && cr.entry_type.is_multi_volume() {
            cr.get(title_key)
        } else if str_eq(f, "address") {
            match cr.get(f) {
                Some(c) => Some(c),
                None => cr.get("location"),
            }
        } else if str_eq(f, "institution") {
            match cr.get(f) {
                Some(c) => Some(c),
                None => cr.get("school"),
            }
        } else if str_eq(f, "school") {
            match cr.get(f) {
                Some(c) => Some(c),
                None => cr.get("institution"),
            }
        } else if str_eq(f, "journaltitle") {
            match cr.get(f) {
                Some(c) => Some(c),
                None => cr.get("journal"),
            }
        } else if str_eq(f, "title") || str_eq(f, "addendum") || str_eq(f, "note") {
            None
        } else {
            cr.get(f)
        }
    }

    /// Resolve data dependencies using another entry.
    pub(crate) fn resolve_single_crossref(&mut self, crossref: Entry)
        ensures
            final(self)@ == after_crossref(old(self)@, crossref@),
    {
        let typ = self.entry_type.clone();
        let requirements = typ.get_requirements();
        let mut active_fields: Vec<&str> = Vec::new();
        push_names(&mut active_fields, &requirements.required);
        push_names(&mut active_fields, &requirements.optional);
        push_names(&mut active_fields, &requirements.page_chapter_field.get_all_possible());
        push_names(&mut active_fields, &requirements.author_eds_field.get_all_possible());
        let xdata = match self.entry_type {
            EntryType::XData => true,
            _ => false,
        };
        if xdata {
            let ghost b = name_views(active_fields@);
            let mut k: usize = 0;
            while k < crossref.fields.len()
                invariant
                    k <= crossref.fields@.len(),
                    name_views(active_fields@) == b + keys_of(crossref@.fields).take(k as int),
                decreases crossref.fields@.len() - k,
            {
                let ghost b2 = name_views(active_fields@);
                active_fields.push(crossref.fields[k].0.as_str());
                assert(name_views(active_fields@) =~= b2.push(crossref.fields@[k as int].0@));
                assert(keys_of(crossref@.fields).take(k + 1) =~= keys_of(crossref@.fields).take(k as int).push(
                    crossref.fields@[k as int].0@,
                ));
                k = k + 1;
            }
            assert(keys_of(crossref@.fields).take(crossref.fields@.len() as int) =~= keys_of(crossref@.fields));
        }
        let ghost fs = name_views(active_fields@);
        assert(fs =~= inheritable_fields(old(self).entry_type, keys_of(crossref@.fields)));
        let ghost start = self@;
        let mut i: usize = 0;
        while i < active_fields.len()
            invariant
                i <= active_fields@.len(),
                fs == name_views(active_fields@),
                self@ == inherit_fields(start, fs.take(i as int), crossref@),
            decreases active_fields@.len() - i,
        {
            let f = active_fields[i];
            assert(fs.take(i + 1).drop_last() == fs.take(i as int));
            assert(fs[i as int] == f@);
            if self.get(f).is_none() {
                match Self::inherited(f, &crossref) {
                    Some(item) => {
                        let v = crate::chunk::clone_chunks(item);
                        self.set(f, v);
                    },
                    None => {},
                }
            }
            i = i + 1;
        }
        assert(fs.take(active_fields@.len() as int) == fs);
        if xdata {
            return;
        }
        if requirements.needs_date {
            if let Ok(date) = crossref.get_date() {
                proof {
                    lemma_date_fetch_valid(crossref@.field_map());
                }
                let r = self.set_date(date);
                assert(r is Ok);
            }
        }
    }
}


/// The entry after `rename(old, new)`.
pub open spec fn ev_rename(ev: EntryView, old: Seq<char>, new: Seq<char>) -> EntryView {
    match ev.field(old) {
        Some(c) => ev_set(ev_delete(ev, old), new, c),
        None => ev_delete(ev, old),
    }
}

/// The entry with BibTeX field names changed to their BibLaTeX names.
pub open spec fn biblatex_renamed(ev: EntryView) -> EntryView {
    ev_rename(ev_rename(ev_rename(ev, "journal"@, "journaltitle"@), "address"@, "location"@), "school"@, "institution"@)
}

/// One field in BibLaTeX syntax: `key = {value},` and a line break.
pub open spec fn field_line(k: Seq<char>, v: Seq<ChunkView>) -> Seq<char> {
    k + seq![' ', '=', ' '] + field_source(v) + seq![',', '\n']
}

/// The fields in order, one per line, leaving out `date` when `skip_date`.
pub open spec fn fields_text(fs: Seq<(Seq<char>, Seq<ChunkView>)>, skip_date: bool) -> Seq<char>
    decreases fs.len(),
{
    if fs.len() == 0 {
        Seq::empty()
    } else if skip_date && fs.last().0 == "date"@ {
        fields_text(fs.drop_last(), skip_date)
    } else {
        fields_text(fs.drop_last(), skip_date) + field_line(fs.last().0, fs.last().1)
    }
}

/// An entry in file syntax: `@type{key,`, the field lines and `}`.
pub open spec fn entry_text(kind_name: Seq<char>, key: Seq<char>, body: Seq<char>) -> Seq<char> {
    seq!['@'] + kind_name + seq!['{'] + key + seq![',', '\n'] + body + seq!['}']
}

/// An entry written as BibLaTeX.
pub open spec fn biblatex_text(ev: EntryView) -> Seq<char> {
    entry_text(
        crate::mechanics::entry_type_name(crate::mechanics::spec_to_biblatex(ev.entry_type)),
        ev.cite_key,
        fields_text(ev.fields, false),
    )
}

/// The entry with BibLaTeX field names changed to their BibTeX names.
pub open spec fn bibtex_renamed(ev: EntryView) -> EntryView {
    let t = crate::mechanics::spec_to_bibtex(ev.entry_type);
    let e = ev_rename(ev_rename(ev, "journaltitle"@, "journal"@), "location"@, "address"@);
    if t is PhdThesis || t is MastersThesis {
        ev_rename(e, "institution"@, "school"@)
    } else {
        e
    }
}

/// The entry after each field of `fs` was set to one normal chunk.
pub open spec fn set_fieldset(ev: EntryView, fs: Seq<(Seq<char>, Seq<char>)>) -> EntryView
    decreases fs.len(),
{
    if fs.len() == 0 {
        ev
    } else {
        ev_set(set_fieldset(ev, fs.drop_last()), fs.last().0, seq![ChunkView::Normal(fs.last().1)])
    }
}

/// The entry prepared for BibTeX: renamed fields, and the date also
/// written into `year`, `month` and `day`.
pub open spec fn bibtex_prepared(ev: EntryView) -> EntryView {
    let e = bibtex_renamed(ev);
    match date_fetch(e.field_map()) {
        Fetch::Found(d) => set_fieldset(e, crate::types::date_fieldset(d)),
        _ => e,
    }
}

/// An entry written as BibTeX, without its `date` field.
pub open spec fn bibtex_text(ev: EntryView) -> Seq<char> {
    entry_text(
        crate::mechanics::entry_type_name(crate::mechanics::spec_to_bibtex(ev.entry_type)),
        ev.cite_key,
        fields_text(ev.fields, true),
    )
}

/// Appends the field lines, leaving out `date` when `skip_date`.
fn append_fields(fields: &Vec<(String, Vec<Chunk>)>, skip_date: bool, out: &mut String)
    ensures
        final(out)@ == old(out)@ + fields_text(fields_view(fields@), skip_date),
{
    let ghost start = out@;
    let ghost fv = fields_view(fields@);
    let mut i: usize = 0;
    while i < fields.len()
        invariant
            i <= fields@.len(),
            fv == fields_view(fields@),
            out@ == start + fields_text(fv.take(i as int), skip_date),
        decreases fields@.len() - i,
    {
        assert(fv.take(i + 1).drop_last() == fv.take(i as int));
        assert(fv[i as int] == (fields@[i as int].0@, chunks_view(fields@[i as int].1@)));
        let key = fields[i].0.as_str();
        if !(skip_date && str_eq(key, "date")) {
            let ghost before = out@;
            out.append(key);
            crate::text::push_char(out, ' ');
            crate::text::push_char(out, '=');
            crate::text::push_char(out, ' ');
            let value = chunks_to_string(fields[i].1.as_slice());
            out.append(value.as_str());
            crate::text::push_char(out, ',');
            crate::text::push_char(out, '\n');
            assert(out@ =~= before + field_line(fv[i as int].0, fv[i as int].1));
        }
        i = i + 1;
    }
    assert(fv.take(fields@.len() as int) == fv);
}

/// Writes `@type{key,`, the field lines and `}`.
fn write_entry(kind_name: &str, key: &str, fields: &Vec<(String, Vec<Chunk>)>, skip_date: bool) -> (r: String)
    ensures
        r@ == entry_text(kind_name@, key@, fields_text(fields_view(fields@), skip_date)),
{
    let mut res = String::new();
    crate::text::push_char(&mut res, '@');
    res.append(kind_name);
    crate::text::push_char(&mut res, '{');
    res.append(key);
    crate::text::push_char(&mut res, ',');
    crate::text::push_char(&mut res, '\n');
    append_fields(fields, skip_date, &mut res);
    crate::text::push_char(&mut res, '}');
    assert(res@ =~= entry_text(kind_name@, key@, fields_text(fields_view(fields@), skip_date)));
    res
}

impl Entry {
    /// Will output the entry as a BibLaTeX string.
    pub fn as_biblatex_string(&mut self) -> (r: String)
        ensures
            final(self)@ == biblatex_renamed(old(self)@),
            r@ == biblatex_text(final(self)@),
    {
        self.rename("journal", "journaltitle");
        self.rename("address", "location");
        self.rename("school", "institution");
        let name = self.entry_type.to_biblatex().name();
        write_entry(name.as_str(), self.cite_key.as_str(), &self.fields, false)
    }

    /// Will output the entry as a BibTeX string.
    pub fn as_bibtex_string(&mut self) -> (r: String)
        ensures
            final(self)@ == bibtex_prepared(old(self)@),
            r@ == bibtex_text(final(self)@),
    {
        let bibtex_type = self.entry_type.to_bibtex();
        self.rename("journaltitle", "journal");
        self.rename("location", "address");
        let thesis = match bibtex_type {
            EntryType::PhdThesis | EntryType::MastersThesis => true,
            _ => false,
        };
        if thesis {
            self.rename("institution", "school");
        }
        let ghost renamed = self@;
        if let Ok(date) = self.get_date() {
            let fieldset = date.to_fieldset();
            let ghost fs = fieldset@.map_values(|p: (String, String)| (p.0@, p.1@));
            let mut i: usize = 0;
            while i < fieldset.len()
                invariant
                    i <= fieldset@.len(),
                    fs == fieldset@.map_values(|p: (String, String)| (p.0@, p.1@)),
                    self@ == set_fieldset(renamed, fs.take(i as int)),
                    self.entry_type == old(self).entry_type,
                    bibtex_type == crate::mechanics::spec_to_bibtex(old(self).entry_type),
                decreases fieldset@.len() - i,
            {
                assert(fs.take(i + 1).drop_last() == fs.take(i as int));
                assert(fs[i as int] == (fieldset@[i as int].0@, fieldset@[i as int].1@));
                let value = fieldset[i].1.clone();
                let v = vec![Chunk::Normal(value)];
                assert(chunks_view(v@) =~= seq![ChunkView::Normal(fs[i as int].1)]);
                self.set(fieldset[i].0.as_str(), v);
                i = i + 1;
            }
            assert(fs.take(fieldset@.len() as int) == fs);
        }
        let name = bibtex_type.name();
        write_entry(name.as_str(), self.cite_key.as_str(), &self.fields, true)
    }
}

} // verus!
