//! A BibLaTeX bibliography: entries addressed by cite keys and aliases.
use vstd::prelude::*;

pub mod assoc;
pub mod chunk;
pub mod entry;
pub mod fields;
pub mod laws;
pub mod mechanics;
pub mod name_lists;
pub mod parser;
pub mod raw;
pub mod round_trip;
pub mod text;
pub mod type_rules;
pub mod types;

pub use crate::chunk::{Chunk, ChunksExt};
pub use crate::entry::{Entry, EntryView, RetrievalError};
pub use crate::mechanics::EntryType;
pub use crate::raw::{RawBibliography, RawChunk, RawEntry};
use crate::raw::{
    abbreviations_view, raw_chunks_view, raw_fields_view, resolve, resolve_chunks, RawBibliographyView, RawChunkView,
    RawEntryView,
};
use crate::chunk::ChunkView;

use crate::entry::{insert_exact, after_crossref, biblatex_renamed, biblatex_text, ev_delete, map_get};
use crate::assoc::{
    assoc_map, find_key, first_index, keys_of, lemma_assoc_map, lemma_assoc_map_push, unique_keys,
};

verus! {

/// A fully parsed bibliography.
#[derive(Clone, Debug)]
pub struct Bibliography {
    items: Vec<Entry>,
    dict: Vec<(String, usize)>,
}

/// Why a change to a bibliography was refused.
#[derive(Debug, PartialEq, Eq)]
pub enum BibliographyError {
    /// The cite key is already in use.
    KeyAlreadyPresent,
    /// No entry has the given cite key or alias.
    ItemNotFound,
    /// The alias is already in use.
    AliasInUse,
    /// `crossref` and `xdata` references nest deeper than the number of
    /// entries, which only a cycle of references allows.
    ResolutionTooDeep,
}

/// The keys of the cite-key dictionary with their entry positions.
pub open spec fn dict_view(d: Seq<(String, usize)>) -> Seq<(Seq<char>, usize)> {
    d.map_values(|p: (String, usize)| (p.0@, p.1))
}

/// The dictionary after the entry at `idx` is removed: its keys are
/// dropped and later positions move down by one.
pub open spec fn reindex(s: Seq<(Seq<char>, usize)>, idx: usize) -> Seq<(Seq<char>, usize)>
    decreases s.len(),
{
    if s.len() == 0 {
        s
    } else if s.last().1 == idx {
        reindex(s.drop_last(), idx)
    } else {
        reindex(s.drop_last(), idx).push(
            (s.last().0, if s.last().1 > idx { (s.last().1 - 1) as usize } else { s.last().1 }),
        )
    }
}

/// The key map after the entry at `idx` is removed.
pub open spec fn remap(m: Map<Seq<char>, usize>, idx: usize) -> Map<Seq<char>, usize> {
    Map::new(
        |k: Seq<char>| m.contains_key(k) && m[k] != idx,
        |k: Seq<char>| if m[k] > idx { (m[k] - 1) as usize } else { m[k] },
    )
}

proof fn lemma_dict_keys(d: Seq<(String, usize)>)
    ensures
        keys_of(dict_view(d)) == crate::assoc::string_keys(d),
{
    assert(keys_of(dict_view(d)) =~= crate::assoc::string_keys(d));
}

/// With distinct keys, the last pair's key is new to the rest.
proof fn lemma_unique_last(s: Seq<(Seq<char>, usize)>)
    requires
        s.len() > 0,
        unique_keys(keys_of(s)),
    ensures
        !assoc_map(s.drop_last()).contains_key(s.last().0),
        unique_keys(keys_of(s.drop_last())),
        assoc_map(s) == assoc_map(s.drop_last()).insert(s.last().0, s.last().1),
{
    let d = s.drop_last();
    assert(forall|j: int| 0 <= j < d.len() ==> #[trigger] keys_of(d)[j] == keys_of(s)[j]);
    assert(keys_of(s)[s.len() - 1] == s.last().0);
    lemma_assoc_map(d, s.last().0);
    crate::assoc::lemma_first_index(keys_of(d), s.last().0);
}

proof fn lemma_reindex(s: Seq<(Seq<char>, usize)>, idx: usize)
    requires
        unique_keys(keys_of(s)),
    ensures
        assoc_map(reindex(s, idx)) == remap(assoc_map(s), idx),
        unique_keys(keys_of(reindex(s, idx))),
        forall|k: Seq<char>| assoc_map(reindex(s, idx)).contains_key(k) ==> assoc_map(s).contains_key(k),
    decreases s.len(),
{
    if s.len() == 0 {
        assert(remap(assoc_map(s), idx) =~= assoc_map(s));
    } else {
        lemma_unique_last(s);
        let d = s.drop_last();
        lemma_reindex(d, idx);
        let m = assoc_map(d);
        let l = s.last();
        if l.1 == idx {
            assert(remap(m.insert(l.0, l.1), idx) =~= remap(m, idx));
        } else {
            let r = reindex(d, idx);
            let v: usize = if l.1 > idx { (l.1 - 1) as usize } else { l.1 };
            assert(reindex(s, idx) == r.push((l.0, v)));
            assert(!assoc_map(r).contains_key(l.0));
            lemma_assoc_map_push(r, l.0, v);
            assert(remap(m.insert(l.0, l.1), idx) =~= remap(m, idx).insert(l.0, v));
            let rk = keys_of(r.push((l.0, v)));
            lemma_assoc_map(r, l.0);
            crate::assoc::lemma_first_index(keys_of(r), l.0);
            assert forall|a: int, b: int| 0 <= a < rk.len() && 0 <= b < rk.len() && a != b implies rk[a] != rk[b] by {
                assert(forall|j: int| 0 <= j < r.len() ==> #[trigger] rk[j] == keys_of(r)[j]);
                assert(rk[r.len() as int] == l.0);
            }
        }
    }
}

impl Bibliography {
    /// The entries, in the order in which they were added.
    pub closed spec fn entries(self) -> Seq<Entry> {
        self.items@
    }

    /// The cite keys and aliases, each with the position of its entry.
    pub closed spec fn key_map(self) -> Map<Seq<char>, usize> {
        assoc_map(dict_view(self.dict@))
    }

    /// Every key names a position of an entry.
    pub closed spec fn wf(self) -> bool {
        &&& unique_keys(keys_of(dict_view(self.dict@)))
        &&& forall|j: int| 0 <= j < self.dict@.len() ==> #[trigger] self.dict@[j].1 < self.items@.len()
    }

    /// The entry that a cite key or alias names.
    pub open spec fn lookup(self, key: Seq<char>) -> Option<Entry> {
        if self.key_map().contains_key(key) {
            Some(self.entries()[self.key_map()[key] as int])
        } else {
            None
        }
    }

    /// In a well-formed bibliography every key names an existing entry.
    pub proof fn lemma_wf_keys(self)
        requires
            self.wf(),
        ensures
            forall|k: Seq<char>| #[trigger] self.key_map().contains_key(k) ==> self.key_map()[k] < self.entries().len(),
            self.entries().len() <= usize::MAX,
    {
        assert(self.items.len() == self.items@.len());
        assert forall|k: Seq<char>| #[trigger] self.key_map().contains_key(k) implies self.key_map()[k] < self.entries().len() by {
            lemma_assoc_map(dict_view(self.dict@), k);
            crate::assoc::lemma_first_index(keys_of(dict_view(self.dict@)), k);
            let i = first_index(keys_of(dict_view(self.dict@)), k);
            assert(dict_view(self.dict@)[i].1 == self.dict@[i].1);
        }
    }

    /// The position of the entry that `key` names.
    fn index_of(&self, key: &str) -> (r: Option<usize>)
        requires
            self.wf(),
        ensures
            r == self.key_map().index_opt(key@),
            r matches Some(i) ==> i < self.entries().len(),
    {
        proof {
            lemma_dict_keys(self.dict@);
            lemma_assoc_map(dict_view(self.dict@), key@);
            self.lemma_wf_keys();
        }
        match find_key(&self.dict, key) {
            Some(p) => {
                assert(dict_view(self.dict@)[p as int].1 == self.dict@[p as int].1);
                Some(self.dict[p].1)
            },
            None => None,
        }
    }

    /// Get a new, empty Bibliography
    pub fn new() -> (r: Self)
        ensures
            r.wf(),
            r.entries().len() == 0,
            r.key_map() == Map::<Seq<char>, usize>::empty(),
    {
        Self { items: Vec::new(), dict: Vec::new() }
    }

    /// Try to find an entry with the given cite key.
    pub fn get(&self, cite_key: &str) -> (r: Option<&Entry>)
        requires
            self.wf(),
        ensures
            match r {
                Some(e) => self.lookup(cite_key@) == Some(*e),
                None => self.lookup(cite_key@) is None,
            },
    {
        match self.index_of(cite_key) {
            Some(i) => Some(&self.items[i]),
            None => None,
        }
    }

    /// Try to find an entry with the given cite key and return a mutable reference.
    pub fn get_mut(&mut self, cite_key: &str) -> (r: Option<&mut Entry>)
        requires
            old(self).wf(),
        ensures
            match r {
                Some(e) => {
                    &&& old(self).lookup(cite_key@) == Some(*e)
                    &&& final(self).entries() == old(self).entries().update(
                        old(self).key_map()[cite_key@] as int,
                        *final(e),
                    )
                    &&& final(self).key_map() == old(self).key_map()
                    &&& final(self).wf()
                },
                None => {
                    &&& old(self).lookup(cite_key@) is None
                    &&& *final(self) == *old(self)
                },
            },
    {
        match self.index_of(cite_key) {
            Some(i) => Some(&mut self.items[i]),
            None => None,
        }
    }

    /// Will add an alias for a cite key if that alias is not yet in use
    pub fn add_alias(&mut self, cite_key: &str, alias: &str) -> (r: Result<(), BibliographyError>)
        requires
            old(self).wf(),
        ensures
            final(self).wf(),
            final(self).entries() == old(self).entries(),
            match r {
                Ok(()) => {
                    &&& old(self).key_map().contains_key(cite_key@)
                    &&& !old(self).key_map().contains_key(alias@)
                    &&& final(self).key_map() == old(self).key_map().insert(
                        alias@,
                        old(self).key_map()[cite_key@],
                    )
                },
                Err(e) => {
                    &&& final(self).key_map() == old(self).key_map()
                    &&& e == (if old(self).key_map().contains_key(cite_key@) {
                        BibliographyError::AliasInUse
                    } else {
                        BibliographyError::ItemNotFound
                    })
                    &&& (e == BibliographyError::AliasInUse ==> old(self).key_map().contains_key(alias@))
                },
            },
    {
        let index = match self.index_of(cite_key) {
            Some(i) => i,
            None => return Err(BibliographyError::ItemNotFound),
        };
        if self.index_of(alias).is_some() {
            return Err(BibliographyError::AliasInUse);
        }
        self.insert_key(String::from_str(alias), index);
        Ok(())
    }

    /// Records that `key` names the entry at `index`.
    fn insert_key(&mut self, key: String, index: usize)
        requires
            old(self).wf(),
            index < old(self).entries().len(),
            !old(self).key_map().contains_key(key@),
        ensures
            final(self).wf(),
            final(self).entries() == old(self).entries(),
            final(self).key_map() == old(self).key_map().insert(key@, index),
    {
        let ghost kv = key@;
        let ghost before = dict_view(self.dict@);
        proof {
            lemma_assoc_map_push(before, kv, index);
            lemma_assoc_map(before, kv);
            crate::assoc::lemma_first_index(keys_of(before), kv);
        }
        self.dict.push((key, index));
        proof {
            assert(dict_view(self.dict@) =~= before.push((kv, index)));
            let ks = keys_of(dict_view(self.dict@));
            assert forall|a: int, b: int| 0 <= a < ks.len() && 0 <= b < ks.len() && a != b implies ks[a] != ks[b] by {
                assert(forall|j: int| 0 <= j < before.len() ==> #[trigger] ks[j] == keys_of(before)[j]);
                assert(ks[before.len() as int] == kv);
            }
            assert forall|j: int| 0 <= j < self.dict@.len() implies #[trigger] self.dict@[j].1 < self.items@.len() by {
                if j < before.len() {
                    assert(self.dict@[j] == old(self).dict@[j]);
                }
            }
        }
    }

    /// Removes the entry that `cite_key` names, together with all its keys.
    pub fn remove_item(&mut self, cite_key: &str) -> (r: Result<Entry, BibliographyError>)
        requires
            old(self).wf(),
        ensures
            final(self).wf(),
            match r {
                Ok(e) => {
                    let idx = old(self).key_map()[cite_key@];
                    &&& old(self).lookup(cite_key@) == Some(e)
                    &&& final(self).entries() == old(self).entries().remove(idx as int)
                    &&& final(self).key_map() == remap(old(self).key_map(), idx)
                },
                Err(e) => {
                    &&& e == BibliographyError::ItemNotFound
                    &&& old(self).lookup(cite_key@) is None
                    &&& *final(self) == *old(self)
                },
            },
    {
        let index = match self.index_of(cite_key) {
            Some(i) => i,
            None => return Err(BibliographyError::ItemNotFound),
        };
        let ghost before = dict_view(self.dict@);
        let mut old_dict: Vec<(String, usize)> = Vec::new();
        std::mem::swap(&mut old_dict, &mut self.dict);
        let entry = self.items.remove(index);
        let ghost orig = old_dict@;
        let mut kept: Vec<(String, usize)> = Vec::new();
        for p in it: old_dict.into_iter()
            invariant
                orig == it.seq(),
                dict_view(orig) == before,
                dict_view(kept@) == reindex(before.take(it.index()), index),
        {
            let ghost idx = it.index();
            assert(before.take(idx + 1).drop_last() == before.take(idx));
            assert(before[idx] == (p.0@, p.1));
            if p.1 != index {
                let v = if p.1 > index { p.1 - 1 } else { p.1 };
                let ghost kv = dict_view(kept@);
                kept.push((p.0, v));
                assert(dict_view(kept@) =~= kv.push((before[idx].0, v)));
            }
        }
        assert(before.take(orig.len() as int) == before);
        proof {
            lemma_reindex(before, index);
        }
        self.dict = kept;
        proof {
            let d = dict_view(self.dict@);
            assert forall|j: int| 0 <= j < self.dict@.len() implies #[trigger] self.dict@[j].1 < self.items@.len() by {
                assert(d[j].1 == self.dict@[j].1);
                assert(keys_of(d)[j] == d[j].0);
                crate::assoc::lemma_first_index_at(keys_of(d), d[j].0, j);
                lemma_assoc_map(d, d[j].0);
                old(self).lemma_wf_keys();
            }
        }
        Ok(entry)
    }

    /// Get the amount of bibliography items.
    pub fn len(&self) -> (r: usize)
        ensures
            r == self.entries().len(),
    {
        self.items.len()
    }

    /// An iterator over the bibliography's entries.
    pub fn iter<'a>(&'a self) -> (r: std::slice::Iter<'a, Entry>)
        ensures
            vstd::std_specs::slice::into_iter_elts(r) == self.entries(),
    {
        let r = self.items.as_slice().iter();
        proof {
            broadcast use vstd::std_specs::slice::axiom_spec_slice_iter;
        }
        r
    }
}


impl IntoIterator for Bibliography {
    type Item = Entry;
    type IntoIter = std::vec::IntoIter<Entry>;

    /// The bibliography's entries, in the order in which they were added.
    fn into_iter(self) -> (r: std::vec::IntoIter<Entry>)
        ensures
            vstd::std_specs::vec::into_iter_elts(r) == self.entries(),
    {
        let r = self.items.into_iter();
        proof {
            broadcast use vstd::std_specs::vec::axiom_spec_into_iter;
        }
        r
    }
}

/// The value of the entry that `key` names.
pub open spec fn lookup_view(bib: Bibliography, key: Seq<char>) -> Option<EntryView> {
    match bib.lookup(key) {
        Some(e) => Some(e@),
        None => None,
    }
}

/// The values of the entries that the keys name, when all of them exist.
pub open spec fn lookup_all(bib: Bibliography, keys: Seq<Seq<char>>) -> Option<Seq<EntryView>>
    decreases keys.len(),
{
    if keys.len() == 0 {
        Some(Seq::empty())
    } else {
        match (lookup_all(bib, keys.drop_last()), lookup_view(bib, keys.last())) {
            (Some(a), Some(e)) => Some(a.push(e)),
            _ => None,
        }
    }
}

/// The parents an entry draws data from: the `crossref` target, then the
/// `xdata` entries; `None` when one of them does not exist.
pub open spec fn parents_to_resolve(ev: EntryView, bib: Bibliography) -> Option<Seq<EntryView>> {
    let m = ev.field_map();
    let crossref: Option<Seq<EntryView>> = match map_get(m, "crossref"@) {
        None => Some(Seq::empty()),
        Some(c) => match lookup_view(bib, crate::chunk::verbatim_text(c)) {
            Some(e) => Some(seq![e]),
            None => None,
        },
    };
    let xdata: Option<Seq<EntryView>> = match map_get(m, "xdata"@) {
        None => Some(Seq::empty()),
        Some(c) => lookup_all(bib, crate::types::comma_list(crate::chunk::verbatim_text(c))),
    };
    match (crossref, xdata) {
        (Some(a), Some(b)) => Some(a + b),
        _ => None,
    }
}

/// The entry with all `crossref` and `xdata` dependencies resolved,
/// parents resolved first, nesting at most `depth` levels deep.
pub open spec fn resolved(ev: EntryView, bib: Bibliography, depth: nat) -> Option<EntryView>
    decreases depth, 0nat,
{
    match parents_to_resolve(ev, bib) {
        None => None,
        Some(ps) => if ps.len() == 0 {
            Some(ev_delete(ev_delete(ev, "crossref"@), "xdata"@))
        } else if depth == 0 {
            None
        } else {
            match resolve_each(ev, ps, bib, (depth - 1) as nat) {
                Some(e) => Some(ev_delete(ev_delete(e, "crossref"@), "xdata"@)),
                None => None,
            }
        },
    }
}

/// The entry after it inherited from each resolved parent in turn.
pub open spec fn resolve_each(ev: EntryView, ps: Seq<EntryView>, bib: Bibliography, depth: nat) -> Option<EntryView>
    decreases depth, ps.len() + 1,
{
    if ps.len() == 0 {
        Some(ev)
    } else {
        match resolve_each(ev, ps.drop_last(), bib, depth) {
            None => None,
            Some(e) => match resolved(ps.last(), bib, depth) {
                None => None,
                Some(p) => Some(after_crossref(e, p)),
            },
        }
    }
}

proof fn lemma_resolve_each_prefix(ev: EntryView, ps: Seq<EntryView>, bib: Bibliography, depth: nat, k: int)
    requires
        0 < k <= ps.len(),
        resolve_each(ev, ps.take(k), bib, depth) is None,
    ensures
        resolve_each(ev, ps, bib, depth) is None,
    decreases ps.len() - k,
{
    if k == ps.len() {
        assert(ps.take(k) == ps);
    } else {
        assert(ps.take(k + 1).drop_last() == ps.take(k));
        lemma_resolve_each_prefix(ev, ps, bib, depth, k + 1);
    }
}

impl Entry {
    /// Resolves all data dependancies defined by `crossref` and `xdata` fields.
    fn resolve_crossrefs(&mut self, bib: &Bibliography, depth: usize) -> (r: Result<(), BibliographyError>)
        requires
            bib.wf(),
        ensures
            match resolved(old(self)@, *bib, depth as nat) {
                Some(e) => r is Ok && final(self)@ == e,
                None => r is Err,
            },
            parents_to_resolve(old(self)@, *bib) is None ==> final(self)@ == old(self)@,
        decreases depth,
    {
        let ghost ev0 = self@;
        let crossref = self.get_as::<String>("crossref");
        let references = self.get_as::<Vec<String>>("xdata");
        let mut refs: Vec<Entry> = Vec::new();
        if let Ok(key) = crossref {
            match bib.get(key.as_str()) {
                Some(e) => refs.push(e.clone()),
                None => {
                    assert(parents_to_resolve(ev0, *bib) is None);
                    return Err(BibliographyError::ItemNotFound);
                },
            }
        }
        let ghost first = entry_views(refs@);
        if let Ok(keys) = references {
            let ghost kv = crate::types::string_views(keys@);
            let mut i: usize = 0;
            while i < keys.len()
                invariant
                    i <= keys@.len(),
                    bib.wf(),
                    kv == crate::types::string_views(keys@),
                    ev0 == old(self)@,
                    map_get(ev0.field_map(), "xdata"@) matches Some(c) && kv == crate::types::comma_list(
                        crate::chunk::verbatim_text(c),
                    ),
                    lookup_all(*bib, kv.take(i as int)) == Some(entry_views(refs@).subrange(
                        first.len() as int,
                        refs@.len() as int,
                    )),
                    entry_views(refs@).take(first.len() as int) == first,
                    first.len() <= refs@.len(),
                decreases keys@.len() - i,
            {
                assert(kv.take(i + 1).drop_last() == kv.take(i as int));
                assert(kv[i as int] == keys@[i as int]@);
                match bib.get(keys[i].as_str()) {
                    Some(e) => {
                        let ghost b = entry_views(refs@);
                        refs.push(e.clone());
                        assert(entry_views(refs@) =~= b.push(e@));
                        assert(entry_views(refs@).subrange(first.len() as int, refs@.len() as int) =~= b.subrange(
                            first.len() as int,
                            b.len() as int,
                        ).push(e@));
                        assert(entry_views(refs@).take(first.len() as int) =~= b.take(first.len() as int));
                    },
                    None => {
                        proof {
                            lemma_lookup_all_prefix(*bib, kv, i as int + 1);
                        }
                        assert(lookup_all(*bib, kv) is None);
                        assert(parents_to_resolve(ev0, *bib) is None);
                        return Err(BibliographyError::ItemNotFound);
                    },
                }
                i = i + 1;
            }
            assert(kv.take(keys@.len() as int) == kv);
        } else {
            assert(entry_views(refs@).subrange(first.len() as int, refs@.len() as int) =~= Seq::<EntryView>::empty());
        }
        let ghost ps = entry_views(refs@);
        assert(ps =~= first + ps.subrange(first.len() as int, refs@.len() as int));
        assert(first == match map_get(ev0.field_map(), "crossref"@) {
            None => Seq::<EntryView>::empty(),
            Some(c) => seq![lookup_view(*bib, crate::chunk::verbatim_text(c))->Some_0],
        });
        assert(parents_to_resolve(ev0, *bib) == Some(ps));
        if refs.len() > 0 && depth == 0 {
            return Err(BibliographyError::ResolutionTooDeep);
        }
        let ghost orig = refs@;
        for cr in it: refs.into_iter()
            invariant
                orig == it.seq(),
                ps == entry_views(orig),
                bib.wf(),
                orig.len() > 0 ==> depth > 0,
                ev0 == old(self)@,
                parents_to_resolve(ev0, *bib) == Some(ps),
                resolve_each(ev0, ps.take(it.index()), *bib, (depth - 1) as nat) == Some(self@),
        {
            let ghost idx = it.index();
            assert(ps.take(idx + 1).drop_last() == ps.take(idx));
            assert(ps[idx] == cr@);
            let mut cr = cr;
            match cr.resolve_crossrefs(bib, depth - 1) {
                Ok(()) => {},
                Err(e) => {
                    proof {
                        lemma_resolve_each_prefix(ev0, ps, *bib, (depth - 1) as nat, idx + 1);
                    }
                    assert(ps.len() > 0);
                    assert(resolved(ev0, *bib, depth as nat) is None);
                    return Err(e);
                },
            }
            self.resolve_single_crossref(cr);
        }
        assert(ps.take(orig.len() as int) == ps);
        self.delete("crossref");
        self.delete("xdata");
        Ok(())
    }
}

/// The values of a list of entries.
pub open spec fn entry_views(v: Seq<Entry>) -> Seq<EntryView> {
    v.map_values(|e: Entry| e@)
}

proof fn lemma_lookup_all_prefix(bib: Bibliography, keys: Seq<Seq<char>>, k: int)
    requires
        0 < k <= keys.len(),
        lookup_view(bib, keys[k - 1]) is None,
    ensures
        lookup_all(bib, keys) is None,
    decreases keys.len() - k,
{
    if k == keys.len() {
        assert(keys.last() == keys[k - 1]);
    } else {
        lemma_lookup_all_prefix(bib, keys.drop_last(), k);
    }
}

impl Bibliography {
    /// Try to find an entry with the given cite key and return an Entry
    /// with all `crossref` and `xdata` dependencies resolved.
    pub fn get_resolved(&mut self, cite_key: &str) -> (r: Option<Entry>)
        requires
            old(self).wf(),
        ensures
            *final(self) == *old(self),
            match r {
                Some(e) => old(self).lookup(cite_key@) matches Some(x) && resolved(
                    x@,
                    *old(self),
                    old(self).entries().len(),
                ) == Some(e@),
                None => match old(self).lookup(cite_key@) {
                    Some(x) => resolved(x@, *old(self), old(self).entries().len()) is None,
                    None => true,
                },
            },
    {
        let mut e = match self.get(cite_key) {
            Some(e) => e.clone(),
            None => return None,
        };
        let depth = self.len();
        match e.resolve_crossrefs(&*self, depth) {
            Ok(()) => Some(e),
            Err(_) => None,
        }
    }
}


/// The key map after each id in turn became an alias of the entry at
/// `idx`, stopping at the first id already in use; the flag tells whether
/// all ids were added.
pub open spec fn alias_all(m: Map<Seq<char>, usize>, ids: Seq<Seq<char>>, idx: usize) -> (Map<Seq<char>, usize>, bool)
    decreases ids.len(),
{
    if ids.len() == 0 {
        (m, true)
    } else if m.contains_key(ids[0]) {
        (m, false)
    } else {
        alias_all(m.insert(ids[0], idx), ids.drop_first(), idx)
    }
}

/// The aliases an entry asks for in its `ids` field.
pub open spec fn entry_ids(ev: EntryView) -> Seq<Seq<char>> {
    match ev.get("ids"@) {
        Some(c) => crate::types::comma_list(crate::chunk::verbatim_text(c)),
        None => Seq::empty(),
    }
}

impl Bibliography {
    /// Add a new entry of that type to the bibliography if the cite key
    /// is not already in use. The aliases listed in its `ids` field are
    /// added in turn; the first one already in use stops this with an error,
    /// and the entry stays added.
    pub fn add(&mut self, entry: Entry) -> (r: Result<(), BibliographyError>)
        requires
            old(self).wf(),
        ensures
            final(self).wf(),
            old(self).key_map().contains_key(entry.cite_key@) ==> r == Err::<(), BibliographyError>(
                BibliographyError::KeyAlreadyPresent,
            ) && *final(self) == *old(self),
            !old(self).key_map().contains_key(entry.cite_key@) ==> {
                let n = old(self).entries().len() as usize;
                let outcome = alias_all(
                    old(self).key_map().insert(entry.cite_key@, n),
                    entry_ids(entry@),
                    n,
                );
                &&& final(self).entries() == old(self).entries().push(entry)
                &&& final(self).key_map() == outcome.0
                &&& (r is Ok <==> outcome.1)
                &&& (r is Err ==> r == Err::<(), BibliographyError>(BibliographyError::AliasInUse))
            },
    {
        if self.index_of(entry.cite_key.as_str()).is_some() {
            return Err(BibliographyError::KeyAlreadyPresent);
        }
        let ghost ev = entry@;
        let key = entry.cite_key.clone();
        let n = self.items.len();
        self.items.push(entry);
        proof {
            assert forall|j: int| 0 <= j < self.dict@.len() implies #[trigger] self.dict@[j].1 < self.items@.len() by {
                assert(self.dict@[j] == old(self).dict@[j]);
            }
        }
        self.insert_key(key.clone(), n);
        let ids = self.items[n].get_as::<Vec<String>>("ids");
        let ghost m1 = self.key_map();
        let ghost entries = self.entries();
        if let Ok(ids) = ids {
            let ghost iv = crate::types::string_views(ids@);
            assert(iv == entry_ids(ev));
            let mut i: usize = 0;
            assert(iv.skip(0) == iv);
            while i < ids.len()
                invariant
                    i <= ids@.len(),
                    self.wf(),
                    iv == crate::types::string_views(ids@),
                    self.entries() == entries,
                    n < entries.len(),
                    key@ == ev.cite_key,
                    self.key_map().contains_key(key@),
                    self.key_map()[key@] == n,
                    alias_all(m1, iv, n) == alias_all(self.key_map(), iv.skip(i as int), n),
                    m1 == old(self).key_map().insert(ev.cite_key, n),
                    n == old(self).entries().len(),
                    entries == old(self).entries().push(entry),
                    ev == entry@,
                    !old(self).key_map().contains_key(ev.cite_key),
                    iv == entry_ids(ev),
                decreases ids@.len() - i,
            {
                assert(iv.skip(i as int)[0] == iv[i as int]);
                assert(iv.skip(i as int).drop_first() == iv.skip(i + 1));
                assert(iv[i as int] == ids@[i as int]@);
                match self.add_alias(key.as_str(), ids[i].as_str()) {
                    Ok(()) => {},
                    Err(e) => {
                        return Err(e);
                    },
                }
                i = i + 1;
            }
            assert(iv.skip(ids@.len() as int) == Seq::<Seq<char>>::empty());
        }
        Ok(())
    }

    /// Add a new, empty entry of that type to the bibliography if the cite
    /// key is not already in use.
    pub fn add_empty(&mut self, cite_key: &str, entry_type: EntryType) -> (r: Result<&mut Entry, BibliographyError>)
        requires
            old(self).wf(),
        ensures
            match r {
                Ok(e) => {
                    let n = old(self).entries().len() as usize;
                    &&& !old(self).key_map().contains_key(cite_key@)
                    &&& e@.cite_key == cite_key@
                    &&& e.entry_type == entry_type
                    &&& e@.fields.len() == 0
                    &&& final(self).entries() == old(self).entries().push(*final(e))
                    &&& final(self).key_map() == old(self).key_map().insert(cite_key@, n)
                    &&& final(self).wf()
                },
                Err(x) => {
                    &&& x == BibliographyError::KeyAlreadyPresent
                    &&& old(self).key_map().contains_key(cite_key@)
                    &&& *final(self) == *old(self)
                },
            },
    {
        if self.index_of(cite_key).is_some() {
            return Err(BibliographyError::KeyAlreadyPresent);
        }
        let n = self.items.len();
        self.items.push(Entry::new(cite_key, entry_type));
        proof {
            assert forall|j: int| 0 <= j < self.dict@.len() implies #[trigger] self.dict@[j].1 < self.items@.len() by {
                assert(self.dict@[j] == old(self).dict@[j]);
            }
        }
        self.insert_key(String::from_str(cite_key), n);
        Ok(&mut self.items[n])
    }
}


/// Entries written as BibLaTeX, each followed by a line break.
pub open spec fn bibliography_text(es: Seq<EntryView>) -> Seq<char>
    decreases es.len(),
{
    if es.len() == 0 {
        Seq::empty()
    } else {
        bibliography_text(es.drop_last()) + biblatex_text(es.last()) + seq!['\n']
    }
}

impl Bibliography {
    /// Will output the entries as a BibLaTeX string. Each entry's BibTeX
    /// field names are changed to their BibLaTeX names on the way.
    pub fn as_biblatex_string(&mut self) -> (r: String)
        requires
            old(self).wf(),
        ensures
            final(self).wf(),
            final(self).key_map() == old(self).key_map(),
            entry_views(final(self).entries()) == entry_views(old(self).entries()).map_values(
                |e: EntryView| biblatex_renamed(e),
            ),
            r@ == bibliography_text(entry_views(final(self).entries())),
    {
        let mut res = String::new();
        let ghost orig = entry_views(self.items@);
        let ghost target = orig.map_values(|e: EntryView| biblatex_renamed(e));
        let mut i: usize = 0;
        while i < self.items.len()
            invariant
                i <= self.items@.len(),
                self.items@.len() == orig.len(),
                self.dict@ == old(self).dict@,
                self.items@.len() == old(self).items@.len(),
                orig == entry_views(old(self).items@),
                target == orig.map_values(|e: EntryView| biblatex_renamed(e)),
                forall|j: int| 0 <= j < i ==> #[trigger] entry_views(self.items@)[j] == target[j],
                forall|j: int| i <= j < orig.len() ==> #[trigger] entry_views(self.items@)[j] == orig[j],
                res@ == bibliography_text(target.take(i as int)),
            decreases orig.len() - i,
        {
            let ghost before = self.items@;
            let e = &mut self.items[i];
            let s = e.as_biblatex_string();
            assert(self.items@[i as int]@ == biblatex_renamed(before[i as int]@));
            assert(s@ == biblatex_text(self.items@[i as int]@));
            assert(self.items@.len() == before.len());
            assert(entry_views(before)[i as int] == orig[i as int]);
            assert(entry_views(self.items@)[i as int] == target[i as int]);
            res.append(s.as_str());
            crate::text::push_char(&mut res, '\n');
            assert(target.take(i + 1).drop_last() == target.take(i as int));
            assert forall|j: int| 0 <= j < i + 1 implies #[trigger] entry_views(self.items@)[j] == target[j] by {
                if j < i {
                    assert(self.items@[j] == before[j]);
                    assert(entry_views(before)[j] == target[j]);
                }
            }
            assert forall|j: int| i + 1 <= j < orig.len() implies #[trigger] entry_views(self.items@)[j] == orig[j] by {
                assert(self.items@[j] == before[j]);
                assert(entry_views(before)[j] == orig[j]);
            }
            i = i + 1;
        }
        assert(entry_views(self.items@) =~= target);
        assert(target.take(orig.len() as int) == target);
        proof {
            assert forall|j: int| 0 <= j < self.dict@.len() implies #[trigger] self.dict@[j].1 < self.items@.len() by {
                assert(old(self).dict@[j].1 < old(self).items@.len());
            }
        }
        res
    }
}


/// The fields an entry gets from raw fields: each value resolved, and a
/// later field with the same name replacing the value of an earlier one.
pub open spec fn raw_fields(
    fs: Seq<(Seq<char>, Seq<RawChunkView>)>,
    abbrs: Seq<(Seq<char>, Seq<ChunkView>)>,
) -> Seq<(Seq<char>, Seq<ChunkView>)>
    decreases fs.len(),
{
    if fs.len() == 0 {
        Seq::empty()
    } else {
        insert_exact(raw_fields(fs.drop_last(), abbrs), fs.last().0, resolve_chunks(fs.last().1, abbrs))
    }
}

/// `t` is the entry type that `name` stands for.
pub open spec fn names_type(name: Seq<char>, t: EntryType) -> bool {
    match crate::mechanics::entry_type_named(crate::text::lower_key(name)) {
        Some(x) => t == x,
        None => t matches EntryType::Unknown(s) && s@ == name,
    }
}

/// `ev` is the entry built from the raw entry `r`.
pub open spec fn built_from(ev: EntryView, r: RawEntryView, abbrs: Seq<(Seq<char>, Seq<ChunkView>)>) -> bool {
    &&& ev.cite_key == r.cite_key
    &&& names_type(r.entry_type, ev.entry_type)
    &&& ev.fields == raw_fields(r.fields, abbrs)
}

/// The entries and key map after `add` of an entry, whatever its outcome.
pub open spec fn add_view(state: (Seq<EntryView>, Map<Seq<char>, usize>), e: EntryView) -> (Seq<EntryView>, Map<Seq<char>, usize>) {
    if state.1.contains_key(e.cite_key) {
        state
    } else {
        let n = state.0.len() as usize;
        (state.0.push(e), alias_all(state.1.insert(e.cite_key, n), entry_ids(e), n).0)
    }
}

/// `b` is the bibliography built from `raw`: each raw entry in turn became
/// an entry with resolved abbreviations and was added; entries whose
/// addition failed were skipped.
pub open spec fn built_bibliography(b: Bibliography, raw: RawBibliographyView) -> bool {
    exists|es: Seq<EntryView>|
        {
            &&& es.len() == raw.entries.len()
            &&& forall|i: int| 0 <= i < es.len() ==> built_from(#[trigger] es[i], raw.entries[i], raw.abbreviations)
            &&& add_views(es) == (entry_views(b.entries()), b.key_map())
        }
}

/// The entries and key map after each entry in turn was added to an
/// empty bibliography.
pub open spec fn add_views(es: Seq<EntryView>) -> (Seq<EntryView>, Map<Seq<char>, usize>)
    decreases es.len(),
{
    if es.len() == 0 {
        (Seq::empty(), Map::empty())
    } else {
        add_view(add_views(es.drop_last()), es.last())
    }
}

impl Bibliography {
    /// Parse a bibliography from a raw bibliography: each raw entry in turn
    /// becomes an entry with resolved abbreviations and is added; entries
    /// whose addition fails are skipped.
    pub fn from_raw(raw: RawBibliography) -> (r: Self)
        ensures
            r.wf(),
            built_bibliography(r, raw@),
    {
        let mut res = Self::new();
        let ghost av = abbreviations_view(raw.abbreviations@);
        let ghost mut es: Seq<EntryView> = Seq::empty();
        let mut i: usize = 0;
        assert(entry_views(res.entries()) =~= Seq::<EntryView>::empty());
        while i < raw.entries.len()
            invariant
                i <= raw.entries@.len(),
                res.wf(),
                av == abbreviations_view(raw.abbreviations@),
                es.len() == i,
                forall|j: int| 0 <= j < i ==> built_from(#[trigger] es[j], raw.entries@[j]@, av),
                add_views(es) == (entry_views(res.entries()), res.key_map()),
            decreases raw.entries@.len() - i,
        {
            let raw_entry = &raw.entries[i];
            let mut entry = Entry::new(raw_entry.cite_key.as_str(), EntryType::robust_from_str(raw_entry.entry_type.as_str()));
            let ghost rf = raw_fields_view(raw_entry.fields@);
            let mut k: usize = 0;
            assert(entry@.fields =~= raw_fields(rf.take(0), av));
            while k < raw_entry.fields.len()
                invariant
                    k <= raw_entry.fields@.len(),
                    rf == raw_fields_view(raw_entry.fields@),
                    av == abbreviations_view(raw.abbreviations@),
                    entry@.fields == raw_fields(rf.take(k as int), av),
                    entry@.cite_key == raw_entry.cite_key@,
                    names_type(raw_entry.entry_type@, entry.entry_type),
                decreases raw_entry.fields@.len() - k,
            {
                assert(rf.take(k + 1).drop_last() == rf.take(k as int));
                assert(rf[k as int] == (raw_entry.fields@[k as int].0@, raw_chunks_view(raw_entry.fields@[k as int].1@)));
                let value = resolve(&raw_entry.fields[k].1, &raw.abbreviations);
                entry.set_exact(raw_entry.fields[k].0.clone(), value);
                k = k + 1;
            }
            assert(rf.take(raw_entry.fields@.len() as int) == rf);
            let ghost ev = entry@;
            let ghost before = (entry_views(res.entries()), res.key_map());
            let _ = res.add(entry);
            proof {
                let es2 = es.push(ev);
                assert(es2.drop_last() == es);
                assert(entry_views(res.entries()) =~= add_view(before, ev).0);
                assert forall|j: int| 0 <= j < i + 1 implies built_from(#[trigger] es2[j], raw.entries@[j]@, av) by {
                    if j < i {
                        assert(es2[j] == es[j]);
                    }
                }
                es = es2;
            }
            i = i + 1;
        }
        proof {
            assert(es.len() == raw@.entries.len());
            assert forall|j: int| 0 <= j < es.len() implies built_from(#[trigger] es[j], raw@.entries[j], raw@.abbreviations) by {
                assert(raw@.entries[j] == raw.entries@[j]@);
            }
        }
        res
    }

    /// Parse a bibliography from a source string. With `allow_bibtex`,
    /// field values may also be written in quotes, as BibTeX allows.
    pub fn from_str(src: &str, allow_bibtex: bool) -> (r: Self)
        ensures
            r.wf(),
            built_bibliography(r, crate::parser::parse_raw(src@, allow_bibtex)),
    {
        Self::from_raw(RawBibliography::from_str(src, allow_bibtex))
    }
}

} // verus!
