//! Bibliographies as read from a file, before abbreviations are resolved.
use vstd::prelude::*;

use crate::assoc::{assoc_map, find_key, first_index, keys_of, lemma_assoc_map};
use crate::chunk::{chunks_view, Chunk, ChunkView};

verus! {

/// One part of a field value as written in a file.
#[derive(Debug, Clone, PartialEq, Eq)]
pub enum RawChunk {
    /// Text subject to capitalization formatting.
    Normal(String),
    /// Text in braces, printed as written.
    Verbatim(String),
    /// The name of an abbreviation defined with `@string`.
    Abbreviation(String),
}

/// The mathematical value of a [`RawChunk`].
pub enum RawChunkView {
    Normal(Seq<char>),
    Verbatim(Seq<char>),
    Abbreviation(Seq<char>),
}

impl View for RawChunk {
    type V = RawChunkView;

    open spec fn view(&self) -> RawChunkView {
        match self {
            RawChunk::Normal(s) => RawChunkView::Normal(s@),
            RawChunk::Verbatim(s) => RawChunkView::Verbatim(s@),
            RawChunk::Abbreviation(s) => RawChunkView::Abbreviation(s@),
        }
    }
}

/// An entry as written in a file.
#[derive(Debug, Clone, PartialEq, Eq)]
pub struct RawEntry {
    /// The citation key.
    pub cite_key: String,
    /// The entry type as written, e.g. `article`.
    pub entry_type: String,
    /// The fields in the order in which they are written.
    pub fields: Vec<(String, Vec<RawChunk>)>,
}

/// A bibliography as written in a file.
#[derive(Debug, Clone, PartialEq, Eq)]
pub struct RawBibliography {
    /// The entries in the order in which they are written.
    pub entries: Vec<RawEntry>,
    /// The abbreviations defined with `@string`, with their values.
    pub abbreviations: Vec<(String, Vec<Chunk>)>,
}

/// The mathematical value of a [`RawEntry`].
pub struct RawEntryView {
    pub cite_key: Seq<char>,
    pub entry_type: Seq<char>,
    pub fields: Seq<(Seq<char>, Seq<RawChunkView>)>,
}

impl View for RawEntry {
    type V = RawEntryView;

    open spec fn view(&self) -> RawEntryView {
        RawEntryView {
            cite_key: self.cite_key@,
            entry_type: self.entry_type@,
            fields: raw_fields_view(self.fields@),
        }
    }
}

/// The mathematical value of a [`RawBibliography`].
pub struct RawBibliographyView {
    pub entries: Seq<RawEntryView>,
    pub abbreviations: Seq<(Seq<char>, Seq<ChunkView>)>,
}

impl View for RawBibliography {
    type V = RawBibliographyView;

    open spec fn view(&self) -> RawBibliographyView {
        RawBibliographyView {
            entries: self.entries@.map_values(|e: RawEntry| e@),
            abbreviations: abbreviations_view(self.abbreviations@),
        }
    }
}

/// The values of the fields of a raw entry.
pub open spec fn raw_fields_view(fs: Seq<(String, Vec<RawChunk>)>) -> Seq<(Seq<char>, Seq<RawChunkView>)> {
    fs.map_values(|p: (String, Vec<RawChunk>)| (p.0@, raw_chunks_view(p.1@)))
}

/// The values of a list of raw chunks.
pub open spec fn raw_chunks_view(cs: Seq<RawChunk>) -> Seq<RawChunkView> {
    cs.map_values(|c: RawChunk| c@)
}

/// The values of a list of abbreviations.
pub open spec fn abbreviations_view(a: Seq<(String, Vec<Chunk>)>) -> Seq<(Seq<char>, Seq<ChunkView>)> {
    a.map_values(|p: (String, Vec<Chunk>)| (p.0@, chunks_view(p.1@)))
}

/// The chunks a raw chunk stands for: an abbreviation is replaced by its
/// value, or by its name when it is not defined.
pub open spec fn resolve_chunk(c: RawChunkView, abbrs: Seq<(Seq<char>, Seq<ChunkView>)>) -> Seq<ChunkView> {
    match c {
        RawChunkView::Normal(s) => seq![ChunkView::Normal(s)],
        RawChunkView::Verbatim(s) => seq![ChunkView::Verbatim(s)],
        RawChunkView::Abbreviation(a) => match assoc_map(abbrs).index_opt(a) {
            Some(v) => v,
            None => seq![ChunkView::Normal(a)],
        },
    }
}

/// The chunks a raw field value stands for.
pub open spec fn resolve_chunks(cs: Seq<RawChunkView>, abbrs: Seq<(Seq<char>, Seq<ChunkView>)>) -> Seq<ChunkView>
    decreases cs.len(),
{
    if cs.len() == 0 {
        Seq::empty()
    } else {
        resolve_chunks(cs.drop_last(), abbrs) + resolve_chunk(cs.last(), abbrs)
    }
}

/// Resolves the abbreviations in a raw field value.
pub fn resolve(value: &Vec<RawChunk>, abbreviations: &Vec<(String, Vec<Chunk>)>) -> (r: Vec<Chunk>)
    ensures
        chunks_view(r@) == resolve_chunks(raw_chunks_view(value@), abbreviations_view(abbreviations@)),
{
    let ghost rv = raw_chunks_view(value@);
    let ghost av = abbreviations_view(abbreviations@);
    let mut r: Vec<Chunk> = Vec::new();
    let mut i: usize = 0;
    while i < value.len()
        invariant
            i <= value@.len(),
            rv == raw_chunks_view(value@),
            av == abbreviations_view(abbreviations@),
            chunks_view(r@) == resolve_chunks(rv.take(i as int), av),
        decreases value@.len() - i,
    {
        assert(rv.take(i + 1).drop_last() == rv.take(i as int));
        assert(rv[i as int] == value@[i as int]@);
        let ghost before = chunks_view(r@);
        match &value[i] {
            RawChunk::Normal(s) => {
                r.push(Chunk::Normal(s.clone()));
                assert(chunks_view(r@) =~= before + resolve_chunk(rv[i as int], av));
            },
            RawChunk::Verbatim(s) => {
                r.push(Chunk::Verbatim(s.clone()));
                assert(chunks_view(r@) =~= before + resolve_chunk(rv[i as int], av));
            },
            RawChunk::Abbreviation(a) => {
                proof {
                    assert(keys_of(av) =~= crate::assoc::string_keys(abbreviations@));
                    lemma_assoc_map(av, a@);
                }
                match find_key(abbreviations, a.as_str()) {
                    Some(p) => {
                        assert(av[p as int] == (abbreviations@[p as int].0@, chunks_view(abbreviations@[p as int].1@)));
                        let value_chunks = crate::chunk::clone_chunks(abbreviations[p].1.as_slice());
                        let mut j: usize = 0;
                        let ghost mid = chunks_view(r@);
                        while j < value_chunks.len()
                            invariant
                                j <= value_chunks@.len(),
                                chunks_view(r@) == mid + chunks_view(value_chunks@).take(j as int),
                            decreases value_chunks@.len() - j,
                        {
                            let c = value_chunks[j].clone();
                            let ghost b = chunks_view(r@);
                            r.push(c);
                            assert(chunks_view(r@) =~= b.push(value_chunks@[j as int]@));
                            assert(chunks_view(value_chunks@).take(j + 1) =~= chunks_view(value_chunks@).take(j as int).push(
                                value_chunks@[j as int]@,
                            ));
                            j = j + 1;
                        }
                        assert(chunks_view(value_chunks@).take(value_chunks@.len() as int) == chunks_view(value_chunks@));
                        assert(chunks_view(r@) =~= before + resolve_chunk(rv[i as int], av));
                    },
                    None => {
                        r.push(Chunk::Normal(a.clone()));
                        assert(chunks_view(r@) =~= before + resolve_chunk(rv[i as int], av));
                    },
                }
            },
        }
        i = i + 1;
    }
    assert(rv.take(value@.len() as int) == rv);
    r
}

} // verus!
