//! Field values as sequences of chunks.
use vstd::prelude::*;

use crate::text::{ascii_upper, char_to_uppercase, lower_key, push_char, spec_char_to_uppercase, to_lowercase};
use crate::types::{Type, TypeError};

verus! {

/// A chunk represents one part of a field value.
#[derive(Debug, PartialEq, Eq)]
pub enum Chunk {
    /// Normal values within quotes or single braces subject to
    /// capitalization formatting.
    Normal(String),
    /// Values nested in braces that are to be printed like specified
    /// in the file. Escapes keywords.
    ///
    /// Example: `"Inside {NASA}"` or `{Memes are {gReAT}}`.
    Verbatim(String),
}

/// The mathematical value of a chunk: its kind and its characters.
pub enum ChunkView {
    Normal(Seq<char>),
    Verbatim(Seq<char>),
}

impl ChunkView {
    /// The characters of the chunk, whatever its kind.
    pub open spec fn text(self) -> Seq<char> {
        match self {
            ChunkView::Normal(s) => s,
            ChunkView::Verbatim(s) => s,
        }
    }
}

impl View for Chunk {
    type V = ChunkView;

    open spec fn view(&self) -> ChunkView {
        match self {
            Chunk::Normal(s) => ChunkView::Normal(s@),
            Chunk::Verbatim(s) => ChunkView::Verbatim(s@),
        }
    }
}

impl Clone for Chunk {
    fn clone(&self) -> (r: Self)
        ensures
            r == *self,
    {
        match self {
            Chunk::Normal(s) => Chunk::Normal(s.clone()),
            Chunk::Verbatim(s) => Chunk::Verbatim(s.clone()),
        }
    }
}

/// The values of a sequence of chunks.
pub open spec fn chunks_view(cs: Seq<Chunk>) -> Seq<ChunkView> {
    cs.map_values(|c: Chunk| c@)
}

/// All characters of the chunks, in order.
pub open spec fn verbatim_text(cs: Seq<ChunkView>) -> Seq<char>
    decreases cs.len(),
{
    if cs.len() == 0 {
        Seq::empty()
    } else {
        verbatim_text(cs.drop_last()) + cs.last().text()
    }
}

/// Whether the chunks begin with a normal chunk that holds a character.
pub open spec fn starts_with_text(cs: Seq<ChunkView>) -> bool {
    cs.len() > 0 && cs[0] is Normal && cs[0].text().len() > 0
}

/// What a chunk adds to a sentence: `low`, its lower-cased text, for a
/// normal chunk, and its own text for a verbatim chunk.
pub open spec fn sentence_piece(c: ChunkView, low: Seq<char>) -> Seq<char> {
    match c {
        ChunkView::Normal(_) => low,
        ChunkView::Verbatim(s) => s,
    }
}

/// The pieces of the first `n` chunks, in order.
pub open spec fn sentence_pieces(cs: Seq<ChunkView>, lows: Seq<Seq<char>>, n: nat) -> Seq<char>
    decreases n,
{
    if n == 0 {
        Seq::empty()
    } else {
        sentence_pieces(cs, lows, (n - 1) as nat) + sentence_piece(cs[n - 1], lows[n - 1])
    }
}

/// A sentence made of the chunks: `capital` in front when the chunks begin
/// with a normal chunk that holds a character, then each chunk's piece,
/// where `lows[i]` is the lower-cased text of the normal chunk `i` (for a
/// leading normal chunk with text, of its text after the first character).
pub open spec fn sentence_with(cs: Seq<ChunkView>, capital: Seq<char>, lows: Seq<Seq<char>>) -> Seq<char> {
    if starts_with_text(cs) {
        capital + sentence_pieces(cs, lows, cs.len())
    } else {
        sentence_pieces(cs, lows, cs.len())
    }
}

/// The lower-cased text that each chunk contributes to its sentence: a
/// verbatim chunk keeps its text, a normal chunk is lower-cased, and a
/// leading normal chunk with text is lower-cased after its first character.
pub open spec fn sentence_lows(cs: Seq<ChunkView>) -> Seq<Seq<char>> {
    Seq::new(
        cs.len(),
        |i: int|
            match cs[i] {
                ChunkView::Verbatim(s) => s,
                ChunkView::Normal(s) => if i == 0 && s.len() > 0 {
                    lower_key(s.drop_first())
                } else {
                    lower_key(s)
                },
            },
    )
}

/// The upper-case form of a character: an ASCII character is raised on
/// its own, others go through the Unicode mapping of `char::to_uppercase`.
pub open spec fn upper_char(c: char) -> Seq<char> {
    if (c as int) < 128 {
        seq![ascii_upper(c)]
    } else {
        spec_char_to_uppercase(c)
    }
}

/// The upper-cased first character of a leading normal chunk, if there is one.
pub open spec fn sentence_capital(cs: Seq<ChunkView>) -> Seq<char> {
    if starts_with_text(cs) {
        upper_char(cs[0].text()[0])
    } else {
        Seq::empty()
    }
}

/// The chunks in sentence case: the first character of a leading normal
/// chunk in upper case, the rest of every normal chunk in lower case, and
/// verbatim chunks as written.
pub open spec fn sentence_text(cs: Seq<ChunkView>) -> Seq<char> {
    sentence_with(cs, sentence_capital(cs), sentence_lows(cs))
}

/// The character sequences held by a sequence of strings.
pub open spec fn string_views(ss: Seq<String>) -> Seq<Seq<char>> {
    ss.map_values(|s: String| s@)
}

/// Whether some chunk holds at least one character.
pub open spec fn has_content(cs: Seq<ChunkView>) -> bool {
    exists|i: int| 0 <= i < cs.len() && (#[trigger] cs[i]).text().len() > 0
}

/// How a chunk is written in a BibLaTeX field value: verbatim chunks keep
/// their braces.
pub open spec fn chunk_source(c: ChunkView) -> Seq<char> {
    match c {
        ChunkView::Normal(s) => s,
        ChunkView::Verbatim(s) => seq!['{'] + s + seq!['}'],
    }
}

/// The chunks as written in a field value, without the outer braces.
pub open spec fn chunks_source(cs: Seq<ChunkView>) -> Seq<char>
    decreases cs.len(),
{
    if cs.len() == 0 {
        Seq::empty()
    } else {
        chunks_source(cs.drop_last()) + chunk_source(cs.last())
    }
}

/// A field value written in BibLaTeX syntax: the chunks inside braces.
pub open spec fn field_source(cs: Seq<ChunkView>) -> Seq<char> {
    seq!['{'] + chunks_source(cs) + seq!['}']
}

/// Appends the characters of `s` to `out`.
pub fn append_str(out: &mut String, s: &str)
    ensures
        final(out)@ == old(out)@ + s@,
{
    out.append(s);
}

/// Appends the characters of the chunks from position `from` on.
fn verbatim_range(cs: &[Chunk], from: usize, out: &mut String)
    requires
        from <= cs@.len(),
    ensures
        final(out)@ == old(out)@ + verbatim_text(chunks_view(cs@).subrange(from as int, cs@.len() as int)),
{
    let ghost start = out@;
    let ghost v = chunks_view(cs@);
    let mut i: usize = from;
    assert(v.subrange(from as int, from as int) == Seq::<ChunkView>::empty());
    while i < cs.len()
        invariant
            from <= i <= cs@.len(),
            v == chunks_view(cs@),
            out@ == start + verbatim_text(v.subrange(from as int, i as int)),
        decreases cs@.len() - i,
    {
        assert(v.subrange(from as int, i + 1).drop_last() == v.subrange(from as int, i as int));
        assert(v[i as int] == cs@[i as int]@);
        match &cs[i] {
            Chunk::Normal(s) => out.append(s.as_str()),
            Chunk::Verbatim(s) => out.append(s.as_str()),
        }
        i = i + 1;
    }
}

/// Renders chunks in BibLaTeX field syntax, e.g. `{Inside {NASA}}`.
pub fn chunks_to_string(cs: &[Chunk]) -> (r: String)
    ensures
        r@ == field_source(chunks_view(cs@)),
{
    let mut out = String::new();
    push_char(&mut out, '{');
    let ghost v = chunks_view(cs@);
    let mut i: usize = 0;
    while i < cs.len()
        invariant
            i <= cs@.len(),
            v == chunks_view(cs@),
            out@ == seq!['{'] + chunks_source(v.take(i as int)),
        decreases cs@.len() - i,
    {
        assert(v.take(i + 1).drop_last() == v.take(i as int));
        assert(v[i as int] == cs@[i as int]@);
        match &cs[i] {
            Chunk::Normal(s) => out.append(s.as_str()),
            Chunk::Verbatim(s) => {
                push_char(&mut out, '{');
                out.append(s.as_str());
                push_char(&mut out, '}');
            },
        }
        i = i + 1;
    }
    assert(v.take(cs@.len() as int) == v);
    push_char(&mut out, '}');
    out
}

/// A fresh copy of the chunks.
pub fn clone_chunks(cs: &[Chunk]) -> (r: Vec<Chunk>)
    ensures
        r@ == cs@,
{
    let mut r: Vec<Chunk> = Vec::new();
    let mut i: usize = 0;
    while i < cs.len()
        invariant
            i <= cs@.len(),
            r@ == cs@.take(i as int),
        decreases cs@.len() - i,
    {
        r.push(cs[i].clone());
        assert(cs@.take(i + 1) == cs@.take(i as int).push(cs@[i as int]));
        i = i + 1;
    }
    assert(cs@.take(cs@.len() as int) == cs@);
    r
}

/// Formats the chunks in sentence case, with `capital` standing for the
/// upper-case form of the first character of a leading normal chunk and
/// `lows[i]` for the lower-case form of the text of the normal chunk `i`
/// (of its text after the first character, for a leading one).
pub fn format_sentence_with(cs: &[Chunk], capital: &str, lows: &Vec<String>) -> (r: String)
    requires
        lows@.len() == cs@.len(),
    ensures
        r@ == sentence_with(chunks_view(cs@), capital@, string_views(lows@)),
{
    let ghost v = chunks_view(cs@);
    let ghost l = string_views(lows@);
    let mut out = String::new();
    let lead = cs.len() > 0 && match &cs[0] {
        Chunk::Normal(s) => s.as_str().unicode_len() > 0,
        Chunk::Verbatim(_) => false,
    };
    proof {
        if cs@.len() > 0 {
            assert(v[0] == cs@[0]@);
        }
    }
    assert(lead == starts_with_text(v));
    if lead {
        out.append(capital);
    }
    let ghost start = out@;
    let mut i: usize = 0;
    while i < cs.len()
        invariant
            i <= cs@.len(),
            lows@.len() == cs@.len(),
            v == chunks_view(cs@),
            l == string_views(lows@),
            out@ == start + sentence_pieces(v, l, i as nat),
        decreases cs@.len() - i,
    {
        assert(v[i as int] == cs@[i as int]@);
        assert(l[i as int] == lows@[i as int]@);
        match &cs[i] {
            Chunk::Normal(_) => out.append(lows[i].as_str()),
            Chunk::Verbatim(s) => out.append(s.as_str()),
        }
        assert(sentence_pieces(v, l, (i + 1) as nat) == sentence_pieces(v, l, i as nat) + sentence_piece(
            v[i as int],
            l[i as int],
        ));
        i = i + 1;
    }
    out
}

/// Whether two chunk slices hold the same chunks: the same kinds with the
/// same characters, in the same order.
pub fn chunks_eq(a: &[Chunk], b: &[Chunk]) -> (r: bool)
    ensures
        r == (chunks_view(a@) == chunks_view(b@)),
{
    let ghost va = chunks_view(a@);
    let ghost vb = chunks_view(b@);
    if a.len() != b.len() {
        assert(va.len() != vb.len());
        return false;
    }
    let mut i: usize = 0;
    while i < a.len()
        invariant
            i <= a@.len(),
            a@.len() == b@.len(),
            va == chunks_view(a@),
            vb == chunks_view(b@),
            forall|j: int| 0 <= j < i ==> va[j] == vb[j],
        decreases a@.len() - i,
    {
        assert(va[i as int] == a@[i as int]@);
        assert(vb[i as int] == b@[i as int]@);
        let same = match (&a[i], &b[i]) {
            (Chunk::Normal(x), Chunk::Normal(y)) => crate::text::str_eq(x.as_str(), y.as_str()),
            (Chunk::Verbatim(x), Chunk::Verbatim(y)) => crate::text::str_eq(x.as_str(), y.as_str()),
            _ => false,
        };
        if !same {
            assert(va[i as int] != vb[i as int]);
            return false;
        }
        i = i + 1;
    }
    assert(va =~= vb);
    true
}

/// Additional methods for chunk slices.
pub trait ChunksExt {
    /// Parse the chunks into a type.
    fn parse<T: Type>(&self) -> Result<T, TypeError>;

    /// Format the chunks in sentence case.
    fn format_sentence(&self) -> String;

    /// Format the chunks verbatim.
    fn format_verbatim(&self) -> String;

    /// True when the chunk slice contains no non-empty chunk.
    fn is_empty(&self) -> bool;
}

impl ChunksExt for [Chunk] {
    fn parse<T: Type>(&self) -> (r: Result<T, TypeError>)
        ensures
            match r {
                Ok(v) => T::spec_from_chunks(chunks_view(self@)) == Some(v.model()),
                Err(_) => T::spec_from_chunks(chunks_view(self@)) is None,
            },
    {
        T::from_chunks(self)
    }

    fn format_sentence(&self) -> (r: String)
        ensures
            r@ == sentence_text(chunks_view(self@)),
    {
        let ghost v = chunks_view(self@);
        let mut capital = String::new();
        let mut lows: Vec<String> = Vec::new();
        let mut i: usize = 0;
        while i < self.len()
            invariant
                i <= self@.len(),
                v == chunks_view(self@),
                lows@.len() == i,
                forall|j: int| 0 <= j < i ==> #[trigger] string_views(lows@)[j] == sentence_lows(v)[j],
                i == 0 ==> capital@ == Seq::<char>::empty(),
                i > 0 ==> capital@ == sentence_capital(v),
            decreases self@.len() - i,
        {
            assert(v[i as int] == self@[i as int]@);
            let low = match &self[i] {
                Chunk::Normal(s) => {
                    let n = s.as_str().unicode_len();
                    if i == 0 && n > 0 {
                        capital = char_to_uppercase(s.as_str().get_char(0));
                        let rest = s.as_str().substring_char(1, n);
                        assert(rest@ == s@.drop_first());
                        to_lowercase(rest)
                    } else {
                        to_lowercase(s.as_str())
                    }
                },
                Chunk::Verbatim(s) => s.clone(),
            };
            let ghost before = lows@;
            lows.push(low);
            assert forall|j: int| 0 <= j < i + 1 implies #[trigger] string_views(lows@)[j] == sentence_lows(v)[j] by {
                if j < i {
                    assert(lows@[j] == before[j]);
                    assert(string_views(before)[j] == sentence_lows(v)[j]);
                }
            }
            i = i + 1;
        }
        assert(string_views(lows@) =~= sentence_lows(v));
        format_sentence_with(self, capital.as_str(), &lows)
    }

    fn format_verbatim(&self) -> (r: String)
        ensures
            r@ == verbatim_text(chunks_view(self@)),
    {
        let mut out = String::new();
        verbatim_range(self, 0, &mut out);
        assert(chunks_view(self@).subrange(0, self@.len() as int) == chunks_view(self@));
        out
    }

    fn is_empty(&self) -> (r: bool)
        ensures
            r == !has_content(chunks_view(self@)),
    {
        let ghost v = chunks_view(self@);
        let mut i: usize = 0;
        while i < self.len()
            invariant
                i <= self@.len(),
                v == chunks_view(self@),
                forall|j: int| 0 <= j < i ==> (#[trigger] v[j]).text().len() == 0,
            decreases self@.len() - i,
        {
            assert(v[i as int] == self@[i as int]@);
            let non_empty = match &self[i] {
                Chunk::Normal(s) => !s.as_str().is_empty(),
                Chunk::Verbatim(s) => !s.as_str().is_empty(),
            };
            if non_empty {
                return false;
            }
            i = i + 1;
        }
        true
    }
}

/// The characters of the chunks split at position `k`.
pub proof fn lemma_verbatim_text_split(v: Seq<ChunkView>, k: int)
    requires
        0 <= k <= v.len(),
    ensures
        verbatim_text(v) == verbatim_text(v.take(k)) + verbatim_text(v.subrange(k, v.len() as int)),
    decreases v.len(),
{
    if v.len() == k {
        assert(v.take(k) == v);
        assert(v.subrange(k, v.len() as int) == Seq::<ChunkView>::empty());
    } else {
        lemma_verbatim_text_split(v.drop_last(), k);
        assert(v.drop_last().take(k) == v.take(k));
        assert(v.subrange(k, v.len() as int).drop_last() == v.drop_last().subrange(k, v.len() - 1));
    }
}

} // verus!
