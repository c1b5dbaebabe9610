//! Reading bibliography source text.
//!
//! The grammar: outside entries every character up to the next `@` is
//! skipped. An entry is `@type{key, name = value, ...}`; a trailing comma
//! is allowed. A value is one or more pieces joined by `#`: a braced text
//! `{...}`, a quoted text `"..."` (where BibTeX forms are allowed), a
//! number, or the name of an abbreviation. Inside a braced or quoted text,
//! a nested brace group is kept verbatim. `@string{name = value}` defines
//! an abbreviation; `@comment{...}` and `@preamble{...}` are skipped. An
//! entry that does not follow the grammar is skipped, and reading resumes
//! after its opening brace.
use vstd::prelude::*;

use crate::chunk::ChunkView;
use crate::chunk::{chunks_view, Chunk};
use crate::raw::{
    abbreviations_view, raw_chunks_view, raw_fields_view, resolve, resolve_chunks, RawBibliography,
    RawBibliographyView, RawChunk, RawChunkView, RawEntry, RawEntryView,
};
use crate::text::{chars_of, is_digit, is_space, str_eq, string_of};
use crate::text::ascii_lowercase;
use crate::types::ascii_lowercase_chars;

verus! {

/// Characters that may make up a field name, an entry type, a number or
/// the name of an abbreviation.
pub open spec fn is_name_char(c: char) -> bool {
    ('a' <= c && c <= 'z') || ('A' <= c && c <= 'Z') || ('0' <= c && c <= '9') || c == '_' || c == '-'
        || c == ':' || c == '.' || c == '/' || c == '+'
}

/// Characters that may make up a cite key.
pub open spec fn is_key_char(c: char) -> bool {
    !is_space(c) && c != ',' && c != '{' && c != '}'
}

/// The first position from `i` on that does not hold whitespace.
pub open spec fn skip_space(s: Seq<char>, i: int) -> int
    decreases s.len() - i,
{
    if 0 <= i < s.len() && is_space(s[i]) {
        skip_space(s, i + 1)
    } else {
        i
    }
}

/// The end of the run of name characters that starts at `i`.
pub open spec fn name_end(s: Seq<char>, i: int) -> int
    decreases s.len() - i,
{
    if 0 <= i < s.len() && is_name_char(s[i]) {
        name_end(s, i + 1)
    } else {
        i
    }
}

/// The end of the run of cite key characters that starts at `i`.
pub open spec fn key_end(s: Seq<char>, i: int) -> int
    decreases s.len() - i,
{
    if 0 <= i < s.len() && is_key_char(s[i]) {
        key_end(s, i + 1)
    } else {
        i
    }
}

/// The position of the first `@` from `i` on, or the length of `s`.
pub open spec fn next_at(s: Seq<char>, i: int) -> int
    decreases s.len() - i,
{
    if 0 <= i < s.len() && s[i] != '@' {
        next_at(s, i + 1)
    } else {
        i
    }
}

/// The chunks read so far, with the pending normal text added.
pub open spec fn with_text(acc: Seq<RawChunkView>, cur: Seq<char>) -> Seq<RawChunkView> {
    if cur.len() == 0 {
        acc
    } else {
        acc.push(RawChunkView::Normal(cur))
    }
}

/// Reads a braced or quoted text from position `i` up to the `close`
/// character that is not nested in braces: text outside nested braces
/// becomes normal chunks, each nested brace group a verbatim chunk.
/// `depth` counts the open nested braces, `cur` is the pending text and
/// `acc` the chunks read so far. The result holds the chunks and the
/// position after `close`; it is `None` when the text does not end or a
/// `}` closes nothing.
pub open spec fn delimited(
    s: Seq<char>,
    i: int,
    close: char,
    depth: nat,
    cur: Seq<char>,
    acc: Seq<RawChunkView>,
) -> Option<(Seq<RawChunkView>, int)>
    decreases s.len() - i,
{
    if i < 0 || i >= s.len() {
        None
    } else {
        let c = s[i];
        if depth == 0 {
            if c == close {
                Some((with_text(acc, cur), i + 1))
            } else if c == '{' {
                delimited(s, i + 1, close, 1, Seq::empty(), with_text(acc, cur))
            } else if c == '}' {
                None
            } else {
                delimited(s, i + 1, close, 0, cur.push(c), acc)
            }
        } else if c == '}' {
            if depth == 1 {
                delimited(s, i + 1, close, 0, Seq::empty(), acc.push(RawChunkView::Verbatim(cur)))
            } else {
                delimited(s, i + 1, close, (depth - 1) as nat, cur.push(c), acc)
            }
        } else if c == '{' {
            delimited(s, i + 1, close, depth + 1, cur.push(c), acc)
        } else {
            delimited(s, i + 1, close, depth, cur.push(c), acc)
        }
    }
}

/// Reads one piece of a value at position `i`: a braced text, a quoted
/// text when `quotes` allows it, or a word that is a number when it starts
/// with a digit and the name of an abbreviation otherwise.
pub open spec fn piece(s: Seq<char>, i: int, quotes: bool) -> Option<(Seq<RawChunkView>, int)> {
    if 0 <= i < s.len() {
        if s[i] == '{' {
            delimited(s, i + 1, '}', 0, Seq::empty(), Seq::empty())
        } else if s[i] == '"' && quotes {
            delimited(s, i + 1, '"', 0, Seq::empty(), Seq::empty())
        } else if is_name_char(s[i]) {
            let w = s.subrange(i, name_end(s, i));
            if is_digit(s[i]) {
                Some((seq![RawChunkView::Normal(w)], name_end(s, i)))
            } else {
                Some((seq![RawChunkView::Abbreviation(w)], name_end(s, i)))
            }
        } else {
            None
        }
    } else {
        None
    }
}

/// Reads a value at position `i`: pieces joined by `#`, their chunks
/// appended to `acc`.
pub open spec fn value_from(s: Seq<char>, i: int, quotes: bool, acc: Seq<RawChunkView>) -> Option<(Seq<RawChunkView>, int)>
    decreases s.len() - i,
{
    match piece(s, i, quotes) {
        None => None,
        Some((cs, j)) => {
            let k = skip_space(s, j);
            if 0 <= k < s.len() && s[k] == '#' {
                proof {
                    lemma_piece_advances(s, i, quotes);
                    lemma_skip_space(s, j);
                    lemma_skip_space(s, k + 1);
                }
                value_from(s, skip_space(s, k + 1), quotes, acc + cs)
            } else {
                Some((acc + cs, j))
            }
        },
    }
}

/// Reads a field `name = value` at position `i`; the name, made of ASCII
/// characters, is stored in lower case.
pub open spec fn field(s: Seq<char>, i: int, quotes: bool) -> Option<((Seq<char>, Seq<RawChunkView>), int)> {
    let e = name_end(s, i);
    let k = skip_space(s, e);
    if e > i && 0 <= k < s.len() && s[k] == '=' {
        match value_from(s, skip_space(s, k + 1), quotes, Seq::empty()) {
            Some((v, j)) => Some(((ascii_lowercase(s.subrange(i, e)), v), j)),
            None => None,
        }
    } else {
        None
    }
}

/// Reads the fields of an entry from position `i` up to its closing
/// brace, appending them to `acc`.
pub open spec fn fields_from(
    s: Seq<char>,
    i: int,
    quotes: bool,
    acc: Seq<(Seq<char>, Seq<RawChunkView>)>,
) -> Option<(Seq<(Seq<char>, Seq<RawChunkView>)>, int)>
    decreases s.len() - i,
{
    let k = skip_space(s, i);
    if 0 <= k < s.len() && s[k] == '}' {
        Some((acc, k + 1))
    } else {
        match field(s, k, quotes) {
            None => None,
            Some((f, j)) => {
                let m = skip_space(s, j);
                if 0 <= m < s.len() && s[m] == ',' {
                    proof {
                        lemma_skip_space(s, i);
                        lemma_field_advances(s, k, quotes);
                        lemma_skip_space(s, j);
                    }
                    fields_from(s, m + 1, quotes, acc.push(f))
                } else if 0 <= m < s.len() && s[m] == '}' {
                    Some((acc.push(f), m + 1))
                } else {
                    None
                }
            },
        }
    }
}

/// Reads the body of an entry of type `kind` after its opening brace:
/// the cite key, then the fields.
pub open spec fn entry_body(s: Seq<char>, i: int, kind: Seq<char>, quotes: bool) -> Option<(RawEntryView, int)> {
    let k = skip_space(s, i);
    let e = key_end(s, k);
    let m = skip_space(s, e);
    let key = s.subrange(k, e);
    if e > k && 0 <= m < s.len() && s[m] == ',' {
        match fields_from(s, m + 1, quotes, Seq::empty()) {
            Some((fs, j)) => Some((RawEntryView { cite_key: key, entry_type: kind, fields: fs }, j)),
            None => None,
        }
    } else if e > k && 0 <= m < s.len() && s[m] == '}' {
        Some((RawEntryView { cite_key: key, entry_type: kind, fields: Seq::empty() }, m + 1))
    } else {
        None
    }
}

/// Reads the body of a `@string` definition after its opening brace.
pub open spec fn string_body(s: Seq<char>, i: int, quotes: bool) -> Option<((Seq<char>, Seq<RawChunkView>), int)> {
    let k = skip_space(s, i);
    let e = name_end(s, k);
    let m = skip_space(s, e);
    if e > k && 0 <= m < s.len() && s[m] == '=' {
        match value_from(s, skip_space(s, m + 1), quotes, Seq::empty()) {
            Some((v, j)) => {
                let p = skip_space(s, j);
                if 0 <= p < s.len() && s[p] == '}' {
                    Some(((s.subrange(k, e), v), p + 1))
                } else {
                    None
                }
            },
            None => None,
        }
    } else {
        None
    }
}

/// Reads the entries and abbreviations from position `i` to the end,
/// adding them to those read so far.
#[verifier::opaque]
pub open spec fn items_from(
    s: Seq<char>,
    i: int,
    quotes: bool,
    entries: Seq<RawEntryView>,
    abbrs: Seq<(Seq<char>, Seq<ChunkView>)>,
) -> (Seq<RawEntryView>, Seq<(Seq<char>, Seq<ChunkView>)>)
    decreases s.len() - i,
{
    let j = next_at(s, i);
    if i < 0 || j >= s.len() {
        (entries, abbrs)
    } else {
        proof {
            lemma_next_at(s, i);
            lemma_skip_space(s, j + 1);
            lemma_name_end(s, skip_space(s, j + 1));
            lemma_skip_space(s, name_end(s, skip_space(s, j + 1)));
        }
        let k = skip_space(s, j + 1);
        let e = name_end(s, k);
        let m = skip_space(s, e);
        let kind = s.subrange(k, e);
        let lower = ascii_lowercase(kind);
        if e > k && 0 <= m < s.len() && s[m] == '{' {
            if lower == "string"@ {
                match string_body(s, m + 1, quotes) {
                    Some(((n, v), p)) => {
                        proof {
                            lemma_string_body_advances(s, m + 1, quotes);
                        }
                        items_from(s, p, quotes, entries, abbrs.push((n, resolve_chunks(v, abbrs))))
                    },
                    None => items_from(s, m + 1, quotes, entries, abbrs),
                }
            } else if lower == "comment"@ || lower == "preamble"@ {
                match delimited(s, m + 1, '}', 0, Seq::empty(), Seq::empty()) {
                    Some((_, p)) => {
                        proof {
                            lemma_delimited_advances(s, m + 1, '}', 0, Seq::empty(), Seq::empty());
                        }
                        items_from(s, p, quotes, entries, abbrs)
                    },
                    None => items_from(s, m + 1, quotes, entries, abbrs),
                }
            } else {
                match entry_body(s, m + 1, kind, quotes) {
                    Some((en, p)) => {
                        proof {
                            lemma_entry_body_advances(s, m + 1, kind, quotes);
                        }
                        items_from(s, p, quotes, entries.push(en), abbrs)
                    },
                    None => items_from(s, m + 1, quotes, entries, abbrs),
                }
            }
        } else {
            items_from(s, j + 1, quotes, entries, abbrs)
        }
    }
}

/// Skipping whitespace never moves back nor past the end.
pub proof fn lemma_skip_space(s: Seq<char>, i: int)
    ensures
        skip_space(s, i) >= i,
        0 <= i <= s.len() ==> skip_space(s, i) <= s.len(),
    decreases s.len() - i,
{
    if 0 <= i < s.len() && is_space(s[i]) {
        lemma_skip_space(s, i + 1);
    }
}

/// A run of name characters never moves back nor past the end.
pub proof fn lemma_name_end(s: Seq<char>, i: int)
    ensures
        name_end(s, i) >= i,
        0 <= i <= s.len() ==> name_end(s, i) <= s.len(),
    decreases s.len() - i,
{
    if 0 <= i < s.len() && is_name_char(s[i]) {
        lemma_name_end(s, i + 1);
    }
}

/// The next `@` is at or after `i`.
pub proof fn lemma_next_at(s: Seq<char>, i: int)
    ensures
        next_at(s, i) >= i,
        0 <= i <= s.len() ==> next_at(s, i) <= s.len(),
        0 <= next_at(s, i) < s.len() ==> s[next_at(s, i)] == '@',
    decreases s.len() - i,
{
    if 0 <= i < s.len() && s[i] != '@' {
        lemma_next_at(s, i + 1);
    }
}

/// A text that is read ends after the position it started at.
pub proof fn lemma_delimited_advances(
    s: Seq<char>,
    i: int,
    close: char,
    depth: nat,
    cur: Seq<char>,
    acc: Seq<RawChunkView>,
)
    ensures
        delimited(s, i, close, depth, cur, acc) matches Some((_, j)) ==> i < j <= s.len(),
    decreases s.len() - i,
{
    if 0 <= i < s.len() {
        let c = s[i];
        if depth == 0 {
            if c == '{' {
                lemma_delimited_advances(s, i + 1, close, 1, Seq::empty(), with_text(acc, cur));
            } else if c != close && c != '}' {
                lemma_delimited_advances(s, i + 1, close, 0, cur.push(c), acc);
            }
        } else if c == '}' {
            if depth == 1 {
                lemma_delimited_advances(s, i + 1, close, 0, Seq::empty(), acc.push(RawChunkView::Verbatim(cur)));
            } else {
                lemma_delimited_advances(s, i + 1, close, (depth - 1) as nat, cur.push(c), acc);
            }
        } else if c == '{' {
            lemma_delimited_advances(s, i + 1, close, depth + 1, cur.push(c), acc);
        } else {
            lemma_delimited_advances(s, i + 1, close, depth, cur.push(c), acc);
        }
    }
}

/// A piece that is read ends after the position it started at.
pub proof fn lemma_piece_advances(s: Seq<char>, i: int, quotes: bool)
    ensures
        piece(s, i, quotes) matches Some((_, j)) ==> i < j <= s.len(),
{
    if 0 <= i < s.len() {
        lemma_delimited_advances(s, i + 1, '}', 0, Seq::empty(), Seq::empty());
        lemma_delimited_advances(s, i + 1, '"', 0, Seq::empty(), Seq::empty());
        lemma_name_end(s, i + 1);
    }
}

/// A value that is read ends after the position it started at.
pub proof fn lemma_value_advances(s: Seq<char>, i: int, quotes: bool, acc: Seq<RawChunkView>)
    ensures
        value_from(s, i, quotes, acc) matches Some((_, j)) ==> i < j <= s.len(),
    decreases s.len() - i,
{
    lemma_piece_advances(s, i, quotes);
    if let Some((cs, j)) = piece(s, i, quotes) {
        let k = skip_space(s, j);
        lemma_skip_space(s, j);
        if 0 <= k < s.len() && s[k] == '#' {
            lemma_skip_space(s, k + 1);
            lemma_value_advances(s, skip_space(s, k + 1), quotes, acc + cs);
        }
    }
}

/// A field that is read ends after the position it started at.
pub proof fn lemma_field_advances(s: Seq<char>, i: int, quotes: bool)
    ensures
        field(s, i, quotes) matches Some((_, j)) ==> i < j <= s.len(),
{
    let e = name_end(s, i);
    lemma_name_end(s, i);
    lemma_skip_space(s, e);
    let k = skip_space(s, e);
    lemma_skip_space(s, k + 1);
    lemma_value_advances(s, skip_space(s, k + 1), quotes, Seq::empty());
}

/// A list of fields that is read ends after the position it started at.
pub proof fn lemma_fields_advances(
    s: Seq<char>,
    i: int,
    quotes: bool,
    acc: Seq<(Seq<char>, Seq<RawChunkView>)>,
)
    ensures
        fields_from(s, i, quotes, acc) matches Some((_, j)) ==> i < j <= s.len(),
    decreases s.len() - i,
{
    let k = skip_space(s, i);
    lemma_skip_space(s, i);
    if !(0 <= k < s.len() && s[k] == '}') {
        lemma_field_advances(s, k, quotes);
        if let Some((f, j)) = field(s, k, quotes) {
            let m = skip_space(s, j);
            lemma_skip_space(s, j);
            if 0 <= m < s.len() && s[m] == ',' {
                lemma_fields_advances(s, m + 1, quotes, acc.push(f));
            }
        }
    }
}

/// An entry body that is read ends after the position it started at.
pub proof fn lemma_entry_body_advances(s: Seq<char>, i: int, kind: Seq<char>, quotes: bool)
    ensures
        entry_body(s, i, kind, quotes) matches Some((_, j)) ==> i < j <= s.len(),
{
    let k = skip_space(s, i);
    lemma_skip_space(s, i);
    let e = key_end(s, k);
    lemma_key_end(s, k);
    lemma_skip_space(s, e);
    let m = skip_space(s, e);
    lemma_fields_advances(s, m + 1, quotes, Seq::empty());
}

/// A run of cite key characters never moves back nor past the end.
pub proof fn lemma_key_end(s: Seq<char>, i: int)
    ensures
        key_end(s, i) >= i,
        0 <= i <= s.len() ==> key_end(s, i) <= s.len(),
    decreases s.len() - i,
{
    if 0 <= i < s.len() && is_key_char(s[i]) {
        lemma_key_end(s, i + 1);
    }
}

/// A `@string` body that is read ends after the position it started at.
pub proof fn lemma_string_body_advances(s: Seq<char>, i: int, quotes: bool)
    ensures
        string_body(s, i, quotes) matches Some((_, j)) ==> i < j <= s.len(),
{
    let k = skip_space(s, i);
    lemma_skip_space(s, i);
    let e = name_end(s, k);
    lemma_name_end(s, k);
    lemma_skip_space(s, e);
    let m = skip_space(s, e);
    lemma_skip_space(s, m + 1);
    lemma_value_advances(s, skip_space(s, m + 1), quotes, Seq::empty());
    if let Some((v, j)) = value_from(s, skip_space(s, m + 1), quotes, Seq::empty()) {
        lemma_skip_space(s, j);
    }
}

/// The chunks and position that an exec reading result stands for.
pub open spec fn chunks_result(r: Option<(Vec<RawChunk>, usize)>) -> Option<(Seq<RawChunkView>, int)> {
    match r {
        Some((v, j)) => Some((raw_chunks_view(v@), j as int)),
        None => None,
    }
}

/// Whether `c` is whitespace.
fn space_char(c: char) -> (r: bool)
    ensures
        r == is_space(c),
{
    c == ' ' || c == '\t' || c == '\n' || c == '\r'
}

/// Whether `c` may be part of a name.
fn name_char(c: char) -> (r: bool)
    ensures
        r == is_name_char(c),
{
    ('a' <= c && c <= 'z') || ('A' <= c && c <= 'Z') || ('0' <= c && c <= '9') || c == '_' || c == '-'
        || c == ':' || c == '.' || c == '/' || c == '+'
}

/// Whether `c` may be part of a cite key.
fn key_char(c: char) -> (r: bool)
    ensures
        r == is_key_char(c),
{
    !space_char(c) && c != ',' && c != '{' && c != '}'
}

/// The first position from `i` on that does not hold whitespace.
fn skip_space_at(s: &Vec<char>, i: usize) -> (r: usize)
    requires
        i <= s@.len(),
    ensures
        r as int == skip_space(s@, i as int),
        i <= r <= s@.len(),
{
    let mut j = i;
    while j < s.len() && space_char(s[j])
        invariant
            i <= j <= s@.len(),
            skip_space(s@, i as int) == skip_space(s@, j as int),
        decreases s@.len() - j,
    {
        j = j + 1;
    }
    j
}

/// The end of the run of name characters that starts at `i`.
fn name_end_at(s: &Vec<char>, i: usize) -> (r: usize)
    requires
        i <= s@.len(),
    ensures
        r as int == name_end(s@, i as int),
        i <= r <= s@.len(),
{
    let mut j = i;
    while j < s.len() && name_char(s[j])
        invariant
            i <= j <= s@.len(),
            name_end(s@, i as int) == name_end(s@, j as int),
        decreases s@.len() - j,
    {
        j = j + 1;
    }
    j
}

/// The end of the run of cite key characters that starts at `i`.
fn key_end_at(s: &Vec<char>, i: usize) -> (r: usize)
    requires
        i <= s@.len(),
    ensures
        r as int == key_end(s@, i as int),
        i <= r <= s@.len(),
{
    let mut j = i;
    while j < s.len() && key_char(s[j])
        invariant
            i <= j <= s@.len(),
            key_end(s@, i as int) == key_end(s@, j as int),
        decreases s@.len() - j,
    {
        j = j + 1;
    }
    j
}

/// The position of the first `@` from `i` on, or the length of `s`.
fn next_at_from(s: &Vec<char>, i: usize) -> (r: usize)
    requires
        i <= s@.len(),
    ensures
        r as int == next_at(s@, i as int),
        i <= r <= s@.len(),
{
    let mut j = i;
    while j < s.len() && s[j] != '@'
        invariant
            i <= j <= s@.len(),
            next_at(s@, i as int) == next_at(s@, j as int),
        decreases s@.len() - j,
    {
        j = j + 1;
    }
    j
}

/// The characters from `a` up to `b`.
fn chars_between(s: &Vec<char>, a: usize, b: usize) -> (r: Vec<char>)
    requires
        a <= b <= s@.len(),
    ensures
        r@ == s@.subrange(a as int, b as int),
{
    let mut r: Vec<char> = Vec::new();
    let mut j = a;
    while j < b
        invariant
            a <= j <= b,
            b <= s@.len(),
            r@ == s@.subrange(a as int, j as int),
        decreases b - j,
    {
        r.push(s[j]);
        assert(s@.subrange(a as int, j + 1) == s@.subrange(a as int, j as int).push(s@[j as int]));
        j = j + 1;
    }
    r
}

/// Adds the pending normal text to the chunks read so far.
fn add_text(acc: &mut Vec<RawChunk>, cur: &Vec<char>)
    ensures
        raw_chunks_view(final(acc)@) == with_text(raw_chunks_view(old(acc)@), cur@),
{
    if cur.len() > 0 {
        let ghost before = raw_chunks_view(acc@);
        acc.push(RawChunk::Normal(string_of(cur.as_slice())));
        assert(raw_chunks_view(acc@) =~= before.push(RawChunkView::Normal(cur@)));
    }
}

/// Reads a braced or quoted text whose content starts at `i`.
fn read_delimited(s: &Vec<char>, i: usize, close: char) -> (r: Option<(Vec<RawChunk>, usize)>)
    requires
        i <= s@.len(),
    ensures
        chunks_result(r) == delimited(s@, i as int, close, 0, Seq::empty(), Seq::empty()),
        r matches Some((_, j)) ==> j <= s@.len(),
{
    let ghost target = delimited(s@, i as int, close, 0, Seq::empty(), Seq::empty());
    let mut j = i;
    let mut depth: usize = 0;
    let mut cur: Vec<char> = Vec::new();
    let mut acc: Vec<RawChunk> = Vec::new();
    assert(raw_chunks_view(acc@) =~= Seq::<RawChunkView>::empty());
    while j < s.len()
        invariant
            i <= j <= s@.len(),
            depth <= j - i,
            target == delimited(s@, i as int, close, 0, Seq::empty(), Seq::empty()),
            target == delimited(s@, j as int, close, depth as nat, cur@, raw_chunks_view(acc@)),
        decreases s@.len() - j,
    {
        let c = s[j];
        if depth == 0 {
            if c == close {
                add_text(&mut acc, &cur);
                return Some((acc, j + 1));
            } else if c == '{' {
                add_text(&mut acc, &cur);
                cur = Vec::new();
                depth = 1;
            } else if c == '}' {
                return None;
            } else {
                cur.push(c);
            }
        } else if c == '}' {
            if depth == 1 {
                let ghost before = raw_chunks_view(acc@);
                acc.push(RawChunk::Verbatim(string_of(cur.as_slice())));
                assert(raw_chunks_view(acc@) =~= before.push(RawChunkView::Verbatim(cur@)));
                cur = Vec::new();
                depth = 0;
            } else {
                cur.push(c);
                depth = depth - 1;
            }
        } else if c == '{' {
            cur.push(c);
            depth = depth + 1;
        } else {
            cur.push(c);
        }
        j = j + 1;
    }
    None
}

/// Reads one piece of a value at position `i`.
fn read_piece(s: &Vec<char>, i: usize, quotes: bool) -> (r: Option<(Vec<RawChunk>, usize)>)
    requires
        i <= s@.len(),
    ensures
        chunks_result(r) == piece(s@, i as int, quotes),
        r matches Some((_, j)) ==> j <= s@.len(),
{
    if i >= s.len() {
        return None;
    }
    let c = s[i];
    if c == '{' {
        read_delimited(s, i + 1, '}')
    } else if c == '"' && quotes {
        read_delimited(s, i + 1, '"')
    } else if name_char(c) {
        let e = name_end_at(s, i);
        let w = string_of(chars_between(s, i, e).as_slice());
        let chunk = if '0' <= c && c <= '9' {
            RawChunk::Normal(w)
        } else {
            RawChunk::Abbreviation(w)
        };
        let v = vec![chunk];
        assert(raw_chunks_view(v@) =~= seq![chunk@]);
        Some((v, e))
    } else {
        None
    }
}

/// Reads a value at position `i`.
fn read_value(s: &Vec<char>, i: usize, quotes: bool) -> (r: Option<(Vec<RawChunk>, usize)>)
    requires
        i <= s@.len(),
    ensures
        chunks_result(r) == value_from(s@, i as int, quotes, Seq::empty()),
        r matches Some((_, j)) ==> j <= s@.len(),
{
    let ghost target = value_from(s@, i as int, quotes, Seq::empty());
    let mut acc: Vec<RawChunk> = Vec::new();
    let mut pos = i;
    assert(raw_chunks_view(acc@) =~= Seq::<RawChunkView>::empty());
    loop
        invariant
            i <= pos <= s@.len(),
            target == value_from(s@, i as int, quotes, Seq::empty()),
            target == value_from(s@, pos as int, quotes, raw_chunks_view(acc@)),
        decreases s@.len() - pos,
    {
        proof {
            lemma_piece_advances(s@, pos as int, quotes);
        }
        match read_piece(s, pos, quotes) {
            None => return None,
            Some((cs, j)) => {
                let ghost before = raw_chunks_view(acc@);
                let mut cs = cs;
                let ghost cv = raw_chunks_view(cs@);
                acc.append(&mut cs);
                assert(raw_chunks_view(acc@) =~= before + cv);
                let k = skip_space_at(s, j);
                if k < s.len() && s[k] == '#' {
                    pos = skip_space_at(s, k + 1);
                } else {
                    return Some((acc, j));
                }
            },
        }
    }
}
/// The field and position that an exec reading result stands for.
pub open spec fn field_result(r: Option<((String, Vec<RawChunk>), usize)>) -> Option<((Seq<char>, Seq<RawChunkView>), int)> {
    match r {
        Some(((n, v), j)) => Some(((n@, raw_chunks_view(v@)), j as int)),
        None => None,
    }
}

/// The fields and position that an exec reading result stands for.
pub open spec fn fields_result(r: Option<(Vec<(String, Vec<RawChunk>)>, usize)>) -> Option<(Seq<(Seq<char>, Seq<RawChunkView>)>, int)> {
    match r {
        Some((fs, j)) => Some((raw_fields_view(fs@), j as int)),
        None => None,
    }
}

/// The entry and position that an exec reading result stands for.
pub open spec fn entry_result(r: Option<(RawEntry, usize)>) -> Option<(RawEntryView, int)> {
    match r {
        Some((e, j)) => Some((e@, j as int)),
        None => None,
    }
}

/// Reads a field `name = value` at position `i`.
fn read_field(s: &Vec<char>, i: usize, quotes: bool) -> (r: Option<((String, Vec<RawChunk>), usize)>)
    requires
        i <= s@.len(),
    ensures
        field_result(r) == field(s@, i as int, quotes),
        r matches Some((_, j)) ==> j <= s@.len(),
{
    let e = name_end_at(s, i);
    let k = skip_space_at(s, e);
    if e > i && k < s.len() && s[k] == '=' {
        let start = skip_space_at(s, k + 1);
        match read_value(s, start, quotes) {
            Some((v, j)) => {
                let name = ascii_lowercase_chars(chars_between(s, i, e).as_slice());
                Some(((string_of(name.as_slice()), v), j))
            },
            None => None,
        }
    } else {
        None
    }
}

/// Reads the fields of an entry from position `i` up to its closing brace.
fn read_fields(s: &Vec<char>, i: usize, quotes: bool) -> (r: Option<(Vec<(String, Vec<RawChunk>)>, usize)>)
    requires
        i <= s@.len(),
    ensures
        fields_result(r) == fields_from(s@, i as int, quotes, Seq::empty()),
        r matches Some((_, j)) ==> j <= s@.len(),
{
    let ghost target = fields_from(s@, i as int, quotes, Seq::empty());
    let mut acc: Vec<(String, Vec<RawChunk>)> = Vec::new();
    let mut pos = i;
    assert(raw_fields_view(acc@) =~= Seq::<(Seq<char>, Seq<RawChunkView>)>::empty());
    loop
        invariant
            i <= pos <= s@.len(),
            target == fields_from(s@, i as int, quotes, Seq::empty()),
            target == fields_from(s@, pos as int, quotes, raw_fields_view(acc@)),
        decreases s@.len() - pos,
    {
        let k = skip_space_at(s, pos);
        if k < s.len() && s[k] == '}' {
            return Some((acc, k + 1));
        }
        proof {
            lemma_field_advances(s@, k as int, quotes);
        }
        match read_field(s, k, quotes) {
            None => return None,
            Some((f, j)) => {
                let m = skip_space_at(s, j);
                let ghost before = raw_fields_view(acc@);
                let ghost fv = (f.0@, raw_chunks_view(f.1@));
                if m < s.len() && s[m] == ',' {
                    acc.push(f);
                    assert(raw_fields_view(acc@) =~= before.push(fv));
                    pos = m + 1;
                } else if m < s.len() && s[m] == '}' {
                    acc.push(f);
                    assert(raw_fields_view(acc@) =~= before.push(fv));
                    return Some((acc, m + 1));
                } else {
                    return None;
                }
            },
        }
    }
}

/// Reads the body of an entry of type `kind` after its opening brace.
fn read_entry_body(s: &Vec<char>, i: usize, kind: &Vec<char>, quotes: bool) -> (r: Option<(RawEntry, usize)>)
    requires
        i <= s@.len(),
    ensures
        entry_result(r) == entry_body(s@, i as int, kind@, quotes),
        r matches Some((_, j)) ==> j <= s@.len(),
{
    let k = skip_space_at(s, i);
    let e = key_end_at(s, k);
    let m = skip_space_at(s, e);
    if e > k && m < s.len() && s[m] == ',' {
        match read_fields(s, m + 1, quotes) {
            Some((fields, j)) => {
                let cite_key = string_of(chars_between(s, k, e).as_slice());
                let entry_type = string_of(kind.as_slice());
                Some((RawEntry { cite_key, entry_type, fields }, j))
            },
            None => None,
        }
    } else if e > k && m < s.len() && s[m] == '}' {
        let cite_key = string_of(chars_between(s, k, e).as_slice());
        let entry_type = string_of(kind.as_slice());
        let fields: Vec<(String, Vec<RawChunk>)> = Vec::new();
        assert(raw_fields_view(fields@) =~= Seq::<(Seq<char>, Seq<RawChunkView>)>::empty());
        Some((RawEntry { cite_key, entry_type, fields }, m + 1))
    } else {
        None
    }
}

/// Reads the body of a `@string` definition after its opening brace.
fn read_string_body(s: &Vec<char>, i: usize, quotes: bool) -> (r: Option<((String, Vec<RawChunk>), usize)>)
    requires
        i <= s@.len(),
    ensures
        field_result(r) == string_body(s@, i as int, quotes),
        r matches Some((_, j)) ==> j <= s@.len(),
{
    let k = skip_space_at(s, i);
    let e = name_end_at(s, k);
    let m = skip_space_at(s, e);
    if e > k && m < s.len() && s[m] == '=' {
        let start = skip_space_at(s, m + 1);
        match read_value(s, start, quotes) {
            Some((v, j)) => {
                let p = skip_space_at(s, j);
                if p < s.len() && s[p] == '}' {
                    let name = string_of(chars_between(s, k, e).as_slice());
                    Some(((name, v), p + 1))
                } else {
                    None
                }
            },
            None => None,
        }
    } else {
        None
    }
}
/// The raw bibliography that a source text holds.
pub open spec fn parse_raw(s: Seq<char>, quotes: bool) -> RawBibliographyView {
    let (entries, abbreviations) = items_from(s, 0, quotes, Seq::empty(), Seq::empty());
    RawBibliographyView { entries, abbreviations }
}

impl RawBibliography {
    /// Parse a raw bibliography from a source string. With `allow_bibtex`,
    /// field values may also be written in quotes, as BibTeX allows.
    pub fn from_str(src: &str, allow_bibtex: bool) -> (r: Self)
        ensures
            r@ == parse_raw(src@, allow_bibtex),
    {
        let s = chars_of(src);
        let ghost target = items_from(s@, 0, allow_bibtex, Seq::empty(), Seq::empty());
        let mut entries: Vec<RawEntry> = Vec::new();
        let mut abbreviations: Vec<(String, Vec<Chunk>)> = Vec::new();
        let mut pos: usize = 0;
        assert(entries@.map_values(|e: RawEntry| e@) =~= Seq::<RawEntryView>::empty());
        assert(abbreviations_view(abbreviations@) =~= Seq::<(Seq<char>, Seq<ChunkView>)>::empty());
        loop
            invariant
                pos <= s@.len(),
                s@ == src@,
                target == items_from(s@, 0, allow_bibtex, Seq::empty(), Seq::empty()),
                target == items_from(
                    s@,
                    pos as int,
                    allow_bibtex,
                    entries@.map_values(|e: RawEntry| e@),
                    abbreviations_view(abbreviations@),
                ),
            decreases s@.len() - pos,
        {
            let ghost ev = entries@.map_values(|e: RawEntry| e@);
            let ghost av = abbreviations_view(abbreviations@);
            proof {
                reveal(items_from);
            }
            let j = next_at_from(&s, pos);
            if j >= s.len() {
                return RawBibliography { entries, abbreviations };
            }
            let k = skip_space_at(&s, j + 1);
            let e = name_end_at(&s, k);
            let m = skip_space_at(&s, e);
            if e > k && m < s.len() && s[m] == '{' {
                let kind = chars_between(&s, k, e);
                let lower = string_of(ascii_lowercase_chars(kind.as_slice()).as_slice());
                if str_eq(lower.as_str(), "string") {
                    proof {
                        lemma_string_body_advances(s@, m + 1, allow_bibtex);
                    }
                    match read_string_body(&s, m + 1, allow_bibtex) {
                        Some(((name, value), p)) => {
                            let resolved = resolve(&value, &abbreviations);
                            let ghost nv = (name@, chunks_view(resolved@));
                            abbreviations.push((name, resolved));
                            assert(abbreviations_view(abbreviations@) =~= av.push(nv));
                            pos = p;
                        },
                        None => {
                            pos = m + 1;
                        },
                    }
                } else if str_eq(lower.as_str(), "comment") || str_eq(lower.as_str(), "preamble") {
                    proof {
                        lemma_delimited_advances(s@, m + 1, '}', 0, Seq::empty(), Seq::empty());
                    }
                    match read_delimited(&s, m + 1, '}') {
                        Some((_, p)) => {
                            pos = p;
                        },
                        None => {
                            pos = m + 1;
                        },
                    }
                } else {
                    proof {
                        lemma_entry_body_advances(s@, m + 1, kind@, allow_bibtex);
                    }
                    match read_entry_body(&s, m + 1, &kind, allow_bibtex) {
                        Some((entry, p)) => {
                            let ghost en = entry@;
                            entries.push(entry);
                            assert(entries@.map_values(|e: RawEntry| e@) =~= ev.push(en));
                            pos = p;
                        },
                        None => {
                            pos = m + 1;
                        },
                    }
                }
            } else {
                pos = j + 1;
            }
        }
    }
}

} // verus!
