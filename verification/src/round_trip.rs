//! Reading back what was written: the BibLaTeX text of an entry, read by
//! the parser, gives back the entry's key, type name and fields.
use vstd::prelude::*;

use crate::chunk::{chunk_source, chunks_source, field_source, ChunkView};
use crate::entry::{biblatex_text, entry_text, field_line, fields_text, EntryView};
use crate::parser::{
    delimited, field, fields_from, is_key_char, is_name_char, key_end, name_end, next_at, parse_raw,
    skip_space, value_from, with_text,
};
use crate::raw::{RawBibliographyView, RawChunkView, RawEntryView};
use crate::text::is_space;
use crate::text::{ascii_lower, ascii_lowercase};

verus! {

/// A field value as raw chunks.
pub open spec fn raw_of(v: Seq<ChunkView>) -> Seq<RawChunkView> {
    v.map_values(
        |c: ChunkView|
            match c {
                ChunkView::Normal(t) => RawChunkView::Normal(t),
                ChunkView::Verbatim(t) => RawChunkView::Verbatim(t),
            },
    )
}

/// Fields with their values as raw chunks.
pub open spec fn fields_raw(fs: Seq<(Seq<char>, Seq<ChunkView>)>) -> Seq<(Seq<char>, Seq<RawChunkView>)> {
    fs.map_values(|f: (Seq<char>, Seq<ChunkView>)| (f.0, raw_of(f.1)))
}

/// A text without braces.
pub open spec fn no_braces(t: Seq<char>) -> bool {
    !t.contains('{') && !t.contains('}')
}

/// Chunks that read back unchanged: no text holds a brace, no normal chunk
/// is empty, and no two normal chunks stand next to each other.
pub open spec fn plain_chunks(v: Seq<ChunkView>) -> bool {
    &&& forall|i: int| 0 <= i < v.len() ==> no_braces(#[trigger] v[i].text())
    &&& forall|i: int| 0 <= i < v.len() && (#[trigger] v[i]) is Normal ==> v[i].text().len() > 0
    &&& forall|i: int| 0 <= i < v.len() - 1 && (#[trigger] v[i]) is Normal ==> v[i + 1] is Verbatim
}

/// A name that reads back unchanged: name characters without upper-case
/// ASCII letters.
pub open spec fn plain_name(k: Seq<char>) -> bool {
    &&& k.len() > 0
    &&& forall|i: int| 0 <= i < k.len() ==> is_name_char(#[trigger] k[i]) && !('A' <= k[i] && k[i] <= 'Z')
}

/// A cite key that reads back unchanged.
pub open spec fn plain_key(k: Seq<char>) -> bool {
    &&& k.len() > 0
    &&& forall|i: int| 0 <= i < k.len() ==> is_key_char(#[trigger] k[i])
}

/// The name under which an entry is written as BibLaTeX.
pub open spec fn biblatex_kind(ev: EntryView) -> Seq<char> {
    crate::mechanics::entry_type_name(crate::mechanics::spec_to_biblatex(ev.entry_type))
}

/// An entry whose BibLaTeX text reads back unchanged: a plain key, a plain
/// type name that does not name `@string`, `@comment` or `@preamble`, and
/// plain field names and values.
#[verifier::opaque]
pub open spec fn plain_entry(ev: EntryView) -> bool {
    &&& plain_key(ev.cite_key)
    &&& plain_name(biblatex_kind(ev))
    &&& biblatex_kind(ev) != "string"@
    &&& biblatex_kind(ev) != "comment"@
    &&& biblatex_kind(ev) != "preamble"@
    &&& forall|i: int| 0 <= i < ev.fields.len() ==> plain_name(#[trigger] ev.fields[i].0) && plain_chunks(ev.fields[i].1)
}

/// The character at `a + j` of a text that holds `t` from `a` on.
proof fn lemma_at(s: Seq<char>, a: int, t: Seq<char>, j: int)
    requires
        0 <= a,
        a + t.len() <= s.len(),
        s.subrange(a, a + t.len()) == t,
        0 <= j < t.len(),
    ensures
        s[a + j] == t[j],
{
    assert(s.subrange(a, a + t.len())[j] == s[a + j]);
}

/// A text that holds `x + y` from `a` on holds `x` from `a` and `y` after it.
proof fn lemma_split(s: Seq<char>, a: int, x: Seq<char>, y: Seq<char>)
    requires
        0 <= a,
        a + x.len() + y.len() <= s.len(),
        s.subrange(a, a + x.len() + y.len()) == x + y,
    ensures
        s.subrange(a, a + x.len()) == x,
        s.subrange(a + x.len(), a + x.len() + y.len()) == y,
{
    let w = s.subrange(a, a + x.len() + y.len());
    assert forall|j: int| 0 <= j < x.len() implies #[trigger] s.subrange(a, a + x.len())[j] == x[j] by {
        assert(w[j] == (x + y)[j]);
    }
    assert(s.subrange(a, a + x.len()) =~= x);
    assert forall|j: int| 0 <= j < y.len() implies #[trigger] s.subrange(a + x.len(), a + x.len() + y.len())[j]
        == y[j] by {
        assert(w[x.len() + j] == (x + y)[x.len() + j]);
    }
    assert(s.subrange(a + x.len(), a + x.len() + y.len()) =~= y);
}

/// Reading a run of characters without braces (and without the closing
/// character outside nested braces) adds them to the pending text.
proof fn lemma_delimited_run(
    s: Seq<char>,
    i: int,
    close: char,
    depth: nat,
    cur: Seq<char>,
    acc: Seq<RawChunkView>,
    t: Seq<char>,
)
    requires
        0 <= i,
        i + t.len() <= s.len(),
        s.subrange(i, i + t.len()) == t,
        no_braces(t),
        depth > 0 || !t.contains(close),
    ensures
        delimited(s, i, close, depth, cur, acc) == delimited(s, i + t.len(), close, depth, cur + t, acc),
    decreases t.len(),
{
    if t.len() == 0 {
        assert(cur + t =~= cur);
    } else {
        lemma_at(s, i, t, 0);
        let c = t[0];
        assert(c != '{' && c != '}');
        assert(depth == 0 ==> c != close);
        assert(seq![c] + t.drop_first() =~= t);
        lemma_split(s, i, seq![c], t.drop_first());
        assert(!t.drop_first().contains('{') && !t.drop_first().contains('}') && (depth > 0 || !t.drop_first().contains(close))) by {
            if t.drop_first().contains('{') || t.drop_first().contains('}') || (depth == 0 && t.drop_first().contains(close)) {
                let j = choose|j: int|
                    0 <= j < t.drop_first().len() && (t.drop_first()[j] == '{' || t.drop_first()[j] == '}' || (depth
                        == 0 && t.drop_first()[j] == close));
                assert(t[j + 1] == t.drop_first()[j]);
            }
        }
        lemma_delimited_run(s, i + 1, close, depth, cur.push(c), acc, t.drop_first());
        assert(cur.push(c) + t.drop_first() =~= cur + t);
    }
}

/// The source of chunks is the source of the first chunk, then of the rest.
proof fn lemma_chunks_source_front(u: Seq<ChunkView>)
    requires
        u.len() > 0,
    ensures
        chunks_source(u) == chunk_source(u[0]) + chunks_source(u.drop_first()),
    decreases u.len(),
{
    if u.len() == 1 {
        assert(u.drop_last() =~= Seq::<ChunkView>::empty());
        assert(u.drop_first() =~= Seq::<ChunkView>::empty());
        assert(chunks_source(u) =~= chunk_source(u[0]) + chunks_source(u.drop_first()));
    } else {
        lemma_chunks_source_front(u.drop_last());
        assert(u.drop_last().drop_first() =~= u.drop_first().drop_last());
        assert(u.drop_first().last() == u.last());
        assert(u.drop_last()[0] == u[0]);
        assert(chunks_source(u) =~= chunk_source(u[0]) + chunks_source(u.drop_first()));
    }
}

proof fn lemma_raw_of_front(u: Seq<ChunkView>)
    requires
        u.len() > 0,
    ensures
        raw_of(u) == raw_of(seq![u[0]]) + raw_of(u.drop_first()),
{
    assert(raw_of(u) =~= raw_of(seq![u[0]]) + raw_of(u.drop_first()));
}

/// The chunks after the first keep being plain.
proof fn lemma_plain_rest(u: Seq<ChunkView>)
    requires
        plain_chunks(u),
        u.len() > 0,
    ensures
        plain_chunks(u.drop_first()),
{
    let r = u.drop_first();
    assert forall|i: int| 0 <= i < r.len() implies no_braces(#[trigger] r[i].text()) by {
        assert(r[i] == u[i + 1]);
    }
    assert forall|i: int| 0 <= i < r.len() && (#[trigger] r[i]) is Normal implies r[i].text().len() > 0 by {
        assert(r[i] == u[i + 1]);
    }
    assert forall|i: int| 0 <= i < r.len() - 1 && (#[trigger] r[i]) is Normal implies r[i + 1] is Verbatim by {
        assert(r[i] == u[i + 1]);
        assert(r[i + 1] == u[i + 2]);
    }
}

/// Reading a brace group without nested braces at the outer level gives
/// one verbatim chunk.
proof fn lemma_verbatim_step(s: Seq<char>, i: int, cur: Seq<char>, acc: Seq<RawChunkView>, t: Seq<char>)
    requires
        no_braces(t),
        0 <= i,
        i + t.len() + 2 <= s.len(),
        s.subrange(i, i + t.len() + 2) == seq!['{'] + t + seq!['}'],
    ensures
        delimited(s, i, '}', 0, cur, acc) == delimited(
            s,
            i + t.len() + 2,
            '}',
            0,
            Seq::empty(),
            with_text(acc, cur).push(RawChunkView::Verbatim(t)),
        ),
{
    let w = with_text(acc, cur);
    assert(seq!['{'] + t + seq!['}'] =~= seq!['{'] + (t + seq!['}']));
    lemma_split(s, i, seq!['{'], t + seq!['}']);
    lemma_at(s, i, seq!['{'], 0);
    assert(delimited(s, i, '}', 0, cur, acc) == delimited(s, i + 1, '}', 1, Seq::empty(), w));
    lemma_split(s, i + 1, t, seq!['}']);
    lemma_delimited_run(s, i + 1, '}', 1, Seq::empty(), w, t);
    assert(Seq::<char>::empty() + t =~= t);
    lemma_at(s, i + 1 + t.len(), seq!['}'], 0);
}

/// Reading the source of plain chunks followed by `}` gives the chunks
/// back, after the pending text and the chunks read before.
proof fn lemma_delimited_chunks(s: Seq<char>, i: int, cur: Seq<char>, acc: Seq<RawChunkView>, u: Seq<ChunkView>)
    requires
        plain_chunks(u),
        cur.len() > 0 ==> u.len() == 0 || u[0] is Verbatim,
        0 <= i,
        i + chunks_source(u).len() + 1 <= s.len(),
        s.subrange(i, i + chunks_source(u).len() + 1) == chunks_source(u) + seq!['}'],
    ensures
        delimited(s, i, '}', 0, cur, acc) == Some((with_text(acc, cur) + raw_of(u), i + chunks_source(u).len() + 1)),
    decreases u.len(),
{
    if u.len() == 0 {
        assert(chunks_source(u) == Seq::<char>::empty());
        assert(chunks_source(u) + seq!['}'] =~= seq!['}']);
        lemma_at(s, i, seq!['}'], 0);
        assert(raw_of(u) =~= Seq::<RawChunkView>::empty());
        assert(with_text(acc, cur) + raw_of(u) =~= with_text(acc, cur));
    } else {
        let c0 = u[0];
        let rest = u.drop_first();
        let src0 = chunk_source(c0);
        let tail = chunks_source(rest) + seq!['}'];
        assert(s.subrange(i + src0.len(), i + src0.len() + tail.len()) == tail && chunks_source(u).len() == src0.len()
            + chunks_source(rest).len() && s.subrange(i, i + src0.len()) == src0) by {
            lemma_chunks_source_front(u);
            assert(chunks_source(u) + seq!['}'] =~= src0 + tail);
            lemma_split(s, i, src0, tail);
        }
        assert(plain_chunks(rest) && no_braces(c0.text()) && (c0 is Normal ==> c0.text().len() > 0 && (rest.len()
            > 0 ==> rest[0] is Verbatim))) by {
            lemma_plain_rest(u);
            if rest.len() > 0 {
                assert(rest[0] == u[1]);
            }
        }
        assert(raw_of(u) == raw_of(seq![c0]) + raw_of(rest)) by {
            lemma_raw_of_front(u);
        }
        match c0 {
            ChunkView::Normal(t) => {
                lemma_delimited_run(s, i, '}', 0, cur, acc, t);
                assert(cur + t =~= t);
                lemma_delimited_chunks(s, i + t.len(), t, acc, rest);
                assert(raw_of(seq![c0]) =~= seq![RawChunkView::Normal(t)]);
                assert(with_text(acc, t) + raw_of(rest) =~= with_text(acc, cur) + raw_of(u));
            },
            ChunkView::Verbatim(t) => {
                lemma_verbatim_step(s, i, cur, acc, t);
                let w2 = with_text(acc, cur).push(RawChunkView::Verbatim(t));
                lemma_delimited_chunks(s, i + t.len() + 2, Seq::empty(), w2, rest);
                assert(raw_of(seq![c0]) =~= seq![RawChunkView::Verbatim(t)]);
                assert(w2 + raw_of(rest) =~= with_text(acc, cur) + raw_of(u));
            },
        }
    }
}

/// A run of name characters ends at the first character that is not one.
proof fn lemma_name_run(s: Seq<char>, i: int, k: Seq<char>)
    requires
        0 <= i,
        i + k.len() < s.len(),
        s.subrange(i, i + k.len()) == k,
        forall|j: int| 0 <= j < k.len() ==> is_name_char(#[trigger] k[j]),
        !is_name_char(s[i + k.len()]),
    ensures
        name_end(s, i) == i + k.len(),
    decreases k.len(),
{
    if k.len() > 0 {
        lemma_at(s, i, k, 0);
        assert(seq![k[0]] + k.drop_first() =~= k);
        lemma_split(s, i, seq![k[0]], k.drop_first());
        assert(forall|j: int| 0 <= j < k.drop_first().len() ==> #[trigger] k.drop_first()[j] == k[j + 1]);
        lemma_name_run(s, i + 1, k.drop_first());
    }
}

/// A run of cite key characters ends at the first character that is not one.
proof fn lemma_key_run(s: Seq<char>, i: int, k: Seq<char>)
    requires
        0 <= i,
        i + k.len() < s.len(),
        s.subrange(i, i + k.len()) == k,
        forall|j: int| 0 <= j < k.len() ==> is_key_char(#[trigger] k[j]),
        !is_key_char(s[i + k.len()]),
    ensures
        key_end(s, i) == i + k.len(),
    decreases k.len(),
{
    if k.len() > 0 {
        lemma_at(s, i, k, 0);
        assert(seq![k[0]] + k.drop_first() =~= k);
        lemma_split(s, i, seq![k[0]], k.drop_first());
        assert(forall|j: int| 0 <= j < k.drop_first().len() ==> #[trigger] k.drop_first()[j] == k[j + 1]);
        lemma_key_run(s, i + 1, k.drop_first());
    }
}

/// A field line reads back as its name and value; reading stops at the
/// comma that ends the line.
proof fn lemma_field_line(s: Seq<char>, i: int, quotes: bool, k: Seq<char>, v: Seq<ChunkView>)
    requires
        plain_name(k),
        plain_chunks(v),
        0 <= i,
        i + field_line(k, v).len() <= s.len(),
        s.subrange(i, i + field_line(k, v).len()) == field_line(k, v),
    ensures
        field(s, i, quotes) == Some(((k, raw_of(v)), i + field_line(k, v).len() - 2)),
{
    let src = chunks_source(v);
    let p2 = seq![' ', '=', ' '];
    let p3 = field_source(v);
    let p4 = seq![',', '\n'];
    let e = i + k.len();
    lemma_split(s, i, k + p2 + p3, p4);
    lemma_split(s, i, k + p2, p3);
    lemma_split(s, i, k, p2);
    assert(p3 == seq!['{'] + src + seq!['}']);
    assert(seq!['{'] + src + seq!['}'] =~= seq!['{'] + (src + seq!['}']));
    lemma_split(s, e + 3, seq!['{'], src + seq!['}']);
    lemma_at(s, e, p2, 0);
    lemma_at(s, e, p2, 1);
    lemma_at(s, e, p2, 2);
    lemma_at(s, e + 3, seq!['{'], 0);
    let j = e + 5 + src.len();
    lemma_at(s, j, p4, 0);
    lemma_name_run(s, i, k);
    assert(skip_space(s, e + 1) == e + 1);
    assert(skip_space(s, e) == e + 1);
    assert(skip_space(s, e + 3) == e + 3);
    assert(skip_space(s, e + 2) == e + 3);
    lemma_delimited_chunks(s, e + 4, Seq::empty(), Seq::empty(), v);
    assert(with_text(Seq::<RawChunkView>::empty(), Seq::empty()) + raw_of(v) =~= raw_of(v));
    assert(skip_space(s, j) == j);
    assert(Seq::<RawChunkView>::empty() + raw_of(v) =~= raw_of(v));
    assert(value_from(s, e + 3, quotes, Seq::empty()) == Some((raw_of(v), j)));
    assert(ascii_lowercase(k) =~= k);
}

/// Two adjacent pieces of a text make up their concatenation.
proof fn lemma_join(s: Seq<char>, a: int, x: Seq<char>, y: Seq<char>)
    requires
        0 <= a,
        a + x.len() + y.len() <= s.len(),
        s.subrange(a, a + x.len()) == x,
        s.subrange(a + x.len(), a + x.len() + y.len()) == y,
    ensures
        s.subrange(a, a + x.len() + y.len()) == x + y,
{
    assert forall|j: int| 0 <= j < x.len() + y.len() implies #[trigger] s.subrange(a, a + x.len() + y.len())[j] == (x
        + y)[j] by {
        if j < x.len() {
            assert(s.subrange(a, a + x.len())[j] == s[a + j]);
        } else {
            assert(s.subrange(a + x.len(), a + x.len() + y.len())[j - x.len()] == s[a + j]);
        }
    }
    assert(s.subrange(a, a + x.len() + y.len()) =~= x + y);
}

/// The field lines are the first line, then the lines of the rest.
proof fn lemma_fields_text_front(fs: Seq<(Seq<char>, Seq<ChunkView>)>)
    requires
        fs.len() > 0,
    ensures
        fields_text(fs, false) == field_line(fs[0].0, fs[0].1) + fields_text(fs.drop_first(), false),
    decreases fs.len(),
{
    if fs.len() == 1 {
        assert(fs.drop_last() =~= Seq::<(Seq<char>, Seq<ChunkView>)>::empty());
        assert(fs.drop_first() =~= Seq::<(Seq<char>, Seq<ChunkView>)>::empty());
        assert(fields_text(fs, false) =~= field_line(fs[0].0, fs[0].1) + fields_text(fs.drop_first(), false));
    } else {
        lemma_fields_text_front(fs.drop_last());
        assert(fs.drop_last().drop_first() =~= fs.drop_first().drop_last());
        assert(fs.drop_first().last() == fs.last());
        assert(fs.drop_last()[0] == fs[0]);
        assert(fields_text(fs, false) =~= field_line(fs[0].0, fs[0].1) + fields_text(fs.drop_first(), false));
    }
}

/// The field lines after a line break, followed by `}`, read back as the
/// fields.
proof fn lemma_fields_body(
    s: Seq<char>,
    i: int,
    quotes: bool,
    acc: Seq<(Seq<char>, Seq<RawChunkView>)>,
    fs: Seq<(Seq<char>, Seq<ChunkView>)>,
)
    requires
        forall|j: int| 0 <= j < fs.len() ==> plain_name(#[trigger] fs[j].0) && plain_chunks(fs[j].1),
        0 <= i,
        i + fields_text(fs, false).len() + 2 <= s.len(),
        s.subrange(i, i + fields_text(fs, false).len() + 2) == seq!['\n'] + fields_text(fs, false) + seq!['}'],
    ensures
        fields_from(s, i, quotes, acc) == Some((acc + fields_raw(fs), i + fields_text(fs, false).len() + 2)),
    decreases fs.len(),
{
    let body = fields_text(fs, false);
    assert(seq!['\n'] + body + seq!['}'] =~= seq!['\n'] + (body + seq!['}']));
    lemma_split(s, i, seq!['\n'], body + seq!['}']);
    lemma_at(s, i, seq!['\n'], 0);
    if fs.len() == 0 {
        assert(body == Seq::<char>::empty());
        assert(body + seq!['}'] =~= seq!['}']);
        lemma_at(s, i + 1, seq!['}'], 0);
        assert(skip_space(s, i + 1) == i + 1);
        assert(fields_raw(fs) =~= Seq::<(Seq<char>, Seq<RawChunkView>)>::empty());
        assert(acc + fields_raw(fs) =~= acc);
    } else {
        let k0 = fs[0].0;
        let v0 = fs[0].1;
        let line0 = field_line(k0, v0);
        let rest = fs.drop_first();
        let body2 = fields_text(rest, false);
        lemma_fields_text_front(fs);
        assert(body + seq!['}'] =~= line0 + (body2 + seq!['}']));
        lemma_split(s, i + 1, line0, body2 + seq!['}']);
        assert(plain_name(fs[0].0) && plain_chunks(fs[0].1));
        lemma_at(s, i + 1, line0, 0);
        assert(line0[0] == k0[0]);
        assert(is_name_char(k0[0]));
        assert(skip_space(s, i + 1) == i + 1);
        assert(skip_space(s, i) == i + 1);
        lemma_field_line(s, i + 1, quotes, k0, v0);
        let j = i + line0.len() - 1;
        assert(line0 == k0 + seq![' ', '=', ' '] + field_source(v0) + seq![',', '\n']);
        lemma_at(s, i + 1, line0, line0.len() - 2);
        lemma_at(s, i + 1, line0, line0.len() - 1);
        assert(s[j] == ',');
        assert(skip_space(s, j) == j);
        assert(s.subrange(j + 1, j + 2) =~= seq!['\n']);
        lemma_join(s, j + 1, seq!['\n'], body2 + seq!['}']);
        assert(seq!['\n'] + (body2 + seq!['}']) =~= seq!['\n'] + body2 + seq!['}']);
        assert forall|m: int| 0 <= m < rest.len() implies plain_name(#[trigger] rest[m].0) && plain_chunks(rest[m].1) by {
            assert(rest[m] == fs[m + 1]);
        }
        lemma_fields_body(s, j + 1, quotes, acc.push((k0, raw_of(v0))), rest);
        assert(acc.push((k0, raw_of(v0))) + fields_raw(rest) =~= acc + fields_raw(fs));
    }
}

/// The body of an entry after its opening brace reads back as the entry.
proof fn lemma_entry_body_reads(
    s: Seq<char>,
    i: int,
    kind: Seq<char>,
    key: Seq<char>,
    fs: Seq<(Seq<char>, Seq<ChunkView>)>,
    quotes: bool,
)
    requires
        plain_key(key),
        forall|j: int| 0 <= j < fs.len() ==> plain_name(#[trigger] fs[j].0) && plain_chunks(fs[j].1),
        0 <= i,
        i + key.len() + fields_text(fs, false).len() + 3 <= s.len(),
        s.subrange(i, i + key.len() + fields_text(fs, false).len() + 3) == key + seq![',', '\n'] + fields_text(
            fs,
            false,
        ) + seq!['}'],
    ensures
        crate::parser::entry_body(s, i, kind, quotes) == Some(
            (
                RawEntryView { cite_key: key, entry_type: kind, fields: fields_raw(fs) },
                i + key.len() + fields_text(fs, false).len() + 3,
            ),
        ),
{
    let body = fields_text(fs, false);
    let c = i + key.len();
    let rest = seq!['\n'] + body + seq!['}'];
    assert(key + seq![',', '\n'] + body + seq!['}'] =~= key + (seq![','] + rest));
    lemma_split(s, i, key, seq![','] + rest);
    lemma_split(s, c, seq![','], rest);
    lemma_at(s, c, seq![','], 0);
    lemma_at(s, i, key, 0);
    assert(skip_space(s, i) == i);
    lemma_key_run(s, i, key);
    assert(skip_space(s, c) == c);
    lemma_fields_body(s, c + 1, quotes, Seq::empty(), fs);
    assert(Seq::<(Seq<char>, Seq<RawChunkView>)>::empty() + fields_raw(fs) =~= fields_raw(fs));
}

/// The raw entry that the BibLaTeX text of an entry reads back as.
pub open spec fn raw_entry_of(ev: EntryView) -> RawEntryView {
    RawEntryView { cite_key: ev.cite_key, entry_type: biblatex_kind(ev), fields: fields_raw(ev.fields) }
}

/// The raw entries that the BibLaTeX text of entries reads back as.
pub open spec fn raw_entries(es: Seq<EntryView>) -> Seq<RawEntryView> {
    es.map_values(|e: EntryView| raw_entry_of(e))
}

/// Reading the BibLaTeX text of a plain entry at position `i` adds its raw
/// entry and goes on after the text.
proof fn lemma_entry_at(
    s: Seq<char>,
    i: int,
    ev: EntryView,
    quotes: bool,
    entries: Seq<RawEntryView>,
    abbrs: Seq<(Seq<char>, Seq<ChunkView>)>,
)
    requires
        plain_entry(ev),
        0 <= i,
        i + biblatex_text(ev).len() <= s.len(),
        s.subrange(i, i + biblatex_text(ev).len()) == biblatex_text(ev),
    ensures
        crate::parser::items_from(s, i, quotes, entries, abbrs) == crate::parser::items_from(
            s,
            i + biblatex_text(ev).len(),
            quotes,
            entries.push(raw_entry_of(ev)),
            abbrs,
        ),
{
    reveal(crate::parser::items_from);
    reveal(plain_entry);
    let kind = biblatex_kind(ev);
    let key = ev.cite_key;
    let fs = ev.fields;
    let body = fields_text(fs, false);
    let t = biblatex_text(ev);
    let m: int = i + 1 + kind.len() as int;
    let head = seq!['@'] + kind + seq!['{'];
    let tail = key + seq![',', '\n'] + body + seq!['}'];
    let en = raw_entry_of(ev);
    assert(t =~= head + tail);
    assert forall|j: int| 0 <= j < fs.len() implies plain_name(#[trigger] fs[j].0) && plain_chunks(fs[j].1) by {
        assert(plain_name(ev.fields[j].0) && plain_chunks(ev.fields[j].1));
    }
    lemma_split(s, i, head, tail);
    assert(head.len() == m + 1 - i);
    assert(plain_key(key));
    assert(m + 1 + key.len() + body.len() + 3 <= s.len());
    assert(s.subrange(m + 1, m + 1 + key.len() + body.len() + 3) == key + seq![',', '\n'] + body + seq!['}']);
    lemma_entry_body_reads(s, m + 1, kind, key, fs, quotes);
    assert(crate::parser::entry_body(s, m + 1, kind, quotes) == Some((en, i + t.len())));
    assert(name_end(s, i + 1) == m && s[m] == '{' && s[i] == '@' && kind.len() > 0 && s.subrange(i + 1, m)
        == kind && skip_space(s, i + 1) == i + 1) by {
        lemma_split(s, i, head, tail);
        lemma_split(s, i, seq!['@'] + kind, seq!['{']);
        lemma_split(s, i, seq!['@'], kind);
        lemma_at(s, i, seq!['@'], 0);
        lemma_at(s, m, seq!['{'], 0);
        lemma_at(s, i + 1, kind, 0);
        assert forall|j: int| 0 <= j < kind.len() implies is_name_char(#[trigger] kind[j]) by {
            assert(plain_name(kind));
        }
        lemma_name_run(s, i + 1, kind);
    }
    assert(ascii_lowercase(kind) =~= kind);
    assert(next_at(s, i) == i);
    assert(skip_space(s, m) == m);
}

/// Reading goes on past a character that is not `@`.
proof fn lemma_items_skip(
    s: Seq<char>,
    p: int,
    quotes: bool,
    entries: Seq<RawEntryView>,
    abbrs: Seq<(Seq<char>, Seq<ChunkView>)>,
)
    requires
        0 <= p < s.len(),
        s[p] != '@',
    ensures
        crate::parser::items_from(s, p, quotes, entries, abbrs) == crate::parser::items_from(
            s,
            p + 1,
            quotes,
            entries,
            abbrs,
        ),
{
    reveal(crate::parser::items_from);
    assert(next_at(s, p) == next_at(s, p + 1));
}

/// The text of entries is the text of the first entry and a line break,
/// then the text of the rest.
proof fn lemma_bibliography_text_front(es: Seq<EntryView>)
    requires
        es.len() > 0,
    ensures
        crate::bibliography_text(es) == biblatex_text(es[0]) + seq!['\n'] + crate::bibliography_text(es.drop_first()),
    decreases es.len(),
{
    if es.len() == 1 {
        assert(es.drop_last() =~= Seq::<EntryView>::empty());
        assert(es.drop_first() =~= Seq::<EntryView>::empty());
        assert(crate::bibliography_text(es) =~= biblatex_text(es[0]) + seq!['\n'] + crate::bibliography_text(
            es.drop_first(),
        ));
    } else {
        lemma_bibliography_text_front(es.drop_last());
        assert(es.drop_last().drop_first() =~= es.drop_first().drop_last());
        assert(es.drop_first().last() == es.last());
        assert(es.drop_last()[0] == es[0]);
        assert(crate::bibliography_text(es) =~= biblatex_text(es[0]) + seq!['\n'] + crate::bibliography_text(
            es.drop_first(),
        ));
    }
}

/// Reading the text of plain entries from position `i` to the end adds
/// their raw entries.
proof fn lemma_entries_at(s: Seq<char>, i: int, quotes: bool, acc: Seq<RawEntryView>, es: Seq<EntryView>)
    requires
        forall|j: int| 0 <= j < es.len() ==> plain_entry(#[trigger] es[j]),
        0 <= i <= s.len(),
        s.subrange(i, s.len() as int) == crate::bibliography_text(es),
    ensures
        crate::parser::items_from(s, i, quotes, acc, Seq::empty()) == (
            acc + raw_entries(es),
            Seq::<(Seq<char>, Seq<ChunkView>)>::empty(),
        ),
    decreases es.len(),
{
    if es.len() == 0 {
        lemma_no_entries(s, i, quotes, acc, es);
    } else {
        let e0 = es[0];
        let rest = es.drop_first();
        let p = i + biblatex_text(e0).len();
        assert(plain_entry(e0));
        lemma_bibliography_text_front(es);
        lemma_entries_step(s, i, quotes, acc, e0, rest);
        assert forall|j: int| 0 <= j < rest.len() implies plain_entry(#[trigger] rest[j]) by {
            assert(rest[j] == es[j + 1]);
        }
        lemma_entries_at(s, p + 1, quotes, acc.push(raw_entry_of(e0)), rest);
        assert(acc.push(raw_entry_of(e0)) + raw_entries(rest) =~= acc + raw_entries(es));
    }
}

/// Reading at the end of the text adds nothing.
proof fn lemma_no_entries(s: Seq<char>, i: int, quotes: bool, acc: Seq<RawEntryView>, es: Seq<EntryView>)
    requires
        es.len() == 0,
        0 <= i <= s.len(),
        s.subrange(i, s.len() as int) == crate::bibliography_text(es),
    ensures
        crate::parser::items_from(s, i, quotes, acc, Seq::empty()) == (
            acc + raw_entries(es),
            Seq::<(Seq<char>, Seq<ChunkView>)>::empty(),
        ),
{
    reveal(crate::parser::items_from);
    assert(crate::bibliography_text(es) == Seq::<char>::empty());
    assert(s.subrange(i, s.len() as int).len() == 0);
    assert(i == s.len());
    assert(next_at(s, i) == i);
    assert(raw_entries(es) =~= Seq::<RawEntryView>::empty());
    assert(acc + raw_entries(es) =~= acc);
}

/// One step of reading entries: the first entry and the line break after it.
proof fn lemma_entries_step(
    s: Seq<char>,
    i: int,
    quotes: bool,
    acc: Seq<RawEntryView>,
    e0: EntryView,
    rest: Seq<EntryView>,
)
    requires
        plain_entry(e0),
        0 <= i <= s.len(),
        s.subrange(i, s.len() as int) == biblatex_text(e0) + seq!['\n'] + crate::bibliography_text(rest),
    ensures
        crate::parser::items_from(s, i, quotes, acc, Seq::empty()) == crate::parser::items_from(
            s,
            i + biblatex_text(e0).len() + 1,
            quotes,
            acc.push(raw_entry_of(e0)),
            Seq::empty(),
        ),
        i + biblatex_text(e0).len() + 1 <= s.len(),
        s.subrange(i + biblatex_text(e0).len() + 1, s.len() as int) == crate::bibliography_text(rest),
{
    let none = Seq::<(Seq<char>, Seq<ChunkView>)>::empty();
    let t0 = biblatex_text(e0);
    let p = i + t0.len();
    assert(biblatex_text(e0) + seq!['\n'] + crate::bibliography_text(rest) =~= t0 + (seq!['\n']
        + crate::bibliography_text(rest)));
    lemma_split(s, i, t0, seq!['\n'] + crate::bibliography_text(rest));
    lemma_entry_at(s, i, e0, quotes, acc, none);
    lemma_split(s, p, seq!['\n'], crate::bibliography_text(rest));
    lemma_at(s, p, seq!['\n'], 0);
    lemma_items_skip(s, p, quotes, acc.push(raw_entry_of(e0)), none);
}

/// Entries written as BibLaTeX read back as their raw entries, in order and
/// without abbreviations, when their keys, type names, field names and
/// values are plain.
pub proof fn law_bibliography_text_reads_back(es: Seq<EntryView>, quotes: bool)
    requires
        forall|j: int| 0 <= j < es.len() ==> plain_entry(#[trigger] es[j]),
    ensures
        parse_raw(crate::bibliography_text(es), quotes) == (RawBibliographyView {
            entries: raw_entries(es),
            abbreviations: Seq::empty(),
        }),
{
    let s = crate::bibliography_text(es);
    assert(s.subrange(0, s.len() as int) == s);
    lemma_entries_at(s, 0, quotes, Seq::empty(), es);
    assert(Seq::<RawEntryView>::empty() + raw_entries(es) =~= raw_entries(es));
}

/// An entry written as BibLaTeX reads back as one raw entry with the same
/// cite key, its BibLaTeX type name and the same fields, and without
/// abbreviations, when its key, type name, field names and values are
/// plain.
pub proof fn law_biblatex_text_reads_back(ev: EntryView, quotes: bool)
    requires
        plain_entry(ev),
    ensures
        parse_raw(biblatex_text(ev), quotes) == (RawBibliographyView {
            entries: seq![raw_entry_of(ev)],
            abbreviations: Seq::empty(),
        }),
{
    let s = biblatex_text(ev);
    let none = Seq::<(Seq<char>, Seq<ChunkView>)>::empty();
    assert(s.subrange(0, s.len() as int) == s);
    lemma_entry_at(s, 0, ev, quotes, Seq::empty(), none);
    reveal(crate::parser::items_from);
    assert(next_at(s, s.len() as int) == s.len());
    assert(Seq::<RawEntryView>::empty().push(raw_entry_of(ev)) =~= seq![raw_entry_of(ev)]);
}

} // verus!
