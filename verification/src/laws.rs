//! Properties that relate several operations: what a read gives back of a
//! write, what a removal leaves behind, and which fields inheritance keeps.
use vstd::prelude::*;

use crate::assoc::{
    first_index, keys_of, lemma_assoc_map, lemma_assoc_map_push, lemma_assoc_map_update,
    lemma_assoc_map_without,
};
use crate::chunk::{verbatim_text, ChunkView};
use crate::entry::{after_crossref, ev_delete, ev_set, inherit_fields, Entry, EntryView};
use crate::{alias_all, entry_ids, remap, resolve_each, resolved, Bibliography};
use crate::text::{
    decimal, drop_empty, is_digit, is_space, join, lemma_decimal_reads_back, lemma_split_at_sep,
    lemma_split_without_sep, lemma_trim_after_space, lemma_trim_unchanged, lemma_zero_pad_reads_back,
    lower_key, split_on, trim, trim_all, zero_pad, is_ascii_text, ascii_lowercase,
};
use crate::mechanics::EntryType;
use crate::types::{
    date_text, page_range, page_ranges, range_text, valid_date, Date, EditorType, Gender, IntOrChunks,
    IntOrChunksView, Pagination, Type,
};

verus! {

/// Setting a field stores the value under the lower-case form of its name.
pub proof fn lemma_set_field_map(ev: EntryView, key: Seq<char>, v: Seq<ChunkView>)
    ensures
        ev_set(ev, key, v).field_map() == ev.field_map().insert(lower_key(key), v),
{
    let k = lower_key(key);
    let i = first_index(keys_of(ev.fields), k);
    crate::assoc::lemma_first_index(keys_of(ev.fields), k);
    if i >= 0 {
        lemma_assoc_map_update(ev.fields, i, k, v);
    } else {
        lemma_assoc_map(ev.fields, k);
        lemma_assoc_map_push(ev.fields, k, v);
    }
}

/// A field reads back the value it was last set to; setting it leaves the
/// fields found under other lower-case names as they were.
pub proof fn law_get_after_set(ev: EntryView, key: Seq<char>, v: Seq<ChunkView>, other: Seq<char>)
    ensures
        ev_set(ev, key, v).get(key) == Some(v),
        lower_key(other) != lower_key(key) ==> ev_set(ev, key, v).get(other) == ev.get(other),
{
    lemma_set_field_map(ev, key, v);
}

/// After a field is deleted no value is stored under its name, and the
/// values stored under other names are as they were.
pub proof fn law_field_after_delete(ev: EntryView, key: Seq<char>, other: Seq<char>)
    ensures
        ev_delete(ev, key).field(key) is None,
        other != key ==> ev_delete(ev, key).field(other) == ev.field(other),
{
    lemma_assoc_map_without(ev.fields, key);
}

/// The text of a single normal chunk.
pub proof fn lemma_single_chunk_text(t: Seq<char>)
    ensures
        verbatim_text(seq![ChunkView::Normal(t)]) == t,
{
    let cs = seq![ChunkView::Normal(t)];
    assert(cs.drop_last() =~= Seq::<ChunkView>::empty());
    assert(cs.last().text() == t);
    assert(verbatim_text(Seq::<ChunkView>::empty()) == Seq::<char>::empty());
    assert(verbatim_text(cs) == verbatim_text(cs.drop_last()) + cs.last().text());
    assert(Seq::<char>::empty() + t =~= t);
}

/// A string written as chunks reads back as itself.
pub proof fn law_string_round_trip(s: Seq<char>)
    ensures
        <String as Type>::spec_to_chunks(s) matches Some(c) && <String as Type>::spec_from_chunks(c) == Some(s),
{
    lemma_single_chunk_text(s);
}

/// An integer written as chunks reads back as itself.
pub proof fn law_integer_round_trip(n: i64)
    ensures
        <i64 as Type>::spec_to_chunks(n as int) matches Some(c) && <i64 as Type>::spec_from_chunks(c) == Some(
            n as int,
        ),
{
    let t = crate::types::integer_text(n as int);
    lemma_single_chunk_text(t);
    if n < 0 {
        let m: nat = (-n) as nat;
        lemma_decimal_reads_back(m);
        let d = decimal(m);
        assert(t == seq!['-'] + d);
        assert(t.drop_first() =~= d);
        assert(t.last() == d.last());
        assert(is_digit(d[d.len() - 1]));
        lemma_trim_unchanged(t);
    } else {
        lemma_decimal_reads_back(n as nat);
        let d = decimal(n as nat);
        assert(is_digit(d[0]) && is_digit(d[d.len() - 1]));
        lemma_trim_unchanged(t);
    }
}

/// An editor type written as chunks reads back as itself.
pub proof fn law_editor_type_round_trip(t: EditorType)
    ensures
        <EditorType as Type>::spec_to_chunks(t) matches Some(c) && <EditorType as Type>::spec_from_chunks(c)
            == Some(t),
{
    reveal_strlit("editor");
    reveal_strlit("compiler");
    reveal_strlit("founder");
    reveal_strlit("continuator");
    reveal_strlit("redactor");
    reveal_strlit("reviser");
    reveal_strlit("collaborator");
    reveal_strlit("organizer");
    let name = crate::types::editor_type_name(t);
    lemma_single_chunk_text(name);
    lemma_trim_unchanged(name);
    assert(crate::text::ascii_lowercase(name) =~= name);
}

/// A pagination written as chunks reads back as itself.
pub proof fn law_pagination_round_trip(t: Pagination)
    ensures
        <Pagination as Type>::spec_to_chunks(t) matches Some(c) && <Pagination as Type>::spec_from_chunks(c)
            == Some(t),
{
    reveal_strlit("page");
    reveal_strlit("column");
    reveal_strlit("line");
    reveal_strlit("verse");
    reveal_strlit("section");
    reveal_strlit("paragraph");
    let name = crate::types::pagination_name(t);
    lemma_single_chunk_text(name);
    lemma_trim_unchanged(name);
    assert(crate::text::ascii_lowercase(name) =~= name);
}

/// A gender written as chunks reads back as itself.
pub proof fn law_gender_round_trip(t: Gender)
    ensures
        <Gender as Type>::spec_to_chunks(t) matches Some(c) && <Gender as Type>::spec_from_chunks(c) == Some(t),
{
    reveal_strlit("sf");
    reveal_strlit("sm");
    reveal_strlit("sn");
    reveal_strlit("pf");
    reveal_strlit("pm");
    reveal_strlit("pn");
    reveal_strlit("pp");
    let name = crate::types::gender_name(t);
    lemma_single_chunk_text(name);
    lemma_trim_unchanged(name);
    assert(crate::text::ascii_lowercase(name) =~= name);
}

/// A value that is an integer or text written as chunks reads back as
/// itself, when the integer fits in 64 bits and the text does not read as
/// an integer.
pub proof fn law_int_or_chunks_round_trip(m: IntOrChunksView)
    requires
        m matches IntOrChunksView::Int(n) ==> i64::MIN <= n <= i64::MAX,
        m matches IntOrChunksView::Chunks(c) ==> <i64 as Type>::spec_from_chunks(c) is None,
    ensures
        <IntOrChunks as Type>::spec_to_chunks(m) matches Some(c) && <IntOrChunks as Type>::spec_from_chunks(c)
            == Some(m),
{
    if let IntOrChunksView::Int(n) = m {
        law_integer_round_trip(n as i64);
    }
}

/// A run of digits holds neither a minus sign nor a comma.
proof fn lemma_digits_only(s: Seq<char>)
    requires
        forall|i: int| 0 <= i < s.len() ==> is_digit(#[trigger] s[i]),
    ensures
        !s.contains('-'),
        !s.contains(','),
{
    if s.contains('-') {
        let j = choose|j: int| 0 <= j < s.len() && s[j] == '-';
        assert(is_digit(s[j]));
    }
    if s.contains(',') {
        let j = choose|j: int| 0 <= j < s.len() && s[j] == ',';
        assert(is_digit(s[j]));
    }
}

/// A number of at most `width` digits, zero-padded, reads back as itself.
proof fn lemma_padded_number(n: nat, width: nat)
    ensures
        crate::types::number_in(zero_pad(decimal(n), width), 0, n) == Some(n),
        zero_pad(decimal(n), width).len() > 0,
        is_digit(zero_pad(decimal(n), width)[0]),
        is_digit(zero_pad(decimal(n), width).last()),
        !zero_pad(decimal(n), width).contains('-'),
{
    lemma_decimal_reads_back(n);
    lemma_zero_pad_reads_back(decimal(n), width);
    let z = zero_pad(decimal(n), width);
    assert(is_digit(z[0]));
    assert(is_digit(z[z.len() - 1]));
    lemma_digits_only(z);
}

/// A date that can be written reads back as itself.
pub proof fn law_date_round_trip(d: Date)
    requires
        valid_date(d),
    ensures
        <Date as Type>::spec_to_chunks(d) matches Some(c) && <Date as Type>::spec_from_chunks(c) == Some(d),
{
    let t = date_text(d);
    lemma_single_chunk_text(t);
    let y = zero_pad(decimal(d.year as nat), 4);
    lemma_padded_number(d.year as nat, 4);
    lemma_split_without_sep(y, '-');
    match d.month {
        None => {
            assert(t =~= y);
            lemma_trim_unchanged(t);
        },
        Some(m) => {
            let mt = zero_pad(decimal(m as nat), 2);
            lemma_padded_number(m as nat, 2);
            lemma_split_without_sep(mt, '-');
            lemma_split_at_sep(y, mt, '-');
            let ym = y + seq!['-'] + mt;
            match d.day {
                None => {
                    assert(t =~= ym);
                    assert(t.last() == mt.last());
                    lemma_trim_unchanged(t);
                    assert(split_on(t, '-') =~= seq![y, mt]);
                },
                Some(x) => {
                    let xt = zero_pad(decimal(x as nat), 2);
                    lemma_padded_number(x as nat, 2);
                    lemma_split_without_sep(xt, '-');
                    lemma_split_at_sep(ym, xt, '-');
                    assert(t =~= ym + seq!['-'] + xt);
                    assert(t.last() == xt.last());
                    lemma_trim_unchanged(t);
                    assert(split_on(t, '-') =~= seq![y, mt, xt]);
                },
            }
        },
    }
}

/// An item that a comma-separated list holds unchanged: not empty, without
/// commas, and neither beginning nor ending with whitespace.
pub open spec fn plain_item(s: Seq<char>) -> bool {
    &&& s.len() > 0
    &&& !s.contains(',')
    &&& !is_space(s[0])
    &&& !is_space(s.last())
}

/// The pieces that a list joined with `", "` splits into at its commas.
spec fn spaced(items: Seq<Seq<char>>) -> Seq<Seq<char>> {
    Seq::new(items.len(), |i: int| if i == 0 { items[0] } else { seq![' '] + items[i] })
}

proof fn lemma_split_joined(items: Seq<Seq<char>>)
    requires
        items.len() > 0,
        forall|i: int| 0 <= i < items.len() ==> plain_item(#[trigger] items[i]),
    ensures
        split_on(join(items, seq![',', ' ']), ',') == spaced(items),
    decreases items.len(),
{
    if items.len() == 1 {
        assert(plain_item(items[0]));
        lemma_split_without_sep(items[0], ',');
        assert(spaced(items) =~= seq![items[0]]);
    } else {
        let d = items.drop_last();
        let l = items.last();
        assert(plain_item(items[items.len() - 1]));
        assert forall|i: int| 0 <= i < d.len() implies plain_item(#[trigger] d[i]) by {
            assert(d[i] == items[i]);
        }
        lemma_split_joined(d);
        let sl = seq![' '] + l;
        assert(!sl.contains(',')) by {
            if sl.contains(',') {
                let j = choose|j: int| 0 <= j < sl.len() && sl[j] == ',';
                assert(sl[j] == l[j - 1]);
            }
        }
        lemma_split_without_sep(sl, ',');
        assert(join(items, seq![',', ' ']) =~= join(d, seq![',', ' ']) + seq![','] + sl);
        lemma_split_at_sep(join(d, seq![',', ' ']), sl, ',');
        assert(spaced(items) =~= spaced(d) + seq![sl]);
    }
}

proof fn lemma_drop_empty_keeps(ss: Seq<Seq<char>>)
    requires
        forall|i: int| 0 <= i < ss.len() ==> (#[trigger] ss[i]).len() > 0,
    ensures
        drop_empty(ss) == ss,
    decreases ss.len(),
{
    if ss.len() > 0 {
        assert(ss[ss.len() - 1].len() > 0);
        lemma_drop_empty_keeps(ss.drop_last());
        assert(ss.drop_last().push(ss.last()) =~= ss);
    }
}

/// A list of plain items written as chunks reads back as the same list.
pub proof fn law_list_round_trip(items: Seq<Seq<char>>)
    requires
        forall|i: int| 0 <= i < items.len() ==> plain_item(#[trigger] items[i]),
    ensures
        <Vec<String> as Type>::spec_to_chunks(items) matches Some(c) && <Vec<String> as Type>::spec_from_chunks(c)
            == Some(items),
{
    let t = join(items, seq![',', ' ']);
    lemma_single_chunk_text(t);
    if items.len() == 0 {
        assert(split_on(t, ',') == seq![Seq::<char>::empty()]);
        assert(trim(Seq::<char>::empty()) == Seq::<char>::empty());
        assert(trim_all(split_on(t, ',')) =~= seq![Seq::<char>::empty()]);
        let e = seq![Seq::<char>::empty()];
        assert(e.drop_last() =~= Seq::<Seq<char>>::empty());
        assert(e.last().len() == 0);
        assert(drop_empty(e) == drop_empty(e.drop_last()));
        assert(drop_empty(e) =~= items);
    } else {
        lemma_split_joined(items);
        assert forall|i: int| 0 <= i < items.len() implies #[trigger] trim_all(spaced(items))[i] == items[i] by {
            assert(plain_item(items[i]));
            if i == 0 {
                lemma_trim_unchanged(items[0]);
            } else {
                lemma_trim_after_space(' ', items[i]);
            }
        }
        assert(trim_all(spaced(items)) =~= items);
        assert forall|i: int| 0 <= i < items.len() implies (#[trigger] items[i]).len() > 0 by {
            assert(plain_item(items[i]));
        }
        lemma_drop_empty_keeps(items);
    }
}

/// The year, month and day that a date is written into for BibTeX read
/// back as the same date.
pub proof fn law_date_fields_round_trip(d: Date)
    requires
        valid_date(d),
    ensures
        crate::types::date_from_parts(
            Some(crate::types::integer_text(d.year as int)),
            match d.month {
                Some(m) => Some(decimal(m as nat)),
                None => None,
            },
            match d.day {
                Some(x) => Some(decimal(x as nat)),
                None => None,
            },
        ) == Some(d),
{
    lemma_decimal_reads_back(d.year as nat);
    if let Some(m) = d.month {
        lemma_decimal_reads_back(m as nat);
    }
    if let Some(x) = d.day {
        lemma_decimal_reads_back(x as nat);
    }
}

/// A page range is written as a plain list item that reads back as itself.
proof fn lemma_page_range_text(r: (u32, u32))
    ensures
        plain_item(range_text(r)),
        page_range(range_text(r)) == Some(r),
{
    let a = decimal(r.0 as nat);
    let b = decimal(r.1 as nat);
    lemma_decimal_reads_back(r.0 as nat);
    lemma_decimal_reads_back(r.1 as nat);
    lemma_digits_only(a);
    lemma_digits_only(b);
    assert(is_digit(a[0]) && is_digit(a[a.len() - 1]));
    assert(is_digit(b[0]) && is_digit(b[b.len() - 1]));
    lemma_split_without_sep(a, '-');
    lemma_split_without_sep(b, '-');
    lemma_trim_unchanged(a);
    lemma_trim_unchanged(b);
    if r.0 == r.1 {
        assert(trim_all(seq![a]) =~= seq![a]);
        lemma_drop_empty_keeps(seq![a]);
    } else {
        let t = a + seq!['-'] + b;
        lemma_split_at_sep(a, b, '-');
        assert(split_on(t, '-') =~= seq![a, b]);
        assert(trim_all(seq![a, b]) =~= seq![a, b]);
        lemma_drop_empty_keeps(seq![a, b]);
        assert(!t.contains(',')) by {
            if t.contains(',') {
                let j = choose|j: int| 0 <= j < t.len() && t[j] == ',';
                if j < a.len() {
                    assert(t[j] == a[j]);
                } else if j > a.len() {
                    assert(t[j] == b[j - a.len() - 1]);
                }
            }
        }
        assert(t[0] == a[0]);
        assert(t.last() == b.last());
    }
}

proof fn lemma_page_ranges_of_texts(m: Seq<(u32, u32)>)
    ensures
        page_ranges(m.map_values(|r: (u32, u32)| range_text(r))) == Some(m),
    decreases m.len(),
{
    let texts = m.map_values(|r: (u32, u32)| range_text(r));
    if m.len() > 0 {
        lemma_page_ranges_of_texts(m.drop_last());
        assert(texts.drop_last() =~= m.drop_last().map_values(|r: (u32, u32)| range_text(r)));
        lemma_page_range_text(m.last());
        assert(m.drop_last().push(m.last()) =~= m);
    } else {
        assert(texts =~= Seq::<Seq<char>>::empty());
    }
}

/// Page ranges written as chunks read back as themselves.
pub proof fn law_pages_round_trip(m: Seq<(u32, u32)>)
    ensures
        <Vec<std::ops::Range<u32>> as Type>::spec_to_chunks(m) matches Some(c) && <Vec<
            std::ops::Range<u32>,
        > as Type>::spec_from_chunks(c) == Some(m),
{
    let texts = m.map_values(|r: (u32, u32)| range_text(r));
    assert forall|i: int| 0 <= i < texts.len() implies plain_item(#[trigger] texts[i]) by {
        lemma_page_range_text(m[i]);
    }
    law_list_round_trip(texts);
    lemma_page_ranges_of_texts(m);
}


/// Adding aliases keeps every key that was there, with its position.
proof fn lemma_alias_all_keeps(m: Map<Seq<char>, usize>, ids: Seq<Seq<char>>, idx: usize, k: Seq<char>)
    requires
        m.contains_key(k),
    ensures
        alias_all(m, ids, idx).0.contains_key(k),
        alias_all(m, ids, idx).0[k] == m[k],
    decreases ids.len(),
{
    if ids.len() > 0 && !m.contains_key(ids[0]) {
        lemma_alias_all_keeps(m.insert(ids[0], idx), ids.drop_first(), idx, k);
    }
}

/// When every alias could be added, each of them names the position.
proof fn lemma_alias_all_names(m: Map<Seq<char>, usize>, ids: Seq<Seq<char>>, idx: usize, j: int)
    requires
        alias_all(m, ids, idx).1,
        0 <= j < ids.len(),
    ensures
        alias_all(m, ids, idx).0.contains_key(ids[j]),
        alias_all(m, ids, idx).0[ids[j]] == idx,
    decreases ids.len(),
{
    let m1 = m.insert(ids[0], idx);
    if j == 0 {
        lemma_alias_all_keeps(m1, ids.drop_first(), idx, ids[0]);
    } else {
        lemma_alias_all_names(m1, ids.drop_first(), idx, j - 1);
    }
}

/// After an entry whose cite key is new has been added, its cite key finds
/// it and every key that found an entry before finds the same entry; when
/// all the aliases in its `ids` field could be added, each of them finds
/// it too.
pub proof fn law_get_after_add(before: Bibliography, after: Bibliography, entry: Entry, k: Seq<char>, j: int)
    requires
        before.wf(),
        after.wf(),
        !before.key_map().contains_key(entry.cite_key@),
        after.entries() == before.entries().push(entry),
        after.key_map() == alias_all(
            before.key_map().insert(entry.cite_key@, before.entries().len() as usize),
            entry_ids(entry@),
            before.entries().len() as usize,
        ).0,
    ensures
        after.lookup(entry.cite_key@) == Some(entry),
        before.key_map().contains_key(k) ==> after.lookup(k) == before.lookup(k),
        alias_all(
            before.key_map().insert(entry.cite_key@, before.entries().len() as usize),
            entry_ids(entry@),
            before.entries().len() as usize,
        ).1 && 0 <= j < entry_ids(entry@).len() ==> after.lookup(entry_ids(entry@)[j]) == Some(entry),
{
    let n = before.entries().len() as usize;
    let m1 = before.key_map().insert(entry.cite_key@, n);
    let ids = entry_ids(entry@);
    before.lemma_wf_keys();
    after.lemma_wf_keys();
    lemma_alias_all_keeps(m1, ids, n, entry.cite_key@);
    if before.key_map().contains_key(k) {
        lemma_alias_all_keeps(m1, ids, n, k);
        assert(after.entries()[before.key_map()[k] as int] == before.entries()[before.key_map()[k] as int]);
    }
    if alias_all(m1, ids, n).1 && 0 <= j < ids.len() {
        lemma_alias_all_names(m1, ids, n, j);
    }
}

/// After an alias has been added, it finds the entry its cite key finds,
/// and every other key finds what it found before.
pub proof fn law_get_after_alias(before: Bibliography, after: Bibliography, cite_key: Seq<char>, alias: Seq<char>, k: Seq<char>)
    requires
        before.wf(),
        before.key_map().contains_key(cite_key),
        !before.key_map().contains_key(alias),
        after.entries() == before.entries(),
        after.key_map() == before.key_map().insert(alias, before.key_map()[cite_key]),
    ensures
        after.lookup(alias) == before.lookup(cite_key),
        k != alias ==> after.lookup(k) == before.lookup(k),
{
}

/// After an entry has been removed, none of the keys that named it finds
/// an entry, and every other key finds the entry it found before.
pub proof fn law_get_after_remove(before: Bibliography, after: Bibliography, cite_key: Seq<char>, k: Seq<char>)
    requires
        before.wf(),
        before.key_map().contains_key(cite_key),
        after.entries() == before.entries().remove(before.key_map()[cite_key] as int),
        after.key_map() == remap(before.key_map(), before.key_map()[cite_key]),
    ensures
        after.lookup(cite_key) is None,
        after.entries().len() == before.entries().len() - 1,
        before.key_map().contains_key(k) && before.key_map()[k] == before.key_map()[cite_key] ==> after.lookup(k) is None,
        before.key_map().contains_key(k) && before.key_map()[k] != before.key_map()[cite_key] ==> after.lookup(k)
            == before.lookup(k),
        !before.key_map().contains_key(k) ==> after.lookup(k) is None,
{
    before.lemma_wf_keys();
    let idx = before.key_map()[cite_key];
    if before.key_map().contains_key(k) && before.key_map()[k] != idx {
        let v = before.key_map()[k];
        if v > idx {
            assert(after.entries()[v - 1] == before.entries()[v as int]);
        } else {
            assert(after.entries()[v as int] == before.entries()[v as int]);
        }
    }
}

/// A change made through the reference that `get_mut` hands out is what
/// the key finds afterwards; keys naming other entries find what they
/// found before.
pub proof fn law_get_after_get_mut(before: Bibliography, after: Bibliography, cite_key: Seq<char>, e: Entry, k: Seq<char>)
    requires
        before.wf(),
        before.key_map().contains_key(cite_key),
        after.entries() == before.entries().update(before.key_map()[cite_key] as int, e),
        after.key_map() == before.key_map(),
    ensures
        after.lookup(cite_key) == Some(e),
        before.key_map().contains_key(k) && before.key_map()[k] != before.key_map()[cite_key] ==> after.lookup(k)
            == before.lookup(k),
{
    before.lemma_wf_keys();
}

/// Filling missing fields keeps every field the entry has.
proof fn lemma_inherit_keeps(ev: EntryView, fs: Seq<Seq<char>>, cr: EntryView, k: Seq<char>)
    requires
        ev.get(k) is Some,
    ensures
        inherit_fields(ev, fs, cr).get(k) == ev.get(k),
    decreases fs.len(),
{
    if fs.len() > 0 {
        lemma_inherit_keeps(ev, fs.drop_last(), cr, k);
        let e = inherit_fields(ev, fs.drop_last(), cr);
        let f = fs.last();
        if e.get(f) is None {
            if let Some(v) = crate::entry::inherited_value(f, cr) {
                lemma_set_field_map(e, f, v);
            }
        }
    }
}

/// Inheriting from a parent never changes a field the entry already has,
/// except that a date of the parent replaces the entry's own date fields.
pub proof fn law_inheritance_keeps_own_fields(ev: EntryView, cr: EntryView, k: Seq<char>)
    requires
        ev.get(k) is Some,
        lower_key(k) != "date"@,
        lower_key(k) != "year"@,
        lower_key(k) != "month"@,
        lower_key(k) != "day"@,
    ensures
        after_crossref(ev, cr).get(k) == ev.get(k),
{
    reveal_strlit("date");
    assert(ascii_lowercase("date"@) =~= "date"@);
    assert(lower_key("date"@) == "date"@);
    let e = inherit_fields(ev, crate::entry::inheritable_fields(ev.entry_type, keys_of(cr.fields)), cr);
    lemma_inherit_keeps(ev, crate::entry::inheritable_fields(ev.entry_type, keys_of(cr.fields)), cr, k);
    let f = crate::entry::date_fetch(cr.field_map());
    if let crate::entry::Fetch::Found(d) = f {
        let e1 = ev_set(e, "date"@, crate::entry::date_chunks(d));
        let e2 = ev_delete(e1, "year"@);
        let e3 = ev_delete(e2, "month"@);
        lemma_set_field_map(e, "date"@, crate::entry::date_chunks(d));
        lemma_assoc_map_without(e1.fields, "year"@);
        lemma_assoc_map_without(e2.fields, "month"@);
        lemma_assoc_map_without(e3.fields, "day"@);
    }
}

/// Inheriting from each parent in turn keeps the entry's own fields.
proof fn lemma_resolve_each_keeps(ev: EntryView, ps: Seq<EntryView>, bib: Bibliography, depth: nat, k: Seq<char>)
    requires
        ev.get(k) is Some,
        lower_key(k) != "date"@,
        lower_key(k) != "year"@,
        lower_key(k) != "month"@,
        lower_key(k) != "day"@,
    ensures
        resolve_each(ev, ps, bib, depth) matches Some(e) ==> e.get(k) == ev.get(k),
    decreases ps.len(),
{
    if ps.len() > 0 {
        lemma_resolve_each_keeps(ev, ps.drop_last(), bib, depth, k);
        if let Some(e) = resolve_each(ev, ps.drop_last(), bib, depth) {
            if let Some(p) = resolved(ps.last(), bib, depth) {
                law_inheritance_keeps_own_fields(e, p, k);
            }
        }
    }
}

/// An entry with its `crossref` and `xdata` references resolved keeps
/// every field it had, apart from those two and the date fields that a
/// parent's date replaces.
pub proof fn law_resolved_keeps_own_fields(ev: EntryView, bib: Bibliography, depth: nat, k: Seq<char>)
    requires
        resolved(ev, bib, depth) is Some,
        ev.get(k) is Some,
        lower_key(k) != "date"@,
        lower_key(k) != "year"@,
        lower_key(k) != "month"@,
        lower_key(k) != "day"@,
        lower_key(k) != "crossref"@,
        lower_key(k) != "xdata"@,
    ensures
        resolved(ev, bib, depth)->Some_0.get(k) == ev.get(k),
{
    let ps = crate::parents_to_resolve(ev, bib)->Some_0;
    let e = if ps.len() == 0 {
        ev
    } else {
        lemma_resolve_each_keeps(ev, ps, bib, (depth - 1) as nat, k);
        resolve_each(ev, ps, bib, (depth - 1) as nat)->Some_0
    };
    let e1 = ev_delete(e, "crossref"@);
    lemma_assoc_map_without(e.fields, "crossref"@);
    lemma_assoc_map_without(e1.fields, "xdata"@);
}

/// An entry that names neither a `crossref` nor `xdata` entries resolves
/// to itself.
pub proof fn law_resolved_without_references(ev: EntryView, bib: Bibliography, depth: nat)
    requires
        ev.get("crossref"@) is None,
        ev.get("xdata"@) is None,
        ev.field("crossref"@) is None,
        ev.field("xdata"@) is None,
    ensures
        resolved(ev, bib, depth) == Some(ev),
{
    assert(crate::parents_to_resolve(ev, bib) == Some(Seq::<EntryView>::empty() + Seq::<EntryView>::empty()));
    assert(Seq::<EntryView>::empty() + Seq::<EntryView>::empty() =~= Seq::<EntryView>::empty());
    lemma_assoc_map(ev.fields, "crossref"@);
    lemma_assoc_map(ev.fields, "xdata"@);
    crate::entry::lemma_without_key_absent(ev.fields, "crossref"@);
    crate::entry::lemma_without_key_absent(ev.fields, "xdata"@);
    assert(ev_delete(ev, "crossref"@) == ev);
}

/// Inheriting from parents that all resolve gives an entry.
proof fn lemma_resolve_each_some(ev: EntryView, ps: Seq<EntryView>, bib: Bibliography, depth: nat)
    requires
        forall|i: int| 0 <= i < ps.len() ==> (#[trigger] resolved(ps[i], bib, depth)) is Some,
    ensures
        resolve_each(ev, ps, bib, depth) is Some,
    decreases ps.len(),
{
    if ps.len() > 0 {
        assert forall|i: int| 0 <= i < ps.drop_last().len() implies (#[trigger] resolved(
            ps.drop_last()[i],
            bib,
            depth,
        )) is Some by {
            assert(ps.drop_last()[i] == ps[i]);
        }
        lemma_resolve_each_some(ev, ps.drop_last(), bib, depth);
        assert(resolved(ps[ps.len() - 1], bib, depth) is Some);
    }
}

/// When the references of a set of entries all exist within the set and
/// a rank decreases from each entry to its parents, so that the
/// references have no cycle, every entry of the set resolves with more
/// levels than its rank.
pub proof fn law_ranked_references_resolve(
    ev: EntryView,
    bib: Bibliography,
    closed: spec_fn(EntryView) -> bool,
    rank: spec_fn(EntryView) -> nat,
    depth: nat,
)
    requires
        closed(ev),
        rank(ev) < depth,
        forall|e: EntryView|
            #[trigger] closed(e) ==> (crate::parents_to_resolve(e, bib) matches Some(ps) && forall|i: int|
                0 <= i < ps.len() ==> closed(ps[i]) && rank(ps[i]) < rank(e)),
    ensures
        resolved(ev, bib, depth) is Some,
    decreases depth,
{
    let ps = crate::parents_to_resolve(ev, bib)->Some_0;
    if ps.len() > 0 {
        assert forall|i: int| 0 <= i < ps.len() implies (#[trigger] resolved(ps[i], bib, (depth - 1) as nat)) is Some by {
            assert(closed(ps[i]) && rank(ps[i]) < rank(ev));
            law_ranked_references_resolve(ps[i], bib, closed, rank, (depth - 1) as nat);
        }
        lemma_resolve_each_some(ev, ps, bib, (depth - 1) as nat);
    }
}

/// Field names that differ only in the case of ASCII letters find the
/// same field.
pub proof fn law_get_ignores_ascii_case(ev: EntryView, k1: Seq<char>, k2: Seq<char>)
    requires
        is_ascii_text(k1),
        is_ascii_text(k2),
        ascii_lowercase(k1) == ascii_lowercase(k2),
    ensures
        ev.get(k1) == ev.get(k2),
{
}

/// A lookup by the lower-case form of an ASCII name finds what a lookup
/// by the name finds: the lower-case form is its own lower-case form.
pub proof fn law_get_by_lower_name(ev: EntryView, k: Seq<char>)
    requires
        is_ascii_text(k),
    ensures
        lower_key(lower_key(k)) == lower_key(k),
        ev.get(lower_key(k)) == ev.get(k),
{
    let l = ascii_lowercase(k);
    assert forall|i: int| 0 <= i < l.len() implies (#[trigger] l[i] as int) < 128 by {
        assert((k[i] as int) < 128);
    }
    assert(ascii_lowercase(l) =~= l);
}

/// Deleting the name under which `set` stored a field removes the field,
/// so that a lookup by the name given to `set` finds nothing; the fields
/// found under other lower-case names are as they were before the `set`.
pub proof fn law_delete_after_set(ev: EntryView, key: Seq<char>, v: Seq<ChunkView>, other: Seq<char>)
    ensures
        ev_delete(ev_set(ev, key, v), lower_key(key)).get(key) is None,
        lower_key(other) != lower_key(key) ==> ev_delete(ev_set(ev, key, v), lower_key(key)).get(other)
            == ev.get(other),
{
    lemma_set_field_map(ev, key, v);
    lemma_assoc_map_without(ev_set(ev, key, v).fields, lower_key(key));
}

/// Inheriting from a parent keeps the cite key and the entry type.
proof fn lemma_inherit_keeps_identity(ev: EntryView, fs: Seq<Seq<char>>, cr: EntryView)
    ensures
        inherit_fields(ev, fs, cr).cite_key == ev.cite_key,
        inherit_fields(ev, fs, cr).entry_type == ev.entry_type,
    decreases fs.len(),
{
    if fs.len() > 0 {
        lemma_inherit_keeps_identity(ev, fs.drop_last(), cr);
    }
}

/// Inheriting from each parent in turn keeps the cite key and the type.
proof fn lemma_resolve_each_keeps_identity(ev: EntryView, ps: Seq<EntryView>, bib: Bibliography, depth: nat)
    ensures
        resolve_each(ev, ps, bib, depth) matches Some(e) ==> e.cite_key == ev.cite_key && e.entry_type
            == ev.entry_type,
    decreases ps.len(),
{
    if ps.len() > 0 {
        lemma_resolve_each_keeps_identity(ev, ps.drop_last(), bib, depth);
        if let Some(e) = resolve_each(ev, ps.drop_last(), bib, depth) {
            if let Some(p) = resolved(ps.last(), bib, depth) {
                lemma_inherit_keeps_identity(
                    e,
                    crate::entry::inheritable_fields(e.entry_type, keys_of(p.fields)),
                    p,
                );
            }
        }
    }
}

/// A resolved entry has the cite key and the type of the entry it was
/// resolved from, and names no `crossref` or `xdata` parent any more.
pub proof fn law_resolved_identity(ev: EntryView, bib: Bibliography, depth: nat)
    requires
        resolved(ev, bib, depth) is Some,
    ensures
        resolved(ev, bib, depth)->Some_0.cite_key == ev.cite_key,
        resolved(ev, bib, depth)->Some_0.entry_type == ev.entry_type,
        resolved(ev, bib, depth)->Some_0.get("crossref"@) is None,
        resolved(ev, bib, depth)->Some_0.get("xdata"@) is None,
{
    let ps = crate::parents_to_resolve(ev, bib)->Some_0;
    let e = if ps.len() == 0 {
        ev
    } else {
        lemma_resolve_each_keeps_identity(ev, ps, bib, (depth - 1) as nat);
        resolve_each(ev, ps, bib, (depth - 1) as nat)->Some_0
    };
    let e1 = ev_delete(e, "crossref"@);
    lemma_assoc_map_without(e.fields, "crossref"@);
    lemma_assoc_map_without(e1.fields, "xdata"@);
    reveal_strlit("crossref");
    reveal_strlit("xdata");
    assert(ascii_lowercase("crossref"@) =~= "crossref"@);
    assert(ascii_lowercase("xdata"@) =~= "xdata"@);
    assert(lower_key("crossref"@) == "crossref"@);
    assert(lower_key("xdata"@) == "xdata"@);
}

/// Each entry after the first is a parent that resolving the entry before
/// it draws on.
pub open spec fn is_parent_chain(bib: Bibliography, s: Seq<EntryView>) -> bool {
    forall|i: int|
        0 <= i < s.len() - 1 ==> (#[trigger] crate::parents_to_resolve(s[i], bib) matches Some(ps)
            && ps.contains(s[i + 1]))
}

/// The entries of the bibliography as values.
pub open spec fn entry_values(bib: Bibliography) -> Seq<EntryView> {
    crate::entry_views(bib.entries())
}

/// Every entry that a key names is an entry of the bibliography.
proof fn lemma_lookup_in_entries(bib: Bibliography, k: Seq<char>)
    requires
        bib.wf(),
    ensures
        crate::lookup_view(bib, k) matches Some(e) ==> entry_values(bib).contains(e),
{
    bib.lemma_wf_keys();
    if bib.key_map().contains_key(k) {
        let j = bib.key_map()[k] as int;
        assert(entry_values(bib)[j] == bib.entries()[j]@);
    }
}

/// Every entry found for a list of keys is an entry of the bibliography.
proof fn lemma_lookup_all_in_entries(bib: Bibliography, keys: Seq<Seq<char>>)
    requires
        bib.wf(),
    ensures
        crate::lookup_all(bib, keys) matches Some(es) ==> forall|i: int|
            0 <= i < es.len() ==> entry_values(bib).contains(#[trigger] es[i]),
    decreases keys.len(),
{
    if keys.len() > 0 {
        lemma_lookup_all_in_entries(bib, keys.drop_last());
        lemma_lookup_in_entries(bib, keys.last());
    }
}

/// Every parent of an entry is an entry of the bibliography.
proof fn lemma_parents_in_entries(bib: Bibliography, ev: EntryView)
    requires
        bib.wf(),
    ensures
        crate::parents_to_resolve(ev, bib) matches Some(ps) ==> forall|i: int|
            0 <= i < ps.len() ==> entry_values(bib).contains(#[trigger] ps[i]),
{
    let m = ev.field_map();
    if let Some(c) = crate::entry::map_get(m, "crossref"@) {
        lemma_lookup_in_entries(bib, verbatim_text(c));
    }
    if let Some(c) = crate::entry::map_get(m, "xdata"@) {
        lemma_lookup_all_in_entries(bib, crate::types::comma_list(verbatim_text(c)));
    }
}

/// A path of distinct entries of the bibliography is no longer than the
/// bibliography.
proof fn lemma_distinct_path_len(bib: Bibliography, s: Seq<EntryView>)
    requires
        s.no_duplicates(),
        forall|i: int| 0 <= i < s.len() ==> entry_values(bib).contains(#[trigger] s[i]),
    ensures
        s.len() <= bib.entries().len(),
{
    broadcast use vstd::seq_lib::seq_to_set_is_finite;
    let all = entry_values(bib);
    s.unique_seq_to_set();
    all.lemma_cardinality_of_set();
    assert(s.to_set().subset_of(all.to_set())) by {
        assert forall|x: EntryView| s.to_set().contains(x) implies all.to_set().contains(x) by {
            let i = s.index_of(x);
            assert(all.contains(s[i]));
        }
    }
    vstd::set_lib::lemma_len_subset(s.to_set(), all.to_set());
}

/// The last entry of a parent chain from `ev` resolves with as many levels
/// as the bibliography has entries beyond the length of the chain.
proof fn lemma_chain_end_resolves(bib: Bibliography, ev: EntryView, s: Seq<EntryView>)
    requires
        bib.wf(),
        entry_values(bib).contains(ev),
        forall|t: Seq<EntryView>|
            t.len() > 0 && t[0] == ev && #[trigger] is_parent_chain(bib, t) ==> t.no_duplicates()
                && crate::parents_to_resolve(t.last(), bib) is Some,
        s.len() > 0,
        s[0] == ev,
        is_parent_chain(bib, s),
        forall|i: int| 0 <= i < s.len() ==> entry_values(bib).contains(#[trigger] s[i]),
    ensures
        s.len() <= bib.entries().len(),
        resolved(s.last(), bib, (bib.entries().len() + 1 - s.len()) as nat) is Some,
    decreases bib.entries().len() + 1 - s.len(),
{
    lemma_distinct_path_len(bib, s);
    let n = bib.entries().len();
    let e = s.last();
    let ps = crate::parents_to_resolve(e, bib)->Some_0;
    lemma_parents_in_entries(bib, e);
    let d = (n + 1 - s.len()) as nat;
    assert forall|i: int| 0 <= i < ps.len() implies (#[trigger] resolved(ps[i], bib, (d - 1) as nat)) is Some by {
        let t = s.push(ps[i]);
        assert(t[0] == ev);
        assert(t.last() == ps[i]);
        assert forall|j: int| 0 <= j < t.len() - 1 implies (#[trigger] crate::parents_to_resolve(t[j], bib) matches Some(qs)
            && qs.contains(t[j + 1])) by {
            if j < s.len() - 1 {
                assert(t[j] == s[j] && t[j + 1] == s[j + 1]);
                assert(crate::parents_to_resolve(s[j], bib) matches Some(qs) && qs.contains(s[j + 1]));
            } else {
                assert(t[j] == e);
                assert(ps.contains(ps[i]));
            }
        }
        assert(is_parent_chain(bib, t));
        assert forall|j: int| 0 <= j < t.len() implies entry_values(bib).contains(#[trigger] t[j]) by {
            if j < s.len() {
                assert(t[j] == s[j]);
            }
        }
        lemma_chain_end_resolves(bib, ev, t);
    }
    if ps.len() > 0 {
        assert(resolved(ps[0], bib, (d - 1) as nat) is Some);
        lemma_resolve_each_some(e, ps, bib, (d - 1) as nat);
    }
}

/// When the entries that an entry of the bibliography draws on, directly
/// or through their own `crossref` and `xdata` parents, all exist and no
/// path through them comes back to an entry already on it, the entry
/// resolves within as many levels as the bibliography has entries, the
/// depth that `get_resolved` uses.
pub proof fn law_acyclic_references_resolve(bib: Bibliography, ev: EntryView)
    requires
        bib.wf(),
        entry_values(bib).contains(ev),
        forall|t: Seq<EntryView>|
            t.len() > 0 && t[0] == ev && #[trigger] is_parent_chain(bib, t) ==> t.no_duplicates()
                && crate::parents_to_resolve(t.last(), bib) is Some,
    ensures
        resolved(ev, bib, bib.entries().len()) is Some,
{
    let s = seq![ev];
    assert(s.last() == ev);
    assert(is_parent_chain(bib, s));
    lemma_chain_end_resolves(bib, ev, s);
}

/// The field names that entry types ask for are in lower case.
proof fn lemma_requirement_names_lower()
    ensures
        lower_key("addendum"@) == "addendum"@,
        lower_key("afterword"@) == "afterword"@,
        lower_key("annotator"@) == "annotator"@,
        lower_key("author"@) == "author"@,
        lower_key("bookauthor"@) == "bookauthor"@,
        lower_key("booksubtitle"@) == "booksubtitle"@,
        lower_key("booktitle"@) == "booktitle"@,
        lower_key("booktitleaddon"@) == "booktitleaddon"@,
        lower_key("chapter"@) == "chapter"@,
        lower_key("commentator"@) == "commentator"@,
        lower_key("doi"@) == "doi"@,
        lower_key("edition"@) == "edition"@,
        lower_key("editor"@) == "editor"@,
        lower_key("eid"@) == "eid"@,
        lower_key("eprint"@) == "eprint"@,
        lower_key("eprintclass"@) == "eprintclass"@,
        lower_key("eprinttype"@) == "eprinttype"@,
        lower_key("eventtitle"@) == "eventtitle"@,
        lower_key("eventtitleaddon"@) == "eventtitleaddon"@,
        lower_key("foreword"@) == "foreword"@,
        lower_key("holder"@) == "holder"@,
        lower_key("howpublished"@) == "howpublished"@,
        lower_key("institution"@) == "institution"@,
        lower_key("introduction"@) == "introduction"@,
        lower_key("isbn"@) == "isbn"@,
        lower_key("isrn"@) == "isrn"@,
        lower_key("issn"@) == "issn"@,
        lower_key("issue"@) == "issue"@,
        lower_key("issuesubtitle"@) == "issuesubtitle"@,
        lower_key("issuetitle"@) == "issuetitle"@,
        lower_key("journalsubtitle"@) == "journalsubtitle"@,
        lower_key("journaltitle"@) == "journaltitle"@,
        lower_key("language"@) == "language"@,
        lower_key("location"@) == "location"@,
        lower_key("mainsubtitle"@) == "mainsubtitle"@,
        lower_key("maintitle"@) == "maintitle"@,
        lower_key("maintitleaddon"@) == "maintitleaddon"@,
        lower_key("note"@) == "note"@,
        lower_key("number"@) == "number"@,
        lower_key("organization"@) == "organization"@,
        lower_key("origlanguage"@) == "origlanguage"@,
        lower_key("pages"@) == "pages"@,
        lower_key("pagetotal"@) == "pagetotal"@,
        lower_key("part"@) == "part"@,
        lower_key("publisher"@) == "publisher"@,
        lower_key("pubstate"@) == "pubstate"@,
        lower_key("school"@) == "school"@,
        lower_key("series"@) == "series"@,
        lower_key("subtitle"@) == "subtitle"@,
        lower_key("title"@) == "title"@,
        lower_key("titleaddon"@) == "titleaddon"@,
        lower_key("translator"@) == "translator"@,
        lower_key("type"@) == "type"@,
        lower_key("url"@) == "url"@,
        lower_key("urldate"@) == "urldate"@,
        lower_key("venue"@) == "venue"@,
        lower_key("version"@) == "version"@,
        lower_key("volume"@) == "volume"@,
        lower_key("volumes"@) == "volumes"@,
{
    reveal_strlit("addendum");
    assert(ascii_lowercase("addendum"@) =~= "addendum"@);
    reveal_strlit("afterword");
    assert(ascii_lowercase("afterword"@) =~= "afterword"@);
    reveal_strlit("annotator");
    assert(ascii_lowercase("annotator"@) =~= "annotator"@);
    reveal_strlit("author");
    assert(ascii_lowercase("author"@) =~= "author"@);
    reveal_strlit("bookauthor");
    assert(ascii_lowercase("bookauthor"@) =~= "bookauthor"@);
    reveal_strlit("booksubtitle");
    assert(ascii_lowercase("booksubtitle"@) =~= "booksubtitle"@);
    reveal_strlit("booktitle");
    assert(ascii_lowercase("booktitle"@) =~= "booktitle"@);
    reveal_strlit("booktitleaddon");
    assert(ascii_lowercase("booktitleaddon"@) =~= "booktitleaddon"@);
    reveal_strlit("chapter");
    assert(ascii_lowercase("chapter"@) =~= "chapter"@);
    reveal_strlit("commentator");
    assert(ascii_lowercase("commentator"@) =~= "commentator"@);
    reveal_strlit("doi");
    assert(ascii_lowercase("doi"@) =~= "doi"@);
    reveal_strlit("edition");
    assert(ascii_lowercase("edition"@) =~= "edition"@);
    reveal_strlit("editor");
    assert(ascii_lowercase("editor"@) =~= "editor"@);
    reveal_strlit("eid");
    assert(ascii_lowercase("eid"@) =~= "eid"@);
    reveal_strlit("eprint");
    assert(ascii_lowercase("eprint"@) =~= "eprint"@);
    reveal_strlit("eprintclass");
    assert(ascii_lowercase("eprintclass"@) =~= "eprintclass"@);
    reveal_strlit("eprinttype");
    assert(ascii_lowercase("eprinttype"@) =~= "eprinttype"@);
    reveal_strlit("eventtitle");
    assert(ascii_lowercase("eventtitle"@) =~= "eventtitle"@);
    reveal_strlit("eventtitleaddon");
    assert(ascii_lowercase("eventtitleaddon"@) =~= "eventtitleaddon"@);
    reveal_strlit("foreword");
    assert(ascii_lowercase("foreword"@) =~= "foreword"@);
    reveal_strlit("holder");
    assert(ascii_lowercase("holder"@) =~= "holder"@);
    reveal_strlit("howpublished");
    assert(ascii_lowercase("howpublished"@) =~= "howpublished"@);
    reveal_strlit("institution");
    assert(ascii_lowercase("institution"@) =~= "institution"@);
    reveal_strlit("introduction");
    assert(ascii_lowercase("introduction"@) =~= "introduction"@);
    reveal_strlit("isbn");
    assert(ascii_lowercase("isbn"@) =~= "isbn"@);
    reveal_strlit("isrn");
    assert(ascii_lowercase("isrn"@) =~= "isrn"@);
    reveal_strlit("issn");
    assert(ascii_lowercase("issn"@) =~= "issn"@);
    reveal_strlit("issue");
    assert(ascii_lowercase("issue"@) =~= "issue"@);
    reveal_strlit("issuesubtitle");
    assert(ascii_lowercase("issuesubtitle"@) =~= "issuesubtitle"@);
    reveal_strlit("issuetitle");
    assert(ascii_lowercase("issuetitle"@) =~= "issuetitle"@);
    reveal_strlit("journalsubtitle");
    assert(ascii_lowercase("journalsubtitle"@) =~= "journalsubtitle"@);
    reveal_strlit("journaltitle");
    assert(ascii_lowercase("journaltitle"@) =~= "journaltitle"@);
    reveal_strlit("language");
    assert(ascii_lowercase("language"@) =~= "language"@);
    reveal_strlit("location");
    assert(ascii_lowercase("location"@) =~= "location"@);
    reveal_strlit("mainsubtitle");
    assert(ascii_lowercase("mainsubtitle"@) =~= "mainsubtitle"@);
    reveal_strlit("maintitle");
    assert(ascii_lowercase("maintitle"@) =~= "maintitle"@);
    reveal_strlit("maintitleaddon");
    assert(ascii_lowercase("maintitleaddon"@) =~= "maintitleaddon"@);
    reveal_strlit("note");
    assert(ascii_lowercase("note"@) =~= "note"@);
    reveal_strlit("number");
    assert(ascii_lowercase("number"@) =~= "number"@);
    reveal_strlit("organization");
    assert(ascii_lowercase("organization"@) =~= "organization"@);
    reveal_strlit("origlanguage");
    assert(ascii_lowercase("origlanguage"@) =~= "origlanguage"@);
    reveal_strlit("pages");
    assert(ascii_lowercase("pages"@) =~= "pages"@);
    reveal_strlit("pagetotal");
    assert(ascii_lowercase("pagetotal"@) =~= "pagetotal"@);
    reveal_strlit("part");
    assert(ascii_lowercase("part"@) =~= "part"@);
    reveal_strlit("publisher");
    assert(ascii_lowercase("publisher"@) =~= "publisher"@);
    reveal_strlit("pubstate");
    assert(ascii_lowercase("pubstate"@) =~= "pubstate"@);
    reveal_strlit("school");
    assert(ascii_lowercase("school"@) =~= "school"@);
    reveal_strlit("series");
    assert(ascii_lowercase("series"@) =~= "series"@);
    reveal_strlit("subtitle");
    assert(ascii_lowercase("subtitle"@) =~= "subtitle"@);
    reveal_strlit("title");
    assert(ascii_lowercase("title"@) =~= "title"@);
    reveal_strlit("titleaddon");
    assert(ascii_lowercase("titleaddon"@) =~= "titleaddon"@);
    reveal_strlit("translator");
    assert(ascii_lowercase("translator"@) =~= "translator"@);
    reveal_strlit("type");
    assert(ascii_lowercase("type"@) =~= "type"@);
    reveal_strlit("url");
    assert(ascii_lowercase("url"@) =~= "url"@);
    reveal_strlit("urldate");
    assert(ascii_lowercase("urldate"@) =~= "urldate"@);
    reveal_strlit("venue");
    assert(ascii_lowercase("venue"@) =~= "venue"@);
    reveal_strlit("version");
    assert(ascii_lowercase("version"@) =~= "version"@);
    reveal_strlit("volume");
    assert(ascii_lowercase("volume"@) =~= "volume"@);
    reveal_strlit("volumes");
    assert(ascii_lowercase("volumes"@) =~= "volumes"@);
}

/// The first `n` names are each their own lower-case form.
spec fn names_lower_upto(xs: Seq<Seq<char>>, n: nat) -> bool
    decreases n,
{
    if n == 0 {
        true
    } else {
        lower_key(xs[n - 1]) == xs[n - 1] && names_lower_upto(xs, (n - 1) as nat)
    }
}

proof fn lemma_names_lower(xs: Seq<Seq<char>>, n: nat)
    requires
        n <= xs.len(),
        names_lower_upto(xs, n),
    ensures
        forall|i: int| 0 <= i < n ==> lower_key(#[trigger] xs[i]) == xs[i],
    decreases n,
{
    if n > 0 {
        lemma_names_lower(xs, (n - 1) as nat);
    }
}

/// Each field an entry may inherit by its type is named in lower case.
#[verifier::spinoff_prover]
#[verifier::rlimit(100)]
proof fn lemma_inheritable_names_lower(t: EntryType)
    ensures
        forall|i: int|
            0 <= i < crate::entry::inheritable_fields(t, Seq::empty()).len() ==> lower_key(
                #[trigger] crate::entry::inheritable_fields(t, Seq::empty())[i],
            ) == crate::entry::inheritable_fields(t, Seq::empty())[i],
{
    let base = crate::entry::inheritable_fields(t, Seq::empty());
    assert(names_lower_upto(base, base.len())) by {
        lemma_requirement_names_lower();
        reveal(crate::mechanics::requirements);
        reveal_with_fuel(names_lower_upto, 50);
        match t {
            EntryType::Article => {},
            EntryType::Book => {},
            EntryType::MvBook => {},
            EntryType::InBook => {},
            EntryType::BookInBook => {},
            EntryType::SuppBook => {},
            EntryType::Booklet => {},
            EntryType::Collection => {},
            EntryType::MvCollection => {},
            EntryType::InCollection => {},
            EntryType::SuppCollection => {},
            EntryType::Dataset => {},
            EntryType::Manual => {},
            EntryType::Misc => {},
            EntryType::Online => {},
            EntryType::Patent => {},
            EntryType::Periodical => {},
            EntryType::SuppPeriodical => {},
            EntryType::Proceedings => {},
            EntryType::MvProceedings => {},
            EntryType::InProceedings => {},
            EntryType::Reference => {},
            EntryType::MvReference => {},
            EntryType::InReference => {},
            EntryType::Report => {},
            EntryType::EntrySet => {},
            EntryType::Software => {},
            EntryType::Thesis => {},
            EntryType::Unpublished => {},
            EntryType::XData => {},
            EntryType::Conference => {},
            EntryType::Electronic => {},
            EntryType::MastersThesis => {},
            EntryType::PhdThesis => {},
            EntryType::TechReport => {},
            EntryType::Www => {},
            EntryType::Unknown(_) => {},
        }
    }
    lemma_names_lower(base, base.len());
}

/// The three names that are never inherited are their own lower-case
/// forms and differ from the names that inheritance treats apart.
proof fn lemma_uninherited_names()
    ensures
        lower_key("title"@) == "title"@,
        lower_key("addendum"@) == "addendum"@,
        lower_key("note"@) == "note"@,
        lower_key("date"@) == "date"@,
        "title"@ != "journaltitle"@ && "title"@ != "journalsubtitle"@ && "title"@ != "booktitle"@ && "title"@ != "booksubtitle"@,
        "title"@ != "booktitleaddon"@ && "title"@ != "maintitle"@ && "title"@ != "mainsubtitle"@ && "title"@ != "maintitleaddon"@,
        "title"@ != "address"@ && "title"@ != "institution"@ && "title"@ != "school"@ && "title"@ != "date"@,
        "title"@ != "year"@ && "title"@ != "month"@ && "title"@ != "day"@,
        "addendum"@ != "journaltitle"@ && "addendum"@ != "journalsubtitle"@ && "addendum"@ != "booktitle"@ && "addendum"@ != "booksubtitle"@,
        "addendum"@ != "booktitleaddon"@ && "addendum"@ != "maintitle"@ && "addendum"@ != "mainsubtitle"@ && "addendum"@ != "maintitleaddon"@,
        "addendum"@ != "address"@ && "addendum"@ != "institution"@ && "addendum"@ != "school"@ && "addendum"@ != "date"@,
        "addendum"@ != "year"@ && "addendum"@ != "month"@ && "addendum"@ != "day"@,
        "note"@ != "journaltitle"@ && "note"@ != "journalsubtitle"@ && "note"@ != "booktitle"@ && "note"@ != "booksubtitle"@,
        "note"@ != "booktitleaddon"@ && "note"@ != "maintitle"@ && "note"@ != "mainsubtitle"@ && "note"@ != "maintitleaddon"@,
        "note"@ != "address"@ && "note"@ != "institution"@ && "note"@ != "school"@ && "note"@ != "date"@,
        "note"@ != "year"@ && "note"@ != "month"@ && "note"@ != "day"@,
{
    reveal_strlit("title");
    reveal_strlit("addendum");
    reveal_strlit("note");
    reveal_strlit("date");
    reveal_strlit("year");
    reveal_strlit("month");
    reveal_strlit("day");
    reveal_strlit("journaltitle");
    reveal_strlit("journalsubtitle");
    reveal_strlit("booktitle");
    reveal_strlit("booksubtitle");
    reveal_strlit("booktitleaddon");
    reveal_strlit("maintitle");
    reveal_strlit("mainsubtitle");
    reveal_strlit("maintitleaddon");
    reveal_strlit("address");
    reveal_strlit("institution");
    reveal_strlit("school");
    assert(ascii_lowercase("title"@) =~= "title"@);
    assert(ascii_lowercase("addendum"@) =~= "addendum"@);
    assert(ascii_lowercase("note"@) =~= "note"@);
    assert(ascii_lowercase("date"@) =~= "date"@);
    assert("title"@[0] != "month"@[0]);
    assert("note"@[0] != "date"@[0]);
    assert("note"@[0] != "year"@[0]);
}

/// Filling fields named in lower case never fills `title`, `addendum` or
/// `note`.
proof fn lemma_inherit_skips_uninherited(ev: EntryView, fs: Seq<Seq<char>>, cr: EntryView, t: Seq<char>)
    requires
        t == "title"@ || t == "addendum"@ || t == "note"@,
        forall|i: int| 0 <= i < fs.len() ==> lower_key(#[trigger] fs[i]) == fs[i],
    ensures
        inherit_fields(ev, fs, cr).get(t) == ev.get(t),
    decreases fs.len(),
{
    lemma_uninherited_names();
    if fs.len() > 0 {
        assert forall|i: int| 0 <= i < fs.drop_last().len() implies lower_key(#[trigger] fs.drop_last()[i])
            == fs.drop_last()[i] by {
            assert(fs.drop_last()[i] == fs[i]);
        }
        lemma_inherit_skips_uninherited(ev, fs.drop_last(), cr, t);
        let e = inherit_fields(ev, fs.drop_last(), cr);
        let f = fs.last();
        assert(lower_key(fs[fs.len() - 1]) == fs[fs.len() - 1]);
        if e.get(f) is None {
            if let Some(v) = crate::entry::inherited_value(f, cr) {
                lemma_set_field_map(e, f, v);
                assert(f != t);
            }
        }
    }
}

/// `title`, `addendum` and `note` are never inherited: after inheriting
/// from a parent whose field names are in lower case, as `set` and the
/// parser store them, an entry has these fields exactly when it had them
/// before, with the same values.
pub proof fn law_uninherited_fields(ev: EntryView, cr: EntryView, t: Seq<char>)
    requires
        t == "title"@ || t == "addendum"@ || t == "note"@,
        names_in_lower_case(cr),
    ensures
        after_crossref(ev, cr).get(t) == ev.get(t),
{
    lemma_uninherited_names();
    let fs = crate::entry::inheritable_fields(ev.entry_type, keys_of(cr.fields));
    lemma_inheritable_lower(ev, cr);
    lemma_inherit_skips_uninherited(ev, fs, cr, t);
    let e = inherit_fields(ev, fs, cr);
    if let crate::entry::Fetch::Found(d) = crate::entry::date_fetch(cr.field_map()) {
        let e1 = ev_set(e, "date"@, crate::entry::date_chunks(d));
        let e2 = ev_delete(e1, "year"@);
        let e3 = ev_delete(e2, "month"@);
        lemma_set_field_map(e, "date"@, crate::entry::date_chunks(d));
        lemma_assoc_map_without(e1.fields, "year"@);
        lemma_assoc_map_without(e2.fields, "month"@);
        lemma_assoc_map_without(e3.fields, "day"@);
    }
}

/// Filling the fields named in lower case by `fs` gives a missing field
/// `f` of `fs` the value inherited for it.
proof fn lemma_inherit_fills(ev: EntryView, fs: Seq<Seq<char>>, cr: EntryView, f: Seq<char>)
    requires
        forall|i: int| 0 <= i < fs.len() ==> lower_key(#[trigger] fs[i]) == fs[i],
        lower_key(f) == f,
        ev.get(f) is None,
    ensures
        inherit_fields(ev, fs, cr).get(f) == if fs.contains(f) {
            crate::entry::inherited_value(f, cr)
        } else {
            None
        },
    decreases fs.len(),
{
    if fs.len() > 0 {
        let d = fs.drop_last();
        assert forall|i: int| 0 <= i < d.len() implies lower_key(#[trigger] d[i]) == d[i] by {
            assert(d[i] == fs[i]);
        }
        lemma_inherit_fills(ev, d, cr, f);
        let e = inherit_fields(ev, d, cr);
        let g = fs.last();
        assert(lower_key(fs[fs.len() - 1]) == fs[fs.len() - 1]);
        assert(fs.contains(f) <==> (d.contains(f) || g == f)) by {
            if fs.contains(f) && g != f {
                let i = fs.index_of(f);
                assert(i < d.len());
                assert(d[i] == f);
            }
            if d.contains(f) {
                let i = d.index_of(f);
                assert(fs[i] == f);
            }
            if g == f {
                assert(fs[fs.len() - 1] == f);
            }
        }
        if e.get(g) is None {
            if let Some(v) = crate::entry::inherited_value(g, cr) {
                lemma_set_field_map(e, g, v);
            }
        }
    }
}

/// A field that the entry lacks and that its type lets it inherit gets the
/// value inherited for it: the parent's field of the same name, or of the
/// names that `inherited_value` takes in its place (`journal` for
/// `journaltitle`, `location` for `address`, `school` and `institution` for
/// each other, a parent's title fields for container titles); `title`,
/// `addendum` and `note` get nothing. The date fields are set apart.
pub proof fn law_inherited_field(ev: EntryView, cr: EntryView, f: Seq<char>)
    requires
        names_in_lower_case(cr),
        crate::entry::inheritable_fields(ev.entry_type, keys_of(cr.fields)).contains(f),
        ev.get(f) is None,
        f != "date"@,
        f != "year"@,
        f != "month"@,
        f != "day"@,
    ensures
        after_crossref(ev, cr).get(f) == crate::entry::inherited_value(f, cr),
{
    lemma_uninherited_names();
    let fs = crate::entry::inheritable_fields(ev.entry_type, keys_of(cr.fields));
    lemma_inheritable_lower(ev, cr);
    let i = fs.index_of(f);
    assert(lower_key(fs[i]) == fs[i]);
    lemma_inherit_fills(ev, fs, cr, f);
    let e = inherit_fields(ev, fs, cr);
    if let crate::entry::Fetch::Found(d) = crate::entry::date_fetch(cr.field_map()) {
        let e1 = ev_set(e, "date"@, crate::entry::date_chunks(d));
        let e2 = ev_delete(e1, "year"@);
        let e3 = ev_delete(e2, "month"@);
        lemma_set_field_map(e, "date"@, crate::entry::date_chunks(d));
        lemma_assoc_map_without(e1.fields, "year"@);
        lemma_assoc_map_without(e2.fields, "month"@);
        lemma_assoc_map_without(e3.fields, "day"@);
    }
}

/// Adding aliases one after the other succeeds exactly when they are
/// pairwise distinct and none of them is a key already.
proof fn lemma_alias_all_succeeds(m: Map<Seq<char>, usize>, ids: Seq<Seq<char>>, idx: usize)
    ensures
        alias_all(m, ids, idx).1 <==> (ids.no_duplicates() && forall|i: int|
            0 <= i < ids.len() ==> !m.contains_key(#[trigger] ids[i])),
    decreases ids.len(),
{
    if ids.len() > 0 {
        let m1 = m.insert(ids[0], idx);
        let rest = ids.drop_first();
        lemma_alias_all_succeeds(m1, rest, idx);
        let fresh = forall|i: int| 0 <= i < ids.len() ==> !m.contains_key(#[trigger] ids[i]);
        let fresh_rest = forall|i: int| 0 <= i < rest.len() ==> !m1.contains_key(#[trigger] rest[i]);
        if !m.contains_key(ids[0]) {
            if ids.no_duplicates() && fresh {
                assert forall|i: int| 0 <= i < rest.len() implies !m1.contains_key(#[trigger] rest[i]) by {
                    assert(rest[i] == ids[i + 1]);
                    assert(!m.contains_key(ids[i + 1]));
                }
                assert forall|i: int, j: int| 0 <= i < rest.len() && 0 <= j < rest.len() && i != j implies rest[i]
                    != rest[j] by {
                    assert(rest[i] == ids[i + 1] && rest[j] == ids[j + 1]);
                }
            }
            if rest.no_duplicates() && fresh_rest {
                assert forall|i: int| 0 <= i < ids.len() implies !m.contains_key(#[trigger] ids[i]) by {
                    if i > 0 {
                        assert(ids[i] == rest[i - 1]);
                        assert(!m1.contains_key(rest[i - 1]));
                    }
                }
                assert forall|i: int, j: int| 0 <= i < ids.len() && 0 <= j < ids.len() && i != j implies ids[i]
                    != ids[j] by {
                    if i > 0 && j > 0 {
                        assert(ids[i] == rest[i - 1] && ids[j] == rest[j - 1]);
                    } else if i == 0 {
                        assert(ids[j] == rest[j - 1]);
                        assert(!m1.contains_key(rest[j - 1]));
                    } else {
                        assert(ids[i] == rest[i - 1]);
                        assert(!m1.contains_key(rest[i - 1]));
                    }
                }
            }
        } else {
            assert(m.contains_key(ids[0]));
        }
    }
}

/// Adding an entry with a new cite key succeeds, all its aliases included,
/// exactly when the ids it lists are pairwise distinct, differ from its
/// cite key and are not yet keys of the bibliography.
pub proof fn law_add_succeeds(before: Bibliography, entry: Entry)
    requires
        !before.key_map().contains_key(entry.cite_key@),
    ensures
        alias_all(
            before.key_map().insert(entry.cite_key@, before.entries().len() as usize),
            entry_ids(entry@),
            before.entries().len() as usize,
        ).1 <==> (entry_ids(entry@).no_duplicates() && forall|i: int|
            0 <= i < entry_ids(entry@).len() ==> #[trigger] entry_ids(entry@)[i] != entry.cite_key@
                && !before.key_map().contains_key(entry_ids(entry@)[i])),
{
    let n = before.entries().len() as usize;
    let m1 = before.key_map().insert(entry.cite_key@, n);
    let ids = entry_ids(entry@);
    lemma_alias_all_succeeds(m1, ids, n);
    assert((forall|i: int| 0 <= i < ids.len() ==> !m1.contains_key(#[trigger] ids[i])) <==> (forall|i: int|
        0 <= i < ids.len() ==> #[trigger] ids[i] != entry.cite_key@ && !before.key_map().contains_key(ids[i])));
}

/// When resolving an entry draws, directly or through other parents, on
/// an entry one of whose own `crossref` or `xdata` parents does not exist,
/// the entry does not resolve, whatever the depth.
pub proof fn law_missing_parent_fails(bib: Bibliography, s: Seq<EntryView>, depth: nat)
    requires
        s.len() > 0,
        is_parent_chain(bib, s),
        crate::parents_to_resolve(s.last(), bib) is None,
    ensures
        resolved(s[0], bib, depth) is None,
    decreases s.len(),
{
    if s.len() > 1 {
        assert(crate::parents_to_resolve(s[0], bib) matches Some(ps) && ps.contains(s[1]));
        let ps = crate::parents_to_resolve(s[0], bib)->Some_0;
        if depth > 0 {
            let t = s.drop_first();
            assert forall|i: int| 0 <= i < t.len() - 1 implies (#[trigger] crate::parents_to_resolve(t[i], bib) matches Some(qs)
                && qs.contains(t[i + 1])) by {
                assert(t[i] == s[i + 1] && t[i + 1] == s[i + 2]);
                assert(crate::parents_to_resolve(s[i + 1], bib) matches Some(qs) && qs.contains(s[i + 2]));
            }
            assert(t.last() == s.last());
            law_missing_parent_fails(bib, t, (depth - 1) as nat);
            let k = ps.index_of(s[1]);
            assert(ps.take(k + 1).last() == ps[k]);
            assert(ps.take(k + 1).drop_last() == ps.take(k));
            crate::lemma_resolve_each_prefix(s[0], ps, bib, (depth - 1) as nat, k + 1);
        }
    }
}

/// Every field name of the entry is its own lower-case form, as `set`
/// and the parser store names.
pub open spec fn names_in_lower_case(ev: EntryView) -> bool {
    forall|i: int| 0 <= i < ev.fields.len() ==> lower_key(#[trigger] ev.fields[i].0) == ev.fields[i].0
}

/// The fields an entry may inherit from a parent with lower-case names are
/// named in lower case.
proof fn lemma_inheritable_lower(ev: EntryView, cr: EntryView)
    requires
        names_in_lower_case(cr),
    ensures
        forall|i: int|
            0 <= i < crate::entry::inheritable_fields(ev.entry_type, keys_of(cr.fields)).len() ==> lower_key(
                #[trigger] crate::entry::inheritable_fields(ev.entry_type, keys_of(cr.fields))[i],
            ) == crate::entry::inheritable_fields(ev.entry_type, keys_of(cr.fields))[i],
{
    let keys = keys_of(cr.fields);
    let fs = crate::entry::inheritable_fields(ev.entry_type, keys);
    let base = crate::entry::inheritable_fields(ev.entry_type, Seq::empty());
    lemma_inheritable_names_lower(ev.entry_type);
    assert forall|i: int| 0 <= i < fs.len() implies lower_key(#[trigger] fs[i]) == fs[i] by {
        if ev.entry_type is XData {
            let b = base.len() as int;
            if i < b {
                assert(fs[i] == base[i]);
            } else {
                assert(fs[i] == keys[i - b]);
                assert(keys[i - b] == cr.fields[i - b].0);
            }
        } else {
            assert(fs[i] == base[i]);
        }
    }
}

/// Setting a field under a lower-case name keeps all names in lower case.
proof fn lemma_set_keeps_lower(e: EntryView, f: Seq<char>, v: Seq<ChunkView>)
    requires
        names_in_lower_case(e),
        lower_key(f) == f,
    ensures
        names_in_lower_case(ev_set(e, f, v)),
{
    let n = ev_set(e, f, v);
    let i = first_index(keys_of(e.fields), f);
    crate::assoc::lemma_first_index(keys_of(e.fields), f);
    assert forall|j: int| 0 <= j < n.fields.len() implies lower_key(#[trigger] n.fields[j].0) == n.fields[j].0 by {
        if i >= 0 {
            if j != i {
                assert(n.fields[j] == e.fields[j]);
            }
        } else if j < e.fields.len() {
            assert(n.fields[j] == e.fields[j]);
        }
    }
}

/// Dropping fields keeps all names in lower case.
proof fn lemma_without_key_lower(s: Seq<(Seq<char>, Seq<ChunkView>)>, k: Seq<char>)
    requires
        forall|i: int| 0 <= i < s.len() ==> lower_key(#[trigger] s[i].0) == s[i].0,
    ensures
        forall|i: int|
            0 <= i < crate::assoc::without_key(s, k).len() ==> lower_key(
                #[trigger] crate::assoc::without_key(s, k)[i].0,
            ) == crate::assoc::without_key(s, k)[i].0,
    decreases s.len(),
{
    if s.len() > 0 {
        let d = s.drop_last();
        assert forall|i: int| 0 <= i < d.len() implies lower_key(#[trigger] d[i].0) == d[i].0 by {
            assert(d[i] == s[i]);
        }
        lemma_without_key_lower(d, k);
        assert(lower_key(s[s.len() - 1].0) == s[s.len() - 1].0);
        let wd = crate::assoc::without_key(d, k);
        let w = crate::assoc::without_key(s, k);
        if s.last().0 != k {
            assert(w == wd.push(s.last()));
            assert forall|i: int| 0 <= i < w.len() implies lower_key(#[trigger] w[i].0) == w[i].0 by {
                if i < wd.len() {
                    assert(w[i] == wd[i]);
                }
            }
        }
    }
}

/// Inheriting from a parent keeps all names in lower case.
proof fn lemma_after_crossref_lower(ev: EntryView, cr: EntryView)
    requires
        names_in_lower_case(ev),
        names_in_lower_case(cr),
    ensures
        names_in_lower_case(after_crossref(ev, cr)),
{
    lemma_uninherited_names();
    let fs = crate::entry::inheritable_fields(ev.entry_type, keys_of(cr.fields));
    lemma_inheritable_lower(ev, cr);
    lemma_inherit_lower(ev, fs, cr);
    let e = inherit_fields(ev, fs, cr);
    if let crate::entry::Fetch::Found(d) = crate::entry::date_fetch(cr.field_map()) {
        let e1 = ev_set(e, "date"@, crate::entry::date_chunks(d));
        let e2 = ev_delete(e1, "year"@);
        let e3 = ev_delete(e2, "month"@);
        lemma_set_keeps_lower(e, "date"@, crate::entry::date_chunks(d));
        lemma_without_key_lower(e1.fields, "year"@);
        lemma_without_key_lower(e2.fields, "month"@);
        lemma_without_key_lower(e3.fields, "day"@);
    }
}

/// Filling fields with lower-case names keeps all names in lower case.
proof fn lemma_inherit_lower(ev: EntryView, fs: Seq<Seq<char>>, cr: EntryView)
    requires
        names_in_lower_case(ev),
        forall|i: int| 0 <= i < fs.len() ==> lower_key(#[trigger] fs[i]) == fs[i],
    ensures
        names_in_lower_case(inherit_fields(ev, fs, cr)),
    decreases fs.len(),
{
    if fs.len() > 0 {
        let d = fs.drop_last();
        assert forall|i: int| 0 <= i < d.len() implies lower_key(#[trigger] d[i]) == d[i] by {
            assert(d[i] == fs[i]);
        }
        lemma_inherit_lower(ev, d, cr);
        let e = inherit_fields(ev, d, cr);
        let g = fs.last();
        assert(lower_key(fs[fs.len() - 1]) == fs[fs.len() - 1]);
        if e.get(g) is None {
            if let Some(v) = crate::entry::inherited_value(g, cr) {
                lemma_set_keeps_lower(e, g, v);
            }
        }
    }
}

/// All entries of the bibliography name their fields in lower case.
pub open spec fn all_names_in_lower_case(bib: Bibliography) -> bool {
    forall|i: int| 0 <= i < entry_values(bib).len() ==> names_in_lower_case(#[trigger] entry_values(bib)[i])
}

/// Resolving keeps names in lower case and never changes `title`,
/// `addendum` or `note`.
proof fn lemma_resolved_uninherited(ev: EntryView, bib: Bibliography, depth: nat, t: Seq<char>)
    requires
        bib.wf(),
        all_names_in_lower_case(bib),
        names_in_lower_case(ev),
        t == "title"@ || t == "addendum"@ || t == "note"@,
    ensures
        resolved(ev, bib, depth) matches Some(r) ==> names_in_lower_case(r) && r.get(t) == ev.get(t),
    decreases depth, 0nat,
{
    lemma_uninherited_names();
    if let Some(ps) = crate::parents_to_resolve(ev, bib) {
        let e = if ps.len() == 0 {
            ev
        } else if depth == 0 {
            ev
        } else {
            lemma_parents_in_entries(bib, ev);
            lemma_resolve_each_uninherited(ev, ps, bib, (depth - 1) as nat, t);
            resolve_each(ev, ps, bib, (depth - 1) as nat).unwrap_or(ev)
        };
        let e1 = ev_delete(e, "crossref"@);
        lemma_without_key_lower(e.fields, "crossref"@);
        lemma_without_key_lower(e1.fields, "xdata"@);
        lemma_assoc_map_without(e.fields, "crossref"@);
        lemma_assoc_map_without(e1.fields, "xdata"@);
        reveal_strlit("crossref");
        reveal_strlit("xdata");
        reveal_strlit("title");
        reveal_strlit("addendum");
        reveal_strlit("note");
        assert("addendum"@[0] != "crossref"@[0]);
        assert("title"@[0] != "xdata"@[0]);
    }
}

/// Inheriting from parents of the bibliography in turn keeps names in
/// lower case and never changes `title`, `addendum` or `note`.
proof fn lemma_resolve_each_uninherited(ev: EntryView, ps: Seq<EntryView>, bib: Bibliography, depth: nat, t: Seq<char>)
    requires
        bib.wf(),
        all_names_in_lower_case(bib),
        names_in_lower_case(ev),
        forall|i: int| 0 <= i < ps.len() ==> entry_values(bib).contains(#[trigger] ps[i]),
        t == "title"@ || t == "addendum"@ || t == "note"@,
    ensures
        resolve_each(ev, ps, bib, depth) matches Some(r) ==> names_in_lower_case(r) && r.get(t) == ev.get(t),
    decreases depth, ps.len() + 1,
{
    if ps.len() > 0 {
        let d = ps.drop_last();
        assert forall|i: int| 0 <= i < d.len() implies entry_values(bib).contains(#[trigger] d[i]) by {
            assert(d[i] == ps[i]);
        }
        lemma_resolve_each_uninherited(ev, d, bib, depth, t);
        let last = ps[ps.len() - 1];
        assert(entry_values(bib).contains(last));
        let j = entry_values(bib).index_of(last);
        assert(names_in_lower_case(entry_values(bib)[j]));
        lemma_resolved_uninherited(last, bib, depth, t);
        if let Some(e) = resolve_each(ev, d, bib, depth) {
            if let Some(p) = resolved(last, bib, depth) {
                law_uninherited_fields(e, p, t);
                lemma_after_crossref_lower(e, p);
            }
        }
    }
}

/// In a bibliography whose entries name their fields in lower case, as
/// `set` and the parser store them, resolving an entry never changes its
/// `title`, `addendum` or `note`: they are never inherited.
pub proof fn law_resolved_uninherited(ev: EntryView, bib: Bibliography, depth: nat, t: Seq<char>)
    requires
        bib.wf(),
        all_names_in_lower_case(bib),
        names_in_lower_case(ev),
        resolved(ev, bib, depth) is Some,
        t == "title"@ || t == "addendum"@ || t == "note"@,
    ensures
        resolved(ev, bib, depth)->Some_0.get(t) == ev.get(t),
{
    lemma_resolved_uninherited(ev, bib, depth, t);
}

} // verus!
