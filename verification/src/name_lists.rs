//! Name lists read back as the persons they were written from.
use vstd::prelude::*;

use crate::text::{
    drop_empty, is_space, join, lemma_split_at_sep, lemma_split_on_len, lemma_split_without_sep, lemma_trim_after_space,
    lemma_trim_unchanged, split_on,
};
use crate::chunk::{verbatim_text, Chunk, ChunkView};
use crate::types::{and_word, space_normalized, words, Person, PersonView, Type};

verus! {

/// A word without whitespace; such a word stands alone after splitting.
pub open spec fn solid(w: Seq<char>) -> bool {
    w.len() > 0 && forall|i: int| 0 <= i < w.len() ==> !is_space(#[trigger] w[i])
}

/// Dropping empty members of two lists drops them from each.
proof fn lemma_drop_empty_concat<A>(x: Seq<Seq<A>>, y: Seq<Seq<A>>)
    ensures
        drop_empty(x + y) == drop_empty(x) + drop_empty(y),
    decreases y.len(),
{
    if y.len() == 0 {
        assert(x + y =~= x);
        assert(drop_empty(x) + drop_empty(y) =~= drop_empty(x));
    } else {
        lemma_drop_empty_concat(x, y.drop_last());
        assert((x + y).drop_last() =~= x + y.drop_last());
        assert((x + y).last() == y.last());
        if y.last().len() == 0 {
        } else {
            assert(drop_empty(x) + drop_empty(y.drop_last()).push(y.last()) =~= (drop_empty(x) + drop_empty(
                y.drop_last(),
            )).push(y.last()));
        }
    }
}

/// A word without whitespace is a text of one word.
pub proof fn lemma_words_single(w: Seq<char>)
    requires
        solid(w),
    ensures
        words(w) == seq![w],
{
    assert(space_normalized(w) =~= w);
    assert(!w.contains(' ')) by {
        if w.contains(' ') {
            let j = choose|j: int| 0 <= j < w.len() && w[j] == ' ';
            assert(!is_space(w[j]));
        }
    }
    lemma_split_without_sep(w, ' ');
    let one = seq![w];
    assert(one.drop_last() =~= Seq::<Seq<char>>::empty());
    assert(one.last() == w);
    assert(drop_empty(one) == drop_empty(one.drop_last()).push(w));
    assert(drop_empty(Seq::<Seq<char>>::empty()) == Seq::<Seq<char>>::empty());
    assert(drop_empty(one) =~= one);
}

/// The words of two texts joined by a space.
pub proof fn lemma_words_concat(x: Seq<char>, y: Seq<char>)
    ensures
        words(x + seq![' '] + y) == words(x) + words(y),
{
    assert(space_normalized(x + seq![' '] + y) =~= space_normalized(x) + seq![' '] + space_normalized(y));
    lemma_split_at_sep(space_normalized(x), space_normalized(y), ' ');
    lemma_drop_empty_concat(split_on(space_normalized(x), ' '), split_on(space_normalized(y), ' '));
}

/// Words joined by single spaces split back into the same words.
pub proof fn lemma_words_join(ws: Seq<Seq<char>>)
    requires
        forall|i: int| 0 <= i < ws.len() ==> solid(#[trigger] ws[i]),
    ensures
        words(join(ws, seq![' '])) == ws,
    decreases ws.len(),
{
    if ws.len() == 0 {
        assert(join(ws, seq![' ']) == Seq::<char>::empty());
        assert(space_normalized(Seq::<char>::empty()) =~= Seq::<char>::empty());
        lemma_split_on_len(Seq::<char>::empty(), ' ');
        let e = seq![Seq::<char>::empty()];
        assert(split_on(Seq::<char>::empty(), ' ') == e);
        assert(e.drop_last() =~= Seq::<Seq<char>>::empty());
        assert(drop_empty(e) == drop_empty(e.drop_last()));
        assert(drop_empty(e) =~= ws);
    } else if ws.len() == 1 {
        assert(solid(ws[0]));
        lemma_words_single(ws[0]);
        assert(seq![ws[0]] =~= ws);
    } else {
        let d = ws.drop_last();
        assert forall|i: int| 0 <= i < d.len() implies solid(#[trigger] d[i]) by {
            assert(d[i] == ws[i]);
        }
        lemma_words_join(d);
        assert(solid(ws[ws.len() - 1]));
        lemma_words_single(ws.last());
        assert(join(ws, seq![' ']) == join(d, seq![' ']) + seq![' '] + ws.last());
        lemma_words_concat(join(d, seq![' ']), ws.last());
        assert(d + seq![ws.last()] =~= ws);
    }
}

/// Joining two non-empty lists puts the separator between their joins.
proof fn lemma_join_concat(a: Seq<Seq<char>>, b: Seq<Seq<char>>, sep: Seq<char>)
    requires
        a.len() > 0,
        b.len() > 0,
    ensures
        join(a + b, sep) == join(a, sep) + sep + join(b, sep),
    decreases b.len(),
{
    if b.len() == 1 {
        assert((a + b).drop_last() =~= a);
        assert((a + b).last() == b[0]);
    } else {
        lemma_join_concat(a, b.drop_last(), sep);
        assert((a + b).drop_last() =~= a + b.drop_last());
        assert((a + b).last() == b.last());
        assert(join(a + b, sep) =~= join(a, sep) + sep + join(b, sep));
    }
}

/// The words with a comma after the last one.
pub open spec fn with_comma(ws: Seq<Seq<char>>) -> Seq<Seq<char>> {
    ws.update(ws.len() - 1, ws.last() + seq![','])
}

/// Joining words with a comma after the last one puts a comma at the end.
proof fn lemma_join_comma(a: Seq<Seq<char>>, sep: Seq<char>)
    requires
        a.len() > 0,
    ensures
        join(with_comma(a), sep) == join(a, sep) + seq![','],
{
    let c = with_comma(a);
    if a.len() == 1 {
        assert(c[0] == a[0] + seq![',']);
    } else {
        assert(c.drop_last() =~= a.drop_last());
        assert(c.last() == a.last() + seq![',']);
        assert(join(c, sep) =~= join(a, sep) + seq![',']);
    }
}

/// A word of a name part: no whitespace, no comma, and not `and`.
pub open spec fn plain_name_word(w: Seq<char>) -> bool {
    solid(w) && !w.contains(',') && w != and_word()
}

/// A part of a name written as plain words separated by single spaces.
pub open spec fn plain_part(t: Seq<char>) -> bool {
    &&& t == join(words(t), seq![' '])
    &&& forall|i: int| 0 <= i < words(t).len() ==> plain_name_word(#[trigger] words(t)[i])
}

/// The words of a person's particle and family name.
pub open spec fn family_words(p: PersonView) -> Seq<Seq<char>> {
    words(p.prefix) + words(p.name)
}

/// The words a person is written as.
pub open spec fn person_words(p: PersonView) -> Seq<Seq<char>> {
    if p.suffix.len() > 0 {
        with_comma(family_words(p)) + with_comma(words(p.suffix)) + words(p.given_name)
    } else if p.given_name.len() > 0 {
        with_comma(family_words(p)) + words(p.given_name)
    } else {
        family_words(p)
    }
}

/// A person that a name list holds unchanged: every part is made of plain
/// words, the particle's words begin with a lower-case letter and a
/// family name of several words does not, a suffix comes with a given
/// name, and without a given name or particle the family name is one word.
pub open spec fn plain_person(p: PersonView) -> bool {
    &&& p.name.len() > 0
    &&& plain_part(p.name)
    &&& plain_part(p.prefix)
    &&& plain_part(p.given_name)
    &&& plain_part(p.suffix)
    &&& forall|i: int| 0 <= i < words(p.prefix).len() ==> crate::types::starts_lower(#[trigger] words(p.prefix)[i])
    &&& words(p.name).len() > 1 ==> !crate::types::starts_lower(words(p.name)[0])
    &&& p.suffix.len() > 0 ==> p.given_name.len() > 0
    &&& p.given_name.len() == 0 && p.prefix.len() == 0 ==> words(p.name).len() == 1
}

/// A plain part is empty exactly when it has no words.
proof fn lemma_part_words(t: Seq<char>)
    requires
        plain_part(t),
    ensures
        t.len() == 0 <==> words(t).len() == 0,
{
    if words(t).len() == 0 {
        assert(join(words(t), seq![' ']) == Seq::<char>::empty());
    } else {
        let ws = words(t);
        assert(plain_name_word(ws[0]));
        if ws.len() == 1 {
        } else {
            lemma_join_concat(ws.take(1), ws.skip(1), seq![' ']);
            assert(ws.take(1) + ws.skip(1) =~= ws);
        }
    }
}

/// The words of a plain part, each without whitespace.
proof fn lemma_part_solid(t: Seq<char>)
    requires
        plain_part(t),
    ensures
        forall|i: int| 0 <= i < words(t).len() ==> solid(#[trigger] words(t)[i]),
{
    assert forall|i: int| 0 <= i < words(t).len() implies solid(#[trigger] words(t)[i]) by {
        assert(plain_name_word(words(t)[i]));
    }
}

/// A plain person is written as its words joined by single spaces.
proof fn lemma_person_text_words(p: PersonView)
    requires
        plain_person(p),
    ensures
        crate::types::person_text(p) == join(person_words(p), seq![' ']),
{
    let sp = seq![' '];
    let pw = words(p.prefix);
    let nw = words(p.name);
    let fw = family_words(p);
    lemma_part_words(p.prefix);
    lemma_part_words(p.name);
    lemma_part_words(p.given_name);
    lemma_part_words(p.suffix);
    assert(join(fw, sp) == crate::types::family_text(p)) by {
        if pw.len() > 0 {
            lemma_join_concat(pw, nw, sp);
        } else {
            assert(fw =~= nw);
        }
    }
    if p.suffix.len() > 0 {
        let sw = words(p.suffix);
        let gw = words(p.given_name);
        lemma_join_comma(fw, sp);
        lemma_join_comma(sw, sp);
        lemma_join_concat(with_comma(fw), with_comma(sw), sp);
        lemma_join_concat(with_comma(fw) + with_comma(sw), gw, sp);
        assert(crate::types::person_text(p) =~= join(person_words(p), sp));
    } else if p.given_name.len() > 0 {
        let gw = words(p.given_name);
        lemma_join_comma(fw, sp);
        lemma_join_concat(with_comma(fw), gw, sp);
        assert(crate::types::person_text(p) =~= join(person_words(p), sp));
    }
}

/// Leading lower-case words before a family name are its particle.
proof fn lemma_particles(pw: Seq<Seq<char>>, nw: Seq<Seq<char>>)
    requires
        forall|i: int| 0 <= i < pw.len() ==> crate::types::starts_lower(#[trigger] pw[i]),
        nw.len() > 0,
        nw.len() > 1 ==> !crate::types::starts_lower(nw[0]),
    ensures
        crate::types::particle_count(pw + nw) == pw.len(),
        crate::types::split_particle(pw + nw) == (join(pw, seq![' ']), join(nw, seq![' '])),
    decreases pw.len(),
{
    if pw.len() == 0 {
        assert(pw + nw =~= nw);
    } else {
        assert((pw + nw).drop_first() =~= pw.drop_first() + nw);
        assert((pw + nw)[0] == pw[0]);
        assert(crate::types::starts_lower(pw[0]));
        assert forall|i: int| 0 <= i < pw.drop_first().len() implies crate::types::starts_lower(
            #[trigger] pw.drop_first()[i],
        ) by {
            assert(pw.drop_first()[i] == pw[i + 1]);
        }
        lemma_particles(pw.drop_first(), nw);
    }
    assert((pw + nw).take(pw.len() as int) =~= pw);
    assert((pw + nw).skip(pw.len() as int) =~= nw);
}

/// Words without commas joined by spaces hold no comma.
proof fn lemma_join_no_comma(ws: Seq<Seq<char>>)
    requires
        forall|i: int| 0 <= i < ws.len() ==> !(#[trigger] ws[i]).contains(','),
    ensures
        !join(ws, seq![' ']).contains(','),
    decreases ws.len(),
{
    if ws.len() == 1 {
        assert(!ws[0].contains(','));
    } else if ws.len() > 1 {
        let d = ws.drop_last();
        assert forall|i: int| 0 <= i < d.len() implies !(#[trigger] d[i]).contains(',') by {
            assert(d[i] == ws[i]);
        }
        lemma_join_no_comma(d);
        assert(!ws[ws.len() - 1].contains(','));
        let t = join(d, seq![' ']) + seq![' '] + ws.last();
        assert(!t.contains(',')) by {
            if t.contains(',') {
                let j = choose|j: int| 0 <= j < t.len() && t[j] == ',';
                let dl = join(d, seq![' ']).len();
                if j < dl {
                    assert(t[j] == join(d, seq![' '])[j]);
                } else if j > dl {
                    assert(t[j] == ws.last()[j - dl - 1]);
                }
            }
        }
    }
}

/// Words without whitespace joined by spaces begin and end without
/// whitespace.
proof fn lemma_join_ends(ws: Seq<Seq<char>>)
    requires
        ws.len() > 0,
        forall|i: int| 0 <= i < ws.len() ==> solid(#[trigger] ws[i]),
    ensures
        join(ws, seq![' ']).len() > 0,
        !is_space(join(ws, seq![' '])[0]),
        !is_space(join(ws, seq![' ']).last()),
    decreases ws.len(),
{
    assert(solid(ws[0]));
    assert(solid(ws[ws.len() - 1]));
    if ws.len() > 1 {
        let d = ws.drop_last();
        assert forall|i: int| 0 <= i < d.len() implies solid(#[trigger] d[i]) by {
            assert(d[i] == ws[i]);
        }
        lemma_join_ends(d);
        assert(d[0] == ws[0]);
        let t = join(d, seq![' ']) + seq![' '] + ws.last();
        assert(t[0] == join(d, seq![' '])[0]);
        assert(t.last() == ws.last().last());
    }
}

/// The facts about a plain part that reading it back uses.
proof fn lemma_part_facts(t: Seq<char>)
    requires
        plain_part(t),
    ensures
        !t.contains(','),
        forall|i: int| 0 <= i < words(t).len() ==> solid(#[trigger] words(t)[i]),
        t.len() > 0 ==> t.len() > 0 && !is_space(t[0]) && !is_space(t.last()),
        t.len() == 0 <==> words(t).len() == 0,
{
    lemma_part_solid(t);
    lemma_part_words(t);
    assert forall|i: int| 0 <= i < words(t).len() implies !(#[trigger] words(t)[i]).contains(',') by {
        assert(plain_name_word(words(t)[i]));
    }
    lemma_join_no_comma(words(t));
    if t.len() > 0 {
        lemma_join_ends(words(t));
    }
}

/// A space and a part without commas hold no comma.
proof fn lemma_spaced_no_comma(t: Seq<char>)
    requires
        !t.contains(','),
    ensures
        !(seq![' '] + t).contains(','),
{
    let u = seq![' '] + t;
    if u.contains(',') {
        let j = choose|j: int| 0 <= j < u.len() && u[j] == ',';
        assert(u[j] == t[j - 1]);
    }
}

/// The words a plain person is written as read back as that person.
proof fn lemma_person_of_words(p: PersonView)
    requires
        plain_person(p),
    ensures
        crate::types::person_of(person_words(p)) == p,
{
    let sp = seq![' '];
    let pw = words(p.prefix);
    let nw = words(p.name);
    let fw = family_words(p);
    let w = person_words(p);
    let full = join(w, sp);
    let f = crate::types::family_text(p);
    lemma_part_facts(p.prefix);
    lemma_part_facts(p.name);
    lemma_part_facts(p.given_name);
    lemma_part_facts(p.suffix);
    lemma_person_text_words(p);
    assert(join(fw, sp) == f) by {
        if pw.len() > 0 {
            lemma_join_concat(pw, nw, sp);
        } else {
            assert(fw =~= nw);
        }
    }
    assert forall|i: int| 0 <= i < fw.len() implies solid(#[trigger] fw[i]) && !fw[i].contains(',') by {
        if i < pw.len() {
            assert(fw[i] == pw[i]);
            assert(plain_name_word(pw[i]));
        } else {
            assert(fw[i] == nw[i - pw.len()]);
            assert(plain_name_word(nw[i - pw.len()]));
        }
    }
    lemma_join_no_comma(fw);
    lemma_join_ends(fw);
    lemma_words_join(fw);
    lemma_particles(pw, nw);
    lemma_trim_unchanged(f);
    lemma_split_without_sep(f, ',');
    if p.given_name.len() > 0 {
        let g = p.given_name;
        let z = sp + g;
        lemma_spaced_no_comma(g);
        lemma_split_without_sep(z, ',');
        lemma_trim_after_space(' ', g);
        if p.suffix.len() > 0 {
            let y = sp + p.suffix;
            lemma_spaced_no_comma(p.suffix);
            lemma_split_without_sep(y, ',');
            lemma_trim_after_space(' ', p.suffix);
            assert(full =~= (f + seq![','] + y) + seq![','] + z);
            lemma_split_at_sep(f + seq![','] + y, z, ',');
            lemma_split_at_sep(f, y, ',');
            assert(split_on(full, ',') =~= seq![f, y, z]);
            assert(full[f.len() as int] == ',');
            let parts = crate::text::trim_all(split_on(full, ','));
            assert(parts =~= seq![f, p.suffix, g]);
        } else {
            assert(full =~= f + seq![','] + z);
            lemma_split_at_sep(f, z, ',');
            assert(split_on(full, ',') =~= seq![f, z]);
            assert(full[f.len() as int] == ',');
            let parts = crate::text::trim_all(split_on(full, ','));
            assert(parts =~= seq![f, g]);
            assert(p.suffix =~= Seq::<char>::empty());
        }
    } else {
        assert(p.suffix.len() == 0);
        assert(w == fw);
        assert(full == f);
        assert(crate::types::first_particle(fw, 0) == 0) by {
            if pw.len() > 0 {
                assert(fw[0] == pw[0]);
                assert(crate::types::starts_lower(pw[0]));
            } else {
                assert(fw =~= nw);
            }
        }
        assert(fw.take(0) =~= Seq::<Seq<char>>::empty());
        assert(fw.skip(0) =~= fw);
        assert(p.given_name =~= Seq::<char>::empty());
        assert(p.suffix =~= Seq::<char>::empty());
    }
}

/// The words a plain person is written as have no whitespace, are not
/// `and`, and there is at least one.
proof fn lemma_person_words_plain(p: PersonView)
    requires
        plain_person(p),
    ensures
        person_words(p).len() > 0,
        forall|i: int| 0 <= i < person_words(p).len() ==> solid(#[trigger] person_words(p)[i]),
        !person_words(p).contains(and_word()),
{
    let pw = words(p.prefix);
    let nw = words(p.name);
    let fw = family_words(p);
    let gw = words(p.given_name);
    let sw = words(p.suffix);
    lemma_part_facts(p.prefix);
    lemma_part_facts(p.name);
    lemma_part_facts(p.given_name);
    lemma_part_facts(p.suffix);
    assert forall|i: int| 0 <= i < fw.len() implies plain_name_word(#[trigger] fw[i]) by {
        if i < pw.len() {
            assert(fw[i] == pw[i]);
        } else {
            assert(fw[i] == nw[i - pw.len()]);
        }
    }
    assert forall|i: int| 0 <= i < gw.len() implies plain_name_word(#[trigger] gw[i]) by {}
    assert forall|i: int| 0 <= i < sw.len() implies plain_name_word(#[trigger] sw[i]) by {}
    let w = person_words(p);
    assert(fw.len() > 0);
    lemma_comma_word(fw);
    if p.suffix.len() > 0 {
        lemma_comma_word(sw);
    }
    assert forall|i: int| 0 <= i < w.len() implies solid(#[trigger] w[i]) && w[i] != and_word() by {
        if p.suffix.len() > 0 {
            let a = with_comma(fw);
            let b = with_comma(sw);
            if i < a.len() {
                assert(w[i] == a[i]);
            } else if i < a.len() + b.len() {
                assert(w[i] == b[i - a.len()]);
            } else {
                assert(w[i] == gw[i - a.len() - b.len()]);
            }
        } else if p.given_name.len() > 0 {
            let a = with_comma(fw);
            if i < a.len() {
                assert(w[i] == a[i]);
            } else {
                assert(w[i] == gw[i - a.len()]);
            }
        }
    }
    if w.contains(and_word()) {
        let j = choose|j: int| 0 <= j < w.len() && w[j] == and_word();
        assert(w[j] != and_word());
    }
}

/// Words that are plain stay without whitespace and differ from `and` with
/// a comma after the last one.
proof fn lemma_comma_word(ws: Seq<Seq<char>>)
    requires
        ws.len() > 0,
        forall|i: int| 0 <= i < ws.len() ==> plain_name_word(#[trigger] ws[i]),
    ensures
        with_comma(ws).len() == ws.len(),
        forall|i: int| 0 <= i < with_comma(ws).len() ==> solid(#[trigger] with_comma(ws)[i]) && with_comma(ws)[i]
            != and_word(),
{
    assert forall|i: int| 0 <= i < with_comma(ws).len() implies solid(#[trigger] with_comma(ws)[i]) && with_comma(
        ws,
    )[i] != and_word() by {
        assert(plain_name_word(ws[i]));
        if i == ws.len() - 1 {
            let c = ws[i] + seq![','];
            assert(with_comma(ws)[i] == c);
            assert(c.last() == ',');
            assert(and_word().last() == 'd');
            assert forall|k: int| 0 <= k < c.len() implies !is_space(#[trigger] c[k]) by {
                if k < ws[i].len() {
                    assert(c[k] == ws[i][k]);
                }
            }
        }
    }
}


/// Word groups joined by the word `and`.
pub open spec fn and_list(gs: Seq<Seq<Seq<char>>>) -> Seq<Seq<char>>
    decreases gs.len(),
{
    if gs.len() == 0 {
        Seq::empty()
    } else if gs.len() == 1 {
        gs[0]
    } else {
        and_list(gs.drop_last()) + seq![and_word()] + gs.last()
    }
}

/// The texts of plain persons.
pub open spec fn person_texts(ps: Seq<PersonView>) -> Seq<Seq<char>> {
    ps.map_values(|p: PersonView| crate::types::person_text(p))
}

/// The words of plain persons.
pub open spec fn person_word_groups(ps: Seq<PersonView>) -> Seq<Seq<Seq<char>>> {
    ps.map_values(|p: PersonView| person_words(p))
}

/// The words of a name list are the words of its persons, joined by `and`.
proof fn lemma_name_list_words(ps: Seq<PersonView>)
    requires
        ps.len() > 0,
        forall|i: int| 0 <= i < ps.len() ==> plain_person(#[trigger] ps[i]),
    ensures
        words(join(person_texts(ps), crate::types::and_separator())) == and_list(person_word_groups(ps)),
{
    let ts = person_texts(ps);
    lemma_and_text_words(ts);
    assert forall|i: int| 0 <= i < ps.len() implies #[trigger] text_words(ts)[i]
        == person_word_groups(ps)[i] by {
        assert(plain_person(ps[i]));
        lemma_person_text_words(ps[i]);
        lemma_person_words_plain(ps[i]);
        lemma_words_join(person_words(ps[i]));
    }
    assert(text_words(ts) =~= person_word_groups(ps));
}

/// Splitting word groups joined by `and` at `and` gives the groups back,
/// when no group holds the word `and`.
proof fn lemma_split_and_list(gs: Seq<Seq<Seq<char>>>)
    requires
        gs.len() > 0,
        forall|i: int| 0 <= i < gs.len() ==> !(#[trigger] gs[i]).contains(and_word()),
    ensures
        split_on(and_list(gs), and_word()) == gs,
    decreases gs.len(),
{
    if gs.len() == 1 {
        assert(!gs[0].contains(and_word()));
        lemma_split_without_sep(gs[0], and_word());
        assert(seq![gs[0]] =~= gs);
    } else {
        let d = gs.drop_last();
        assert forall|i: int| 0 <= i < d.len() implies !(#[trigger] d[i]).contains(and_word()) by {
            assert(d[i] == gs[i]);
        }
        lemma_split_and_list(d);
        assert(!gs[gs.len() - 1].contains(and_word()));
        lemma_split_without_sep(gs.last(), and_word());
        lemma_split_at_sep(and_list(d), gs.last(), and_word());
        assert(d + seq![gs.last()] =~= gs);
    }
}

/// Dropping empty members keeps a list without empty members.
proof fn lemma_drop_empty_all<A>(ss: Seq<Seq<A>>)
    requires
        forall|i: int| 0 <= i < ss.len() ==> (#[trigger] ss[i]).len() > 0,
    ensures
        drop_empty(ss) == ss,
    decreases ss.len(),
{
    if ss.len() > 0 {
        assert(ss[ss.len() - 1].len() > 0);
        assert forall|i: int| 0 <= i < ss.drop_last().len() implies (#[trigger] ss.drop_last()[i]).len() > 0 by {
            assert(ss.drop_last()[i] == ss[i]);
        }
        lemma_drop_empty_all(ss.drop_last());
        assert(ss.drop_last().push(ss.last()) =~= ss);
    }
}

/// A list of plain persons written as chunks reads back as the same list.
pub proof fn law_persons_round_trip(ps: Seq<PersonView>)
    requires
        forall|i: int| 0 <= i < ps.len() ==> plain_person(#[trigger] ps[i]),
    ensures
        <Vec<Person> as Type>::spec_to_chunks(ps) matches Some(c) && <Vec<Person> as Type>::spec_from_chunks(c)
            == Some(ps),
{
    let text = join(person_texts(ps), crate::types::and_separator());
    assert(ps.map_values(|p: PersonView| crate::types::person_text(p)) == person_texts(ps));
    crate::laws::lemma_single_chunk_text(text);
    if ps.len() == 0 {
        assert(person_texts(ps) =~= Seq::<Seq<char>>::empty());
        lemma_words_join(Seq::<Seq<char>>::empty());
        assert(text == join(Seq::<Seq<char>>::empty(), seq![' ']));
        let e = seq![Seq::<Seq<char>>::empty()];
        lemma_split_on_len(Seq::<Seq<char>>::empty(), and_word());
        assert(split_on(Seq::<Seq<char>>::empty(), and_word()) == e);
        assert(e.drop_last() =~= Seq::<Seq<Seq<char>>>::empty());
        assert(drop_empty(e) == drop_empty(e.drop_last()));
        assert(crate::types::persons_of(drop_empty(e)) =~= ps);
    } else {
        let gs = person_word_groups(ps);
        lemma_name_list_words(ps);
        assert forall|i: int| 0 <= i < gs.len() implies !(#[trigger] gs[i]).contains(and_word()) && gs[i].len() > 0 by {
            assert(plain_person(ps[i]));
            lemma_person_words_plain(ps[i]);
        }
        lemma_split_and_list(gs);
        lemma_drop_empty_all(gs);
        assert forall|i: int| 0 <= i < ps.len() implies #[trigger] crate::types::persons_of(gs)[i] == ps[i] by {
            assert(plain_person(ps[i]));
            lemma_person_of_words(ps[i]);
        }
        assert(crate::types::persons_of(gs) =~= ps);
    }
}

/// The words of each text.
pub open spec fn text_words(ts: Seq<Seq<char>>) -> Seq<Seq<Seq<char>>> {
    ts.map_values(|t: Seq<char>| words(t))
}

/// The words of texts joined by ` and ` are their words, joined by the
/// word `and`.
proof fn lemma_and_text_words(ts: Seq<Seq<char>>)
    requires
        ts.len() > 0,
    ensures
        words(join(ts, crate::types::and_separator())) == and_list(text_words(ts)),
    decreases ts.len(),
{
    let gs = text_words(ts);
    if ts.len() > 1 {
        let d = ts.drop_last();
        lemma_and_text_words(d);
        assert(gs.drop_last() =~= text_words(d));
        let t = ts.last();
        let a = join(d, crate::types::and_separator());
        assert(join(ts, crate::types::and_separator()) == a + crate::types::and_separator() + t);
        assert(a + crate::types::and_separator() + t =~= a + seq![' '] + (and_word() + seq![' '] + t));
        lemma_words_concat(a, and_word() + seq![' '] + t);
        lemma_words_concat(and_word(), t);
        assert(solid(and_word()));
        lemma_words_single(and_word());
        assert(and_list(gs) =~= and_list(gs.drop_last()) + (seq![and_word()] + words(t)));
    }
}

/// The text of chunk lists written with ` and ` between them.
proof fn lemma_and_joined_text(m: Seq<Seq<ChunkView>>)
    requires
        forall|i: int| 0 <= i < m.len() ==> (#[trigger] m[i]).len() == 1 && m[i][0] is Normal,
    ensures
        verbatim_text(crate::types::and_joined(m)) == join(
            m.map_values(|c: Seq<ChunkView>| verbatim_text(c)),
            crate::types::and_separator(),
        ),
    decreases m.len(),
{
    let ts = m.map_values(|c: Seq<ChunkView>| verbatim_text(c));
    if m.len() == 0 {
        assert(verbatim_text(Seq::<ChunkView>::empty()) == Seq::<char>::empty());
    } else if m.len() == 1 {
        assert(ts[0] == verbatim_text(m[0]));
    } else {
        let d = m.drop_last();
        assert forall|i: int| 0 <= i < d.len() implies (#[trigger] d[i]).len() == 1 && d[i][0] is Normal by {
            assert(d[i] == m[i]);
        }
        lemma_and_joined_text(d);
        assert(ts.drop_last() =~= d.map_values(|c: Seq<ChunkView>| verbatim_text(c)));
        let sep = seq![ChunkView::Normal(crate::types::and_separator())];
        let x = crate::types::and_joined(d);
        crate::chunk::lemma_verbatim_text_split(x + sep + m.last(), x.len() as int);
        assert((x + sep + m.last()).take(x.len() as int) =~= x);
        assert((x + sep + m.last()).subrange(x.len() as int, (x + sep + m.last()).len() as int) =~= sep + m.last());
        let l = m[m.len() - 1];
        assert(l.len() == 1);
        crate::chunk::lemma_verbatim_text_split(sep + l, 1);
        assert((sep + l).take(1) =~= sep);
        assert((sep + l).subrange(1, (sep + l).len() as int) =~= l);
        assert(sep.drop_last() =~= Seq::<ChunkView>::empty());
        assert(verbatim_text(Seq::<ChunkView>::empty()) == Seq::<char>::empty());
        assert(verbatim_text(sep) =~= crate::types::and_separator());
        assert(ts.last() == verbatim_text(l));
    }
}

/// A name of a list written as one normal chunk: words without whitespace,
/// separated by single spaces, none of them `and`.
pub open spec fn plain_name_chunks(c: Seq<ChunkView>) -> bool {
    &&& c.len() == 1
    &&& c[0] is Normal
    &&& c[0].text().len() > 0
    &&& c[0].text() == join(words(c[0].text()), seq![' '])
    &&& forall|j: int| 0 <= j < words(c[0].text()).len() ==> solid(#[trigger] words(c[0].text())[j])
    &&& !words(c[0].text()).contains(and_word())
}

/// A list of names (publishers, organizations), each written as one normal
/// chunk of plain words that holds no word `and`, reads back as itself.
pub proof fn law_name_list_round_trip(m: Seq<Seq<ChunkView>>)
    requires
        forall|i: int| 0 <= i < m.len() ==> plain_name_chunks(#[trigger] m[i]),
    ensures
        <Vec<Vec<Chunk>> as Type>::spec_to_chunks(m) matches Some(c) && <Vec<Vec<Chunk>> as Type>::spec_from_chunks(c)
            == Some(m),
{
    let ts = m.map_values(|c: Seq<ChunkView>| verbatim_text(c));
    assert forall|i: int| 0 <= i < m.len() implies (#[trigger] m[i]).len() == 1 && m[i][0] is Normal by {
        assert(plain_name_chunks(m[i]));
    }
    lemma_and_joined_text(m);
    assert forall|i: int| 0 <= i < ts.len() implies #[trigger] ts[i] == m[i][0].text() by {
        assert(plain_name_chunks(m[i]));
        assert(m[i].len() == 1);
        assert(m[i].drop_last() =~= Seq::<ChunkView>::empty());
        assert(verbatim_text(Seq::<ChunkView>::empty()) == Seq::<char>::empty());
        assert(Seq::<char>::empty() + m[i][0].text() =~= m[i][0].text());
    }
    if m.len() == 0 {
        let e = seq![Seq::<Seq<char>>::empty()];
        assert(ts =~= Seq::<Seq<char>>::empty());
        lemma_words_join(Seq::<Seq<char>>::empty());
        assert(join(ts, crate::types::and_separator()) == join(Seq::<Seq<char>>::empty(), seq![' ']));
        lemma_split_on_len(Seq::<Seq<char>>::empty(), and_word());
        assert(split_on(Seq::<Seq<char>>::empty(), and_word()) == e);
        assert(e.drop_last() =~= Seq::<Seq<Seq<char>>>::empty());
        assert(drop_empty(e) == drop_empty(e.drop_last()));
        assert(crate::types::chunk_groups(drop_empty(e)) =~= m);
    } else {
        let gs = text_words(ts);
        lemma_and_text_words(ts);
        assert forall|i: int| 0 <= i < gs.len() implies !(#[trigger] gs[i]).contains(and_word()) && gs[i].len() > 0 by {
            let t = m[i][0].text();
            assert(plain_name_chunks(m[i]));
            assert(ts[i] == t);
            if words(t).len() == 0 {
                assert(join(words(t), seq![' ']) == Seq::<char>::empty());
            }
        }
        lemma_split_and_list(gs);
        lemma_drop_empty_all(gs);
        assert forall|i: int| 0 <= i < m.len() implies #[trigger] crate::types::chunk_groups(gs)[i] == m[i] by {
            let t = m[i][0].text();
            assert(plain_name_chunks(m[i]));
            assert(ts[i] == t);
            assert(m[i] =~= seq![ChunkView::Normal(t)]);
        }
        assert(crate::types::chunk_groups(gs) =~= m);
    }
}

} // verus!
