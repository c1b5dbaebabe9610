//! Typed interpretations of field values.
use vstd::prelude::*;

use crate::chunk::{chunks_view, verbatim_text, Chunk, ChunkView, ChunksExt};
use crate::text::{
    chars_of, decimal, decimal_chars, drop_empty, drop_empty_pieces, join, join_chars, parse_digits,
    parse_nat, split_chars, split_on, string_of, str_eq, trim, trim_all, trim_chars, trim_pieces, views,
    ascii_lower, ascii_lowercase,
};

verus! {

/// A field value could not be read as the requested type.
#[derive(Debug, PartialEq, Eq)]
pub struct TypeError;

/// A type that a field value can be read as and written from.
pub trait Type: Sized {
    /// The mathematical value of a `Self`.
    type Model;

    spec fn model(&self) -> Self::Model;

    /// The value that the chunks are read as, if they can be.
    spec fn spec_from_chunks(chunks: Seq<ChunkView>) -> Option<Self::Model>;

    /// The chunks that a value is written as, if it can be.
    spec fn spec_to_chunks(m: Self::Model) -> Option<Seq<ChunkView>>;

    fn from_chunks(chunks: &[Chunk]) -> (r: Result<Self, TypeError>)
        ensures
            match r {
                Ok(v) => Self::spec_from_chunks(chunks_view(chunks@)) == Some(v.model()),
                Err(_) => Self::spec_from_chunks(chunks_view(chunks@)) is None,
            },
    ;

    fn to_chunks(&self) -> (r: Result<Vec<Chunk>, TypeError>)
        ensures
            match r {
                Ok(c) => Self::spec_to_chunks(self.model()) == Some(chunks_view(c@)),
                Err(_) => Self::spec_to_chunks(self.model()) is None,
            },
    ;
}

impl Type for String {
    type Model = Seq<char>;

    open spec fn model(&self) -> Seq<char> {
        self@
    }

    open spec fn spec_from_chunks(chunks: Seq<ChunkView>) -> Option<Seq<char>> {
        Some(verbatim_text(chunks))
    }

    open spec fn spec_to_chunks(m: Seq<char>) -> Option<Seq<ChunkView>> {
        Some(seq![ChunkView::Normal(m)])
    }

    fn from_chunks(chunks: &[Chunk]) -> (r: Result<Self, TypeError>) {
        Ok(chunks.format_verbatim())
    }

    fn to_chunks(&self) -> (r: Result<Vec<Chunk>, TypeError>) {
        let v = vec![Chunk::Normal(self.clone())];
        assert(chunks_view(v@) == seq![ChunkView::Normal(self@)]);
        Ok(v)
    }
}


/// The characters of all chunks.
pub fn chunks_chars(chunks: &[Chunk]) -> (r: Vec<char>)
    ensures
        r@ == verbatim_text(chunks_view(chunks@)),
{
    let s = chunks.format_verbatim();
    chars_of(s.as_str())
}

/// The strings held by a vector of strings.
pub open spec fn string_views(v: Seq<String>) -> Seq<Seq<char>> {
    v.map_values(|s: String| s@)
}

/// The comma-separated items of a text, trimmed, without empty ones.
pub open spec fn comma_list(t: Seq<char>) -> Seq<Seq<char>> {
    drop_empty(trim_all(split_on(t, ',')))
}

/// Turns character vectors into strings.
fn to_strings(vs: &Vec<Vec<char>>) -> (r: Vec<String>)
    ensures
        string_views(r@) == views(vs@),
{
    let mut r: Vec<String> = Vec::new();
    let mut i: usize = 0;
    while i < vs.len()
        invariant
            i <= vs@.len(),
            string_views(r@) == views(vs@).take(i as int),
        decreases vs@.len() - i,
    {
        let s = string_of(vs[i].as_slice());
        let ghost before = string_views(r@);
        r.push(s);
        assert(string_views(r@) =~= before.push(s@));
        assert(views(vs@).take(i + 1) =~= views(vs@).take(i as int).push(vs@[i as int]@));
        i = i + 1;
    }
    assert(views(vs@).take(vs@.len() as int) == views(vs@));
    r
}

/// Turns strings into character vectors.
fn to_char_vecs(vs: &Vec<String>) -> (r: Vec<Vec<char>>)
    ensures
        views(r@) == string_views(vs@),
{
    let mut r: Vec<Vec<char>> = Vec::new();
    let mut i: usize = 0;
    while i < vs.len()
        invariant
            i <= vs@.len(),
            views(r@) == string_views(vs@).take(i as int),
        decreases vs@.len() - i,
    {
        let c = chars_of(vs[i].as_str());
        let ghost before = views(r@);
        r.push(c);
        assert(views(r@) =~= before.push(c@));
        assert(string_views(vs@).take(i + 1) =~= string_views(vs@).take(i as int).push(vs@[i as int]@));
        i = i + 1;
    }
    assert(string_views(vs@).take(vs@.len() as int) == string_views(vs@));
    r
}

/// A list of strings is written as its items separated by commas.
impl Type for Vec<String> {
    type Model = Seq<Seq<char>>;

    open spec fn model(&self) -> Seq<Seq<char>> {
        string_views(self@)
    }

    open spec fn spec_from_chunks(chunks: Seq<ChunkView>) -> Option<Seq<Seq<char>>> {
        Some(comma_list(verbatim_text(chunks)))
    }

    open spec fn spec_to_chunks(m: Seq<Seq<char>>) -> Option<Seq<ChunkView>> {
        Some(seq![ChunkView::Normal(join(m, seq![',', ' ']))])
    }

    fn from_chunks(chunks: &[Chunk]) -> (r: Result<Self, TypeError>) {
        let t = chunks_chars(chunks);
        let pieces = split_chars(t.as_slice(), ',');
        let trimmed = trim_pieces(&pieces);
        let items = drop_empty_pieces(trimmed);
        Ok(to_strings(&items))
    }

    fn to_chunks(&self) -> (r: Result<Vec<Chunk>, TypeError>) {
        let cs = to_char_vecs(self);
        let sep = vec![',', ' '];
        let joined = join_chars(&cs, sep.as_slice());
        let v = vec![Chunk::Normal(string_of(joined.as_slice()))];
        assert(chunks_view(v@) =~= seq![ChunkView::Normal(join(string_views(self@), seq![',', ' ']))]);
        Ok(v)
    }
}

/// The integer written by a text: optional minus sign, then digits.
pub open spec fn integer_of(t: Seq<char>) -> Option<int> {
    if t.len() > 0 && t[0] == '-' {
        match parse_nat(t.drop_first()) {
            Some(n) => if n <= 0x8000_0000_0000_0000 {
                Some(-n)
            } else {
                None
            },
            None => None,
        }
    } else {
        match parse_nat(t) {
            Some(n) => if n <= 0x7fff_ffff_ffff_ffff {
                Some(n as int)
            } else {
                None
            },
            None => None,
        }
    }
}

/// How an integer is written.
pub open spec fn integer_text(n: int) -> Seq<char> {
    if n < 0 {
        seq!['-'] + decimal((-n) as nat)
    } else {
        decimal(n as nat)
    }
}

/// An integer is written in decimal, with a minus sign when negative;
/// whitespace around it is ignored when reading.
impl Type for i64 {
    type Model = int;

    open spec fn model(&self) -> int {
        *self as int
    }

    open spec fn spec_from_chunks(chunks: Seq<ChunkView>) -> Option<int> {
        integer_of(trim(verbatim_text(chunks)))
    }

    open spec fn spec_to_chunks(m: int) -> Option<Seq<ChunkView>> {
        Some(seq![ChunkView::Normal(integer_text(m))])
    }

    fn from_chunks(chunks: &[Chunk]) -> (r: Result<Self, TypeError>) {
        let raw = chunks_chars(chunks);
        let t = trim_chars(raw.as_slice());
        if t.len() > 0 && t[0] == '-' {
            let mut digits: Vec<char> = Vec::new();
            let mut i: usize = 1;
            while i < t.len()
                invariant
                    1 <= i <= t@.len(),
                    digits@ == t@.subrange(1, i as int),
                decreases t@.len() - i,
            {
                digits.push(t[i]);
                assert(t@.subrange(1, i + 1) == t@.subrange(1, i as int).push(t@[i as int]));
                i = i + 1;
            }
            assert(digits@ == t@.drop_first());
            match parse_digits(digits.as_slice(), 0x8000_0000_0000_0000) {
                Some(n) => {
                    if n == 0x8000_0000_0000_0000 {
                        Ok(i64::MIN)
                    } else {
                        Ok(-(n as i64))
                    }
                },
                None => Err(TypeError),
            }
        } else {
            match parse_digits(t.as_slice(), 0x7fff_ffff_ffff_ffff) {
                Some(n) => Ok(n as i64),
                None => Err(TypeError),
            }
        }
    }

    fn to_chunks(&self) -> (r: Result<Vec<Chunk>, TypeError>) {
        let mut text: Vec<char> = Vec::new();
        let n = *self;
        let magnitude: u64 = if n < 0 {
            text.push('-');
            if n == i64::MIN {
                0x8000_0000_0000_0000u64
            } else {
                (-n) as u64
            }
        } else {
            n as u64
        };
        let digits = decimal_chars(magnitude);
        crate::text::append_chars(&mut text, digits.as_slice());
        let v = vec![Chunk::Normal(string_of(text.as_slice()))];
        assert(chunks_view(v@) =~= seq![ChunkView::Normal(integer_text(*self as int))]);
        Ok(v)
    }
}

/// Lower-cases the ASCII letters of `s`.
pub fn ascii_lowercase_chars(s: &[char]) -> (r: Vec<char>)
    ensures
        r@ == ascii_lowercase(s@),
{
    let mut r: Vec<char> = Vec::new();
    let mut i: usize = 0;
    while i < s.len()
        invariant
            i <= s@.len(),
            r@ == ascii_lowercase(s@).take(i as int),
        decreases s@.len() - i,
    {
        let c = s[i];
        let l = if 'A' <= c && c <= 'Z' {
            ((c as u32) + 32) as u8 as char
        } else {
            c
        };
        assert(l == ascii_lower(c)) by {
            if 'A' <= c && c <= 'Z' {
                assert((c as u32) + 32 < 256);
            }
        }
        r.push(l);
        assert(ascii_lowercase(s@).take(i + 1) =~= ascii_lowercase(s@).take(i as int).push(ascii_lower(s@[i as int])));
        i = i + 1;
    }
    assert(ascii_lowercase(s@).take(s@.len() as int) == ascii_lowercase(s@));
    r
}

/// The role an editor played in the creation of a work.
#[derive(Debug, Clone, Copy, PartialEq, Eq)]
pub enum EditorType {
    /// The person is an editor.
    Editor,
    /// The person compiled the work.
    Compiler,
    /// The person founded the work.
    Founder,
    /// The person continued the work of a founder.
    Continuator,
    /// The person redacted the work.
    Redactor,
    /// The person revised the work.
    Reviser,
    /// The person collaborated on the work.
    Collaborator,
    /// The person organized the work.
    Organizer,
}

/// The name under which an editor type is written.
pub open spec fn editor_type_name(t: EditorType) -> Seq<char> {
    match t {
        EditorType::Editor => "editor"@,
        EditorType::Compiler => "compiler"@,
        EditorType::Founder => "founder"@,
        EditorType::Continuator => "continuator"@,
        EditorType::Redactor => "redactor"@,
        EditorType::Reviser => "reviser"@,
        EditorType::Collaborator => "collaborator"@,
        EditorType::Organizer => "organizer"@,
    }
}

/// The editor type with the given lower-case name.
pub open spec fn editor_type_named(n: Seq<char>) -> Option<EditorType> {
    if n == "editor"@ {
        Some(EditorType::Editor)
    } else if n == "compiler"@ {
        Some(EditorType::Compiler)
    } else if n == "founder"@ {
        Some(EditorType::Founder)
    } else if n == "continuator"@ {
        Some(EditorType::Continuator)
    } else if n == "redactor"@ {
        Some(EditorType::Redactor)
    } else if n == "reviser"@ {
        Some(EditorType::Reviser)
    } else if n == "collaborator"@ {
        Some(EditorType::Collaborator)
    } else if n == "organizer"@ {
        Some(EditorType::Organizer)
    } else {
        None
    }
}

/// An editor type is written as its name; reading ignores surrounding
/// whitespace and the case of ASCII letters.
impl Type for EditorType {
    type Model = EditorType;

    open spec fn model(&self) -> EditorType {
        *self
    }

    open spec fn spec_from_chunks(chunks: Seq<ChunkView>) -> Option<EditorType> {
        editor_type_named(ascii_lowercase(trim(verbatim_text(chunks))))
    }

    open spec fn spec_to_chunks(m: EditorType) -> Option<Seq<ChunkView>> {
        Some(seq![ChunkView::Normal(editor_type_name(m))])
    }

    fn from_chunks(chunks: &[Chunk]) -> (r: Result<Self, TypeError>) {
        let raw = chunks_chars(chunks);
        let t = trim_chars(raw.as_slice());
        let l = ascii_lowercase_chars(t.as_slice());
        let s = string_of(l.as_slice());
        let n = s.as_str();
        if str_eq(n, "editor") {
            Ok(EditorType::Editor)
        } else if str_eq(n, "compiler") {
            Ok(EditorType::Compiler)
        } else if str_eq(n, "founder") {
            Ok(EditorType::Founder)
        } else if str_eq(n, "continuator") {
            Ok(EditorType::Continuator)
        } else if str_eq(n, "redactor") {
            Ok(EditorType::Redactor)
        } else if str_eq(n, "reviser") {
            Ok(EditorType::Reviser)
        } else if str_eq(n, "collaborator") {
            Ok(EditorType::Collaborator)
        } else if str_eq(n, "organizer") {
            Ok(EditorType::Organizer)
        } else {
            Err(TypeError)
        }
    }

    fn to_chunks(&self) -> (r: Result<Vec<Chunk>, TypeError>) {
        let name = match self {
            EditorType::Editor => "editor",
            EditorType::Compiler => "compiler",
            EditorType::Founder => "founder",
            EditorType::Continuator => "continuator",
            EditorType::Redactor => "redactor",
            EditorType::Reviser => "reviser",
            EditorType::Collaborator => "collaborator",
            EditorType::Organizer => "organizer",
        };
        let v = vec![Chunk::Normal(String::from_str(name))];
        assert(chunks_view(v@) =~= seq![ChunkView::Normal(editor_type_name(*self))]);
        Ok(v)
    }
}


/// The unit in which a work's parts are counted.
#[derive(Debug, Clone, Copy, PartialEq, Eq)]
pub enum Pagination {
    /// Pages.
    Page,
    /// Columns.
    Column,
    /// Lines.
    Line,
    /// Verses.
    Verse,
    /// Sections.
    Section,
    /// Paragraphs.
    Paragraph,
}

/// The name under which a pagination is written.
pub open spec fn pagination_name(t: Pagination) -> Seq<char> {
    match t {
        Pagination::Page => "page"@,
        Pagination::Column => "column"@,
        Pagination::Line => "line"@,
        Pagination::Verse => "verse"@,
        Pagination::Section => "section"@,
        Pagination::Paragraph => "paragraph"@,
    }
}

/// The pagination with the given lower-case name.
pub open spec fn pagination_named(n: Seq<char>) -> Option<Pagination> {
    if n == "page"@ {
        Some(Pagination::Page)
    } else if n == "column"@ {
        Some(Pagination::Column)
    } else if n == "line"@ {
        Some(Pagination::Line)
    } else if n == "verse"@ {
        Some(Pagination::Verse)
    } else if n == "section"@ {
        Some(Pagination::Section)
    } else if n == "paragraph"@ {
        Some(Pagination::Paragraph)
    } else {
        None
    }
}

/// A pagination is written as its name; reading ignores surrounding
/// whitespace and the case of ASCII letters.
impl Type for Pagination {
    type Model = Pagination;

    open spec fn model(&self) -> Pagination {
        *self
    }

    open spec fn spec_from_chunks(chunks: Seq<ChunkView>) -> Option<Pagination> {
        pagination_named(ascii_lowercase(trim(verbatim_text(chunks))))
    }

    open spec fn spec_to_chunks(m: Pagination) -> Option<Seq<ChunkView>> {
        Some(seq![ChunkView::Normal(pagination_name(m))])
    }

    fn from_chunks(chunks: &[Chunk]) -> (r: Result<Self, TypeError>) {
        let raw = chunks_chars(chunks);
        let t = trim_chars(raw.as_slice());
        let l = ascii_lowercase_chars(t.as_slice());
        let s = string_of(l.as_slice());
        let n = s.as_str();
        if str_eq(n, "page") {
            Ok(Pagination::Page)
        } else if str_eq(n, "column") {
            Ok(Pagination::Column)
        } else if str_eq(n, "line") {
            Ok(Pagination::Line)
        } else if str_eq(n, "verse") {
            Ok(Pagination::Verse)
        } else if str_eq(n, "section") {
            Ok(Pagination::Section)
        } else if str_eq(n, "paragraph") {
            Ok(Pagination::Paragraph)
        } else {
            Err(TypeError)
        }
    }

    fn to_chunks(&self) -> (r: Result<Vec<Chunk>, TypeError>) {
        let name = match self {
            Pagination::Page => "page",
            Pagination::Column => "column",
            Pagination::Line => "line",
            Pagination::Verse => "verse",
            Pagination::Section => "section",
            Pagination::Paragraph => "paragraph",
        };
        let v = vec![Chunk::Normal(String::from_str(name))];
        assert(chunks_view(v@) =~= seq![ChunkView::Normal(pagination_name(*self))]);
        Ok(v)
    }
}

/// The grammatical gender and number of a work's authors or editors.
#[derive(Debug, Clone, Copy, PartialEq, Eq)]
pub enum Gender {
    /// A single female person.
    SingularFemale,
    /// A single male person.
    SingularMale,
    /// A single person of neuter gender.
    SingularNeuter,
    /// Several female persons.
    PluralFemale,
    /// Several male persons.
    PluralMale,
    /// Several persons of neuter gender.
    PluralNeuter,
    /// Several persons of mixed gender.
    PluralMixed,
}

/// The name under which a gender is written.
pub open spec fn gender_name(t: Gender) -> Seq<char> {
    match t {
        Gender::SingularFemale => "sf"@,
        Gender::SingularMale => "sm"@,
        Gender::SingularNeuter => "sn"@,
        Gender::PluralFemale => "pf"@,
        Gender::PluralMale => "pm"@,
        Gender::PluralNeuter => "pn"@,
        Gender::PluralMixed => "pp"@,
    }
}

/// The gender with the given lower-case name.
pub open spec fn gender_named(n: Seq<char>) -> Option<Gender> {
    if n == "sf"@ {
        Some(Gender::SingularFemale)
    } else if n == "sm"@ {
        Some(Gender::SingularMale)
    } else if n == "sn"@ {
        Some(Gender::SingularNeuter)
    } else if n == "pf"@ {
        Some(Gender::PluralFemale)
    } else if n == "pm"@ {
        Some(Gender::PluralMale)
    } else if n == "pn"@ {
        Some(Gender::PluralNeuter)
    } else if n == "pp"@ {
        Some(Gender::PluralMixed)
    } else {
        None
    }
}

/// A gender is written as its name; reading ignores surrounding
/// whitespace and the case of ASCII letters.
impl Type for Gender {
    type Model = Gender;

    open spec fn model(&self) -> Gender {
        *self
    }

    open spec fn spec_from_chunks(chunks: Seq<ChunkView>) -> Option<Gender> {
        gender_named(ascii_lowercase(trim(verbatim_text(chunks))))
    }

    open spec fn spec_to_chunks(m: Gender) -> Option<Seq<ChunkView>> {
        Some(seq![ChunkView::Normal(gender_name(m))])
    }

    fn from_chunks(chunks: &[Chunk]) -> (r: Result<Self, TypeError>) {
        let raw = chunks_chars(chunks);
        let t = trim_chars(raw.as_slice());
        let l = ascii_lowercase_chars(t.as_slice());
        let s = string_of(l.as_slice());
        let n = s.as_str();
        if str_eq(n, "sf") {
            Ok(Gender::SingularFemale)
        } else if str_eq(n, "sm") {
            Ok(Gender::SingularMale)
        } else if str_eq(n, "sn") {
            Ok(Gender::SingularNeuter)
        } else if str_eq(n, "pf") {
            Ok(Gender::PluralFemale)
        } else if str_eq(n, "pm") {
            Ok(Gender::PluralMale)
        } else if str_eq(n, "pn") {
            Ok(Gender::PluralNeuter)
        } else if str_eq(n, "pp") {
            Ok(Gender::PluralMixed)
        } else {
            Err(TypeError)
        }
    }

    fn to_chunks(&self) -> (r: Result<Vec<Chunk>, TypeError>) {
        let name = match self {
            Gender::SingularFemale => "sf",
            Gender::SingularMale => "sm",
            Gender::SingularNeuter => "sn",
            Gender::PluralFemale => "pf",
            Gender::PluralMale => "pm",
            Gender::PluralNeuter => "pn",
            Gender::PluralMixed => "pp",
        };
        let v = vec![Chunk::Normal(String::from_str(name))];
        assert(chunks_view(v@) =~= seq![ChunkView::Normal(gender_name(*self))]);
        Ok(v)
    }
}

/// A value that is an integer when it reads as one, and text otherwise.
#[derive(Debug, PartialEq, Eq)]
pub enum IntOrChunks {
    /// The value reads as an integer.
    Int(i64),
    /// The value does not read as an integer.
    Chunks(Vec<Chunk>),
}

/// The mathematical value of an [`IntOrChunks`].
pub enum IntOrChunksView {
    Int(int),
    Chunks(Seq<ChunkView>),
}

/// A value is read as an integer where it is one, and kept as chunks
/// otherwise.
impl Type for IntOrChunks {
    type Model = IntOrChunksView;

    open spec fn model(&self) -> IntOrChunksView {
        match self {
            IntOrChunks::Int(n) => IntOrChunksView::Int(*n as int),
            IntOrChunks::Chunks(c) => IntOrChunksView::Chunks(chunks_view(c@)),
        }
    }

    open spec fn spec_from_chunks(chunks: Seq<ChunkView>) -> Option<IntOrChunksView> {
        match <i64 as Type>::spec_from_chunks(chunks) {
            Some(n) => Some(IntOrChunksView::Int(n)),
            None => Some(IntOrChunksView::Chunks(chunks)),
        }
    }

    open spec fn spec_to_chunks(m: IntOrChunksView) -> Option<Seq<ChunkView>> {
        match m {
            IntOrChunksView::Int(n) => <i64 as Type>::spec_to_chunks(n),
            IntOrChunksView::Chunks(c) => Some(c),
        }
    }

    fn from_chunks(chunks: &[Chunk]) -> (r: Result<Self, TypeError>) {
        match <i64 as Type>::from_chunks(chunks) {
            Ok(n) => Ok(IntOrChunks::Int(n)),
            Err(_) => Ok(IntOrChunks::Chunks(crate::chunk::clone_chunks(chunks))),
        }
    }

    fn to_chunks(&self) -> (r: Result<Vec<Chunk>, TypeError>) {
        match self {
            IntOrChunks::Int(n) => n.to_chunks(),
            IntOrChunks::Chunks(c) => Ok(crate::chunk::clone_chunks(c.as_slice())),
        }
    }
}

/// A calendar date with optional month and day.
#[derive(Debug, Clone, Copy, PartialEq, Eq)]
pub struct Date {
    /// The year.
    pub year: i32,
    /// The month, from 1 (January) to 12, if known.
    pub month: Option<u8>,
    /// The day of the month, from 1 to 31, if known.
    pub day: Option<u8>,
}

/// Dates that can be written: a year of at most four digits, a month in
/// 1..=12 and a day in 1..=31 that only comes with a month.
pub open spec fn valid_date(d: Date) -> bool {
    &&& 0 <= d.year <= 9999
    &&& (d.month matches Some(m) ==> 1 <= m <= 12)
    &&& (d.day matches Some(x) ==> 1 <= x <= 31 && d.month is Some)
}

/// The number written by `t` when it lies in `lo..=hi`.
pub open spec fn number_in(t: Seq<char>, lo: nat, hi: nat) -> Option<nat> {
    match parse_nat(t) {
        Some(n) => if lo <= n && n <= hi {
            Some(n)
        } else {
            None
        },
        None => None,
    }
}

/// The date written as `YYYY`, `YYYY-MM` or `YYYY-MM-DD`.
pub open spec fn date_of(t: Seq<char>) -> Option<Date> {
    let p = split_on(t, '-');
    if p.len() < 1 || p.len() > 3 {
        None
    } else {
        match number_in(p[0], 0, 9999) {
            None => None,
            Some(y) => if p.len() == 1 {
                Some(Date { year: y as i32, month: None, day: None })
            } else {
                match number_in(p[1], 1, 12) {
                    None => None,
                    Some(m) => if p.len() == 2 {
                        Some(Date { year: y as i32, month: Some(m as u8), day: None })
                    } else {
                        match number_in(p[2], 1, 31) {
                            None => None,
                            Some(x) => Some(Date { year: y as i32, month: Some(m as u8), day: Some(x as u8) }),
                        }
                    },
                }
            },
        }
    }
}

/// How a date is written: `YYYY`, `YYYY-MM` or `YYYY-MM-DD`, zero-padded.
pub open spec fn date_text(d: Date) -> Seq<char> {
    crate::text::zero_pad(decimal(d.year as nat), 4) + match d.month {
        Some(m) => seq!['-'] + crate::text::zero_pad(decimal(m as nat), 2),
        None => Seq::empty(),
    } + match d.day {
        Some(x) => seq!['-'] + crate::text::zero_pad(decimal(x as nat), 2),
        None => Seq::empty(),
    }
}

/// The month named by the first three letters of an English month name.
pub open spec fn month_abbreviation(a: Seq<char>) -> Option<nat> {
    if a == seq!['j', 'a', 'n'] {
        Some(1)
    } else if a == seq!['f', 'e', 'b'] {
        Some(2)
    } else if a == seq!['m', 'a', 'r'] {
        Some(3)
    } else if a == seq!['a', 'p', 'r'] {
        Some(4)
    } else if a == seq!['m', 'a', 'y'] {
        Some(5)
    } else if a == seq!['j', 'u', 'n'] {
        Some(6)
    } else if a == seq!['j', 'u', 'l'] {
        Some(7)
    } else if a == seq!['a', 'u', 'g'] {
        Some(8)
    } else if a == seq!['s', 'e', 'p'] {
        Some(9)
    } else if a == seq!['o', 'c', 't'] {
        Some(10)
    } else if a == seq!['n', 'o', 'v'] {
        Some(11)
    } else if a == seq!['d', 'e', 'c'] {
        Some(12)
    } else {
        None
    }
}

/// The month written by `t`: a number in 1..=12, or a word whose first
/// three letters abbreviate an English month name.
pub open spec fn month_of(t: Seq<char>) -> Option<nat> {
    match number_in(t, 1, 12) {
        Some(m) => Some(m),
        None => if t.len() >= 3 {
            month_abbreviation(ascii_lowercase(t.take(3)))
        } else {
            None
        },
    }
}

/// The date given by separate (trimmed) year, month and day texts.
pub open spec fn date_from_parts(
    year: Option<Seq<char>>,
    month: Option<Seq<char>>,
    day: Option<Seq<char>>,
) -> Option<Date> {
    match year {
        None => None,
        Some(yt) => match number_in(yt, 0, 9999) {
            None => None,
            Some(y) => match month {
                None => if day is None {
                    Some(Date { year: y as i32, month: None, day: None })
                } else {
                    None
                },
                Some(mt) => match month_of(mt) {
                    None => None,
                    Some(m) => match day {
                        None => Some(Date { year: y as i32, month: Some(m as u8), day: None }),
                        Some(dt) => match number_in(dt, 1, 31) {
                            None => None,
                            Some(x) => Some(Date { year: y as i32, month: Some(m as u8), day: Some(x as u8) }),
                        },
                    },
                },
            },
        },
    }
}

/// The values of optional chunks.
pub open spec fn opt_chunks(c: Option<&[Chunk]>) -> Option<Seq<ChunkView>> {
    match c {
        Some(cs) => Some(chunks_view(cs@)),
        None => None,
    }
}

/// The trimmed text of optional chunks.
pub open spec fn part_text(c: Option<Seq<ChunkView>>) -> Option<Seq<char>> {
    match c {
        Some(cs) => Some(trim(verbatim_text(cs))),
        None => None,
    }
}

/// The fields a date is written into for BibTeX.
pub open spec fn date_fieldset(d: Date) -> Seq<(Seq<char>, Seq<char>)> {
    seq![("year"@, integer_text(d.year as int))] + match d.month {
        Some(m) => seq![("month"@, decimal(m as nat))],
        None => Seq::empty(),
    } + match d.day {
        Some(x) => seq![("day"@, decimal(x as nat))],
        None => Seq::empty(),
    }
}

/// Reads a number in `lo..=hi` from `t`.
fn number_between(t: &[char], lo: u64, hi: u64) -> (r: Option<u64>)
    ensures
        match r {
            Some(n) => number_in(t@, lo as nat, hi as nat) == Some(n as nat),
            None => number_in(t@, lo as nat, hi as nat) is None,
        },
{
    match parse_digits(t, hi) {
        Some(n) => if n >= lo {
            Some(n)
        } else {
            None
        },
        None => None,
    }
}

/// The trimmed characters of optional chunks.
fn part_chars(c: Option<&[Chunk]>) -> (r: Option<Vec<char>>)
    ensures
        match r {
            Some(t) => c matches Some(cs) && part_text(Some(chunks_view(cs@))) == Some(t@),
            None => c is None,
        },
{
    match c {
        Some(cs) => {
            let raw = chunks_chars(cs);
            Some(trim_chars(raw.as_slice()))
        },
        None => None,
    }
}

impl Date {
    /// Reads a date from separate `year`, `month` and `day` fields.
    pub fn new_from_three_fields(
        year: Option<&[Chunk]>,
        month: Option<&[Chunk]>,
        day: Option<&[Chunk]>,
    ) -> (r: Result<Date, TypeError>)
        ensures
            match r {
                Ok(d) => date_from_parts(
                    part_text(opt_chunks(year)),
                    part_text(opt_chunks(month)),
                    part_text(opt_chunks(day)),
                ) == Some(d),
                Err(_) => date_from_parts(
                    part_text(opt_chunks(year)),
                    part_text(opt_chunks(month)),
                    part_text(opt_chunks(day)),
                ) is None,
            },
    {
        let yt = part_chars(year);
        let mt = part_chars(month);
        let dt = part_chars(day);
        let y = match yt {
            None => return Err(TypeError),
            Some(t) => match number_between(t.as_slice(), 0, 9999) {
                None => return Err(TypeError),
                Some(y) => y,
            },
        };
        match mt {
            None => {
                if dt.is_some() {
                    return Err(TypeError);
                }
                Ok(Date { year: y as i32, month: None, day: None })
            },
            Some(t) => {
                let m = match month_number(t.as_slice()) {
                    None => return Err(TypeError),
                    Some(m) => m,
                };
                match dt {
                    None => Ok(Date { year: y as i32, month: Some(m as u8), day: None }),
                    Some(t) => match number_between(t.as_slice(), 1, 31) {
                        None => Err(TypeError),
                        Some(x) => Ok(Date { year: y as i32, month: Some(m as u8), day: Some(x as u8) }),
                    },
                }
            },
        }
    }

    /// The fields this date is written into for BibTeX.
    pub fn to_fieldset(&self) -> (r: Vec<(String, String)>)
        ensures
            r@.map_values(|p: (String, String)| (p.0@, p.1@)) == date_fieldset(*self),
    {
        let mut r: Vec<(String, String)> = Vec::new();
        let mut y: Vec<char> = Vec::new();
        if self.year < 0 {
            y.push('-');
        }
        let magnitude: u64 = if self.year < 0 { (-(self.year as i64)) as u64 } else { self.year as u64 };
        let digits = decimal_chars(magnitude);
        crate::text::append_chars(&mut y, digits.as_slice());
        assert(y@ == integer_text(self.year as int));
        r.push((String::from_str("year"), string_of(y.as_slice())));
        if let Some(m) = self.month {
            let d = decimal_chars(m as u64);
            r.push((String::from_str("month"), string_of(d.as_slice())));
        }
        if let Some(x) = self.day {
            let d = decimal_chars(x as u64);
            r.push((String::from_str("day"), string_of(d.as_slice())));
        }
        assert(r@.map_values(|p: (String, String)| (p.0@, p.1@)) =~= date_fieldset(*self));
        r
    }
}

/// Reads a month: a number in 1..=12 or an English month name.
fn month_number(t: &[char]) -> (r: Option<u64>)
    ensures
        match r {
            Some(m) => month_of(t@) == Some(m as nat) && 1 <= m <= 12,
            None => month_of(t@) is None,
        },
{
    if let Some(m) = number_between(t, 1, 12) {
        return Some(m);
    }
    if t.len() < 3 {
        return None;
    }
    let mut first: Vec<char> = Vec::new();
    first.push(t[0]);
    first.push(t[1]);
    first.push(t[2]);
    assert(first@ == t@.take(3));
    let a = ascii_lowercase_chars(first.as_slice());
    let s = string_of(a.as_slice());
    let n = s.as_str();
    proof {
        reveal_strlit("jan");
        reveal_strlit("feb");
        reveal_strlit("mar");
        reveal_strlit("apr");
        reveal_strlit("may");
        reveal_strlit("jun");
        reveal_strlit("jul");
        reveal_strlit("aug");
        reveal_strlit("sep");
        reveal_strlit("oct");
        reveal_strlit("nov");
        reveal_strlit("dec");
    }
    if str_eq(n, "jan") {
        assert("jan"@ =~= seq!['j', 'a', 'n']);
        Some(1)
    } else if str_eq(n, "feb") {
        assert("feb"@ =~= seq!['f', 'e', 'b']);
        Some(2)
    } else if str_eq(n, "mar") {
        assert("mar"@ =~= seq!['m', 'a', 'r']);
        Some(3)
    } else if str_eq(n, "apr") {
        assert("apr"@ =~= seq!['a', 'p', 'r']);
        Some(4)
    } else if str_eq(n, "may") {
        assert("may"@ =~= seq!['m', 'a', 'y']);
        Some(5)
    } else if str_eq(n, "jun") {
        assert("jun"@ =~= seq!['j', 'u', 'n']);
        Some(6)
    } else if str_eq(n, "jul") {
        assert("jul"@ =~= seq!['j', 'u', 'l']);
        Some(7)
    } else if str_eq(n, "aug") {
        assert("aug"@ =~= seq!['a', 'u', 'g']);
        Some(8)
    } else if str_eq(n, "sep") {
        assert("sep"@ =~= seq!['s', 'e', 'p']);
        Some(9)
    } else if str_eq(n, "oct") {
        assert("oct"@ =~= seq!['o', 'c', 't']);
        Some(10)
    } else if str_eq(n, "nov") {
        assert("nov"@ =~= seq!['n', 'o', 'v']);
        Some(11)
    } else if str_eq(n, "dec") {
        assert("dec"@ =~= seq!['d', 'e', 'c']);
        Some(12)
    } else {
        assert("jan"@ =~= seq!['j', 'a', 'n']);
        assert("feb"@ =~= seq!['f', 'e', 'b']);
        assert("mar"@ =~= seq!['m', 'a', 'r']);
        assert("apr"@ =~= seq!['a', 'p', 'r']);
        assert("may"@ =~= seq!['m', 'a', 'y']);
        assert("jun"@ =~= seq!['j', 'u', 'n']);
        assert("jul"@ =~= seq!['j', 'u', 'l']);
        assert("aug"@ =~= seq!['a', 'u', 'g']);
        assert("sep"@ =~= seq!['s', 'e', 'p']);
        assert("oct"@ =~= seq!['o', 'c', 't']);
        assert("nov"@ =~= seq!['n', 'o', 'v']);
        assert("dec"@ =~= seq!['d', 'e', 'c']);
        None
    }
}

/// A date is written as `YYYY`, `YYYY-MM` or `YYYY-MM-DD`; whitespace
/// around it is ignored when reading.
impl Type for Date {
    type Model = Date;

    open spec fn model(&self) -> Date {
        *self
    }

    open spec fn spec_from_chunks(chunks: Seq<ChunkView>) -> Option<Date> {
        date_of(trim(verbatim_text(chunks)))
    }

    open spec fn spec_to_chunks(m: Date) -> Option<Seq<ChunkView>> {
        if valid_date(m) {
            Some(seq![ChunkView::Normal(date_text(m))])
        } else {
            None
        }
    }

    fn from_chunks(chunks: &[Chunk]) -> (r: Result<Self, TypeError>) {
        let raw = chunks_chars(chunks);
        let t = trim_chars(raw.as_slice());
        let p = split_chars(t.as_slice(), '-');
        proof {
            crate::text::lemma_split_on_len(t@, '-');
            assert(views(p@)[0] == p@[0]@);
        }
        if p.len() > 3 {
            return Err(TypeError);
        }
        let y = match number_between(p[0].as_slice(), 0, 9999) {
            None => return Err(TypeError),
            Some(y) => y,
        };
        if p.len() == 1 {
            return Ok(Date { year: y as i32, month: None, day: None });
        }
        assert(views(p@)[1] == p@[1]@);
        let m = match number_between(p[1].as_slice(), 1, 12) {
            None => return Err(TypeError),
            Some(m) => m,
        };
        if p.len() == 2 {
            return Ok(Date { year: y as i32, month: Some(m as u8), day: None });
        }
        assert(views(p@)[2] == p@[2]@);
        match number_between(p[2].as_slice(), 1, 31) {
            None => Err(TypeError),
            Some(x) => Ok(Date { year: y as i32, month: Some(m as u8), day: Some(x as u8) }),
        }
    }

    fn to_chunks(&self) -> (r: Result<Vec<Chunk>, TypeError>) {
        let valid_month = match self.month {
            Some(m) => 1 <= m && m <= 12,
            None => true,
        };
        let valid_day = match self.day {
            Some(x) => 1 <= x && x <= 31 && self.month.is_some(),
            None => true,
        };
        if !(0 <= self.year && self.year <= 9999 && valid_month && valid_day) {
            return Err(TypeError);
        }
        let mut text = crate::text::padded_decimal_chars(self.year as u64, 4);
        if let Some(m) = self.month {
            text.push('-');
            let d = crate::text::padded_decimal_chars(m as u64, 2);
            crate::text::append_chars(&mut text, d.as_slice());
        }
        if let Some(x) = self.day {
            text.push('-');
            let d = crate::text::padded_decimal_chars(x as u64, 2);
            crate::text::append_chars(&mut text, d.as_slice());
        }
        assert(text@ =~= date_text(*self));
        let v = vec![Chunk::Normal(string_of(text.as_slice()))];
        assert(chunks_view(v@) =~= seq![ChunkView::Normal(date_text(*self))]);
        Ok(v)
    }
}


/// A text with every whitespace character replaced by a space.
pub open spec fn space_normalized(s: Seq<char>) -> Seq<char> {
    s.map_values(|c: char| if crate::text::is_space(c) { ' ' } else { c })
}

/// The words of a text.
pub open spec fn words(s: Seq<char>) -> Seq<Seq<char>> {
    drop_empty(split_on(space_normalized(s), ' '))
}

/// The word that separates names in a list.
pub open spec fn and_word() -> Seq<char> {
    seq!['a', 'n', 'd']
}

/// The words of each item of an `and`-separated list, without empty items.
pub open spec fn name_groups(s: Seq<char>) -> Seq<Seq<Seq<char>>> {
    drop_empty(split_on(words(s), and_word()))
}

/// The word lists held by a vector of word vectors.
pub open spec fn group_views(g: Seq<Vec<Vec<char>>>) -> Seq<Seq<Seq<char>>> {
    g.map_values(|v: Vec<Vec<char>>| views(v@))
}

/// The words of `t`.
fn words_of(t: &[char]) -> (r: Vec<Vec<char>>)
    ensures
        views(r@) == words(t@),
{
    let mut n: Vec<char> = Vec::new();
    let mut i: usize = 0;
    while i < t.len()
        invariant
            i <= t@.len(),
            n@ == space_normalized(t@).take(i as int),
        decreases t@.len() - i,
    {
        let c = t[i];
        let d = if c == ' ' || c == '\t' || c == '\n' || c == '\r' { ' ' } else { c };
        n.push(d);
        assert(space_normalized(t@).take(i + 1) =~= space_normalized(t@).take(i as int).push(d));
        i = i + 1;
    }
    assert(space_normalized(t@).take(t@.len() as int) == space_normalized(t@));
    let pieces = split_chars(n.as_slice(), ' ');
    drop_empty_pieces(pieces)
}

/// Whether a word is `and`.
fn is_and(w: &Vec<char>) -> (r: bool)
    ensures
        r == (w@ == and_word()),
{
    let r = w.len() == 3 && w[0] == 'a' && w[1] == 'n' && w[2] == 'd';
    if r {
        assert(w@ =~= and_word());
    }
    r
}

/// A copy of a list of words.
fn clone_words(ws: &Vec<Vec<char>>) -> (r: Vec<Vec<char>>)
    ensures
        views(r@) == views(ws@),
{
    let mut r: Vec<Vec<char>> = Vec::new();
    let mut i: usize = 0;
    while i < ws.len()
        invariant
            i <= ws@.len(),
            views(r@) == views(ws@).take(i as int),
        decreases ws@.len() - i,
    {
        let w = ws[i].clone();
        let ghost before = views(r@);
        r.push(w);
        assert(views(r@) =~= before.push(ws@[i as int]@));
        assert(views(ws@).take(i + 1) =~= views(ws@).take(i as int).push(ws@[i as int]@));
        i = i + 1;
    }
    assert(views(ws@).take(ws@.len() as int) == views(ws@));
    r
}

/// The name groups of `t`.
fn groups_of(t: &[char]) -> (r: Vec<Vec<Vec<char>>>)
    ensures
        group_views(r@) == name_groups(t@),
{
    let ws = words_of(t);
    let ghost wv = views(ws@);
    let mut groups: Vec<Vec<Vec<char>>> = Vec::new();
    let mut cur: Vec<Vec<char>> = Vec::new();
    let mut i: usize = 0;
    assert(wv.take(0) == Seq::<Seq<char>>::empty());
    assert(views(cur@) =~= Seq::<Seq<char>>::empty());
    assert(group_views(groups@) =~= Seq::<Seq<Seq<char>>>::empty());
    assert(group_views(groups@).push(views(cur@)) =~= split_on(Seq::<Seq<char>>::empty(), and_word()));
    while i < ws.len()
        invariant
            i <= ws@.len(),
            wv == views(ws@),
            split_on(wv.take(i as int), and_word()) == group_views(groups@).push(views(cur@)),
        decreases ws@.len() - i,
    {
        let ghost before = group_views(groups@).push(views(cur@));
        assert(wv.take(i + 1).drop_last() == wv.take(i as int));
        assert(wv[i as int] == ws@[i as int]@);
        if is_and(&ws[i]) {
            let mut fresh: Vec<Vec<char>> = Vec::new();
            std::mem::swap(&mut fresh, &mut cur);
            let ghost old_groups = group_views(groups@);
            let ghost fv = views(fresh@);
            groups.push(fresh);
            assert(group_views(groups@) =~= old_groups.push(fv));
            assert(views(cur@) =~= Seq::<Seq<char>>::empty());
            assert(group_views(groups@).push(views(cur@)) =~= before.push(Seq::<Seq<char>>::empty()));
        } else {
            let w = ws[i].clone();
            let ghost old_cur = views(cur@);
            cur.push(w);
            assert(views(cur@) =~= old_cur.push(wv[i as int]));
            assert(group_views(groups@).push(views(cur@)) =~= before.update(
                before.len() - 1,
                before.last().push(wv[i as int]),
            ));
        }
        i = i + 1;
    }
    assert(wv.take(ws@.len() as int) == wv);
    let ghost gbefore = group_views(groups@);
    let ghost cv = views(cur@);
    groups.push(cur);
    let ghost all = group_views(groups@);
    assert(all =~= gbefore.push(cv));
    assert(all == split_on(words(t@), and_word()));
    let mut r: Vec<Vec<Vec<char>>> = Vec::new();
    let mut j: usize = 0;
    while j < groups.len()
        invariant
            j <= groups@.len(),
            all == group_views(groups@),
            group_views(r@) == drop_empty(all.take(j as int)),
        decreases groups@.len() - j,
    {
        assert(all.take(j + 1).drop_last() == all.take(j as int));
        assert(all[j as int] == views(groups@[j as int]@));
        if groups[j].len() > 0 {
            let g = clone_words(&groups[j]);
            let ghost before = group_views(r@);
            r.push(g);
            assert(group_views(r@) =~= before.push(all[j as int]));
        }
        j = j + 1;
    }
    assert(all.take(groups@.len() as int) == all);
    r
}

/// The parts of a person's name.
#[derive(Debug, PartialEq, Eq)]
pub struct Person {
    /// The family name.
    pub name: String,
    /// The given name.
    pub given_name: String,
    /// A particle such as `von` before the family name.
    pub prefix: String,
    /// A suffix such as `Jr.`.
    pub suffix: String,
}

/// The mathematical value of a [`Person`].
pub struct PersonView {
    pub name: Seq<char>,
    pub given_name: Seq<char>,
    pub prefix: Seq<char>,
    pub suffix: Seq<char>,
}

impl View for Person {
    type V = PersonView;

    open spec fn view(&self) -> PersonView {
        PersonView { name: self.name@, given_name: self.given_name@, prefix: self.prefix@, suffix: self.suffix@ }
    }
}

/// Whether a word begins with a lower-case ASCII letter, as the particles
/// before a family name (`von`, `de la`) do.
pub open spec fn starts_lower(w: Seq<char>) -> bool {
    w.len() > 0 && 'a' <= w[0] && w[0] <= 'z'
}

/// The number of leading lower-case words, leaving at least one word.
pub open spec fn particle_count(ws: Seq<Seq<char>>) -> nat
    decreases ws.len(),
{
    if ws.len() > 1 && starts_lower(ws[0]) {
        1 + particle_count(ws.drop_first())
    } else {
        0
    }
}

/// The particle and the family name of the words `von Last`.
pub open spec fn split_particle(ws: Seq<Seq<char>>) -> (Seq<char>, Seq<char>) {
    let n = particle_count(ws) as int;
    (join(ws.take(n), seq![' ']), join(ws.skip(n), seq![' ']))
}

/// The position, from `i` on, of the first lower-case word before the last
/// word, or else of the last word.
pub open spec fn first_particle(ws: Seq<Seq<char>>, i: int) -> int
    decreases ws.len() - i,
{
    if 0 <= i < ws.len() - 1 && !starts_lower(ws[i]) {
        first_particle(ws, i + 1)
    } else {
        i
    }
}

/// The person named by a list of words: `von Family, Given`, `von Family,
/// Suffix, Given`, or `Given von Family`, where `von` stands for the
/// lower-case words before the family name.
pub open spec fn person_of(w: Seq<Seq<char>>) -> PersonView {
    let full = join(w, seq![' ']);
    if full.contains(',') {
        let parts = trim_all(split_on(full, ','));
        let family = split_particle(words(parts[0]));
        PersonView {
            name: family.1,
            given_name: if parts.len() == 2 {
                parts[1]
            } else if parts.len() >= 3 {
                parts[2]
            } else {
                Seq::empty()
            },
            prefix: family.0,
            suffix: if parts.len() >= 3 {
                parts[1]
            } else {
                Seq::empty()
            },
        }
    } else {
        let i = first_particle(w, 0);
        let family = split_particle(w.skip(i));
        PersonView { name: family.1, given_name: join(w.take(i), seq![' ']), prefix: family.0, suffix: Seq::empty() }
    }
}

/// The particle and family name of a person as written.
pub open spec fn family_text(p: PersonView) -> Seq<char> {
    if p.prefix.len() > 0 {
        p.prefix + seq![' '] + p.name
    } else {
        p.name
    }
}

/// How a person is written in a name list.
pub open spec fn person_text(p: PersonView) -> Seq<char> {
    if p.suffix.len() > 0 {
        family_text(p) + seq![',', ' '] + p.suffix + seq![',', ' '] + p.given_name
    } else if p.given_name.len() > 0 {
        family_text(p) + seq![',', ' '] + p.given_name
    } else {
        family_text(p)
    }
}

/// The separator of name lists.
pub open spec fn and_separator() -> Seq<char> {
    seq![' ', 'a', 'n', 'd', ' ']
}

/// Whether `s` holds `c`.
fn contains_char(s: &[char], c: char) -> (r: bool)
    ensures
        r == s@.contains(c),
{
    let mut i: usize = 0;
    while i < s.len()
        invariant
            i <= s@.len(),
            forall|j: int| 0 <= j < i ==> s@[j] != c,
        decreases s@.len() - i,
    {
        if s[i] == c {
            assert(s@[i as int] == c);
            return true;
        }
        i = i + 1;
    }
    false
}

/// Whether a word begins with a lower-case ASCII letter.
fn word_starts_lower(w: &Vec<char>) -> (r: bool)
    ensures
        r == starts_lower(w@),
{
    w.len() > 0 && 'a' <= w[0] && w[0] <= 'z'
}

/// The words from position `a` up to `b`.
fn words_between(ws: &Vec<Vec<char>>, a: usize, b: usize) -> (r: Vec<Vec<char>>)
    requires
        a <= b <= ws@.len(),
    ensures
        views(r@) == views(ws@).subrange(a as int, b as int),
{
    let mut r: Vec<Vec<char>> = Vec::new();
    let mut i = a;
    while i < b
        invariant
            a <= i <= b,
            b <= ws@.len(),
            views(r@) == views(ws@).subrange(a as int, i as int),
        decreases b - i,
    {
        let ghost before = views(r@);
        r.push(ws[i].clone());
        assert(views(r@) =~= before.push(ws@[i as int]@));
        assert(views(ws@).subrange(a as int, i + 1) =~= views(ws@).subrange(a as int, i as int).push(
            ws@[i as int]@,
        ));
        i = i + 1;
    }
    r
}

/// The particle and the family name of the words `von Last`.
fn particle_and_family(ws: &Vec<Vec<char>>) -> (r: (Vec<char>, Vec<char>))
    ensures
        (r.0@, r.1@) == split_particle(views(ws@)),
{
    let ghost v = views(ws@);
    let mut n: usize = 0;
    assert(v.skip(0) == v);
    while ws.len() - n > 1 && word_starts_lower(&ws[n])
        invariant
            n <= ws@.len(),
            v == views(ws@),
            particle_count(v) == n + particle_count(v.skip(n as int)),
        decreases ws@.len() - n,
    {
        assert(v.skip(n as int)[0] == ws@[n as int]@);
        assert(v.skip(n as int).drop_first() == v.skip(n + 1));
        n = n + 1;
    }
    assert(n < v.len() ==> v.skip(n as int)[0] == ws@[n as int]@);
    assert(particle_count(v.skip(n as int)) == 0);
    let space = vec![' '];
    assert(space@ == seq![' ']);
    let before = words_between(ws, 0, n);
    let after = words_between(ws, n, ws.len());
    assert(v.subrange(0, n as int) == v.take(n as int));
    assert(v.subrange(n as int, v.len() as int) == v.skip(n as int));
    (join_chars(&before, space.as_slice()), join_chars(&after, space.as_slice()))
}

/// The person named by a non-empty list of words.
fn person_from_words(w: &Vec<Vec<char>>) -> (r: Person)
    requires
        w@.len() > 0,
    ensures
        r@ == person_of(views(w@)),
{
    let space = vec![' '];
    assert(space@ == seq![' ']);
    let full = join_chars(w, space.as_slice());
    assert(full@ == join(views(w@), seq![' ']));
    if contains_char(full.as_slice(), ',') {
        let pieces = split_chars(full.as_slice(), ',');
        let parts = trim_pieces(&pieces);
        proof {
            crate::text::lemma_split_on_len(full@, ',');
            assert(views(pieces@).len() == pieces@.len());
            assert(views(parts@).len() == parts@.len());
            assert(views(parts@)[0] == parts@[0]@);
        }
        let family = particle_and_family(&words_of(parts[0].as_slice()));
        let given = if parts.len() == 2 {
            assert(views(parts@)[1] == parts@[1]@);
            string_of(parts[1].as_slice())
        } else if parts.len() >= 3 {
            assert(views(parts@)[2] == parts@[2]@);
            string_of(parts[2].as_slice())
        } else {
            String::new()
        };
        let suffix = if parts.len() >= 3 {
            assert(views(parts@)[1] == parts@[1]@);
            string_of(parts[1].as_slice())
        } else {
            String::new()
        };
        let r = Person {
            name: string_of(family.1.as_slice()),
            given_name: given,
            prefix: string_of(family.0.as_slice()),
            suffix,
        };
        assert(r@.name == person_of(views(w@)).name);
        assert(r@.given_name == person_of(views(w@)).given_name);
        assert(r@.prefix == person_of(views(w@)).prefix);
        assert(r@.suffix == person_of(views(w@)).suffix);
        r
    } else {
        let ghost v = views(w@);
        let mut i: usize = 0;
        while w.len() - i > 1 && !word_starts_lower(&w[i])
            invariant
                i < w@.len(),
                v == views(w@),
                first_particle(v, 0) == first_particle(v, i as int),
            decreases w@.len() - i,
        {
            assert(v[i as int] == w@[i as int]@);
            i = i + 1;
        }
        assert(i + 1 < w@.len() ==> v[i as int] == w@[i as int]@);
        assert(first_particle(v, i as int) == i);
        let given_words = words_between(w, 0, i);
        let rest = words_between(w, i, w.len());
        assert(v.subrange(0, i as int) == v.take(i as int));
        assert(v.subrange(i as int, v.len() as int) == v.skip(i as int));
        let family = particle_and_family(&rest);
        let given = string_of(join_chars(&given_words, space.as_slice()).as_slice());
        let r = Person {
            name: string_of(family.1.as_slice()),
            given_name: given,
            prefix: string_of(family.0.as_slice()),
            suffix: String::new(),
        };
        assert(r@.name == person_of(views(w@)).name);
        assert(r@.given_name == person_of(views(w@)).given_name);
        assert(r@.prefix == person_of(views(w@)).prefix);
        r
    }
}

/// The values of a list of persons.
pub open spec fn person_views(v: Seq<Person>) -> Seq<PersonView> {
    v.map_values(|p: Person| p@)
}

/// The persons named by the name groups.
pub open spec fn persons_of(groups: Seq<Seq<Seq<char>>>) -> Seq<PersonView> {
    groups.map_values(|g: Seq<Seq<char>>| person_of(g))
}

/// A name list is written as names separated by `and`.
impl Type for Vec<Person> {
    type Model = Seq<PersonView>;

    open spec fn model(&self) -> Seq<PersonView> {
        person_views(self@)
    }

    open spec fn spec_from_chunks(chunks: Seq<ChunkView>) -> Option<Seq<PersonView>> {
        Some(persons_of(name_groups(verbatim_text(chunks))))
    }

    open spec fn spec_to_chunks(m: Seq<PersonView>) -> Option<Seq<ChunkView>> {
        Some(seq![ChunkView::Normal(join(m.map_values(|p: PersonView| person_text(p)), and_separator()))])
    }

    fn from_chunks(chunks: &[Chunk]) -> (r: Result<Self, TypeError>) {
        let t = chunks_chars(chunks);
        let groups = groups_of(t.as_slice());
        let ghost gv = group_views(groups@);
        let mut r: Vec<Person> = Vec::new();
        let mut i: usize = 0;
        while i < groups.len()
            invariant
                i <= groups@.len(),
                gv == group_views(groups@),
                gv == name_groups(verbatim_text(chunks_view(chunks@))),
                person_views(r@) == persons_of(gv).take(i as int),
            decreases groups@.len() - i,
        {
            proof {
                assert(gv[i as int] == views(groups@[i as int]@));
                assert(gv[i as int].len() > 0) by {
                    lemma_drop_empty_nonempty(split_on(words(verbatim_text(chunks_view(chunks@))), and_word()));
                }
            }
            let p = person_from_words(&groups[i]);
            let ghost before = person_views(r@);
            r.push(p);
            assert(person_views(r@) =~= before.push(p@));
            assert(persons_of(gv).take(i + 1) =~= persons_of(gv).take(i as int).push(person_of(gv[i as int])));
            i = i + 1;
        }
        assert(persons_of(gv).take(groups@.len() as int) == persons_of(gv));
        Ok(r)
    }

    fn to_chunks(&self) -> (r: Result<Vec<Chunk>, TypeError>) {
        let mut texts: Vec<Vec<char>> = Vec::new();
        let ghost target = person_views(self@).map_values(|p: PersonView| person_text(p));
        let mut i: usize = 0;
        while i < self.len()
            invariant
                i <= self@.len(),
                target == person_views(self@).map_values(|p: PersonView| person_text(p)),
                views(texts@) == target.take(i as int),
            decreases self@.len() - i,
        {
            let p = &self[i];
            let mut t = chars_of(p.prefix.as_str());
            if t.len() > 0 {
                t.push(' ');
            }
            let name = chars_of(p.name.as_str());
            crate::text::append_chars(&mut t, name.as_slice());
            assert(t@ =~= family_text(self@[i as int]@));
            let suffix = chars_of(p.suffix.as_str());
            let given = chars_of(p.given_name.as_str());
            if suffix.len() > 0 {
                t.push(',');
                t.push(' ');
                crate::text::append_chars(&mut t, suffix.as_slice());
                t.push(',');
                t.push(' ');
                crate::text::append_chars(&mut t, given.as_slice());
            } else if given.len() > 0 {
                t.push(',');
                t.push(' ');
                crate::text::append_chars(&mut t, given.as_slice());
            }
            assert(t@ =~= person_text(self@[i as int]@));
            let ghost before = views(texts@);
            texts.push(t);
            assert(views(texts@) =~= before.push(target[i as int]));
            assert(target.take(i + 1) =~= target.take(i as int).push(target[i as int]));
            i = i + 1;
        }
        assert(target.take(self@.len() as int) == target);
        let sep = vec![' ', 'a', 'n', 'd', ' '];
        let joined = join_chars(&texts, sep.as_slice());
        assert(sep@ == and_separator());
        let v = vec![Chunk::Normal(string_of(joined.as_slice()))];
        assert(chunks_view(v@) =~= seq![ChunkView::Normal(join(target, and_separator()))]);
        Ok(v)
    }
}

/// Every member that `drop_empty` keeps is non-empty.
pub proof fn lemma_drop_empty_nonempty<A>(ss: Seq<Seq<A>>)
    ensures
        forall|i: int| 0 <= i < drop_empty(ss).len() ==> (#[trigger] drop_empty(ss)[i]).len() > 0,
    decreases ss.len(),
{
    if ss.len() > 0 {
        lemma_drop_empty_nonempty(ss.drop_last());
        let d = drop_empty(ss.drop_last());
        if ss.last().len() > 0 {
            assert(forall|i: int| 0 <= i < d.len() ==> d.push(ss.last())[i] == d[i]);
        }
    }
}


impl Clone for Person {
    fn clone(&self) -> (r: Self)
        ensures
            r@ == self@,
    {
        Person {
            name: self.name.clone(),
            given_name: self.given_name.clone(),
            prefix: self.prefix.clone(),
            suffix: self.suffix.clone(),
        }
    }
}

/// The page range written by one item of a page list: `N`, or `A-B`
/// with any number of hyphens and spaces between the numbers.
pub open spec fn page_range(p: Seq<char>) -> Option<(u32, u32)> {
    let parts = drop_empty(trim_all(split_on(p, '-')));
    if parts.len() == 1 {
        match number_in(parts[0], 0, 0xffff_ffff) {
            Some(n) => Some((n as u32, n as u32)),
            None => None,
        }
    } else if parts.len() == 2 {
        match (number_in(parts[0], 0, 0xffff_ffff), number_in(parts[1], 0, 0xffff_ffff)) {
            (Some(a), Some(b)) => Some((a as u32, b as u32)),
            _ => None,
        }
    } else {
        None
    }
}

/// The page ranges of a list of items, when each item is one.
pub open spec fn page_ranges(ps: Seq<Seq<char>>) -> Option<Seq<(u32, u32)>>
    decreases ps.len(),
{
    if ps.len() == 0 {
        Some(Seq::empty())
    } else {
        match (page_ranges(ps.drop_last()), page_range(ps.last())) {
            (Some(r), Some(x)) => Some(r.push(x)),
            _ => None,
        }
    }
}

/// How a page range is written.
pub open spec fn range_text(r: (u32, u32)) -> Seq<char> {
    if r.0 == r.1 {
        decimal(r.0 as nat)
    } else {
        decimal(r.0 as nat) + seq!['-'] + decimal(r.1 as nat)
    }
}

/// The bounds of a list of ranges.
pub open spec fn range_bounds(v: Seq<std::ops::Range<u32>>) -> Seq<(u32, u32)> {
    v.map_values(|r: std::ops::Range<u32>| (r.start, r.end))
}

/// Reads one page range.
fn read_page_range(p: &Vec<char>) -> (r: Option<(u32, u32)>)
    ensures
        r == page_range(p@),
{
    let pieces = split_chars(p.as_slice(), '-');
    let parts = drop_empty_pieces(trim_pieces(&pieces));
    assert(views(parts@).len() == parts@.len());
    if parts.len() == 1 {
        assert(views(parts@)[0] == parts@[0]@);
        match number_between(parts[0].as_slice(), 0, 0xffff_ffff) {
            Some(n) => Some((n as u32, n as u32)),
            None => None,
        }
    } else if parts.len() == 2 {
        assert(views(parts@)[0] == parts@[0]@);
        assert(views(parts@)[1] == parts@[1]@);
        let a = number_between(parts[0].as_slice(), 0, 0xffff_ffff);
        let b = number_between(parts[1].as_slice(), 0, 0xffff_ffff);
        match (a, b) {
            (Some(a), Some(b)) => Some((a as u32, b as u32)),
            _ => None,
        }
    } else {
        None
    }
}

/// A page list is written as ranges separated by commas.
impl Type for Vec<std::ops::Range<u32>> {
    type Model = Seq<(u32, u32)>;

    open spec fn model(&self) -> Seq<(u32, u32)> {
        range_bounds(self@)
    }

    open spec fn spec_from_chunks(chunks: Seq<ChunkView>) -> Option<Seq<(u32, u32)>> {
        page_ranges(comma_list(verbatim_text(chunks)))
    }

    open spec fn spec_to_chunks(m: Seq<(u32, u32)>) -> Option<Seq<ChunkView>> {
        Some(seq![ChunkView::Normal(join(m.map_values(|r: (u32, u32)| range_text(r)), seq![',', ' ']))])
    }

    fn from_chunks(chunks: &[Chunk]) -> (r: Result<Self, TypeError>) {
        let t = chunks_chars(chunks);
        let pieces = split_chars(t.as_slice(), ',');
        let items = drop_empty_pieces(trim_pieces(&pieces));
        let ghost iv = views(items@);
        assert(iv == comma_list(verbatim_text(chunks_view(chunks@))));
        let mut r: Vec<std::ops::Range<u32>> = Vec::new();
        let mut i: usize = 0;
        while i < items.len()
            invariant
                i <= items@.len(),
                iv == views(items@),
                iv == comma_list(verbatim_text(chunks_view(chunks@))),
                page_ranges(iv.take(i as int)) == Some(range_bounds(r@)),
            decreases items@.len() - i,
        {
            assert(iv.take(i + 1).drop_last() == iv.take(i as int));
            assert(iv[i as int] == items@[i as int]@);
            match read_page_range(&items[i]) {
                Some((a, b)) => {
                    let ghost before = range_bounds(r@);
                    r.push(a..b);
                    assert(range_bounds(r@) =~= before.push((a, b)));
                },
                None => {
                    proof {
                        assert(iv.take(i + 1).last() == iv[i as int]);
                        assert(page_ranges(iv.take(i + 1)) is None);
                        lemma_page_ranges_prefix(iv, i as int + 1);
                    }
                    return Err(TypeError);
                },
            }
            i = i + 1;
        }
        assert(iv.take(items@.len() as int) == iv);
        Ok(r)
    }

    fn to_chunks(&self) -> (r: Result<Vec<Chunk>, TypeError>) {
        let ghost target = range_bounds(self@).map_values(|r: (u32, u32)| range_text(r));
        let mut texts: Vec<Vec<char>> = Vec::new();
        let mut i: usize = 0;
        while i < self.len()
            invariant
                i <= self@.len(),
                target == range_bounds(self@).map_values(|r: (u32, u32)| range_text(r)),
                views(texts@) == target.take(i as int),
            decreases self@.len() - i,
        {
            let a = self[i].start;
            let b = self[i].end;
            let mut t = decimal_chars(a as u64);
            if a != b {
                t.push('-');
                let d = decimal_chars(b as u64);
                crate::text::append_chars(&mut t, d.as_slice());
            }
            assert(t@ =~= range_text((a, b)));
            let ghost before = views(texts@);
            texts.push(t);
            assert(views(texts@) =~= before.push(target[i as int]));
            assert(target.take(i + 1) =~= target.take(i as int).push(target[i as int]));
            i = i + 1;
        }
        assert(target.take(self@.len() as int) == target);
        let sep = vec![',', ' '];
        let joined = join_chars(&texts, sep.as_slice());
        let v = vec![Chunk::Normal(string_of(joined.as_slice()))];
        assert(chunks_view(v@) =~= seq![ChunkView::Normal(join(target, seq![',', ' ']))]);
        Ok(v)
    }
}

/// When an item cannot be read, neither can any list that starts with it.
proof fn lemma_page_ranges_prefix(ps: Seq<Seq<char>>, k: int)
    requires
        0 < k <= ps.len(),
        page_ranges(ps.take(k)) is None,
    ensures
        page_ranges(ps) is None,
    decreases ps.len() - k,
{
    if k == ps.len() {
        assert(ps.take(k) == ps);
    } else {
        assert(ps.take(k + 1).drop_last() == ps.take(k));
        lemma_page_ranges_prefix(ps, k + 1);
    }
}

/// The chunk lists of a list of names, each as one normal chunk.
pub open spec fn chunk_groups(groups: Seq<Seq<Seq<char>>>) -> Seq<Seq<ChunkView>> {
    groups.map_values(|g: Seq<Seq<char>>| seq![ChunkView::Normal(join(g, seq![' ']))])
}

/// Chunk lists written one after the other with ` and ` between them.
pub open spec fn and_joined(gs: Seq<Seq<ChunkView>>) -> Seq<ChunkView>
    decreases gs.len(),
{
    if gs.len() == 0 {
        Seq::empty()
    } else if gs.len() == 1 {
        gs[0]
    } else {
        and_joined(gs.drop_last()) + seq![ChunkView::Normal(and_separator())] + gs.last()
    }
}

/// The values of a list of chunk lists.
pub open spec fn chunk_lists_view(v: Seq<Vec<Chunk>>) -> Seq<Seq<ChunkView>> {
    v.map_values(|c: Vec<Chunk>| chunks_view(c@))
}

/// A list of names (publishers, organizations) is written as names
/// separated by `and`; each name is read as one normal chunk.
impl Type for Vec<Vec<Chunk>> {
    type Model = Seq<Seq<ChunkView>>;

    open spec fn model(&self) -> Seq<Seq<ChunkView>> {
        chunk_lists_view(self@)
    }

    open spec fn spec_from_chunks(chunks: Seq<ChunkView>) -> Option<Seq<Seq<ChunkView>>> {
        Some(chunk_groups(name_groups(verbatim_text(chunks))))
    }

    open spec fn spec_to_chunks(m: Seq<Seq<ChunkView>>) -> Option<Seq<ChunkView>> {
        Some(and_joined(m))
    }

    fn from_chunks(chunks: &[Chunk]) -> (r: Result<Self, TypeError>) {
        let t = chunks_chars(chunks);
        let groups = groups_of(t.as_slice());
        let ghost target = chunk_groups(group_views(groups@));
        let space = vec![' '];
        let mut r: Vec<Vec<Chunk>> = Vec::new();
        let mut i: usize = 0;
        while i < groups.len()
            invariant
                i <= groups@.len(),
                space@ == seq![' '],
                target == chunk_groups(group_views(groups@)),
                chunk_lists_view(r@) == target.take(i as int),
            decreases groups@.len() - i,
        {
            let joined = join_chars(&groups[i], space.as_slice());
            assert(group_views(groups@)[i as int] == views(groups@[i as int]@));
            let c = vec![Chunk::Normal(string_of(joined.as_slice()))];
            assert(chunks_view(c@) =~= target[i as int]);
            let ghost before = chunk_lists_view(r@);
            r.push(c);
            assert(chunk_lists_view(r@) =~= before.push(target[i as int]));
            assert(target.take(i + 1) =~= target.take(i as int).push(target[i as int]));
            i = i + 1;
        }
        assert(target.take(groups@.len() as int) == target);
        Ok(r)
    }

    fn to_chunks(&self) -> (r: Result<Vec<Chunk>, TypeError>) {
        let ghost m = chunk_lists_view(self@);
        let mut out: Vec<Chunk> = Vec::new();
        let mut i: usize = 0;
        while i < self.len()
            invariant
                i <= self@.len(),
                m == chunk_lists_view(self@),
                chunks_view(out@) == and_joined(m.take(i as int)),
            decreases self@.len() - i,
        {
            assert(m.take(i + 1).drop_last() == m.take(i as int));
            let ghost before = chunks_view(out@);
            if i > 0 {
                out.push(Chunk::Normal(string_of(vec![' ', 'a', 'n', 'd', ' '].as_slice())));
            }
            let ghost mid = chunks_view(out@);
            let mut j: usize = 0;
            while j < self[i].len()
                invariant
                    i < self@.len(),
                    j <= self@[i as int]@.len(),
                    chunks_view(out@) == mid + chunks_view(self@[i as int]@).take(j as int),
                decreases self@[i as int]@.len() - j,
            {
                let ghost before_j = chunks_view(out@);
                let c = self[i][j].clone();
                out.push(c);
                assert(chunks_view(out@) =~= before_j.push(self@[i as int]@[j as int]@));
                assert(chunks_view(self@[i as int]@).take(j + 1) =~= chunks_view(self@[i as int]@).take(j as int).push(
                    self@[i as int]@[j as int]@,
                ));
                assert(chunks_view(out@) =~= mid + chunks_view(self@[i as int]@).take(j + 1));
                j = j + 1;
            }
            assert(chunks_view(self@[i as int]@).take(j as int) == m[i as int]);
            if i == 0 {
                assert(m.take(1).len() == 1);
                assert(chunks_view(out@) =~= m[0]);
            } else {
                assert(chunks_view(out@) =~= before + seq![ChunkView::Normal(and_separator())] + m[i as int]);
            }
            i = i + 1;
        }
        assert(m.take(self@.len() as int) == m);
        Ok(out)
    }
}

} // verus!
