# biblatex

A library for BibLaTeX and BibTeX bibliographies: it reads `.bib` source
text into entries, looks entries up by cite key or alias, resolves
`crossref` and `xdata` dependencies, checks entries against the fields
their type asks for, and writes entries back as BibLaTeX or BibTeX.

Every function carries a contract. Verus proves all of them except the
contracts of three small wrappers in `src/text.rs` around std calls
(`str::to_lowercase`, `char::to_uppercase`, `String::push`), which it
takes on trust.

## Layout

- `src/lib.rs`: the bibliography (entries and the key dictionary),
  reference resolution, building a bibliography from raw entries.
- `src/parser.rs`: the `.bib` grammar, as spec functions and the reader
  that is proved to follow them.
- `src/raw.rs`: entries as read from a file, and abbreviation resolution.
- `src/entry.rs`: entries and their fields, verification against the
  requirements of an entry type, inheritance from parents, output.
- `src/fields.rs`: typed getters and setters for the named fields.
- `src/types.rs`: the values a field can be read as (numbers, dates,
  persons, page ranges, lists, ...), each with a reader and a writer.
- `src/mechanics.rs`: entry types and what each of them requires.
- `src/chunk.rs`: field values as normal and verbatim chunks.
- `src/assoc.rs`, `src/text.rs`: association lists and character helpers.
- `src/laws.rs`: properties that relate several operations, such as
  reading back what was written.
- `src/round_trip.rs`: BibLaTeX text written for entries reads back as
  the same entries.
- `src/name_lists.rs`: name lists written for persons or publishers read
  back as the same names.
