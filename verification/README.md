# osv2osv

Turns the OSV count export of a Dutch election (a `;`-separated CSV file) back into the
EML_NL count document (XML), with a fixed version `2.23.6` comment and the election date
plus `T12:34:56.789` as `kr:CreationDateTime`; and searches, by brute force, the creation
version and time under which a document has a given SHA-256 hash.

The library is verified with Verus:

- `src/osv.rs` reads a contest from the rows of an export (`csv2contest`,
  `contest_from_rows`); its result is stated exactly by the spec function
  `contest_of_rows`.
- `src/eml.rs` writes the document (`contest2eml`): the markup is the spec function
  `eml_markup`, proved well nested, and written event by event with `xml-rs`.
- `src/search.rs` is the search (`contest2eml_find_sha`).
- `src/contest_laws.rs` states and proves what holds of every contest read from an
  export: its creation time, the order of its reporting units, and the shape of its votes.
- `src/document_laws.rs` states and proves what holds of every document's markup: one
  creation-time element, the only part that depends on the creation time, and counts that
  read only the votes of the lists and their candidates.
- `src/text.rs`, `src/model.rs` hold strings, numbers and the data model; `csv_input`,
  `dates`, `letters`, `digest` and `xml_out` hold the trusted contracts of the outside
  crates (`csv`, `chrono`, `regex`, `rust-crypto`, `xml-rs`).

`app/main.rs` is the command line program: it reads the export from standard input and
prints the document.
