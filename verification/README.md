# rsdns

A library for reading and writing DNS messages, verified with Verus.

It reads message headers, questions and resource records (with compressed domain names),
follows chains of aliases to the record set that answers a question, and writes queries.
Each public function states in its contract what it returns; the proofs cover the absence
of panics and overflows as well.

Layout of `src/`:

- `bytes`: read and write cursors over byte buffers, and their models;
- `names`: domain names (`Name`, `InlineName`), their validation, wire encoding and decoding;
- `records`: record types and classes, record data of each supported type, record sets and
  the `OPT` pseudo-record;
- `message`: header fields and codes, the message header, questions, readers of messages
  (`MessageReader`, `MessageIterator`, `Records`) and the query writer;
- `text`: decimal numbers in text, as used in the generic names of types and classes.

Laws of the library stand in `src/` as public proof functions, among them:
`lemma_name_write_read` (a written name reads back in its absolute form),
`lemma_query_write_read` (a written query reads back), `lemma_header_round_trip`, `lemma_opt_ttl_round_trip`, `lemma_opt_of_round_trip`, and the text
round trips of types, classes, operation codes and response codes, and
`lemma_eq_iff_same_lowercase` (names equal ignoring case have the same lower-case bytes, which is what `InlineName::hash` feeds to the hasher).
