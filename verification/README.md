# ezsxf

A reader for SXF drawing exchange files in both of their forms: `P21`
(ISO-10303-21 exchange structure) and `SFC` (SXF feature blocks), with strict
and lenient modes. The library is written in Verus: every function of `src/`
carries a contract, and Verus proves the code against it.

## Layout

- `src/lexer.rs`, `src/parser.rs`: characters, tokens, values, records,
  entity instances and the sections of a file, with positions and warnings.
- `src/grammar.rs`: the grammar of a file as functions on characters; the
  reader's result is proved to be what these functions give.
- `src/features.rs`, `src/decode.rs`, `src/validate.rs`, `src/document.rs`:
  the typed SFC features and the checks on their values.
- `src/tables.rs`, `src/sfc_model.rs`, `src/containers.rs`,
  `src/resolution.rs`, `src/rules.rs`, `src/attribute.rs`, `src/codes.rs`:
  the resolved drawing model (code tables, sheet, composite figures,
  attribute attachments, composite curves), which features it holds where,
  and its rules.
- `src/header.rs`, `src/checks.rs`, `src/reader.rs`: the document checks,
  also stated over what the text reads to, and the entry points
  `parse_p21_text`, `parse_sfc_text` and `parse_from_bytes`.
- `src/encoding.rs`, `src/text.rs`, `src/number.rs`, `src/values.rs`: text
  decoding (UTF-8, Shift-JIS through `encoding_rs`), exact decimal numbers
  and SFC value lists.
- `app/`: the Python bindings (PyO3), which convert the library's values.
- `tests/`: tests on concrete documents.
