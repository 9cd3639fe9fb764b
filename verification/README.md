# macro_circom

Expands the macros of a `.light` file into circom circuits: check-utxo
declarations become signals, components and comparison checks, the light
transaction template gets the protocol's parameters, and a main component
instantiates it.

The library in `src/` is verified with Verus:

- `text` — character sequences: trimming, lines, words, joining, searching,
  decimal numbers (written and read as `u64::from_str` reads them).
- `header` — the grammar of `#[checkInUtxo(name, count, instruction)]` headers.
- `check_utxo` — check-utxo declarations read line by line and expanded piece
  by piece; the extraction of a bracketed block from a source text.
- `code_gen` — the template-based expansion (`check_utxo_code`), the light
  transaction circuit (`circom_code`) and the main circuit (`circom_main_code`).
- `json` — JSON strings and arrays, for the data that fills the template.
- `parser` — compiler version checks, version numbers, the search for an
  included file among library directories.
- `cli` — which paths the command accepts and where it writes.
- `casing` — identifier case conversion, done by the `heck` crate.

The text of the connecting-hash verifier circuit is not part of this
library: `code_gen::connecting_hash_circom_template::CONNECTING_HASH_VERIFIER_TWO`
is empty, so light transaction templates get no connecting-hash verifier.

`app/main.rs` is the command line program: argument handling and file
reading and writing around the library.
