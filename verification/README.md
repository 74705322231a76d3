# yewoh

A library for Ultima Online servers and tools, written in Verus: every
function in `src/` carries a contract that Verus proves.

## Layout

- `src/protocol/` — the packets of the game protocol, each with a decoder
  and an encoder whose contracts give the exact bytes, and a proof that
  decoding what was encoded gives the packet back where the format allows
  it; `any.rs` dispatches on the packet kind; `stream.rs` frames packets on
  a stream; `compression/` is the Huffman coding of server output;
  `encryption/` holds the login and game stream ciphers; `client_version.rs`
  reads and compares client versions.
- `src/assets/` — the game data files: UOP archives, MUL files, tile data,
  maps, statics and multis.
- `src/fabricator/` — fabricator documents: a text grammar with a
  recursive-descent parser proved against a functional specification of
  the grammar, the listing and graph forms of a document, the names a
  document binds, and a proof that every parsed document is well formed.
- `src/source.rs` — positions in source text for error messages.
- `src/zlib.rs` — the zlib calls the assets and packets need.
- `app/` — ordinary Rust around the library: sockets, files, serde forms
  of some types, and float values of document numbers.
- `tests/` — tests of the library on concrete inputs.

Calls into outside crates (`flate2`, `md5`, `twofish`, `smallvec`,
`encode_unicode`) go through small trusted wrappers whose contracts state
what those crates document; everything around them is verified.

The game cipher's Twofish pass uses the published `twofish` crate for its
block cipher. It stands in for a Twofish implementation of the project's
own that this source tree does not include; nothing here shows that the
two agree bit for bit. The Blowfish pass that clients older than 2.0.4
also apply is not part of this tree either, so `GameEncryption::new` and
`Encryption::new` give no cipher for those clients' game connections.

What a fabricator document becomes inside a game engine is left out: the
conversion of a parsed document into a prefab, `Fabricator::fabricate` and
the rest of the fabricator work on Bevy's reflection registry
(`TypeRegistry`, `TypeInfo`) and on the values it builds, and Bevy is not a
dependency of this library. The part of that conversion that works on the
document alone, binding each name once and refusing a name bound twice,
stands in `src/fabricator/names.rs` as `Document::resolve_names`. The table
of a document's parameters stays out with the rest, as it pairs each
parameter with a type identifier from the registry.
