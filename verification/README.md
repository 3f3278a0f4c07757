# wayland_scanner

Generates the client-side Rust bindings of a Wayland protocol: from a
`Protocol` (its interfaces, requests, events and enums) it writes the proxy
types, event enums, event dispatch code and request methods.

Layout:

- `src/protocol.rs` — the protocol model the generator reads.
- `src/client_spec.rs` — the exact text written for each part of a protocol.
- `src/client_gen.rs` — the generator, proved to write exactly that text.
- `src/accept.rs` — which protocols the generator can write.
- `src/doc.rs` — doc comments built from protocol descriptions.
- `src/names.rs`, `src/util.rs`, `src/text.rs` — identifiers, keywords and
  character-level helpers.
- `app/` — the entry point that writes the generated text to an
  `std::io::Write` sink.
