# miden_frontend

The WebAssembly front end of a compiler for the Miden VM, verified with Verus,
together with the parts of the guest SDK that move values between bytes and
field elements.

- `src/wasm/` turns the bytes of a WebAssembly module into a
  `ModuleTranslation`. `module_env` is the entry: `ModuleEnvironment::translate`
  reads, validates and translates a module; `try_translate` does so for inputs
  of which it is not known whether the translation has a result. `warning` has
  what a caller should hear about although it is no error.
  - `payload` holds the payloads of a module in plain values. `sections`,
    `elements`, `names`, `translation` and `debuginfo` say, section by section,
    what a payload comes to, and do it.
  - `parser`, `bodies`, `maps` and part of `debuginfo` are the boundary to
    `wasmparser`, `cranelift_entity` and `gimli`: what is believed of these
    crates is stated there and nowhere else. `order` has what the parser
    promises of the order of payloads, `offsets` what it asks of the lengths
    that an input announces. `raw` and
    `reader` turn what the crates hand out into plain values.
  - `laws`, `escape_laws`, `reference_laws`, `debug_laws` and `run_laws` state
    what holds at every step and of every module.
- `src/sdk/` has field elements, the newtypes of the transaction kernel, and the
  packing of bytes around the BLAKE3 procedures of the VM.
- `app/` logs the warnings of a translation, links the guest's BLAKE3 functions
  to the procedures of the VM, and runs programs of the VM.

A step that no translation may take, such as an import of a memory, has no
result (`Outcome::Halts`). `translate` is only defined on modules that do not
lead there.
