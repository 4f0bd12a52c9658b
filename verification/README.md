# genvm

The decision logic of GenVM, a virtual machine that runs intelligent contracts, written in
Verus with its behaviour stated in contracts and proved.

- `src/` is the verified library:
  - contracts' code and runners: `ustar` (tar archives), `runner` (runner ids, caches,
    locations), `actions` (a runner's initialisation actions), `vm` (run results, code to
    archive), `errors`, `host`;
  - the guest interface: `sdk` (what `gl_call` may do under a configuration, nested runs,
    balances, message data), `calldata`, `python_ext` (argument checks of the Python
    extension);
  - the modules: `interfaces`, `common`, `llm`, `llm_request`, `llm_default`, `llm_funcs`
    (requests to and answers of language-model services), `web`;
  - the wasm passes: `softfloat`, `wasm_pass`;
  - shared pieces: `str_map` (a string-keyed map in key order), `decode` (UTF-8 decoding),
    `text`, `exe`.
- `tests/` runs the library on concrete values.
- `app/` is the command-line driver of the two wasm passes, which walks binaries with
  `wasmparser` and `wasm_encoder` and takes its decisions from the library.
