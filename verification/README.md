# jxl_wgpu_decode

Verified planning, admission and validation for a GPU-only JPEG XL decoder.

The library decides everything that a GPU decode needs decided on the host: which streams and
frames are accepted, how buffers are laid out and bounded, in which order work is submitted, what
a mapped status record must say, and how an original JPEG file is framed around its entropy-coded
scans. No pixel, coefficient or entropy symbol is decoded on the host.

- `src/` is the library. Every executable function has a contract, proved by Verus. Three wrappers
  are believed instead: `read_words` and `word_bytes` (bytemuck) and `try_reserve_exact` (std).
  What an engine answers is up to the engine.
  - `session`: bounded, in-order frame sessions with intermediate images, and one-target seeks.
  - `profile`: recognition of the lossless Modular profile.
  - `progressive_dc`: geometry and bindings of LF dependency planes.
  - `vardct_artifact`: layouts of the artifact that GPU passes share, and its status record.
  - `vardct_engine`: planning, staged submission and validation of one VarDCT frame, and
    reconstruction of original JPEG bytes.
  - `pod`: the byte records that cross the GPU boundary.
- `tests/` runs the library on concrete values.
- `app/` is ordinary Rust around it: devices, queues, mappings, futures and floating point.
