# pynokhwa

Cameras for Python, on top of the `nokhwa` capture crate. Several Python objects can share one
camera; a worker thread captures and decodes frames, and each object polls the latest one.

- `src/` is the library: which device a name stands for, the register of open cameras, the session
  that users and worker share, the worker's decisions, the decoding of uncompressed frames, formats
  and controls. All of it is verified with Verus. The calls into `nokhwa` and `image` that it makes
  stand behind functions marked `external_body`, whose doc comments say what is taken on trust.
- `app/` is the Python module around it: devices, threads, locks and Python classes. It also hands
  MJPEG frames, and frames outside the limits of the library's decoders, to the decoder of `nokhwa`,
  which can unwind on them.
- `tests/` runs the library with the real crates.

The capture backends for macOS and Windows are enabled in `Cargo.toml`. On Linux add the feature
`input-v4l` of `nokhwa`; building it needs libclang.
