# ufc — a verified file-conversion engine

`ufc` is the engine of a file converter: it identifies formats by their magic bytes
and extensions, routes a conversion to the best decoder and encoder plugins, keeps
the conversion queue and its history, and defines the intermediate representations
(images, audio, documents, archives, meshes, tables, vector graphics, video) that
sit between decoders and encoders. Its behaviour is stated in Verus contracts and
proved.

## Layout

- `src/` — the verified library.
  - `detector`, `builtin_formats`, `format`, `format_names`: formats and their detection.
  - `router`, `conversions`, `catalog`, `registry`: plugin manifests, conversion paths,
    the lists of supported formats and conversions.
  - `queue`, `queue_laws`, `state`, `temp_manager`, `config`: the queue and what persists.
  - `orchestrator`: the decisions of a conversion run (what starts next, how a
    conversion is planned, how its outcome is recorded); the caller does the I/O.
  - `integrity`, `sandbox`, `progress`, `errors`, `desktop`: checksums, resource
    limits, cancellation, errors and the records the desktop front end exchanges.
  - `ir/`: the intermediate representations, their memory estimates and validation.
  - `laws`: properties that span several operations.
- `tests/` — tests of the library on concrete values.
- `app/` — the command-line program around the library: argument handling, file
  and state I/O, the plugin interface and the loop that runs conversions.
