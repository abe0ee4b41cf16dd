# daisy_nam

The core of a librarian for Neural Amp Modeler captures on a Daisy-based
pedal: it keeps a library of models, impulse responses and presets, packs
them into the pedal's QSPI data image, and talks to tone3000 to find and
download models.

- `src/` is the verified library (Verus). `image_builder` lays out the
  data image and `image_laws` proves what a reader finds in it; `presets`,
  `library`, `store`, `wav`, `flash`, `discover` and `tone3000` hold the
  bookkeeping, the image assembly, the sign-in flow and the catalogue
  requests; `text` and `le_bytes` are small helpers.
- `app/` is the unverified shell around it: JSON files, WAV decoding and
  mixing, HTTP, and the converter and DFU tools.
- `tests/` exercise the library on concrete values.
