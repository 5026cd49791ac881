# swiftbeaverlodge

A desktop front end for the SwiftBeaver forensic file carver: it builds the
engine's command line from a scan configuration, follows the engine's JSON log
output, and browses the metadata a run leaves behind (Parquet, JSON Lines or
CSV).

The decisions of the program live in a library verified with Verus:

- `src/config.rs` – the scan configuration, its defaults, the file-type
  catalog and the validation of flag combinations.
- `src/scan/` – engine discovery and version checks, progress and log parsing,
  the command line, and the state of a scan as the UI sees it.
- `src/metadata/` – backend detection, the CSV record reader, decoding of
  carved-file and string-artefact rows, and summaries.
- `src/ui/` – the rules behind the configuration, progress and results
  panels (presets, run modes, hashing, filtering, redaction of errors).
- `src/devices.rs` – block devices from what `/sys/block` reports.
- `src/backend/` – the data and decisions of the older command backend.

`app/` is the egui program around the library: windows, file and process I/O,
the scan thread, and the serde copies of the metadata records.
