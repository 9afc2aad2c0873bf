# disk_indexer

A local index of files across many disks: file metadata, sampling
fingerprints and trusted full BLAKE3 hashes live in SQLite, so earlier copies
can be found while a disk is offline and byte-identical files can be grouped.
It helps people sort out long-lived duplicate backups; it never deletes,
moves or modifies a scanned file.

## Layout

- `src/` is the verified library. Every decision the tool makes is stated as
  a contract and proved with Verus:
  - `volume`, `store`, `ids`, `plist`: volume identity, markers, conflicts,
    relinking and the rows written for volumes, devices and file copies;
  - `scanner`, `glob`: what a scan walks, how its counters and status evolve,
    when files may be marked missing, and what each hashing attempt records;
  - `hashing`: sampled ranges, the sampling fingerprint and streamed full hashes;
  - `duplicate`, `lookup`, `report`, `verify`: duplicate groups, lookups,
    read-only cleanup plans and their re-verification;
  - `render`, `cli`, `protocol`, `util`: texts, CSV rows, command arguments,
    the JSON Lines task protocol, configuration and sizes;
  - `laws`: properties that span operations.
- `app/` is the command-line program around it: argument parsing, SQLite,
  the filesystem walk, reading files, and printing.
- `tests/` exercise the library on concrete values.
