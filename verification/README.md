# backuptool

A parallel, incremental backup tool with selectable encryption
(none, AES-256-GCM, ChaCha20-Poly1305; keys from a password with Argon2id),
whose decisions are verified with Verus.

## Layout

- `src/` — the library, verified: cipher selection, encryption round trips
  and key derivation; chunked encryption (1 MiB records bound to their
  position, with whole-file blobs of earlier sets still readable); the
  manifest and its key-ordered file map; the incremental diff and backup
  plan (files, links and directories); keys of a run and of a restore;
  checks of restored contents; which manifest keys may be restored and in
  what order directories get their times back; exclusion
  patterns and which scanned paths they leave out; which of overlapping
  sources' paths are kept; the course of an evacuation (nothing
  is deleted unless every file was copied and verified); partition reports
  and secure-erase advice; clone and factory-reset command lines; discovery of
  sources and destinations from what the system reports; database dump
  command lines; applications that hold files open; volume shadow copy
  planning; translation catalogs; the log lines of database dumps.
- `app/` — the command line program around it: argument parsing, reading and
  writing files in parallel (chunk by chunk for encrypted sets), walking
  directories, running commands, asking the operating system, and the
  manifest's JSON form. Around the library's answers it counts, logs,
  reports progress and removes directories that an evacuation emptied.
- The map of relative paths in `src/textmap.rs` is a sorted vector of its own
  rather than std's `BTreeMap`: with string keys, `BTreeMap`'s specification
  in vstd gives no usable facts about lookups, while the sorted vector's
  contracts state exactly the key order that `BTreeMap` iterates in.
- `tests/` — tests of the library on concrete values.
