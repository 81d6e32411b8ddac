# llm_toolkit

The backend logic of a desktop tool that finds, downloads and runs local
GGUF language models, written in Verus and proved against its contracts.

## Layout

- `src/` — the verified library.
  - `registry.rs` — one download slot per model file, cancellation flags.
  - `download.rs` — a download as a state machine: preflight, disk-space
    check, resume via the `.part` file and `pending_resume.json`, progress,
    periodic manifest saves, validation (SHA256 → ETag → size → GGUF magic).
  - `resume.rs` — the resume manifest and its upsert/remove operations.
  - `recovery.rs` — the startup scan for interrupted downloads.
  - `space.rs`, `disks.rs`, `paths.rs` — required space (`× 1.10 + 500 MiB`,
    in binary64 arithmetic), the disk that holds a directory, and paths
    compared and walked upward component by component (the components come
    from the platform's own `Path::components`, so Windows drives and shares
    are read as Windows reads them).
  - `binary.rs` — the pinned llama-server release: asset per platform,
    status, archive entry selection, and the installation as a state machine.
  - `digest.rs` — SHA256 through `sha2`, as lowercase hex through `hex`.
  - `hardware.rs`, `catalog.rs`, `text.rs` — small helpers and vocabulary.
  - `laws.rs` — properties that span several operations.
- `tests/` — tests of the library.
- `app/` — the I/O around it: filesystem, HTTP (`reqwest`), disks and CPU
  (`sysinfo`), lock files (`fs2`), zip extraction, JSON and TOML.
