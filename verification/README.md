# tuff-radical

A verified core for the TUFF-RADICAL kernel prototype and its distro helper tools.

`src/` is the library, checked by Verus:

- `compression/` — the Snappy block format (encoder, decoder, and the round-trip law),
  the `Compressor` backends and the single-backend block pool; `zram` holds the two-backend
  pool (Snappy and LZ4 through `lz4_flex`).
- `memory` — the firmware memory map, the heap gathered from the conventional regions and
  the physical page allocator that walks what is left.
- `arch/x86_64/` — CPUID feature detection, SIMD control bits, ACPI/MADT parsing and the
  local APIC, interrupt vectors and the tick/sleeper state, page-table entries whose
  protection follows each section (code, read-only data, data, heap, device memory), syscall and
  ring-3 entry values.
- `drivers/` — PCI configuration decoding, the serial console, the GPU command ring and the
  legacy VirtIO block and GPU devices; `virtio_blk` is the fixed-queue block driver.
- `task/` — the executor's ready queue (a `crossbeam_queue::SegQueue`) and the telemetry
  heartbeat; `boot` holds the kernel's start-up decisions; `installer` the disk probe.
- `distro`, `release`, `text` — package lists, the Vulkan probe and state file, release
  checksums (`sha2`) and text building.

`app/` is the unverified shell: the distro tools' command line (`clap`, `serde_json`,
`time`, files and processes) and the kernel's port I/O, register access, interrupt stubs,
UEFI hand-off and async tasks. `tests/` exercises the library.
