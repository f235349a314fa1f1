# machina_hw

Verified device models and boot planning for the RISC-V and LoongArch64
machines of a full-system emulator, written in Verus.

- `src/` is the library. Its functions carry `requires` / `ensures`
  contracts that Verus proves, except three small wrappers around
  outside calls (gzip, SHA-256, UTF-8 decoding) whose contracts are
  trusted. It holds the register-level
  models of the devices (RTCs, timers, watchdog, PL0xx peripherals, SD
  card and bus, parallel flash, SPI controllers and bus, the M25P80
  family of SPI NOR flash, the SD card behind an SPI bridge, sensors,
  OTP, PUFS),
  the block and flash storage media over a `BlockBackend`, the SBI call
  dispatcher, the device-tree writer, and the boot planners of the
  RISC-V reference board, the K230 board and the LoongArch `virt` board.
  An SPI bus carries devices of one type; `SpiDevice` puts the flash
  and the SD bridge under one type so that a bus can carry both.
- `tests/` runs the library on concrete values.
- `app/` is the ordinary Rust around the library: file I/O, guest
  memory and fw_cfg sinks, the random seed, the loop that carries
  out an SBI call, the file and guest-memory side of the RISC-V
  reference board's boot, and the guest-memory side of the K230 gzip
  and PUFS DMA runs.

The only outside crates the library calls are `flate2` (gzip
decompression) and `sha2` (SHA-256), each behind one wrapper whose
contract states what the call returns.
