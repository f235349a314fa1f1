//! Verified register-level models and boot-planning logic for the
//! devices of a RISC-V / LoongArch full-system emulator.
pub mod bytes;
pub mod ds1338;
pub mod fdt;
pub mod fdt_ops;
pub mod goldfish_rtc;
pub mod gzip;
pub mod k230;
pub mod k230_boot;
pub mod k230_dtb;
pub mod k230_gzip_dma;
pub mod k230_pufs;
pub mod loongarch_boot;
pub mod loongarch_interrupt;
pub mod loongarch_iocsr;
pub mod loongarch_virt;
pub mod ls7a_rtc;
pub mod mips_cps;
pub mod misc;
pub mod mmio;
pub mod pl031;
pub mod pflash;
pub mod pl022;
pub mod pl050;
pub mod pl181;
pub mod ptimer;
pub mod ref_machine;
pub mod riscv_boot;
pub mod sbi;
pub mod sd;
pub mod sifive_pwm;
pub mod sifive_spi;
pub mod spi;
pub mod sensor;
pub mod sifive_e_aon;
pub mod sifive_u_otp;
pub mod sse_timer;
pub mod storage;
pub mod m25p80;
pub mod ssi_sd;
pub mod spi_device;
