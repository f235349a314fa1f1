use machina_hw::pflash::{
    bytes_to_value, cfi01_table, cfi01_writeblock_size, cfi02_table, mask_width, trailing_log2,
    trailing_log2_u64, validate_cfi01, validate_cfi02, PFlashCfi01Config, PFlashCfi02Config,
    PFlashConfigError,
};

#[test]
fn pflash_defaults_and_validation() {
    let c1 = PFlashCfi01Config::default();
    assert_eq!(c1.bank_width, 1);
    assert_eq!(c1.sector_len, 4096);
    assert_eq!(validate_cfi01(&c1), Ok(()));
    assert_eq!(validate_cfi01(&PFlashCfi01Config { bank_width: 3, ..c1 }), Err(PFlashConfigError::BankWidth));
    assert_eq!(validate_cfi01(&PFlashCfi01Config { sector_len: 0, ..c1 }), Err(PFlashConfigError::SectorLenZero));
    assert_eq!(validate_cfi01(&PFlashCfi01Config { num_blocks: 0, ..c1 }), Err(PFlashConfigError::NumBlocksZero));
    assert_eq!(
        validate_cfi01(&PFlashCfi01Config { bank_width: 2, device_width: 4, ..c1 }),
        Err(PFlashConfigError::DeviceWidth)
    );
    assert_eq!(
        validate_cfi01(&PFlashCfi01Config { bank_width: 4, device_width: 2, max_device_width: 1, ..c1 }),
        Err(PFlashConfigError::MaxDeviceWidth)
    );
    let c2 = PFlashCfi02Config::default();
    assert_eq!(c2.ident2, 0xffff);
    let (acc, chip) = validate_cfi02(PFlashCfi02Config { unlock_addr0: 0xf555, ..c2 }).expect("valid");
    assert_eq!(acc.unlock_addr0, 0x555);
    assert_eq!(acc.unlock_addr1, 0x2aa);
    assert_eq!(chip, 4096);
    assert_eq!(validate_cfi02(PFlashCfi02Config { width: 3, ..c2 }).err(), Some(PFlashConfigError::Width));
    assert_eq!(
        validate_cfi02(PFlashCfi02Config { sector_len: u64::MAX, num_blocks: 2, ..c2 }).err(),
        Some(PFlashConfigError::Overflow)
    );
}

#[test]
fn pflash_cfi_tables() {
    let c1 = PFlashCfi01Config { num_blocks: 0x102, sector_len: 0x2_0000, bank_width: 4, device_width: 2, ..PFlashCfi01Config::default() };
    let t = cfi01_table(&c1);
    assert_eq!(&t[0x10..0x13], b"QRY");
    assert_eq!(t[0x27], 17);
    assert_eq!(t[0x2a], 0x0b);
    assert_eq!(t[0x2d], 0x01);
    assert_eq!(t[0x2e], 0x01);
    assert_eq!(t[0x2f], 0x00);
    assert_eq!(t[0x30], 0x01);
    assert_eq!(&t[0x31..0x36], b"PRI10");
    assert_eq!(cfi01_writeblock_size(&c1), 4096);
    assert_eq!(cfi01_writeblock_size(&PFlashCfi01Config::default()), 256);
    let c2 = PFlashCfi02Config::default();
    let t2 = cfi02_table(&c2, 4096);
    assert_eq!(&t2[0x10..0x13], b"QRY");
    assert_eq!(t2[0x27], 12);
    assert_eq!(t2[0x2f], 0x10);
    assert_eq!(&t2[0x40..0x45], b"PRI10");
    assert_eq!(t2[0x46], 2);
}

#[test]
fn pflash_width_helpers() {
    assert_eq!(bytes_to_value(&[1, 2], false), 0x0201);
    assert_eq!(bytes_to_value(&[1, 2], true), 0x0102);
    assert_eq!(bytes_to_value(&[0xff; 8], false), u64::MAX);
    assert_eq!(mask_width(0x1234, 1), 0x34);
    assert_eq!(mask_width(0x1234, 8), 0x1234);
    assert_eq!(trailing_log2(8), 3);
    assert_eq!(trailing_log2(0), 8);
    assert_eq!(trailing_log2_u64(0), 64);
    assert_eq!(trailing_log2_u64(1 << 40), 40);
}

fn cfi01(config: PFlashCfi01Config) -> machina_hw::pflash::PFlashCfi01<machina_hw::storage::MemBackend> {
    let flash = machina_hw::storage::FlashMedia::new(machina_hw::storage::MemBackend::new(vec![0xff; 8192], false), 4096);
    machina_hw::pflash::PFlashCfi01::new(flash, config).ok().expect("valid config")
}

#[test]
fn cfi01_program_erase_and_status() {
    let mut f = cfi01(PFlashCfi01Config { num_blocks: 2, ..PFlashCfi01Config::default() });
    assert_eq!(f.do_read(0x10, 1), 0xff);
    f.do_write(0, 1, 0x40);
    f.do_write(0x10, 1, 0x12);
    assert_eq!(f.do_read(0x10, 1), 0x80, "status is read after a program");
    f.do_write(0, 1, 0xff);
    assert_eq!(f.do_read(0x10, 1), 0x12);
    f.do_write(0, 1, 0x20);
    f.do_write(0x100, 1, 0xd0);
    f.do_write(0, 1, 0xff);
    assert_eq!(f.do_read(0x10, 1), 0xff, "sector erased");
    f.do_write(0, 1, 0x70);
    assert_eq!(f.do_read(0, 4), 0x0080_0080);
}

#[test]
fn cfi01_buffered_program() {
    let mut f = cfi01(PFlashCfi01Config { num_blocks: 2, ..PFlashCfi01Config::default() });
    f.do_write(0x200, 1, 0xe8);
    f.do_write(0x200, 1, 1);
    f.do_write(0x200, 1, 0xa5);
    f.do_write(0x201, 1, 0x5a);
    f.do_write(0x200, 1, 0xd0);
    f.do_write(0, 1, 0xff);
    assert_eq!(f.do_read(0x200, 2), 0x5aa5);
    assert_eq!(f.do_read(0x202, 1), 0xff);
}

#[test]
fn cfi01_id_and_query() {
    let mut f = cfi01(PFlashCfi01Config { ident0: 0x89, ident1: 0x18, ..PFlashCfi01Config::default() });
    f.do_write(0, 1, 0x90);
    assert_eq!(f.do_read(0, 2), 0x8918);
    assert_eq!(f.do_read(0, 1), 0x18);
    f.do_write(0, 1, 0x98);
    assert_eq!(f.do_read(0x10, 1), b'Q' as u64);
    assert_eq!(f.do_read(0x11, 1), b'R' as u64);
    f.do_write(0, 1, 0xf0);
    assert_eq!(f.do_read(0, 1), 0xff);
    let mut w = cfi01(PFlashCfi01Config { bank_width: 2, device_width: 1, ..PFlashCfi01Config::default() });
    w.do_write(0, 2, 0x98);
    assert_eq!(w.do_read(0x20, 2), 0x5151);
}

fn cfi02(config: PFlashCfi02Config) -> machina_hw::pflash::PFlashCfi02<machina_hw::storage::MemBackend> {
    let flash = machina_hw::storage::FlashMedia::new(machina_hw::storage::MemBackend::new(vec![0xff; 8192], false), 4096);
    machina_hw::pflash::PFlashCfi02::new(flash, config).ok().expect("valid config")
}

fn unlock(f: &mut machina_hw::pflash::PFlashCfi02<machina_hw::storage::MemBackend>, cmd: u64) {
    f.do_write(0x555, 1, 0xaa);
    f.do_write(0x2aa, 1, 0x55);
    f.do_write(0x555, 1, cmd);
}

#[test]
fn cfi02_program_and_sector_erase() {
    let mut f = cfi02(PFlashCfi02Config { num_blocks: 2, ..PFlashCfi02Config::default() });
    unlock(&mut f, 0xa0);
    f.do_write(0x10, 1, 0x12);
    assert_eq!(f.do_read(0x10, 1), 0x12);
    assert_eq!(f.state.wcycle, 0);
    unlock(&mut f, 0x80);
    f.do_write(0x555, 1, 0xaa);
    f.do_write(0x2aa, 1, 0x55);
    f.do_write(0x10, 1, 0x30);
    assert_eq!(f.state.cmd, 0x30);
    assert_eq!(f.erasing_ranges, vec![(0, 4096)]);
    let s1 = f.do_read(0x10, 1);
    let s2 = f.do_read(0x10, 1);
    assert_eq!(s1 ^ s2, 0x44, "DQ6 and DQ2 toggle while erasing");
    f.expire_timer();
    assert_eq!(f.state.cmd, 0);
    assert_eq!(f.do_read(0x10, 1), 0xff);
}

#[test]
fn cfi02_id_and_query() {
    let mut f = cfi02(PFlashCfi02Config { ident0: 0x01, ident1: 0x7e, ..PFlashCfi02Config::default() });
    unlock(&mut f, 0x90);
    assert_eq!(f.do_read(0, 1), 0x01);
    assert_eq!(f.do_read(1, 1), 0x7e);
    assert_eq!(f.do_read(0, 2), 0x7e01);
    f.do_write(0, 1, 0xf0);
    assert_eq!(f.do_read(0, 1), 0xff);
    f.do_write(0x55, 1, 0x98);
    assert_eq!(f.do_read(0x10, 1), b'Q' as u64);
    assert_eq!(f.do_read(0x10, 2), 0x5251);
    f.do_write(0, 1, 0xf0);
    assert_eq!(f.state.wcycle, 0);
}
