use machina_hw::ds1338::{days_to_date, from_bcd, is_leap, to_bcd};
use machina_hw::sifive_e_aon::SiFiveEAon;
use machina_hw::storage::{BlockBackend, BlockMedia, FlashMedia, MemBackend, StorageError};

#[test]
fn flash_program_and_erase() {
    let mut f = FlashMedia::new(MemBackend::new(vec![0xff; 16], false), 8);
    let mut b = [0u8; 1];
    assert_eq!(f.program(0, &[0x0f]), Ok(()));
    f.read(0, &mut b).unwrap();
    assert_eq!(b[0], 0x0f);
    assert_eq!(f.program(0, &[0xf0]), Ok(()));
    f.read(0, &mut b).unwrap();
    assert_eq!(b[0], 0x00);
    assert_eq!(f.erase(0, 8), Ok(()));
    f.read(0, &mut b).unwrap();
    assert_eq!(b[0], 0xff);
    assert!(matches!(f.erase(1, 8), Err(StorageError::Backend(_))));
    assert_eq!(f.program(15, &[0, 0]), Err(StorageError::OutOfRange));
    let mut ro = FlashMedia::new(MemBackend::new(vec![0xff; 16], false), 8).with_readonly(true);
    assert_eq!(ro.program(0, &[0]), Err(StorageError::ReadOnly));
}

#[test]
fn bcd_and_calendar() {
    for v in 0..100u8 {
        assert_eq!(from_bcd(to_bcd(v)), v);
    }
    assert_eq!(to_bcd(59), 0x59);
    assert!(is_leap(2000));
    assert!(!is_leap(1900));
    assert!(is_leap(2024));
    assert_eq!(days_to_date(0), (1970, 1, 1));
    assert_eq!(days_to_date(19723), (2024, 1, 1));
    assert_eq!(days_to_date(19782), (2024, 2, 29));
}

#[test]
fn storage_error_messages_match_display_text() {
    assert_eq!(StorageError::ReadOnly.message(), "backend is read-only");
    assert_eq!(
        StorageError::ShortIO { expected: 512, actual: 3 }.message(),
        "short I/O: expected 512 bytes, got 3"
    );
    assert_eq!(
        StorageError::ShortIO { expected: 0, actual: 10 }.message(),
        "short I/O: expected 0 bytes, got 10"
    );
    assert_eq!(StorageError::Backend("disk gone".to_string()).message(), "disk gone");
}

#[test]
fn mem_backend_read_stops_at_end_and_past_end_reads_nothing() {
    let m = MemBackend::new(vec![1, 2, 3, 4], false);
    let mut buf = [9u8; 3];
    assert_eq!(m.read(2, &mut buf), Ok(2));
    assert_eq!(buf, [3, 4, 9]);
    assert_eq!(m.read(10, &mut buf), Ok(0));
    assert_eq!(m.flush(), Ok(()));
}

#[test]
fn block_media_reads_and_errors_on_memory() {
    let m = BlockMedia::new(MemBackend::new(vec![7u8; 1024], false), 512);
    assert_eq!(
        m.read_block(0, &mut [0u8; 100]),
        Err(StorageError::ShortIO { expected: 512, actual: 100 })
    );
    assert_eq!(m.read_block(2, &mut [0u8; 512]), Err(StorageError::OutOfRange));
    assert_eq!(m.read_block(u64::MAX, &mut [0u8; 512]), Err(StorageError::Overflow));
    let mut buf = [0u8; 512];
    assert_eq!(m.read_block(1, &mut buf), Ok(()));
    assert_eq!(buf, [7u8; 512]);
}

#[test]
fn block_media_write_then_read_back() {
    let mut m = BlockMedia::new(MemBackend::new(vec![0u8; 2048], false), 512);
    let d = [0x5Au8; 512];
    assert_eq!(m.write_block(2, &d), Ok(()));
    let mut buf = [0u8; 512];
    assert_eq!(m.read_block(2, &mut buf), Ok(()));
    assert_eq!(buf, d);
    assert_eq!(m.read_block(1, &mut buf), Ok(()));
    assert_eq!(buf, [0u8; 512]);
    assert_eq!(m.read_blocks(0, &mut [0u8; 700]), Err(StorageError::ShortIO { expected: 1024, actual: 700 }));
    assert_eq!(m.read_blocks(2, &mut [0u8; 1024]), Ok(()));
    assert_eq!(m.read_blocks(3, &mut [0u8; 1024]), Err(StorageError::OutOfRange));
    assert_eq!(m.read_blocks(0, &mut []), Ok(()));
}

#[test]
fn block_media_write_blocks_rejects_growth() {
    let mut m = BlockMedia::new(MemBackend::new(vec![0u8; 1024], false), 512);
    assert_eq!(m.write_blocks(1, &[0xAA; 1024]), Err(StorageError::OutOfRange));
    assert_eq!(m.backend().to_vec(), vec![0u8; 1024]);
    assert_eq!(m.write_blocks(0, &[0xAA; 600]), Err(StorageError::ShortIO { expected: 1024, actual: 600 }));
    assert_eq!(m.write_blocks(0, &[0xAA; 1024]), Ok(()));
    assert_eq!(m.backend().to_vec(), vec![0xAAu8; 1024]);
}

#[test]
fn flash_program_erase_and_erase_all() {
    let mut f = FlashMedia::new(MemBackend::new(vec![0xF0, 0xFF, 0x12], false), 1);
    assert_eq!(f.program(0, &[0x3C, 0x0F]), Ok(()));
    assert_eq!(f.backend().to_vec(), vec![0x30, 0x0F, 0x12]);
    assert_eq!(f.program(2, &[0, 0]), Err(StorageError::OutOfRange));
    assert_eq!(f.backend().to_vec(), vec![0x30, 0x0F, 0x12]);
    let mut g = FlashMedia::new(MemBackend::new(vec![1, 2, 3, 4], false), 2).with_erase_value(0xAA);
    assert_eq!(
        g.erase(1, 2),
        Err(StorageError::Backend("erase region not erase-block aligned".to_string()))
    );
    assert_eq!(g.erase_all(), Ok(()));
    assert_eq!(g.backend().to_vec(), vec![0xAA; 4]);
    assert_eq!(g.erase_value(), 0xAA);
}

#[test]
fn sifive_e_aon_key_admits_one_write() {
    let mut w = SiFiveEAon::new();
    let compare = w.read(0x20, 4, 0);
    // Locked: a compare write is ignored.
    assert_eq!(w.write(0x20, 4, 0x1234, 0), None);
    assert_eq!(w.read(0x20, 4, 0), compare);
    // The key admits one write.
    assert_eq!(w.write(0x1c, 4, 0x0051_f15e, 0), None);
    assert_eq!(w.read(0x1c, 4, 0), 1);
    assert!(w.write(0x20, 4, 0x1234, 0).is_some());
    assert_eq!(w.read(0x20, 4, 0), 0x1234);
    assert_eq!(w.read(0x1c, 4, 0), 0);
    // The second write finds the registers locked again.
    assert_eq!(w.write(0x20, 4, 0x55, 0), None);
    assert_eq!(w.read(0x20, 4, 0), 0x1234);
    // Other sizes are ignored.
    assert_eq!(w.write(0x1c, 2, 0x0051_f15e, 0), None);
    assert_eq!(w.read(0x1c, 4, 0), 0);
}
