use std::io::Write;

use machina_hw::k230_dtb::{
    dtb_chosen_bootargs, dtb_mem_reservations, test_fixture_dtb_with_sdhci_nodes_and_bootargs,
    test_fixture_dtb_with_sdhci_nodes_bootargs_and_reservations, FdtReservation,
};
use machina_hw::k230_gzip_dma::gzip_payload;
use machina_hw::k230_pufs::{K230Pufs, DMA_DSC_CFG_4_TAIL};
use sha2::Digest;

fn gzip(data: &[u8]) -> Vec<u8> {
    let mut enc = flate2::write::GzEncoder::new(Vec::new(), flate2::Compression::default());
    enc.write_all(data).unwrap();
    enc.finish().unwrap()
}

#[test]
fn gzip_payload_decompresses() {
    let packed = gzip(b"hello world");
    assert_eq!(gzip_payload(&packed, 64), Some(b"hello world".to_vec()));
    assert_eq!(gzip_payload(&packed, 5), Some(b"hello".to_vec()));
    assert_eq!(gzip_payload(b"not a gzip stream", 64), None);
}

#[test]
fn pufs_hash_is_sha256() {
    let mut p = K230Pufs::new();
    p.dsc_cfg_4 = DMA_DSC_CFG_4_TAIL;
    p.finish_hash(b"abc");
    let expect = sha2::Sha256::digest(b"abc");
    assert_eq!(&p.digest_out[..32], expect.as_slice());
    assert_eq!(p.digest_out[0], 0xba);
    assert_eq!(&p.digest_out[32..], &[0u8; 32]);
}

#[test]
fn dtb_bootargs_text() {
    let blob = test_fixture_dtb_with_sdhci_nodes_and_bootargs("console=ttyS0,115200");
    assert_eq!(dtb_chosen_bootargs(&blob), Ok(Some("console=ttyS0,115200".to_string())));
}

#[test]
fn dtb_reservations_read_back_as_written() {
    let rs = vec![
        FdtReservation { address: 0x8000_0000, size: 0x1000 },
        FdtReservation { address: 0, size: 0x20 },
        FdtReservation { address: 0x1_0000_0000, size: 0 },
    ];
    let blob = test_fixture_dtb_with_sdhci_nodes_bootargs_and_reservations("root=/dev/mmcblk0", &rs);
    assert_eq!(dtb_mem_reservations(&blob), Ok(rs));
    // A blob too short to hold a header has no reservation map.
    assert!(dtb_mem_reservations(&blob[..12]).is_err());
}

#[test]
fn dtb_bootargs_read_back_as_written() {
    for args in ["", "root=/dev/mmcblk0p2 rw", "console=ttyS0 élan"] {
        let blob = test_fixture_dtb_with_sdhci_nodes_and_bootargs(args);
        assert_eq!(dtb_chosen_bootargs(&blob), Ok(Some(args.to_string())));
    }
}
