use machina_hw::sbi::{
    clear_stip, complete_call, dispatch, getchar_result, is_supported_eid, SbiAction, SbiReply,
    EID_BASE, EID_DBCN, EID_IPI, EID_LEGACY_GETCHAR, EID_LEGACY_PUTCHAR, EID_LEGACY_SET_TIMER,
    EID_LEGACY_SHUTDOWN, EID_RFENCE, EID_SRST, EID_TIME, FID_GET_IMPL_ID, FID_GET_IMPL_VERSION,
    FID_GET_MARCHID, FID_GET_MIMPID, FID_GET_MVENDORID, FID_GET_SPEC_VERSION, FID_PROBE_EXTENSION,
    FID_SET_TIMER, FID_SYSTEM_RESET, FID_WRITE_BYTE, SBI_ERR_NOT_SUPPORTED, SBI_SUCCESS,
};

#[test]
fn sbi_numbers_match_specification_crate() {
    assert_eq!(EID_LEGACY_SET_TIMER, sbi_spec::legacy::LEGACY_SET_TIMER as u64);
    assert_eq!(EID_LEGACY_PUTCHAR, sbi_spec::legacy::LEGACY_CONSOLE_PUTCHAR as u64);
    assert_eq!(EID_LEGACY_GETCHAR, sbi_spec::legacy::LEGACY_CONSOLE_GETCHAR as u64);
    assert_eq!(EID_LEGACY_SHUTDOWN, sbi_spec::legacy::LEGACY_SHUTDOWN as u64);
    assert_eq!(EID_BASE, sbi_spec::base::EID_BASE as u64);
    assert_eq!(EID_TIME, sbi_spec::time::EID_TIME as u64);
    assert_eq!(EID_IPI, sbi_spec::spi::EID_SPI as u64);
    assert_eq!(EID_RFENCE, sbi_spec::rfnc::EID_RFNC as u64);
    assert_eq!(EID_SRST, sbi_spec::srst::EID_SRST as u64);
    assert_eq!(EID_DBCN, sbi_spec::dbcn::EID_DBCN as u64);
    assert_eq!(FID_SET_TIMER, sbi_spec::time::SET_TIMER as u64);
    assert_eq!(FID_SYSTEM_RESET, sbi_spec::srst::SYSTEM_RESET as u64);
    assert_eq!(FID_WRITE_BYTE, sbi_spec::dbcn::CONSOLE_WRITE_BYTE as u64);
    assert_eq!(FID_GET_SPEC_VERSION, sbi_spec::base::GET_SBI_SPEC_VERSION as u64);
    assert_eq!(FID_GET_IMPL_ID, sbi_spec::base::GET_SBI_IMPL_ID as u64);
    assert_eq!(FID_GET_IMPL_VERSION, sbi_spec::base::GET_SBI_IMPL_VERSION as u64);
    assert_eq!(FID_PROBE_EXTENSION, sbi_spec::base::PROBE_EXTENSION as u64);
    assert_eq!(FID_GET_MVENDORID, sbi_spec::base::GET_MVENDORID as u64);
    assert_eq!(FID_GET_MARCHID, sbi_spec::base::GET_MARCHID as u64);
    assert_eq!(FID_GET_MIMPID, sbi_spec::base::GET_MIMPID as u64);
    assert_eq!(SBI_SUCCESS, sbi_spec::binary::RET_SUCCESS as i64);
    assert_eq!(SBI_ERR_NOT_SUPPORTED, sbi_spec::binary::RET_ERR_NOT_SUPPORTED as i64);
}

fn call(eid: u64, fid: u64, a0: u64) -> SbiReply {
    dispatch(eid, fid, [a0, 0, 0, 0, 0, 0])
}

#[test]
fn sbi_base_extension() {
    assert_eq!(call(EID_BASE, FID_GET_SPEC_VERSION, 0), SbiReply { error: 0, value: 0x0200_0000, action: SbiAction::Idle });
    assert_eq!(call(EID_BASE, FID_GET_IMPL_ID, 0).value, 99);
    assert_eq!(call(EID_BASE, FID_GET_IMPL_VERSION, 0).value, 0x0001_0000);
    assert_eq!(call(EID_BASE, FID_PROBE_EXTENSION, EID_TIME).value, 1);
    assert_eq!(call(EID_BASE, FID_PROBE_EXTENSION, EID_DBCN).value, 0);
    assert_eq!(call(EID_BASE, FID_GET_MARCHID, 0), SbiReply { error: 0, value: 0, action: SbiAction::Idle });
    assert_eq!(call(EID_BASE, 42, 0).error, -2);
}

#[test]
fn sbi_host_actions() {
    assert_eq!(call(EID_LEGACY_SET_TIMER, 0, 1234).action, SbiAction::SetTimer(1234));
    assert_eq!(call(EID_TIME, FID_SET_TIMER, 99).action, SbiAction::SetTimer(99));
    assert_eq!(call(EID_TIME, 1, 99), SbiReply { error: -2, value: 0, action: SbiAction::Idle });
    assert_eq!(call(EID_LEGACY_PUTCHAR, 0, 0x141).action, SbiAction::PutChar(0x41));
    assert_eq!(call(EID_DBCN, FID_WRITE_BYTE, 0x42).action, SbiAction::PutChar(0x42));
    assert_eq!(call(EID_DBCN, 0, 0x42).error, -2);
    assert_eq!(call(EID_LEGACY_GETCHAR, 0, 0).action, SbiAction::GetChar);
    assert_eq!(call(EID_LEGACY_SHUTDOWN, 0, 0).action, SbiAction::Reset(0));
    assert_eq!(call(EID_SRST, FID_SYSTEM_RESET, 1).action, SbiAction::Reset(1));
    assert_eq!(call(EID_IPI, 0, 0), SbiReply { error: 0, value: 0, action: SbiAction::Idle });
    assert_eq!(call(EID_RFENCE, 3, 0).error, 0);
    assert_eq!(call(0xdead, 0, 0), SbiReply { error: -2, value: 0, action: SbiAction::Idle });
    assert!(is_supported_eid(EID_SRST));
    assert!(!is_supported_eid(EID_DBCN));
}

#[test]
fn sbi_registers_after_call() {
    let r = complete_call(SbiReply { error: -2, value: 7, action: SbiAction::Idle }, 0x8000_0000);
    assert_eq!(r, (0xffff_ffff_ffff_fffe, 7, 0x8000_0004));
    let r = complete_call(SbiReply { error: 0, value: -1, action: SbiAction::Idle }, u64::MAX - 1);
    assert_eq!(r, (0, u64::MAX, 2));
    assert_eq!(getchar_result(None), -1);
    assert_eq!(getchar_result(Some(b'a')), 97);
    assert_eq!(clear_stip(0x22), 0x2);
    assert_eq!(clear_stip(0x2), 0x2);
}
