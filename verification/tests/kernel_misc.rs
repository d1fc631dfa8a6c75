use theseus::boot_info::{ElfSectionFlags, ALLOCATED, EXECUTABLE, WRITABLE};
use theseus::condvar::{one_fewer, CondvarCounter};
use theseus::halt::{
    exception_to_signal, logged_error_info, page_fault_decision, ErrorCode, FaultDecision, Signal,
};
use theseus::net::{Error, SmoltcpErrorKind};
use theseus::vfs::MountTable;

#[test]
fn exceptions_map_to_signals() {
    assert_eq!(exception_to_signal(0x00), Some(Signal::ArithmeticError));
    assert_eq!(exception_to_signal(0x13), Some(Signal::ArithmeticError));
    assert_eq!(exception_to_signal(0x0E), Some(Signal::InvalidAddress));
    assert_eq!(exception_to_signal(0x0D), Some(Signal::IllegalInstruction));
    assert_eq!(exception_to_signal(0x08), Some(Signal::IllegalInstruction));
    assert_eq!(exception_to_signal(0x0B), Some(Signal::BusError));
    assert_eq!(exception_to_signal(0x11), Some(Signal::BusError));
    assert_eq!(exception_to_signal(0x01), None);
    assert_eq!(exception_to_signal(0x03), None);
    assert_eq!(exception_to_signal(0xFF), None);
}

#[test]
fn error_info_shows_the_page_fault_address() {
    assert_eq!(
        logged_error_info(Some(ErrorCode::PageFaultError { accessed_address: 0xdead, pf_error: 2 })),
        (Some(2), Some(0xdead))
    );
    assert_eq!(logged_error_info(Some(ErrorCode::Other(13))), (Some(13), None));
    assert_eq!(logged_error_info(None), (None, None));
}

#[test]
fn demand_paging_maps_only_requested_pages() {
    assert_eq!(page_fault_decision(0x1, Some(true)), FaultDecision::ProtectionViolation);
    assert_eq!(page_fault_decision(0x3, None), FaultDecision::ProtectionViolation);
    assert_eq!(page_fault_decision(0x2, None), FaultDecision::NoEntry);
    assert_eq!(page_fault_decision(0x0, Some(true)), FaultDecision::MapFrame);
    assert_eq!(page_fault_decision(0x2, Some(false)), FaultDecision::NotRequested);
}

#[test]
fn condvar_counts_waiters() {
    let mut c = CondvarCounter::new();
    assert!(!c.notify_one());
    c.wait();
    c.wait();
    c.wait();
    assert!(c.notify_one());
    assert_eq!(c.notify_all(), 2);
    assert_eq!(c.notify_all(), 0);
    assert!(!c.notify_one());
    assert_eq!(one_fewer(3), Some(2));
    assert_eq!(one_fewer(0), None);
}

#[test]
fn smoltcp_errors_keep_their_names() {
    assert_eq!(Error::from_kind(SmoltcpErrorKind::Exhausted), Error::Exhausted);
    assert_eq!(Error::from_kind(SmoltcpErrorKind::Checksum), Error::Checksum);
    assert_eq!(Error::from_kind(SmoltcpErrorKind::Other), Error::Unknown);
    assert_eq!(Error::from_smoltcp(smoltcp::Error::Exhausted), Error::Exhausted);
    assert_eq!(Error::from_smoltcp(smoltcp::Error::Truncated), Error::Truncated);
    assert_eq!(Error::from_smoltcp(smoltcp::Error::NotSupported), Error::NotSupported);
    assert_eq!(Error::from_smoltcp(smoltcp::Error::Dropped), Error::Dropped);
}

#[test]
fn no_smoltcp_error_becomes_invalid_gateway() {
    for k in [
        SmoltcpErrorKind::Exhausted,
        SmoltcpErrorKind::Illegal,
        SmoltcpErrorKind::Unaddressable,
        SmoltcpErrorKind::Finished,
        SmoltcpErrorKind::Truncated,
        SmoltcpErrorKind::Checksum,
        SmoltcpErrorKind::Unrecognized,
        SmoltcpErrorKind::Fragmented,
        SmoltcpErrorKind::Malformed,
        SmoltcpErrorKind::Dropped,
        SmoltcpErrorKind::NotSupported,
        SmoltcpErrorKind::Other,
    ] {
        assert_ne!(Error::from_kind(k), Error::InvalidGateway);
    }
}

#[test]
fn section_flags_truncate_and_contain() {
    let f = ElfSectionFlags::from_bits_truncate(0xFF);
    assert_eq!(f.bits(), WRITABLE | ALLOCATED | EXECUTABLE);
    let g = ElfSectionFlags::from_bits_truncate(ALLOCATED);
    assert!(g.contains(ALLOCATED));
    assert!(!g.contains(ALLOCATED | WRITABLE));
}

#[test]
fn mounting_a_taken_name_is_refused() {
    let mut t: MountTable<u32> = MountTable::new();
    assert_eq!(t.mount("root".to_owned(), 1), Ok(()));
    assert_eq!(t.mount("tmp".to_owned(), 2), Ok(()));
    assert_eq!(t.mount("root".to_owned(), 3), Err(()));
    assert_eq!(t.len(), 2);
}

#[test]
fn mounting_keeps_each_file_system_under_its_name() {
    let mut t: MountTable<&str> = MountTable::new();
    assert_eq!(t.mount("a".to_owned(), "fs-a"), Ok(()));
    assert_eq!(t.mount("a".to_owned(), "fs-b"), Err(()));
    assert_eq!(t.mount("b".to_owned(), "fs-b"), Ok(()));
    assert_eq!(t.len(), 2);
}
