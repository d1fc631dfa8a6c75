//! What a CPU exception means for the task that caused it: the signal it
//! raises and the error information that is logged.

use vstd::prelude::*;

verus! {

/// The categories of signals an exception can raise.
#[derive(Clone, Copy, Debug, PartialEq, Eq, Structural)]
pub enum Signal {
    ArithmeticError,
    InvalidAddress,
    IllegalInstruction,
    BusError,
}

/// The error code an exception may come with.
#[derive(Clone, Copy, Debug, PartialEq, Eq, Structural)]
pub enum ErrorCode {
    /// A page fault: the address accessed and the bits of the page-fault
    /// error code.
    PageFaultError { accessed_address: usize, pf_error: u64 },
    /// Any other error code.
    Other(u64),
}

/// The signal that exception `n` raises, if any.
pub open spec fn signal_of(n: u8) -> Option<Signal> {
    if n == 0x00 || n == 0x04 || n == 0x10 || n == 0x13 {
        Some(Signal::ArithmeticError)
    } else if n == 0x05 || n == 0x0E || n == 0x0C {
        Some(Signal::InvalidAddress)
    } else if n == 0x06 || n == 0x07 || n == 0x08 || n == 0x0A || n == 0x0D {
        Some(Signal::IllegalInstruction)
    } else if n == 0x0B || n == 0x11 {
        Some(Signal::BusError)
    } else {
        None
    }
}

/// Converts the given exception number into a [`Signal`] category, if
/// relevant: divide error, overflow and floating-point exceptions are
/// arithmetic errors; bound range, page and stack-segment faults invalid
/// addresses; invalid opcode, device not available, double fault, invalid
/// TSS and general protection illegal instructions; segment not present
/// and alignment check bus errors.
pub fn exception_to_signal(exception_number: u8) -> (r: Option<Signal>)
    ensures
        r == signal_of(exception_number),
{
    match exception_number {
        0x00 | 0x04 | 0x10 | 0x13 => Some(Signal::ArithmeticError),
        0x05 | 0x0E | 0x0C => Some(Signal::InvalidAddress),
        0x06 | 0x07 | 0x08 | 0x0A | 0x0D => Some(Signal::IllegalInstruction),
        0x0B | 0x11 => Some(Signal::BusError),
        _ => None,
    }
}

/// The x86 exception vectors that raise a signal.
pub const DIVIDE_ERROR: u8 = 0x00;
pub const OVERFLOW: u8 = 0x04;
pub const BOUND_RANGE_EXCEEDED: u8 = 0x05;
pub const INVALID_OPCODE: u8 = 0x06;
pub const DEVICE_NOT_AVAILABLE: u8 = 0x07;
pub const DOUBLE_FAULT: u8 = 0x08;
pub const INVALID_TSS: u8 = 0x0A;
pub const SEGMENT_NOT_PRESENT: u8 = 0x0B;
pub const STACK_SEGMENT_FAULT: u8 = 0x0C;
pub const GENERAL_PROTECTION: u8 = 0x0D;
pub const PAGE_FAULT: u8 = 0x0E;
pub const X87_FLOATING_POINT: u8 = 0x10;
pub const ALIGNMENT_CHECK: u8 = 0x11;
pub const SIMD_FLOATING_POINT: u8 = 0x13;

/// Each signal is raised by exactly the exceptions of its class: divide
/// error, overflow and the floating-point exceptions raise an arithmetic
/// error; bound range, stack-segment and page faults an invalid address;
/// invalid opcode, device not available, double fault, invalid TSS and
/// general protection an illegal instruction; segment not present and
/// alignment check a bus error. Every other exception raises no signal.
pub proof fn lemma_exception_classes(n: u8)
    ensures
        signal_of(n) == Some(Signal::ArithmeticError) <==> (n == DIVIDE_ERROR || n == OVERFLOW
            || n == X87_FLOATING_POINT || n == SIMD_FLOATING_POINT),
        signal_of(n) == Some(Signal::InvalidAddress) <==> (n == BOUND_RANGE_EXCEEDED || n
            == STACK_SEGMENT_FAULT || n == PAGE_FAULT),
        signal_of(n) == Some(Signal::IllegalInstruction) <==> (n == INVALID_OPCODE || n
            == DEVICE_NOT_AVAILABLE || n == DOUBLE_FAULT || n == INVALID_TSS || n == GENERAL_PROTECTION),
        signal_of(n) == Some(Signal::BusError) <==> (n == SEGMENT_NOT_PRESENT || n == ALIGNMENT_CHECK),
{
}

/// The error value and the accessed address that are logged for an
/// exception with `error_code`.
pub fn logged_error_info(error_code: Option<ErrorCode>) -> (r: (Option<u64>, Option<usize>))
    ensures
        r == match error_code {
            Some(ErrorCode::PageFaultError { accessed_address, pf_error }) => (
                Some(pf_error),
                Some(accessed_address),
            ),
            Some(ErrorCode::Other(e)) => (Some(e), None),
            None => (None, None),
        },
{
    match error_code {
        Some(ErrorCode::PageFaultError { accessed_address, pf_error }) => (
            Some(pf_error),
            Some(accessed_address),
        ),
        Some(ErrorCode::Other(e)) => (Some(e), None),
        None => (None, None),
    }
}

/// The page-fault error bit saying the fault was a protection violation
/// (the page was present).
pub const PROTECTION_VIOLATION: u64 = 0x1;

/// What the demand pager does about a page fault.
#[derive(Clone, Copy, Debug, PartialEq, Eq, Structural)]
pub enum FaultDecision {
    /// Refuse: the access violated the page's protection.
    ProtectionViolation,
    /// Refuse: the page table has no entry for the page.
    NoEntry,
    /// Map a newly allocated frame, valid and no longer "requested".
    MapFrame,
    /// Refuse: the page was never requested.
    NotRequested,
}

/// What the demand pager does about a page fault with error bits `pf_error`,
/// given whether the page's entry exists and, if so, whether it is marked
/// "requested".
pub open spec fn fault_decision_spec(pf_error: u64, entry_requested: Option<bool>) -> FaultDecision {
    if pf_error & PROTECTION_VIOLATION == PROTECTION_VIOLATION {
        FaultDecision::ProtectionViolation
    } else {
        match entry_requested {
            None => FaultDecision::NoEntry,
            Some(true) => FaultDecision::MapFrame,
            Some(false) => FaultDecision::NotRequested,
        }
    }
}

/// Decides what the demand pager does about a page fault with error bits
/// `pf_error`, given whether the page's entry exists and, if so, whether it
/// is marked "requested".
pub fn page_fault_decision(pf_error: u64, entry_requested: Option<bool>) -> (r: FaultDecision)
    ensures
        r == fault_decision_spec(pf_error, entry_requested),
        r == (if pf_error & PROTECTION_VIOLATION == PROTECTION_VIOLATION {
            FaultDecision::ProtectionViolation
        } else {
            match entry_requested {
                None => FaultDecision::NoEntry,
                Some(true) => FaultDecision::MapFrame,
                Some(false) => FaultDecision::NotRequested,
            }
        }),
{
    if pf_error & PROTECTION_VIOLATION == PROTECTION_VIOLATION {
        return FaultDecision::ProtectionViolation;
    }
    match entry_requested {
        None => FaultDecision::NoEntry,
        Some(true) => FaultDecision::MapFrame,
        Some(false) => FaultDecision::NotRequested,
    }
}

/// The demand pager maps a frame exactly for a fault whose error code has
/// bit 0 clear (the page was not present) on a page that was requested; a
/// fault with bit 0 set (a protection violation on a present page) is
/// always refused as one, whatever the page's entry says.
pub proof fn lemma_demand_paging(pf_error: u64, entry_requested: Option<bool>)
    ensures
        fault_decision_spec(pf_error, entry_requested) == FaultDecision::MapFrame <==> (pf_error % 2 == 0
            && entry_requested == Some(true)),
        fault_decision_spec(pf_error, entry_requested) == FaultDecision::ProtectionViolation <==> pf_error
            % 2 == 1,
        fault_decision_spec(pf_error, entry_requested) == FaultDecision::NoEntry <==> (pf_error % 2 == 0
            && entry_requested is None),
{
    assert(pf_error & 1 == 1 <==> pf_error % 2 == 1) by (bit_vector);
}

} // verus!
