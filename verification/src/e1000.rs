//! The frame a NIC driver self-test sends: a DHCP request broadcast on
//! Ethernet.

use vstd::prelude::*;

verus! {

/// The fields of an ARP packet in an Ethernet frame, as 16-bit and 8-bit
/// words.
#[allow(non_camel_case_types)]
pub struct arp_packet {
    pub dest1: u16,
    pub dest2: u16,
    pub dest3: u16,
    pub source1: u16,
    pub source2: u16,
    pub source3: u16,
    pub packet_type: u16,
    pub h_type: u16,
    pub p_type: u16,
    pub hlen: u8,
    pub plen: u8,
    pub oper: u16,
    pub sha1: u16,
    pub sha2: u16,
    pub sha3: u16,
    pub spa1: u16,
    pub spa2: u16,
    pub tha1: u16,
    pub tha2: u16,
    pub tha3: u16,
    pub tpa1: u16,
    pub tpa2: u16,
}

/// The length of the DHCP request frame.
pub const DHCP_REQUEST_LEN: usize = 314;

/// The bytes of the DHCP request frame.
pub open spec fn dhcp_request_bytes() -> Seq<u8> {
    seq![
        0xff, 0xff, 0xff, 0xff, 0xff, 0xff, 0x00, 0x1f, 0xc6, 0x9c, 0x89, 0x4c,
        0x08, 0x00, 0x45, 0x00, 0x01, 0x2c, 0xa8, 0x36, 0x00, 0x00, 0xfa, 0x11,
        0x17, 0x8b, 0x00, 0x00, 0x00, 0x00, 0xff, 0xff, 0xff, 0xff, 0x00, 0x44,
        0x00, 0x43, 0x01, 0x18, 0x59, 0x1f, 0x01, 0x01, 0x06, 0x00, 0x00, 0x00,
        0x3d, 0x1d, 0x00, 0x00, 0x00, 0x00, 0x00, 0x00, 0x00, 0x00, 0x00, 0x00,
        0x00, 0x00, 0x00, 0x00, 0x00, 0x00, 0x00, 0x00, 0x00, 0x00, 0x00, 0x1f,
        0xc6, 0x9c, 0x89, 0x4c, 0x00, 0x00, 0x00, 0x00, 0x00, 0x00, 0x00, 0x00,
        0x00, 0x00, 0x00, 0x00, 0x00, 0x00, 0x00, 0x00, 0x00, 0x00, 0x00, 0x00,
        0x00, 0x00, 0x00, 0x00, 0x00, 0x00, 0x00, 0x00, 0x00, 0x00, 0x00, 0x00,
        0x00, 0x00, 0x00, 0x00, 0x00, 0x00, 0x00, 0x00, 0x00, 0x00, 0x00, 0x00,
        0x00, 0x00, 0x00, 0x00, 0x00, 0x00, 0x00, 0x00, 0x00, 0x00, 0x00, 0x00,
        0x00, 0x00, 0x00, 0x00, 0x00, 0x00, 0x00, 0x00, 0x00, 0x00, 0x00, 0x00,
        0x00, 0x00, 0x00, 0x00, 0x00, 0x00, 0x00, 0x00, 0x00, 0x00, 0x00, 0x00,
        0x00, 0x00, 0x00, 0x00, 0x00, 0x00, 0x00, 0x00, 0x00, 0x00, 0x00, 0x00,
        0x00, 0x00, 0x00, 0x00, 0x00, 0x00, 0x00, 0x00, 0x00, 0x00, 0x00, 0x00,
        0x00, 0x00, 0x00, 0x00, 0x00, 0x00, 0x00, 0x00, 0x00, 0x00, 0x00, 0x00,
        0x00, 0x00, 0x00, 0x00, 0x00, 0x00, 0x00, 0x00, 0x00, 0x00, 0x00, 0x00,
        0x00, 0x00, 0x00, 0x00, 0x00, 0x00, 0x00, 0x00, 0x00, 0x00, 0x00, 0x00,
        0x00, 0x00, 0x00, 0x00, 0x00, 0x00, 0x00, 0x00, 0x00, 0x00, 0x00, 0x00,
        0x00, 0x00, 0x00, 0x00, 0x00, 0x00, 0x00, 0x00, 0x00, 0x00, 0x00, 0x00,
        0x00, 0x00, 0x00, 0x00, 0x00, 0x00, 0x00, 0x00, 0x00, 0x00, 0x00, 0x00,
        0x00, 0x00, 0x00, 0x00, 0x00, 0x00, 0x00, 0x00, 0x00, 0x00, 0x00, 0x00,
        0x00, 0x00, 0x00, 0x00, 0x00, 0x00, 0x00, 0x00, 0x00, 0x00, 0x00, 0x00,
        0x00, 0x00, 0x63, 0x82, 0x53, 0x63, 0x35, 0x01, 0x01, 0x3d, 0x07, 0x01,
        0x00, 0x1f, 0xc6, 0x9c, 0x89, 0x4c, 0x32, 0x04, 0x00, 0x00, 0x00, 0x00,
        0x37, 0x04, 0x01, 0x03, 0x06, 0x2a, 0xff, 0x00, 0x00, 0x00, 0x00, 0x00,
        0x00, 0x00,
    ]
}

/// The DHCP request frame that the driver self-test transmits.
pub fn dhcp_request_packet() -> (r: Vec<u8>)
    ensures
        r@ == dhcp_request_bytes(),
{
    let r: Vec<u8> = vec![
        0xff, 0xff, 0xff, 0xff, 0xff, 0xff, 0x00, 0x1f, 0xc6, 0x9c, 0x89, 0x4c,
        0x08, 0x00, 0x45, 0x00, 0x01, 0x2c, 0xa8, 0x36, 0x00, 0x00, 0xfa, 0x11,
        0x17, 0x8b, 0x00, 0x00, 0x00, 0x00, 0xff, 0xff, 0xff, 0xff, 0x00, 0x44,
        0x00, 0x43, 0x01, 0x18, 0x59, 0x1f, 0x01, 0x01, 0x06, 0x00, 0x00, 0x00,
        0x3d, 0x1d, 0x00, 0x00, 0x00, 0x00, 0x00, 0x00, 0x00, 0x00, 0x00, 0x00,
        0x00, 0x00, 0x00, 0x00, 0x00, 0x00, 0x00, 0x00, 0x00, 0x00, 0x00, 0x1f,
        0xc6, 0x9c, 0x89, 0x4c, 0x00, 0x00, 0x00, 0x00, 0x00, 0x00, 0x00, 0x00,
        0x00, 0x00, 0x00, 0x00, 0x00, 0x00, 0x00, 0x00, 0x00, 0x00, 0x00, 0x00,
        0x00, 0x00, 0x00, 0x00, 0x00, 0x00, 0x00, 0x00, 0x00, 0x00, 0x00, 0x00,
        0x00, 0x00, 0x00, 0x00, 0x00, 0x00, 0x00, 0x00, 0x00, 0x00, 0x00, 0x00,
        0x00, 0x00, 0x00, 0x00, 0x00, 0x00, 0x00, 0x00, 0x00, 0x00, 0x00, 0x00,
        0x00, 0x00, 0x00, 0x00, 0x00, 0x00, 0x00, 0x00, 0x00, 0x00, 0x00, 0x00,
        0x00, 0x00, 0x00, 0x00, 0x00, 0x00, 0x00, 0x00, 0x00, 0x00, 0x00, 0x00,
        0x00, 0x00, 0x00, 0x00, 0x00, 0x00, 0x00, 0x00, 0x00, 0x00, 0x00, 0x00,
        0x00, 0x00, 0x00, 0x00, 0x00, 0x00, 0x00, 0x00, 0x00, 0x00, 0x00, 0x00,
        0x00, 0x00, 0x00, 0x00, 0x00, 0x00, 0x00, 0x00, 0x00, 0x00, 0x00, 0x00,
        0x00, 0x00, 0x00, 0x00, 0x00, 0x00, 0x00, 0x00, 0x00, 0x00, 0x00, 0x00,
        0x00, 0x00, 0x00, 0x00, 0x00, 0x00, 0x00, 0x00, 0x00, 0x00, 0x00, 0x00,
        0x00, 0x00, 0x00, 0x00, 0x00, 0x00, 0x00, 0x00, 0x00, 0x00, 0x00, 0x00,
        0x00, 0x00, 0x00, 0x00, 0x00, 0x00, 0x00, 0x00, 0x00, 0x00, 0x00, 0x00,
        0x00, 0x00, 0x00, 0x00, 0x00, 0x00, 0x00, 0x00, 0x00, 0x00, 0x00, 0x00,
        0x00, 0x00, 0x00, 0x00, 0x00, 0x00, 0x00, 0x00, 0x00, 0x00, 0x00, 0x00,
        0x00, 0x00, 0x00, 0x00, 0x00, 0x00, 0x00, 0x00, 0x00, 0x00, 0x00, 0x00,
        0x00, 0x00, 0x63, 0x82, 0x53, 0x63, 0x35, 0x01, 0x01, 0x3d, 0x07, 0x01,
        0x00, 0x1f, 0xc6, 0x9c, 0x89, 0x4c, 0x32, 0x04, 0x00, 0x00, 0x00, 0x00,
        0x37, 0x04, 0x01, 0x03, 0x06, 0x2a, 0xff, 0x00, 0x00, 0x00, 0x00, 0x00,
        0x00, 0x00,
    ];
    assert(r@ =~= dhcp_request_bytes());
    r
}

/// The frame is broadcast from the test NIC's address as an IPv4 UDP packet
/// from the DHCP client port (68) to the DHCP server port (67), and carries
/// a DHCP message with the magic cookie and message type 1 (discover).
pub proof fn lemma_dhcp_request_layout()
    ensures
        dhcp_request_bytes().len() == DHCP_REQUEST_LEN,
        dhcp_request_bytes().subrange(0, 6) == seq![0xffu8, 0xff, 0xff, 0xff, 0xff, 0xff],
        dhcp_request_bytes().subrange(6, 12) == seq![0x00u8, 0x1f, 0xc6, 0x9c, 0x89, 0x4c],
        dhcp_request_bytes().subrange(12, 14) == seq![0x08u8, 0x00],
        dhcp_request_bytes()[23] == 0x11,
        dhcp_request_bytes().subrange(34, 38) == seq![0x00u8, 0x44, 0x00, 0x43],
        dhcp_request_bytes()[42] == 0x01,
        dhcp_request_bytes().subrange(278, 282) == seq![0x63u8, 0x82, 0x53, 0x63],
        dhcp_request_bytes().subrange(282, 285) == seq![0x35u8, 0x01, 0x01],
{
    assert(dhcp_request_bytes().subrange(0, 6) =~= seq![0xffu8, 0xff, 0xff, 0xff, 0xff, 0xff]);
    assert(dhcp_request_bytes().subrange(6, 12) =~= seq![0x00u8, 0x1f, 0xc6, 0x9c, 0x89, 0x4c]);
    assert(dhcp_request_bytes().subrange(12, 14) =~= seq![0x08u8, 0x00]);
    assert(dhcp_request_bytes().subrange(34, 38) =~= seq![0x00u8, 0x44, 0x00, 0x43]);
    assert(dhcp_request_bytes().subrange(278, 282) =~= seq![0x63u8, 0x82, 0x53, 0x63]);
    assert(dhcp_request_bytes().subrange(282, 285) =~= seq![0x35u8, 0x01, 0x01]);
}

} // verus!
