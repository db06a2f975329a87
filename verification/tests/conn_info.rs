use rust_rdma::conn_info::{conn_info_size, ConnInfo, FIELDS_SIZE};
use rust_rdma::CONTROL_PORT;

fn sample() -> ConnInfo {
    ConnInfo {
        qp_num: 0x0102_0304,
        rkey: 0x0506_0708,
        buf_addr: 0x1112_1314_1516_1718,
        lid: 0x2122,
        port: 0x31,
    }
}

fn sample_wire() -> Vec<u8> {
    let mut wire = vec![
        1, 2, 3, 4, 5, 6, 7, 8, 0x11, 0x12, 0x13, 0x14, 0x15, 0x16, 0x17, 0x18, 0x21, 0x22, 0x31,
    ];
    assert_eq!(wire.len(), FIELDS_SIZE);
    wire.resize(conn_info_size(), 0);
    wire
}

fn zero() -> ConnInfo {
    ConnInfo {
        qp_num: 0,
        rkey: 0,
        buf_addr: 0,
        lid: 0,
        port: 0,
    }
}

#[test]
fn control_port_is_fixed() {
    assert_eq!(CONTROL_PORT, 9999);
}

#[test]
fn size_follows_the_alignment_of_the_machine() {
    let align = std::mem::align_of::<u64>();
    if align == 8 {
        assert_eq!(conn_info_size(), 24);
    }
    if align == 4 {
        assert_eq!(conn_info_size(), 20);
    }
    assert_eq!(conn_info_size() % align, 0);
    assert_eq!(conn_info_size(), std::mem::size_of::<ConnInfo>());
}

#[test]
fn fields_alone_are_enough_to_read() {
    assert_eq!(ConnInfo::from_wire(&sample_wire()[..FIELDS_SIZE]), sample());
}

#[test]
fn to_be_puts_the_most_significant_byte_first() {
    let be = sample().to_be();
    assert_eq!(be.qp_num.to_ne_bytes(), [1, 2, 3, 4]);
    assert_eq!(be.rkey.to_ne_bytes(), [5, 6, 7, 8]);
    assert_eq!(
        be.buf_addr.to_ne_bytes(),
        [0x11, 0x12, 0x13, 0x14, 0x15, 0x16, 0x17, 0x18]
    );
    assert_eq!(be.lid.to_ne_bytes(), [0x21, 0x22]);
    assert_eq!(be.port, 0x31);
}

#[test]
fn from_be_reads_the_most_significant_byte_first() {
    let be = ConnInfo {
        qp_num: u32::from_ne_bytes([1, 2, 3, 4]),
        rkey: u32::from_ne_bytes([5, 6, 7, 8]),
        buf_addr: u64::from_ne_bytes([0x11, 0x12, 0x13, 0x14, 0x15, 0x16, 0x17, 0x18]),
        lid: u16::from_ne_bytes([0x21, 0x22]),
        port: 0x31,
    };
    assert_eq!(be.from_be(), sample());
}

#[test]
fn byte_order_conversion_is_undone() {
    assert_eq!(sample().to_be().from_be(), sample());
    assert_eq!(sample().from_be().to_be(), sample());
}

#[test]
fn as_bytes_is_the_layout_in_memory() {
    let info = sample();
    let bytes = info.as_bytes();
    assert_eq!(bytes.len(), conn_info_size());
    assert_eq!(bytes[0..4], info.qp_num.to_ne_bytes());
    assert_eq!(bytes[4..8], info.rkey.to_ne_bytes());
    assert_eq!(bytes[8..16], info.buf_addr.to_ne_bytes());
    assert_eq!(bytes[16..18], info.lid.to_ne_bytes());
    assert_eq!(bytes[18], 0x31);
    assert!(bytes[19..].iter().all(|&byte| byte == 0));
}

#[test]
fn from_bytes_overwrites_with_what_as_bytes_gave() {
    let mut info = zero();
    info.from_bytes(&sample().as_bytes());
    assert_eq!(info, sample());
}

#[test]
fn from_bytes_ignores_padding_and_what_follows() {
    let mut bytes = sample().as_bytes();
    for i in FIELDS_SIZE..bytes.len() {
        bytes[i] = 0xff;
    }
    bytes.push(7);
    let mut info = zero();
    info.from_bytes(&bytes);
    assert_eq!(info, sample());
    assert_eq!(info.as_bytes(), sample().as_bytes());
}

#[test]
fn to_wire_is_big_endian() {
    assert_eq!(sample().to_wire(), sample_wire());
    assert_eq!(sample().to_be().as_bytes(), sample_wire());
}

#[test]
fn from_wire_reads_what_to_wire_wrote() {
    assert_eq!(ConnInfo::from_wire(&sample_wire()), sample());
    let extreme = ConnInfo {
        qp_num: u32::MAX,
        rkey: 0,
        buf_addr: u64::MAX,
        lid: u16::MAX,
        port: u8::MAX,
    };
    assert_eq!(ConnInfo::from_wire(&extreme.to_wire()), extreme);
}
