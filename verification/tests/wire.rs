use kisd::order::ByteOrder;
use kisd::wire::{KisCommand, KisHeader, KisPortal, PaArgs};

#[test]
fn header_bytes_and_back() {
    let header = KisHeader {
        sequence: 0x1160,
        version: 0xa0,
        portal: KisPortal::Pam.code(),
        command: KisCommand::Paw.code(),
        offset1: 1,
        offset2: 2,
        offset3: 3,
        args_len: 0x0403_02f0,
    };
    let bytes = header.as_bytes(ByteOrder::Little);
    assert_eq!(bytes, [0x60, 0x11, 0xa0, 0x11, 3, 1, 2, 3, 0xf0, 2, 3, 4]);
    assert_eq!(KisHeader::read_from_bytes(&bytes, ByteOrder::Little), Some(header));
}

#[test]
fn header_bytes_spell_what_they_came_from() {
    let bytes = [0xff, 0xfe, 0xfd, 0x13, 0, 1, 2, 3, 0x78, 0x56, 0x34, 0x12];
    let header = KisHeader::read_from_bytes(&bytes, ByteOrder::Little).unwrap();
    assert_eq!(header.sequence, 0xfeff);
    assert_eq!(header.portal, 0x13);
    assert_eq!(header.args_len, 0x1234_5678);
    assert_eq!(header.as_bytes(ByteOrder::Little), bytes);
}

#[test]
fn header_of_another_length_is_none() {
    assert_eq!(KisHeader::read_from_bytes(&[0; 11], ByteOrder::Little), None);
    assert_eq!(KisHeader::read_from_bytes(&[0; 13], ByteOrder::Little), None);
    assert_eq!(KisHeader::read_from_bytes(&[], ByteOrder::Little), None);
}

#[test]
fn pa_args_bytes() {
    let args = PaArgs {
        addr: 0x0123_4567_89ab_cdef,
        length: 0x50,
    };
    assert_eq!(
        args.as_bytes(ByteOrder::Little),
        [0xef, 0xcd, 0xab, 0x89, 0x67, 0x45, 0x23, 0x01, 0x50, 0, 0, 0]
    );
}

#[test]
fn portal_and_command_codes() {
    assert_eq!(KisPortal::Config.code(), 0x01);
    assert_eq!(KisPortal::Pam.code(), 0x11);
    assert_eq!(KisPortal::Ppm.code(), 0x13);
    assert_eq!(KisCommand::Pcw.code(), 1);
    assert_eq!(KisCommand::Par.code(), 2);
    assert_eq!(KisCommand::Paw.code(), 3);
}

#[test]
fn endpoints_of_known_versions() {
    assert_eq!(KisPortal::Pam.endpoint_id(0x120), Some(1));
    assert_eq!(KisPortal::Ppm.endpoint_id(0x120), Some(2));
    for version in [0x200, 0x300, 0x400] {
        assert_eq!(KisPortal::Pam.endpoint_id(version), Some(3));
        assert_eq!(KisPortal::Ppm.endpoint_id(version), Some(4));
    }
}

#[test]
fn endpoints_of_other_versions() {
    for version in [0, 0x100, 0x121, 0x201, 0x401, 0x500, u16::MAX] {
        assert_eq!(KisPortal::Config.endpoint_id(version), Some(1));
        assert_eq!(KisPortal::Pam.endpoint_id(version), None);
        assert_eq!(KisPortal::Ppm.endpoint_id(version), None);
    }
}

#[test]
fn records_in_big_endian_order() {
    let header = KisHeader {
        sequence: 0x1160,
        version: 0xa0,
        portal: 0x11,
        command: 3,
        offset1: 1,
        offset2: 2,
        offset3: 3,
        args_len: 0x0403_02f0,
    };
    let bytes = header.as_bytes(ByteOrder::Big);
    assert_eq!(bytes, [0x11, 0x60, 0xa0, 0x11, 3, 1, 2, 3, 4, 3, 2, 0xf0]);
    assert_eq!(
        KisHeader::read_from_bytes(&bytes, ByteOrder::Big),
        Some(header)
    );
    let args = PaArgs {
        addr: 0x0123_4567_89ab_cdef,
        length: 0x50,
    };
    assert_eq!(
        args.as_bytes(ByteOrder::Big),
        [0x01, 0x23, 0x45, 0x67, 0x89, 0xab, 0xcd, 0xef, 0, 0, 0, 0x50]
    );
}
