use bytes::Bytes;
use kisd::device::{descriptor_request, find_device, DebugUsb};
use kisd::error::DebugUsbError;
use kisd::order::ByteOrder;
use kisd::wire::KisPortal;

type Failure = &'static str;

fn device(device_version: u16, base: u64, capacity: usize) -> DebugUsb {
    DebugUsb {
        device_version,
        base,
        capacity,
        order: ByteOrder::Little,
    }
}

fn tx_free_reply(free: u32, performed: u32) -> Bytes {
    let mut reply = vec![0x55u8; 12];
    reply.extend_from_slice(&free.to_le_bytes());
    reply.extend_from_slice(&performed.to_le_bytes());
    reply.extend_from_slice(&[0xee; 4]);
    Bytes::from(reply)
}

#[test]
fn first_debugusb_device_is_found() {
    let devices = [
        (0x05ac, 0x1880),
        (0x1881, 0x05ac),
        (0x05ac, 0x1881),
        (0x05ac, 0x1881),
    ];
    assert_eq!(find_device::<Failure>(&devices), Ok(2));
}

#[test]
fn no_debugusb_device_is_found() {
    assert_eq!(
        find_device::<Failure>(&[]),
        Err(DebugUsbError::DeviceNotFound)
    );
    assert_eq!(
        find_device::<Failure>(&[(0x05ac, 0x1882)]),
        Err(DebugUsbError::DeviceNotFound)
    );
}

#[test]
fn descriptor_is_read_at_address_zero() {
    let request = descriptor_request(0x999, ByteOrder::Little);
    assert_eq!(request.endpoint, 1);
    assert_eq!(
        &request.message[..],
        [
            0x80, 0x00, 0xa0, 0, 2, 1, 0, 0, 12, 0, 0, 0, // header
            0, 0, 0, 0, 0, 0, 0, 0, 80, 0, 0, 0,
        ]
    );
}

#[test]
fn portals_are_enabled() {
    let request = device(0x400, 0, 0).enable_portals();
    assert_eq!(request.endpoint, 1);
    assert_eq!(
        &request.message[..],
        [0x02, 0xff, 0xa0, 1, 1, 0x16, 0x04, 0, 4, 0, 0, 0, 0, 0, 3, 0]
    );
}

#[test]
fn uart_stream_is_requested() {
    let request = device(0x200, 0, 0).uart_stream::<Failure>().unwrap();
    assert_eq!(request.endpoint, 3);
    assert_eq!(
        &request.message[..],
        [0x00, 0x13, 0xa0, 0x13, 1, 0x03, 0x04, 0, 4, 0, 0, 0, 1, 0, 0, 0]
    );
    assert_eq!(
        device(0x500, 0, 0).uart_stream::<Failure>().unwrap_err(),
        DebugUsbError::MissingEndpoint(KisPortal::Pam, 0x500)
    );
}

#[test]
fn free_space_is_asked_for() {
    let request = device(0x120, 0x2_3d00_0000, 0)
        .uart_tx_free::<Failure>()
        .unwrap();
    assert_eq!(request.endpoint, 1);
    assert_eq!(
        &request.message[..],
        [
            0x55, 0x11, 0xa0, 0x11, 2, 0, 0, 0, 12, 0, 0, 0, // header
            0x14, 0x40, 0x13, 0x3d, 2, 0, 0, 0, 4, 0, 0, 0,
        ]
    );
}

#[test]
fn free_space_of_unknown_device_cannot_be_asked_for() {
    assert_eq!(
        device(0x500, u64::MAX, 0)
            .uart_tx_free::<Failure>()
            .unwrap_err(),
        DebugUsbError::MissingEndpoint(KisPortal::Pam, 0x500)
    );
}

#[test]
fn free_space_is_read() {
    assert_eq!(
        DebugUsb::uart_tx_free_reply::<Failure>(Ok(tx_free_reply(0x0001_0203, 1))),
        Ok(0x0001_0203)
    );
    assert_eq!(
        DebugUsb::uart_tx_free_reply::<Failure>(Ok(tx_free_reply(0, 0x100))),
        Ok(0)
    );
}

#[test]
fn free_space_read_not_performed() {
    assert_eq!(
        DebugUsb::uart_tx_free_reply::<Failure>(Ok(tx_free_reply(7, 0))),
        Err(DebugUsbError::Read)
    );
}

#[test]
fn free_space_exchange_failed() {
    assert_eq!(
        DebugUsb::uart_tx_free_reply(Err("gone")),
        Err(DebugUsbError::Io("gone"))
    );
}

#[test]
fn one_byte_is_padded_to_a_word() {
    let mut d = device(0x120, 0x2_3d00_0000, 10);
    let request = d.uart_tx::<Failure>(Bytes::from_static(b"A")).unwrap();
    assert_eq!(request.endpoint, 1);
    assert_eq!(
        &request.message[..],
        [
            0x60, 0x11, 0xa0, 0x11, 3, 0, 0, 0, 16, 0, 0, 0, // header
            0x04, 0x40, 0x13, 0x3d, 2, 0, 0, 0, 4, 0, 0, 0, // range
            b'A', 0, 0, 0,
        ]
    );
    assert_eq!(d.capacity, 9);
}

#[test]
fn registers_for_short_and_long_data() {
    for (data, register, padded) in [
        (&b""[..], 0x10u8, 0usize),
        (b"a", 0x04, 4),
        (b"ab", 0x08, 4),
        (b"abc", 0x0c, 4),
        (b"abcd", 0x10, 4),
        (b"abcdefgh", 0x10, 8),
    ] {
        let mut d = device(0x400, 0, 100);
        let request = d.uart_tx::<Failure>(Bytes::from_static(data)).unwrap();
        assert_eq!(request.endpoint, 3);
        assert_eq!(request.message.len(), 24 + padded);
        assert_eq!(request.message[8] as usize, 12 + padded);
        assert_eq!(&request.message[12..16], [register, 0x40, 0x13, 0]);
        assert_eq!(request.message[20] as usize, padded);
        assert_eq!(&request.message[24..24 + data.len()], data);
        assert!(request.message[24 + data.len()..].iter().all(|b| *b == 0));
        assert_eq!(d.capacity, 100 - data.len());
    }
}

#[test]
fn uneven_data_is_refused() {
    for len in [5usize, 6, 7, 9, 483] {
        let mut d = device(0x400, 0, 1000);
        let error = d.uart_tx::<Failure>(Bytes::from(vec![1; len])).unwrap_err();
        assert_eq!(error, DebugUsbError::Alignment);
        assert_eq!(d.capacity, 1000);
    }
}

#[test]
fn alignment_is_checked_before_the_endpoint() {
    let mut d = device(0x500, 0, 0);
    assert_eq!(
        d.uart_tx::<Failure>(Bytes::from_static(b"12345"))
            .unwrap_err(),
        DebugUsbError::Alignment
    );
    assert_eq!(
        d.uart_tx::<Failure>(Bytes::from_static(b"1234"))
            .unwrap_err(),
        DebugUsbError::MissingEndpoint(KisPortal::Pam, 0x500)
    );
    assert_eq!(d.capacity, 0);
}

#[test]
fn write_is_answered() {
    assert_eq!(
        DebugUsb::uart_tx_reply::<Failure>(Ok(Bytes::new())),
        Ok(())
    );
    assert_eq!(
        DebugUsb::uart_tx_reply(Err("gone")),
        Err(DebugUsbError::Io("gone"))
    );
}

#[test]
fn bases_that_leave_room_for_the_registers() {
    assert!(device(0, 0, 0).base_in_range());
    assert!(device(0, u64::MAX - 0x13_4014, 0).base_in_range());
    assert!(!device(0, u64::MAX - 0x13_4013, 0).base_in_range());
}

#[test]
fn records_follow_the_host_and_values_do_not() {
    let mut d = DebugUsb {
        order: ByteOrder::Big,
        ..device(0x400, 0x2_3d00_0000, 10)
    };
    assert_eq!(
        &d.enable_portals().message[..],
        [0xff, 0x02, 0xa0, 1, 1, 0x16, 0x04, 0, 0, 0, 0, 4, 0, 0, 3, 0]
    );
    let request = d.uart_tx::<Failure>(Bytes::from_static(b"AB")).unwrap();
    assert_eq!(
        &request.message[..],
        [
            0x11, 0x60, 0xa0, 0x11, 3, 0, 0, 0, 0, 0, 0, 16, // header
            0, 0, 0, 2, 0x3d, 0x13, 0x40, 0x08, 0, 0, 0, 4, // range
            b'A', b'B', 0, 0,
        ]
    );
    assert_eq!(d.order, ByteOrder::Big);
}
