use bytes::Bytes;
use kisd::device::DebugUsb;
use kisd::error::DebugUsbError;
use kisd::order::ByteOrder;
use kisd::uart_rx::{is_complete, uart_content, UartPacket, UartRx, UartRxAction};
use kisd::wire::{KisHeader, KisPortal};

type Failure = &'static str;

fn device(device_version: u16) -> DebugUsb {
    DebugUsb {
        device_version,
        base: 0,
        capacity: 0,
        order: ByteOrder::Little,
    }
}

fn packet(portal: u8, words: u32, data: &[u8], bytes: u32, tail: &[u8]) -> Bytes {
    let mut p = vec![9, 9, 0xa0, portal, 7, 6, 5, 4, 3, 2, 1, 0];
    p.extend_from_slice(&words.to_le_bytes());
    p.extend_from_slice(data);
    p.extend_from_slice(&bytes.to_le_bytes());
    p.extend_from_slice(tail);
    Bytes::from(p)
}

#[test]
fn stream_is_started() {
    let d = device(0x120);
    let (state, request) = match d.uart_rx() {
        UartRxAction::Request(state, request) => (state, request),
        other => panic!("{:?}", other),
    };
    assert_eq!(state, UartRx::Portals);
    assert_eq!(request.endpoint, 1);
    assert_eq!(request.message[5], 0x16);
    let (state, request) = match d.uart_rx_reply::<Failure>(state, Ok(Bytes::new())) {
        Ok(UartRxAction::Request(state, request)) => (state, request),
        other => panic!("{:?}", other),
    };
    assert_eq!(state, UartRx::Stream);
    assert_eq!(request.endpoint, 1);
    assert_eq!(request.message[3], 0x13);
    match d.uart_rx_reply::<Failure>(state, Ok(Bytes::new())) {
        Ok(UartRxAction::Listen(endpoint)) => assert_eq!(endpoint, 2),
        other => panic!("{:?}", other),
    }
}

#[test]
fn stream_of_unknown_version_fails() {
    let d = device(0x500);
    assert_eq!(
        d.uart_rx_reply::<Failure>(UartRx::Portals, Ok(Bytes::new()))
            .unwrap_err(),
        DebugUsbError::MissingEndpoint(KisPortal::Pam, 0x500)
    );
    assert_eq!(
        d.uart_rx_reply::<Failure>(UartRx::Stream, Ok(Bytes::new()))
            .unwrap_err(),
        DebugUsbError::MissingEndpoint(KisPortal::Ppm, 0x500)
    );
}

#[test]
fn stream_start_passes_failures_on() {
    for state in [UartRx::Portals, UartRx::Stream] {
        assert_eq!(
            device(0x400).uart_rx_reply(state, Err("lost")).unwrap_err(),
            DebugUsbError::Request("lost")
        );
    }
}

#[test]
fn output_is_cut_to_its_bytes() {
    let p = packet(0x13, 2, b"hello\0\0\0", 5, b"");
    assert!(is_complete(&p));
    assert_eq!(
        uart_content(p, ByteOrder::Little),
        UartPacket::Output(Bytes::from_static(b"hello"))
    );
}

#[test]
fn output_ends_where_its_words_end() {
    let p = packet(0x13, 1, b"abcd", 9, b"tail");
    assert!(is_complete(&p));
    assert_eq!(
        uart_content(p, ByteOrder::Little),
        UartPacket::Output(Bytes::from_static(b"abcd"))
    );
}

#[test]
fn output_can_be_empty() {
    let p = packet(0x13, 0, b"", 0, b"");
    assert!(is_complete(&p));
    assert_eq!(
        uart_content(p, ByteOrder::Little),
        UartPacket::Output(Bytes::new())
    );
}

#[test]
fn other_portals_have_no_output() {
    let p = packet(0x11, u32::MAX, b"", 0, b"");
    assert!(is_complete(&p));
    let header = KisHeader {
        sequence: 0x0909,
        version: 0xa0,
        portal: 0x11,
        command: 7,
        offset1: 6,
        offset2: 5,
        offset3: 4,
        args_len: 0x0001_0203,
    };
    assert_eq!(
        uart_content(p.clone(), ByteOrder::Little),
        UartPacket::Other(header)
    );
    let header = KisHeader {
        args_len: 0x0302_0100,
        ..header
    };
    assert_eq!(uart_content(p, ByteOrder::Big), UartPacket::Other(header));
    let p = Bytes::from(vec![0u8; 12]);
    assert!(is_complete(&p));
    assert!(matches!(
        uart_content(p, ByteOrder::Little),
        UartPacket::Other(_)
    ));
}

#[test]
fn counts_of_words_and_bytes_are_little_endian_on_every_host() {
    let p = packet(0x13, 2, b"hello\0\0\0", 5, b"");
    assert_eq!(
        uart_content(p, ByteOrder::Big),
        UartPacket::Output(Bytes::from_static(b"hello"))
    );
}

#[test]
fn short_packets_are_incomplete() {
    assert!(!is_complete(&Bytes::new()));
    assert!(!is_complete(&Bytes::from(vec![0u8; 11])));
    let whole = packet(0x13, 2, b"hello\0\0\0", 5, b"");
    for len in 0..whole.len() {
        assert!(!is_complete(&whole.slice(0..len)), "{}", len);
    }
    assert!(!is_complete(&packet(0x13, u32::MAX, b"", 0, b"")));
}
