use bytes::Bytes;
use kisd::device::DebugUsb;
use kisd::error::DebugUsbError;
use kisd::order::ByteOrder;
use kisd::uart_tx::{UartTxAction, UartTxEvent, MAX_PAYLOAD_SIZE};
use kisd::wire::KisPortal;

type Failure = &'static str;

fn device(device_version: u16, capacity: usize) -> DebugUsb {
    DebugUsb {
        device_version,
        base: 0x2_3d00_0000,
        capacity,
        order: ByteOrder::Little,
    }
}

fn tx_free_reply(free: u32, performed: u32) -> Bytes {
    let mut reply = vec![0u8; 12];
    reply.extend_from_slice(&free.to_le_bytes());
    reply.extend_from_slice(&performed.to_le_bytes());
    reply.extend_from_slice(&[0; 4]);
    Bytes::from(reply)
}

/// How many bytes of data the message of a write carries.
fn carried(message: &Bytes) -> usize {
    match message[12] {
        0x04 => 1,
        0x08 => 2,
        0x0c => 3,
        _ => message[20] as usize + 256 * message[21] as usize,
    }
}

/// Writes `data` to a UART that reports `free`, and gives the batches.
fn deliver(capacity: usize, data: &[u8], free: &[u32]) -> (Vec<Vec<u8>>, usize, Vec<u8>) {
    let mut d = device(0x400, capacity);
    let mut b = Bytes::copy_from_slice(data);
    let mut batches = Vec::new();
    let mut asked = 0;
    let mut event = UartTxEvent::Start;
    loop {
        match d.into_uart_tx::<Failure>(&mut b, event).unwrap() {
            UartTxAction::Done => return (batches, asked, b.to_vec()),
            UartTxAction::Query(request) => {
                assert_eq!(request.endpoint, 3);
                assert_eq!(request.message[0], 0x55);
                if asked == free.len() {
                    return (batches, asked, b.to_vec());
                }
                event = UartTxEvent::Free(Ok(tx_free_reply(free[asked], 1)));
                asked += 1;
            }
            UartTxAction::Send(request) => {
                assert_eq!(request.endpoint, 3);
                assert!(request.message.len() + 4 <= 512);
                let n = carried(&request.message);
                batches.push(request.message[24..24 + n].to_vec());
                event = UartTxEvent::Sent(Ok(Bytes::new()));
            }
        }
    }
}

fn lens(batches: &[Vec<u8>]) -> Vec<usize> {
    batches.iter().map(|batch| batch.len()).collect()
}

#[test]
fn payload_limit() {
    assert_eq!(MAX_PAYLOAD_SIZE, 484);
}

#[test]
fn nothing_to_write() {
    assert_eq!(deliver(0, b"", &[]), (vec![], 0, vec![]));
}

#[test]
fn data_arrives_whole_and_in_order() {
    let data: Vec<u8> = (0..2000).map(|i| (i % 251) as u8).collect();
    let (batches, asked, left) = deliver(0, &data, &[1000, 3, 0, 6, 4096]);
    assert_eq!(batches.concat(), data);
    assert!(left.is_empty());
    assert_eq!(asked, 5);
    assert_eq!(lens(&batches), [484, 484, 3, 4, 484, 484, 56, 1]);
}

#[test]
fn known_space_is_not_asked_for_again() {
    let (batches, asked, _) = deliver(500, &[7; 484], &[]);
    assert_eq!(lens(&batches), [484]);
    assert_eq!(asked, 0);
}

#[test]
fn too_little_space_is_asked_for_again() {
    // Four bytes are known to be free, but five are to be written.
    let (batches, asked, left) = deliver(4, b"abcde", &[8]);
    assert_eq!(batches, [b"abcd".to_vec(), b"e".to_vec()]);
    assert_eq!(asked, 1);
    assert!(left.is_empty());
}

#[test]
fn full_uart_is_asked_until_it_has_space() {
    let (batches, asked, left) = deliver(0, b"ab", &[0, 0, 1, 0, 5]);
    assert_eq!(batches, [b"a".to_vec(), b"b".to_vec()]);
    assert_eq!(asked, 5);
    assert!(left.is_empty());
}

#[test]
fn full_uart_keeps_the_data() {
    let (batches, asked, left) = deliver(0, b"ab", &[0, 0]);
    assert!(batches.is_empty());
    assert_eq!(asked, 2);
    assert_eq!(left, b"ab");
}

#[test]
fn single_bytes_always_finish() {
    let data = b"word";
    let (batches, asked, left) = deliver(0, data, &[1, 1, 1, 1]);
    assert_eq!(lens(&batches), [1, 1, 1, 1]);
    assert_eq!(batches.concat(), data);
    assert_eq!(asked, 4);
    assert!(left.is_empty());
}

#[test]
fn written_space_no_longer_counts() {
    let mut d = device(0x120, 10);
    let mut b = Bytes::from_static(b"0123456");
    match d.into_uart_tx::<Failure>(&mut b, UartTxEvent::Start) {
        Ok(UartTxAction::Send(request)) => {
            assert_eq!(request.endpoint, 1);
            assert_eq!(&request.message[24..], b"0123");
        }
        other => panic!("{:?}", other),
    }
    assert_eq!(d.capacity, 6);
    assert_eq!(b, &b"456"[..]);
}

#[test]
fn failures_end_the_writing() {
    let mut d = device(0x400, 7);
    let mut b = Bytes::from_static(b"0123456789");
    assert_eq!(
        d.into_uart_tx(&mut b, UartTxEvent::Sent(Err("lost")))
            .unwrap_err(),
        DebugUsbError::Io("lost")
    );
    assert_eq!(
        d.into_uart_tx(&mut b, UartTxEvent::Free(Err("lost")))
            .unwrap_err(),
        DebugUsbError::Io("lost")
    );
    assert_eq!(
        d.into_uart_tx::<Failure>(&mut b, UartTxEvent::Free(Ok(tx_free_reply(9, 0))))
            .unwrap_err(),
        DebugUsbError::Read
    );
    assert_eq!(d.capacity, 7);
    assert_eq!(b.len(), 10);
}

#[test]
fn writing_to_an_unknown_version_fails() {
    let missing = DebugUsbError::MissingEndpoint(KisPortal::Pam, 0x500);
    let mut d = device(0x500, 0);
    let mut b = Bytes::from_static(b"0123456789");
    assert_eq!(
        d.into_uart_tx::<Failure>(&mut b, UartTxEvent::Start)
            .unwrap_err(),
        missing
    );
    assert_eq!(b.len(), 10);
    let mut d = device(0x500, 100);
    assert_eq!(
        d.into_uart_tx::<Failure>(&mut b, UartTxEvent::Start)
            .unwrap_err(),
        missing
    );
    assert_eq!(b, &b"89"[..]);
    assert_eq!(d.capacity, 100);
}

#[test]
fn uart_is_not_overrun() {
    let (batches, asked, left) = deliver(3, &[1; 100], &[10, 2, 0, 7]);
    assert_eq!(lens(&batches), [8, 2, 4]);
    assert_eq!(asked, 4);
    assert_eq!(left.len(), 86);
}

#[test]
fn answer_replaces_what_was_free() {
    // Three bytes are left of the first answer when the second comes.
    let (batches, asked, left) = deliver(0, &[1; 100], &[7, 7]);
    assert_eq!(lens(&batches), [4, 4]);
    assert_eq!(asked, 2);
    assert_eq!(left.len(), 92);
}
