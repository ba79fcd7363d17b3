use bytes::Bytes;
use kisd::base::{candidate_base, first_base, GuessAction, GuessBase};
use kisd::device::{DebugUsb, Request};
use kisd::error::DebugUsbError;
use kisd::order::ByteOrder;

type Failure = &'static str;

fn descriptor(address: u64) -> Bytes {
    let mut bytes = vec![0xa5u8; 32];
    bytes.extend_from_slice(&address.to_le_bytes());
    bytes.extend_from_slice(&[0x5a; 40]);
    Bytes::from(bytes)
}

fn probe_reply(performed: u32) -> Bytes {
    let mut bytes = vec![0u8; 16];
    bytes.extend_from_slice(&performed.to_le_bytes());
    bytes.extend_from_slice(&[0; 4]);
    Bytes::from(bytes)
}

/// The address that a request reads from.
fn address_read(request: &Request) -> u64 {
    let mut addr = [0; 8];
    addr.copy_from_slice(&request.message[12..20]);
    u64::from_le_bytes(addr)
}

fn start(version: u16, address: u64) -> (DebugUsb, GuessBase, Request) {
    let (mut d, guess) = DebugUsb::open(None, version, ByteOrder::Little);
    let (state, _) = guess.unwrap();
    match d.guess_base::<Failure>(state, Ok(descriptor(address))) {
        Ok(GuessAction::Request(state, request)) => (d, state, request),
        other => panic!("{:?}", other),
    }
}

/// The base that is guessed where the device answers at `base` alone.
fn guess(version: u16, address: u64, base: u64) -> Result<u64, DebugUsbError<Failure>> {
    let (mut d, mut state, mut request) = start(version, address);
    loop {
        let answers = address_read(&request) == base + 0x13_4014;
        match d.guess_base(state, Ok(probe_reply(answers as u32)))? {
            GuessAction::Request(s, r) => {
                state = s;
                request = r;
            }
            GuessAction::Found => return Ok(d.base),
        }
    }
}

#[test]
fn given_base_is_taken() {
    let (d, guess) = DebugUsb::open(Some(0x2_9240_0000), 0x120, ByteOrder::Little);
    assert_eq!(d.base, 0x2_9240_0000);
    assert_eq!(d.device_version, 0x120);
    assert_eq!(d.capacity, 0);
    assert!(guess.is_none());
}

#[test]
fn absent_base_is_guessed() {
    let (d, guess) = DebugUsb::open(None, 0x120, ByteOrder::Little);
    assert_eq!(d.base, 0);
    let (state, request) = guess.unwrap();
    assert_eq!(state, GuessBase::Descriptor);
    assert_eq!(request.endpoint, 1);
    assert_eq!(request.message.len(), 24);
    assert_eq!(request.message[20], 80);
}

#[test]
fn known_bases_are_guessed() {
    // Chips whose base is the address that the descriptor names, rounded down.
    for (version, base) in [
        (0x120, 0x2_3d00_0000u64),
        (0x200, 0x2_3d00_0000),
        (0x400, 0x2_e400_0000),
        (0x400, 0x3_c800_0000),
        (0x400, 0x3_4800_0000),
    ] {
        assert_eq!(guess(version, base, base), Ok(base));
        assert_eq!(guess(version, base + 0xff_ffff, base), Ok(base));
    }
}

#[test]
fn other_distances_are_tried() {
    assert_eq!(guess(0x120, 0x2_9200_0123, 0x2_9240_0000), Ok(0x2_9240_0000));
    assert_eq!(guess(0x400, 0x5_4912_3456, 0x5_4870_0000), Ok(0x5_4870_0000));
}

#[test]
fn bit_24_is_cleared_from_version_4_on() {
    let (d, _, _) = start(0x400, 0x2_e5ff_ffff);
    assert_eq!(d.base, 0x2_e400_0000);
    let (d, _, _) = start(0x300, 0x2_e5ff_ffff);
    assert_eq!(d.base, 0x2_e500_0000);
}

#[test]
fn bases_are_tried_in_order() {
    let (mut d, mut state, request) = start(0x200, 0x1234_5678);
    assert_eq!(request.endpoint, 3);
    assert_eq!(address_read(&request), 0x1200_0000 + 0x13_4014);
    for offset in [0x40_0000u64, 0x70_0000] {
        match d.guess_base::<Failure>(state, Err("lost")) {
            Ok(GuessAction::Request(s, r)) => {
                assert_eq!(d.base, 0x1200_0000 + offset);
                assert_eq!(address_read(&r), 0x1200_0000 + offset + 0x13_4014);
                state = s;
            }
            other => panic!("{:?}", other),
        }
    }
    assert_eq!(
        d.guess_base::<Failure>(state, Ok(probe_reply(0))).unwrap_err(),
        DebugUsbError::UnknownBase
    );
    assert_eq!(d.base, 0);
}

#[test]
fn highest_address_has_registers() {
    let (mut d, mut state, _) = start(0x120, u64::MAX);
    for _ in 0..2 {
        match d.guess_base::<Failure>(state, Ok(probe_reply(0))) {
            Ok(GuessAction::Request(s, _)) => state = s,
            other => panic!("{:?}", other),
        }
    }
    assert_eq!(d.base, 0xffff_ffff_ff70_0000);
    assert!(d.base_in_range());
}

#[test]
fn failed_descriptor_is_passed_on() {
    let (mut d, _) = DebugUsb::open(None, 0x120, ByteOrder::Little);
    assert_eq!(
        d.guess_base(GuessBase::Descriptor, Err("lost")).unwrap_err(),
        DebugUsbError::Request("lost")
    );
    assert_eq!(d.base, 0);
}

#[test]
fn unknown_version_has_no_base() {
    let (mut d, _) = DebugUsb::open(None, 0x500, ByteOrder::Little);
    assert_eq!(
        d.guess_base::<Failure>(GuessBase::Descriptor, Ok(descriptor(0x2_3d00_0000)))
            .unwrap_err(),
        DebugUsbError::UnknownBase
    );
    assert_eq!(d.base, 0);
}

#[test]
fn bases_of_a_descriptor() {
    let first = first_base(0x400, descriptor(0x5_4912_3456));
    assert_eq!(first, 0x5_4800_0000);
    assert_eq!(candidate_base(first, 0), 0x5_4800_0000);
    assert_eq!(candidate_base(first, 1), 0x5_4840_0000);
    assert_eq!(candidate_base(first, 2), 0x5_4870_0000);
    assert_eq!(first_base(0x300, descriptor(0x5_4912_3456)), 0x5_4900_0000);
}
