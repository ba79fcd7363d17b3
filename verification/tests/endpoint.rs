use kisd::endpoint::{in_address, needs_transfer, received, Channels};

#[test]
fn addresses_for_transfers_from_the_device() {
    assert_eq!(in_address(1), 0x81);
    assert_eq!(in_address(4), 0x84);
    assert_eq!(in_address(0x81), 0x81);
}

#[test]
fn eight_transfers_are_kept_under_way() {
    assert!(needs_transfer(0));
    assert!(needs_transfer(7));
    assert!(!needs_transfer(8));
    assert!(!needs_transfer(9));
}

#[test]
fn transfers_are_copied() {
    let buffer = vec![3u8, 1, 2];
    assert_eq!(&received(&buffer)[..], [3, 1, 2]);
    assert!(received(&[]).is_empty());
}

#[test]
fn channels_are_opened_once() {
    let mut channels: Channels<u32> = Channels::new();
    assert!(!channels.is_open(3));
    assert_eq!(channels.get(3, None), None);
    assert!(!channels.is_open(3));
    assert_eq!(channels.get(3, Some(10)), Some(&mut 10));
    assert!(channels.is_open(3));
    assert!(!channels.is_open(1));
    assert_eq!(channels.get(3, Some(20)), Some(&mut 10));
    *channels.get(3, None).unwrap() = 11;
    assert_eq!(channels.get(1, Some(5)), Some(&mut 5));
    assert_eq!(channels.get(3, None), Some(&mut 11));
}
