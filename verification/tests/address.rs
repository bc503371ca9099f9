use anchor_lang::prelude::Pubkey;
use solana_dex::Address;

fn bytes_with(index: usize, value: u8) -> [u8; 32] {
    let mut bytes = [7u8; 32];
    bytes[index] = value;
    bytes
}

#[test]
fn address_keeps_its_bytes() {
    let bytes = bytes_with(5, 200);
    let address = Address::new_from_array(bytes);
    assert_eq!(address.to_bytes(), bytes);
    assert_eq!(address.bytes, bytes);
}

#[test]
fn default_address_is_all_zero() {
    assert_eq!(Address::default().to_bytes(), [0u8; 32]);
    assert_eq!(Address::zeroed(), Address::default());
    assert_eq!(Address::default().to_bytes(), Pubkey::default().to_bytes());
}

#[test]
fn addresses_are_equal_by_bytes() {
    let a = Address::new_from_array(bytes_with(31, 1));
    let b = Address::new_from_array(bytes_with(31, 1));
    let c = Address::new_from_array(bytes_with(31, 2));
    let d = Address::new_from_array(bytes_with(0, 8));
    assert!(a == b);
    assert!(a != c);
    assert!(a != d);
    assert_eq!(a, b);
    assert_ne!(c, d);
}

#[test]
fn order_is_decided_by_the_first_differing_byte() {
    let low = Address::new_from_array(bytes_with(3, 1));
    let high = Address::new_from_array(bytes_with(3, 9));
    assert!(low.lt(&high));
    assert!(!high.lt(&low));
    assert!(low < high);
    assert!(high > low);

    let mut early = [0u8; 32];
    early[0] = 1;
    let mut late = [255u8; 32];
    late[0] = 0;
    let early = Address::new_from_array(early);
    let late = Address::new_from_array(late);
    assert!(late.lt(&early));
    assert!(!early.lt(&late));
}

#[test]
fn order_is_strict() {
    let a = Address::new_from_array(bytes_with(10, 3));
    assert!(!a.lt(&a));
    assert!(!(a < a));
    assert!(a <= a);
    assert_eq!(a.partial_cmp(&a), Some(std::cmp::Ordering::Equal));
    assert_eq!(a.cmp(&a), std::cmp::Ordering::Equal);
}

#[test]
fn order_compares_bytes_unsigned() {
    let small = Address::new_from_array(bytes_with(0, 127));
    let large = Address::new_from_array(bytes_with(0, 128));
    assert!(small.lt(&large));
    assert!(!large.lt(&small));
    let last_small = Address::new_from_array(bytes_with(31, 0));
    let last_large = Address::new_from_array(bytes_with(31, 255));
    assert!(last_small.lt(&last_large));
}

#[test]
fn order_agrees_with_ledger_keys() {
    let samples: Vec<[u8; 32]> = vec![
        [0u8; 32],
        [255u8; 32],
        bytes_with(0, 0),
        bytes_with(0, 255),
        bytes_with(15, 6),
        bytes_with(15, 8),
        bytes_with(31, 0),
        bytes_with(31, 200),
        bytes_with(1, 7),
    ];
    for a in samples.iter() {
        for b in samples.iter() {
            let ours = Address::new_from_array(*a).lt(&Address::new_from_array(*b));
            let theirs = Pubkey::new_from_array(*a) < Pubkey::new_from_array(*b);
            assert_eq!(ours, theirs);
            assert_eq!(
                Address::new_from_array(*a).partial_cmp(&Address::new_from_array(*b)),
                Pubkey::new_from_array(*a).partial_cmp(&Pubkey::new_from_array(*b))
            );
            assert_eq!(
                Address::new_from_array(*a).cmp(&Address::new_from_array(*b)),
                Pubkey::new_from_array(*a).cmp(&Pubkey::new_from_array(*b))
            );
            assert_eq!(
                Address::new_from_array(*a) == Address::new_from_array(*b),
                Pubkey::new_from_array(*a) == Pubkey::new_from_array(*b)
            );
        }
    }
}
