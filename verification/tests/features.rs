use cheese::features::player::{
    decrease_wanted, increase_wanted, refill_ammo_write, MAX_WANTED_LEVEL, REFILL_AMMO_AMOUNT,
};
use cheese::features::versioning::{version_from_raw, version_string_address, VERSION_SIZE};

#[test]
fn wanted_level_steps() {
    assert_eq!(increase_wanted(0), Some(1));
    assert_eq!(increase_wanted(4), Some(5));
    assert_eq!(increase_wanted(5), Some(5));
    assert_eq!(increase_wanted(100), Some(5));
    assert_eq!(increase_wanted(u32::MAX), None);
    assert_eq!(decrease_wanted(0), Some(0));
    assert_eq!(decrease_wanted(1), Some(0));
    assert_eq!(decrease_wanted(5), Some(4));
    assert_eq!(decrease_wanted(0x7FFF_FFFF), Some(0x7FFF_FFFE));
    assert_eq!(decrease_wanted(0x8000_0000), None);
    assert_eq!(decrease_wanted(0x8000_0001), Some(0));
    assert_eq!(decrease_wanted(u32::MAX), Some(0));
    for level in 0..MAX_WANTED_LEVEL {
        assert_eq!(decrease_wanted(increase_wanted(level).unwrap()), Some(level));
    }
    assert_eq!(REFILL_AMMO_AMOUNT, 9999);
}

#[test]
fn decrease_matches_signed_arithmetic() {
    for level in [0u32, 1, 2, 5, 1000, 0x7FFF_FFFF, 0x8000_0001, 0xFFFF_FFFE, u32::MAX] {
        let expected = ((level as i32).checked_sub(1)).map(|d| d.max(0) as u32);
        assert_eq!(decrease_wanted(level), expected);
    }
}

#[test]
fn version_strings() {
    let mut raw = b"1.0.3095.0".to_vec();
    raw.resize(32, 0);
    assert_eq!(version_from_raw(&raw).as_deref(), Some("1.0.3095.0"));
    assert_eq!(version_from_raw(&[0, 65, 66]).as_deref(), Some(""));
    assert_eq!(version_from_raw(b"abc"), None);
    assert_eq!(version_from_raw(&[]), None);
    assert_eq!(version_from_raw(&[0x66, 0xFF, 0x67, 0, 0x68]).as_deref(), Some("f\u{FFFD}g"));
    assert_eq!(version_string_address(0x1000, 0), Some(0x1000));
    assert_eq!(version_string_address(0x1000, 2), Some(0x1000 + 2 * VERSION_SIZE));
    assert_eq!(version_string_address(usize::MAX, 1), None);
}

#[test]
fn refill_writes_every_ammo_type_once() {
    let mut writes = Vec::new();
    let mut next = 0u32;
    while let Some(w) = refill_ammo_write(Some(3), next) {
        writes.push(w);
        next += 1;
    }
    assert_eq!(writes, vec![(0, 9999), (1, 9999), (2, 9999)]);
    assert_eq!(refill_ammo_write(None, 0), None);
    assert_eq!(refill_ammo_write(Some(0), 0), None);
    assert_eq!(refill_ammo_write(Some(u32::MAX), u32::MAX - 1), Some(((u32::MAX - 1) as usize, REFILL_AMMO_AMOUNT)));
    assert_eq!(refill_ammo_write(Some(u32::MAX), u32::MAX), None);
}
