use cheese::classes::ammo_repository::{AmmoCountAction, AmmoError, AmmoSetAction, CAmmoItemRepositoryPtr};
use cheese::classes::inventory::CInventoryPtr;
use cheese::classes::ped_factory::{CControlledByInfo, CPedFactoryPtr};
use cheese::classes::player_info::CPlayerInfoPtr;
use cheese::classes::vehicle::CVehiclePtr;
use cheese::classes::wanted::CWantedPtr;
use std::collections::HashMap;

#[test]
fn controlled_by_info_classes() {
    let cases = [(false, false), (true, false), (false, true), (true, true)];
    for (n, p) in cases {
        let c = CControlledByInfo::new(n, p);
        assert_eq!(c.is_controlled_by_network(), n);
        assert_eq!(c.is_controlled_by_local_or_network_player(), p);
        assert_eq!(c.is_controlled_by_local_or_network_ai(), !p);
        assert_eq!(c.is_controlled_by_local_ai(), !n && !p);
        assert_eq!(c.is_controlled_by_network_ai(), n && !p);
        assert_eq!(c.is_controlled_by_local_player(), !n && p);
        assert_eq!(c.is_controlled_by_network_player(), n && p);
        let classes = [
            c.is_controlled_by_local_ai(),
            c.is_controlled_by_network_ai(),
            c.is_controlled_by_local_player(),
            c.is_controlled_by_network_player(),
        ];
        assert_eq!(classes.iter().filter(|b| **b).count(), 1);
    }
}

#[test]
fn controlled_by_info_set_copies() {
    let mut a = CControlledByInfo::new(false, false);
    let b = CControlledByInfo::new(true, true);
    a.set(&b);
    assert!(a.is_controlled_by_network_player());
}

#[test]
fn pointer_offsets() {
    let wanted = CPlayerInfoPtr(0x1000).get_wanted();
    assert_eq!(wanted.0, 0x1830);
    assert_eq!(wanted.wanted_level_address(), 0x18E8);
    assert_eq!(CInventoryPtr(0x500).get_ammo_repositoy().0, 0x548);
    assert_eq!(CVehiclePtr(0x77).up().0, 0x77);
    let phys = CVehiclePtr(0x100).up();
    assert_eq!(phys.health_address(), 0x380);
    assert_eq!(phys.max_health_address(), 0x384);
}

#[test]
fn local_player_and_ped_offsets() {
    let f = CPedFactoryPtr(0x2000);
    assert_eq!(f.local_player_address(), 0x2008);
    assert!(CPedFactoryPtr::local_player(0).is_none());
    let ped = CPedFactoryPtr::local_player(0x4000).unwrap();
    assert_eq!(ped.address(), 0x4000);
    assert_eq!(ped.up().0, 0x4000);
    assert_eq!(ped.player_info_address(), 0x50A8);
    assert_eq!(ped.inventory_address(), 0x50B0);
    assert_eq!(ped.set_seatbelt(true), (0x543C, 0xC9i32));
    assert_eq!(ped.set_seatbelt(false), (0x543C, 0xC8i32));
    assert_eq!(ped.set_seatbelt(true).1.to_le_bytes(), [0xC9, 0, 0, 0]);
}

#[test]
fn wanted_level_conversion_table() {
    let expected = [0u32, 50, 180, 550, 1200, 3800, 5000, 5000];
    for (level, heat) in expected.iter().enumerate() {
        assert_eq!(CWantedPtr::convert_wanted_level(level as u32), *heat);
    }
    assert_eq!(CWantedPtr::convert_wanted_level(u32::MAX), 5000);
}

#[test]
fn set_wanted_level_writes_level_then_heat() {
    let (a, b) = CWantedPtr(0x1000).set_wanted_level(3);
    assert_eq!((a.address, a.value), (0x10B8, 3));
    assert_eq!((b.address, b.value), (0x1020, 550));
}

#[test]
fn ammo_addresses() {
    assert_eq!(CAmmoItemRepositoryPtr::slot_address(0x1000, 3), Some(0x1018));
    assert_eq!(CAmmoItemRepositoryPtr::slot_address(usize::MAX, 1), None);
    assert_eq!(CAmmoItemRepositoryPtr::slot_address(0, usize::MAX), None);
    assert!(matches!(CAmmoItemRepositoryPtr::ammo_address(0), Err(AmmoError::NullElement)));
    assert!(matches!(CAmmoItemRepositoryPtr::ammo_address(0x100), Ok(Some(0x120))));
    assert!(matches!(CAmmoItemRepositoryPtr::ammo_address(usize::MAX), Ok(None)));
    assert_eq!(AmmoError::ArrayNotFound.message(), "Array not found");
    assert_eq!(AmmoError::ElementNotFound.message(), "Array element not found");
    assert_eq!(AmmoError::NullElement.message(), "Array Element was null pointer");
}

fn count(repo: usize, mem: &HashMap<usize, usize>) -> Option<u32> {
    let (mut c, mut a) = CAmmoItemRepositoryPtr(repo).get_ammo_type_amount();
    loop {
        match a {
            AmmoCountAction::ReadPointer(p) => a = c.resume(mem.get(&p).copied()),
            AmmoCountAction::Done(n) => return n,
            AmmoCountAction::Overflow => panic!("overflow"),
        }
    }
}

#[test]
fn ammo_type_count_stops_at_null() {
    let mut mem = HashMap::new();
    mem.insert(0x10, 0x1000);
    mem.insert(0x1000, 7);
    mem.insert(0x1008, 8);
    mem.insert(0x1010, 9);
    mem.insert(0x1018, 0);
    mem.insert(0x1020, 5);
    assert_eq!(count(0x10, &mem), Some(3));
    mem.insert(0x1000, 0);
    assert_eq!(count(0x10, &mem), Some(0));
    mem.remove(&0x1000);
    assert_eq!(count(0x10, &mem), None);
    assert_eq!(count(0x99, &mem), None);
}

fn set(repo: usize, idx: usize, amount: u32, mem: &HashMap<usize, usize>) -> AmmoSetAction {
    let (mut s, mut a) = CAmmoItemRepositoryPtr(repo).set_ammo_amount(idx, amount);
    loop {
        match a {
            AmmoSetAction::ReadPointer(p) => a = s.resume(mem.get(&p).copied()),
            done => return done,
        }
    }
}

#[test]
fn set_ammo_amount_writes_into_the_item() {
    let mut mem = HashMap::new();
    mem.insert(0x10, 0x1000);
    mem.insert(0x1000, 0x7000);
    mem.insert(0x1008, 0x8000);
    mem.insert(0x1010, 0);
    assert!(matches!(set(0x10, 1, 9999, &mem), AmmoSetAction::Write(0x8020, 9999)));
    assert!(matches!(set(0x10, 0, 5, &mem), AmmoSetAction::Write(0x7020, 5)));
    assert!(matches!(set(0x10, 2, 5, &mem), AmmoSetAction::Failed(AmmoError::NullElement)));
    assert!(matches!(set(0x10, 3, 5, &mem), AmmoSetAction::Failed(AmmoError::ElementNotFound)));
    assert!(matches!(set(0x20, 0, 5, &mem), AmmoSetAction::Failed(AmmoError::ArrayNotFound)));
    mem.insert(0x30, usize::MAX);
    assert!(matches!(set(0x30, 1, 5, &mem), AmmoSetAction::Overflow));
    mem.insert(0x40, 0x2000);
    mem.insert(0x2000, usize::MAX - 4);
    assert!(matches!(set(0x40, 0, 5, &mem), AmmoSetAction::Overflow));
}
