use cheese::mem::mem::{is_addr_valid, is_executable_module};
use cheese::mem::offsets::{OffsetAction, OffsetOutcome, OffsetWalk};
use cheese::mem::scan::{RegionInfo, ScanAction, SigScan, PAGE_EXECUTE_READWRITE, PAGE_READWRITE};
use std::collections::HashMap;

fn run_walk(addr: usize, offsets: &[usize], mem: &HashMap<usize, u32>) -> (OffsetOutcome, Vec<usize>) {
    let (mut w, mut a) = OffsetWalk::apply_offsets(addr, offsets);
    let mut reads = Vec::new();
    loop {
        match a {
            OffsetAction::ReadU32(p) => {
                reads.push(p);
                a = w.resume(mem.get(&p).copied());
            }
            OffsetAction::Finished(o) => return (o, reads),
        }
    }
}

fn resolved(o: OffsetOutcome) -> Option<usize> {
    match o {
        OffsetOutcome::Resolved(a) => Some(a),
        _ => None,
    }
}

#[test]
fn walk_resolves_rip_relative_operand() {
    let mut mem = HashMap::new();
    mem.insert(0x1003, 0x20u32);
    let (o, reads) = run_walk(0x1000, &[3, 7], &mem);
    assert_eq!(reads, vec![0x1003]);
    assert_eq!(resolved(o), Some(0x1000 + 0x20 + 7));
}

#[test]
fn walk_without_offsets_keeps_address_even_null() {
    let (o, reads) = run_walk(0, &[], &HashMap::new());
    assert!(reads.is_empty());
    assert_eq!(resolved(o), Some(0));
}

#[test]
fn walk_single_offset_is_read_but_not_added() {
    let mut mem = HashMap::new();
    mem.insert(0x105, 0x10u32);
    let (o, reads) = run_walk(0x100, &[5], &mem);
    assert_eq!(reads, vec![0x105]);
    assert_eq!(resolved(o), Some(0x110));
}

#[test]
fn walk_three_offsets_reads_twice() {
    let mut mem = HashMap::new();
    mem.insert(0x101, 0x100u32);
    mem.insert(0x202, 0x1000u32);
    let (o, reads) = run_walk(0x100, &[1, 2, 3], &mem);
    assert_eq!(reads, vec![0x101, 0x202]);
    assert_eq!(resolved(o), Some(0x1200 + 3));
}

#[test]
fn walk_errors_and_messages() {
    let (o, _) = run_walk(0x100, &[1, 2], &HashMap::new());
    assert!(matches!(o, OffsetOutcome::ReadFailed));
    assert_eq!(o.into_result().unwrap_err().message(), "Could not read offset");
    let (o, reads) = run_walk(0, &[0, 2], &HashMap::new());
    assert!(reads.is_empty());
    assert!(matches!(o, OffsetOutcome::InvalidMemory));
    assert_eq!(
        o.into_result().unwrap_err().message(),
        "The provided signature offsets ended up in invalid memory"
    );
    let (o, _) = run_walk(usize::MAX, &[1], &HashMap::new());
    assert!(matches!(o, OffsetOutcome::Overflow));
    let mut mem = HashMap::new();
    mem.insert(0x10, 0u32);
    let (o, _) = run_walk(0x10, &[0, 0], &mem);
    assert_eq!(resolved(o), Some(0x10));
}

struct FakeProcess {
    regions: Vec<RegionInfo>,
    bytes: HashMap<usize, Vec<u8>>,
    words: HashMap<usize, u32>,
}

fn run_scan(p: &FakeProcess, start: (SigScan, ScanAction)) -> (ScanAction, usize) {
    let (mut s, mut a) = start;
    let mut steps = 0;
    loop {
        steps += 1;
        assert!(steps < 1000);
        a = match a {
            ScanAction::QueryRegion(addr) => {
                let r = p.regions.iter().find(|r| r.base <= addr && addr < r.base + r.size);
                s.resume_region(r.map(|r| RegionInfo { base: r.base, size: r.size, protect: r.protect }))
            }
            ScanAction::ReadRegion(base, size) => {
                let m = p.bytes.get(&base).filter(|b| b.len() == size).cloned();
                s.resume_memory(m)
            }
            ScanAction::ReadU32(addr) => s.resume_u32(p.words.get(&addr).copied()),
            done => return (done, steps),
        }
    }
}

fn fake() -> FakeProcess {
    let mut bytes = HashMap::new();
    bytes.insert(0x0, vec![0u8; 0x10]);
    bytes.insert(0x10, vec![0x90, 0x48, 0x8B, 0x05, 0x10, 0, 0, 0, 0x33, 0xD2, 0, 0, 0, 0, 0, 0]);
    bytes.insert(0x20, vec![0x48, 0x8B, 0x05, 0x11, 0x22, 0x33, 0x44, 0x33, 0, 0, 0, 0, 0, 0, 0, 0]);
    let mut words = HashMap::new();
    words.insert(0x14, 0x100u32);
    words.insert(0x23, 0x200u32);
    FakeProcess {
        regions: vec![
            RegionInfo { base: 0x0, size: 0x10, protect: PAGE_EXECUTE_READWRITE },
            RegionInfo { base: 0x10, size: 0x10, protect: PAGE_READWRITE },
            RegionInfo { base: 0x20, size: 0x10, protect: PAGE_EXECUTE_READWRITE },
        ],
        bytes,
        words,
    }
}

#[test]
fn scan_sig_only_searches_code_regions() {
    let p = fake();
    let (a, _) = run_scan(&p, SigScan::scan_sig("48 8B 05 ?? ?? ?? ?? 33", &[3, 7], true));
    match a {
        ScanAction::Finished(Ok(addr)) => assert_eq!(addr, 0x20 + 0x200 + 7),
        _ => panic!("expected a resolved address"),
    }
}

#[test]
fn scan_for_data_sig_searches_data_regions() {
    let p = fake();
    let (a, _) = run_scan(&p, SigScan::scan_for_data_sig("48 8B 05 ?? ?? ?? ?? 33", &[3, 7], true));
    match a {
        ScanAction::Finished(Ok(addr)) => assert_eq!(addr, 0x11 + 0x100 + 7),
        _ => panic!("expected a resolved address"),
    }
}

#[test]
fn scan_reports_regions_scanned_when_not_found() {
    let p = fake();
    let (a, _) = run_scan(&p, SigScan::scan_sig("DE AD BE EF", &[], true));
    match a {
        ScanAction::Finished(Err(e)) => assert_eq!(e.message(), "Did not find signature. Scanned 3 regions"),
        _ => panic!("expected an error"),
    }
}

#[test]
fn scan_without_offsets_returns_match_address() {
    let p = fake();
    let (a, _) = run_scan(&p, SigScan::scan_sig("11 22 33 44", &[], true));
    match a {
        ScanAction::Finished(Ok(addr)) => assert_eq!(addr, 0x23),
        _ => panic!("expected the match address"),
    }
}

#[test]
fn scan_strict_signature_error_ends_at_once() {
    let (_, a) = SigScan::scan_sig("48 QQ", &[3, 7], true);
    match a {
        ScanAction::Finished(Err(e)) => assert!(e.message().contains("signature QQ.")),
        _ => panic!("expected a signature error"),
    }
    let (_, a) = SigScan::scan_sig("48 QQ", &[3, 7], false);
    assert!(matches!(a, ScanAction::QueryRegion(0)));
}

#[test]
fn scan_failed_read_queries_same_address_again() {
    let (mut s, a) = SigScan::scan_sig("48", &[], true);
    assert!(matches!(a, ScanAction::QueryRegion(0)));
    let a = s.resume_region(Some(RegionInfo { base: 0, size: 0x1000, protect: 0x40 }));
    assert!(matches!(a, ScanAction::ReadRegion(0, 0x1000)));
    let a = s.resume_memory(None);
    assert!(matches!(a, ScanAction::QueryRegion(0)));
}

#[test]
fn scan_skips_regions_without_mask_bits() {
    let (mut s, _) = SigScan::scan_sig("48", &[], true);
    let a = s.resume_region(Some(RegionInfo { base: 0, size: 0x1000, protect: PAGE_READWRITE }));
    assert!(matches!(a, ScanAction::QueryRegion(0x1000)));
    let a = s.resume_region(Some(RegionInfo { base: 0x1000, size: 0x10, protect: 0x40 | 0x04 }));
    assert!(matches!(a, ScanAction::ReadRegion(0x1000, 0x10)));
}

#[test]
fn scan_offset_read_failure_is_an_error() {
    let (mut s, _) = SigScan::scan_sig("48", &[1, 2], true);
    s.resume_region(Some(RegionInfo { base: 0x10, size: 2, protect: 0x40 }));
    let a = s.resume_memory(Some(vec![0x00, 0x48]));
    assert!(matches!(a, ScanAction::ReadU32(0x12)));
    match s.resume_u32(None) {
        ScanAction::Finished(Err(e)) => assert_eq!(e.message(), "Could not read offset"),
        _ => panic!("expected an error"),
    }
}

#[test]
fn null_is_the_only_invalid_address() {
    assert!(!is_addr_valid(0));
    assert!(is_addr_valid(1));
    assert!(is_addr_valid(usize::MAX));
}

#[test]
fn executable_module_names() {
    assert!(is_executable_module("C:\\Games\\GTA5.exe"));
    assert!(is_executable_module(".exe"));
    assert!(!is_executable_module("exe"));
    assert!(!is_executable_module("C:\\Windows\\ntdll.dll"));
    assert!(!is_executable_module("GTA5.EXE"));
    assert!(!is_executable_module("game.exe.dll"));
    assert!(is_executable_module("jeu-é.exe"));
}

#[test]
fn scan_stops_when_addresses_overflow() {
    let (mut s, a) = SigScan::scan_sig("48", &[], true);
    assert!(matches!(a, ScanAction::QueryRegion(0)));
    let a = s.resume_region(Some(RegionInfo { base: 0, size: usize::MAX, protect: 0 }));
    assert!(matches!(a, ScanAction::QueryRegion(usize::MAX)));
    let a = s.resume_region(Some(RegionInfo { base: usize::MAX, size: 1, protect: 0 }));
    assert!(matches!(a, ScanAction::Overflow));

    let (mut s, _) = SigScan::scan_sig("48", &[], true);
    let a = s.resume_region(Some(RegionInfo { base: usize::MAX, size: 2, protect: PAGE_EXECUTE_READWRITE }));
    assert!(matches!(a, ScanAction::ReadRegion(usize::MAX, 2)));
    let a = s.resume_memory(Some(vec![0x00, 0x48]));
    assert!(matches!(a, ScanAction::Overflow));
}
