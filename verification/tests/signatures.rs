use cheese::mem::signatures::{handle_hex_parse_error, sniff_region, transform_sig_from_human};

#[test]
fn transform_reads_hex_and_wildcards() {
    let v = transform_sig_from_human("48 8B 05 ?? ?? ?? ?? 33 D2", true).unwrap();
    assert_eq!(
        v,
        vec![Some(0x48), Some(0x8B), Some(0x05), None, None, None, None, Some(0x33), Some(0xD2)]
    );
}

#[test]
fn transform_single_question_mark_and_lowercase() {
    let v = transform_sig_from_human("? ff 0a ?x", true).unwrap();
    assert_eq!(v, vec![None, Some(0xFF), Some(0x0A), None]);
}

#[test]
fn transform_long_tokens_are_wildcards() {
    let v = transform_sig_from_human("ABC 12 €", true).unwrap();
    assert_eq!(v, vec![None, Some(0x12), None]);
}

#[test]
fn transform_plus_sign_and_single_digit() {
    let v = transform_sig_from_human("+F 7 +", false).unwrap();
    assert_eq!(v, vec![Some(0x0F), Some(0x07), None]);
}

#[test]
fn transform_splits_on_unicode_whitespace() {
    let v = transform_sig_from_human("  48\t8B\n\u{a0}05\u{3000}  ", true).unwrap();
    assert_eq!(v, vec![Some(0x48), Some(0x8B), Some(0x05)]);
}

#[test]
fn transform_empty_signature() {
    assert_eq!(transform_sig_from_human("", true).unwrap(), vec![]);
    assert_eq!(transform_sig_from_human("   ", true).unwrap(), vec![]);
}

#[test]
fn transform_strict_reports_first_malformed_byte() {
    let e = transform_sig_from_human("48 ZZ -1", true).unwrap_err();
    assert_eq!(
        e.message(),
        "Failed to parse byte \"48 ZZ -1\" in signature ZZ. CRASHING, SINCE WE'RE IN DEBUG MODE!"
    );
}

#[test]
fn transform_strict_rejects_two_byte_char() {
    let e = transform_sig_from_human("é", true).unwrap_err();
    assert!(e.message().contains("signature é."));
}

#[test]
fn transform_lenient_turns_malformed_bytes_into_wildcards() {
    let v = transform_sig_from_human("48 ZZ -1 é", false).unwrap();
    assert_eq!(v, vec![Some(0x48), None, None, None]);
}

#[test]
fn hex_parse_error_in_both_modes() {
    let mut t = vec![Some(1u8)];
    let e = handle_hex_parse_error(&mut t, "sig", "zz", true).unwrap_err();
    assert_eq!(t, vec![Some(1u8)]);
    assert!(e.message().starts_with("Failed to parse byte \"sig\" in signature zz."));
    assert!(handle_hex_parse_error(&mut t, "sig", "zz", false).is_ok());
    assert_eq!(t, vec![Some(1u8), None]);
}

#[test]
fn sniff_finds_first_match() {
    let hay = [1u8, 2, 3, 1, 2, 3, 4];
    assert_eq!(sniff_region(&hay, &[Some(1), Some(2), Some(3)]), Some(0));
    assert_eq!(sniff_region(&hay, &[Some(2), None, Some(4)]), Some(4));
    assert_eq!(sniff_region(&hay, &[Some(2), None, Some(5)]), None);
    assert_eq!(sniff_region(&hay, &[Some(3), None, Some(3)]), None);
    assert_eq!(sniff_region(&hay, &[Some(3), Some(4)]), Some(5));
    assert_eq!(sniff_region(&hay, &[None, None, Some(4)]), Some(4));
}

#[test]
fn sniff_edge_cases() {
    assert_eq!(sniff_region(&[], &[]), None);
    assert_eq!(sniff_region(&[], &[None]), None);
    assert_eq!(sniff_region(&[5], &[]), Some(0));
    assert_eq!(sniff_region(&[5], &[Some(5), None]), None);
    assert_eq!(sniff_region(&[5, 6], &[None, None]), Some(0));
    assert_eq!(sniff_region(&[5, 6], &[Some(5), Some(6)]), Some(0));
}

#[test]
fn written_pattern_reads_back() {
    let mut pattern: Vec<Option<u8>> = (0u8..=255).map(Some).collect();
    pattern.insert(7, None);
    pattern.push(None);
    let written: Vec<String> = pattern
        .iter()
        .map(|e| match e {
            Some(b) => format!("{:02X}", b),
            None => "??".to_string(),
        })
        .collect();
    let sig = written.join(" ");
    assert_eq!(transform_sig_from_human(&sig, true).unwrap(), pattern);
}
