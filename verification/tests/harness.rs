use tc_calc_fuzzer::harness::{harness_text, recorded_input_len, should_write_diff, strip_nul_bytes};

#[test]
fn nul_bytes_are_removed_in_order() {
    assert_eq!(strip_nul_bytes(&[0, b'1', 0, b'+', b'2', 0]), b"1+2".to_vec());
    assert_eq!(strip_nul_bytes(&[]), Vec::<u8>::new());
    assert_eq!(strip_nul_bytes(&[0, 0]), Vec::<u8>::new());
}

#[test]
fn empty_or_nul_only_input_is_skipped() {
    assert_eq!(harness_text(&[]), None);
    assert_eq!(harness_text(&[0, 0, 0]), None);
}

#[test]
fn invalid_utf8_is_skipped() {
    assert_eq!(harness_text(&[b'1', 0xff]), None);
    assert_eq!(harness_text(&[0xc3]), None);
}

#[test]
fn valid_text_is_passed_on_without_nul() {
    assert_eq!(harness_text(&[b'1', 0, b'*', b'2']), Some(b"1*2".to_vec()));
    let utf8 = "é+1".as_bytes();
    assert_eq!(harness_text(utf8), Some(utf8.to_vec()));
}

#[test]
fn smaller_inputs_replace_recorded_ones() {
    assert!(should_write_diff(10, None));
    assert!(should_write_diff(10, Some(11)));
    assert!(!should_write_diff(10, Some(10)));
    assert!(!should_write_diff(12, Some(3)));
}

#[test]
fn recorded_input_is_read_from_the_report() {
    let report = b"1+2\n[tc-calc]: 3  !=  [PYTHON3]: 4".to_vec();
    assert_eq!(recorded_input_len(&report), Some(3));
    let with_newline = b"1\n[tc-calc]: +2\n[tc-calc]: inf  !=  [PYTHON3]: ERR".to_vec();
    assert_eq!(recorded_input_len(&with_newline), Some(15));
    assert_eq!(recorded_input_len(b"no report here"), None);
    assert_eq!(recorded_input_len(b""), None);
}

#[test]
fn shorter_input_with_longer_report_is_written() {
    let old_report = format!("{}\n[tc-calc]: {}  !=  [PYTHON3]: {}", "1+2+3", 6, 7);
    let new_input = "1<<9";
    let new_report = format!("{}\n[tc-calc]: {}  !=  [PYTHON3]: {}", new_input, 633825300114114700748351602688.0f64, "ERR");
    assert!(new_report.len() > old_report.len());
    let recorded = recorded_input_len(old_report.as_bytes());
    assert_eq!(recorded, Some(5));
    assert!(should_write_diff(new_input.len(), recorded));
}
