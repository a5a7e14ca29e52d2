use rapidraw_cli::masks::{count_skipped, skipped_note, MaskDefinition, SubMask};
use rapidraw_cli::numbers::{decimal, parse_unsigned};
use rapidraw_cli::text::{append_left_aligned, append_right_aligned, append_run, same_text};
use rapidraw_cli::timing::{millis, ms, report, timing_table, Timing};

fn mask(types: &[&str]) -> MaskDefinition {
    MaskDefinition {
        sub_masks: types
            .iter()
            .map(|mask_type| SubMask { mask_type: mask_type.to_string() })
            .collect(),
    }
}

#[test]
fn numbers_are_read() {
    assert_eq!(parse_unsigned("0", 255), Some(0));
    assert_eq!(parse_unsigned("255", 255), Some(255));
    assert_eq!(parse_unsigned("256", 255), None);
    assert_eq!(parse_unsigned("+12", 255), Some(12));
    assert_eq!(parse_unsigned("000000000000000000000012", 255), Some(12));
    assert_eq!(parse_unsigned("4294967295", 4294967295), Some(4294967295));
    assert_eq!(parse_unsigned("4294967296", 4294967295), None);
    assert_eq!(parse_unsigned("99999999999999999999999999", 4294967295), None);
    for bad in ["", "+", "-", "-0", "1+", " 1", "1 ", "0x10", "٣"] {
        assert_eq!(parse_unsigned(bad, 255), None);
    }
}

#[test]
fn numbers_are_written() {
    assert_eq!(decimal(0), "0");
    assert_eq!(decimal(10), "10");
    assert_eq!(decimal(1907), "1907");
    assert_eq!(decimal(u128::MAX), u128::MAX.to_string());
}

#[test]
fn written_numbers_read_back() {
    for number in [0u32, 9, 10, 99, 100, 65535, 4294967295] {
        assert_eq!(parse_unsigned(&decimal(number as u128), u32::MAX), Some(number));
    }
}

#[test]
fn texts_are_compared_by_character() {
    assert!(same_text("jpg", "jpg"));
    assert!(!same_text("jpg", "jpeg"));
    assert!(!same_text("jpg", "JPG"));
    assert!(same_text("", ""));
}

#[test]
fn texts_are_aligned() {
    let mut out = String::from("|");
    append_left_aligned(&mut out, "ab", 4);
    append_right_aligned(&mut out, "cd", 4);
    append_left_aligned(&mut out, "long", 2);
    append_right_aligned(&mut out, "long", 4);
    append_run(&mut out, "-", 3);
    append_run(&mut out, "-", 0);
    assert_eq!(out, "|ab    cdlonglong---");
}

#[test]
fn alignment_counts_characters() {
    let mut out = String::new();
    append_left_aligned(&mut out, "a→b", 5);
    assert_eq!(out, format!("{:<5}", "a→b"));
}

#[test]
fn skipped_parts_are_counted() {
    assert_eq!(count_skipped(&vec![]), 0);
    assert_eq!(count_skipped(&vec![mask(&[]), mask(&["brush", "radial"])]), 0);
    let masks = vec![mask(&["color", "brush"]), mask(&["luminance"]), mask(&["color", "color"])];
    assert_eq!(count_skipped(&masks), 4);
    assert_eq!(count_skipped(&vec![mask(&["Color", "colour", "luminance "])]), 0);
}

#[test]
fn skipped_parts_are_noted() {
    assert_eq!(skipped_note(0), None);
    assert_eq!(
        skipped_note(3).as_deref(),
        Some("Note: 3 color/luminance mask(s) skipped (need full-res source)")
    );
}

#[test]
fn milliseconds_are_whole() {
    assert_eq!(millis(0, 999_999), 0);
    assert_eq!(millis(0, 1_000_000), 1);
    assert_eq!(millis(2, 999_999_999), 2999);
    assert_eq!(millis(u64::MAX, 0), u64::MAX as u128 * 1000);
    let span = std::time::Duration::new(12, 345_678_901);
    assert_eq!(millis(span.as_secs(), span.subsec_nanos()), span.as_millis());
}

#[test]
fn elapsed_time_is_measured() {
    let start = std::time::Instant::now();
    let before = start.elapsed().as_millis();
    let long_ago = start.checked_sub(std::time::Duration::from_secs(5));
    if let Some(past) = long_ago {
        let elapsed = ms(past);
        assert!(elapsed >= 5000 + before);
        assert!(elapsed <= past.elapsed().as_millis());
    }
    let elapsed = ms(start);
    assert!(elapsed >= before);
    assert!(elapsed <= start.elapsed().as_millis());
}

#[test]
fn table_of_timings() {
    let timings = vec![
        Timing { label: "preset parse", ms: 7 },
        Timing { label: "decode (RAW→linear)", ms: 1234567 },
    ];
    let mut expected = String::from("\n");
    expected.push_str("  phase                             ms\n");
    expected.push_str("  --------------------------------------\n");
    expected.push_str("  preset parse                       7\n");
    expected.push_str("  decode (RAW→linear)           1234567\n");
    expected.push_str("  --------------------------------------\n");
    expected.push_str("  total                           8888\n");
    assert_eq!(timing_table(&timings, 8888), expected);
}

#[test]
fn table_lines_are_as_formatted() {
    let timings = vec![Timing { label: "GPU init", ms: 42 }];
    let table = timing_table(&timings, 99);
    let lines: Vec<&str> = table.split('\n').collect();
    assert_eq!(lines[1], format!("  {:<28}  {:>6}", "phase", "ms"));
    assert_eq!(lines[2], format!("  {}", "-".repeat(38)));
    assert_eq!(lines[3], format!("  {:<28}  {:>6}", "GPU init", 42));
    assert_eq!(lines[5], format!("  {:<28}  {:>6}", "total", 99));
    assert_eq!(lines[1].len(), lines[3].len());
}

#[test]
fn report_ends_with_sizes() {
    let text = report(&vec![], 1, (6000, 4000), true, (2048, 1365), "out/a.jpg");
    let table = timing_table(&vec![], 1);
    assert_eq!(
        text,
        format!("{table}\n  input:   6000×4000  raw=true\n  output:  2048×1365  out/a.jpg\n")
    );
    let text = report(&vec![], 1, (1, 2), false, (3, 4), "");
    assert!(text.ends_with("\n  input:   1×2  raw=false\n  output:  3×4  \n"));
}
