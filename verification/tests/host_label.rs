use aws_json_router::host::DiagnosticCollector;

fn is_valid_host_label(label: &str, allow_dots: bool) -> bool {
    aws_json_router::host::is_valid_host_label(label, allow_dots, &mut DiagnosticCollector::new())
}

#[test]
fn basic_cases() {
    assert_eq!(is_valid_host_label("", false), false);
    assert_eq!(is_valid_host_label("", true), false);
    assert_eq!(is_valid_host_label(".", true), false);
    assert_eq!(is_valid_host_label("a.b", true), true);
    assert_eq!(is_valid_host_label("a.b", false), false);
    assert_eq!(is_valid_host_label("a.b.", true), false);
    assert_eq!(is_valid_host_label("a.b.c", true), true);
    assert_eq!(is_valid_host_label("a_b", true), false);
    assert_eq!(is_valid_host_label(&"a".repeat(64), false), false);
    assert_eq!(
        is_valid_host_label(&format!("{}.{}", "a".repeat(63), "a".repeat(63)), true),
        true
    );
}

#[test]
fn start_bounds() {
    assert_eq!(is_valid_host_label("-foo", false), false);
    assert_eq!(is_valid_host_label("-foo", true), false);
    assert_eq!(is_valid_host_label(".foo", true), false);
    assert_eq!(is_valid_host_label("a-b.foo", true), true);
}

#[test]
fn diagnostics_are_collected() {
    let mut e = DiagnosticCollector::new();
    assert_eq!(e.error_count(), 0);
    assert!(!aws_json_router::host::is_valid_host_label("", false, &mut e));
    assert_eq!(e.error_count(), 1);
    assert!(!aws_json_router::host::is_valid_host_label("-foo", false, &mut e));
    assert_eq!(e.error_count(), 2);
    assert!(aws_json_router::host::is_valid_host_label("fine", false, &mut e));
    assert_eq!(e.error_count(), 2);
}

#[test]
fn unicode_labels() {
    // non-ASCII letters are alphanumeric, and the 63-byte bound counts bytes
    assert_eq!(is_valid_host_label("caf\u{e9}", false), true);
    assert_eq!(is_valid_host_label(&"\u{e9}".repeat(40), false), false);
}
