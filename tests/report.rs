use boxxy::report::{push_decimal, TraceReport};

#[test]
fn report_lists_distinct_paths_under_root_in_first_seen_order() {
    let mut report = TraceReport::new(b"/tmp/boxxy/n".to_vec());
    report.observe(Some(&b"/tmp/boxxy/n/etc/passwd"[..]));
    report.observe(None);
    report.observe(Some(&b"/etc/hosts"[..]));
    report.observe(Some(&b"/tmp/boxxy/n/etc/passwd"[..]));
    report.observe(Some(&b"/tmp/boxxy/n/usr/bin/cat"[..]));
    report.observe(Some(&b"/tmp/boxxy/nope"[..]));
    assert_eq!(report.total(), 2);
    assert_eq!(report.render(), b"/etc/passwd\n/usr/bin/cat\n# total: 2\n".to_vec());
}

#[test]
fn empty_report_has_only_total() {
    let report = TraceReport::new(b"/r".to_vec());
    assert_eq!(report.render(), b"# total: 0\n".to_vec());
}

#[test]
fn every_report_line_starts_with_slash() {
    let mut report = TraceReport::new(b"/r".to_vec());
    for p in [&b"/r/etc/passwd"[..], b"/r", b"/r/bin/sh", b"/r//bin/sh"] {
        report.observe(Some(p));
    }
    let text = report.render();
    let lines: Vec<&[u8]> = text.split(|b| *b == b'\n').filter(|l| !l.is_empty()).collect();
    assert_eq!(lines.len(), 4);
    for l in &lines[..3] {
        assert_eq!(l[0], b'/');
    }
    assert_eq!(lines[3], b"# total: 3");
}

#[test]
fn decimal_rendering() {
    let mut out = Vec::new();
    push_decimal(&mut out, 0);
    push_decimal(&mut out, 1207);
    assert_eq!(out, b"01207".to_vec());
}
