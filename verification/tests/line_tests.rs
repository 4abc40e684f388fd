use auto_span::line::{parse_span_offset, Line, LineAccess};

#[test]
fn line() {
    let code = "a\nbcd {\n  123;\n  5678;\n}\n";
    let line1 = Line {
        start_bytes: 0,
        end_bytes: 1,
        line_number: 1,
        data: b"a".to_vec(),
    };
    let line2 = Line {
        start_bytes: 2,
        end_bytes: 7,
        line_number: 2,
        data: b"bcd {".to_vec(),
    };
    let line3 = Line {
        start_bytes: 8,
        end_bytes: 14,
        line_number: 3,
        data: b"123;".to_vec(),
    };
    let la = LineAccess::from_bytes(code.as_bytes());
    println!("{:?}", la.lines);
    assert_eq!(la.find_line(0), Some(&line1));
    assert_eq!(la.find_line(3), Some(&line2));
    assert_eq!(la.find_line(11), Some(&line3));
    assert_eq!(la.find_line(100), None);
}

#[test]
fn line_without_terminator_has_no_index() {
    let la = LineAccess::from_bytes(b"no newline at all");
    assert_eq!(la.find_line(0), None);
    assert_eq!(la.find_line(5), None);
}

#[test]
fn line_trailing_text_not_indexed() {
    let la = LineAccess::from_bytes(b"first\ntail without end");
    assert!(la.find_line(2).is_some());
    assert_eq!(la.find_line(10), None);
}

#[test]
fn parse_span_offset_reads_range_start() {
    assert_eq!(parse_span_offset("#39 bytes(890..902)"), Some(890));
    assert_eq!(parse_span_offset("#0 bytes(0..4)"), Some(0));
    assert_eq!(parse_span_offset("#12 bytes(34..56) extra"), Some(34));
}

#[test]
fn parse_span_offset_rejects_other_shapes() {
    assert_eq!(parse_span_offset(""), None);
    assert_eq!(parse_span_offset("#39"), None);
    assert_eq!(parse_span_offset("bytes(1..2)"), None);
    assert_eq!(parse_span_offset("#x bytes(1..2)"), None);
    assert_eq!(parse_span_offset("#39 bytes(..2)"), None);
    assert_eq!(parse_span_offset("#39 bytes(1..)"), None);
    assert_eq!(parse_span_offset("#39 bytes(1..2"), None);
    assert_eq!(parse_span_offset("#39 bytes(99999999999999999999999..2)"), None);
}

#[test]
fn span_reports_line_number_and_trimmed_text() {
    let la = LineAccess::from_bytes(b"zero\n  indented line\n");
    let got = la.span("#7 bytes(8..12)");
    assert_eq!(got, Some((2, b"indented line".to_vec())));
    assert_eq!(la.span("#7 bytes(100..120)"), None);
    assert_eq!(la.span("nonsense"), None);
}
