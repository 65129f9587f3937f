use nole::completion::{cursor_byte_offset, finish_autocomplete};
use nole::diagnostics::{RawDiagnostic, TypstDiagnosticSeverity, translate_diagnostics};
use nole::text::{byte_offset_of_char, count_chars, count_chars_range};

fn b(s: &str) -> Vec<u8> {
    s.as_bytes().to_vec()
}

#[test]
fn ascii_counts_one_char_per_byte() {
    assert_eq!(count_chars(&b("Hello")), 5);
    assert_eq!(count_chars(&b("")), 0);
}

#[test]
fn multibyte_counts_chars_not_bytes() {
    // "héllo" is six bytes but five characters
    let text = b("h\u{e9}llo");
    assert_eq!(text.len(), 6);
    assert_eq!(count_chars(&text), 5);
    // a CJK character is three bytes
    let cjk = b("\u{4f60}\u{597d}");
    assert_eq!(cjk.len(), 6);
    assert_eq!(count_chars(&cjk), 2);
}

#[test]
fn byte_offset_of_char_matches_char_indices() {
    let text = b("h\u{e9}llo");
    let s = "h\u{e9}llo";
    for n in 0..5 {
        let expected = s.char_indices().nth(n).map(|a| a.0).unwrap_or(s.len());
        assert_eq!(byte_offset_of_char(&text, n), expected);
    }
    // a count past the last character lands at the end
    assert_eq!(byte_offset_of_char(&text, 5), 6);
    assert_eq!(byte_offset_of_char(&text, 99), 6);
}

#[test]
fn cursor_translation_round_trips() {
    let text = b("a\u{e9}b\u{4f60}c");
    let s = "a\u{e9}b\u{4f60}c";
    for n in 0..count_chars(&text) {
        let byte = cursor_byte_offset(&text, n);
        assert_eq!(count_chars_range(&text, 0, byte), n);
        assert_eq!(byte, s.char_indices().nth(n).unwrap().0);
    }
}

#[test]
fn autocomplete_offset_is_a_char_count() {
    // the suggestion pass answered with a byte offset past the two-byte "é"
    let text = b("h\u{e9}llo");
    let response = finish_autocomplete(&text, 3, Vec::new());
    assert_eq!(response.offset, 2);
    assert!(response.completions.is_empty());
}

#[test]
fn diagnostics_are_filtered_to_the_main_document() {
    let content = b("Hello");
    let raw = vec![
        RawDiagnostic {
            source: Some(b("main.typ")),
            start: 0,
            end: 5,
            severity: TypstDiagnosticSeverity::Error,
            message: "broken".to_string(),
            hints: vec!["fix it".to_string()],
        },
        RawDiagnostic {
            source: Some(b("other.typ")),
            start: 0,
            end: 1,
            severity: TypstDiagnosticSeverity::Error,
            message: "elsewhere".to_string(),
            hints: Vec::new(),
        },
        RawDiagnostic {
            source: None,
            start: 0,
            end: 0,
            severity: TypstDiagnosticSeverity::Warning,
            message: "detached".to_string(),
            hints: Vec::new(),
        },
    ];
    let out = translate_diagnostics(&content, &b("main.typ"), raw);
    assert_eq!(out.len(), 1);
    assert_eq!(out[0].message, "broken");
    assert_eq!(out[0].hints, vec!["fix it".to_string()]);
    assert_eq!(out[0].range_start, 0);
    assert_eq!(out[0].range_end, 5);
    assert!(matches!(out[0].severity, TypstDiagnosticSeverity::Error));
}

#[test]
fn diagnostic_byte_ranges_become_char_ranges() {
    // content: "é" (2 bytes), "你" (3 bytes), then "abc"
    let content = b("\u{e9}\u{4f60}abc");
    let raw = vec![RawDiagnostic {
        source: Some(b("main.typ")),
        start: 2,
        end: 6,
        severity: TypstDiagnosticSeverity::Warning,
        message: "span".to_string(),
        hints: Vec::new(),
    }];
    let out = translate_diagnostics(&content, &b("main.typ"), raw);
    assert_eq!(out.len(), 1);
    // bytes 2..6 cover "你a": one char before, two chars inside
    assert_eq!(out[0].range_start, 1);
    assert_eq!(out[0].range_end, 3);
}

#[test]
fn severity_and_error_order_are_kept() {
    let content = b("xy");
    let raw = vec![
        RawDiagnostic {
            source: Some(b("m")),
            start: 0,
            end: 1,
            severity: TypstDiagnosticSeverity::Warning,
            message: "w".to_string(),
            hints: Vec::new(),
        },
        RawDiagnostic {
            source: Some(b("m")),
            start: 1,
            end: 2,
            severity: TypstDiagnosticSeverity::Error,
            message: "e".to_string(),
            hints: Vec::new(),
        },
    ];
    let out = translate_diagnostics(&content, &b("m"), raw);
    assert_eq!(out.len(), 2);
    assert!(matches!(out[0].severity, TypstDiagnosticSeverity::Warning));
    assert!(matches!(out[1].severity, TypstDiagnosticSeverity::Error));
    assert_eq!(out[0].message, "w");
    assert_eq!(out[1].message, "e");
}
