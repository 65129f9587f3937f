use nole::fonts::TypstCore;
use nole::outside::{current_timestamp, make_render_response};
use nole::pathgen::{candidate_file_name, image_file_name};
use nole::timestamp::Timestamp;

fn b(s: &str) -> Vec<u8> {
    s.as_bytes().to_vec()
}

#[test]
fn candidate_names_number_the_stem() {
    assert_eq!(candidate_file_name(&b("report"), Some(&b("pdf")), 1), b("report-1.pdf"));
    assert_eq!(candidate_file_name(&b("report"), Some(&b("pdf")), 12), b("report-12.pdf"));
    assert_eq!(candidate_file_name(&b("notes"), None, 3), b("notes-3"));
    assert_eq!(candidate_file_name(&b("big"), Some(&b("png")), 1230), b("big-1230.png"));
}

#[test]
fn image_names_format_the_timestamp() {
    let t = Timestamp::from_parts(2024, 2, 29, 9, 5, 59).unwrap();
    assert_eq!(image_file_name(&t), b("2024-02-29 09:05:59.png"));
    let early = Timestamp::from_parts(33, 12, 1, 23, 59, 0).unwrap();
    assert_eq!(image_file_name(&early), b("0033-12-01 23:59:00.png"));
}

#[test]
fn timestamp_validation_knows_the_calendar() {
    // leap day exists in a leap year
    assert!(Timestamp::from_parts(2024, 2, 29, 0, 0, 0).is_some());
    // but not in a common year
    assert!(Timestamp::from_parts(2023, 2, 29, 0, 0, 0).is_none());
    // centuries are common unless divisible by four hundred
    assert!(Timestamp::from_parts(2000, 2, 29, 0, 0, 0).is_some());
    assert!(Timestamp::from_parts(1900, 2, 29, 0, 0, 0).is_none());
    // thirty-day months
    assert!(Timestamp::from_parts(2024, 4, 31, 0, 0, 0).is_none());
    assert!(Timestamp::from_parts(2024, 4, 30, 0, 0, 0).is_some());
    // field ranges
    assert!(Timestamp::from_parts(2024, 0, 1, 0, 0, 0).is_none());
    assert!(Timestamp::from_parts(2024, 13, 1, 0, 0, 0).is_none());
    assert!(Timestamp::from_parts(2024, 1, 0, 0, 0, 0).is_none());
    assert!(Timestamp::from_parts(2024, 1, 1, 24, 0, 0).is_none());
    assert!(Timestamp::from_parts(2024, 1, 1, 0, 60, 0).is_none());
    assert!(Timestamp::from_parts(2024, 1, 1, 0, 0, 60).is_none());
    assert!(Timestamp::from_parts(-1, 1, 1, 0, 0, 0).is_none());
}

#[test]
fn the_clock_yields_a_valid_timestamp() {
    let t = current_timestamp();
    assert!(t.is_some());
}

#[test]
fn render_response_encodes_the_image_as_base64() {
    let png = b("hello");
    let response = make_render_response(&png, 595_000, 842_000);
    assert_eq!(response.frame, "aGVsbG8=");
    assert_eq!(response.width, 595_000);
    assert_eq!(response.height, 842_000);
    let empty = make_render_response(&Vec::new(), 1, 2);
    assert_eq!(empty.frame, "");
}

#[test]
fn font_slots_resolve_at_most_once() {
    let mut core = TypstCore::with_fonts(vec![b("/fonts/a.ttf"), b("/fonts/b.ttf")]);
    assert_eq!(core.font_count(), 2);
    assert!(core.font_needs_load(0));
    assert_eq!(core.font_locator(0), Some(&b("/fonts/a.ttf")));
    assert_eq!(core.font(0), None);
    // first load resolves and caches
    core.store_font(0, Some(b("font bytes")));
    assert!(!core.font_needs_load(0));
    assert_eq!(core.font(0), Some(&b("font bytes")));
    // a second outcome cannot change a settled slot
    core.store_font(0, Some(b("other bytes")));
    assert_eq!(core.font(0), Some(&b("font bytes")));
    core.store_font(0, None);
    assert_eq!(core.font(0), Some(&b("font bytes")));
    // a failed load marks the slot permanently unavailable
    core.store_font(1, None);
    assert!(!core.font_needs_load(1));
    assert_eq!(core.font(1), None);
    core.store_font(1, Some(b("late bytes")));
    assert_eq!(core.font(1), None);
}

#[test]
fn bytemap_holds_one_value_per_key() {
    let mut m = nole::bytemap::ByteMap::new();
    assert!(!m.contains(&b("k")));
    m.insert(b("k"), b("v1"));
    assert_eq!(m.get(&b("k")), Some(&b("v1")));
    m.insert(b("k"), b("v2"));
    assert_eq!(m.get(&b("k")), Some(&b("v2")));
    m.insert(b("other"), b("x"));
    m.remove(&b("k"));
    assert_eq!(m.get(&b("k")), None);
    assert_eq!(m.get(&b("other")), Some(&b("x")));
    m.clear();
    assert!(!m.contains(&b("other")));
}
