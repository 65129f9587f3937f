use nole::NoleError;
use nole::environment::NoleWorld;

fn b(s: &str) -> Vec<u8> {
    s.as_bytes().to_vec()
}

#[test]
fn source_without_overlay_reflects_disk_content() {
    let mut w = NoleWorld::new(b("/ws"), b("/ws/main.typ")).unwrap();
    let other = w.resolve(&b("notes.typ")).unwrap();
    let disk = b("on disk");
    let text = w.source(&other, Some(&disk)).unwrap();
    assert_eq!(text, b("on disk"));
}

#[test]
fn overlay_shadows_disk_until_replaced() {
    let mut w = NoleWorld::new(b("/ws"), b("/ws/main.typ")).unwrap();
    let main = w.main().clone();
    w.virtual_source(&main, b("edited"));
    let disk = b("stale disk");
    assert_eq!(w.source(&main, Some(&disk)).unwrap(), b("edited"));
    // a new overlay replaces the old one
    w.virtual_source(&main, b("edited again"));
    assert_eq!(w.source(&main, Some(&disk)).unwrap(), b("edited again"));
}

#[test]
fn cached_source_is_stable_without_rereading_disk() {
    let mut w = NoleWorld::new(b("/ws"), b("/ws/main.typ")).unwrap();
    let other = w.resolve(&b("notes.typ")).unwrap();
    let disk = b("first read");
    assert_eq!(w.source(&other, Some(&disk)).unwrap(), b("first read"));
    // no disk read is needed any more ...
    assert!(!w.source_needs_disk(&other));
    // ... and whatever a read would now return, the answer is unchanged
    let changed = b("changed on disk");
    assert_eq!(w.source(&other, Some(&changed)).unwrap(), b("first read"));
    assert_eq!(w.source(&other, None).unwrap(), b("first read"));
}

#[test]
fn unreadable_uncached_source_is_a_read_error() {
    let mut w = NoleWorld::new(b("/ws"), b("/ws/main.typ")).unwrap();
    let other = w.resolve(&b("gone.typ")).unwrap();
    assert_eq!(w.source(&other, None), Err(NoleError::ReadError));
}

#[test]
fn reset_keeps_overlay_and_clears_caches() {
    let mut w = NoleWorld::new(b("/ws"), b("/ws/main.typ")).unwrap();
    let main = w.main().clone();
    w.virtual_source(&main, b("edited"));
    assert_eq!(w.source(&main, None).unwrap(), b("edited"));
    let other = w.resolve(&b("notes.typ")).unwrap();
    let disk = b("cached");
    assert_eq!(w.source(&other, Some(&disk)).unwrap(), b("cached"));
    w.reset();
    // the overlay survives: the edited main text is still served
    assert_eq!(w.source(&main, None).unwrap(), b("edited"));
    // the source cache does not: the other file must be read again
    assert!(w.source_needs_disk(&other));
    assert_eq!(w.source(&other, None), Err(NoleError::ReadError));
    // reset is idempotent
    w.reset();
    assert_eq!(w.source(&main, None).unwrap(), b("edited"));
}

#[test]
fn binary_resources_are_cached_but_not_overlaid() {
    let mut w = NoleWorld::new(b("/ws"), b("/ws/main.typ")).unwrap();
    let img = w.resolve(&b("img.png")).unwrap();
    w.virtual_source(&img, b("overlay text"));
    // the overlay does not apply to binary reads
    let disk = vec![1u8, 2, 3];
    assert_eq!(w.binary(&img, Some(&disk)).unwrap(), vec![1u8, 2, 3]);
    // but the bytes are session-cached
    let changed = vec![9u8];
    assert_eq!(w.binary(&img, Some(&changed)).unwrap(), vec![1u8, 2, 3]);
    assert_eq!(w.binary(&img, None).unwrap(), vec![1u8, 2, 3]);
}

#[test]
fn main_identifier_is_fixed_at_construction() {
    let w = NoleWorld::new(b("/ws"), b("/ws/sub/../main.typ")).unwrap();
    assert_eq!(w.main().as_bytes(), &b("main.typ"));
    assert_eq!(w.input(), &b("/ws/sub/../main.typ"));
}

#[test]
fn environment_for_escaping_path_is_refused() {
    assert!(matches!(
        NoleWorld::new(b("/ws"), b("/other/main.typ")),
        Err(NoleError::WorkspaceError)
    ));
}
