use nole::NoleError;
use nole::engine::{Page, TypstEngine};

fn b(s: &str) -> Vec<u8> {
    s.as_bytes().to_vec()
}

fn page(hash: u64) -> Page {
    Page { width: 595_000, height: 842_000, frame_hash: hash }
}

#[test]
fn render_before_any_successful_compile_is_not_ready() {
    let engine = TypstEngine::new();
    assert_eq!(engine.page_for_render(0), Err(NoleError::NotReady));
    assert_eq!(engine.pages_for_export(), Err(NoleError::NotReady));
}

#[test]
fn first_compile_reports_every_page_changed() {
    let mut engine = TypstEngine::new();
    let fresh = engine.prepare_compile(b("/ws"), b("/ws/a.txt"), b("Hello")).unwrap();
    assert!(fresh);
    let response = engine.finish_compile(vec![page(77)]);
    assert_eq!(response.updated_idx, vec![0]);
    assert_eq!(response.n_pages, 1);
    assert_eq!(response.width, 595_000);
    assert_eq!(response.height, 842_000);
}

#[test]
fn recompile_with_identical_content_reports_no_change() {
    let mut engine = TypstEngine::new();
    engine.prepare_compile(b("/ws"), b("/ws/a.txt"), b("Hello")).unwrap();
    let first = engine.finish_compile(vec![page(77)]);
    assert_eq!(first.updated_idx, vec![0]);
    // same text compiles to the same frame, so the same hash comes back
    let fresh = engine.prepare_compile(b("/ws"), b("/ws/a.txt"), b("Hello")).unwrap();
    assert!(!fresh);
    let second = engine.finish_compile(vec![page(77)]);
    assert_eq!(second.updated_idx, Vec::<usize>::new());
    // an edit changes the frame and its hash
    engine.prepare_compile(b("/ws"), b("/ws/a.txt"), b("Hello!")).unwrap();
    let third = engine.finish_compile(vec![page(78)]);
    assert_eq!(third.updated_idx, vec![0]);
}

#[test]
fn same_main_path_reuses_the_environment() {
    let mut engine = TypstEngine::new();
    assert!(engine.prepare_compile(b("/ws"), b("/ws/a.txt"), b("one")).unwrap());
    assert!(!engine.prepare_compile(b("/ws"), b("/ws/a.txt"), b("two")).unwrap());
    assert!(!engine.prepare_compile(b("/ws"), b("/ws/a.txt"), b("three")).unwrap());
}

#[test]
fn different_main_path_discards_the_export_cache() {
    let mut engine = TypstEngine::new();
    engine.prepare_compile(b("/ws"), b("/ws/a.txt"), b("Hello")).unwrap();
    assert_eq!(engine.finish_compile(vec![page(77)]).updated_idx, vec![0]);
    assert_eq!(engine.finish_compile(vec![page(77)]).updated_idx, Vec::<usize>::new());
    // opening another document replaces the environment wholesale
    let fresh = engine.prepare_compile(b("/ws"), b("/ws/b.txt"), b("Hello")).unwrap();
    assert!(fresh);
    // the export cache went with it: page 0 counts as changed again
    assert_eq!(engine.finish_compile(vec![page(77)]).updated_idx, vec![0]);
}

#[test]
fn failed_compile_leaves_last_document_servable() {
    let mut engine = TypstEngine::new();
    engine.prepare_compile(b("/ws"), b("/ws/a.txt"), b("Hello")).unwrap();
    engine.finish_compile(vec![page(77)]);
    assert_eq!(engine.page_for_render(0).unwrap(), page(77));
    // the next compile fails: nothing replaces the document, and the
    // environment (with its export cache) is untouched by the failure
    engine.prepare_compile(b("/ws"), b("/ws/a.txt"), b("Hello #broken(")).unwrap();
    assert_eq!(engine.page_for_render(0).unwrap(), page(77));
    assert_eq!(engine.pages_for_export().unwrap(), 1);
}

#[test]
fn page_index_out_of_range_is_not_ready() {
    let mut engine = TypstEngine::new();
    engine.prepare_compile(b("/ws"), b("/ws/a.txt"), b("Hello")).unwrap();
    engine.finish_compile(vec![page(1), page(2)]);
    assert!(engine.page_for_render(1).is_ok());
    assert_eq!(engine.page_for_render(2), Err(NoleError::NotReady));
}

#[test]
fn page_insertion_shifts_later_indices_to_changed() {
    let mut engine = TypstEngine::new();
    engine.prepare_compile(b("/ws"), b("/ws/a.txt"), b("two pages")).unwrap();
    engine.finish_compile(vec![page(1), page(2)]);
    engine.prepare_compile(b("/ws"), b("/ws/a.txt"), b("three pages")).unwrap();
    // a page was inserted in front: every index shifted, all report changed
    let response = engine.finish_compile(vec![page(3), page(1), page(2)]);
    assert_eq!(response.updated_idx, vec![0, 1, 2]);
}

#[test]
fn reset_forces_all_pages_changed_on_next_compile() {
    let mut engine = TypstEngine::new();
    engine.prepare_compile(b("/ws"), b("/ws/a.txt"), b("Hello")).unwrap();
    engine.finish_compile(vec![page(77)]);
    assert_eq!(engine.finish_compile(vec![page(77)]).updated_idx, Vec::<usize>::new());
    engine.reset();
    // the environment identity is kept, but its export cache is empty
    assert!(!engine.prepare_compile(b("/ws"), b("/ws/a.txt"), b("Hello")).unwrap());
    assert_eq!(engine.finish_compile(vec![page(77)]).updated_idx, vec![0]);
}

#[test]
fn autocomplete_needs_a_live_environment() {
    let mut engine = TypstEngine::new();
    assert_eq!(engine.prepare_autocomplete(b("Hel")), Err(NoleError::NotReady));
    engine.prepare_compile(b("/ws"), b("/ws/a.txt"), b("Hello")).unwrap();
    assert_eq!(engine.prepare_autocomplete(b("Hel")), Ok(()));
    // the overlay now holds the autocomplete text
    if let Some(w) = engine.world_mut() {
        let main = w.main().clone();
        assert_eq!(w.source(&main, None).unwrap(), b("Hel"));
    } else {
        panic!("environment disappeared");
    }
}

#[test]
fn unresolvable_path_fails_compile_preparation() {
    let mut engine = TypstEngine::new();
    assert_eq!(
        engine.prepare_compile(b("/ws"), b("/elsewhere/a.txt"), b("Hello")),
        Err(NoleError::WorkspaceError)
    );
    // the failure left no environment behind
    assert_eq!(engine.prepare_autocomplete(b("x")), Err(NoleError::NotReady));
}
