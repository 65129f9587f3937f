use nole::NoleError;
use nole::ident::resolve_identifier;

fn b(s: &str) -> Vec<u8> {
    s.as_bytes().to_vec()
}

#[test]
fn absolute_path_under_root_is_stripped() {
    let id = resolve_identifier(&b("/ws"), &b("/ws/doc.typ")).unwrap();
    assert_eq!(id.as_bytes(), &b("doc.typ"));
}

#[test]
fn relative_path_resolves_under_root() {
    let id = resolve_identifier(&b("/ws"), &b("sub/doc.typ")).unwrap();
    assert_eq!(id.as_bytes(), &b("sub/doc.typ"));
}

#[test]
fn resolution_is_deterministic() {
    let a = resolve_identifier(&b("/ws"), &b("/ws/a/b.typ")).unwrap();
    let c = resolve_identifier(&b("/ws"), &b("/ws/a/b.typ")).unwrap();
    assert!(a == c);
}

#[test]
fn dot_and_empty_components_are_dropped() {
    let id = resolve_identifier(&b("/ws"), &b("/ws/a//./b.typ")).unwrap();
    assert_eq!(id.as_bytes(), &b("a/b.typ"));
}

#[test]
fn dotdot_pops_a_component() {
    let id = resolve_identifier(&b("/ws"), &b("/ws/a/../b.typ")).unwrap();
    assert_eq!(id.as_bytes(), &b("b.typ"));
}

#[test]
fn escaping_the_workspace_is_refused() {
    assert_eq!(
        resolve_identifier(&b("/ws"), &b("/ws/../secret.typ")),
        Err(NoleError::WorkspaceError)
    );
    assert_eq!(
        resolve_identifier(&b("/ws"), &b("../secret.typ")),
        Err(NoleError::WorkspaceError)
    );
}

#[test]
fn absolute_path_outside_root_is_refused() {
    assert_eq!(
        resolve_identifier(&b("/ws"), &b("/etc/passwd")),
        Err(NoleError::WorkspaceError)
    );
}

#[test]
fn empty_remainder_is_not_found() {
    assert_eq!(resolve_identifier(&b("/ws"), &b("")), Err(NoleError::NotFound));
    assert_eq!(resolve_identifier(&b("/ws"), &b(".")), Err(NoleError::NotFound));
}

#[test]
fn different_spellings_of_one_file_agree() {
    let plain = resolve_identifier(&b("/ws"), &b("a/b.typ")).unwrap();
    let dotted = resolve_identifier(&b("/ws"), &b("./a/./b.typ")).unwrap();
    let popped = resolve_identifier(&b("/ws"), &b("a/x/../b.typ")).unwrap();
    assert!(plain == dotted);
    assert!(plain == popped);
}
