use citadel::path::relative_pieces_of;
use citadel::path::FsPath;
use citadel::path::PathText;

fn p(parts: &[&str]) -> FsPath {
    FsPath { parts: parts.iter().map(|s| s.as_bytes().to_vec()).collect() }
}

fn names(v: &[Vec<u8>]) -> Vec<String> {
    v.iter().map(|b| String::from_utf8(b.clone()).unwrap()).collect()
}

fn joined(root: &[&str], agent: &str) -> String {
    PathText::joined(&p(root), agent).display()
}

#[test]
fn relative_paths_are_kept_as_written() {
    assert_eq!(names(&relative_pieces_of("a/b")), vec!["a", "b"]);
    assert_eq!(names(&relative_pieces_of("a//./b/")), vec!["a", "", ".", "b", ""]);
    assert_eq!(names(&relative_pieces_of("../etc/passwd")), vec!["..", "etc", "passwd"]);
    assert_eq!(names(&relative_pieces_of("")), vec![""]);
}

#[test]
fn absolute_paths_lose_root_and_outer_empty_pieces() {
    assert_eq!(names(&relative_pieces_of("/a//./b/")), vec!["a", "", ".", "b"]);
    assert_eq!(names(&relative_pieces_of("//./a/.")), vec!["a"]);
    assert_eq!(names(&relative_pieces_of("/")), vec![""]);
    assert_eq!(names(&relative_pieces_of("/./")), vec![""]);
}

#[test]
fn joining_matches_path_join() {
    assert_eq!(joined(&["ws"], "notes.txt"), "/ws/notes.txt");
    assert_eq!(joined(&["ws"], "/etc/passwd"), "/ws/etc/passwd");
    assert_eq!(joined(&["ws"], "dir/"), "/ws/dir/");
    assert_eq!(joined(&["ws"], "/dir/"), "/ws/dir");
    assert_eq!(joined(&["ws"], "a//./b"), "/ws/a//./b");
    assert_eq!(joined(&["ws"], ""), "/ws/");
    assert_eq!(joined(&["ws"], "/"), "/ws/");
    assert_eq!(joined(&[], "x"), "/x");
    assert_eq!(joined(&[], ""), "/");
}

fn parent_text(t: &PathText) -> Option<String> {
    t.parent().map(|q| q.display())
}

#[test]
fn parents_match_path_parent() {
    let t = PathText::joined(&p(&["ws"]), "a//b/");
    assert_eq!(t.display(), "/ws/a//b/");
    let a = t.parent().unwrap();
    assert_eq!(a.display(), "/ws/a");
    let b = a.parent().unwrap();
    assert_eq!(b.display(), "/ws");
    let c = b.parent().unwrap();
    assert_eq!(c.display(), "/");
    assert!(c.parent().is_none());
    assert_eq!(parent_text(&PathText::joined(&p(&["ws"]), "a/./b/c")), Some("/ws/a/./b".to_string()));
    assert_eq!(parent_text(&PathText::joined(&p(&["ws"]), "a/./b")), Some("/ws/a".to_string()));
    assert_eq!(parent_text(&PathText::joined(&p(&["ws"]), "../x")), Some("/ws/..".to_string()));
    assert_eq!(parent_text(&PathText::joined(&p(&["ws"]), "")), Some("/".to_string()));
    assert_eq!(parent_text(&PathText::joined(&p(&[]), "")), None);
}

#[test]
fn leading_slash_names_the_same_path() {
    for rest in ["a", "a/b", "a//b", "a/./b", "..", ""] {
        assert_eq!(joined(&["ws"], &format!("/{}", rest)), joined(&["ws"], rest));
    }
    // a trailing separator is kept only in the relative form
    assert_eq!(joined(&["ws"], "/x/"), "/ws/x");
    assert_eq!(joined(&["ws"], "x/"), "/ws/x/");
    // leading "." and empty pieces differ in text only; they name no step
    assert_eq!(joined(&["ws"], "/./x"), "/ws/x");
    assert_eq!(joined(&["ws"], "./x"), "/ws/./x");
}

#[test]
fn starts_with_compares_whole_components() {
    let root = p(&["home", "ws"]);
    assert!(p(&["home", "ws"]).starts_with(&root));
    assert!(p(&["home", "ws", "a"]).starts_with(&root));
    assert!(!p(&["home", "ws2"]).starts_with(&root));
    assert!(!p(&["home"]).starts_with(&root));
    assert!(p(&[]).starts_with(&p(&[])));
}

#[test]
fn display_of_paths() {
    assert_eq!(p(&[]).display(), "/");
    assert_eq!(p(&["a", "b"]).display(), "/a/b");
    let odd = FsPath { parts: vec![vec![b'a', 0xff]] };
    assert_eq!(odd.display(), "/a\u{FFFD}");
    assert_eq!(odd.text_bytes(), vec![b'/', b'a', 0xff]);
}
