use citadel::guard::GuardReply;
use citadel::guard::GuardRequest;
use citadel::guard::GuardStep;
use citadel::guard::PathProbe;
use citadel::guard::ReagisGuard;
use citadel::guard::WriteJob;
use citadel::path::FsPath;
use citadel::path::PathText;

fn p(parts: &[&str]) -> FsPath {
    FsPath { parts: parts.iter().map(|s| s.as_bytes().to_vec()).collect() }
}

fn text(path: &PathText) -> String {
    path.display()
}

fn guard() -> ReagisGuard {
    ReagisGuard::with_root(p(&["ws"]))
}

#[test]
fn read_missing_path() {
    let g = guard();
    assert_eq!(text(&g.target("/notes.txt")), "/ws/notes.txt");
    assert_eq!(text(&g.target("dir/")), "/ws/dir/");
    assert_eq!(text(&g.target("/dir/")), "/ws/dir");
    let r = g.resolve_existing_path("notes.txt", PathProbe::Missing);
    assert_eq!(r.err().unwrap(), "Path does not exist: notes.txt");
}

#[test]
fn read_unresolvable_path() {
    let r = guard().resolve_existing_path("a", PathProbe::Unresolvable("Permission denied (os error 13)".to_string()));
    assert_eq!(r.err().unwrap(), "Failed to resolve path: Permission denied (os error 13)");
}

#[test]
fn read_escaping_path_is_denied() {
    let r = guard().resolve_existing_path("../etc/passwd", PathProbe::Resolved(p(&["etc", "passwd"])));
    assert_eq!(r.err().unwrap(), "Access denied: ../etc/passwd escapes root");
    let r = guard().resolve_existing_path("link", PathProbe::Resolved(p(&["ws2", "x"])));
    assert_eq!(r.err().unwrap(), "Access denied: link escapes root");
}

#[test]
fn read_inside_root_is_allowed() {
    let r = guard().resolve_existing_path("a/../b", PathProbe::Resolved(p(&["ws", "b"])));
    assert_eq!(r.ok().unwrap().display(), "/ws/b");
    let r = guard().resolve_existing_path("", PathProbe::Resolved(p(&["ws"])));
    assert_eq!(r.ok().unwrap().display(), "/ws");
}

/// A tiny file system: the existing paths and what each resolves to.
struct World {
    existing: Vec<(String, String)>,
    created: Vec<String>,
    written: Vec<(String, String)>,
    fail_create: bool,
    fail_write: bool,
}

impl World {
    fn resolve(&self, path: &str) -> Option<String> {
        self.existing.iter().find(|(k, _)| k == path).map(|(_, v)| v.clone())
    }
}

fn parse(text: &str) -> FsPath {
    FsPath { parts: text.split('/').filter(|s| !s.is_empty()).map(|s| s.as_bytes().to_vec()).collect() }
}

fn run(world: &mut World, agent_path: &str, content: &str) -> (Result<String, String>, Vec<String>) {
    let g = guard();
    let mut log = Vec::new();
    let (mut job, mut step) = WriteJob::start(&g, agent_path, content);
    loop {
        let reply = match step {
            GuardStep::Finish(r) => return (r, log),
            GuardStep::Ask(GuardRequest::Probe(q)) => {
                let t = text(&q);
                log.push(format!("probe {}", t));
                match world.resolve(&t) {
                    None => GuardReply::Probed(PathProbe::Missing),
                    Some(r) => GuardReply::Probed(PathProbe::Resolved(parse(&r))),
                }
            },
            GuardStep::Ask(GuardRequest::CreateDirs(q)) => {
                let t = text(&q);
                log.push(format!("create {}", t));
                if world.fail_create {
                    GuardReply::DirsCreated(Err("Read-only file system (os error 30)".to_string()))
                } else {
                    world.created.push(t.clone());
                    if world.resolve(&t).is_none() {
                        world.existing.push((t.clone(), t));
                    }
                    GuardReply::DirsCreated(Ok(()))
                }
            },
            GuardStep::Ask(GuardRequest::Canonicalize(q)) => {
                let t = text(&q);
                log.push(format!("canonicalize {}", t));
                match world.resolve(&t) {
                    None => GuardReply::Canonicalized(Err("No such file or directory (os error 2)".to_string())),
                    Some(r) => GuardReply::Canonicalized(Ok(parse(&r))),
                }
            },
            GuardStep::Ask(GuardRequest::WriteFile(q, c)) => {
                let t = text(&q);
                log.push(format!("write {}", t));
                if world.fail_write {
                    GuardReply::Written(Err("Is a directory (os error 21)".to_string()))
                } else {
                    world.written.push((t, c));
                    GuardReply::Written(Ok(()))
                }
            },
        };
        assert!(job.accepts(&reply));
        step = job.next(reply);
    }
}

fn world(existing: &[(&str, &str)]) -> World {
    World {
        existing: existing.iter().map(|(a, b)| (a.to_string(), b.to_string())).collect(),
        created: Vec::new(),
        written: Vec::new(),
        fail_create: false,
        fail_write: false,
    }
}

#[test]
fn write_new_file_in_new_directory() {
    let mut w = world(&[("/", "/"), ("/ws", "/ws")]);
    let (r, log) = run(&mut w, "/src/main.py", "print('hello')");
    assert_eq!(r.ok().unwrap(), "Successfully wrote to /src/main.py");
    assert_eq!(
        log,
        vec!["probe /ws/src", "probe /ws", "probe /ws/src/main.py", "create /ws/src", "canonicalize /ws/src", "write /ws/src/main.py"]
    );
    assert_eq!(w.written, vec![("/ws/src/main.py".to_string(), "print('hello')".to_string())]);
}

#[test]
fn write_through_escaping_ancestor_is_denied() {
    let mut w = world(&[("/", "/"), ("/ws", "/ws"), ("/ws/link", "/etc")]);
    let (r, log) = run(&mut w, "link/passwd", "x");
    assert_eq!(r.err().unwrap(), "Access denied: Path escapes sandbox via /ws/link");
    assert_eq!(log, vec!["probe /ws/link"]);
    assert!(w.written.is_empty());
}

#[test]
fn write_over_escaping_target_is_denied() {
    let mut w = world(&[("/", "/"), ("/ws", "/ws"), ("/ws/out", "/etc/shadow")]);
    let (r, _) = run(&mut w, "out", "x");
    assert_eq!(r.err().unwrap(), "Access denied: Target file is outside sandbox");
    assert!(w.written.is_empty());
}

#[test]
fn write_whose_parent_escapes_after_creation() {
    // ".." climbs out of the root: the nearest existing ancestor "/ws/.." is "/"
    let mut w = world(&[("/", "/"), ("/ws", "/ws"), ("/ws/..", "/")]);
    let (r, _) = run(&mut w, "../x", "x");
    assert_eq!(r.err().unwrap(), "Access denied: Path escapes sandbox via /ws/..");
}

#[test]
fn write_keeps_trailing_separator_of_relative_path() {
    let mut w = world(&[("/", "/"), ("/ws", "/ws"), ("/ws/x", "/ws/x")]);
    let (_, log) = run(&mut w, "x/", "data");
    assert_eq!(log, vec!["probe /ws", "probe /ws/x/", "create /ws", "canonicalize /ws", "write /ws/x/"]);
    let mut w = world(&[("/", "/"), ("/ws", "/ws"), ("/ws/x", "/ws/x")]);
    let (r, log) = run(&mut w, "/x/", "data");
    assert_eq!(r.ok().unwrap(), "Successfully wrote to /x/");
    assert_eq!(log, vec!["probe /ws", "probe /ws/x", "create /ws", "canonicalize /ws", "write /ws/x"]);
}

#[test]
fn escape_message_shows_path_as_written() {
    let mut w = world(&[("/", "/"), ("/ws", "/ws"), ("/ws/a//./b", "/etc")]);
    let (r, _) = run(&mut w, "a//./b/c", "x");
    assert_eq!(r.err().unwrap(), "Access denied: Path escapes sandbox via /ws/a//./b");
}

#[test]
fn leading_slash_writes_alike() {
    let mut w1 = world(&[("/", "/"), ("/ws", "/ws")]);
    let mut w2 = world(&[("/", "/"), ("/ws", "/ws")]);
    let (r1, log1) = run(&mut w1, "/d/f.txt", "x");
    let (r2, log2) = run(&mut w2, "d/f.txt", "x");
    assert_eq!(log1, log2);
    assert_eq!(w1.written, w2.written);
    assert_eq!(r1.ok().unwrap(), "Successfully wrote to /d/f.txt");
    assert_eq!(r2.ok().unwrap(), "Successfully wrote to d/f.txt");
}

#[test]
fn leading_slash_before_dot_writes_alike() {
    let mut w1 = world(&[("/", "/"), ("/ws", "/ws")]);
    let mut w2 = world(&[("/", "/"), ("/ws", "/ws"), ("/ws/.", "/ws")]);
    let (r1, log1) = run(&mut w1, "/./f.txt", "x");
    let (r2, log2) = run(&mut w2, "./f.txt", "x");
    assert_eq!(log1, vec!["probe /ws", "probe /ws/f.txt", "create /ws", "canonicalize /ws", "write /ws/f.txt"]);
    assert_eq!(log2, vec!["probe /ws", "probe /ws/./f.txt", "create /ws", "canonicalize /ws", "write /ws/./f.txt"]);
    assert_eq!(r1.ok().unwrap(), "Successfully wrote to /./f.txt");
    assert_eq!(r2.ok().unwrap(), "Successfully wrote to ./f.txt");
}

#[test]
fn write_failures() {
    let mut w = world(&[("/ws", "/ws")]);
    w.fail_create = true;
    let (r, _) = run(&mut w, "a/b", "x");
    assert_eq!(r.err().unwrap(), "Failed to create directories: Read-only file system (os error 30)");
    let mut w = world(&[("/ws", "/ws")]);
    w.fail_write = true;
    let (r, _) = run(&mut w, "a", "x");
    assert_eq!(r.err().unwrap(), "Failed to write: Is a directory (os error 21)");
}

#[test]
fn write_with_unresolvable_ancestor() {
    let g = guard();
    let (mut job, _) = WriteJob::start(&g, "a/b", "x");
    let step = job.next(GuardReply::Probed(PathProbe::Unresolvable("Too many levels of symbolic links (os error 40)".to_string())));
    match step {
        GuardStep::Finish(Err(e)) => assert_eq!(e, "Too many levels of symbolic links (os error 40)"),
        _ => panic!("expected an error"),
    }
    assert!(!job.accepts(&GuardReply::Written(Ok(()))));
}

#[test]
fn parent_that_vanishes_fails_to_resolve() {
    let g = guard();
    let (mut job, _) = WriteJob::start(&g, "f", "x");
    let _ = job.next(GuardReply::Probed(PathProbe::Resolved(p(&["ws"]))));
    let _ = job.next(GuardReply::Probed(PathProbe::Missing));
    let _ = job.next(GuardReply::DirsCreated(Ok(())));
    match job.next(GuardReply::Canonicalized(Err("No such file or directory (os error 2)".to_string()))) {
        GuardStep::Finish(Err(e)) => assert_eq!(e, "No such file or directory (os error 2)"),
        _ => panic!("expected an error"),
    }
    let (mut job, _) = WriteJob::start(&g, "f", "x");
    let _ = job.next(GuardReply::Probed(PathProbe::Resolved(p(&["ws"]))));
    let _ = job.next(GuardReply::Probed(PathProbe::Missing));
    let _ = job.next(GuardReply::DirsCreated(Ok(())));
    match job.next(GuardReply::Canonicalized(Ok(p(&["elsewhere"])))) {
        GuardStep::Finish(Err(e)) => assert_eq!(e, "Security breach: Parent directory escaped sandbox"),
        _ => panic!("expected an error"),
    }
}
