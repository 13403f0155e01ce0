use std::path::PathBuf;

use terminal::launch::{LaunchFailure, LaunchStage};
use terminal::registry::{SessionExit, TerminalSessionRegistry};
use terminal::shell::{Platform, ShellHost};
use terminal::types::TerminalSnapshotResponse;
use terminal::workdir::{canonicalize_workdir, WorkdirAction, WorkdirEvent};

fn host() -> ShellHost {
    ShellHost {
        platform: Platform::Unix,
        login_shell: Some("/bin/bash".to_string()),
        existing: vec!["/bin/sh".to_string()],
    }
}

fn directory(workdir: &str) -> Result<String, String> {
    let mut path = PathBuf::new();
    let mut event = WorkdirEvent::Requested;
    loop {
        event = match canonicalize_workdir(workdir, event) {
            WorkdirAction::Expand(raw) => {
                path = PathBuf::from(raw);
                WorkdirEvent::Expanded { absolute: path.is_absolute() }
            }
            WorkdirAction::Inspect => WorkdirEvent::Inspected {
                is_dir: path.metadata().ok().map(|metadata| metadata.is_dir()),
            },
            WorkdirAction::Canonicalize => WorkdirEvent::Canonicalized(
                path.canonicalize()
                    .map(|canonical| canonical.display().to_string())
                    .map_err(|err| err.to_string()),
            ),
            WorkdirAction::Accept(found) => return Ok(found),
            WorkdirAction::Refuse(message) => return Err(message),
        };
    }
}

fn create(
    registry: &mut TerminalSessionRegistry,
    cwd: &str,
    key: Option<&str>,
    title: Option<&str>,
) -> TerminalSnapshotResponse {
    registry
        .create(
            Ok(cwd.to_string()),
            key.map(|k| k.to_string()),
            None,
            title.map(|t| t.to_string()),
            Some(80),
            Some(24),
            &host(),
            Ok(Some(4242)),
        )
        .expect("create terminal session")
}

fn create_at(
    registry: &mut TerminalSessionRegistry,
    key: &str,
    title: Option<&str>,
    id: &str,
    now: u128,
) -> TerminalSnapshotResponse {
    registry
        .create_at(
            Ok("/work".to_string()),
            Some(key.to_string()),
            None,
            title.map(|t| t.to_string()),
            None,
            None,
            &host(),
            Ok(None),
            id.to_string(),
            now,
        )
        .expect("create terminal session")
}

fn kinds(registry: &mut TerminalSessionRegistry) -> Vec<String> {
    registry
        .take_deliveries()
        .into_iter()
        .map(|d| d.event.payload.kind)
        .collect()
}

#[test]
fn registry_creates_lists_renames_and_closes_session() {
    let mut registry = TerminalSessionRegistry::default();
    let tempdir = tempfile::tempdir().expect("tempdir");
    let cwd = tempdir.path().display().to_string();

    let created = registry
        .create(
            directory(&cwd),
            Some(cwd.clone()),
            None,
            Some("Test Terminal".to_string()),
            Some(80),
            Some(24),
            &host(),
            Ok(Some(4242)),
        )
        .expect("create terminal session");
    assert!(created.session.running);
    assert_eq!(created.session.title, "Test Terminal");

    let listed = registry.list(Some(cwd.clone())).sessions;
    assert_eq!(listed.len(), 1);
    assert_eq!(listed[0].id, created.session.id);

    let resized = registry
        .resize(created.session.id.clone(), 100, 30, Ok(()))
        .expect("resize terminal session");
    assert_eq!(resized.cols, 100);
    assert_eq!(resized.rows, 30);

    let renamed = registry
        .rename(created.session.id.clone(), "Renamed Terminal".to_string())
        .expect("rename terminal session");
    assert_eq!(renamed.title, "Renamed Terminal");

    let closed = registry
        .close(created.session.id.clone(), None)
        .expect("close terminal session");
    assert!(!closed.running);
    assert!(registry.list(Some(cwd)).sessions.is_empty());
}

#[test]
fn registry_closes_project_sessions() {
    let mut registry = TerminalSessionRegistry::default();
    let project_a = tempfile::tempdir().expect("project a");
    let project_b = tempfile::tempdir().expect("project b");
    let cwd_a = project_a.path().display().to_string();
    let cwd_b = project_b.path().display().to_string();

    registry
        .create(
            directory(&cwd_a),
            Some(cwd_a.clone()),
            None,
            Some("A".to_string()),
            Some(80),
            Some(24),
            &host(),
            Ok(Some(1)),
        )
        .expect("create project a terminal");
    registry
        .create(
            directory(&cwd_b),
            Some(cwd_b.clone()),
            None,
            Some("B".to_string()),
            Some(80),
            Some(24),
            &host(),
            Ok(Some(2)),
        )
        .expect("create project b terminal");
    assert_eq!(registry.running_session_count(), 2);

    let closed = registry
        .close_project(cwd_a.clone(), &Vec::new())
        .expect("close project a terminals");
    assert_eq!(closed.sessions.len(), 1);
    assert!(registry.list(Some(cwd_a)).sessions.is_empty());
    assert_eq!(registry.list(Some(cwd_b)).sessions.len(), 1);

    registry.close_all(&Vec::new()).expect("close remaining terminals");
    assert_eq!(registry.running_session_count(), 0);
}

#[test]
fn read_tail_requires_terminal_id_when_project_has_multiple_sessions() {
    let mut registry = TerminalSessionRegistry::default();
    let tempdir = tempfile::tempdir().expect("tempdir");
    let cwd = tempdir.path().display().to_string();

    let first = registry
        .create(
            directory(&cwd),
            Some(cwd.clone()),
            None,
            Some("First".to_string()),
            Some(80),
            Some(24),
            &host(),
            Ok(None),
        )
        .expect("create first terminal session");
    registry
        .create(
            directory(&cwd),
            Some(cwd.clone()),
            None,
            Some("Second".to_string()),
            Some(80),
            Some(24),
            &host(),
            Ok(None),
        )
        .expect("create second terminal session");

    let ambiguous = registry
        .read_tail(cwd.clone(), None, Some(1024))
        .expect("read ambiguous terminal tail");
    assert_eq!(ambiguous.sessions.len(), 2);
    assert!(ambiguous.selected_session.is_none());
    assert!(ambiguous.output.is_empty());

    let selected = registry
        .read_tail(cwd, Some(first.session.id), Some(1024))
        .expect("read selected terminal tail");
    assert!(selected.selected_session.is_some());
    assert_eq!(selected.sessions.len(), 2);

    registry.close_all(&Vec::new()).expect("close terminal sessions");
}

#[test]
fn created_session_has_a_random_id_and_the_clock_time() {
    let mut registry = TerminalSessionRegistry::default();
    let a = create(&mut registry, "/work", None, None);
    let b = create(&mut registry, "/work", None, None);
    for id in [&a.session.id, &b.session.id] {
        assert_eq!(id.len(), 36);
        for (i, c) in id.chars().enumerate() {
            if i == 8 || i == 13 || i == 18 || i == 23 {
                assert_eq!(c, '-');
            } else {
                assert!(c.is_ascii_digit() || ('a'..='f').contains(&c));
            }
        }
        assert_eq!(&id[14..15], "4");
        assert!(["8", "9", "a", "b"].contains(&&id[19..20]));
    }
    assert_ne!(a.session.id, b.session.id);
    assert!(a.session.created_at > 1_600_000_000_000);
    assert_eq!(a.session.created_at, a.session.updated_at);
    assert!(b.session.created_at > 1_600_000_000_000);
}

#[test]
fn missing_directory_is_refused_before_the_rest() {
    let mut registry = TerminalSessionRegistry::default();
    let tempdir = tempfile::tempdir().expect("tempdir");
    let missing = tempdir.path().join("missing").display().to_string();
    let lost = ShellHost { platform: Platform::Unix, login_shell: None, existing: Vec::new() };
    for (workdir, message) in [
        (" \n", "workdir is required".to_string()),
        ("some/dir", "workdir must be absolute: some/dir".to_string()),
        (missing.as_str(), format!("workdir does not exist: {missing}")),
    ] {
        let r =
            registry.create(directory(workdir), None, None, None, None, None, &lost, Ok(Some(1)));
        assert_eq!(r.err(), Some(message));
    }
    assert!(registry.list(None).sessions.is_empty());
}

#[test]
fn created_session_is_recorded_in_full() {
    let mut registry = TerminalSessionRegistry::default();
    let r = registry
        .create_at(
            Ok("/work/dir".to_string()),
            None,
            None,
            None,
            Some(5),
            Some(1000),
            &host(),
            Ok(Some(7)),
            "s1".to_string(),
            11,
        )
        .expect("create");
    let s = r.session;
    assert_eq!(s.id, "s1");
    assert_eq!(s.project_path_key, "/work/dir");
    assert_eq!(s.cwd, "/work/dir");
    assert_eq!(s.shell, "bash");
    assert_eq!(s.title, "Terminal 1");
    assert_eq!(s.pid, Some(7));
    assert_eq!((s.cols, s.rows), (20, 200));
    assert_eq!((s.created_at, s.updated_at), (11, 11));
    assert_eq!((s.finished_at, s.exit_code), (None, None));
    assert!(s.running);
    assert_eq!(r.output, "");
    assert!(!r.truncated);
    let again = registry.snapshot(" s1\n".to_string(), None).expect("snapshot");
    assert_eq!(again.session.title, "Terminal 1");
}

#[test]
fn default_titles_count_the_sessions_of_the_project() {
    let mut registry = TerminalSessionRegistry::default();
    for n in 1..=11u128 {
        let s = create_at(&mut registry, " /p ", Some("  "), &format!("p{n}"), n);
        assert_eq!(s.session.title, format!("Terminal {n}"));
        assert_eq!(s.session.project_path_key, "/p");
    }
    let s = create_at(&mut registry, "/q", None, "q1", 20);
    assert_eq!(s.session.title, "Terminal 1");
    let s = create_at(&mut registry, "/q", Some(" Named "), "q2", 21);
    assert_eq!(s.session.title, "Named");
    assert_eq!(registry.next_terminal_title(&"/p".to_string()), "Terminal 12");
}

#[test]
fn failed_launches_are_reported_and_leave_nothing() {
    let stages = [
        (LaunchStage::OpenPty, "failed to open terminal pty: why"),
        (LaunchStage::SpawnShell, "failed to spawn terminal shell: why"),
        (LaunchStage::OpenReader, "failed to open terminal reader: why"),
        (LaunchStage::OpenWriter, "failed to open terminal writer: why"),
    ];
    let mut registry = TerminalSessionRegistry::default();
    for (stage, message) in stages {
        let r = registry.create(
            Ok("/work".to_string()),
            None,
            None,
            None,
            None,
            None,
            &host(),
            Err(LaunchFailure { stage, error: "why".to_string() }),
        );
        assert_eq!(r.err(), Some(message.to_string()));
    }
    let r = registry.create(
        Ok("  ".to_string()),
        Some("\t".to_string()),
        None,
        None,
        None,
        None,
        &host(),
        Ok(None),
    );
    assert_eq!(r.err(), Some("project_path_key is required".to_string()));
    let lost = ShellHost { platform: Platform::Unix, login_shell: None, existing: Vec::new() };
    let r = registry.create(Ok("/work".to_string()), None, None, None, None, None, &lost, Ok(None));
    assert_eq!(r.err(), Some("failed to resolve login shell".to_string()));
    let r = registry.create(
        Err("workdir is required".to_string()),
        Some(" ".to_string()),
        None,
        None,
        None,
        None,
        &lost,
        Err(LaunchFailure { stage: LaunchStage::OpenPty, error: "why".to_string() }),
    );
    assert_eq!(r.err(), Some("workdir is required".to_string()));
    assert_eq!(registry.running_session_count(), 0);
    assert!(registry.take_deliveries().is_empty());
}

#[test]
fn unknown_and_blank_ids_are_refused_everywhere() {
    let mut registry = TerminalSessionRegistry::default();
    create_at(&mut registry, "/p", None, "s1", 1);
    registry.take_deliveries();
    let blank = Some("terminal_id is required".to_string());
    let unknown = Some("terminal session not found: nope".to_string());
    for (id, message) in [("  ", &blank), (" nope ", &unknown)] {
        let id = id.to_string();
        assert_eq!(&registry.session_record(id.clone()).err(), message);
        assert_eq!(&registry.snapshot(id.clone(), None).err(), message);
        assert_eq!(&registry.rename(id.clone(), "x".to_string()).err(), message);
        assert_eq!(&registry.resize(id.clone(), 80, 24, Ok(())).err(), message);
        assert_eq!(&registry.plan_resize(&id, 80, 24).err(), message);
        assert_eq!(&registry.close(id.clone(), None).err(), message);
        assert_eq!(&registry.plan_input(id.clone(), "x".to_string()).err(), message);
        assert_eq!(&registry.terminate_terminal_entry(&id, Platform::Unix).err(), message);
        registry.append_output(&id, "lost".to_string());
        registry.mark_finished(&id, Some(1));
    }
    assert!(registry.take_deliveries().is_empty());
    assert_eq!(registry.running_session_count(), 1);
}

#[test]
fn rename_trims_and_refuses_blank_titles() {
    let mut registry = TerminalSessionRegistry::default();
    create_at(&mut registry, "/p", None, "s1", 1);
    create_at(&mut registry, "/p", None, "s2", 2);
    let r = registry.rename_at("s1".to_string(), "\u{3000} New \u{a0}".to_string(), 5).expect("rename");
    assert_eq!(r.title, "New");
    assert_eq!((r.created_at, r.updated_at), (1, 5));
    let r = registry.rename_at("s1".to_string(), " \n".to_string(), 6);
    assert_eq!(r.err(), Some("terminal title cannot be empty".to_string()));
    assert_eq!(registry.session_record("s1".to_string()).expect("s1").title, "New");
    assert_eq!(registry.session_record("s2".to_string()).expect("s2").title, "Terminal 2");
    assert_eq!(kinds(&mut registry), ["created", "created", "renamed"]);
}

#[test]
fn resize_clamps_and_reports_failure() {
    let mut registry = TerminalSessionRegistry::default();
    create_at(&mut registry, "/p", None, "s1", 1);
    let size = registry.plan_resize("s1", 1, 65535).expect("size");
    assert_eq!((size.cols, size.rows), (20, 200));
    let r = registry.resize_at("s1".to_string(), 1, 65535, Ok(()), 3).expect("resize");
    assert_eq!((r.cols, r.rows, r.updated_at), (20, 200, 3));
    let r = registry.resize_at("s1".to_string(), 401, 5, Ok(()), 4).expect("resize");
    assert_eq!((r.cols, r.rows), (400, 6));
    let r = registry.resize_at("s1".to_string(), 80, 24, Err("gone".to_string()), 5);
    assert_eq!(r.err(), Some("failed to resize terminal: gone".to_string()));
    let r = registry.session_record("s1".to_string()).expect("record");
    assert_eq!((r.cols, r.rows, r.updated_at), (400, 6, 4));
    assert_eq!(kinds(&mut registry), ["created", "resized", "resized"]);
}

#[test]
fn input_goes_to_running_sessions_only() {
    let mut registry = TerminalSessionRegistry::default();
    create_at(&mut registry, "/p", None, "s1", 1);
    registry.take_deliveries();
    let plan = registry.plan_input("s1".to_string(), "ls\n".to_string()).expect("plan");
    assert_eq!(plan.data, "ls\n");
    let r = registry.input_at(plan, Ok(()), 7).expect("input");
    assert_eq!(r.updated_at, 7);
    let plan = registry.plan_input("s1".to_string(), "ls\n".to_string()).expect("plan");
    let r = registry.input_at(plan, Err("pipe".to_string()), 8);
    assert_eq!(r.err(), Some("failed to write terminal input: pipe".to_string()));
    assert_eq!(registry.session_record("s1".to_string()).expect("record").updated_at, 7);

    registry.mark_finished_at("s1", Some(3), 9, 10);
    let r = registry.plan_input("s1".to_string(), "ls\n".to_string());
    assert_eq!(r.err(), Some("terminal session is not running".to_string()));
    let plan = registry.plan_input("s1".to_string(), String::new()).expect("plan");
    let r = registry.input_at(plan, Ok(()), 11).expect("empty input");
    assert_eq!((r.updated_at, r.exit_code), (10, Some(3)));
    let plan = registry.plan_input("nope".to_string(), String::new()).expect("plan");
    let r = registry.input(plan, Ok(()));
    assert_eq!(r.err(), Some("terminal session not found: nope".to_string()));
    assert_eq!(kinds(&mut registry), ["exit"]);
}

#[test]
fn first_finish_counts() {
    let mut registry = TerminalSessionRegistry::default();
    create_at(&mut registry, "/p", None, "s1", 1);
    registry.mark_finished_at("s1", Some(u32::MAX), 5, 6);
    registry.mark_finished_at("s1", Some(0), 7, 8);
    let r = registry.session_record("s1".to_string()).expect("record");
    assert!(!r.running);
    assert_eq!((r.finished_at, r.updated_at, r.exit_code), (Some(5), 6, Some(-1)));
    let closed = registry.close_at("s1".to_string(), Some(9), 10, 11).expect("close");
    assert_eq!((closed.finished_at, closed.updated_at, closed.exit_code), (Some(5), 6, Some(-1)));
    assert_eq!(kinds(&mut registry), ["created", "exit", "exit", "exit", "closed"]);
    assert_eq!(
        registry.session_record("s1".to_string()).err(),
        Some("terminal session not found: s1".to_string())
    );
}

#[test]
fn output_is_kept_in_a_ring_and_read_back() {
    let mut registry = TerminalSessionRegistry::default();
    create_at(&mut registry, "/p", None, "s1", 1);
    registry.append_output_at("s1", "abc".to_string(), 2);
    registry.append_output_at("s1", "d\u{e9}".to_string(), 3);
    let s = registry.snapshot("s1".to_string(), Some(3)).expect("snapshot");
    assert_eq!((s.output.as_str(), s.truncated), ("d\u{e9}", true));
    let s = registry.snapshot("s1".to_string(), None).expect("snapshot");
    assert_eq!((s.output.as_str(), s.truncated), ("abcd\u{e9}", false));
    assert_eq!(s.session.updated_at, 3);
    for n in 0..4096u128 {
        registry.append_output_at("s1", "x".to_string(), n);
    }
    let s = registry.snapshot("s1".to_string(), None).expect("snapshot");
    assert_eq!(s.output, "x".repeat(4096));
    assert!(!s.truncated);
    registry.append_output("s1", "y".to_string());
    let s = registry.snapshot("s1".to_string(), None).expect("snapshot");
    assert_eq!(s.output, format!("{}y", "x".repeat(4095)));
}

#[test]
fn output_bytes_are_decoded() {
    let mut registry = TerminalSessionRegistry::default();
    create_at(&mut registry, "/p", None, "s1", 1);
    registry.take_deliveries();
    let buffer = [b'a', 0xff, b'b', 0xc3, 0xa9, b'z'];
    assert!(registry.pump_output("s1", &buffer, Some(5)));
    assert!(!registry.pump_output("s1", &buffer, Some(0)));
    assert!(!registry.pump_output("s1", &buffer, None));
    let s = registry.snapshot("s1".to_string(), None).expect("snapshot");
    assert_eq!(s.output, "a\u{fffd}b\u{e9}");
    let due = registry.take_deliveries();
    assert_eq!(due.len(), 1);
    assert_eq!(due[0].event.payload.kind, "output");
    assert_eq!(due[0].event.payload.data, Some("a\u{fffd}b\u{e9}".to_string()));
    assert_eq!(due[0].event.payload.session_id, "s1");
    assert_eq!(due[0].event.payload.project_path_key, "/p");
}

#[test]
fn listing_is_sorted_by_project_and_creation() {
    let mut registry = TerminalSessionRegistry::default();
    create_at(&mut registry, "/b", None, "b2", 9);
    create_at(&mut registry, "/a\u{1f600}", None, "a4", 1);
    create_at(&mut registry, "/b", None, "b1", 3);
    create_at(&mut registry, "/a", None, "a2", 7);
    create_at(&mut registry, "/a\u{ffff}", None, "a3", 2);
    create_at(&mut registry, "/a", None, "a1", 5);
    let ids: Vec<String> = registry.list(None).sessions.into_iter().map(|s| s.id).collect();
    assert_eq!(ids, ["a1", "a2", "a3", "a4", "b1", "b2"]);
    let ids: Vec<String> =
        registry.list(Some(" /b ".to_string())).sessions.into_iter().map(|s| s.id).collect();
    assert_eq!(ids, ["b1", "b2"]);
    assert_eq!(registry.list(Some("  ".to_string())).sessions.len(), 6);
    assert!(registry.list(Some("/c".to_string())).sessions.is_empty());
}

#[test]
fn subscribers_and_app_get_what_happens_while_they_listen() {
    let mut registry = TerminalSessionRegistry::default();
    create_at(&mut registry, "/p", None, "s1", 1);
    let a = registry.subscribe();
    registry.append_output("s1", "1".to_string());
    let b = registry.subscribe();
    registry.attach_app_handle();
    registry.append_output("s1", "2".to_string());
    registry.unsubscribe(&a);
    registry.append_output("s1", "3".to_string());
    assert_ne!(a.id(), b.id());
    let due = registry.take_deliveries();
    assert_eq!(due.len(), 4);
    assert!(due[0].subscribers.is_empty() && !due[0].to_app);
    assert_eq!(due[1].subscribers, [a.id()]);
    assert!(!due[1].to_app);
    assert_eq!(due[2].subscribers, [a.id(), b.id()]);
    assert!(due[2].to_app);
    assert_eq!(due[3].subscribers, [b.id()]);
    assert!(registry.take_deliveries().is_empty());
}

#[test]
fn close_all_answers_every_session_with_its_status() {
    let mut registry = TerminalSessionRegistry::default();
    create_at(&mut registry, "/p", None, "s1", 1);
    create_at(&mut registry, "/q", None, "s2", 2);
    registry.take_deliveries();
    let mut ids = registry.session_ids();
    ids.sort();
    assert_eq!(ids, ["s1", "s2"]);
    let exits = vec![
        SessionExit { session_id: "s2".to_string(), exit_status: Some(130) },
        SessionExit { session_id: "s2".to_string(), exit_status: Some(1) },
    ];
    let mut closed = registry.close_all(&exits).expect("close all").sessions;
    closed.sort_by(|x, y| x.id.cmp(&y.id));
    assert_eq!(closed.len(), 2);
    assert_eq!((closed[0].id.as_str(), closed[0].exit_code), ("s1", None));
    assert_eq!((closed[1].id.as_str(), closed[1].exit_code), ("s2", Some(130)));
    assert!(closed.iter().all(|s| !s.running && s.finished_at.is_some()));
    assert_eq!(kinds(&mut registry), ["exit", "closed", "exit", "closed"]);
    assert!(registry.list(None).sessions.is_empty());
}

#[test]
fn ids_are_closed_in_their_order() {
    let mut registry = TerminalSessionRegistry::default();
    for (n, id) in ["s1", "s2", "s3"].iter().enumerate() {
        create_at(&mut registry, "/p", None, id, n as u128);
    }
    registry.take_deliveries();
    let exits = vec![SessionExit { session_id: "s3".to_string(), exit_status: Some(2) }];
    let closed = registry
        .close_ids(vec![" s3 ".to_string(), "s1".to_string()], &exits)
        .expect("close ids")
        .sessions;
    assert_eq!(closed.len(), 2);
    assert_eq!((closed[0].id.as_str(), closed[0].exit_code), ("s3", Some(2)));
    assert_eq!((closed[1].id.as_str(), closed[1].exit_code), ("s1", None));
    assert!(closed.iter().all(|s| !s.running));
    let told: Vec<(String, String)> = registry
        .take_deliveries()
        .into_iter()
        .map(|d| (d.event.payload.kind, d.event.payload.session_id))
        .collect();
    let expected = [("exit", "s3"), ("closed", "s3"), ("exit", "s1"), ("closed", "s1")];
    assert_eq!(told, expected.map(|(kind, id)| (kind.to_string(), id.to_string())));
    assert_eq!(registry.session_ids(), ["s2"]);
    assert!(registry.close_ids(Vec::new(), &exits).expect("close none").sessions.is_empty());
}

#[test]
fn closing_ids_stops_at_the_first_that_fails() {
    for (bad, message) in [
        (" ", "terminal_id is required"),
        (" nope ", "terminal session not found: nope"),
        (" s1", "terminal session not found: s1"),
    ] {
        let mut registry = TerminalSessionRegistry::default();
        create_at(&mut registry, "/p", None, "s1", 1);
        create_at(&mut registry, "/p", None, "s2", 2);
        registry.take_deliveries();
        let ids = vec!["s1".to_string(), bad.to_string(), "s2".to_string()];
        let r = registry.close_ids(ids, &Vec::new());
        assert_eq!(r.err(), Some(message.to_string()));
        assert_eq!(registry.session_ids(), ["s2"]);
        assert!(registry.session_record("s2".to_string()).expect("record").running);
        assert_eq!(kinds(&mut registry), ["exit", "closed"]);
    }
}

#[test]
fn close_project_needs_a_project() {
    let mut registry = TerminalSessionRegistry::default();
    create_at(&mut registry, "/p", None, "s1", 1);
    let message = Some("project_path_key is required".to_string());
    assert_eq!(registry.close_project("  ".to_string(), &Vec::new()).err(), message);
    assert_eq!(registry.project_session_ids(" ").err(), message);
    assert_eq!(registry.read_tail(" ".to_string(), None, None).err(), message);
    assert_eq!(registry.project_session_ids(" /p ").expect("ids"), ["s1"]);
    assert_eq!(registry.running_session_count(), 1);
}

#[test]
fn read_tail_stays_within_the_project() {
    let mut registry = TerminalSessionRegistry::default();
    create_at(&mut registry, "/p", None, "s1", 1);
    create_at(&mut registry, "/q", None, "s2", 2);
    registry.append_output("s1", "hello".to_string());

    let only = registry.read_tail(" /p".to_string(), Some(" ".to_string()), Some(4)).expect("tail");
    assert_eq!(only.selected_session.expect("selected").id, "s1");
    assert_eq!((only.output.as_str(), only.truncated), ("ello", true));
    assert_eq!(only.sessions.len(), 1);

    let r = registry.read_tail("/p".to_string(), Some("s2".to_string()), None);
    assert_eq!(r.err(), Some("terminal session is outside the current project".to_string()));
    let r = registry.read_tail("/p".to_string(), Some("s3".to_string()), None);
    assert_eq!(r.err(), Some("terminal session not found: s3".to_string()));

    let none = registry.read_tail("/z".to_string(), Some("s2".to_string()), None).expect("tail");
    assert!(none.sessions.is_empty() && none.selected_session.is_none());
    assert!(none.output.is_empty() && !none.truncated);
}

#[test]
fn shutdown_forgets_sessions_silently() {
    let mut registry = TerminalSessionRegistry::default();
    create(&mut registry, "/p", None, None);
    create_at(&mut registry, "/q", None, "s2", 2);
    registry.take_deliveries();
    let mut stops = registry.shutdown(Platform::Unix);
    stops.sort_by_key(|s| s.command.is_none());
    assert_eq!(stops.len(), 2);
    let kill = stops[0].command.as_ref().expect("command");
    assert_eq!(kill.program, "kill");
    assert_eq!(kill.args, ["-TERM", "-4242"]);
    assert_eq!(stops[1].session_id, "s2");
    assert!(stops[1].command.is_none());
    assert!(registry.list(None).sessions.is_empty());
    assert!(registry.take_deliveries().is_empty());
}

#[test]
fn a_session_under_a_known_id_takes_its_place() {
    let mut registry = TerminalSessionRegistry::default();
    create_at(&mut registry, "/p", None, "s1", 1);
    registry.append_output("s1", "old".to_string());
    create_at(&mut registry, "/q", None, "s1", 2);
    assert_eq!(registry.list(None).sessions.len(), 1);
    let s = registry.snapshot("s1".to_string(), None).expect("snapshot");
    assert_eq!((s.session.project_path_key.as_str(), s.output.as_str()), ("/q", ""));
}
