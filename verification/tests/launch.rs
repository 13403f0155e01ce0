use std::time::{Duration, UNIX_EPOCH};

use terminal::host::{millis_at, now_ms};
use terminal::launch::{
    fit_size, plan_launch, terminate_process_tree_best_effort, workspace_project_path_key,
};
use terminal::shell::{Platform, ShellHost};
use terminal::text::decimal;
use terminal::types::TERMINAL_EVENT_NAME;
use terminal::workdir::{canonicalize_workdir, WorkdirAction, WorkdirEvent};

fn host() -> ShellHost {
    ShellHost {
        platform: Platform::Windows,
        login_shell: None,
        existing: Vec::new(),
    }
}

#[test]
fn plan_holds_all_that_is_started() {
    let plan = plan_launch(
        Ok("C:\\work".to_string()),
        Some(" key ".to_string()),
        Some("pwsh".to_string()),
        None,
        None,
        &host(),
    )
    .expect("plan");
    assert_eq!(plan.cwd, "C:\\work");
    assert_eq!(plan.project_path_key, "key");
    assert_eq!(plan.shell.command, "powershell.exe");
    assert_eq!((plan.size.cols, plan.size.rows), (80, 24));
    assert_eq!(
        plan.env,
        [
            ("TERM".to_string(), "xterm-256color".to_string()),
            ("COLORTERM".to_string(), "truecolor".to_string())
        ]
    );
    let key = Some(" ".to_string());
    let plan = plan_launch(Ok(" /w ".to_string()), key, None, Some(0), Some(9), &host())
        .expect("plan");
    assert_eq!((plan.cwd.as_str(), plan.project_path_key.as_str()), (" /w ", "/w"));
    assert_eq!((plan.size.cols, plan.size.rows), (20, 9));
    let r = plan_launch(Ok("/w".to_string()), None, Some("fish".to_string()), None, None, &host());
    assert_eq!(r.err(), Some("unsupported Windows terminal shell: fish".to_string()));
    let r = plan_launch(Ok(" ".to_string()), None, Some("fish".to_string()), None, None, &host());
    assert_eq!(r.err(), Some("project_path_key is required".to_string()));
    let refused = Err("workdir must be absolute: x".to_string());
    let r = plan_launch(refused, None, Some("fish".to_string()), None, None, &host());
    assert_eq!(r.err(), Some("workdir must be absolute: x".to_string()));
}

#[test]
fn sizes_are_clamped() {
    let size = |c, r| {
        let s = fit_size(c, r);
        (s.cols, s.rows)
    };
    assert_eq!(size(19, 5), (20, 6));
    assert_eq!(size(20, 6), (20, 6));
    assert_eq!(size(400, 200), (400, 200));
    assert_eq!(size(401, 201), (400, 200));
}

#[test]
fn project_keys_are_trimmed_of_all_white_space() {
    for c in "\t\n\u{b}\u{c}\r \u{85}\u{a0}\u{1680}\u{2000}\u{200a}\u{2028}\u{2029}\u{202f}\u{205f}\u{3000}"
        .chars()
    {
        assert_eq!(workspace_project_path_key(&format!("{c}{c}a{c}b{c}")), format!("a{c}b"));
        assert_eq!(workspace_project_path_key(&format!("{c}")), "");
    }
    for c in "\u{0}\u{8}\u{e}\u{1f}\u{84}\u{180e}\u{200b}\u{2060}\u{feff}".chars() {
        assert_eq!(workspace_project_path_key(&format!("{c}a{c}")), format!("{c}a{c}"));
    }
    for n in 0..=0x10ffffu32 {
        if let Some(c) = char::from_u32(n) {
            let stated = (0x09..=0x0d).contains(&n)
                || (0x2000..=0x200a).contains(&n)
                || [0x20, 0x85, 0xa0, 0x1680, 0x2028, 0x2029, 0x202f, 0x205f, 0x3000].contains(&n);
            assert_eq!(workspace_project_path_key(&c.to_string()).is_empty(), stated);
        }
    }
}

#[test]
fn process_trees_are_stopped_by_command() {
    let stop = |pid, platform| {
        terminate_process_tree_best_effort(pid, platform).map(|c| (c.program, c.args))
    };
    assert_eq!(stop(None, Platform::Unix), None);
    assert_eq!(stop(Some(0), Platform::Windows), None);
    let (program, args) = stop(Some(1234567890), Platform::Windows).expect("command");
    assert_eq!(program, "taskkill");
    assert_eq!(args, ["/PID", "1234567890", "/T", "/F"]);
    let (program, args) = stop(Some(10), Platform::MacOs).expect("command");
    assert_eq!(program, "kill");
    assert_eq!(args, ["-TERM", "-10"]);
}

#[test]
fn numbers_are_written_in_decimal() {
    for n in [0, 7, 9, 10, 99, 100, 1_000_203, u128::MAX] {
        assert_eq!(decimal(n), n.to_string());
    }
}

#[test]
fn clock_is_past_the_epoch() {
    let a = now_ms();
    let b = now_ms();
    assert!(a > 1_600_000_000_000);
    assert!(b < a + 60_000);
}

#[test]
fn times_are_counted_in_whole_milliseconds_from_the_epoch() {
    assert_eq!(millis_at(&UNIX_EPOCH), 0);
    assert_eq!(millis_at(&(UNIX_EPOCH + Duration::from_micros(1_500_999))), 1_500);
    assert_eq!(millis_at(&(UNIX_EPOCH - Duration::from_secs(5))), 0);
}

#[test]
fn events_have_a_channel() {
    assert_eq!(TERMINAL_EVENT_NAME, "terminal:event");
}

fn refusal(action: WorkdirAction) -> String {
    match action {
        WorkdirAction::Refuse(message) => message,
        other => panic!("{other:?}"),
    }
}

fn follow(
    workdir: &str,
    absolute: bool,
    is_dir: Option<bool>,
    canonical: Result<String, String>,
) -> Result<String, String> {
    let mut event = WorkdirEvent::Requested;
    loop {
        event = match canonicalize_workdir(workdir, event) {
            WorkdirAction::Expand(_) => WorkdirEvent::Expanded { absolute },
            WorkdirAction::Inspect => WorkdirEvent::Inspected { is_dir },
            WorkdirAction::Canonicalize => WorkdirEvent::Canonicalized(canonical.clone()),
            WorkdirAction::Accept(path) => return Ok(path),
            WorkdirAction::Refuse(message) => return Err(message),
        };
    }
}

#[test]
fn first_refusal_of_a_workdir_counts() {
    let bad = || Err("loop".to_string());
    let refused = |r: Result<String, String>| r.err().expect("refusal");
    assert_eq!(refused(follow(" ", false, None, bad())), "workdir is required");
    assert_eq!(refused(follow("w", false, None, bad())), "workdir must be absolute: w");
    assert_eq!(refused(follow("/w", true, None, bad())), "workdir does not exist: /w");
    assert_eq!(refused(follow("/w", true, Some(false), bad())), "workdir must be a directory: /w");
    assert_eq!(
        refused(follow("/w", true, Some(true), bad())),
        "failed to canonicalize workdir: loop"
    );
    let found = follow(" /w ", true, Some(true), Ok("/real/w".to_string()));
    assert_eq!(found, Ok("/real/w".to_string()));
}

#[test]
fn workdir_is_checked_step_by_step() {
    let dir = " ~/x ";
    assert_eq!(refusal(canonicalize_workdir(" \t", WorkdirEvent::Requested)), "workdir is required");
    assert!(matches!(
        canonicalize_workdir(dir, WorkdirEvent::Requested),
        WorkdirAction::Expand(p) if p == "~/x"
    ));
    assert_eq!(
        refusal(canonicalize_workdir(dir, WorkdirEvent::Expanded { absolute: false })),
        "workdir must be absolute:  ~/x "
    );
    assert!(matches!(
        canonicalize_workdir(dir, WorkdirEvent::Expanded { absolute: true }),
        WorkdirAction::Inspect
    ));
    assert_eq!(
        refusal(canonicalize_workdir(dir, WorkdirEvent::Inspected { is_dir: None })),
        "workdir does not exist:  ~/x "
    );
    assert_eq!(
        refusal(canonicalize_workdir(dir, WorkdirEvent::Inspected { is_dir: Some(false) })),
        "workdir must be a directory:  ~/x "
    );
    assert!(matches!(
        canonicalize_workdir(dir, WorkdirEvent::Inspected { is_dir: Some(true) }),
        WorkdirAction::Canonicalize
    ));
    assert_eq!(
        refusal(canonicalize_workdir(dir, WorkdirEvent::Canonicalized(Err("loop".to_string())))),
        "failed to canonicalize workdir: loop"
    );
    assert!(matches!(
        canonicalize_workdir(dir, WorkdirEvent::Canonicalized(Ok("/home/x".to_string()))),
        WorkdirAction::Accept(p) if p == "/home/x"
    ));
}
