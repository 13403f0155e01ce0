use terminal::paths::{unix_file_name, unix_is_absolute};
use terminal::shell::{
    resolve_shell, resolve_unix_shell_fallback, terminal_shell_options, unix_shell_candidates,
    Platform, ShellHost,
};

fn host(platform: Platform, login: Option<&str>, existing: &[&str]) -> ShellHost {
    ShellHost {
        platform,
        login_shell: login.map(|s| s.to_string()),
        existing: existing.iter().map(|s| s.to_string()).collect(),
    }
}

fn windows() -> ShellHost {
    host(Platform::Windows, Some("/bin/bash"), &["/bin/sh"])
}

#[test]
fn shell_options_include_default() {
    for host in [
        windows(),
        host(Platform::MacOs, Some("/bin/zsh"), &[]),
        host(Platform::Unix, None, &["/bin/sh"]),
        host(Platform::Unix, None, &[]),
    ] {
        let options = terminal_shell_options(&host);
        assert!(!options.default_shell.trim().is_empty());
        assert!(!options.options.is_empty());
    }
}

#[test]
fn windows_offers_cmd_and_power_shell() {
    let r = terminal_shell_options(&windows());
    assert_eq!(r.default_shell, "cmd");
    let options: Vec<(&str, &str, &str)> = r
        .options
        .iter()
        .map(|o| (o.id.as_str(), o.label.as_str(), o.command.as_str()))
        .collect();
    assert_eq!(
        options,
        [("cmd", "cmd", "cmd.exe"), ("powershell", "PowerShell", "powershell.exe")]
    );
    for option in &r.options {
        let shell = resolve_shell(Some(option.id.clone()), &windows()).expect("shell");
        assert_eq!((shell.label, shell.command), (option.label.clone(), option.command.clone()));
    }
}

#[test]
fn windows_shells_are_chosen_by_name() {
    for name in [Some(" PowerShell "), Some("PWSH")] {
        let shell = resolve_shell(name.map(|s| s.to_string()), &windows()).expect("shell");
        assert_eq!(shell.label, "PowerShell");
        assert_eq!(shell.command, "powershell.exe");
        assert_eq!(shell.args, ["-NoLogo", "-ExecutionPolicy", "Bypass"]);
    }
    for name in [None, Some("  "), Some("Default"), Some("CMD")] {
        let shell = resolve_shell(name.map(|s| s.to_string()), &windows()).expect("shell");
        assert_eq!(shell.label, "cmd");
        assert_eq!(shell.command, "cmd.exe");
        assert!(shell.args.is_empty());
    }
    assert_eq!(
        resolve_shell(Some(" F\u{c9}sh ".to_string()), &windows()).err(),
        Some("unsupported Windows terminal shell: f\u{c9}sh".to_string())
    );
}

#[test]
fn login_shell_wins_where_it_is_absolute() {
    let shell = resolve_shell(
        Some("powershell".to_string()),
        &host(Platform::Unix, Some(" /usr/bin/fish\n"), &["/bin/sh"]),
    )
    .expect("shell");
    assert_eq!((shell.label.as_str(), shell.command.as_str()), ("fish", "/usr/bin/fish"));
    assert!(shell.args.is_empty());
    for login in [None, Some("  "), Some("fish")] {
        let shell = resolve_shell(None, &host(Platform::Unix, login, &["/bin/sh"])).expect("shell");
        assert_eq!((shell.label.as_str(), shell.command.as_str()), ("sh", "/bin/sh"));
    }
    let shell = resolve_shell(None, &host(Platform::Unix, Some("/"), &[])).expect("shell");
    assert_eq!((shell.label.as_str(), shell.command.as_str()), ("shell", "/"));
    assert_eq!(
        resolve_shell(None, &host(Platform::Unix, None, &[])).err(),
        Some("failed to resolve login shell".to_string())
    );
    let options = terminal_shell_options(&host(Platform::Unix, None, &[])).options;
    assert_eq!((options[0].label.as_str(), options[0].command.as_str()), ("sh", "/bin/sh"));
}

#[test]
fn fallback_order_depends_on_the_platform() {
    let all = ["/bin/sh", "/bin/bash", "/bin/zsh"];
    let pick = |p, e: &[&str]| resolve_unix_shell_fallback(&host(p, None, e));
    assert_eq!(pick(Platform::MacOs, &all), Some("/bin/zsh".to_string()));
    assert_eq!(pick(Platform::Unix, &all), Some("/bin/bash".to_string()));
    assert_eq!(pick(Platform::Unix, &["/bin/sh", "/bin/zsh"]), Some("/bin/zsh".to_string()));
    assert_eq!(pick(Platform::Unix, &["/bin/fish"]), None);
    assert_eq!(unix_shell_candidates(Platform::MacOs), ["/bin/zsh", "/bin/bash", "/bin/sh"]);
    assert_eq!(unix_shell_candidates(Platform::Unix), ["/bin/bash", "/bin/zsh", "/bin/sh"]);
}

#[test]
fn file_names_are_those_of_std() {
    for path in [
        "", "/", "//", ".", "..", "./", "/.", "/..", "a", "a/", "a//", "a/.", "a/./", "a/..", "./a",
        "/bin/bash", "/bin/bash/", "/bin//bash/./", "/bin/../sh", "/bin/...", "/bin/.x", "x/.y/.",
        "/\u{e9}/\u{20ac}", "./.", "../.",
    ] {
        let expected = std::path::Path::new(path)
            .file_name()
            .and_then(|n| n.to_str())
            .map(|n| n.to_string());
        assert_eq!(unix_file_name(path), expected, "{path:?}");
        assert_eq!(unix_is_absolute(path), std::path::Path::new(path).is_absolute(), "{path:?}");
    }
}
