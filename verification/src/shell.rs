//! Which shell a terminal runs, and which shells are offered.

use vstd::prelude::*;

use crate::paths::{file_name, is_absolute, unix_file_name, unix_is_absolute};
use crate::text::{join, lowercase, texts, trimmed};
use crate::types::{
    opt_text, ShellOptionView, ShellOptionsView, TerminalShellOption, TerminalShellOptionsResponse,
};

verus! {

/// The kind of machine that the terminals run on.
#[derive(Debug, Clone, Copy, PartialEq, Eq, Structural)]
pub enum Platform {
    Windows,
    MacOs,
    Unix,
}

/// What the machine says about its shells: the login shell of the environment,
/// and which of the candidates of [`unix_shell_candidates`] exist.
#[derive(Debug, Clone)]
pub struct ShellHost {
    pub platform: Platform,
    pub login_shell: Option<String>,
    pub existing: Vec<String>,
}

/// The view of a [`ShellHost`].
#[verifier::ext_equal]
pub struct ShellHostView {
    pub platform: Platform,
    pub login_shell: Option<Seq<char>>,
    pub existing: Seq<Seq<char>>,
}

impl View for ShellHost {
    type V = ShellHostView;

    open spec fn view(&self) -> ShellHostView {
        ShellHostView {
            platform: self.platform,
            login_shell: opt_text(self.login_shell),
            existing: texts(self.existing@),
        }
    }
}

/// A shell that can be started.
#[derive(Debug, Clone)]
pub struct ShellSpec {
    pub label: String,
    pub command: String,
    pub args: Vec<String>,
}

/// The view of a [`ShellSpec`].
#[verifier::ext_equal]
pub struct ShellSpecView {
    pub label: Seq<char>,
    pub command: Seq<char>,
    pub args: Seq<Seq<char>>,
}

impl View for ShellSpec {
    type V = ShellSpecView;

    open spec fn view(&self) -> ShellSpecView {
        ShellSpecView { label: self.label@, command: self.command@, args: texts(self.args@) }
    }
}

/// The view of a shell result.
pub open spec fn shell_result(r: Result<ShellSpec, String>) -> Result<ShellSpecView, Seq<char>> {
    match r {
        Ok(x) => Ok(x@),
        Err(e) => Err(e@),
    }
}

/// The shell that a request names, trimmed and in lower case; `default` where
/// it names none.
pub open spec fn requested_shell(shell: Option<Seq<char>>) -> Seq<char> {
    match shell {
        Some(name) if lowercase(trimmed(name)).len() > 0 => lowercase(trimmed(name)),
        _ => "default"@,
    }
}

/// The shells to look for, in order, where the environment names no login
/// shell.
pub open spec fn shell_candidates(platform: Platform) -> Seq<Seq<char>> {
    if platform is MacOs {
        seq!["/bin/zsh"@, "/bin/bash"@, "/bin/sh"@]
    } else {
        seq!["/bin/bash"@, "/bin/zsh"@, "/bin/sh"@]
    }
}

/// The first of `candidates` that exists.
pub open spec fn first_existing(candidates: Seq<Seq<char>>, existing: Seq<Seq<char>>) -> Option<
    Seq<char>,
>
    decreases candidates.len(),
{
    if candidates.len() == 0 {
        None
    } else if existing.contains(candidates[0]) {
        Some(candidates[0])
    } else {
        first_existing(candidates.drop_first(), existing)
    }
}

/// The shell to run outside Windows: the login shell of the environment where
/// it is an absolute path, else the first candidate that exists.
pub open spec fn unix_shell_command(host: ShellHostView) -> Option<Seq<char>> {
    match host.login_shell {
        Some(path) if is_absolute(trimmed(path)) => Some(trimmed(path)),
        _ => first_existing(shell_candidates(host.platform), host.existing),
    }
}

/// The name under which a shell is shown: the file name of its command.
pub open spec fn shell_label(command: Seq<char>) -> Seq<char> {
    match file_name(command) {
        Some(name) => name,
        None => "shell"@,
    }
}

/// PowerShell, as it is started on Windows.
pub open spec fn power_shell() -> ShellSpecView {
    ShellSpecView {
        label: "PowerShell"@,
        command: "powershell.exe"@,
        args: seq!["-NoLogo"@, "-ExecutionPolicy"@, "Bypass"@],
    }
}

/// The Windows command prompt.
pub open spec fn cmd_shell() -> ShellSpecView {
    ShellSpecView { label: "cmd"@, command: "cmd.exe"@, args: seq![] }
}

/// The shell that a request gets. On Windows the request chooses; elsewhere the
/// host does.
pub open spec fn resolved_shell(shell: Option<Seq<char>>, host: ShellHostView) -> Result<
    ShellSpecView,
    Seq<char>,
> {
    if host.platform is Windows {
        let requested = requested_shell(shell);
        if requested == "powershell"@ || requested == "pwsh"@ {
            Ok(power_shell())
        } else if requested == "cmd"@ || requested == "default"@ {
            Ok(cmd_shell())
        } else {
            Err("unsupported Windows terminal shell: "@ + requested)
        }
    } else {
        match unix_shell_command(host) {
            Some(command) => Ok(
                ShellSpecView { label: shell_label(command), command, args: seq![] },
            ),
            None => Err("failed to resolve login shell"@),
        }
    }
}

/// The shells that a host offers.
pub open spec fn shell_options(host: ShellHostView) -> ShellOptionsView {
    if host.platform is Windows {
        ShellOptionsView {
            default_shell: "cmd"@,
            options: seq![
                ShellOptionView { id: "cmd"@, label: "cmd"@, command: "cmd.exe"@ },
                ShellOptionView {
                    id: "powershell"@,
                    label: "PowerShell"@,
                    command: "powershell.exe"@,
                },
            ],
        }
    } else {
        ShellOptionsView {
            default_shell: "default"@,
            options: seq![
                match resolved_shell(None, host) {
                    Ok(shell) => ShellOptionView {
                        id: "default"@,
                        label: shell.label,
                        command: shell.command,
                    },
                    Err(_) => ShellOptionView {
                        id: "default"@,
                        label: "sh"@,
                        command: "/bin/sh"@,
                    },
                },
            ],
        }
    }
}

/// Whether `list` holds `wanted`.
fn holds_text(list: &Vec<String>, wanted: &String) -> (r: bool)
    ensures
        r == texts(list@).contains(wanted@),
{
    let mut i: usize = 0;
    while i < list.len()
        invariant
            i <= list@.len(),
            forall|j: int| 0 <= j < i ==> list@[j]@ != wanted@,
        decreases list@.len() - i,
    {
        if list[i] == *wanted {
            proof {
                assert(texts(list@)[i as int] == wanted@);
            }
            return true;
        }
        i = i + 1;
    }
    proof {
        assert forall|j: int| 0 <= j < texts(list@).len() implies texts(list@)[j] != wanted@ by {}
    }
    false
}

/// The shells to look for outside Windows, in order.
pub fn unix_shell_candidates(platform: Platform) -> (r: Vec<String>)
    ensures
        texts(r@) == shell_candidates(platform),
{
    let mut r: Vec<String> = Vec::new();
    if platform == Platform::MacOs {
        r.push("/bin/zsh".to_owned());
        r.push("/bin/bash".to_owned());
    } else {
        r.push("/bin/bash".to_owned());
        r.push("/bin/zsh".to_owned());
    }
    r.push("/bin/sh".to_owned());
    assert(texts(r@) =~= shell_candidates(platform));
    r
}

/// The first candidate that exists on the host.
pub fn resolve_unix_shell_fallback(host: &ShellHost) -> (r: Option<String>)
    ensures
        opt_text(r) == first_existing(shell_candidates(host.platform), host@.existing),
{
    let candidates = unix_shell_candidates(host.platform);
    let ghost all = shell_candidates(host.platform);
    let mut i: usize = 0;
    proof {
        assert(all.skip(0) =~= all);
    }
    while i < candidates.len()
        invariant
            all == shell_candidates(host.platform),
            texts(candidates@) == all,
            i <= candidates@.len(),
            first_existing(all, host@.existing) == first_existing(
                all.skip(i as int),
                host@.existing,
            ),
        decreases candidates@.len() - i,
    {
        assert(all[i as int] == candidates@[i as int]@);
        assert(all.skip(i as int).drop_first() =~= all.skip(i + 1));
        if holds_text(&host.existing, &candidates[i]) {
            return Some(candidates[i].clone());
        }
        i = i + 1;
    }
    None
}

fn power_shell_spec() -> (r: ShellSpec)
    ensures
        r@ == power_shell(),
{
    let mut args: Vec<String> = Vec::new();
    args.push("-NoLogo".to_owned());
    args.push("-ExecutionPolicy".to_owned());
    args.push("Bypass".to_owned());
    assert(texts(args@) =~= power_shell().args);
    ShellSpec { label: "PowerShell".to_owned(), command: "powershell.exe".to_owned(), args }
}

fn cmd_shell_spec() -> (r: ShellSpec)
    ensures
        r@ == cmd_shell(),
{
    let args: Vec<String> = Vec::new();
    assert(texts(args@) =~= cmd_shell().args);
    ShellSpec { label: "cmd".to_owned(), command: "cmd.exe".to_owned(), args }
}

/// Finds the shell that a request gets.
pub fn resolve_shell(shell: Option<String>, host: &ShellHost) -> (r: Result<ShellSpec, String>)
    ensures
        shell_result(r) == resolved_shell(opt_text(shell), host@),
{
    if host.platform == Platform::Windows {
        let mut requested = "default".to_owned();
        if let Some(name) = shell {
            let lower = name.as_str().trim().to_ascii_lowercase();
            if !lower.as_str().is_empty() {
                requested = lower;
            }
        }
        if requested == "powershell".to_owned() || requested == "pwsh".to_owned() {
            Ok(power_shell_spec())
        } else if requested == "cmd".to_owned() || requested == "default".to_owned() {
            Ok(cmd_shell_spec())
        } else {
            Err(join("unsupported Windows terminal shell: ", requested.as_str()))
        }
    } else {
        let mut command: Option<String> = None;
        if let Some(path) = &host.login_shell {
            let path = path.as_str().trim();
            if unix_is_absolute(path) {
                command = Some(path.to_owned());
            }
        }
        if command.is_none() {
            command = resolve_unix_shell_fallback(host);
        }
        match command {
            Some(command) => {
                let label = match unix_file_name(command.as_str()) {
                    Some(name) => name,
                    None => "shell".to_owned(),
                };
                let args: Vec<String> = Vec::new();
                assert(texts(args@) =~= Seq::<Seq<char>>::empty());
                Ok(ShellSpec { label, command, args })
            },
            None => Err("failed to resolve login shell".to_owned()),
        }
    }
}

/// The shells that the user can choose on a host.
pub fn terminal_shell_options(host: &ShellHost) -> (r: TerminalShellOptionsResponse)
    ensures
        r@ == shell_options(host@),
{
    let mut options: Vec<TerminalShellOption> = Vec::new();
    if host.platform == Platform::Windows {
        options.push(
            TerminalShellOption {
                id: "cmd".to_owned(),
                label: "cmd".to_owned(),
                command: "cmd.exe".to_owned(),
            },
        );
        options.push(
            TerminalShellOption {
                id: "powershell".to_owned(),
                label: "PowerShell".to_owned(),
                command: "powershell.exe".to_owned(),
            },
        );
        let r = TerminalShellOptionsResponse { options, default_shell: "cmd".to_owned() };
        assert(r@.options =~= shell_options(host@).options);
        r
    } else {
        let option = match resolve_shell(None, host) {
            Ok(shell) => TerminalShellOption {
                id: "default".to_owned(),
                label: shell.label,
                command: shell.command,
            },
            Err(_) => TerminalShellOption {
                id: "default".to_owned(),
                label: "sh".to_owned(),
                command: "/bin/sh".to_owned(),
            },
        };
        options.push(option);
        let r = TerminalShellOptionsResponse { options, default_shell: "default".to_owned() };
        assert(r@.options =~= shell_options(host@).options);
        r
    }
}

} // verus!
