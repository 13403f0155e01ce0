//! What is started for a new terminal, and how a terminal's processes are
//! stopped.

use vstd::prelude::*;

use crate::shell::{
    resolve_shell, resolved_shell, Platform, ShellHost, ShellHostView, ShellSpec, ShellSpecView,
};
use crate::text::{decimal, decimal_digits, join, texts, trimmed};
use crate::types::opt_text;
use crate::workdir::workdir_result;

verus! {

/// The rows of a terminal where none are asked for.
pub const DEFAULT_ROWS: u16 = 24;

/// The columns of a terminal where none are asked for.
pub const DEFAULT_COLS: u16 = 80;

/// The fewest columns that a terminal can have.
pub const MIN_COLS: u16 = 20;

/// The most columns that a terminal can have.
pub const MAX_COLS: u16 = 400;

/// The fewest rows that a terminal can have.
pub const MIN_ROWS: u16 = 6;

/// The most rows that a terminal can have.
pub const MAX_ROWS: u16 = 200;

/// The size of a terminal in characters.
#[derive(Debug, Clone, Copy, PartialEq, Eq, Structural)]
pub struct TerminalSize {
    pub cols: u16,
    pub rows: u16,
}

/// The value nearest to `x` between `low` and `high`.
pub open spec fn clamped(x: u16, low: u16, high: u16) -> u16 {
    if x < low {
        low
    } else if x > high {
        high
    } else {
        x
    }
}

/// The size that a request for `cols` by `rows` gets.
pub open spec fn fitted_size(cols: u16, rows: u16) -> TerminalSize {
    TerminalSize {
        cols: clamped(cols, MIN_COLS, MAX_COLS),
        rows: clamped(rows, MIN_ROWS, MAX_ROWS),
    }
}

fn clamp_size(x: u16, low: u16, high: u16) -> (r: u16)
    ensures
        r == clamped(x, low, high),
{
    if x < low {
        low
    } else if x > high {
        high
    } else {
        x
    }
}

/// Brings a requested size into the range that a terminal can have.
pub fn fit_size(cols: u16, rows: u16) -> (r: TerminalSize)
    ensures
        r == fitted_size(cols, rows),
{
    TerminalSize {
        cols: clamp_size(cols, MIN_COLS, MAX_COLS),
        rows: clamp_size(rows, MIN_ROWS, MAX_ROWS),
    }
}

/// The key under which a project's sessions are kept: its path, trimmed.
pub fn workspace_project_path_key(path: &str) -> (r: String)
    ensures
        r@ == trimmed(path@),
{
    path.trim().to_owned()
}

/// Everything that is needed to start a terminal.
#[derive(Debug, Clone)]
pub struct LaunchPlan {
    pub cwd: String,
    pub project_path_key: String,
    pub shell: ShellSpec,
    pub size: TerminalSize,
    pub env: Vec<(String, String)>,
}

/// The view of a [`LaunchPlan`].
#[verifier::ext_equal]
pub struct LaunchPlanView {
    pub cwd: Seq<char>,
    pub project_path_key: Seq<char>,
    pub shell: ShellSpecView,
    pub size: TerminalSize,
    pub env: Seq<(Seq<char>, Seq<char>)>,
}

impl View for LaunchPlan {
    type V = LaunchPlanView;

    open spec fn view(&self) -> LaunchPlanView {
        LaunchPlanView {
            cwd: self.cwd@,
            project_path_key: self.project_path_key@,
            shell: self.shell@,
            size: self.size,
            env: self.env@.map_values(|e: (String, String)| (e.0@, e.1@)),
        }
    }
}

/// The view of a planning result.
pub open spec fn plan_result(r: Result<LaunchPlan, String>) -> Result<LaunchPlanView, Seq<char>> {
    match r {
        Ok(x) => Ok(x@),
        Err(e) => Err(e@),
    }
}

/// The project of a new terminal: the one that is named, or its directory.
pub open spec fn launch_project_key(
    project_path_key: Option<Seq<char>>,
    cwd: Seq<char>,
) -> Seq<char> {
    match project_path_key {
        Some(key) if trimmed(key).len() > 0 => trimmed(key),
        _ => trimmed(cwd),
    }
}

/// The plan for a terminal, given what the request for its directory came to. A
/// directory that was refused counts before anything else.
pub open spec fn launch_plan(
    workdir: Result<Seq<char>, Seq<char>>,
    project_path_key: Option<Seq<char>>,
    shell: Option<Seq<char>>,
    cols: Option<u16>,
    rows: Option<u16>,
    host: ShellHostView,
) -> Result<LaunchPlanView, Seq<char>> {
    match workdir {
        Err(message) => Err(message),
        Ok(cwd) => launch_plan_in(cwd, project_path_key, shell, cols, rows, host),
    }
}

/// The plan for a terminal in the directory `cwd`, a path that was made
/// canonical.
pub open spec fn launch_plan_in(
    cwd: Seq<char>,
    project_path_key: Option<Seq<char>>,
    shell: Option<Seq<char>>,
    cols: Option<u16>,
    rows: Option<u16>,
    host: ShellHostView,
) -> Result<LaunchPlanView, Seq<char>> {
    let key = launch_project_key(project_path_key, cwd);
    if key.len() == 0 {
        Err("project_path_key is required"@)
    } else {
        match resolved_shell(shell, host) {
            Err(message) => Err(message),
            Ok(shell) => Ok(
                LaunchPlanView {
                    cwd,
                    project_path_key: key,
                    shell,
                    size: fitted_size(
                        match cols {
                            Some(n) => n,
                            None => DEFAULT_COLS,
                        },
                        match rows {
                            Some(n) => n,
                            None => DEFAULT_ROWS,
                        },
                    ),
                    env: seq![
                        ("TERM"@, "xterm-256color"@),
                        ("COLORTERM"@, "truecolor"@),
                    ],
                },
            ),
        }
    }
}

/// Plans a terminal, given what the request for its directory came to: the
/// canonical path, or why it was refused.
pub fn plan_launch(
    workdir: Result<String, String>,
    project_path_key: Option<String>,
    shell: Option<String>,
    cols: Option<u16>,
    rows: Option<u16>,
    host: &ShellHost,
) -> (r: Result<LaunchPlan, String>)
    ensures
        plan_result(r) == launch_plan(
            workdir_result(workdir),
            opt_text(project_path_key),
            opt_text(shell),
            cols,
            rows,
            host@,
        ),
{
    let cwd = match workdir {
        Ok(cwd) => cwd,
        Err(message) => {
            return Err(message);
        },
    };
    let mut key = String::new();
    if let Some(named) = project_path_key {
        key = workspace_project_path_key(named.as_str());
    }
    if key.as_str().is_empty() {
        key = workspace_project_path_key(cwd.as_str());
    }
    if key.as_str().is_empty() {
        return Err("project_path_key is required".to_owned());
    }
    match resolve_shell(shell, host) {
        Err(message) => Err(message),
        Ok(shell) => {
            let cols: u16 = match cols {
                Some(n) => n,
                None => DEFAULT_COLS,
            };
            let rows: u16 = match rows {
                Some(n) => n,
                None => DEFAULT_ROWS,
            };
            let mut env: Vec<(String, String)> = Vec::new();
            env.push(("TERM".to_owned(), "xterm-256color".to_owned()));
            env.push(("COLORTERM".to_owned(), "truecolor".to_owned()));
            let plan = LaunchPlan {
                cwd,
                project_path_key: key,
                shell,
                size: fit_size(cols, rows),
                env,
            };
            assert(plan@.env =~= seq![
                ("TERM"@, "xterm-256color"@),
                ("COLORTERM"@, "truecolor"@),
            ]);
            Ok(plan)
        },
    }
}

/// The steps of starting a terminal that can fail.
#[derive(Debug, Clone, Copy, PartialEq, Eq, Structural)]
pub enum LaunchStage {
    OpenPty,
    SpawnShell,
    OpenReader,
    OpenWriter,
}

/// A step that failed, and why.
#[derive(Debug, Clone)]
pub struct LaunchFailure {
    pub stage: LaunchStage,
    pub error: String,
}

/// What a failed step is reported as.
pub open spec fn launch_failure_text(stage: LaunchStage, error: Seq<char>) -> Seq<char> {
    match stage {
        LaunchStage::OpenPty => "failed to open terminal pty: "@ + error,
        LaunchStage::SpawnShell => "failed to spawn terminal shell: "@ + error,
        LaunchStage::OpenReader => "failed to open terminal reader: "@ + error,
        LaunchStage::OpenWriter => "failed to open terminal writer: "@ + error,
    }
}

impl LaunchFailure {
    /// The message for this failure.
    pub fn message(&self) -> (r: String)
        ensures
            r@ == launch_failure_text(self.stage, self.error@),
    {
        let error = self.error.as_str();
        match self.stage {
            LaunchStage::OpenPty => join("failed to open terminal pty: ", error),
            LaunchStage::SpawnShell => join("failed to spawn terminal shell: ", error),
            LaunchStage::OpenReader => join("failed to open terminal reader: ", error),
            LaunchStage::OpenWriter => join("failed to open terminal writer: ", error),
        }
    }
}

/// A command to run, without input and with its output thrown away.
#[derive(Debug, Clone)]
pub struct ProcessCommand {
    pub program: String,
    pub args: Vec<String>,
}

/// The view of a [`ProcessCommand`].
#[verifier::ext_equal]
pub struct CommandView {
    pub program: Seq<char>,
    pub args: Seq<Seq<char>>,
}

impl View for ProcessCommand {
    type V = CommandView;

    open spec fn view(&self) -> CommandView {
        CommandView { program: self.program@, args: texts(self.args@) }
    }
}

/// The view of an optional command.
pub open spec fn opt_command(c: Option<ProcessCommand>) -> Option<CommandView> {
    match c {
        Some(x) => Some(x@),
        None => None,
    }
}

/// The command that stops a process and its descendants; none where there is
/// no process to stop.
pub open spec fn termination(pid: Option<u32>, platform: Platform) -> Option<CommandView> {
    match pid {
        Some(n) if n != 0 => if platform is Windows {
            Some(
                CommandView {
                    program: "taskkill"@,
                    args: seq!["/PID"@, decimal_digits(n as nat), "/T"@, "/F"@],
                },
            )
        } else {
            Some(
                CommandView {
                    program: "kill"@,
                    args: seq!["-TERM"@, "-"@ + decimal_digits(n as nat)],
                },
            )
        },
        _ => None,
    }
}

/// Finds the command that stops a process and its descendants.
pub fn terminate_process_tree_best_effort(pid: Option<u32>, platform: Platform) -> (r: Option<
    ProcessCommand,
>)
    ensures
        opt_command(r) == termination(pid, platform),
{
    match pid {
        None => None,
        Some(n) => {
            if n == 0 {
                return None;
            }
            let digits = decimal(n as u128);
            let mut args: Vec<String> = Vec::new();
            if platform == Platform::Windows {
                args.push("/PID".to_owned());
                args.push(digits);
                args.push("/T".to_owned());
                args.push("/F".to_owned());
                let command = ProcessCommand { program: "taskkill".to_owned(), args };
                assert(command@.args =~= seq!["/PID"@, decimal_digits(n as nat), "/T"@, "/F"@]);
                Some(command)
            } else {
                args.push("-TERM".to_owned());
                args.push(join("-", digits.as_str()));
                let command = ProcessCommand { program: "kill".to_owned(), args };
                assert(command@.args =~= seq!["-TERM"@, "-"@ + decimal_digits(n as nat)]);
                Some(command)
            }
        },
    }
}

} // verus!
