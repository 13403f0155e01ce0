//! The values that the registry stores and hands out, and their views.

use vstd::prelude::*;

verus! {

/// The channel on which the application receives terminal events.
pub const TERMINAL_EVENT_NAME: &'static str = "terminal:event";

/// What is known of one terminal session.
#[derive(Debug)]
pub struct TerminalSessionRecord {
    pub id: String,
    pub project_path_key: String,
    pub cwd: String,
    pub shell: String,
    pub title: String,
    pub pid: Option<u32>,
    pub cols: u16,
    pub rows: u16,
    pub created_at: u128,
    pub updated_at: u128,
    pub finished_at: Option<u128>,
    pub exit_code: Option<i32>,
    pub running: bool,
}

/// The view of a [`TerminalSessionRecord`].
#[verifier::ext_equal]
pub struct RecordView {
    pub id: Seq<char>,
    pub project_path_key: Seq<char>,
    pub cwd: Seq<char>,
    pub shell: Seq<char>,
    pub title: Seq<char>,
    pub pid: Option<u32>,
    pub cols: u16,
    pub rows: u16,
    pub created_at: u128,
    pub updated_at: u128,
    pub finished_at: Option<u128>,
    pub exit_code: Option<i32>,
    pub running: bool,
}

impl View for TerminalSessionRecord {
    type V = RecordView;

    open spec fn view(&self) -> RecordView {
        RecordView {
            id: self.id@,
            project_path_key: self.project_path_key@,
            cwd: self.cwd@,
            shell: self.shell@,
            title: self.title@,
            pid: self.pid,
            cols: self.cols,
            rows: self.rows,
            created_at: self.created_at,
            updated_at: self.updated_at,
            finished_at: self.finished_at,
            exit_code: self.exit_code,
            running: self.running,
        }
    }
}

impl Clone for TerminalSessionRecord {
    fn clone(&self) -> (r: Self)
        ensures
            r@ == self@,
    {
        TerminalSessionRecord {
            id: self.id.clone(),
            project_path_key: self.project_path_key.clone(),
            cwd: self.cwd.clone(),
            shell: self.shell.clone(),
            title: self.title.clone(),
            pid: self.pid,
            cols: self.cols,
            rows: self.rows,
            created_at: self.created_at,
            updated_at: self.updated_at,
            finished_at: self.finished_at,
            exit_code: self.exit_code,
            running: self.running,
        }
    }
}

/// The views of a sequence of records.
pub open spec fn record_views(records: Seq<TerminalSessionRecord>) -> Seq<RecordView> {
    records.map_values(|r: TerminalSessionRecord| r@)
}

/// A list of sessions.
#[derive(Debug, Clone)]
pub struct TerminalListResponse {
    pub sessions: Vec<TerminalSessionRecord>,
}

impl View for TerminalListResponse {
    type V = Seq<RecordView>;

    open spec fn view(&self) -> Seq<RecordView> {
        record_views(self.sessions@)
    }
}

/// A session together with the tail of its output.
#[derive(Debug, Clone)]
pub struct TerminalSnapshotResponse {
    pub session: TerminalSessionRecord,
    pub output: String,
    pub truncated: bool,
}

/// The view of a [`TerminalSnapshotResponse`].
#[verifier::ext_equal]
pub struct SnapshotView {
    pub session: RecordView,
    pub output: Seq<char>,
    pub truncated: bool,
}

impl View for TerminalSnapshotResponse {
    type V = SnapshotView;

    open spec fn view(&self) -> SnapshotView {
        SnapshotView { session: self.session@, output: self.output@, truncated: self.truncated }
    }
}

/// The answer to a request for the tail of a project's terminal.
#[derive(Debug, Clone)]
pub struct TerminalReadTailResponse {
    pub sessions: Vec<TerminalSessionRecord>,
    pub selected_session: Option<TerminalSessionRecord>,
    pub output: String,
    pub truncated: bool,
}

/// The view of a [`TerminalReadTailResponse`].
#[verifier::ext_equal]
pub struct ReadTailView {
    pub sessions: Seq<RecordView>,
    pub selected_session: Option<RecordView>,
    pub output: Seq<char>,
    pub truncated: bool,
}

impl View for TerminalReadTailResponse {
    type V = ReadTailView;

    open spec fn view(&self) -> ReadTailView {
        ReadTailView {
            sessions: record_views(self.sessions@),
            selected_session: match self.selected_session {
                Some(r) => Some(r@),
                None => None,
            },
            output: self.output@,
            truncated: self.truncated,
        }
    }
}

/// What is told about a session when something happens to it.
#[derive(Debug, Clone)]
pub struct TerminalEventPayload {
    pub kind: String,
    pub session_id: String,
    pub project_path_key: String,
    pub session: TerminalSessionRecord,
    pub data: Option<String>,
}

/// The view of a [`TerminalEventPayload`].
#[verifier::ext_equal]
pub struct EventView {
    pub kind: Seq<char>,
    pub session_id: Seq<char>,
    pub project_path_key: Seq<char>,
    pub session: RecordView,
    pub data: Option<Seq<char>>,
}

/// The view of an optional text.
pub open spec fn opt_text(s: Option<String>) -> Option<Seq<char>> {
    match s {
        Some(t) => Some(t@),
        None => None,
    }
}

impl View for TerminalEventPayload {
    type V = EventView;

    open spec fn view(&self) -> EventView {
        EventView {
            kind: self.kind@,
            session_id: self.session_id@,
            project_path_key: self.project_path_key@,
            session: self.session@,
            data: opt_text(self.data),
        }
    }
}

/// An event as subscribers receive it.
#[derive(Debug, Clone)]
pub struct TerminalEvent {
    pub payload: TerminalEventPayload,
}

/// An event and those to whom it goes: the application, if one is attached, and
/// the subscribers by their ids.
#[derive(Debug, Clone)]
pub struct TerminalDelivery {
    pub event: TerminalEvent,
    pub to_app: bool,
    pub subscribers: Vec<usize>,
}

/// The view of a [`TerminalDelivery`].
#[verifier::ext_equal]
pub struct DeliveryView {
    pub event: EventView,
    pub to_app: bool,
    pub subscribers: Seq<usize>,
}

impl View for TerminalDelivery {
    type V = DeliveryView;

    open spec fn view(&self) -> DeliveryView {
        DeliveryView {
            event: self.event.payload@,
            to_app: self.to_app,
            subscribers: self.subscribers@,
        }
    }
}

/// A shell that the user can choose.
#[derive(Debug, Clone)]
pub struct TerminalShellOption {
    pub id: String,
    pub label: String,
    pub command: String,
}

/// The view of a [`TerminalShellOption`].
#[verifier::ext_equal]
pub struct ShellOptionView {
    pub id: Seq<char>,
    pub label: Seq<char>,
    pub command: Seq<char>,
}

impl View for TerminalShellOption {
    type V = ShellOptionView;

    open spec fn view(&self) -> ShellOptionView {
        ShellOptionView { id: self.id@, label: self.label@, command: self.command@ }
    }
}

/// The shells that the user can choose, and the one to start with.
#[derive(Debug, Clone)]
pub struct TerminalShellOptionsResponse {
    pub options: Vec<TerminalShellOption>,
    pub default_shell: String,
}

/// The view of a [`TerminalShellOptionsResponse`].
#[verifier::ext_equal]
pub struct ShellOptionsView {
    pub options: Seq<ShellOptionView>,
    pub default_shell: Seq<char>,
}

impl View for TerminalShellOptionsResponse {
    type V = ShellOptionsView;

    open spec fn view(&self) -> ShellOptionsView {
        ShellOptionsView {
            options: self.options@.map_values(|o: TerminalShellOption| o@),
            default_shell: self.default_shell@,
        }
    }
}

/// The view of a result whose error is a message.
pub open spec fn record_result(r: Result<TerminalSessionRecord, String>) -> Result<
    RecordView,
    Seq<char>,
> {
    match r {
        Ok(x) => Ok(x@),
        Err(e) => Err(e@),
    }
}

/// The view of a result that is a list of sessions.
pub open spec fn list_result(r: Result<TerminalListResponse, String>) -> Result<
    Seq<RecordView>,
    Seq<char>,
> {
    match r {
        Ok(x) => Ok(x@),
        Err(e) => Err(e@),
    }
}

/// The view of a snapshot result.
pub open spec fn snapshot_result(r: Result<TerminalSnapshotResponse, String>) -> Result<
    SnapshotView,
    Seq<char>,
> {
    match r {
        Ok(x) => Ok(x@),
        Err(e) => Err(e@),
    }
}

} // verus!
