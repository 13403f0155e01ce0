//! What the views of the library's values show: every field, and every result
//! with its own value.

use vstd::prelude::*;

use crate::launch::{
    opt_command, plan_result, LaunchFailure, LaunchPlan, LaunchPlanView, LaunchStage,
    ProcessCommand,
};
use crate::registry::{
    delivery_views, exit_views, launch_result, names_ids, read_tail_result, terminated_ids,
    unit_result, SessionExit, SessionTermination,
};
use crate::shell::{shell_result, ShellHost, ShellSpec, ShellSpecView};
use crate::text::texts;
use crate::types::{
    list_result, opt_text, record_result, record_views, snapshot_result, ReadTailView, RecordView,
    SnapshotView, TerminalDelivery, TerminalEventPayload, TerminalListResponse,
    TerminalReadTailResponse, TerminalSessionRecord, TerminalShellOption,
    TerminalShellOptionsResponse, TerminalSnapshotResponse,
};
use crate::workdir::{
    workdir_result, WorkdirAction, WorkdirActionView, WorkdirEvent, WorkdirEventView,
};

verus! {

/// The view of a record shows each of its fields.
pub proof fn law_record_view_shows_every_field(r: TerminalSessionRecord)
    ensures
        r@.id == r.id@,
        r@.project_path_key == r.project_path_key@,
        r@.cwd == r.cwd@,
        r@.shell == r.shell@,
        r@.title == r.title@,
        r@.pid == r.pid,
        r@.cols == r.cols,
        r@.rows == r.rows,
        r@.created_at == r.created_at,
        r@.updated_at == r.updated_at,
        r@.finished_at == r.finished_at,
        r@.exit_code == r.exit_code,
        r@.running == r.running,
{
}

/// The views of several texts and records show each of them, in order.
pub proof fn law_views_of_several_keep_their_order(
    s: Seq<String>,
    records: Seq<TerminalSessionRecord>,
    deliveries: Seq<TerminalDelivery>,
    exits: Seq<SessionExit>,
    stops: Seq<SessionTermination>,
)
    ensures
        texts(s).len() == s.len(),
        forall|i: int| 0 <= i < s.len() ==> #[trigger] texts(s)[i] == s[i]@,
        record_views(records).len() == records.len(),
        forall|i: int|
            0 <= i < records.len() ==> #[trigger] record_views(records)[i] == records[i]@,
        delivery_views(deliveries).len() == deliveries.len(),
        forall|i: int|
            0 <= i < deliveries.len() ==> #[trigger] delivery_views(deliveries)[i]
                == deliveries[i]@,
        exit_views(exits).len() == exits.len(),
        forall|i: int|
            0 <= i < exits.len() ==> (#[trigger] exit_views(exits)[i]).0 == exits[i].session_id@
                && exit_views(exits)[i].1 == exits[i].exit_status,
        terminated_ids(stops).len() == stops.len(),
        forall|i: int|
            0 <= i < stops.len() ==> #[trigger] terminated_ids(stops)[i] == stops[i].session_id,
{
}

/// Names that stand for ids hold each of them exactly once, and nothing else.
pub proof fn law_names_are_the_ids(names: Seq<String>, ids: Set<Seq<char>>, id: Seq<char>)
    requires
        names_ids(names, ids),
    ensures
        ids.contains(id) <==> exists|i: int| 0 <= i < names.len() && (#[trigger] names[i])@ == id,
        forall|i: int, j: int|
            #![trigger names[i], names[j]]
            0 <= i < j < names.len() ==> names[i]@ != names[j]@,
{
    if ids.contains(id) {
        assert(texts(names).contains(id));
        let i = choose|i: int| 0 <= i < texts(names).len() && texts(names)[i] == id;
        assert(names[i]@ == id);
    }
    if exists|i: int| 0 <= i < names.len() && (#[trigger] names[i])@ == id {
        let i = choose|i: int| 0 <= i < names.len() && (#[trigger] names[i])@ == id;
        assert(texts(names)[i] == id);
        assert(texts(names).to_set().contains(id));
    }
    assert forall|i: int, j: int|
        #![trigger names[i], names[j]]
        0 <= i < j < names.len() implies names[i]@ != names[j]@ by {
        assert(texts(names)[i] != texts(names)[j]);
    }
}

/// The views of answers show each of their fields.
pub proof fn law_answer_views_show_every_field(
    list: TerminalListResponse,
    snapshot: TerminalSnapshotResponse,
    tail: TerminalReadTailResponse,
)
    ensures
        list@.len() == list.sessions@.len(),
        forall|i: int| 0 <= i < list@.len() ==> #[trigger] list@[i] == list.sessions@[i]@,
        snapshot@.session == snapshot.session@,
        snapshot@.output == snapshot.output@,
        snapshot@.truncated == snapshot.truncated,
        tail@.sessions.len() == tail.sessions@.len(),
        forall|i: int|
            0 <= i < tail@.sessions.len() ==> #[trigger] tail@.sessions[i] == tail.sessions@[i]@,
        tail.selected_session is None ==> tail@.selected_session is None,
        tail.selected_session is Some ==> tail@.selected_session == Some(
            tail.selected_session->Some_0@,
        ),
        tail@.output == tail.output@,
        tail@.truncated == tail.truncated,
{
}

/// The views of events and deliveries show each of their fields.
pub proof fn law_event_views_show_every_field(
    payload: TerminalEventPayload,
    delivery: TerminalDelivery,
)
    ensures
        payload@.kind == payload.kind@,
        payload@.session_id == payload.session_id@,
        payload@.project_path_key == payload.project_path_key@,
        payload@.session == payload.session@,
        payload.data is None ==> payload@.data is None,
        payload.data is Some ==> payload@.data == Some(payload.data->Some_0@),
        delivery@.event == delivery.event.payload@,
        delivery@.to_app == delivery.to_app,
        delivery@.subscribers == delivery.subscribers@,
{
}

/// The views of shells, hosts and what is offered show each of their fields.
pub proof fn law_shell_views_show_every_field(
    host: ShellHost,
    shell: ShellSpec,
    option: TerminalShellOption,
    offered: TerminalShellOptionsResponse,
)
    ensures
        host@.platform == host.platform,
        host.login_shell is None ==> host@.login_shell is None,
        host.login_shell is Some ==> host@.login_shell == Some(host.login_shell->Some_0@),
        host@.existing.len() == host.existing@.len(),
        forall|i: int|
            0 <= i < host@.existing.len() ==> #[trigger] host@.existing[i] == host.existing@[i]@,
        shell@.label == shell.label@,
        shell@.command == shell.command@,
        shell@.args.len() == shell.args@.len(),
        forall|i: int|
            0 <= i < shell@.args.len() ==> #[trigger] shell@.args[i] == shell.args@[i]@,
        option@.id == option.id@,
        option@.label == option.label@,
        option@.command == option.command@,
        offered@.default_shell == offered.default_shell@,
        offered@.options.len() == offered.options@.len(),
        forall|i: int|
            0 <= i < offered@.options.len() ==> #[trigger] offered@.options[i]
                == offered.options@[i]@,
{
}

/// The views of plans and commands show each of their fields.
pub proof fn law_launch_views_show_every_field(plan: LaunchPlan, command: ProcessCommand)
    ensures
        plan@.cwd == plan.cwd@,
        plan@.project_path_key == plan.project_path_key@,
        plan@.shell == plan.shell@,
        plan@.size == plan.size,
        plan@.env.len() == plan.env@.len(),
        forall|i: int|
            0 <= i < plan@.env.len() ==> (#[trigger] plan@.env[i]).0 == plan.env@[i].0@
                && plan@.env[i].1 == plan.env@[i].1@,
        command@.program == command.program@,
        command@.args.len() == command.args@.len(),
        forall|i: int|
            0 <= i < command@.args.len() ==> #[trigger] command@.args[i] == command.args@[i]@,
{
}

/// The views of what is found out and done about a directory show each case with
/// its value.
pub proof fn law_workdir_views_show_every_case(
    absolute: bool,
    is_dir: Option<bool>,
    path: String,
    message: String,
)
    ensures
        WorkdirEvent::Requested@ == WorkdirEventView::Requested,
        (WorkdirEvent::Expanded { absolute })@ == (WorkdirEventView::Expanded { absolute }),
        (WorkdirEvent::Inspected { is_dir })@ == (WorkdirEventView::Inspected { is_dir }),
        WorkdirEvent::Canonicalized(Ok(path))@ == WorkdirEventView::Canonicalized(Ok(path@)),
        WorkdirEvent::Canonicalized(Err(message))@ == WorkdirEventView::Canonicalized(
            Err(message@),
        ),
        WorkdirAction::Expand(path)@ == WorkdirActionView::Expand(path@),
        WorkdirAction::Inspect@ == WorkdirActionView::Inspect,
        WorkdirAction::Canonicalize@ == WorkdirActionView::Canonicalize,
        WorkdirAction::Accept(path)@ == WorkdirActionView::Accept(path@),
        WorkdirAction::Refuse(message)@ == WorkdirActionView::Refuse(message@),
{
}

/// The view of a result is a success with the view of its value, or a failure
/// with its message, as the result itself is.
pub proof fn law_result_views_keep_the_outcome(
    record: TerminalSessionRecord,
    list: TerminalListResponse,
    snapshot: TerminalSnapshotResponse,
    tail: TerminalReadTailResponse,
    plan: LaunchPlan,
    shell: ShellSpec,
    path: String,
    message: String,
)
    ensures
        record_result(Ok(record)) == Ok::<RecordView, Seq<char>>(record@),
        record_result(Err(message)) == Err::<RecordView, Seq<char>>(message@),
        list_result(Ok(list)) == Ok::<Seq<RecordView>, Seq<char>>(list@),
        list_result(Err(message)) == Err::<Seq<RecordView>, Seq<char>>(message@),
        snapshot_result(Ok(snapshot)) == Ok::<SnapshotView, Seq<char>>(snapshot@),
        snapshot_result(Err(message)) == Err::<SnapshotView, Seq<char>>(message@),
        read_tail_result(Ok(tail)) == Ok::<ReadTailView, Seq<char>>(tail@),
        read_tail_result(Err(message)) == Err::<ReadTailView, Seq<char>>(message@),
        plan_result(Ok(plan)) == Ok::<LaunchPlanView, Seq<char>>(plan@),
        plan_result(Err(message)) == Err::<LaunchPlanView, Seq<char>>(message@),
        shell_result(Ok(shell)) == Ok::<ShellSpecView, Seq<char>>(shell@),
        shell_result(Err(message)) == Err::<ShellSpecView, Seq<char>>(message@),
        workdir_result(Ok(path)) == Ok::<Seq<char>, Seq<char>>(path@),
        workdir_result(Err(message)) == Err::<Seq<char>, Seq<char>>(message@),
        unit_result(Ok(())) == Ok::<(), Seq<char>>(()),
        unit_result(Err(message)) == Err::<(), Seq<char>>(message@),
{
}

/// The views of optional values and of launches keep whether there is a value,
/// and show it.
pub proof fn law_optional_views_keep_the_value(
    text: String,
    command: ProcessCommand,
    pid: Option<u32>,
    failure: LaunchFailure,
)
    ensures
        opt_text(None) is None,
        opt_text(Some(text)) == Some(text@),
        opt_command(None) is None,
        opt_command(Some(command)) == Some(command@),
        launch_result(Ok(pid)) == Ok::<Option<u32>, (LaunchStage, Seq<char>)>(pid),
        launch_result(Err(failure)) == Err::<Option<u32>, (LaunchStage, Seq<char>)>(
            (failure.stage, failure.error@),
        ),
{
}

} // verus!
