//! What each operation does to a registry: which fields change and how, who is
//! told, and what stays.

use vstd::prelude::*;

use crate::host::is_clock_reading;
use crate::launch::{launch_plan, LaunchPlanView, LaunchStage};
use crate::laws_values::{
    is_numbered, is_plan_for, law_decimal_reads_back, law_plan_follows_the_request,
};
use crate::model::{finished_record, observed_status, other_than, record_ids, RegistryView};
use crate::shell::ShellHostView;
use crate::text::trimmed;
use crate::types::{DeliveryView, RecordView, SnapshotView};

verus! {

/// Why a request that names a session is refused: its id is blank, or no session
/// has it. None where it names a session.
pub open spec fn refusal(registry: RegistryView, session_id: Seq<char>) -> Option<Seq<char>> {
    if trimmed(session_id).len() == 0 {
        Some("terminal_id is required"@)
    } else if registry.sessions.contains_key(trimmed(session_id)) {
        None
    } else {
        Some("terminal session not found: "@ + trimmed(session_id))
    }
}

/// Those who listen are the same.
pub open spec fn same_listeners(a: RegistryView, b: RegistryView) -> bool {
    &&& a.app_attached == b.app_attached
    &&& a.subscribers == b.subscribers
    &&& a.next_subscriber_id == b.next_subscriber_id
}

/// All sessions but the one under `id` are the same, and so are those who
/// listen.
pub open spec fn nothing_else_changed(
    before: RegistryView,
    after: RegistryView,
    id: Seq<char>,
) -> bool {
    &&& same_listeners(before, after)
    &&& forall|other: Seq<char>|
        #![trigger after.sessions.contains_key(other)]
        #![trigger before.sessions.contains_key(other)]
        other != id ==> {
            &&& after.sessions.contains_key(other) <==> before.sessions.contains_key(other)
            &&& before.sessions.contains_key(other) ==> after.sessions[other]
                == before.sessions[other]
        }
}

/// Whether a delivery tells everyone who listens to `registry` of an event: its
/// kind, the record with its id and project, and the data.
pub open spec fn tells(
    registry: RegistryView,
    delivery: DeliveryView,
    kind: Seq<char>,
    record: RecordView,
    data: Option<Seq<char>>,
) -> bool {
    &&& delivery.event.kind == kind
    &&& delivery.event.session == record
    &&& delivery.event.session_id == record.id
    &&& delivery.event.project_path_key == record.project_path_key
    &&& delivery.event.data == data
    &&& delivery.to_app <==> registry.app_attached
    &&& delivery.subscribers == registry.subscribers
}

/// Whether exactly one event was added to those that are due.
pub open spec fn told_once(
    before: RegistryView,
    after: RegistryView,
    kind: Seq<char>,
    record: RecordView,
    data: Option<Seq<char>>,
) -> bool {
    &&& after.outbox.len() == before.outbox.len() + 1
    &&& after.outbox.drop_last() == before.outbox
    &&& tells(before, after.outbox.last(), kind, record, data)
}

/// Whether a record became another when its session ended. A session that ran
/// has ended at the given times, with its status read as a signed number as its
/// exit code, and none where no status was observed; nothing else of it changes.
/// One that had ended before stays as it is.
pub open spec fn is_ended(
    before: RecordView,
    after: RecordView,
    status: Option<u32>,
    finished: u128,
    updated: u128,
) -> bool {
    if before.running {
        &&& !after.running
        &&& after.finished_at == Some(finished)
        &&& after.updated_at == updated
        &&& status is None ==> after.exit_code is None
        &&& status is Some ==> {
            &&& after.exit_code is Some
            &&& status->Some_0 <= 0x7fff_ffff ==> after.exit_code->Some_0 == status->Some_0
            &&& status->Some_0 > 0x7fff_ffff ==> after.exit_code->Some_0 == status->Some_0
                - 0x1_0000_0000
        }
        &&& after.id == before.id
        &&& after.project_path_key == before.project_path_key
        &&& after.cwd == before.cwd
        &&& after.shell == before.shell
        &&& after.title == before.title
        &&& after.pid == before.pid
        &&& after.cols == before.cols
        &&& after.rows == before.rows
        &&& after.created_at == before.created_at
    } else {
        after == before
    }
}

/// A registry begins without sessions, listeners and events.
pub proof fn law_new_registry_is_empty()
    ensures
        forall|id: Seq<char>| !RegistryView::empty().sessions.contains_key(id),
        !RegistryView::empty().app_attached,
        RegistryView::empty().subscribers.len() == 0,
        RegistryView::empty().outbox.len() == 0,
{
}

/// Every event goes to the application if one is attached, and to all
/// subscribers, whatever its kind, and carries the record as it was given.
pub proof fn law_every_event_reaches_everyone(
    registry: RegistryView,
    kind: Seq<char>,
    record: RecordView,
    data: Option<Seq<char>>,
)
    ensures
        tells(registry, registry.delivery(kind, record, data), kind, record, data),
        told_once(registry, registry.broadcast(kind, record, data), kind, record, data),
        registry.broadcast(kind, record, data).sessions == registry.sessions,
        same_listeners(registry, registry.broadcast(kind, record, data)),
{
    assert(registry.broadcast(kind, record, data).outbox.drop_last() =~= registry.outbox);
}

/// Once an application is attached, every later event goes to it; attaching one
/// changes nothing else.
pub proof fn law_attached_application_hears_everything(
    registry: RegistryView,
    kind: Seq<char>,
    record: RecordView,
    data: Option<Seq<char>>,
)
    ensures
        registry.attach_app().delivery(kind, record, data).to_app,
        registry.attach_app().subscribers == registry.subscribers,
        registry.attach_app().next_subscriber_id == registry.next_subscriber_id,
        registry.attach_app().sessions == registry.sessions,
        registry.attach_app().outbox == registry.outbox,
{
}

/// Subscribing adds the next id to those who listen, keeps the others, and
/// changes nothing else; ids are handed out one after the other, and begin again
/// after the largest.
pub proof fn law_subscribing_adds_one_listener(registry: RegistryView)
    ensures
        ({
            let after = registry.subscribe();
            let id = registry.next_subscriber_id;
            &&& after.subscribers.contains(id)
            &&& registry.subscribers.contains(id) ==> after.subscribers == registry.subscribers
            &&& !registry.subscribers.contains(id) ==> after.subscribers
                == registry.subscribers.push(id)
            &&& id < usize::MAX ==> after.next_subscriber_id == id + 1
            &&& id == usize::MAX ==> after.next_subscriber_id == 0
            &&& after.app_attached == registry.app_attached
            &&& after.sessions == registry.sessions
            &&& after.outbox == registry.outbox
        }),
{
    let after = registry.subscribe();
    if !registry.subscribers.contains(registry.next_subscriber_id) {
        assert(after.subscribers[after.subscribers.len() - 1] == registry.next_subscriber_id);
    }
}

/// Unsubscribing takes one id from those who listen, keeps the others, and
/// changes nothing else.
pub proof fn law_unsubscribing_removes_one_listener(registry: RegistryView, id: usize)
    ensures
        ({
            let after = registry.unsubscribe(id);
            &&& forall|s: usize| #[trigger]
                after.subscribers.contains(s) <==> registry.subscribers.contains(s) && s != id
            &&& after.next_subscriber_id == registry.next_subscriber_id
            &&& after.app_attached == registry.app_attached
            &&& after.sessions == registry.sessions
            &&& after.outbox == registry.outbox
        }),
{
    broadcast use vstd::seq_lib::group_filter_ensures;

    let p = other_than(id);
    let left = registry.subscribers.filter(p);
    assert forall|s: usize| #[trigger] left.contains(s) <==> registry.subscribers.contains(s) && s
        != id by {
        if left.contains(s) {
            let i = choose|i: int| 0 <= i < left.len() && left[i] == s;
            assert(p(left[i]));
            registry.subscribers.lemma_filter_contains_rev(p, s);
        }
        if registry.subscribers.contains(s) && s != id {
            let i = choose|i: int| 0 <= i < registry.subscribers.len() && registry.subscribers[i]
                == s;
            assert(p(registry.subscribers[i]));
        }
    }
}

/// The project that a new session belongs to: the one that is named, or its
/// directory.
pub open spec fn is_project_for(
    project_path_key: Option<Seq<char>>,
    cwd: Seq<char>,
    key: Seq<char>,
) -> bool {
    if project_path_key is Some && trimmed(project_path_key->Some_0).len() > 0 {
        key == trimmed(project_path_key->Some_0)
    } else {
        key == trimmed(cwd)
    }
}

/// The ids of the sessions, running or not, whose record has the project `key`.
pub open spec fn ids_in(registry: RegistryView, key: Seq<char>) -> Set<Seq<char>> {
    registry.sessions.dom().filter(
        |id: Seq<char>| registry.sessions[id].record.project_path_key == key,
    )
}

/// Creating a session that could be planned and launched enters one record with
/// everything that was asked for, and no output. It has the planned directory,
/// project, shell and size, the given title or the number that follows the
/// project's sessions, and the process that was launched; it runs. This is told
/// once, and no other session changes.
pub proof fn law_create_enters_what_was_launched(
    registry: RegistryView,
    cwd: Seq<char>,
    project_path_key: Option<Seq<char>>,
    shell: Option<Seq<char>>,
    title: Option<Seq<char>>,
    cols: Option<u16>,
    rows: Option<u16>,
    host: ShellHostView,
    pid: Option<u32>,
    id: Seq<char>,
    now: u128,
    plan: LaunchPlanView,
)
    requires
        registry.valid(),
        launch_plan(Ok(cwd), project_path_key, shell, cols, rows, host) == Ok::<
            LaunchPlanView,
            Seq<char>,
        >(plan),
    ensures
        is_plan_for(Ok(cwd), project_path_key, shell, cols, rows, host, Ok(plan)),
        ({
            let (after, r) = registry.create(
                Ok(cwd),
                project_path_key,
                shell,
                title,
                cols,
                rows,
                host,
                Ok(pid),
                id,
                now,
            );
            let record = r->Ok_0.session;
            &&& r is Ok
            &&& r->Ok_0.output.len() == 0
            &&& !r->Ok_0.truncated
            &&& after.sessions.contains_key(id)
            &&& after.sessions[id].record == record
            &&& after.sessions[id].output.len() == 0
            &&& nothing_else_changed(registry, after, id)
            &&& told_once(registry, after, "created"@, record, None)
            &&& record.id == id
            &&& is_project_for(project_path_key, cwd, record.project_path_key)
            &&& record.cwd == cwd
            &&& record.shell == plan.shell.label
            &&& title is Some && trimmed(title->Some_0).len() > 0 ==> record.title == trimmed(
                title->Some_0,
            )
            &&& !(title is Some && trimmed(title->Some_0).len() > 0) ==> is_numbered(
                record.title,
                ids_in(registry, record.project_path_key).len() + 1,
            )
            &&& record.pid == pid
            &&& is_size_asked_for(cols, rows, record)
            &&& record.created_at == now
            &&& record.updated_at == now
            &&& record.finished_at is None
            &&& record.exit_code is None
            &&& record.running
        }),
{
    law_plan_follows_the_request(Ok(cwd), project_path_key, shell, cols, rows, host);
    let (after, r) = registry.create(
        Ok(cwd),
        project_path_key,
        shell,
        title,
        cols,
        rows,
        host,
        Ok(pid),
        id,
        now,
    );
    let key = plan.project_path_key;
    assert(registry.project_ids(key) =~= ids_in(registry, key));
    law_decimal_reads_back(ids_in(registry, key).len() + 1);
    assert(after.outbox.drop_last() =~= registry.outbox);
}

/// The size of a new session: each of columns and rows is what was asked for
/// where that is in range, the nearest end of the range where it is not, and 80
/// or 24 where nothing was asked for.
pub open spec fn is_size_asked_for(
    cols: Option<u16>,
    rows: Option<u16>,
    record: RecordView,
) -> bool {
    &&& match cols {
        None => record.cols == 80,
        Some(n) => if n < 20 {
            record.cols == 20
        } else if n > 400 {
            record.cols == 400
        } else {
            record.cols == n
        },
    }
    &&& match rows {
        None => record.rows == 24,
        Some(n) => if n < 6 {
            record.rows == 6
        } else if n > 200 {
            record.rows == 200
        } else {
            record.rows == n
        },
    }
}

/// Creating a session is refused for its directory, its plan or its launch, in
/// this order, with the error of the first that failed; then nothing changes.
pub proof fn law_create_is_refused_for_a_reason(
    registry: RegistryView,
    workdir: Result<Seq<char>, Seq<char>>,
    project_path_key: Option<Seq<char>>,
    shell: Option<Seq<char>>,
    title: Option<Seq<char>>,
    cols: Option<u16>,
    rows: Option<u16>,
    host: ShellHostView,
    launched: Result<Option<u32>, (LaunchStage, Seq<char>)>,
    id: Seq<char>,
    now: u128,
)
    ensures
        ({
            let plan = launch_plan(workdir, project_path_key, shell, cols, rows, host);
            let (after, r) = registry.create(
                workdir,
                project_path_key,
                shell,
                title,
                cols,
                rows,
                host,
                launched,
                id,
                now,
            );
            &&& is_plan_for(workdir, project_path_key, shell, cols, rows, host, plan)
            &&& r is Ok <==> plan is Ok && launched is Ok
            &&& r is Err ==> after == registry
            &&& plan is Err ==> r == Err::<SnapshotView, Seq<char>>(plan->Err_0)
            &&& plan is Ok && launched is Err ==> {
                let error = launched->Err_0.1;
                r == Err::<SnapshotView, Seq<char>>(
                    match launched->Err_0.0 {
                        LaunchStage::OpenPty => "failed to open terminal pty: "@ + error,
                        LaunchStage::SpawnShell => "failed to spawn terminal shell: "@ + error,
                        LaunchStage::OpenReader => "failed to open terminal reader: "@ + error,
                        LaunchStage::OpenWriter => "failed to open terminal writer: "@ + error,
                    },
                )
            }
        }),
{
    law_plan_follows_the_request(workdir, project_path_key, shell, cols, rows, host);
}

/// Renaming gives a session the trimmed title and a new time of last use, and
/// changes nothing else of it; this is told once. A blank title and an id without
/// a session are refused, and then nothing changes.
pub proof fn law_rename_changes_the_title_alone(
    registry: RegistryView,
    session_id: Seq<char>,
    title: Seq<char>,
    now: u128,
)
    requires
        registry.valid(),
    ensures
        ({
            let id = trimmed(session_id);
            let (after, r) = registry.rename(session_id, title, now);
            match refusal(registry, session_id) {
                Some(message) => after == registry && r == Err::<RecordView, Seq<char>>(message),
                None => if trimmed(title).len() == 0 {
                    after == registry && r == Err::<RecordView, Seq<char>>(
                        "terminal title cannot be empty"@,
                    )
                } else {
                    let before = registry.sessions[id];
                    let record = RecordView {
                        title: trimmed(title),
                        updated_at: now,
                        ..before.record
                    };
                    &&& r == Ok::<RecordView, Seq<char>>(record)
                    &&& after.sessions.contains_key(id)
                    &&& after.sessions[id].record == record
                    &&& after.sessions[id].output == before.output
                    &&& nothing_else_changed(registry, after, id)
                    &&& told_once(registry, after, "renamed"@, record, None)
                },
            }
        }),
{
    let (after, r) = registry.rename(session_id, title, now);
    if r is Ok {
        assert(after.outbox.drop_last() =~= registry.outbox);
    }
}

/// Resizing a terminal that took the size gives its session that size and a new
/// time of last use, and changes nothing else of it; this is told once. A
/// terminal that did not, and an id without a session, are reported, and then
/// nothing changes.
pub proof fn law_resize_changes_the_size_alone(
    registry: RegistryView,
    session_id: Seq<char>,
    cols: u16,
    rows: u16,
    applied: Result<(), Seq<char>>,
    now: u128,
)
    requires
        registry.valid(),
    ensures
        ({
            let id = trimmed(session_id);
            let (after, r) = registry.resize(session_id, cols, rows, applied, now);
            match refusal(registry, session_id) {
                Some(message) => after == registry && r == Err::<RecordView, Seq<char>>(message),
                None => match applied {
                    Err(error) => after == registry && r == Err::<RecordView, Seq<char>>(
                        "failed to resize terminal: "@ + error,
                    ),
                    Ok(_) => {
                        let before = registry.sessions[id];
                        let record = r->Ok_0;
                        &&& r is Ok
                        &&& record == RecordView {
                            cols: record.cols,
                            rows: record.rows,
                            updated_at: now,
                            ..before.record
                        }
                        &&& is_size_asked_for(Some(cols), Some(rows), record)
                        &&& after.sessions.contains_key(id)
                        &&& after.sessions[id].record == record
                        &&& after.sessions[id].output == before.output
                        &&& nothing_else_changed(registry, after, id)
                        &&& told_once(registry, after, "resized"@, record, None)
                    },
                },
            }
        }),
{
    let (after, r) = registry.resize(session_id, cols, rows, applied, now);
    if r is Ok {
        assert(after.outbox.drop_last() =~= registry.outbox);
    }
}

/// Input is written where its session runs, and refused where there is no
/// session or it has ended; input without text is never refused.
pub proof fn law_input_needs_a_running_session(
    registry: RegistryView,
    session_id: Seq<char>,
    data: Seq<char>,
)
    requires
        registry.valid(),
    ensures
        data.len() == 0 ==> registry.input_refusal(session_id, data) is None,
        data.len() > 0 && refusal(registry, session_id) is Some ==> registry.input_refusal(
            session_id,
            data,
        ) == refusal(registry, session_id),
        data.len() > 0 && refusal(registry, session_id) is None ==> {
            let running = registry.sessions[trimmed(session_id)].record.running;
            &&& running ==> registry.input_refusal(session_id, data) is None
            &&& !running ==> registry.input_refusal(session_id, data) == Some(
                "terminal session is not running"@,
            )
        },
{
}

/// Input that was written gives its session a new time of last use and changes
/// nothing else; nobody is told. Input that could not be written is reported, and
/// input without text is answered with the record; then nothing changes.
pub proof fn law_input_changes_the_time_alone(
    registry: RegistryView,
    session_id: Seq<char>,
    data: Seq<char>,
    written: Result<(), Seq<char>>,
    now: u128,
)
    requires
        registry.valid(),
    ensures
        ({
            let id = trimmed(session_id);
            let known = refusal(registry, session_id);
            let (after, r) = registry.input(session_id, data, written, now);
            &&& after.outbox == registry.outbox
            &&& data.len() > 0 && written is Err ==> after == registry && r == Err::<
                RecordView,
                Seq<char>,
            >("failed to write terminal input: "@ + written->Err_0)
            &&& data.len() == 0 ==> after == registry
            &&& data.len() == 0 && known is None ==> r == Ok::<RecordView, Seq<char>>(
                registry.sessions[id].record,
            )
            &&& (data.len() == 0 || written is Ok) && known is Some ==> after == registry && r
                == Err::<RecordView, Seq<char>>(known->Some_0)
            &&& data.len() > 0 && written is Ok && known is None ==> {
                let before = registry.sessions[id];
                let record = RecordView { updated_at: now, ..before.record };
                &&& r == Ok::<RecordView, Seq<char>>(record)
                &&& after.sessions.contains_key(id)
                &&& after.sessions[id].record == record
                &&& after.sessions[id].output == before.output
                &&& nothing_else_changed(registry, after, id)
            }
        }),
{
}

/// Output is added behind what its session keeps, of which the oldest chunk goes
/// once there are more than 4096; the session gets a new time of last use and
/// nothing else of it changes. The output is told once, as it came. Output
/// without a session is dropped.
pub proof fn law_output_is_added_to_its_session(
    registry: RegistryView,
    session_id: Seq<char>,
    data: Seq<char>,
    now: u128,
)
    requires
        registry.valid(),
    ensures
        ({
            let id = trimmed(session_id);
            let after = registry.append_output(session_id, data, now);
            if refusal(registry, session_id) is Some {
                after == registry
            } else {
                let before = registry.sessions[id];
                let record = RecordView { updated_at: now, ..before.record };
                let kept = after.sessions[id].output;
                &&& after.sessions.contains_key(id)
                &&& after.sessions[id].record == record
                &&& kept.len() > 0
                &&& kept.last() == data
                &&& before.output.len() < 4096 ==> kept.drop_last() == before.output
                &&& before.output.len() == 4096 ==> kept.drop_last()
                    == before.output.drop_first()
                &&& before.output.len() <= 4096
                &&& nothing_else_changed(registry, after, id)
                &&& told_once(registry, after, "output"@, record, Some(data))
            }
        }),
{
    let id = trimmed(session_id);
    let after = registry.append_output(session_id, data, now);
    if refusal(registry, session_id) is None {
        let before = registry.sessions[id];
        let kept = after.sessions[id].output;
        assert(after.outbox.drop_last() =~= registry.outbox);
        if before.output.len() < 4096 {
            assert(kept.drop_last() =~= before.output);
        } else {
            assert(kept.drop_last() =~= before.output.drop_first());
        }
    }
}

/// Marking a session as finished ends it, keeps its output, and is told once,
/// also where it had ended before. An id without a session is ignored.
pub proof fn law_mark_finished_ends_the_session(
    registry: RegistryView,
    session_id: Seq<char>,
    status: Option<u32>,
    finished: u128,
    updated: u128,
)
    requires
        registry.valid(),
    ensures
        ({
            let id = trimmed(session_id);
            let after = registry.mark_finished(session_id, status, finished, updated);
            if refusal(registry, session_id) is Some {
                after == registry
            } else {
                let before = registry.sessions[id];
                let record = after.sessions[id].record;
                &&& after.sessions.contains_key(id)
                &&& is_ended(before.record, record, status, finished, updated)
                &&& after.sessions[id].output == before.output
                &&& nothing_else_changed(registry, after, id)
                &&& told_once(registry, after, "exit"@, record, None)
            }
        }),
{
    let after = registry.mark_finished(session_id, status, finished, updated);
    if refusal(registry, session_id) is None {
        assert(after.outbox.drop_last() =~= registry.outbox);
    }
}

/// Closing a session ends it, answers it and removes it, and nothing else
/// changes. Two events are told, that it ended and that it was closed, both with
/// the record that is answered. An id without a session is refused, and then
/// nothing changes.
pub proof fn law_close_ends_and_removes_the_session(
    registry: RegistryView,
    session_id: Seq<char>,
    status: Option<u32>,
    finished: u128,
    updated: u128,
)
    requires
        registry.valid(),
    ensures
        ({
            let id = trimmed(session_id);
            let (after, r) = registry.close(session_id, status, finished, updated);
            match refusal(registry, session_id) {
                Some(message) => after == registry && r == Err::<RecordView, Seq<char>>(message),
                None => {
                    let n = registry.outbox.len() as int;
                    &&& r is Ok
                    &&& is_ended(
                        registry.sessions[id].record,
                        r->Ok_0,
                        status,
                        finished,
                        updated,
                    )
                    &&& !after.sessions.contains_key(id)
                    &&& nothing_else_changed(registry, after, id)
                    &&& after.outbox.len() == n + 2
                    &&& after.outbox.take(n) == registry.outbox
                    &&& tells(registry, after.outbox[n], "exit"@, r->Ok_0, None)
                    &&& tells(registry, after.outbox[n + 1], "closed"@, r->Ok_0, None)
                },
            }
        }),
{
    let (after, r) = registry.close(session_id, status, finished, updated);
    if r is Ok {
        assert(after.outbox.take(registry.outbox.len() as int) =~= registry.outbox);
    }
}

/// The deliveries of closing several sessions: for each in turn that it ended
/// and that it was closed.
pub proof fn law_closing_several_tells_of_each(registry: RegistryView, closed: Seq<RecordView>)
    ensures
        registry.close_deliveries(closed).len() == 2 * closed.len(),
        forall|i: int|
            #![trigger closed[i]]
            0 <= i < closed.len() ==> {
                &&& tells(
                    registry,
                    registry.close_deliveries(closed)[2 * i],
                    "exit"@,
                    closed[i],
                    None,
                )
                &&& tells(
                    registry,
                    registry.close_deliveries(closed)[2 * i + 1],
                    "closed"@,
                    closed[i],
                    None,
                )
            },
    decreases closed.len(),
{
    if closed.len() > 0 {
        let front = closed.drop_last();
        law_closing_several_tells_of_each(registry, front);
        assert forall|i: int|
            #![trigger closed[i]]
            0 <= i < closed.len() implies {
            &&& tells(registry, registry.close_deliveries(closed)[2 * i], "exit"@, closed[i], None)
            &&& tells(
                registry,
                registry.close_deliveries(closed)[2 * i + 1],
                "closed"@,
                closed[i],
                None,
            )
        } by {
            if i < front.len() {
                assert(front[i] == closed[i]);
            }
        }
    }
}

/// Whether a record is answered for a session that was closed: it ended at times
/// that a clock showed, with the status that was observed for it.
pub open spec fn is_answered(
    registry: RegistryView,
    exits: Seq<(Seq<char>, Option<u32>)>,
    record: RecordView,
) -> bool {
    exists|finished: u128, updated: u128|
        is_clock_reading(finished) && is_clock_reading(updated) && #[trigger] is_ended(
            registry.sessions[record.id].record,
            record,
            observed_status(exits, record.id),
            finished,
            updated,
        )
}

/// What is answered for a session that was closed is how it ended.
pub proof fn law_closed_sessions_are_answered_as_ended(
    registry: RegistryView,
    exits: Seq<(Seq<char>, Option<u32>)>,
    record: RecordView,
)
    requires
        registry.closed_as(exits, record),
    ensures
        is_answered(registry, exits, record),
{
    let (finished, updated) = choose|finished: u128, updated: u128|
        is_clock_reading(finished) && is_clock_reading(updated) && record
            == #[trigger] finished_record(
            registry.sessions[record.id].record,
            observed_status(exits, record.id),
            finished,
            updated,
        );
    assert(is_ended(
        registry.sessions[record.id].record,
        record,
        observed_status(exits, record.id),
        finished,
        updated,
    ));
}

/// Closing a set of sessions removes each of them, running or not, answers each
/// once as it ended, keeps all others, and tells of each in the order of the
/// answer.
pub proof fn law_closing_removes_and_answers_each(
    registry: RegistryView,
    ids: Set<Seq<char>>,
    exits: Seq<(Seq<char>, Option<u32>)>,
    after: RegistryView,
    closed: Seq<RecordView>,
)
    requires
        registry.closes(ids, exits, after, closed),
    ensures
        same_listeners(registry, after),
        forall|id: Seq<char>|
            #![trigger ids.contains(id)]
            ids.contains(id) ==> !after.sessions.contains_key(id) && exists|i: int|
                0 <= i < closed.len() && (#[trigger] closed[i]).id == id,
        forall|id: Seq<char>|
            #![trigger after.sessions.contains_key(id)]
            #![trigger registry.sessions.contains_key(id)]
            !ids.contains(id) ==> {
                &&& after.sessions.contains_key(id) <==> registry.sessions.contains_key(id)
                &&& registry.sessions.contains_key(id) ==> after.sessions[id]
                    == registry.sessions[id]
            },
        forall|i: int|
            0 <= i < closed.len() ==> ids.contains((#[trigger] closed[i]).id) && is_answered(
                registry,
                exits,
                closed[i],
            ),
        forall|i: int, j: int|
            #![trigger closed[i], closed[j]]
            0 <= i < j < closed.len() ==> closed[i].id != closed[j].id,
        after.outbox.len() == registry.outbox.len() + 2 * closed.len(),
        after.outbox.take(registry.outbox.len() as int) == registry.outbox,
        forall|i: int|
            #![trigger closed[i]]
            0 <= i < closed.len() ==> {
                let n = registry.outbox.len();
                &&& tells(registry, after.outbox[n + 2 * i], "exit"@, closed[i], None)
                &&& tells(registry, after.outbox[n + 2 * i + 1], "closed"@, closed[i], None)
            },
{
    law_closing_several_tells_of_each(registry, closed);
    assert(after.outbox.take(registry.outbox.len() as int) =~= registry.outbox);
    assert forall|i: int| 0 <= i < closed.len() implies ids.contains((#[trigger] closed[i]).id)
        && is_answered(registry, exits, closed[i]) by {
        law_closed_sessions_are_answered_as_ended(registry, exits, closed[i]);
    }
}

/// Closing a project closes exactly the sessions whose record has its key,
/// running or not.
pub proof fn law_closing_a_project_takes_all_its_sessions(
    registry: RegistryView,
    key: Seq<char>,
    exits: Seq<(Seq<char>, Option<u32>)>,
    after: RegistryView,
    closed: Seq<RecordView>,
    id: Seq<char>,
)
    requires
        registry.valid(),
        registry.closes(registry.project_ids(key), exits, after, closed),
        registry.sessions.contains_key(id),
    ensures
        registry.sessions[id].record.project_path_key == key ==> {
            &&& !after.sessions.contains_key(id)
            &&& exists|i: int|
                {
                    &&& 0 <= i < closed.len()
                    &&& (#[trigger] closed[i]).id == id
                    &&& is_answered(registry, exits, closed[i])
                }
        },
        registry.sessions[id].record.project_path_key != key ==> {
            &&& after.sessions.contains_key(id)
            &&& after.sessions[id] == registry.sessions[id]
            &&& forall|i: int| 0 <= i < closed.len() ==> (#[trigger] closed[i]).id != id
        },
{
    let ids = registry.project_ids(key);
    law_closing_removes_and_answers_each(registry, ids, exits, after, closed);
    assert(ids.contains(id) <==> registry.sessions[id].record.project_path_key == key);
}

/// Closing in turn, as far as it gets: each session in the order of the ids,
/// answered as it ended, and told.
pub proof fn law_closing_in_turn_answers_each(
    registry: RegistryView,
    ids: Seq<Seq<char>>,
    exits: Seq<(Seq<char>, Option<u32>)>,
    closed: Seq<RecordView>,
    after: RegistryView,
    r: Result<Seq<RecordView>, Seq<char>>,
)
    requires
        registry.valid(),
        registry.closes_first(ids, exits, closed, after, r),
    ensures
        same_listeners(registry, after),
        closed.len() <= ids.len(),
        forall|i: int|
            #![trigger closed[i]]
            0 <= i < closed.len() ==> {
                let n = registry.outbox.len();
                &&& closed[i].id == trimmed(ids[i])
                &&& registry.sessions.contains_key(closed[i].id)
                &&& !after.sessions.contains_key(closed[i].id)
                &&& is_answered(registry, exits, closed[i])
                &&& tells(registry, after.outbox[n + 2 * i], "exit"@, closed[i], None)
                &&& tells(registry, after.outbox[n + 2 * i + 1], "closed"@, closed[i], None)
            },
        after.outbox.len() == registry.outbox.len() + 2 * closed.len(),
        after.outbox.take(registry.outbox.len() as int) == registry.outbox,
        forall|id: Seq<char>|
            #![trigger after.sessions.contains_key(id)]
            (forall|i: int| 0 <= i < closed.len() ==> (#[trigger] closed[i]).id != id) ==> {
                &&& after.sessions.contains_key(id) <==> registry.sessions.contains_key(id)
                &&& registry.sessions.contains_key(id) ==> after.sessions[id]
                    == registry.sessions[id]
            },
        closed.len() == ids.len() ==> r == Ok::<Seq<RecordView>, Seq<char>>(closed),
        closed.len() < ids.len() ==> refusal(after, ids[closed.len() as int]) is Some && r == Err::<
            Seq<RecordView>,
            Seq<char>,
        >(refusal(after, ids[closed.len() as int])->Some_0),
{
    law_closing_several_tells_of_each(registry, closed);
    assert(after.outbox.take(registry.outbox.len() as int) =~= registry.outbox);
    let names = record_ids(closed);
    assert forall|i: int|
        #![trigger closed[i]]
        0 <= i < closed.len() implies is_answered(registry, exits, closed[i])
        && !after.sessions.contains_key(closed[i].id) by {
        law_closed_sessions_are_answered_as_ended(registry, exits, closed[i]);
        assert(names[i] == closed[i].id);
        assert(names.to_set().contains(closed[i].id));
    }
    assert forall|id: Seq<char>|
        #![trigger after.sessions.contains_key(id)]
        (forall|i: int| 0 <= i < closed.len() ==> (#[trigger] closed[i]).id != id) implies {
        &&& after.sessions.contains_key(id) <==> registry.sessions.contains_key(id)
        &&& registry.sessions.contains_key(id) ==> after.sessions[id] == registry.sessions[id]
    } by {
        if names.contains(id) {
            let k = choose|k: int| 0 <= k < closed.len() && names[k] == id;
            assert(closed[k].id == id);
        }
    }
}

} // verus!
