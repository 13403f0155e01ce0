//! What holds of the registry as a whole.

use vstd::prelude::*;

use crate::launch::{
    fitted_size, launch_failure_text, launch_plan_in, LaunchStage, MAX_COLS, MAX_ROWS, MIN_COLS,
    MIN_ROWS,
};
use crate::model::{
    in_project, other_than, record_ids, ring_push, session_valid, RegistryView, SessionView,
    MAX_RING_CHUNKS, MAX_TAIL_BYTES,
};
use crate::paths::is_absolute;
use crate::shell::{
    first_existing, resolved_shell, shell_options, unix_shell_command, ShellHostView,
};
use crate::tail::{
    byte_len, byte_tail, law_tail_ends_with_last, law_tail_fits,
    law_untruncated_tail_is_everything, tail_truncated,
};
use crate::text::{law_trimmed_idempotent, lemma_trimmed_fixed, lowercase, trimmed};
use crate::types::{ReadTailView, RecordView, SnapshotView};
use crate::workdir::{
    checked_workdir, followed_workdir, workdir_action, WorkdirActionView, WorkdirEventView,
};

verus! {

/// All sessions but the one under `id` are the same in both registries.
pub open spec fn same_but(a: RegistryView, b: RegistryView, id: Seq<char>) -> bool {
    a.sessions.remove(id) == b.sessions.remove(id)
}

/// White space around an id makes no difference.
pub proof fn law_lookup_ignores_white_space(registry: RegistryView, session_id: Seq<char>)
    ensures
        registry.lookup(trimmed(session_id)) == registry.lookup(session_id),
{
    law_trimmed_idempotent(session_id);
}

/// A created session can be read back at once: it runs, its output is empty, its
/// size is in range, and no other session changed.
pub proof fn law_created_session_is_found(
    registry: RegistryView,
    workdir: Result<Seq<char>, Seq<char>>,
    project_path_key: Option<Seq<char>>,
    shell: Option<Seq<char>>,
    title: Option<Seq<char>>,
    cols: Option<u16>,
    rows: Option<u16>,
    host: ShellHostView,
    launched: Result<Option<u32>, (LaunchStage, Seq<char>)>,
    id: Seq<char>,
    now: u128,
)
    requires
        id.len() > 0,
        trimmed(id) == id,
    ensures
        ({
            let (after, r) = registry.create(
                workdir,
                project_path_key,
                shell,
                title,
                cols,
                rows,
                host,
                launched,
                id,
                now,
            );
            r matches Ok(snapshot) ==> {
                &&& after.session_record(id) == Ok::<RecordView, Seq<char>>(snapshot.session)
                &&& forall|max: Option<usize>| #[trigger]
                    after.snapshot(id, max) == Ok::<SnapshotView, Seq<char>>(snapshot)
                &&& snapshot.session.id == id
                &&& snapshot.session.running
                &&& snapshot.output.len() == 0
                &&& MIN_COLS <= snapshot.session.cols <= MAX_COLS
                &&& MIN_ROWS <= snapshot.session.rows <= MAX_ROWS
                &&& same_but(registry, after, id)
            }
        }),
{
    let (after, r) = registry.create(
        workdir,
        project_path_key,
        shell,
        title,
        cols,
        rows,
        host,
        launched,
        id,
        now,
    );
    if let Ok(snapshot) = r {
        assert(registry.sessions.remove(id) =~= after.sessions.remove(id));
        assert(Seq::<Seq<char>>::empty().flatten() =~= Seq::<char>::empty());
        assert forall|max: Option<usize>| #[trigger]
            after.snapshot(id, max) == Ok::<SnapshotView, Seq<char>>(snapshot) by {
            let n = match max {
                Some(n) => n,
                None => MAX_TAIL_BYTES,
            };
            assert(byte_tail(Seq::<char>::empty(), n as nat) == Seq::<char>::empty());
        }
    }
}

/// A created session is in the listing of all sessions and in that of its
/// project.
pub proof fn law_created_session_is_listed(
    registry: RegistryView,
    workdir: Result<Seq<char>, Seq<char>>,
    project_path_key: Option<Seq<char>>,
    shell: Option<Seq<char>>,
    title: Option<Seq<char>>,
    cols: Option<u16>,
    rows: Option<u16>,
    host: ShellHostView,
    launched: Result<Option<u32>, (LaunchStage, Seq<char>)>,
    id: Seq<char>,
    now: u128,
    project: Option<Seq<char>>,
    out: Seq<RecordView>,
)
    ensures
        ({
            let (after, r) = registry.create(
                workdir,
                project_path_key,
                shell,
                title,
                cols,
                rows,
                host,
                launched,
                id,
                now,
            );
            r matches Ok(snapshot) ==> in_project(project, snapshot.session) && after.is_listing(
                project,
                out,
            ) ==> out.contains(snapshot.session)
        }),
{
}

/// A session under a new id adds one to the sessions that run.
pub proof fn law_create_adds_a_running_session(
    registry: RegistryView,
    workdir: Result<Seq<char>, Seq<char>>,
    project_path_key: Option<Seq<char>>,
    shell: Option<Seq<char>>,
    title: Option<Seq<char>>,
    cols: Option<u16>,
    rows: Option<u16>,
    host: ShellHostView,
    launched: Result<Option<u32>, (LaunchStage, Seq<char>)>,
    id: Seq<char>,
    now: u128,
)
    requires
        registry.valid(),
        !registry.sessions.contains_key(id),
    ensures
        ({
            let (after, r) = registry.create(
                workdir,
                project_path_key,
                shell,
                title,
                cols,
                rows,
                host,
                launched,
                id,
                now,
            );
            after.running_ids().len() == registry.running_ids().len() + (if r is Ok {
                1nat
            } else {
                0
            })
        }),
{
    let (after, r) = registry.create(
        workdir,
        project_path_key,
        shell,
        title,
        cols,
        rows,
        host,
        launched,
        id,
        now,
    );
    if r is Ok {
        assert(after.running_ids() =~= registry.running_ids().insert(id));
    }
}

/// A request that is refused changes nothing.
pub proof fn law_refused_create_changes_nothing(
    registry: RegistryView,
    workdir: Result<Seq<char>, Seq<char>>,
    project_path_key: Option<Seq<char>>,
    shell: Option<Seq<char>>,
    title: Option<Seq<char>>,
    cols: Option<u16>,
    rows: Option<u16>,
    host: ShellHostView,
    launched: Result<Option<u32>, (LaunchStage, Seq<char>)>,
    id: Seq<char>,
    now: u128,
)
    ensures
        ({
            let (after, r) = registry.create(
                workdir,
                project_path_key,
                shell,
                title,
                cols,
                rows,
                host,
                launched,
                id,
                now,
            );
            r is Err ==> after == registry
        }),
{
}

/// A request for a session is judged in order: the directory, then the plan,
/// then the launch. The first of them to fail is the answer, whatever the others
/// come to.
pub proof fn law_directory_then_plan_then_launch(
    registry: RegistryView,
    workdir: Seq<char>,
    absolute: bool,
    is_dir: Option<bool>,
    canonical: Result<Seq<char>, Seq<char>>,
    project_path_key: Option<Seq<char>>,
    shell: Option<Seq<char>>,
    title: Option<Seq<char>>,
    cols: Option<u16>,
    rows: Option<u16>,
    host: ShellHostView,
    launched: Result<Option<u32>, (LaunchStage, Seq<char>)>,
    id: Seq<char>,
    now: u128,
)
    ensures
        ({
            let found = followed_workdir(
                workdir,
                WorkdirEventView::Requested,
                absolute,
                is_dir,
                canonical,
            );
            let (after, r) = registry.create(
                found,
                project_path_key,
                shell,
                title,
                cols,
                rows,
                host,
                launched,
                id,
                now,
            );
            match checked_workdir(workdir, absolute, is_dir, canonical) {
                Err(message) => after == registry && r == Err::<SnapshotView, Seq<char>>(message),
                Ok(cwd) => match launch_plan_in(cwd, project_path_key, shell, cols, rows, host) {
                    Err(message) => after == registry && r == Err::<SnapshotView, Seq<char>>(
                        message,
                    ),
                    Ok(_) => match launched {
                        Err((stage, error)) => after == registry && r == Err::<
                            SnapshotView,
                            Seq<char>,
                        >(launch_failure_text(stage, error)),
                        Ok(pid) => r matches Ok(snapshot) && snapshot.session.cwd == cwd
                            && snapshot.session.pid == pid,
                    },
                },
            }
        }),
{
    law_workdir_steps_give_the_first_refusal(workdir, absolute, is_dir, canonical);
}

/// A request about a session that is refused changes nothing.
pub proof fn law_refused_request_changes_nothing(
    registry: RegistryView,
    session_id: Seq<char>,
    text: Seq<char>,
    cols: u16,
    rows: u16,
    outside: Result<(), Seq<char>>,
    exit_status: Option<u32>,
    now: u128,
    later: u128,
)
    requires
        registry.valid(),
    ensures
        registry.rename(session_id, text, now).1 is Err ==> registry.rename(
            session_id,
            text,
            now,
        ).0 == registry,
        registry.resize(session_id, cols, rows, outside, now).1 is Err ==> registry.resize(
            session_id,
            cols,
            rows,
            outside,
            now,
        ).0 == registry,
        registry.input(session_id, text, outside, now).1 is Err ==> registry.input(
            session_id,
            text,
            outside,
            now,
        ).0 == registry,
        registry.close(session_id, exit_status, now, later).1 is Err ==> registry.close(
            session_id,
            exit_status,
            now,
            later,
        ).0 == registry,
{
}

/// A session that was renamed has the trimmed title, and nothing else changed
/// but the time of its last use.
pub proof fn law_rename_reads_back(
    registry: RegistryView,
    session_id: Seq<char>,
    title: Seq<char>,
    now: u128,
)
    requires
        registry.valid(),
        registry.lookup(session_id) is Ok,
        trimmed(title).len() > 0,
    ensures
        ({
            let before = registry.lookup(session_id)->Ok_0;
            let (after, r) = registry.rename(session_id, title, now);
            &&& r is Ok
            &&& after.session_record(session_id) == r
            &&& r->Ok_0 == RecordView { title: trimmed(title), updated_at: now, ..before.record }
            &&& after.lookup(session_id)->Ok_0.output == before.output
            &&& same_but(registry, after, trimmed(session_id))
        }),
{
    let (after, r) = registry.rename(session_id, title, now);
    assert(registry.sessions.remove(trimmed(session_id)) =~= after.sessions.remove(
        trimmed(session_id),
    ));
}

/// A session that was resized has the requested size brought into range, exactly
/// the requested one where that is in range, and nothing else changed but the
/// time of its last use.
pub proof fn law_resize_reads_back(
    registry: RegistryView,
    session_id: Seq<char>,
    cols: u16,
    rows: u16,
    now: u128,
)
    requires
        registry.valid(),
        registry.lookup(session_id) is Ok,
    ensures
        ({
            let before = registry.lookup(session_id)->Ok_0;
            let (after, r) = registry.resize(session_id, cols, rows, Ok(()), now);
            &&& r is Ok
            &&& after.session_record(session_id) == r
            &&& r->Ok_0 == RecordView {
                cols: fitted_size(cols, rows).cols,
                rows: fitted_size(cols, rows).rows,
                updated_at: now,
                ..before.record
            }
            &&& MIN_COLS <= r->Ok_0.cols <= MAX_COLS
            &&& MIN_ROWS <= r->Ok_0.rows <= MAX_ROWS
            &&& MIN_COLS <= cols <= MAX_COLS ==> r->Ok_0.cols == cols
            &&& MIN_ROWS <= rows <= MAX_ROWS ==> r->Ok_0.rows == rows
            &&& after.lookup(session_id)->Ok_0.output == before.output
            &&& same_but(registry, after, trimmed(session_id))
        }),
{
    let (after, r) = registry.resize(session_id, cols, rows, Ok(()), now);
    assert(registry.sessions.remove(trimmed(session_id)) =~= after.sessions.remove(
        trimmed(session_id),
    ));
}

/// A session that has finished takes no input, and input that is accepted goes
/// to a session that runs.
pub proof fn law_only_running_sessions_take_input(
    registry: RegistryView,
    session_id: Seq<char>,
    data: Seq<char>,
)
    requires
        data.len() > 0,
    ensures
        registry.input_refusal(session_id, data) is None <==> (registry.lookup(session_id) is Ok
            && registry.lookup(session_id)->Ok_0.record.running),
{
}

/// Input that was accepted and written leaves a session as it was, but for the
/// time of its last use; empty input changes nothing.
pub proof fn law_input_keeps_the_session(
    registry: RegistryView,
    session_id: Seq<char>,
    data: Seq<char>,
    now: u128,
)
    requires
        registry.valid(),
        registry.lookup(session_id) is Ok,
    ensures
        ({
            let before = registry.lookup(session_id)->Ok_0;
            let (after, r) = registry.input(session_id, data, Ok(()), now);
            &&& r == after.session_record(session_id)
            &&& data.len() == 0 ==> after == registry
            &&& data.len() > 0 ==> {
                &&& r == Ok::<RecordView, Seq<char>>(
                    RecordView { updated_at: now, ..before.record },
                )
                &&& after.lookup(session_id)->Ok_0.output == before.output
                &&& after.outbox == registry.outbox
                &&& same_but(registry, after, trimmed(session_id))
            }
        }),
{
    let (after, r) = registry.input(session_id, data, Ok(()), now);
    assert(registry.sessions.remove(trimmed(session_id)) =~= after.sessions.remove(
        trimmed(session_id),
    ));
}

/// Every change of a session is told in one event, with the record as it is
/// after the change.
pub proof fn law_changes_are_told(
    registry: RegistryView,
    session_id: Seq<char>,
    text: Seq<char>,
    cols: u16,
    rows: u16,
    exit_status: Option<u32>,
    now: u128,
    later: u128,
)
    requires
        registry.valid(),
        registry.lookup(session_id) is Ok,
    ensures
        ({
            let (after, r) = registry.rename(session_id, text, now);
            r matches Ok(record) ==> after.outbox == registry.outbox.push(
                registry.delivery("renamed"@, record, None),
            )
        }),
        ({
            let (after, r) = registry.resize(session_id, cols, rows, Ok(()), now);
            r matches Ok(record) ==> after.outbox == registry.outbox.push(
                registry.delivery("resized"@, record, None),
            )
        }),
        ({
            let after = registry.append_output(session_id, text, now);
            after.outbox == registry.outbox.push(
                registry.delivery("output"@, after.lookup(session_id)->Ok_0.record, Some(text)),
            )
        }),
        ({
            let after = registry.mark_finished(session_id, exit_status, now, later);
            after.outbox == registry.outbox.push(
                registry.delivery("exit"@, after.lookup(session_id)->Ok_0.record, None),
            )
        }),
{
}

/// The first end of a session counts: ending it again changes neither its exit
/// code nor when it finished, nor any other session.
pub proof fn law_first_finish_counts(
    registry: RegistryView,
    session_id: Seq<char>,
    first: Option<u32>,
    second: Option<u32>,
    t1: u128,
    t2: u128,
    t3: u128,
    t4: u128,
)
    requires
        registry.valid(),
    ensures
        registry.mark_finished(session_id, first, t1, t2).mark_finished(
            session_id,
            second,
            t3,
            t4,
        ).sessions == registry.mark_finished(session_id, first, t1, t2).sessions,
{
    let once = registry.mark_finished(session_id, first, t1, t2);
    let twice = once.mark_finished(session_id, second, t3, t4);
    assert(twice.sessions =~= once.sessions);
}

/// A closed session has finished and is gone; the others are as they were.
pub proof fn law_closed_session_is_gone(
    registry: RegistryView,
    session_id: Seq<char>,
    exit_status: Option<u32>,
    finished: u128,
    updated: u128,
)
    requires
        registry.valid(),
        registry.lookup(session_id) is Ok,
    ensures
        ({
            let (after, r) = registry.close(session_id, exit_status, finished, updated);
            &&& r is Ok
            &&& !r->Ok_0.running
            &&& r->Ok_0.finished_at is Some
            &&& r->Ok_0.id == trimmed(session_id)
            &&& after.lookup(session_id) == Err::<SessionView, Seq<char>>(
                "terminal session not found: "@ + trimmed(session_id),
            )
            &&& after.sessions == registry.sessions.remove(trimmed(session_id))
            &&& after.running_ids() == registry.running_ids().remove(trimmed(session_id))
        }),
{
    let (after, r) = registry.close(session_id, exit_status, finished, updated);
    assert(after.sessions =~= registry.sessions.remove(trimmed(session_id)));
    assert(after.running_ids() =~= registry.running_ids().remove(trimmed(session_id)));
}

/// A closed session is in no listing.
pub proof fn law_closed_session_is_not_listed(
    registry: RegistryView,
    session_id: Seq<char>,
    exit_status: Option<u32>,
    finished: u128,
    updated: u128,
    project: Option<Seq<char>>,
    out: Seq<RecordView>,
)
    requires
        registry.valid(),
        registry.lookup(session_id) is Ok,
        registry.close(session_id, exit_status, finished, updated).0.is_listing(project, out),
    ensures
        forall|i: int| 0 <= i < out.len() ==> (#[trigger] out[i]).id != trimmed(session_id),
{
    law_closed_session_is_gone(registry, session_id, exit_status, finished, updated);
    assert forall|i: int| 0 <= i < out.len() implies (#[trigger] out[i]).id != trimmed(
        session_id,
    ) by {
        assert(out.contains(out[i]));
    }
}

/// Closing a session is told in two events, `exit` and then `closed`, both with
/// the record that is returned.
pub proof fn law_close_is_told_twice(
    registry: RegistryView,
    session_id: Seq<char>,
    exit_status: Option<u32>,
    finished: u128,
    updated: u128,
)
    requires
        registry.valid(),
        registry.lookup(session_id) is Ok,
    ensures
        ({
            let (after, r) = registry.close(session_id, exit_status, finished, updated);
            after.outbox == registry.outbox + seq![
                registry.delivery("exit"@, r->Ok_0, None),
                registry.delivery("closed"@, r->Ok_0, None),
            ]
        }),
{
    let (after, r) = registry.close(session_id, exit_status, finished, updated);
    assert(after.outbox =~= registry.outbox + seq![
        registry.delivery("exit"@, r->Ok_0, None),
        registry.delivery("closed"@, r->Ok_0, None),
    ]);
}

/// Closing all sessions leaves none, so none runs, and every session is
/// answered once, as finished.
pub proof fn law_close_all_leaves_nothing(
    registry: RegistryView,
    exits: Seq<(Seq<char>, Option<u32>)>,
    after: RegistryView,
    closed: Seq<RecordView>,
)
    requires
        registry.valid(),
        registry.closes(registry.sessions.dom(), exits, after, closed),
    ensures
        after.sessions == Map::<Seq<char>, SessionView>::empty(),
        after.running_ids().len() == 0,
        closed.len() == registry.sessions.dom().len(),
        forall|i: int| 0 <= i < closed.len() ==> !(#[trigger] closed[i]).running,
{
    assert(after.sessions =~= Map::empty());
    assert(after.running_ids() =~= Set::empty());
    lemma_closed_length(registry, registry.sessions.dom(), exits, after, closed);
    assert forall|i: int| 0 <= i < closed.len() implies !(#[trigger] closed[i]).running by {
        assert(registry.closed_as(exits, closed[i]));
    }
}

/// Closing a project leaves none of its sessions and all sessions of the other
/// projects.
pub proof fn law_close_project_keeps_the_others(
    registry: RegistryView,
    key: Seq<char>,
    exits: Seq<(Seq<char>, Option<u32>)>,
    after: RegistryView,
    closed: Seq<RecordView>,
)
    requires
        registry.valid(),
        registry.closes(registry.project_ids(key), exits, after, closed),
    ensures
        after.project_ids(key).len() == 0,
        closed.len() == registry.project_ids(key).len(),
        forall|i: int|
            0 <= i < closed.len() ==> (#[trigger] closed[i]).project_path_key == key
                && !closed[i].running,
        forall|id: Seq<char>| #[trigger]
            registry.sessions.contains_key(id) && registry.sessions[id].record.project_path_key
                != key ==> after.sessions.contains_key(id) && after.sessions[id]
                == registry.sessions[id],
{
    assert(after.project_ids(key) =~= Set::empty());
    lemma_closed_length(registry, registry.project_ids(key), exits, after, closed);
    assert forall|i: int| 0 <= i < closed.len() implies (#[trigger] closed[i]).project_path_key
        == key && !closed[i].running by {
        assert(registry.closed_as(exits, closed[i]));
    }
}

/// Closing in turn gets exactly as far as the ids name sessions of their own.
proof fn lemma_closed_are_closable(
    registry: RegistryView,
    ids: Seq<Seq<char>>,
    exits: Seq<(Seq<char>, Option<u32>)>,
    closed: Seq<RecordView>,
    after: RegistryView,
    r: Result<Seq<RecordView>, Seq<char>>,
)
    requires
        registry.valid(),
        registry.closes_first(ids, exits, closed, after, r),
    ensures
        forall|i: int| 0 <= i < closed.len() ==> #[trigger] registry.closable(ids, i),
        closed.len() < ids.len() ==> !registry.closable(ids, closed.len() as int),
        forall|id: Seq<char>| #[trigger]
            record_ids(closed).to_set().contains(id) <==> exists|k: int|
                0 <= k < closed.len() && trimmed(#[trigger] ids[k]) == id,
{
    assert forall|i: int| 0 <= i < closed.len() implies #[trigger] registry.closable(ids, i) by {
        assert(closed[i].id == trimmed(ids[i]));
        assert(session_valid(closed[i].id, registry.sessions[closed[i].id]));
        assert forall|k: int| 0 <= k < i implies trimmed(#[trigger] ids[k]) != trimmed(ids[i]) by {
            assert(closed[k].id == trimmed(ids[k]));
        }
    }
    assert forall|id: Seq<char>| #[trigger]
        record_ids(closed).to_set().contains(id) <==> exists|k: int|
            0 <= k < closed.len() && trimmed(#[trigger] ids[k]) == id by {
        if record_ids(closed).contains(id) {
            let k = choose|k: int| 0 <= k < closed.len() && record_ids(closed)[k] == id;
            assert(closed[k].id == trimmed(ids[k]));
        }
        if exists|k: int| 0 <= k < closed.len() && trimmed(#[trigger] ids[k]) == id {
            let k = choose|k: int| 0 <= k < closed.len() && trimmed(#[trigger] ids[k]) == id;
            assert(closed[k].id == trimmed(ids[k]));
            assert(record_ids(closed)[k] == id);
        }
    }
    if closed.len() < ids.len() && registry.closable(ids, closed.len() as int) {
        let id = trimmed(ids[closed.len() as int]);
        assert(!record_ids(closed).to_set().contains(id));
        assert(after.sessions.contains_key(id));
    }
}

/// Where each id names a session that no earlier one names, closing them in turn
/// answers them all, in the order of the ids, and leaves the other sessions as
/// they were.
pub proof fn law_closing_answers_in_order(
    registry: RegistryView,
    ids: Seq<Seq<char>>,
    exits: Seq<(Seq<char>, Option<u32>)>,
    after: RegistryView,
    r: Result<Seq<RecordView>, Seq<char>>,
)
    requires
        registry.valid(),
        registry.closes_in_turn(ids, exits, after, r),
        forall|i: int| 0 <= i < ids.len() ==> #[trigger] registry.closable(ids, i),
    ensures
        r is Ok,
        r->Ok_0.len() == ids.len(),
        forall|i: int|
            0 <= i < ids.len() ==> (#[trigger] r->Ok_0[i]).id == trimmed(ids[i])
                && !r->Ok_0[i].running && registry.closed_as(exits, r->Ok_0[i]),
        forall|i: int|
            0 <= i < ids.len() ==> !after.sessions.contains_key(trimmed(#[trigger] ids[i])),
        forall|id: Seq<char>| #[trigger]
            registry.sessions.contains_key(id) && (forall|k: int|
                0 <= k < ids.len() ==> trimmed(#[trigger] ids[k]) != id)
                ==> after.sessions.contains_key(id) && after.sessions[id]
                == registry.sessions[id],
{
    let closed = choose|closed: Seq<RecordView>| #[trigger]
        registry.closes_first(ids, exits, closed, after, r);
    lemma_closed_are_closable(registry, ids, exits, closed, after, r);
    assert forall|i: int| 0 <= i < ids.len() implies !(#[trigger] closed[i]).running by {
        assert(registry.closed_as(exits, closed[i]));
    }
    assert forall|i: int| 0 <= i < ids.len() implies !after.sessions.contains_key(
        trimmed(#[trigger] ids[i]),
    ) by {
        assert(record_ids(closed).to_set().contains(trimmed(ids[i])));
    }
}

/// Closing in turn stops at the first id that is blank or unknown, or that names
/// the session of an earlier one. That id's error is the answer, what was closed
/// before it stays closed, and the other sessions are as they were.
pub proof fn law_closing_stops_at_the_first_failure(
    registry: RegistryView,
    ids: Seq<Seq<char>>,
    exits: Seq<(Seq<char>, Option<u32>)>,
    after: RegistryView,
    r: Result<Seq<RecordView>, Seq<char>>,
    j: int,
)
    requires
        registry.valid(),
        registry.closes_in_turn(ids, exits, after, r),
        0 <= j < ids.len(),
        forall|i: int| 0 <= i < j ==> #[trigger] registry.closable(ids, i),
        !registry.closable(ids, j),
    ensures
        r == Err::<Seq<RecordView>, Seq<char>>(
            if trimmed(ids[j]).len() == 0 {
                "terminal_id is required"@
            } else {
                "terminal session not found: "@ + trimmed(ids[j])
            },
        ),
        forall|i: int| 0 <= i < j ==> !after.sessions.contains_key(trimmed(#[trigger] ids[i])),
        forall|id: Seq<char>| #[trigger]
            registry.sessions.contains_key(id) && (forall|k: int|
                0 <= k < j ==> trimmed(#[trigger] ids[k]) != id) ==> after.sessions.contains_key(id)
                && after.sessions[id] == registry.sessions[id],
{
    let closed = choose|closed: Seq<RecordView>| #[trigger]
        registry.closes_first(ids, exits, closed, after, r);
    lemma_closed_are_closable(registry, ids, exits, closed, after, r);
    assert(closed.len() == j) by {
        if closed.len() < j {
            assert(registry.closable(ids, closed.len() as int));
        } else if closed.len() > j {
            assert(registry.closable(ids, j));
        }
    }
    assert forall|i: int| 0 <= i < j implies !after.sessions.contains_key(
        trimmed(#[trigger] ids[i]),
    ) by {
        assert(record_ids(closed).to_set().contains(trimmed(ids[i])));
    }
}

proof fn lemma_closed_length(
    registry: RegistryView,
    ids: Set<Seq<char>>,
    exits: Seq<(Seq<char>, Option<u32>)>,
    after: RegistryView,
    closed: Seq<RecordView>,
)
    requires
        registry.closes(ids, exits, after, closed),
    ensures
        closed.len() == ids.len(),
{
    let names = record_ids(closed);
    assert forall|i: int, j: int| 0 <= i < j < names.len() implies names[i] != names[j] by {
        assert(closed[i].id != closed[j].id);
    }
    assert forall|id: Seq<char>| names.to_set().contains(id) <==> ids.contains(id) by {
        if names.contains(id) {
            let i = choose|i: int| 0 <= i < names.len() && names[i] == id;
            assert(ids.contains(closed[i].id));
        }
        if ids.contains(id) {
            let i = choose|i: int| 0 <= i < closed.len() && (#[trigger] closed[i]).id == id;
            assert(names[i] == id);
        }
    }
    assert(names.to_set() =~= ids);
    names.unique_seq_to_set();
}

/// However much output arrives, a session keeps a bounded number of chunks, and
/// always the latest.
pub proof fn law_ring_keeps_the_latest(output: Seq<Seq<char>>, data: Seq<char>)
    requires
        output.len() <= MAX_RING_CHUNKS,
    ensures
        ring_push(output, data).len() <= MAX_RING_CHUNKS,
        ring_push(output, data).last() == data,
        output.len() < MAX_RING_CHUNKS ==> ring_push(output, data) == output.push(data),
        output.len() == MAX_RING_CHUNKS ==> ring_push(output, data) == output.drop_first().push(
            data,
        ),
{
    if output.len() == MAX_RING_CHUNKS {
        assert(ring_push(output, data) =~= output.drop_first().push(data));
    }
}

/// Output that arrived is read back: a snapshot with room for it ends with it,
/// and what precedes it is the tail of the chunks that were kept.
pub proof fn law_output_reads_back(
    registry: RegistryView,
    session_id: Seq<char>,
    data: Seq<char>,
    now: u128,
    max: usize,
)
    requires
        registry.valid(),
        registry.lookup(session_id) is Ok,
        byte_len(data) <= max,
    ensures
        ({
            let kept = ring_push(registry.lookup(session_id)->Ok_0.output, data).drop_last();
            let after = registry.append_output(session_id, data, now);
            &&& after.snapshot(session_id, Some(max)) is Ok
            &&& after.snapshot(session_id, Some(max))->Ok_0.output == byte_tail(
                kept.flatten(),
                (max - byte_len(data)) as nat,
            ) + data
        }),
{
    let output = ring_push(registry.lookup(session_id)->Ok_0.output, data);
    let kept = output.drop_last();
    law_ring_keeps_the_latest(registry.lookup(session_id)->Ok_0.output, data);
    assert(output =~= kept.push(data));
    kept.lemma_flatten_push(data);
    law_tail_ends_with_last(kept.flatten(), data, max as nat);
}

/// A snapshot keeps to the number of bytes that was asked for, or to the default
/// one, and is the end of the output that the session keeps.
pub proof fn law_snapshot_keeps_to_its_budget(
    registry: RegistryView,
    session_id: Seq<char>,
    max_bytes: Option<usize>,
)
    ensures
        registry.snapshot(session_id, max_bytes) matches Ok(snapshot) ==> {
            let max = match max_bytes {
                Some(n) => n,
                None => MAX_TAIL_BYTES,
            };
            let all = registry.lookup(session_id)->Ok_0.output.flatten();
            &&& byte_len(snapshot.output) <= max
            &&& snapshot.output.len() <= all.len()
            &&& snapshot.output == all.skip(all.len() - snapshot.output.len())
            &&& snapshot.truncated || snapshot.output == all
        },
{
    if let Ok(session) = registry.lookup(session_id) {
        let max = match max_bytes {
            Some(n) => n,
            None => MAX_TAIL_BYTES,
        };
        law_tail_fits(session.output.flatten(), max as nat);
        if !tail_truncated(session.output, max as nat) {
            law_untruncated_tail_is_everything(session.output, max as nat);
        }
    }
}

/// Output of one session changes no other.
pub proof fn law_output_stays_with_its_session(
    registry: RegistryView,
    session_id: Seq<char>,
    data: Seq<char>,
    now: u128,
)
    requires
        registry.valid(),
    ensures
        same_but(
            registry,
            registry.append_output(session_id, data, now),
            trimmed(session_id),
        ),
{
    let after = registry.append_output(session_id, data, now);
    assert(registry.sessions.remove(trimmed(session_id)) =~= after.sessions.remove(
        trimmed(session_id),
    ));
}

/// Whoever subscribes gets the events from then on, under an id that the next
/// subscriber does not get.
pub proof fn law_subscriber_gets_events(
    registry: RegistryView,
    kind: Seq<char>,
    record: RecordView,
    data: Option<Seq<char>>,
)
    ensures
        registry.subscribe().delivery(kind, record, data).subscribers.contains(
            registry.next_subscriber_id,
        ),
        registry.subscribe().next_subscriber_id != registry.next_subscriber_id,
        forall|id: usize|
            registry.subscribers.contains(id) ==> #[trigger] registry.subscribe().delivery(
                kind,
                record,
                data,
            ).subscribers.contains(id),
{
    let after = registry.subscribe().subscribers;
    if !registry.subscribers.contains(registry.next_subscriber_id) {
        assert(after[after.len() - 1] == registry.next_subscriber_id);
        assert forall|id: usize| registry.subscribers.contains(id) implies after.contains(id) by {
            let i = choose|i: int| 0 <= i < registry.subscribers.len() && registry.subscribers[i]
                == id;
            assert(after[i] == id);
        }
    }
}

/// Whoever ended a subscription gets no event from then on; the others still
/// do.
pub proof fn law_unsubscribed_gets_nothing(
    registry: RegistryView,
    gone: usize,
    kind: Seq<char>,
    record: RecordView,
    data: Option<Seq<char>>,
)
    ensures
        forall|id: usize| #[trigger]
            registry.unsubscribe(gone).delivery(kind, record, data).subscribers.contains(id)
                <==> registry.subscribers.contains(id) && id != gone,
{
    broadcast use vstd::seq_lib::group_filter_ensures;

    let p = other_than(gone);
    let left = registry.subscribers.filter(p);
    assert forall|id: usize| left.contains(id) <==> registry.subscribers.contains(id) && id
        != gone by {
        if left.contains(id) {
            let i = choose|i: int| 0 <= i < left.len() && left[i] == id;
            assert(p(left[i]));
            registry.subscribers.lemma_filter_contains_rev(p, id);
        }
        if registry.subscribers.contains(id) && id != gone {
            let i = choose|i: int| 0 <= i < registry.subscribers.len() && registry.subscribers[i]
                == id;
            assert(p(registry.subscribers[i]));
        }
    }
}

/// Reading a tail discloses sessions of the named project alone.
pub proof fn law_read_tail_stays_in_project(
    registry: RegistryView,
    project_path_key: Seq<char>,
    session_id: Option<Seq<char>>,
    max_bytes: Option<usize>,
    tail: ReadTailView,
)
    requires
        registry.answers_read_tail(
            project_path_key,
            session_id,
            max_bytes,
            Ok::<ReadTailView, Seq<char>>(tail),
        ),
    ensures
        tail.selected_session matches Some(record) ==> record.project_path_key == trimmed(
            project_path_key,
        ),
        forall|i: int|
            0 <= i < tail.sessions.len() ==> (#[trigger] tail.sessions[i]).project_path_key
                == trimmed(project_path_key),
        tail.selected_session is None ==> tail.output.len() == 0 && !tail.truncated,
{
    assert forall|i: int| 0 <= i < tail.sessions.len() implies (
    #[trigger] tail.sessions[i]).project_path_key == trimmed(project_path_key) by {
        assert(tail.sessions.contains(tail.sessions[i]));
    }
}

/// Where a project has several sessions, a tail is read only of one that is
/// named.
pub proof fn law_read_tail_needs_an_id_among_several(
    registry: RegistryView,
    project_path_key: Seq<char>,
    session_id: Option<Seq<char>>,
    max_bytes: Option<usize>,
    r: Result<ReadTailView, Seq<char>>,
)
    requires
        registry.answers_read_tail(project_path_key, session_id, max_bytes, r),
        trimmed(project_path_key).len() > 0,
        registry.project_ids(trimmed(project_path_key)).len() > 1,
        session_id matches Some(id) ==> trimmed(id).len() == 0,
    ensures
        r is Ok,
        r->Ok_0.selected_session is None,
        r->Ok_0.output.len() == 0,
        registry.is_listing(Some(trimmed(project_path_key)), r->Ok_0.sessions),
{
}

/// A host always offers a shell, the default one is among those offered, and
/// its name is not blank.
pub proof fn law_default_shell_is_offered(host: ShellHostView)
    ensures
        trimmed(shell_options(host).default_shell).len() > 0,
        shell_options(host).options.len() > 0,
        shell_options(host).options[0].id == shell_options(host).default_shell,
{
    reveal_strlit("cmd");
    reveal_strlit("default");
    lemma_trimmed_fixed("cmd"@);
    lemma_trimmed_fixed("default"@);
}

/// The shell that is run outside Windows is given by an absolute path.
pub proof fn law_unix_shell_is_absolute(host: ShellHostView)
    ensures
        unix_shell_command(host) matches Some(command) ==> is_absolute(command),
{
    reveal_strlit("/bin/bash");
    reveal_strlit("/bin/zsh");
    reveal_strlit("/bin/sh");
    reveal_with_fuel(first_existing, 4);
}

/// A shell that is offered is the one that its id gets, wherever a shell can be
/// found at all.
pub proof fn law_offered_shells_resolve(host: ShellHostView, i: int)
    requires
        0 <= i < shell_options(host).options.len(),
    ensures
        ({
            let option = shell_options(host).options[i];
            match resolved_shell(Some(option.id), host) {
                Ok(shell) => shell.label == option.label && shell.command == option.command,
                Err(_) => !(host.platform is Windows) && option.command == "/bin/sh"@,
            }
        }),
{
    reveal_strlit("cmd");
    reveal_strlit("powershell");
    reveal_strlit("pwsh");
    reveal_strlit("default");
    lemma_trimmed_fixed("cmd"@);
    lemma_trimmed_fixed("powershell"@);
    assert(lowercase("cmd"@) =~= "cmd"@);
    assert(lowercase("powershell"@) =~= "powershell"@);
    assert("cmd"@ != "powershell"@ && "cmd"@ != "pwsh"@);
}

/// Carrying out the steps of a request for a directory gives the canonical path,
/// or the first refusal that applies.
pub proof fn law_workdir_steps_give_the_first_refusal(
    workdir: Seq<char>,
    absolute: bool,
    is_dir: Option<bool>,
    canonical: Result<Seq<char>, Seq<char>>,
)
    ensures
        followed_workdir(workdir, WorkdirEventView::Requested, absolute, is_dir, canonical)
            == checked_workdir(workdir, absolute, is_dir, canonical),
{
    reveal_with_fuel(followed_workdir, 4);
}

/// A directory is accepted exactly where each question about it is answered
/// well, and then it is its canonical path that is used.
pub proof fn law_workdir_is_accepted_only_when_sound(
    workdir: Seq<char>,
    absolute: bool,
    is_dir: Option<bool>,
    canonical: Result<Seq<char>, Seq<char>>,
    path: Seq<char>,
)
    ensures
        ({
            &&& workdir_action(workdir, WorkdirEventView::Requested) == WorkdirActionView::Expand(
                trimmed(workdir),
            )
            &&& workdir_action(workdir, WorkdirEventView::Expanded { absolute })
                == WorkdirActionView::Inspect
            &&& workdir_action(workdir, WorkdirEventView::Inspected { is_dir })
                == WorkdirActionView::Canonicalize
            &&& workdir_action(workdir, WorkdirEventView::Canonicalized(canonical))
                == WorkdirActionView::Accept(path)
        }) <==> (trimmed(workdir).len() > 0 && absolute && is_dir == Some(true) && canonical
            == Ok::<Seq<char>, Seq<char>>(path)),
{
}

} // verus!
