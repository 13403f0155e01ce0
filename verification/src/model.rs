//! The registry as a mathematical value, and what each operation does to it.

use vstd::prelude::*;

use crate::host::is_clock_reading;
use crate::launch::{
    fitted_size, launch_failure_text, launch_plan, LaunchPlanView, LaunchStage, MAX_COLS,
    MAX_ROWS, MIN_COLS, MIN_ROWS,
};
use crate::shell::ShellHostView;
use crate::tail::{byte_tail, tail_truncated};
use crate::text::{decimal_digits, text_less, trimmed};
use crate::types::{DeliveryView, EventView, ReadTailView, RecordView, SnapshotView};

verus! {

/// The number of output chunks that a session keeps.
pub const MAX_RING_CHUNKS: usize = 4096;

/// The number of bytes of output that a snapshot holds unless asked otherwise.
pub const MAX_TAIL_BYTES: usize = 262144;

/// A session: its record and the chunks of output that it keeps.
#[verifier::ext_equal]
pub struct SessionView {
    pub record: RecordView,
    pub output: Seq<Seq<char>>,
}

/// The registry: the sessions by id, who is told about events, and the events
/// that are still to be delivered.
#[verifier::ext_equal]
pub struct RegistryView {
    pub sessions: Map<Seq<char>, SessionView>,
    pub app_attached: bool,
    pub subscribers: Seq<usize>,
    pub next_subscriber_id: usize,
    pub outbox: Seq<DeliveryView>,
}

/// Text that is not blank and has no white space around it.
pub open spec fn is_clean_text(s: Seq<char>) -> bool {
    s.len() > 0 && trimmed(s) == s
}

/// What holds of every session under the id `id`.
pub open spec fn session_valid(id: Seq<char>, session: SessionView) -> bool {
    &&& session.record.id == id
    &&& is_clean_text(id)
    &&& is_clean_text(session.record.project_path_key)
    &&& is_clean_text(session.record.title)
    &&& MIN_COLS <= session.record.cols <= MAX_COLS
    &&& MIN_ROWS <= session.record.rows <= MAX_ROWS
    &&& session.record.running <==> session.record.finished_at is None
    &&& session.record.running ==> session.record.exit_code is None
    &&& session.output.len() <= MAX_RING_CHUNKS
}

/// Whether a session is asked for: one of the project named, or any where none
/// is.
pub open spec fn in_project(project: Option<Seq<char>>, record: RecordView) -> bool {
    match project {
        Some(key) => record.project_path_key == key,
        None => true,
    }
}

/// The order of listings: by project, then by time of creation.
pub open spec fn record_before(a: RecordView, b: RecordView) -> bool {
    text_less(a.project_path_key, b.project_path_key) || (a.project_path_key == b.project_path_key
        && a.created_at < b.created_at)
}

/// What an optional argument asks for, trimmed; a blank one asks for nothing.
pub open spec fn requested_text(s: Option<Seq<char>>) -> Option<Seq<char>> {
    match s {
        Some(t) if trimmed(t).len() > 0 => Some(trimmed(t)),
        _ => None,
    }
}

/// An event of the given kind about a session.
pub open spec fn event_about(
    kind: Seq<char>,
    record: RecordView,
    data: Option<Seq<char>>,
) -> EventView {
    EventView {
        kind,
        session_id: record.id,
        project_path_key: record.project_path_key,
        session: record,
        data,
    }
}

/// The chunks kept after `data` arrives: the last [`MAX_RING_CHUNKS`].
pub open spec fn ring_push(output: Seq<Seq<char>>, data: Seq<char>) -> Seq<Seq<char>> {
    let all = output.push(data);
    if all.len() > MAX_RING_CHUNKS {
        all.skip(all.len() - MAX_RING_CHUNKS)
    } else {
        all
    }
}

/// An exit status as an exit code: the same 32 bits, read with a sign.
pub open spec fn exit_code(status: u32) -> i32 {
    if status <= i32::MAX {
        status as i32
    } else {
        (status - 0x1_0000_0000) as i32
    }
}

/// The record of a session whose process ended. The first end counts: a session
/// that has finished stays as it is.
pub open spec fn finished_record(
    record: RecordView,
    exit_status: Option<u32>,
    finished: u128,
    updated: u128,
) -> RecordView {
    if record.running {
        RecordView {
            running: false,
            finished_at: Some(finished),
            exit_code: match exit_status {
                Some(status) => Some(exit_code(status)),
                None => None,
            },
            updated_at: updated,
            ..record
        }
    } else {
        record
    }
}

/// The exit status that was observed for a session; none where nothing was.
pub open spec fn observed_status(
    exits: Seq<(Seq<char>, Option<u32>)>,
    id: Seq<char>,
) -> Option<u32>
    decreases exits.len(),
{
    if exits.len() == 0 {
        None
    } else if exits[0].0 == id {
        exits[0].1
    } else {
        observed_status(exits.drop_first(), id)
    }
}

/// The ids of records.
pub open spec fn record_ids(records: Seq<RecordView>) -> Seq<Seq<char>> {
    records.map_values(|r: RecordView| r.id)
}

/// All subscribers but one.
pub open spec fn other_than(id: usize) -> spec_fn(usize) -> bool {
    |s: usize| s != id
}

/// The title that a new session gets where none is given.
pub open spec fn numbered_title(n: nat) -> Seq<char> {
    "Terminal "@ + decimal_digits(n)
}

impl RegistryView {
    /// An empty registry.
    pub open spec fn empty() -> RegistryView {
        RegistryView {
            sessions: Map::empty(),
            app_attached: false,
            subscribers: Seq::empty(),
            next_subscriber_id: 0,
            outbox: Seq::empty(),
        }
    }

    /// What holds of every registry.
    pub open spec fn valid(self) -> bool {
        &&& self.sessions.dom().finite()
        &&& forall|id: Seq<char>| #[trigger]
            self.sessions.contains_key(id) ==> session_valid(id, self.sessions[id])
        &&& self.subscribers.no_duplicates()
    }

    /// The session that a request names. The id is trimmed; a blank id and an
    /// unknown one are refused.
    pub open spec fn lookup(self, session_id: Seq<char>) -> Result<SessionView, Seq<char>> {
        let id = trimmed(session_id);
        if id.len() == 0 {
            Err("terminal_id is required"@)
        } else if !self.sessions.contains_key(id) {
            Err("terminal session not found: "@ + id)
        } else {
            Ok(self.sessions[id])
        }
    }

    /// The record that a request names.
    pub open spec fn session_record(self, session_id: Seq<char>) -> Result<RecordView, Seq<char>> {
        match self.lookup(session_id) {
            Ok(session) => Ok(session.record),
            Err(message) => Err(message),
        }
    }

    /// The session's record and the tail of its output.
    pub open spec fn snapshot(self, session_id: Seq<char>, max_bytes: Option<usize>) -> Result<
        SnapshotView,
        Seq<char>,
    > {
        let max = match max_bytes {
            Some(n) => n,
            None => MAX_TAIL_BYTES,
        };
        match self.lookup(session_id) {
            Ok(session) => Ok(
                SnapshotView {
                    session: session.record,
                    output: byte_tail(session.output.flatten(), max as nat),
                    truncated: tail_truncated(session.output, max as nat),
                },
            ),
            Err(message) => Err(message),
        }
    }

    /// The ids of the sessions of a project, or of all.
    pub open spec fn matching_ids(self, project: Option<Seq<char>>) -> Set<Seq<char>> {
        self.sessions.dom().filter(|id: Seq<char>| in_project(project, self.sessions[id].record))
    }

    /// The ids of a project's sessions.
    pub open spec fn project_ids(self, key: Seq<char>) -> Set<Seq<char>> {
        self.matching_ids(Some(key))
    }

    /// The ids of the sessions that run.
    pub open spec fn running_ids(self) -> Set<Seq<char>> {
        self.sessions.dom().filter(|id: Seq<char>| self.sessions[id].record.running)
    }

    /// Whether `out` lists the sessions asked for: each once, and in order.
    pub open spec fn is_listing(self, project: Option<Seq<char>>, out: Seq<RecordView>) -> bool {
        &&& forall|i: int, j: int|
            #![trigger out[i], out[j]]
            0 <= i < j < out.len() ==> out[i].id != out[j].id && !record_before(out[j], out[i])
        &&& forall|record: RecordView| #[trigger]
            out.contains(record) <==> self.sessions.contains_key(record.id)
                && self.sessions[record.id].record == record && in_project(project, record)
    }

    /// The delivery of an event to everyone who listens now.
    pub open spec fn delivery(
        self,
        kind: Seq<char>,
        record: RecordView,
        data: Option<Seq<char>>,
    ) -> DeliveryView {
        DeliveryView {
            event: event_about(kind, record, data),
            to_app: self.app_attached,
            subscribers: self.subscribers,
        }
    }

    /// The registry after an event was sent.
    pub open spec fn broadcast(
        self,
        kind: Seq<char>,
        record: RecordView,
        data: Option<Seq<char>>,
    ) -> RegistryView {
        RegistryView { outbox: self.outbox.push(self.delivery(kind, record, data)), ..self }
    }

    /// The registry with this session in place of the one with its id.
    pub open spec fn put(self, session: SessionView) -> RegistryView {
        RegistryView { sessions: self.sessions.insert(session.record.id, session), ..self }
    }

    /// The registry with a session's record replaced.
    pub open spec fn put_record(self, session: SessionView, record: RecordView) -> RegistryView {
        self.put(SessionView { record, output: session.output })
    }

    /// The registry after the application was attached.
    pub open spec fn attach_app(self) -> RegistryView {
        RegistryView { app_attached: true, ..self }
    }

    /// The registry after someone subscribed under the next free id.
    pub open spec fn subscribe(self) -> RegistryView {
        RegistryView {
            subscribers: if self.subscribers.contains(self.next_subscriber_id) {
                self.subscribers
            } else {
                self.subscribers.push(self.next_subscriber_id)
            },
            next_subscriber_id: if self.next_subscriber_id == usize::MAX {
                0
            } else {
                (self.next_subscriber_id + 1) as usize
            },
            ..self
        }
    }

    /// The registry after the subscriber `id` left.
    pub open spec fn unsubscribe(self, id: usize) -> RegistryView {
        RegistryView { subscribers: self.subscribers.filter(other_than(id)), ..self }
    }

    /// The title of a new session: the one given, or a numbered one.
    pub open spec fn new_title(self, title: Option<Seq<char>>, project_path_key: Seq<char>) -> Seq<
        char,
    > {
        match requested_text(title) {
            Some(text) => text,
            None => numbered_title(self.project_ids(project_path_key).len() + 1),
        }
    }

    /// The record of a session that was just started.
    pub open spec fn new_record(
        self,
        plan: LaunchPlanView,
        title: Option<Seq<char>>,
        pid: Option<u32>,
        id: Seq<char>,
        now: u128,
    ) -> RecordView {
        RecordView {
            id,
            project_path_key: plan.project_path_key,
            cwd: plan.cwd,
            shell: plan.shell.label,
            title: self.new_title(title, plan.project_path_key),
            pid,
            cols: plan.size.cols,
            rows: plan.size.rows,
            created_at: now,
            updated_at: now,
            finished_at: None,
            exit_code: None,
            running: true,
        }
    }

    /// Creating a session: what was launched is entered under `id`, with no
    /// output yet. A directory that was refused, a request that cannot be planned
    /// and a launch that failed count in this order, and change nothing.
    pub open spec fn create(
        self,
        workdir: Result<Seq<char>, Seq<char>>,
        project_path_key: Option<Seq<char>>,
        shell: Option<Seq<char>>,
        title: Option<Seq<char>>,
        cols: Option<u16>,
        rows: Option<u16>,
        host: ShellHostView,
        launched: Result<Option<u32>, (LaunchStage, Seq<char>)>,
        id: Seq<char>,
        now: u128,
    ) -> (RegistryView, Result<SnapshotView, Seq<char>>) {
        match launch_plan(workdir, project_path_key, shell, cols, rows, host) {
            Err(message) => (self, Err(message)),
            Ok(plan) => match launched {
                Err((stage, error)) => (self, Err(launch_failure_text(stage, error))),
                Ok(pid) => {
                    let record = self.new_record(plan, title, pid, id, now);
                    (
                        self.put(SessionView { record, output: Seq::empty() }).broadcast(
                            "created"@,
                            record,
                            None,
                        ),
                        Ok(
                            SnapshotView {
                                session: record,
                                output: Seq::empty(),
                                truncated: false,
                            },
                        ),
                    )
                },
            },
        }
    }

    /// Marking a session as used.
    pub open spec fn touch(self, session_id: Seq<char>, now: u128) -> RegistryView {
        match self.lookup(session_id) {
            Ok(session) => self.put_record(
                session,
                RecordView { updated_at: now, ..session.record },
            ),
            Err(_) => self,
        }
    }

    /// Why input is refused, if it is. Empty input is not written, so it needs
    /// no session here.
    pub open spec fn input_refusal(self, session_id: Seq<char>, data: Seq<char>) -> Option<
        Seq<char>,
    > {
        if data.len() == 0 {
            None
        } else {
            match self.lookup(session_id) {
                Err(message) => Some(message),
                Ok(session) => if session.record.running {
                    None
                } else {
                    Some("terminal session is not running"@)
                },
            }
        }
    }

    /// Finishing input that was accepted, once it was written.
    pub open spec fn input(
        self,
        session_id: Seq<char>,
        data: Seq<char>,
        written: Result<(), Seq<char>>,
        now: u128,
    ) -> (RegistryView, Result<RecordView, Seq<char>>) {
        if data.len() == 0 {
            (self, self.session_record(session_id))
        } else {
            match written {
                Err(error) => (self, Err("failed to write terminal input: "@ + error)),
                Ok(_) => {
                    let after = self.touch(session_id, now);
                    (after, after.session_record(session_id))
                },
            }
        }
    }

    /// Resizing a session, given whether the terminal took the fitted size.
    pub open spec fn resize(
        self,
        session_id: Seq<char>,
        cols: u16,
        rows: u16,
        applied: Result<(), Seq<char>>,
        now: u128,
    ) -> (RegistryView, Result<RecordView, Seq<char>>) {
        match self.lookup(session_id) {
            Err(message) => (self, Err(message)),
            Ok(session) => match applied {
                Err(error) => (self, Err("failed to resize terminal: "@ + error)),
                Ok(_) => {
                    let size = fitted_size(cols, rows);
                    let record = RecordView {
                        cols: size.cols,
                        rows: size.rows,
                        updated_at: now,
                        ..session.record
                    };
                    (
                        self.put_record(session, record).broadcast("resized"@, record, None),
                        Ok(record),
                    )
                },
            },
        }
    }

    /// Renaming a session. The title is trimmed, and a blank one is refused.
    pub open spec fn rename(self, session_id: Seq<char>, title: Seq<char>, now: u128) -> (
        RegistryView,
        Result<RecordView, Seq<char>>,
    ) {
        match self.lookup(session_id) {
            Err(message) => (self, Err(message)),
            Ok(session) => if trimmed(title).len() == 0 {
                (self, Err("terminal title cannot be empty"@))
            } else {
                let record = RecordView {
                    title: trimmed(title),
                    updated_at: now,
                    ..session.record
                };
                (self.put_record(session, record).broadcast("renamed"@, record, None), Ok(record))
            },
        }
    }

    /// Output arriving from a session. Output of an unknown session is dropped.
    pub open spec fn append_output(
        self,
        session_id: Seq<char>,
        data: Seq<char>,
        now: u128,
    ) -> RegistryView {
        match self.lookup(session_id) {
            Err(_) => self,
            Ok(session) => {
                let record = RecordView { updated_at: now, ..session.record };
                self.put(
                    SessionView { record, output: ring_push(session.output, data) },
                ).broadcast("output"@, record, Some(data))
            },
        }
    }

    /// A session's process ending. An unknown session is ignored.
    pub open spec fn mark_finished(
        self,
        session_id: Seq<char>,
        exit_status: Option<u32>,
        finished: u128,
        updated: u128,
    ) -> RegistryView {
        match self.lookup(session_id) {
            Err(_) => self,
            Ok(session) => {
                let record = finished_record(session.record, exit_status, finished, updated);
                self.put_record(session, record).broadcast("exit"@, record, None)
            },
        }
    }

    /// Closing a session: it is marked as finished and then removed.
    pub open spec fn close(
        self,
        session_id: Seq<char>,
        exit_status: Option<u32>,
        finished: u128,
        updated: u128,
    ) -> (RegistryView, Result<RecordView, Seq<char>>) {
        match self.lookup(session_id) {
            Err(message) => (self, Err(message)),
            Ok(session) => {
                let record = finished_record(session.record, exit_status, finished, updated);
                let after = self.mark_finished(session_id, exit_status, finished, updated);
                (
                    RegistryView {
                        sessions: after.sessions.remove(trimmed(session_id)),
                        ..after
                    }.broadcast("closed"@, record, None),
                    Ok(record),
                )
            },
        }
    }

    /// The deliveries of closing the sessions that became `closed`, in order.
    pub open spec fn close_deliveries(self, closed: Seq<RecordView>) -> Seq<DeliveryView>
        decreases closed.len(),
    {
        if closed.len() == 0 {
            Seq::empty()
        } else {
            self.close_deliveries(closed.drop_last()).push(
                self.delivery("exit"@, closed.last(), None),
            ).push(self.delivery("closed"@, closed.last(), None))
        }
    }

    /// Whether closing `ids` in turn can lead to `after` and answer `r`. The
    /// sessions of the first ids were closed, and became `closed`. Then either
    /// the ids are at an end, or the next one names no session any more: its
    /// error is the answer, and nothing else happens.
    pub open spec fn closes_first(
        self,
        ids: Seq<Seq<char>>,
        exits: Seq<(Seq<char>, Option<u32>)>,
        closed: Seq<RecordView>,
        after: RegistryView,
        r: Result<Seq<RecordView>, Seq<char>>,
    ) -> bool {
        &&& closed.len() <= ids.len()
        &&& forall|i: int|
            0 <= i < closed.len() ==> {
                &&& (#[trigger] closed[i]).id == trimmed(ids[i])
                &&& self.sessions.contains_key(closed[i].id)
                &&& self.closed_as(exits, closed[i])
            }
        &&& forall|i: int, j: int|
            #![trigger closed[i], closed[j]]
            0 <= i < j < closed.len() ==> closed[i].id != closed[j].id
        &&& after == RegistryView {
            sessions: self.sessions.remove_keys(record_ids(closed).to_set()),
            outbox: self.outbox + self.close_deliveries(closed),
            ..self
        }
        &&& if closed.len() == ids.len() {
            r == Ok::<Seq<RecordView>, Seq<char>>(closed)
        } else {
            &&& after.lookup(ids[closed.len() as int]) matches Err(message)
            &&& r == Err::<Seq<RecordView>, Seq<char>>(message)
        }
    }

    /// Whether closing `ids` in turn, up to the first that fails, can lead to
    /// `after` and answer `r`.
    pub open spec fn closes_in_turn(
        self,
        ids: Seq<Seq<char>>,
        exits: Seq<(Seq<char>, Option<u32>)>,
        after: RegistryView,
        r: Result<Seq<RecordView>, Seq<char>>,
    ) -> bool {
        exists|closed: Seq<RecordView>| #[trigger]
            self.closes_first(ids, exits, closed, after, r)
    }

    /// Whether the id at `i` names a session that none of the ids before it
    /// names.
    pub open spec fn closable(self, ids: Seq<Seq<char>>, i: int) -> bool {
        &&& self.lookup(ids[i]) is Ok
        &&& forall|k: int| 0 <= k < i ==> trimmed(#[trigger] ids[k]) != trimmed(ids[i])
    }

    /// Whether closing the sessions `ids` can lead to `after` and answer
    /// `closed`: each of them once, as its record stands when it finished.
    pub open spec fn closes(
        self,
        ids: Set<Seq<char>>,
        exits: Seq<(Seq<char>, Option<u32>)>,
        after: RegistryView,
        closed: Seq<RecordView>,
    ) -> bool {
        &&& forall|i: int, j: int|
            #![trigger closed[i], closed[j]]
            0 <= i < j < closed.len() ==> closed[i].id != closed[j].id
        &&& forall|i: int|
            0 <= i < closed.len() ==> ids.contains((#[trigger] closed[i]).id)
                && self.closed_as(exits, closed[i])
        &&& forall|id: Seq<char>| #[trigger]
            ids.contains(id) ==> exists|i: int|
                0 <= i < closed.len() && (#[trigger] closed[i]).id == id
        &&& after == RegistryView {
            sessions: self.sessions.remove_keys(ids),
            outbox: self.outbox + self.close_deliveries(closed),
            ..self
        }
    }

    /// Whether `record` is what a session's record becomes when it is closed, at
    /// times that a clock showed.
    pub open spec fn closed_as(
        self,
        exits: Seq<(Seq<char>, Option<u32>)>,
        record: RecordView,
    ) -> bool {
        exists|finished: u128, updated: u128|
            is_clock_reading(finished) && is_clock_reading(updated) && record
                == #[trigger] finished_record(
                self.sessions[record.id].record,
                observed_status(exits, record.id),
                finished,
                updated,
            )
    }

    /// Whether `r` answers a request for the tail of a project's terminal. With
    /// no id the project's only session is meant; among several one must be
    /// named, and it must belong to the project.
    pub open spec fn answers_read_tail(
        self,
        project_path_key: Seq<char>,
        session_id: Option<Seq<char>>,
        max_bytes: Option<usize>,
        r: Result<ReadTailView, Seq<char>>,
    ) -> bool {
        let key = trimmed(project_path_key);
        let ids = self.project_ids(key);
        if key.len() == 0 {
            r == Err::<ReadTailView, Seq<char>>("project_path_key is required"@)
        } else if ids.len() == 0 {
            r == Ok::<ReadTailView, Seq<char>>(
                ReadTailView {
                    sessions: Seq::empty(),
                    selected_session: None,
                    output: Seq::empty(),
                    truncated: false,
                },
            )
        } else if requested_text(session_id) is None && ids.len() > 1 {
            &&& r matches Ok(tail)
            &&& self.is_listing(Some(key), tail.sessions)
            &&& tail.selected_session is None
            &&& tail.output == Seq::<char>::empty()
            &&& !tail.truncated
        } else {
            let selected = match requested_text(session_id) {
                Some(id) => id,
                None => ids.choose(),
            };
            match self.snapshot(selected, max_bytes) {
                Err(message) => r == Err::<ReadTailView, Seq<char>>(message),
                Ok(snapshot) => if snapshot.session.project_path_key != key {
                    r == Err::<ReadTailView, Seq<char>>(
                        "terminal session is outside the current project"@,
                    )
                } else {
                    &&& r matches Ok(tail)
                    &&& self.is_listing(Some(key), tail.sessions)
                    &&& tail.selected_session == Some(snapshot.session)
                    &&& tail.output == snapshot.output
                    &&& tail.truncated == snapshot.truncated
                },
            }
        }
    }
}

} // verus!
