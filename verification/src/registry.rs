//! The registry of terminal sessions.

use std::collections::VecDeque;

use vstd::prelude::*;
use vstd::utf8::*;

use crate::host::{
    decode_output, is_clock_reading, is_lower_hex, is_uuid_text, new_session_id, now_ms,
    utf8_lossy,
};
use crate::index::{
    distinct_ids, has_id, lemma_session_count, lemma_session_map, lemma_session_map_push,
    lemma_session_map_remove, lemma_session_map_update, session_map,
};
use crate::launch::{
    fit_size, fitted_size, opt_command, plan_launch, terminate_process_tree_best_effort,
    termination, workspace_project_path_key, LaunchFailure, LaunchStage, ProcessCommand, TerminalSize,
};
use crate::listing::{in_order, insert_in_order, law_listing_length};
use crate::model::{
    finished_record, in_project, is_clean_text, numbered_title, observed_status, other_than,
    record_ids, requested_text, ring_push, session_valid, RegistryView, SessionView, MAX_RING_CHUNKS,
    MAX_TAIL_BYTES,
};
use crate::shell::{Platform, ShellHost};
use crate::tail::{byte_tail, read_output_chunks_tail, tail_truncated};
use crate::text::{
    decimal, decimal_digits, join, law_trimmed_idempotent, lemma_decimal_digits,
    lemma_trimmed_fixed, texts, trimmed,
};
use crate::types::{
    list_result, opt_text, record_result, record_views, snapshot_result, DeliveryView, ReadTailView,
    RecordView, TerminalDelivery, TerminalEvent, TerminalEventPayload, TerminalListResponse,
    TerminalReadTailResponse, TerminalSessionRecord, TerminalSnapshotResponse,
};
use crate::workdir::workdir_result;

verus! {

/// A session: its record and the output that it keeps.
#[derive(Debug)]
struct TerminalSessionEntry {
    record: TerminalSessionRecord,
    output: VecDeque<String>,
}

impl View for TerminalSessionEntry {
    type V = SessionView;

    closed spec fn view(&self) -> SessionView {
        SessionView { record: self.record@, output: texts(self.output@) }
    }
}

/// The terminal sessions of all projects, those who listen to them, and the
/// events that are still to be delivered.
#[derive(Debug)]
pub struct TerminalSessionRegistry {
    sessions: Vec<TerminalSessionEntry>,
    app_attached: bool,
    subscribers: Vec<usize>,
    next_subscriber_id: usize,
    outbox: Vec<TerminalDelivery>,
}

/// The right to receive events under a subscriber id.
#[derive(Debug)]
pub struct TerminalSubscriberGuard {
    id: usize,
}

impl TerminalSubscriberGuard {
    /// The subscriber id as a value of the specification.
    pub closed spec fn subscriber(&self) -> usize {
        self.id
    }

    /// The id under which deliveries name this subscriber.
    pub fn id(&self) -> (r: usize)
        ensures
            r == self.subscriber(),
    {
        self.id
    }
}

/// Input that was accepted for a session.
#[derive(Debug)]
pub struct InputPlan {
    pub session_id: String,
    pub data: String,
}

/// The view of the outcome of outside work.
pub open spec fn unit_result(r: Result<(), String>) -> Result<(), Seq<char>> {
    match r {
        Ok(_) => Ok(()),
        Err(e) => Err(e@),
    }
}

/// The view of the outcome of a launch.
pub open spec fn launch_result(r: Result<Option<u32>, LaunchFailure>) -> Result<
    Option<u32>,
    (LaunchStage, Seq<char>),
> {
    match r {
        Ok(pid) => Ok(pid),
        Err(failure) => Err((failure.stage, failure.error@)),
    }
}

/// What was observed of a session's process: its exit status, none while it
/// runs.
#[derive(Debug)]
pub struct SessionExit {
    pub session_id: String,
    pub exit_status: Option<u32>,
}

/// The views of observed exits.
pub open spec fn exit_views(exits: Seq<SessionExit>) -> Seq<(Seq<char>, Option<u32>)> {
    exits.map_values(|e: SessionExit| (e.session_id@, e.exit_status))
}

/// How to stop the processes of a session.
#[derive(Debug)]
pub struct SessionTermination {
    pub session_id: String,
    pub command: Option<ProcessCommand>,
}

/// The sessions that are to be stopped.
pub open spec fn terminated_ids(stops: Seq<SessionTermination>) -> Seq<String> {
    stops.map_values(|t: SessionTermination| t.session_id)
}

/// Whether `names` holds exactly `ids`, each once.
pub open spec fn names_ids(names: Seq<String>, ids: Set<Seq<char>>) -> bool {
    texts(names).no_duplicates() && texts(names).to_set() == ids
}

/// The view of the answer to a request for a tail.
pub open spec fn read_tail_result(r: Result<TerminalReadTailResponse, String>) -> Result<
    ReadTailView,
    Seq<char>,
> {
    match r {
        Ok(x) => Ok(x@),
        Err(e) => Err(e@),
    }
}

spec fn entry_views(entries: Seq<TerminalSessionEntry>) -> Seq<SessionView> {
    entries.map_values(|e: TerminalSessionEntry| e@)
}

/// The views of deliveries.
pub open spec fn delivery_views(deliveries: Seq<TerminalDelivery>) -> Seq<DeliveryView> {
    deliveries.map_values(|d: TerminalDelivery| d@)
}

impl View for TerminalSessionRegistry {
    type V = RegistryView;

    closed spec fn view(&self) -> RegistryView {
        RegistryView {
            sessions: session_map(entry_views(self.sessions@)),
            app_attached: self.app_attached,
            subscribers: self.subscribers@,
            next_subscriber_id: self.next_subscriber_id,
            outbox: delivery_views(self.outbox@),
        }
    }
}

impl TerminalSessionRegistry {
    /// No two sessions share an id.
    pub closed spec fn indexed(&self) -> bool {
        distinct_ids(entry_views(self.sessions@))
    }

    /// What holds of every registry.
    pub open spec fn wf(&self) -> bool {
        self.indexed() && self@.valid()
    }

    /// Finds the session that a request names.
    fn entry(&self, session_id: &str) -> (r: Result<usize, String>)
        requires
            self.wf(),
        ensures
            match r {
                Ok(i) => {
                    &&& i < self.sessions@.len()
                    &&& self@.lookup(session_id@) == Ok::<SessionView, Seq<char>>(
                        self.sessions@[i as int]@,
                    )
                    &&& self.sessions@[i as int].record.id@ == trimmed(session_id@)
                    &&& session_valid(trimmed(session_id@), self.sessions@[i as int]@)
                },
                Err(message) => self@.lookup(session_id@) == Err::<SessionView, Seq<char>>(
                    message@,
                ),
            },
    {
        let id = session_id.trim().to_owned();
        let ghost views = entry_views(self.sessions@);
        if id.as_str().is_empty() {
            return Err("terminal_id is required".to_owned());
        }
        proof {
            lemma_session_map(views);
        }
        let mut i: usize = 0;
        while i < self.sessions.len()
            invariant
                self.wf(),
                views == entry_views(self.sessions@),
                id@ == trimmed(session_id@),
                id@.len() > 0,
                i <= self.sessions@.len(),
                forall|j: int|
                    0 <= j < i ==> (#[trigger] self.sessions@[j]).record.id@ != id@,
                forall|j: int|
                    #![trigger views[j]]
                    0 <= j < views.len() ==> {
                        &&& session_map(views).contains_key(views[j].record.id)
                        &&& session_map(views)[views[j].record.id] == views[j]
                    },
            decreases self.sessions@.len() - i,
        {
            if self.sessions[i].record.id == id {
                proof {
                    assert(views[i as int] == self.sessions@[i as int]@);
                }
                return Ok(i);
            }
            i = i + 1;
        }
        proof {
            if self@.sessions.contains_key(id@) {
                let k = choose|k: int| has_id(views, k, id@);
                assert(views[k] == self.sessions@[k]@);
            }
        }
        Err(join("terminal session not found: ", id.as_str()))
    }

    /// The record of a session.
    pub fn session_record(&self, session_id: String) -> (r: Result<TerminalSessionRecord, String>)
        requires
            self.wf(),
        ensures
            record_result(r) == self@.session_record(session_id@),
    {
        self.record(session_id.as_str())
    }

    fn record(&self, session_id: &str) -> (r: Result<TerminalSessionRecord, String>)
        requires
            self.wf(),
        ensures
            record_result(r) == self@.session_record(session_id@),
    {
        match self.entry(session_id) {
            Ok(i) => Ok(self.sessions[i].record.clone()),
            Err(message) => Err(message),
        }
    }

    /// The record of a session and the tail of its output.
    pub fn snapshot(&self, session_id: String, max_bytes: Option<usize>) -> (r: Result<
        TerminalSnapshotResponse,
        String,
    >)
        requires
            self.wf(),
        ensures
            snapshot_result(r) == self@.snapshot(session_id@, max_bytes),
    {
        match self.entry(session_id.as_str()) {
            Err(message) => Err(message),
            Ok(i) => {
                let max: usize = match max_bytes {
                    Some(n) => n,
                    None => MAX_TAIL_BYTES,
                };
                let (output, truncated) = read_output_chunks_tail(&self.sessions[i].output, max);
                Ok(
                    TerminalSnapshotResponse {
                        session: self.sessions[i].record.clone(),
                        output,
                        truncated,
                    },
                )
            },
        }
    }

    /// Queues an event about a session for everyone who listens now.
    fn broadcast(&mut self, kind: &str, record: &TerminalSessionRecord, data: Option<String>)
        requires
            old(self).wf(),
        ensures
            final(self).wf(),
            final(self)@ == old(self)@.broadcast(kind@, record@, opt_text(data)),
            final(self).sessions == old(self).sessions,
    {
        let payload = TerminalEventPayload {
            kind: kind.to_owned(),
            session_id: record.id.clone(),
            project_path_key: record.project_path_key.clone(),
            session: record.clone(),
            data,
        };
        let delivery = TerminalDelivery {
            event: TerminalEvent { payload },
            to_app: self.app_attached,
            subscribers: self.subscribers.clone(),
        };
        self.outbox.push(delivery);
        proof {
            assert(delivery@.subscribers =~= old(self).subscribers@);
            assert(self@.outbox =~= old(self)@.outbox.push(delivery@));
        }
    }

    /// Replaces the record of the session at `i`.
    fn put_record(&mut self, i: usize, record: TerminalSessionRecord)
        requires
            old(self).wf(),
            i < old(self).sessions@.len(),
            session_valid(
                old(self).sessions@[i as int].record.id@,
                SessionView { record: record@, output: old(self).sessions@[i as int]@.output },
            ),
        ensures
            final(self).wf(),
            final(self)@ == old(self)@.put_record(old(self).sessions@[i as int]@, record@),
            final(self).sessions@.len() == old(self).sessions@.len(),
            final(self).sessions@[i as int].record@ == record@,
    {
        let ghost before = entry_views(self.sessions@);
        self.sessions[i].record = record;
        proof {
            let session = SessionView { record: record@, output: before[i as int].output };
            assert(entry_views(self.sessions@) =~= before.update(i as int, session));
            lemma_session_map_update(before, i as int, session);
            lemma_put_valid(old(self)@, session);
        }
    }

    /// Renames a session at the time `now`.
    pub fn rename_at(&mut self, session_id: String, title: String, now: u128) -> (r: Result<
        TerminalSessionRecord,
        String,
    >)
        requires
            old(self).wf(),
        ensures
            final(self).wf(),
            (final(self)@, record_result(r)) == old(self)@.rename(session_id@, title@, now),
    {
        match self.entry(session_id.as_str()) {
            Err(message) => Err(message),
            Ok(i) => {
                let next_title = title.as_str().trim();
                if next_title.is_empty() {
                    return Err("terminal title cannot be empty".to_owned());
                }
                let mut record = self.sessions[i].record.clone();
                record.title = next_title.to_owned();
                record.updated_at = now;
                proof {
                    law_trimmed_idempotent(title@);
                }
                self.put_record(i, record.clone());
                self.broadcast("renamed", &record, None);
                Ok(record)
            },
        }
    }

    /// Renames a session.
    pub fn rename(&mut self, session_id: String, title: String) -> (r: Result<
        TerminalSessionRecord,
        String,
    >)
        requires
            old(self).wf(),
        ensures
            final(self).wf(),
            exists|now: u128|
                is_clock_reading(now)
                    && (final(self)@, record_result(r)) == #[trigger] old(self)@.rename(
                    session_id@,
                    title@,
                    now,
                ),
    {
        self.rename_at(session_id, title, now_ms())
    }

    /// The size that a request to resize a session should be given.
    pub fn plan_resize(&self, session_id: &str, cols: u16, rows: u16) -> (r: Result<
        TerminalSize,
        String,
    >)
        requires
            self.wf(),
        ensures
            match self@.lookup(session_id@) {
                Ok(_) => r == Ok::<TerminalSize, String>(fitted_size(cols, rows)),
                Err(message) => r matches Err(m) && m@ == message,
            },
    {
        match self.entry(session_id) {
            Err(message) => Err(message),
            Ok(_) => Ok(fit_size(cols, rows)),
        }
    }

    /// Resizes a session at the time `now`, given whether its terminal took the
    /// size of [`TerminalSessionRegistry::plan_resize`].
    pub fn resize_at(
        &mut self,
        session_id: String,
        cols: u16,
        rows: u16,
        applied: Result<(), String>,
        now: u128,
    ) -> (r: Result<TerminalSessionRecord, String>)
        requires
            old(self).wf(),
        ensures
            final(self).wf(),
            (final(self)@, record_result(r)) == old(self)@.resize(
                session_id@,
                cols,
                rows,
                unit_result(applied),
                now,
            ),
    {
        match self.entry(session_id.as_str()) {
            Err(message) => Err(message),
            Ok(i) => {
                if let Err(error) = applied {
                    return Err(join("failed to resize terminal: ", error.as_str()));
                }
                let size = fit_size(cols, rows);
                let mut record = self.sessions[i].record.clone();
                record.cols = size.cols;
                record.rows = size.rows;
                record.updated_at = now;
                self.put_record(i, record.clone());
                self.broadcast("resized", &record, None);
                Ok(record)
            },
        }
    }

    /// Resizes a session, given whether its terminal took the size of
    /// [`TerminalSessionRegistry::plan_resize`].
    pub fn resize(
        &mut self,
        session_id: String,
        cols: u16,
        rows: u16,
        applied: Result<(), String>,
    ) -> (r: Result<TerminalSessionRecord, String>)
        requires
            old(self).wf(),
        ensures
            final(self).wf(),
            exists|now: u128|
                is_clock_reading(now)
                    && (final(self)@, record_result(r)) == #[trigger] old(self)@.resize(
                    session_id@,
                    cols,
                    rows,
                    unit_result(applied),
                    now,
                ),
    {
        self.resize_at(session_id, cols, rows, applied, now_ms())
    }

    /// Decides whether input goes to a session. What is accepted is written by
    /// the caller, unless it is empty, and then handed to
    /// [`TerminalSessionRegistry::input`].
    pub fn plan_input(&self, session_id: String, data: String) -> (r: Result<InputPlan, String>)
        requires
            self.wf(),
        ensures
            match self@.input_refusal(session_id@, data@) {
                Some(message) => r matches Err(m) && m@ == message,
                None => r matches Ok(plan) && plan.session_id@ == session_id@ && plan.data@
                    == data@,
            },
    {
        if !data.as_str().is_empty() {
            match self.entry(session_id.as_str()) {
                Err(message) => {
                    return Err(message);
                },
                Ok(i) => {
                    if !self.sessions[i].record.running {
                        return Err("terminal session is not running".to_owned());
                    }
                },
            }
        }
        Ok(InputPlan { session_id, data })
    }

    /// Marks a session as used at the time `now`.
    fn touch(&mut self, session_id: &str, now: u128)
        requires
            old(self).wf(),
        ensures
            final(self).wf(),
            final(self)@ == old(self)@.touch(session_id@, now),
    {
        if let Ok(i) = self.entry(session_id) {
            let mut record = self.sessions[i].record.clone();
            record.updated_at = now;
            self.put_record(i, record);
        }
    }

    /// Finishes accepted input at the time `now`, given whether it was written.
    pub fn input_at(&mut self, plan: InputPlan, written: Result<(), String>, now: u128) -> (r:
        Result<TerminalSessionRecord, String>)
        requires
            old(self).wf(),
        ensures
            final(self).wf(),
            (final(self)@, record_result(r)) == old(self)@.input(
                plan.session_id@,
                plan.data@,
                unit_result(written),
                now,
            ),
    {
        if !plan.data.as_str().is_empty() {
            if let Err(error) = written {
                return Err(join("failed to write terminal input: ", error.as_str()));
            }
            self.touch(plan.session_id.as_str(), now);
        }
        self.record(plan.session_id.as_str())
    }

    /// Finishes accepted input, given whether it was written.
    pub fn input(&mut self, plan: InputPlan, written: Result<(), String>) -> (r: Result<
        TerminalSessionRecord,
        String,
    >)
        requires
            old(self).wf(),
        ensures
            final(self).wf(),
            exists|now: u128|
                is_clock_reading(now)
                    && (final(self)@, record_result(r)) == #[trigger] old(self)@.input(
                    plan.session_id@,
                    plan.data@,
                    unit_result(written),
                    now,
                ),
    {
        self.input_at(plan, written, now_ms())
    }

    /// Takes output of a session at the time `now`.
    pub fn append_output_at(&mut self, session_id: &str, data: String, now: u128)
        requires
            old(self).wf(),
        ensures
            final(self).wf(),
            final(self)@ == old(self)@.append_output(session_id@, data@, now),
    {
        if let Ok(i) = self.entry(session_id) {
            let ghost before = entry_views(self.sessions@);
            let ghost chunks = self.sessions@[i as int].output@;
            let ghost texts_before = texts(chunks);
            self.sessions[i].output.push_back(data.clone());
            if self.sessions[i].output.len() > MAX_RING_CHUNKS {
                self.sessions[i].output.pop_front();
            }
            self.sessions[i].record.updated_at = now;
            let record = self.sessions[i].record.clone();
            proof {
                let session = SessionView {
                    record: RecordView { updated_at: now, ..before[i as int].record },
                    output: ring_push(texts_before, data@),
                };
                assert(texts(self.sessions@[i as int].output@) =~= session.output);
                assert(entry_views(self.sessions@) =~= before.update(i as int, session));
                lemma_session_map_update(before, i as int, session);
                lemma_put_valid(old(self)@, session);
            }
            self.broadcast("output", &record, Some(data));
        }
    }

    /// Takes output of a session.
    pub fn append_output(&mut self, session_id: &str, data: String)
        requires
            old(self).wf(),
        ensures
            final(self).wf(),
            exists|now: u128|
                is_clock_reading(now)
                    && final(self)@ == #[trigger] old(self)@.append_output(session_id@, data@, now),
    {
        self.append_output_at(session_id, data, now_ms())
    }

    /// Handles what reading a session's terminal gave: `read` is the number of
    /// bytes now at the start of `buffer`, none where reading failed. Returns
    /// whether to read on.
    pub fn pump_output(&mut self, session_id: &str, buffer: &[u8], read: Option<usize>) -> (r: bool)
        requires
            old(self).wf(),
            read matches Some(n) ==> n <= buffer@.len(),
        ensures
            final(self).wf(),
            match read {
                Some(n) if n > 0 => {
                    let bytes = buffer@.take(n as int);
                    &&& r
                    &&& exists|now: u128|
                        is_clock_reading(now)
                            && final(self)@ == #[trigger] old(self)@.append_output(
                            session_id@,
                            utf8_lossy(bytes),
                            now,
                        )
                    &&& valid_utf8(bytes) ==> utf8_lossy(bytes) == decode_utf8(bytes)
                },
                _ => !r && final(self)@ == old(self)@,
            },
            r <==> read is Some && read->Some_0 >= 1,
            !r ==> final(self)@ == old(self)@,
    {
        match read {
            None => false,
            Some(n) => {
                if n == 0 {
                    return false;
                }
                let bytes = vstd::slice::slice_subrange(buffer, 0, n);
                proof {
                    assert(bytes@ =~= buffer@.take(n as int));
                }
                self.append_output(session_id, decode_output(bytes));
                true
            },
        }
    }

    /// Marks the session at `i` as finished and tells so.
    fn finish(&mut self, i: usize, exit_status: Option<u32>, finished: u128, updated: u128) -> (r:
        TerminalSessionRecord)
        requires
            old(self).wf(),
            i < old(self).sessions@.len(),
            session_valid(
                old(self).sessions@[i as int].record.id@,
                old(self).sessions@[i as int]@,
            ),
        ensures
            final(self).wf(),
            final(self).sessions@.len() == old(self).sessions@.len(),
            final(self).sessions@[i as int].record@ == r@,
            r@ == finished_record(
                old(self).sessions@[i as int].record@,
                exit_status,
                finished,
                updated,
            ),
            final(self)@ == old(self)@.put_record(
                old(self).sessions@[i as int]@,
                r@,
            ).broadcast("exit"@, r@, None),
    {
        let mut record = self.sessions[i].record.clone();
        if record.running {
            record.running = false;
            record.finished_at = Some(finished);
            record.exit_code = match exit_status {
                Some(status) => {
                    assert(status > 0x7fff_ffff ==> status as i32 == status - 0x1_0000_0000)
                        by (bit_vector);
                    Some(status as i32)
                },
                None => None,
            };
            record.updated_at = updated;
        }
        self.put_record(i, record.clone());
        self.broadcast("exit", &record, None);
        record
    }

    /// Marks a session as finished, at the given times.
    pub fn mark_finished_at(
        &mut self,
        session_id: &str,
        exit_status: Option<u32>,
        finished: u128,
        updated: u128,
    )
        requires
            old(self).wf(),
        ensures
            final(self).wf(),
            final(self)@ == old(self)@.mark_finished(session_id@, exit_status, finished, updated),
    {
        if let Ok(i) = self.entry(session_id) {
            let _ = self.finish(i, exit_status, finished, updated);
        }
    }

    /// Marks a session as finished, given the exit status of its process.
    pub fn mark_finished(&mut self, session_id: &str, exit_status: Option<u32>)
        requires
            old(self).wf(),
        ensures
            final(self).wf(),
            exists|finished: u128, updated: u128|
                is_clock_reading(finished) && is_clock_reading(updated)
                    && final(self)@ == #[trigger] old(self)@.mark_finished(
                    session_id@,
                    exit_status,
                    finished,
                    updated,
                ),
    {
        let finished: u128 = now_ms();
        let updated: u128 = now_ms();
        self.mark_finished_at(session_id, exit_status, finished, updated)
    }

    /// Closes a session at the given times.
    pub fn close_at(
        &mut self,
        session_id: String,
        exit_status: Option<u32>,
        finished: u128,
        updated: u128,
    ) -> (r: Result<TerminalSessionRecord, String>)
        requires
            old(self).wf(),
        ensures
            final(self).wf(),
            (final(self)@, record_result(r)) == old(self)@.close(
                session_id@,
                exit_status,
                finished,
                updated,
            ),
    {
        match self.entry(session_id.as_str()) {
            Err(message) => Err(message),
            Ok(i) => {
                let record = self.finish(i, exit_status, finished, updated);
                let ghost before = entry_views(self.sessions@);
                let ghost marked = self@;
                self.sessions.remove(i);
                proof {
                    assert(entry_views(self.sessions@) =~= before.remove(i as int));
                    lemma_session_map_remove(before, i as int);
                    assert(self@ =~= RegistryView {
                        sessions: marked.sessions.remove(trimmed(session_id@)),
                        ..marked
                    });
                }
                self.broadcast("closed", &record, None);
                Ok(record)
            },
        }
    }

    /// Closes a session, given the exit status of its process.
    pub fn close(&mut self, session_id: String, exit_status: Option<u32>) -> (r: Result<
        TerminalSessionRecord,
        String,
    >)
        requires
            old(self).wf(),
        ensures
            final(self).wf(),
            exists|finished: u128, updated: u128|
                is_clock_reading(finished) && is_clock_reading(updated)
                    && (final(self)@, record_result(r)) == #[trigger] old(self)@.close(
                    session_id@,
                    exit_status,
                    finished,
                    updated,
                ),
    {
        let finished: u128 = now_ms();
        let updated: u128 = now_ms();
        self.close_at(session_id, exit_status, finished, updated)
    }

    /// The sessions of a project, or all of them, by project and then by time of
    /// creation.
    pub fn list(&self, project_path_key: Option<String>) -> (r: TerminalListResponse)
        requires
            self.wf(),
        ensures
            self@.is_listing(requested_text(opt_text(project_path_key)), r@),
    {
        let mut project: Option<String> = None;
        if let Some(key) = project_path_key {
            let key = workspace_project_path_key(key.as_str());
            if !key.as_str().is_empty() {
                project = Some(key);
            }
        }
        let ghost wanted = opt_text(project);
        let ghost views = entry_views(self.sessions@);
        let mut sessions: Vec<TerminalSessionRecord> = Vec::new();
        let mut i: usize = 0;
        while i < self.sessions.len()
            invariant
                self.wf(),
                wanted == opt_text(project),
                views == entry_views(self.sessions@),
                i <= self.sessions@.len(),
                in_order(record_views(sessions@)),
                forall|record: RecordView| #[trigger]
                    record_views(sessions@).contains(record) <==> exists|j: int|
                        0 <= j < i && (#[trigger] views[j]).record == record && in_project(
                            wanted,
                            record,
                        ),
            decreases self.sessions@.len() - i,
        {
            let record = &self.sessions[i].record;
            let matches = match &project {
                Some(key) => record.project_path_key == *key,
                None => true,
            };
            assert(views[i as int].record == record@);
            let ghost before = record_views(sessions@);
            if matches {
                proof {
                    assert forall|k: int| 0 <= k < before.len() implies (#[trigger] before[k]).id
                        != record@.id by {
                        assert(before.contains(before[k]));
                        let j = choose|j: int|
                            0 <= j < i && (#[trigger] views[j]).record == before[k] && in_project(
                                wanted,
                                before[k],
                            );
                        assert(views[j].record.id != views[i as int].record.id);
                    }
                }
                insert_in_order(&mut sessions, record.clone());
            }
            proof {
                assert forall|x: RecordView| #[trigger]
                    record_views(sessions@).contains(x) <==> exists|j: int|
                        0 <= j < i + 1 && (#[trigger] views[j]).record == x && in_project(
                            wanted,
                            x,
                        ) by {
                    if before.contains(x) {
                        let j = choose|j: int|
                            0 <= j < i && (#[trigger] views[j]).record == x && in_project(
                                wanted,
                                x,
                            );
                        assert(views[j].record == x);
                    }
                    if exists|j: int|
                        0 <= j < i + 1 && (#[trigger] views[j]).record == x && in_project(
                            wanted,
                            x,
                        ) {
                        let j = choose|j: int|
                            0 <= j < i + 1 && (#[trigger] views[j]).record == x && in_project(
                                wanted,
                                x,
                            );
                        if j < i {
                            assert(before.contains(x));
                        }
                    }
                }
            }
            i = i + 1;
        }
        proof {
            lemma_session_map(views);
            let out = record_views(sessions@);
            assert forall|record: RecordView| #[trigger]
                out.contains(record) <==> self@.sessions.contains_key(record.id)
                    && self@.sessions[record.id].record == record && in_project(wanted, record) by {
                if out.contains(record) {
                    let j = choose|j: int|
                        0 <= j < i && (#[trigger] views[j]).record == record && in_project(
                            wanted,
                            record,
                        );
                    assert(views[j].record == record);
                }
                if self@.sessions.contains_key(record.id) && self@.sessions[record.id].record
                    == record && in_project(wanted, record) {
                    let j = choose|j: int| has_id(views, j, record.id);
                    assert(views[j].record == record);
                }
            }
        }
        TerminalListResponse { sessions }
    }

    /// How many sessions run.
    pub fn running_session_count(&self) -> (r: usize)
        requires
            self.wf(),
        ensures
            r == self@.running_ids().len(),
    {
        let ghost views = entry_views(self.sessions@);
        let ghost p = |s: SessionView| s.record.running;
        let mut count: usize = 0;
        let mut i: usize = 0;
        proof {
            reveal(Seq::filter);
            assert(views.take(0).filter(p).len() == 0);
        }
        while i < self.sessions.len()
            invariant
                views == entry_views(self.sessions@),
                p == (|s: SessionView| s.record.running),
                count <= i <= self.sessions@.len(),
                count == views.take(i as int).filter(p).len(),
            decreases self.sessions@.len() - i,
        {
            proof {
                reveal(Seq::filter);
                assert(views.take(i + 1).drop_last() =~= views.take(i as int));
                assert(views[i as int].record == self.sessions@[i as int].record@);
            }
            if self.sessions[i].record.running {
                count = count + 1;
            }
            i = i + 1;
        }
        proof {
            assert(views.take(i as int) =~= views);
            lemma_session_count(views, p);
            assert(self@.running_ids() =~= session_map(views).dom().filter(
                |id: Seq<char>| p(session_map(views)[id]),
            ));
        }
        count
    }

    /// How many sessions a project has.
    fn project_session_count(&self, project_path_key: &String) -> (r: usize)
        requires
            self.wf(),
        ensures
            r == self@.project_ids(project_path_key@).len(),
    {
        let ghost views = entry_views(self.sessions@);
        let ghost key = project_path_key@;
        let ghost p = |s: SessionView| s.record.project_path_key == key;
        let mut count: usize = 0;
        let mut i: usize = 0;
        proof {
            reveal(Seq::filter);
            assert(views.take(0).filter(p).len() == 0);
        }
        while i < self.sessions.len()
            invariant
                views == entry_views(self.sessions@),
                key == project_path_key@,
                p == (|s: SessionView| s.record.project_path_key == key),
                count <= i <= self.sessions@.len(),
                count == views.take(i as int).filter(p).len(),
            decreases self.sessions@.len() - i,
        {
            proof {
                reveal(Seq::filter);
                assert(views.take(i + 1).drop_last() =~= views.take(i as int));
                assert(views[i as int].record == self.sessions@[i as int].record@);
            }
            if self.sessions[i].record.project_path_key == *project_path_key {
                count = count + 1;
            }
            i = i + 1;
        }
        proof {
            assert(views.take(i as int) =~= views);
            lemma_session_count(views, p);
            assert(self@.project_ids(key) =~= session_map(views).dom().filter(
                |id: Seq<char>| p(session_map(views)[id]),
            ));
        }
        count
    }

    /// The title of a new session of a project where none is given.
    pub fn next_terminal_title(&self, project_path_key: &String) -> (r: String)
        requires
            self.wf(),
        ensures
            r@ == numbered_title(self@.project_ids(project_path_key@).len() + 1),
    {
        let count: usize = self.project_session_count(project_path_key);
        let number = decimal(count as u128 + 1);
        join("Terminal ", number.as_str())
    }

    /// Enters a session in place of any with its id.
    fn put_session(&mut self, entry: TerminalSessionEntry)
        requires
            old(self).wf(),
            session_valid(entry.record.id@, entry@),
        ensures
            final(self).wf(),
            final(self)@ == old(self)@.put(entry@),
    {
        let ghost before = entry_views(self.sessions@);
        proof {
            lemma_put_valid(self@, entry@);
        }
        match self.entry(entry.record.id.as_str()) {
            Ok(i) => {
                self.sessions[i] = entry;
                proof {
                    assert(entry_views(self.sessions@) =~= before.update(i as int, entry@));
                    lemma_session_map_update(before, i as int, entry@);
                }
            },
            Err(_) => {
                self.sessions.push(entry);
                proof {
                    assert(entry_views(self.sessions@) =~= before.push(entry@));
                    lemma_session_map_push(before, entry@);
                }
            },
        }
    }

    /// Creates a session under the id `id` at the time `now`. `workdir`
    /// is what the request for the directory came to: the canonical path, or why
    /// it was refused. `launched` tells how launching what [`plan_launch`] plans
    /// for the same request went, and with which process.
    pub fn create_at(
        &mut self,
        workdir: Result<String, String>,
        project_path_key: Option<String>,
        shell: Option<String>,
        title: Option<String>,
        cols: Option<u16>,
        rows: Option<u16>,
        host: &ShellHost,
        launched: Result<Option<u32>, LaunchFailure>,
        id: String,
        now: u128,
    ) -> (r: Result<TerminalSnapshotResponse, String>)
        requires
            old(self).wf(),
            is_clean_text(id@),
        ensures
            final(self).wf(),
            (final(self)@, snapshot_result(r)) == old(self)@.create(
                workdir_result(workdir),
                opt_text(project_path_key),
                opt_text(shell),
                opt_text(title),
                cols,
                rows,
                host@,
                launch_result(launched),
                id@,
                now,
            ),
    {
        let plan = match plan_launch(workdir, project_path_key, shell, cols, rows, host) {
            Ok(plan) => plan,
            Err(message) => {
                return Err(message);
            },
        };
        let pid: Option<u32> = match launched {
            Ok(pid) => pid,
            Err(failure) => {
                return Err(failure.message());
            },
        };
        let mut new_title = String::new();
        if let Some(text) = title {
            new_title = text.as_str().trim().to_owned();
            proof {
                law_trimmed_idempotent(text@);
            }
        }
        if new_title.as_str().is_empty() {
            new_title = self.next_terminal_title(&plan.project_path_key);
            proof {
                lemma_numbered_title_clean(self@.project_ids(plan.project_path_key@).len() + 1);
            }
        }
        let record = TerminalSessionRecord {
            id,
            project_path_key: plan.project_path_key,
            cwd: plan.cwd,
            shell: plan.shell.label,
            title: new_title,
            pid,
            cols: plan.size.cols,
            rows: plan.size.rows,
            created_at: now,
            updated_at: now,
            finished_at: None,
            exit_code: None,
            running: true,
        };
        let output: VecDeque<String> = VecDeque::new();
        let entry = TerminalSessionEntry { record: record.clone(), output };
        proof {
            assert(entry@.output =~= Seq::<Seq<char>>::empty());
            if let Some(key) = opt_text(project_path_key) {
                law_trimmed_idempotent(key);
            }
            law_trimmed_idempotent(plan.cwd@);
            assert(entry@.record == record@);
        }
        self.put_session(entry);
        self.broadcast("created", &record, None);
        proof {
            lemma_no_output(MAX_TAIL_BYTES as nat);
        }
        self.snapshot(record.id, Some(MAX_TAIL_BYTES))
    }

    /// Creates a session under a fresh random id. See
    /// [`TerminalSessionRegistry::create_at`].
    pub fn create(
        &mut self,
        workdir: Result<String, String>,
        project_path_key: Option<String>,
        shell: Option<String>,
        title: Option<String>,
        cols: Option<u16>,
        rows: Option<u16>,
        host: &ShellHost,
        launched: Result<Option<u32>, LaunchFailure>,
    ) -> (r: Result<TerminalSnapshotResponse, String>)
        requires
            old(self).wf(),
        ensures
            final(self).wf(),
            exists|id: Seq<char>, now: u128|
                is_uuid_text(id) && is_clock_reading(now)
                    && (final(self)@, snapshot_result(r))
                    == #[trigger] old(self)@.create(
                    workdir_result(workdir),
                    opt_text(project_path_key),
                    opt_text(shell),
                    opt_text(title),
                    cols,
                    rows,
                    host@,
                    launch_result(launched),
                    id,
                    now,
                ),
    {
        let id = new_session_id();
        proof {
            lemma_uuid_clean(id@);
        }
        self.create_at(
            workdir,
            project_path_key,
            shell,
            title,
            cols,
            rows,
            host,
            launched,
            id,
            now_ms(),
        )
    }

    /// Notes that an application is there to receive events.
    pub fn attach_app_handle(&mut self)
        requires
            old(self).wf(),
        ensures
            final(self).wf(),
            final(self)@ == old(self)@.attach_app(),
    {
        self.app_attached = true;
    }

    /// Subscribes to the events from now on.
    pub fn subscribe(&mut self) -> (r: TerminalSubscriberGuard)
        requires
            old(self).wf(),
        ensures
            final(self).wf(),
            final(self)@ == old(self)@.subscribe(),
            r.subscriber() == old(self)@.next_subscriber_id,
    {
        let id: usize = self.next_subscriber_id;
        let mut known = false;
        let mut i: usize = 0;
        while i < self.subscribers.len()
            invariant
                i <= self.subscribers@.len(),
                known == self.subscribers@.take(i as int).contains(id),
            decreases self.subscribers@.len() - i,
        {
            proof {
                let front = self.subscribers@.take(i as int);
                assert(self.subscribers@.take(i + 1) =~= front.push(self.subscribers@[i as int]));
                if front.contains(id) {
                    let k = choose|k: int| 0 <= k < front.len() && front[k] == id;
                    assert(self.subscribers@.take(i + 1)[k] == id);
                }
                assert(self.subscribers@.take(i + 1)[i as int] == self.subscribers@[i as int]);
            }
            if self.subscribers[i] == id {
                known = true;
            }
            i = i + 1;
        }
        proof {
            assert(self.subscribers@.take(i as int) =~= self.subscribers@);
        }
        if !known {
            self.subscribers.push(id);
        }
        self.next_subscriber_id = id.wrapping_add(1);
        TerminalSubscriberGuard { id }
    }

    /// Ends a subscription.
    pub fn unsubscribe(&mut self, guard: &TerminalSubscriberGuard)
        requires
            old(self).wf(),
        ensures
            final(self).wf(),
            final(self)@ == old(self)@.unsubscribe(guard.subscriber()),
    {
        let ghost before = self.subscribers@;
        let ghost p = other_than(guard.id);
        let mut left: Vec<usize> = Vec::new();
        let mut i: usize = 0;
        proof {
            reveal(Seq::filter);
            assert(before.take(0).filter(p) =~= Seq::<usize>::empty());
        }
        while i < self.subscribers.len()
            invariant
                before == self.subscribers@,
                p == other_than(guard.id),
                i <= before.len(),
                left@ == before.take(i as int).filter(p),
            decreases before.len() - i,
        {
            proof {
                reveal(Seq::filter);
                assert(before.take(i + 1).drop_last() =~= before.take(i as int));
            }
            let id: usize = self.subscribers[i];
            if id != guard.id {
                left.push(id);
            }
            i = i + 1;
        }
        proof {
            assert(before.take(i as int) =~= before);
            lemma_filter_no_duplicates(before, p);
        }
        self.subscribers = left;
    }

    /// Hands out the deliveries that are due, oldest first.
    pub fn take_deliveries(&mut self) -> (r: Vec<TerminalDelivery>)
        requires
            old(self).wf(),
        ensures
            final(self).wf(),
            delivery_views(r@) == old(self)@.outbox,
            final(self)@ == (RegistryView { outbox: Seq::empty(), ..old(self)@ }),
    {
        let mut due: Vec<TerminalDelivery> = Vec::new();
        std::mem::swap(&mut due, &mut self.outbox);
        proof {
            assert(delivery_views(self.outbox@) =~= Seq::<DeliveryView>::empty());
        }
        due
    }

    /// The ids of the sessions of a project, or of all.
    fn matching_ids(&self, project: &Option<String>) -> (r: Vec<String>)
        requires
            self.wf(),
        ensures
            names_ids(r@, self@.matching_ids(opt_text(*project))),
    {
        let ghost views = entry_views(self.sessions@);
        let ghost wanted = opt_text(*project);
        let mut ids: Vec<String> = Vec::new();
        let mut i: usize = 0;
        while i < self.sessions.len()
            invariant
                self.wf(),
                views == entry_views(self.sessions@),
                wanted == opt_text(*project),
                i <= self.sessions@.len(),
                texts(ids@).no_duplicates(),
                forall|id: Seq<char>| #[trigger]
                    texts(ids@).contains(id) <==> exists|j: int|
                        j < i && has_id(views, j, id) && in_project(wanted, views[j].record),
            decreases self.sessions@.len() - i,
        {
            let record = &self.sessions[i].record;
            let ghost before = texts(ids@);
            assert(views[i as int].record == record@);
            let matches = match project {
                Some(key) => record.project_path_key == *key,
                None => true,
            };
            if matches {
                proof {
                    assert forall|k: int| 0 <= k < before.len() implies before[k]
                        != record.id@ by {
                        assert(before.contains(before[k]));
                        let j = choose|j: int|
                            j < i && has_id(views, j, before[k]) && in_project(
                                wanted,
                                views[j].record,
                            );
                        assert(views[j].record.id != views[i as int].record.id);
                    }
                }
                ids.push(record.id.clone());
                assert(texts(ids@) =~= before.push(record.id@));
            }
            proof {
                assert forall|id: Seq<char>| #[trigger]
                    texts(ids@).contains(id) <==> exists|j: int|
                        j < i + 1 && has_id(views, j, id) && in_project(
                            wanted,
                            views[j].record,
                        ) by {
                    if texts(ids@).contains(id) {
                        let k = choose|k: int| 0 <= k < texts(ids@).len() && texts(ids@)[k] == id;
                        if k < before.len() {
                            assert(before[k] == id);
                            assert(before.contains(id));
                            let j = choose|j: int|
                                j < i && has_id(views, j, id) && in_project(
                                    wanted,
                                    views[j].record,
                                );
                            assert(has_id(views, j, id));
                        } else {
                            assert(has_id(views, i as int, id));
                        }
                    }
                    if exists|j: int|
                        j < i + 1 && has_id(views, j, id) && in_project(wanted, views[j].record) {
                        let j = choose|j: int|
                            j < i + 1 && has_id(views, j, id) && in_project(
                                wanted,
                                views[j].record,
                            );
                        if j < i {
                            assert(before.contains(id));
                            let k = choose|k: int| 0 <= k < before.len() && before[k] == id;
                            assert(texts(ids@)[k] == id);
                        } else {
                            assert(texts(ids@)[before.len() as int] == id);
                        }
                    }
                }
            }
            i = i + 1;
        }
        proof {
            lemma_session_map(views);
            let set = self@.matching_ids(wanted);
            assert forall|id: Seq<char>| texts(ids@).to_set().contains(id) <==> set.contains(
                id,
            ) by {
                if texts(ids@).contains(id) {
                    let j = choose|j: int|
                        j < i && has_id(views, j, id) && in_project(wanted, views[j].record);
                    assert(views[j].record.id == id);
                }
                if set.contains(id) {
                    let j = choose|j: int| has_id(views, j, id);
                    assert(views[j].record.id == id);
                }
            }
            assert(texts(ids@).to_set() =~= set);
        }
        ids
    }

    /// The ids of all sessions.
    pub fn session_ids(&self) -> (r: Vec<String>)
        requires
            self.wf(),
        ensures
            names_ids(r@, self@.sessions.dom()),
    {
        proof {
            assert(self@.matching_ids(None) =~= self@.sessions.dom());
        }
        self.matching_ids(&None)
    }

    /// The ids of a project's sessions.
    pub fn project_session_ids(&self, project_path_key: &str) -> (r: Result<Vec<String>, String>)
        requires
            self.wf(),
        ensures
            if trimmed(project_path_key@).len() == 0 {
                r matches Err(m) && m@ == "project_path_key is required"@
            } else {
                r matches Ok(ids) && names_ids(
                    ids@,
                    self@.project_ids(trimmed(project_path_key@)),
                )
            },
    {
        let key = workspace_project_path_key(project_path_key);
        if key.as_str().is_empty() {
            return Err("project_path_key is required".to_owned());
        }
        Ok(self.matching_ids(&Some(key)))
    }

    /// Closes sessions in turn, given the exit statuses of their processes, up to
    /// the first id that names no session any more. What was closed before it
    /// stays closed.
    pub fn close_ids(&mut self, ids: Vec<String>, exits: &Vec<SessionExit>) -> (r: Result<
        TerminalListResponse,
        String,
    >)
        requires
            old(self).wf(),
        ensures
            final(self).wf(),
            old(self)@.closes_in_turn(
                texts(ids@),
                exit_views(exits@),
                final(self)@,
                list_result(r),
            ),
    {
        let ghost before = self@;
        let ghost names = texts(ids@);
        let ghost statuses = exit_views(exits@);
        let mut sessions: Vec<TerminalSessionRecord> = Vec::new();
        let mut i: usize = 0;
        proof {
            assert(record_views(sessions@) =~= Seq::<RecordView>::empty());
            assert(record_ids(Seq::empty()).to_set() =~= Set::<Seq<char>>::empty());
            assert(before.sessions.remove_keys(Set::empty()) =~= before.sessions);
            assert(before.outbox + Seq::<DeliveryView>::empty() =~= before.outbox);
        }
        while i < ids.len()
            invariant
                self.wf(),
                before.valid(),
                before == old(self)@,
                names == texts(ids@),
                statuses == exit_views(exits@),
                i <= ids@.len(),
                sessions@.len() == i,
                forall|k: int|
                    0 <= k < i ==> {
                        &&& (#[trigger] record_views(sessions@)[k]).id == trimmed(names[k])
                        &&& before.sessions.contains_key(record_views(sessions@)[k].id)
                        &&& before.closed_as(statuses, record_views(sessions@)[k])
                    },
                forall|j: int, k: int|
                    #![trigger record_views(sessions@)[j], record_views(sessions@)[k]]
                    0 <= j < k < i ==> record_views(sessions@)[j].id != record_views(
                        sessions@,
                    )[k].id,
                self@ == (RegistryView {
                    sessions: before.sessions.remove_keys(
                        record_ids(record_views(sessions@)).to_set(),
                    ),
                    outbox: before.outbox + before.close_deliveries(record_views(sessions@)),
                    ..before
                }),
            decreases ids@.len() - i,
        {
            let id = ids[i].clone();
            let key = id.as_str().trim().to_owned();
            let status: Option<u32> = exit_status_of(exits, &key);
            let ghost current = self@;
            let ghost closed = record_views(sessions@);
            let ghost done = record_ids(closed).to_set();
            assert(id@ == names[i as int]);
            match self.close(id, status) {
                Err(message) => {
                    proof {
                        assert(before.closes_first(
                            names,
                            statuses,
                            closed,
                            self@,
                            Err::<Seq<RecordView>, Seq<char>>(message@),
                        ));
                    }
                    return Err(message);
                },
                Ok(record) => {
                    sessions.push(record);
                    proof {
                        let next = record_views(sessions@);
                        assert(next =~= closed.push(record@));
                        assert(next.drop_last() =~= closed);
                        assert(before.sessions.contains_key(key@) && !done.contains(key@));
                        assert(record@.id == key@);
                        assert forall|k: int| 0 <= k < i + 1 implies {
                            &&& (#[trigger] next[k]).id == trimmed(names[k])
                            &&& before.sessions.contains_key(next[k].id)
                            &&& before.closed_as(statuses, next[k])
                        } by {
                            if k < i {
                                assert(next[k] == closed[k]);
                            }
                        }
                        assert forall|j: int, k: int|
                            #![trigger next[j], next[k]]
                            0 <= j < k < i + 1 implies next[j].id != next[k].id by {
                            assert(next[j] == closed[j]);
                            if k < i {
                                assert(next[k] == closed[k]);
                            } else {
                                assert(record_ids(closed)[j] == closed[j].id);
                                assert(done.contains(closed[j].id));
                            }
                        }
                        let more = record_ids(next).to_set();
                        assert(record_ids(next) =~= record_ids(closed).push(key@));
                        lemma_push_to_set(record_ids(closed), key@);
                        assert(self@.sessions =~= before.sessions.remove_keys(more));
                        assert(self@.outbox =~= before.outbox + before.close_deliveries(next));
                    }
                },
            }
            i = i + 1;
        }
        proof {
            let closed = record_views(sessions@);
            assert(before.closes_first(
                names,
                statuses,
                closed,
                self@,
                Ok::<Seq<RecordView>, Seq<char>>(closed),
            ));
        }
        Ok(TerminalListResponse { sessions })
    }

    /// Closes all sessions, given the exit statuses of their processes.
    pub fn close_all(&mut self, exits: &Vec<SessionExit>) -> (r: Result<
        TerminalListResponse,
        String,
    >)
        requires
            old(self).wf(),
        ensures
            final(self).wf(),
            r matches Ok(closed) && old(self)@.closes(
                old(self)@.sessions.dom(),
                exit_views(exits@),
                final(self)@,
                closed@,
            ),
    {
        let ids = self.session_ids();
        let r = self.close_ids(ids, exits);
        proof {
            lemma_known_ids_close(
                old(self)@,
                texts(ids@),
                exit_views(exits@),
                self@,
                list_result(r),
            );
        }
        r
    }

    /// Closes the sessions of a project, given the exit statuses of their
    /// processes.
    pub fn close_project(&mut self, project_path_key: String, exits: &Vec<SessionExit>) -> (r:
        Result<TerminalListResponse, String>)
        requires
            old(self).wf(),
        ensures
            final(self).wf(),
            if trimmed(project_path_key@).len() == 0 {
                &&& r matches Err(m) && m@ == "project_path_key is required"@
                &&& final(self)@ == old(self)@
            } else {
                r matches Ok(closed) && old(self)@.closes(
                    old(self)@.project_ids(trimmed(project_path_key@)),
                    exit_views(exits@),
                    final(self)@,
                    closed@,
                )
            },
    {
        match self.project_session_ids(project_path_key.as_str()) {
            Err(message) => Err(message),
            Ok(ids) => {
                let r = self.close_ids(ids, exits);
                proof {
                    lemma_known_ids_close(
                        old(self)@,
                        texts(ids@),
                        exit_views(exits@),
                        self@,
                        list_result(r),
                    );
                }
                r
            },
        }
    }

    /// The tail of the output of a project's session.
    pub fn read_tail(
        &self,
        project_path_key: String,
        session_id: Option<String>,
        max_bytes: Option<usize>,
    ) -> (r: Result<TerminalReadTailResponse, String>)
        requires
            self.wf(),
        ensures
            self@.answers_read_tail(
                project_path_key@,
                opt_text(session_id),
                max_bytes,
                read_tail_result(r),
            ),
    {
        let key = workspace_project_path_key(project_path_key.as_str());
        if key.as_str().is_empty() {
            return Err("project_path_key is required".to_owned());
        }
        let sessions = self.list(Some(key.clone())).sessions;
        proof {
            law_trimmed_idempotent(project_path_key@);
            law_listing_length(self@, Some(key@), record_views(sessions@));
        }
        if sessions.len() == 0 {
            let r = TerminalReadTailResponse {
                sessions: Vec::new(),
                selected_session: None,
                output: String::new(),
                truncated: false,
            };
            assert(r@.sessions =~= Seq::<RecordView>::empty());
            return Ok(r);
        }
        let mut requested: Option<String> = None;
        if let Some(id) = session_id {
            let id = id.as_str().trim();
            if !id.is_empty() {
                requested = Some(id.to_owned());
            }
        }
        if requested.is_none() && sessions.len() > 1 {
            return Ok(
                TerminalReadTailResponse {
                    sessions,
                    selected_session: None,
                    output: String::new(),
                    truncated: false,
                },
            );
        }
        let selected = match requested {
            Some(id) => id,
            None => sessions[0].id.clone(),
        };
        proof {
            if requested_text(opt_text(session_id)) is None {
                let ids = self@.project_ids(key@);
                assert(record_views(sessions@)[0].id == selected@);
                assert(ids.contains(selected@));
                assert(ids.finite());
                lemma_only_element(ids, selected@);
            }
        }
        match self.snapshot(selected, max_bytes) {
            Err(message) => Err(message),
            Ok(snapshot) => {
                if snapshot.session.project_path_key != key {
                    return Err("terminal session is outside the current project".to_owned());
                }
                Ok(
                    TerminalReadTailResponse {
                        sessions,
                        selected_session: Some(snapshot.session),
                        output: snapshot.output,
                        truncated: snapshot.truncated,
                    },
                )
            },
        }
    }

    /// The command that stops the processes of a session, if there is something
    /// to stop.
    pub fn terminate_terminal_entry(&self, session_id: &str, platform: Platform) -> (r: Result<
        Option<ProcessCommand>,
        String,
    >)
        requires
            self.wf(),
        ensures
            match self@.lookup(session_id@) {
                Ok(session) => r matches Ok(command) && opt_command(command) == termination(
                    session.record.pid,
                    platform,
                ),
                Err(message) => r matches Err(m) && m@ == message,
            },
    {
        match self.entry(session_id) {
            Err(message) => Err(message),
            Ok(i) => Ok(terminate_process_tree_best_effort(self.sessions[i].record.pid, platform)),
        }
    }

    /// Forgets all sessions, without events, and tells how to stop each.
    pub fn shutdown(&mut self, platform: Platform) -> (r: Vec<SessionTermination>)
        requires
            old(self).wf(),
        ensures
            final(self).wf(),
            final(self)@ == (RegistryView { sessions: Map::empty(), ..old(self)@ }),
            names_ids(terminated_ids(r@), old(self)@.sessions.dom()),
            forall|i: int|
                0 <= i < r@.len() ==> opt_command((#[trigger] r@[i]).command) == termination(
                    old(self)@.sessions[r@[i].session_id@].record.pid,
                    platform,
                ),
    {
        let ghost views = entry_views(self.sessions@);
        let mut stops: Vec<SessionTermination> = Vec::new();
        let mut i: usize = 0;
        proof {
            lemma_session_map(views);
        }
        while i < self.sessions.len()
            invariant
                self.wf(),
                views == entry_views(self.sessions@),
                self@ == old(self)@,
                i <= self.sessions@.len(),
                stops@.len() == i,
                forall|j: int|
                    #![trigger views[j]]
                    0 <= j < views.len() ==> {
                        &&& session_map(views).contains_key(views[j].record.id)
                        &&& session_map(views)[views[j].record.id] == views[j]
                    },
                forall|j: int|
                    0 <= j < i ==> (#[trigger] stops@[j]).session_id@ == views[j].record.id
                        && opt_command(stops@[j].command) == termination(
                        views[j].record.pid,
                        platform,
                    ),
            decreases self.sessions@.len() - i,
        {
            let record = &self.sessions[i].record;
            assert(views[i as int].record == record@);
            let command = terminate_process_tree_best_effort(record.pid, platform);
            stops.push(SessionTermination { session_id: record.id.clone(), command });
            i = i + 1;
        }
        proof {
            let names = texts(terminated_ids(stops@));
            assert forall|a: int, b: int| 0 <= a < b < names.len() implies names[a]
                != names[b] by {
                assert(stops@[a].session_id@ == views[a].record.id);
                assert(stops@[b].session_id@ == views[b].record.id);
            }
            assert forall|id: Seq<char>| names.to_set().contains(id)
                <==> self@.sessions.dom().contains(id) by {
                if names.contains(id) {
                    let k = choose|k: int| 0 <= k < names.len() && names[k] == id;
                    assert(stops@[k].session_id@ == views[k].record.id);
                }
                if self@.sessions.dom().contains(id) {
                    assert(session_map(views).contains_key(id));
                    let k = choose|k: int| has_id(views, k, id);
                    assert(stops@[k].session_id@ == views[k].record.id);
                    assert(names[k] == id);
                }
            }
            assert(names.to_set() =~= self@.sessions.dom());
            assert forall|j: int| 0 <= j < stops@.len() implies opt_command(
                (#[trigger] stops@[j]).command,
            ) == termination(
                old(self)@.sessions[stops@[j].session_id@].record.pid,
                platform,
            ) by {
                assert(session_map(views)[views[j].record.id] == views[j]);
            }
        }
        self.sessions.clear();
        proof {
            assert(entry_views(self.sessions@) =~= Seq::<SessionView>::empty());
        }
        stops
    }
}

impl Default for TerminalSessionRegistry {
    fn default() -> (r: Self)
        ensures
            r.wf(),
            r@ == RegistryView::empty(),
    {
        let r = TerminalSessionRegistry {
            sessions: Vec::new(),
            app_attached: false,
            subscribers: Vec::new(),
            next_subscriber_id: 0,
            outbox: Vec::new(),
        };
        proof {
            assert(entry_views(r.sessions@) =~= Seq::<SessionView>::empty());
            assert(r@ =~= RegistryView::empty());
        }
        r
    }
}

/// Looks up the exit status that was observed for a session.
fn exit_status_of(exits: &Vec<SessionExit>, id: &String) -> (r: Option<u32>)
    ensures
        r == observed_status(exit_views(exits@), id@),
{
    let ghost views = exit_views(exits@);
    let mut i: usize = 0;
    proof {
        assert(views.skip(0) =~= views);
    }
    while i < exits.len()
        invariant
            views == exit_views(exits@),
            i <= exits@.len(),
            observed_status(views, id@) == observed_status(views.skip(i as int), id@),
        decreases exits@.len() - i,
    {
        proof {
            assert(views[i as int] == (exits@[i as int].session_id@, exits@[i as int].exit_status));
            assert(views.skip(i as int).drop_first() =~= views.skip(i + 1));
        }
        if exits[i].session_id == *id {
            return exits[i].exit_status;
        }
        i = i + 1;
    }
    None
}

/// Where every id names a session of its own, all of them are closed.
proof fn lemma_known_ids_close(
    registry: RegistryView,
    ids: Seq<Seq<char>>,
    exits: Seq<(Seq<char>, Option<u32>)>,
    after: RegistryView,
    r: Result<Seq<RecordView>, Seq<char>>,
)
    requires
        registry.valid(),
        ids.no_duplicates(),
        ids.to_set().subset_of(registry.sessions.dom()),
        registry.closes_in_turn(ids, exits, after, r),
    ensures
        r matches Ok(closed) && registry.closes(ids.to_set(), exits, after, closed),
{
    let closed = choose|closed: Seq<RecordView>| #[trigger]
        registry.closes_first(ids, exits, closed, after, r);
    assert forall|k: int| 0 <= k < ids.len() implies registry.sessions.contains_key(
        #[trigger] ids[k],
    ) && trimmed(ids[k]) == ids[k] && ids[k].len() > 0 by {
        assert(ids.to_set().contains(ids[k]));
        assert(session_valid(ids[k], registry.sessions[ids[k]]));
    }
    assert forall|k: int| 0 <= k < closed.len() implies (#[trigger] closed[k]).id == ids[k] by {}
    assert(record_ids(closed) =~= ids.take(closed.len() as int));
    if closed.len() < ids.len() {
        let next = ids[closed.len() as int];
        assert(!record_ids(closed).contains(next)) by {
            if record_ids(closed).contains(next) {
                let k = choose|k: int| 0 <= k < closed.len() && record_ids(closed)[k] == next;
                assert(ids[k] == next);
            }
        }
        assert(after.sessions.contains_key(next));
    }
    assert(record_ids(closed) =~= ids);
    assert forall|k: int| 0 <= k < closed.len() implies ids.to_set().contains(
        (#[trigger] closed[k]).id,
    ) by {
        assert(ids[k] == closed[k].id);
    }
    assert forall|id: Seq<char>| #[trigger] ids.to_set().contains(id) implies exists|k: int|
        0 <= k < closed.len() && (#[trigger] closed[k]).id == id by {
        let k = choose|k: int| 0 <= k < ids.len() && ids[k] == id;
        assert(closed[k].id == id);
    }
}

proof fn lemma_push_to_set(s: Seq<Seq<char>>, x: Seq<char>)
    ensures
        s.push(x).to_set() == s.to_set().insert(x),
{
    assert forall|y: Seq<char>| s.push(x).to_set().contains(y) <==> s.to_set().insert(x).contains(
        y,
    ) by {
        if s.contains(y) {
            let k = choose|k: int| 0 <= k < s.len() && s[k] == y;
            assert(s.push(x)[k] == y);
        }
        assert(s.push(x)[s.len() as int] == x);
    }
    assert(s.push(x).to_set() =~= s.to_set().insert(x));
}

proof fn lemma_only_element(s: Set<Seq<char>>, x: Seq<char>)
    requires
        s.finite(),
        s.len() == 1,
        s.contains(x),
    ensures
        s.choose() == x,
{
    let y = s.choose();
    if y != x {
        assert(s.remove(x).contains(y));
        assert(s.remove(x).len() == 0);
        assert(s.remove(x) =~= Set::empty());
    }
}

proof fn lemma_filter_no_duplicates(s: Seq<usize>, p: spec_fn(usize) -> bool)
    requires
        s.no_duplicates(),
    ensures
        s.filter(p).no_duplicates(),
        forall|x: usize| #[trigger] s.filter(p).contains(x) ==> s.contains(x),
    decreases s.len(),
{
    reveal(Seq::filter);
    if s.len() > 0 {
        let front = s.drop_last();
        lemma_filter_no_duplicates(front, p);
        let kept = front.filter(p);
        assert forall|x: usize| #[trigger] kept.contains(x) implies s.contains(x) && x
            != s.last() by {
            let i = choose|i: int| 0 <= i < front.len() && front[i] == x;
            assert(s[i] == x);
        }
        if p(s.last()) {
            assert forall|x: usize| #[trigger]
                kept.push(s.last()).contains(x) implies s.contains(x) by {
                let i = choose|i: int|
                    0 <= i < kept.push(s.last()).len() && kept.push(s.last())[i] == x;
                if i < kept.len() {
                    assert(kept.contains(x));
                } else {
                    assert(s[s.len() - 1] == x);
                }
            }
            assert forall|i: int, j: int|
                0 <= i < j < kept.push(s.last()).len() implies kept.push(s.last())[i]
                != kept.push(s.last())[j] by {
                assert(kept.contains(kept[i]));
            }
        }
    }
}

/// A numbered title needs no trimming.
proof fn lemma_numbered_title_clean(n: nat)
    ensures
        is_clean_text(numbered_title(n)),
{
    reveal_strlit("Terminal ");
    lemma_decimal_digits(n);
    let title = numbered_title(n);
    let digits = decimal_digits(n);
    assert(title.last() == digits[digits.len() - 1]);
    lemma_trimmed_fixed(title);
}

/// A session without output has an empty tail.
proof fn lemma_no_output(max: nat)
    ensures
        byte_tail(Seq::<Seq<char>>::empty().flatten(), max) == Seq::<char>::empty(),
        !tail_truncated(Seq::<Seq<char>>::empty(), max),
{
}

/// The text of a UUID needs no trimming.
proof fn lemma_uuid_clean(s: Seq<char>)
    requires
        is_uuid_text(s),
    ensures
        is_clean_text(s),
{
    assert(is_lower_hex(s[0]));
    assert(is_lower_hex(s[35]));
    lemma_trimmed_fixed(s);
}

/// Putting a valid session in place keeps the registry valid.
proof fn lemma_put_valid(registry: RegistryView, session: SessionView)
    requires
        registry.valid(),
        session_valid(session.record.id, session),
    ensures
        registry.put(session).valid(),
{
}

} // verus!
