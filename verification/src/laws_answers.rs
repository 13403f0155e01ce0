//! What the registry answers: single sessions, their output, listings, counts
//! and the tail of a project's terminal.

use vstd::prelude::*;
use vstd::utf8::*;

use crate::laws_effects::{
    ids_in, law_mark_finished_ends_the_session, law_output_is_added_to_its_session, refusal,
};
use crate::laws_values::{is_tail_of, law_tail_of_chunks};
use crate::listing::law_listing_length;
use crate::model::{requested_text, RegistryView, SessionView};
use crate::text::{law_trimmed_idempotent, text_less, trimmed};
use crate::types::{ReadTailView, RecordView, SnapshotView};

verus! {

/// A request that names a session gets that session, and its record as it
/// stands; any other is refused with the reason.
pub proof fn law_sessions_are_answered_by_id(registry: RegistryView, session_id: Seq<char>)
    requires
        registry.valid(),
    ensures
        match refusal(registry, session_id) {
            Some(message) => {
                &&& registry.lookup(session_id) == Err::<SessionView, Seq<char>>(message)
                &&& registry.session_record(session_id) == Err::<RecordView, Seq<char>>(message)
            },
            None => {
                let session = registry.sessions[trimmed(session_id)];
                &&& registry.lookup(session_id) == Ok::<SessionView, Seq<char>>(session)
                &&& registry.session_record(session_id) == Ok::<RecordView, Seq<char>>(
                    session.record,
                )
                &&& session.record.id == trimmed(session_id)
            },
        },
{
}

/// The number of bytes that a request for output may take: what it asks for, or
/// 262144.
pub open spec fn budget(max_bytes: Option<usize>) -> nat {
    match max_bytes {
        Some(n) => n as nat,
        None => 262144,
    }
}

/// A snapshot holds the record of the session that it names and the tail of that
/// session's own output.
pub proof fn law_snapshot_shows_the_session(
    registry: RegistryView,
    session_id: Seq<char>,
    max_bytes: Option<usize>,
)
    requires
        registry.valid(),
    ensures
        match refusal(registry, session_id) {
            Some(message) => registry.snapshot(session_id, max_bytes) == Err::<
                SnapshotView,
                Seq<char>,
            >(message),
            None => {
                let session = registry.sessions[trimmed(session_id)];
                let snapshot = registry.snapshot(session_id, max_bytes)->Ok_0;
                &&& registry.snapshot(session_id, max_bytes) is Ok
                &&& snapshot.session == session.record
                &&& is_tail_of(
                    session.output,
                    budget(max_bytes),
                    snapshot.output,
                    snapshot.truncated,
                )
            },
        },
{
    if refusal(registry, session_id) is None {
        let session = registry.sessions[trimmed(session_id)];
        law_tail_of_chunks(session.output, budget(max_bytes));
    }
}

/// Whether a listing for an argument is to hold a session: one of the project
/// that the argument names, or any where it names none.
pub open spec fn is_wanted(project_path_key: Option<Seq<char>>, record: RecordView) -> bool {
    project_path_key is Some && trimmed(project_path_key->Some_0).len() > 0
        ==> record.project_path_key == trimmed(project_path_key->Some_0)
}

/// Whether `out` holds the record of every session that is wanted, running or
/// not, as it stands, and nothing else; each once, by project and then by time of
/// creation.
pub open spec fn lists_wanted(
    registry: RegistryView,
    project_path_key: Option<Seq<char>>,
    out: Seq<RecordView>,
) -> bool {
    &&& forall|id: Seq<char>|
        #![trigger registry.sessions.contains_key(id)]
        registry.sessions.contains_key(id) && is_wanted(
            project_path_key,
            registry.sessions[id].record,
        ) ==> out.contains(registry.sessions[id].record)
    &&& forall|i: int|
        0 <= i < out.len() ==> {
            &&& registry.sessions.contains_key((#[trigger] out[i]).id)
            &&& out[i] == registry.sessions[out[i].id].record
            &&& is_wanted(project_path_key, out[i])
        }
    &&& forall|i: int, j: int|
        #![trigger out[i], out[j]]
        0 <= i < j < out.len() ==> {
            &&& out[i].id != out[j].id
            &&& !text_less(out[j].project_path_key, out[i].project_path_key)
            &&& out[i].project_path_key == out[j].project_path_key ==> out[i].created_at
                <= out[j].created_at
        }
}

/// A listing holds what is wanted.
pub proof fn law_listing_holds_what_is_wanted(
    registry: RegistryView,
    project_path_key: Option<Seq<char>>,
    out: Seq<RecordView>,
)
    requires
        registry.valid(),
        registry.is_listing(requested_text(project_path_key), out),
    ensures
        lists_wanted(registry, project_path_key, out),
{
    assert forall|i: int| 0 <= i < out.len() implies {
        &&& registry.sessions.contains_key((#[trigger] out[i]).id)
        &&& out[i] == registry.sessions[out[i].id].record
        &&& is_wanted(project_path_key, out[i])
    } by {
        assert(out.contains(out[i]));
    }
    assert forall|id: Seq<char>|
        #![trigger registry.sessions.contains_key(id)]
        registry.sessions.contains_key(id) && is_wanted(
            project_path_key,
            registry.sessions[id].record,
        ) implies out.contains(registry.sessions[id].record) by {
        assert(registry.sessions[id].record.id == id);
    }
}

/// A session that has ended stays in its listings: marking it as finished changes
/// neither which ids a listing holds nor how many.
pub proof fn law_ended_sessions_stay_listed(
    registry: RegistryView,
    session_id: Seq<char>,
    status: Option<u32>,
    finished: u128,
    updated: u128,
    project_path_key: Option<Seq<char>>,
    before: Seq<RecordView>,
    after: Seq<RecordView>,
    id: Seq<char>,
)
    requires
        registry.valid(),
        registry.is_listing(requested_text(project_path_key), before),
        registry.mark_finished(session_id, status, finished, updated).is_listing(
            requested_text(project_path_key),
            after,
        ),
    ensures
        (exists|i: int| 0 <= i < before.len() && (#[trigger] before[i]).id == id) <==> (exists|
            i: int,
        |
            0 <= i < after.len() && (#[trigger] after[i]).id == id),
{
    let ended = registry.mark_finished(session_id, status, finished, updated);
    law_mark_finished_ends_the_session(registry, session_id, status, finished, updated);
    law_listing_holds_what_is_wanted(registry, project_path_key, before);
    assert(ended.valid());
    law_listing_holds_what_is_wanted(ended, project_path_key, after);
    if exists|i: int| 0 <= i < before.len() && (#[trigger] before[i]).id == id {
        let i = choose|i: int| 0 <= i < before.len() && (#[trigger] before[i]).id == id;
        assert(registry.sessions.contains_key(id));
        assert(ended.sessions.contains_key(id));
        assert(after.contains(ended.sessions[id].record));
    }
    if exists|i: int| 0 <= i < after.len() && (#[trigger] after[i]).id == id {
        let i = choose|i: int| 0 <= i < after.len() && (#[trigger] after[i]).id == id;
        assert(ended.sessions.contains_key(id));
        assert(registry.sessions.contains_key(id));
        assert(before.contains(registry.sessions[id].record));
    }
}

/// The sessions of a project are those whose record has its key, running or not;
/// without a project they are all sessions.
pub proof fn law_project_sessions(registry: RegistryView, key: Seq<char>, id: Seq<char>)
    ensures
        registry.project_ids(key).contains(id) <==> registry.sessions.contains_key(id)
            && registry.sessions[id].record.project_path_key == key,
        registry.matching_ids(Some(key)).contains(id) <==> registry.sessions.contains_key(id)
            && registry.sessions[id].record.project_path_key == key,
        registry.matching_ids(None).contains(id) <==> registry.sessions.contains_key(id),
{
}

/// The sessions that are counted as running are those whose record says so.
pub proof fn law_running_sessions(registry: RegistryView, id: Seq<char>)
    ensures
        registry.running_ids().contains(id) <==> registry.sessions.contains_key(id)
            && registry.sessions[id].record.running,
{
}

/// The first end of a session takes it from those that run; no other session
/// begins or ends to run by it.
pub proof fn law_ended_session_runs_no_more(
    registry: RegistryView,
    session_id: Seq<char>,
    status: Option<u32>,
    finished: u128,
    updated: u128,
)
    requires
        registry.valid(),
        refusal(registry, session_id) is None,
    ensures
        registry.mark_finished(session_id, status, finished, updated).running_ids()
            == registry.running_ids().remove(trimmed(session_id)),
{
    law_mark_finished_ends_the_session(registry, session_id, status, finished, updated);
    let ended = registry.mark_finished(session_id, status, finished, updated);
    assert forall|id: Seq<char>|
        ended.running_ids().contains(id) <==> registry.running_ids().remove(
            trimmed(session_id),
        ).contains(id) by {
        law_running_sessions(registry, id);
        law_running_sessions(ended, id);
        assert(ended.sessions.contains_key(id) <==> registry.sessions.contains_key(id));
    }
    assert(ended.running_ids() =~= registry.running_ids().remove(trimmed(session_id)));
}

/// Whether a request for a tail names a session.
pub open spec fn names_session(session_id: Option<Seq<char>>) -> bool {
    session_id is Some && trimmed(session_id->Some_0).len() > 0
}

/// Whether an answer shows a session: its record, and the tail of its own output.
pub open spec fn shows(tail: ReadTailView, session: SessionView, max: nat) -> bool {
    &&& tail.selected_session == Some(session.record)
    &&& is_tail_of(session.output, max, tail.output, tail.truncated)
}

/// Reading the tail of a named session of a project: however many sessions the
/// project has, its record is answered together with the tail of its own output,
/// and all sessions of the project are listed.
pub proof fn law_read_tail_shows_the_named_session(
    registry: RegistryView,
    project_path_key: Seq<char>,
    session_id: Seq<char>,
    max_bytes: Option<usize>,
    r: Result<ReadTailView, Seq<char>>,
)
    requires
        registry.valid(),
        registry.answers_read_tail(project_path_key, Some(session_id), max_bytes, r),
        registry.sessions.contains_key(trimmed(session_id)),
        registry.sessions[trimmed(session_id)].record.project_path_key == trimmed(
            project_path_key,
        ),
    ensures
        r is Ok,
        shows(r->Ok_0, registry.sessions[trimmed(session_id)], budget(max_bytes)),
        lists_wanted(registry, Some(project_path_key), r->Ok_0.sessions),
{
    let id = trimmed(session_id);
    let key = trimmed(project_path_key);
    law_trimmed_idempotent(session_id);
    law_snapshot_shows_the_session(registry, id, max_bytes);
    law_project_sessions(registry, key, id);
    assert(registry.project_ids(key).len() > 0) by {
        if registry.project_ids(key).len() == 0 {
            assert(registry.project_ids(key) =~= Set::empty());
        }
    }
    law_listing_holds_what_is_wanted(registry, Some(project_path_key), r->Ok_0.sessions);
}

/// Reading the tail of a named session that the project does not have: where the
/// project has sessions, a session of another project is refused as such, and an
/// unknown one as unknown.
pub proof fn law_read_tail_refuses_other_sessions(
    registry: RegistryView,
    project_path_key: Seq<char>,
    session_id: Seq<char>,
    max_bytes: Option<usize>,
    r: Result<ReadTailView, Seq<char>>,
    known: Seq<char>,
)
    requires
        registry.valid(),
        registry.answers_read_tail(project_path_key, Some(session_id), max_bytes, r),
        trimmed(session_id).len() > 0,
        registry.sessions.contains_key(known),
        registry.sessions[known].record.project_path_key == trimmed(project_path_key),
    ensures
        !registry.sessions.contains_key(trimmed(session_id)) ==> r == Err::<
            ReadTailView,
            Seq<char>,
        >("terminal session not found: "@ + trimmed(session_id)),
        registry.sessions.contains_key(trimmed(session_id)) && registry.sessions[trimmed(
            session_id,
        )].record.project_path_key != trimmed(project_path_key) ==> r == Err::<
            ReadTailView,
            Seq<char>,
        >("terminal session is outside the current project"@),
{
    let key = trimmed(project_path_key);
    law_trimmed_idempotent(session_id);
    law_snapshot_shows_the_session(registry, trimmed(session_id), max_bytes);
    law_project_sessions(registry, key, known);
    assert(registry.project_ids(key).len() > 0) by {
        if registry.project_ids(key).len() == 0 {
            assert(registry.project_ids(key) =~= Set::empty());
        }
    }
}

/// Reading the tail of a project without naming a session: its only session is
/// shown; of several none is, and all are listed.
pub proof fn law_read_tail_without_a_name(
    registry: RegistryView,
    project_path_key: Seq<char>,
    session_id: Option<Seq<char>>,
    max_bytes: Option<usize>,
    r: Result<ReadTailView, Seq<char>>,
    known: Seq<char>,
)
    requires
        registry.valid(),
        registry.answers_read_tail(project_path_key, session_id, max_bytes, r),
        !names_session(session_id),
        registry.sessions.contains_key(known),
        registry.sessions[known].record.project_path_key == trimmed(project_path_key),
    ensures
        r is Ok,
        lists_wanted(registry, Some(project_path_key), r->Ok_0.sessions),
        (forall|other: Seq<char>| #[trigger]
            registry.sessions.contains_key(other) && other != known
                ==> registry.sessions[other].record.project_path_key != trimmed(project_path_key))
            ==> shows(r->Ok_0, registry.sessions[known], budget(max_bytes)),
        forall|other: Seq<char>| #[trigger]
            registry.sessions.contains_key(other) && other != known
                && registry.sessions[other].record.project_path_key == trimmed(project_path_key)
                ==> {
                &&& r->Ok_0.selected_session is None
                &&& r->Ok_0.output.len() == 0
                &&& !r->Ok_0.truncated
            },
{
    let key = trimmed(project_path_key);
    let ids = registry.project_ids(key);
    law_project_sessions(registry, key, known);
    law_snapshot_shows_the_session(registry, known, max_bytes);
    assert(ids.finite());
    assert(ids.len() > 0) by {
        if ids.len() == 0 {
            assert(ids =~= Set::empty());
        }
    }
    if ids.len() == 1 {
        let only = ids.choose();
        assert(only == known) by {
            if only != known {
                assert(ids.remove(known).contains(only));
                assert(ids.remove(known).len() == 0);
                assert(ids.remove(known) =~= Set::empty());
            }
        }
    } else {
        let other = ids.remove(known).choose();
        assert(ids.remove(known).len() > 0);
        assert(ids.remove(known).contains(other));
        law_project_sessions(registry, key, other);
        assert(registry.sessions.contains_key(other));
    }
    assert forall|other: Seq<char>| #[trigger]
        registry.sessions.contains_key(other) && other != known
            && registry.sessions[other].record.project_path_key == key implies ids.len() > 1 by {
        assert(ids.contains(other));
        assert(ids.remove(known).contains(other));
        if ids.len() == 1 {
            assert(ids.remove(known).len() == 0);
            assert(ids.remove(known) =~= Set::empty());
        }
    }
    law_listing_holds_what_is_wanted(registry, Some(project_path_key), r->Ok_0.sessions);
}

/// Reading the tail of a project that is not named is refused, and one without
/// sessions is answered with nothing, whatever session is named.
pub proof fn law_read_tail_of_nothing(
    registry: RegistryView,
    project_path_key: Seq<char>,
    session_id: Option<Seq<char>>,
    max_bytes: Option<usize>,
    r: Result<ReadTailView, Seq<char>>,
)
    requires
        registry.valid(),
        registry.answers_read_tail(project_path_key, session_id, max_bytes, r),
    ensures
        trimmed(project_path_key).len() == 0 ==> r == Err::<ReadTailView, Seq<char>>(
            "project_path_key is required"@,
        ),
        trimmed(project_path_key).len() > 0 && (forall|id: Seq<char>| #[trigger]
            registry.sessions.contains_key(id) ==> registry.sessions[id].record.project_path_key
                != trimmed(project_path_key)) ==> {
            &&& r is Ok
            &&& r->Ok_0.sessions.len() == 0
            &&& r->Ok_0.selected_session is None
            &&& r->Ok_0.output.len() == 0
            &&& !r->Ok_0.truncated
        },
{
    let key = trimmed(project_path_key);
    if forall|id: Seq<char>| #[trigger]
        registry.sessions.contains_key(id) ==> registry.sessions[id].record.project_path_key
            != key {
        assert(registry.project_ids(key) =~= Set::empty());
    }
}

/// Output that arrived is what the next tail of its session ends with, where it
/// fits, whoever asks and however many sessions the project has.
pub proof fn law_read_tail_ends_with_the_latest_output(
    registry: RegistryView,
    session_id: Seq<char>,
    data: Seq<char>,
    now: u128,
    project_path_key: Seq<char>,
    max: usize,
    r: Result<ReadTailView, Seq<char>>,
)
    requires
        registry.valid(),
        registry.sessions.contains_key(trimmed(session_id)),
        registry.sessions[trimmed(session_id)].record.project_path_key == trimmed(
            project_path_key,
        ),
        encode_utf8(data).len() <= max,
        registry.append_output(session_id, data, now).answers_read_tail(
            project_path_key,
            Some(session_id),
            Some(max),
            r,
        ),
    ensures
        r is Ok,
        r->Ok_0.selected_session == Some(
            RecordView {
                updated_at: now,
                ..registry.sessions[trimmed(session_id)].record
            },
        ),
        data.len() <= r->Ok_0.output.len(),
        r->Ok_0.output.skip(r->Ok_0.output.len() - data.len()) == data,
{
    let after = registry.append_output(session_id, data, now);
    law_output_is_added_to_its_session(registry, session_id, data, now);
    assert(after.valid());
    law_read_tail_shows_the_named_session(after, project_path_key, session_id, Some(max), r);
}

/// The number of sessions that a listing holds is the number of those that are
/// wanted.
pub proof fn law_listing_of_a_project_has_all_its_sessions(
    registry: RegistryView,
    project_path_key: Seq<char>,
    out: Seq<RecordView>,
)
    requires
        registry.valid(),
        trimmed(project_path_key).len() > 0,
        registry.is_listing(requested_text(Some(project_path_key)), out),
    ensures
        out.len() == ids_in(registry, trimmed(project_path_key)).len(),
{
    let key = trimmed(project_path_key);
    law_listing_length(registry, Some(key), out);
    assert(registry.matching_ids(Some(key)) =~= ids_in(registry, key));
}

} // verus!
