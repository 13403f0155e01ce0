//! Sessions kept in a sequence, seen as a map from their ids.

use vstd::prelude::*;

use crate::model::SessionView;

verus! {

/// No two sessions share an id.
pub open spec fn distinct_ids(sessions: Seq<SessionView>) -> bool {
    forall|i: int, j: int|
        #![trigger sessions[i], sessions[j]]
        0 <= i < j < sessions.len() ==> sessions[i].record.id != sessions[j].record.id
}

/// The sessions by their ids.
pub open spec fn session_map(sessions: Seq<SessionView>) -> Map<Seq<char>, SessionView>
    decreases sessions.len(),
{
    if sessions.len() == 0 {
        Map::empty()
    } else {
        session_map(sessions.drop_last()).insert(sessions.last().record.id, sessions.last())
    }
}

/// The session at `i` has the id `id`.
pub open spec fn has_id(sessions: Seq<SessionView>, i: int, id: Seq<char>) -> bool {
    0 <= i < sessions.len() && sessions[i].record.id == id
}

/// With distinct ids the map holds every session under its id, and nothing
/// else.
pub proof fn lemma_session_map(sessions: Seq<SessionView>)
    requires
        distinct_ids(sessions),
    ensures
        session_map(sessions).dom().finite(),
        forall|i: int|
            #![trigger sessions[i]]
            0 <= i < sessions.len() ==> {
                &&& session_map(sessions).contains_key(sessions[i].record.id)
                &&& session_map(sessions)[sessions[i].record.id] == sessions[i]
            },
        forall|id: Seq<char>| #[trigger]
            session_map(sessions).contains_key(id) ==> exists|i: int| has_id(sessions, i, id),
    decreases sessions.len(),
{
    if sessions.len() > 0 {
        let front = sessions.drop_last();
        lemma_session_map(front);
        assert forall|i: int|
            #![trigger sessions[i]]
            0 <= i < sessions.len() implies {
            &&& session_map(sessions).contains_key(sessions[i].record.id)
            &&& session_map(sessions)[sessions[i].record.id] == sessions[i]
        } by {
            if i < sessions.len() - 1 {
                assert(front[i] == sessions[i]);
                assert(sessions[i].record.id != sessions[sessions.len() - 1].record.id);
            }
        }
        assert forall|id: Seq<char>| #[trigger] session_map(sessions).contains_key(id) implies exists|
            i: int,
        | has_id(sessions, i, id) by {
            if id == sessions.last().record.id {
                assert(has_id(sessions, sessions.len() - 1, id));
            } else {
                let i = choose|i: int| has_id(front, i, id);
                assert(has_id(sessions, i, id));
            }
        }
    }
}

/// Replacing a session by one with the same id.
pub proof fn lemma_session_map_update(sessions: Seq<SessionView>, i: int, session: SessionView)
    requires
        distinct_ids(sessions),
        0 <= i < sessions.len(),
        session.record.id == sessions[i].record.id,
    ensures
        distinct_ids(sessions.update(i, session)),
        session_map(sessions.update(i, session)) == session_map(sessions).insert(
            session.record.id,
            session,
        ),
{
    let next = sessions.update(i, session);
    assert forall|a: int, b: int|
        #![trigger next[a], next[b]]
        0 <= a < b < next.len() implies next[a].record.id != next[b].record.id by {
        assert(sessions[a].record.id != sessions[b].record.id);
    }
    lemma_session_map(sessions);
    lemma_session_map(next);
    let lhs = session_map(next);
    let rhs = session_map(sessions).insert(session.record.id, session);
    assert forall|id: Seq<char>| lhs.contains_key(id) <==> rhs.contains_key(id) by {
        if lhs.contains_key(id) {
            let k = choose|k: int| has_id(next, k, id);
            assert(next[k].record.id == sessions[k].record.id);
        }
        if rhs.contains_key(id) {
            if id == session.record.id {
                assert(next[i] == session);
            } else {
                let k = choose|k: int| has_id(sessions, k, id);
                assert(next[k] == sessions[k]);
            }
        }
    }
    assert forall|id: Seq<char>| lhs.contains_key(id) implies lhs[id] == rhs[id] by {
        let k = choose|k: int| has_id(next, k, id);
        assert(next[k].record.id == id);
        if k != i {
            assert(next[k] == sessions[k]);
            if k < i {
                assert(next[k].record.id != next[i].record.id);
            } else {
                assert(next[i].record.id != next[k].record.id);
            }
        }
    }
    assert(lhs =~= rhs);
}

/// Leaving a session out.
pub proof fn lemma_session_map_remove(sessions: Seq<SessionView>, i: int)
    requires
        distinct_ids(sessions),
        0 <= i < sessions.len(),
    ensures
        distinct_ids(sessions.remove(i)),
        session_map(sessions.remove(i)) == session_map(sessions).remove(sessions[i].record.id),
{
    let next = sessions.remove(i);
    assert forall|a: int, b: int|
        #![trigger next[a], next[b]]
        0 <= a < b < next.len() implies next[a].record.id != next[b].record.id by {
        let c = if a < i {
            a
        } else {
            a + 1
        };
        let d = if b < i {
            b
        } else {
            b + 1
        };
        assert(sessions[c].record.id != sessions[d].record.id);
    }
    lemma_session_map(sessions);
    lemma_session_map(next);
    let lhs = session_map(next);
    let rhs = session_map(sessions).remove(sessions[i].record.id);
    assert forall|id: Seq<char>| lhs.contains_key(id) implies rhs.contains_key(id) && lhs[id]
        == rhs[id] by {
        let k = choose|k: int| has_id(next, k, id);
        let c = if k < i {
            k
        } else {
            k + 1
        };
        assert(next[k] == sessions[c]);
        if c < i {
            assert(sessions[c].record.id != sessions[i].record.id);
        } else {
            assert(sessions[i].record.id != sessions[c].record.id);
        }
    }
    assert forall|id: Seq<char>| rhs.contains_key(id) implies lhs.contains_key(id) by {
        let c = choose|c: int| has_id(sessions, c, id);
        let k = if c < i {
            c
        } else {
            c - 1
        };
        assert(next[k] == sessions[c]);
    }
    assert(lhs =~= rhs);
}

/// Adding a session with a new id.
pub proof fn lemma_session_map_push(sessions: Seq<SessionView>, session: SessionView)
    requires
        distinct_ids(sessions),
        !session_map(sessions).contains_key(session.record.id),
    ensures
        distinct_ids(sessions.push(session)),
        session_map(sessions.push(session)) == session_map(sessions).insert(
            session.record.id,
            session,
        ),
{
    lemma_session_map(sessions);
    assert(sessions.push(session).drop_last() =~= sessions);
    let next = sessions.push(session);
    assert forall|a: int, b: int|
        #![trigger next[a], next[b]]
        0 <= a < b < next.len() implies next[a].record.id != next[b].record.id by {
        assert(next[a] == sessions[a]);
        if b < sessions.len() {
            assert(next[b] == sessions[b]);
        }
    }
}

/// Counting sessions is counting the ids under which they stand.
pub proof fn lemma_session_count(sessions: Seq<SessionView>, p: spec_fn(SessionView) -> bool)
    requires
        distinct_ids(sessions),
    ensures
        sessions.filter(p).len() == session_map(sessions).dom().filter(
            |id: Seq<char>| p(session_map(sessions)[id]),
        ).len(),
    decreases sessions.len(),
{
    reveal(Seq::filter);
    let all = session_map(sessions);
    let ids = all.dom().filter(|id: Seq<char>| p(all[id]));
    lemma_session_map(sessions);
    if sessions.len() == 0 {
        assert(ids =~= Set::<Seq<char>>::empty());
    } else {
        let front = sessions.drop_last();
        let last = sessions.last();
        assert forall|a: int, b: int|
            #![trigger front[a], front[b]]
            0 <= a < b < front.len() implies front[a].record.id != front[b].record.id by {
            assert(front[a] == sessions[a]);
            assert(front[b] == sessions[b]);
        }
        lemma_session_map(front);
        lemma_session_count(front, p);
        let rest = session_map(front);
        let rest_ids = rest.dom().filter(|id: Seq<char>| p(rest[id]));
        assert(!rest.contains_key(last.record.id)) by {
            if rest.contains_key(last.record.id) {
                let i = choose|i: int| has_id(front, i, last.record.id);
                assert(front[i] == sessions[i]);
                assert(sessions[i].record.id != sessions[sessions.len() - 1].record.id);
            }
        }
        if p(last) {
            assert(ids =~= rest_ids.insert(last.record.id));
        } else {
            assert(ids =~= rest_ids);
        }
    }
}

} // verus!
