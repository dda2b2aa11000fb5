//! What holds of the chat service across its operations.

use vstd::prelude::*;

use crate::protos::chat::Registered;
use crate::protos::chat_grpc::ChatError;
use crate::server::{reader_step, register_outcome, say_outcome, MessageView, SESSION_ATTEMPTS};
use crate::text::{is_white_space, trim_end, trim_start, trimmed};

verus! {

/// The messages a reader starting at `pos` delivers from `log` in `steps` steps.
pub open spec fn delivered(log: Seq<MessageView>, pos: nat, steps: nat) -> Seq<MessageView>
    decreases steps,
{
    if steps == 0 {
        Seq::empty()
    } else {
        let (out, next) = reader_step(log, pos);
        match out {
            Some(m) => seq![m] + delivered(log, next, (steps - 1) as nat),
            None => delivered(log, next, (steps - 1) as nat),
        }
    }
}

/// A reader replays the log in order, each message once: from position `pos`,
/// `steps` steps deliver exactly the messages from `pos` up to `pos + steps`,
/// or up to the end of the log if that comes first.
pub proof fn law_reader_replays_log_in_order(log: Seq<MessageView>, pos: nat, steps: nat)
    requires
        pos <= log.len(),
    ensures
        delivered(log, pos, steps) == log.subrange(
            pos as int,
            if pos + steps <= log.len() {
                (pos + steps) as int
            } else {
                log.len() as int
            },
        ),
    decreases steps,
{
    if steps == 0 {
        assert(log.subrange(pos as int, pos as int) =~= Seq::<MessageView>::empty());
    } else if pos < log.len() {
        law_reader_replays_log_in_order(log, pos + 1, (steps - 1) as nat);
        let end: int = if pos + steps <= log.len() {
            (pos + steps) as int
        } else {
            log.len() as int
        };
        assert(seq![log[pos as int]] + log.subrange(pos + 1int, end) =~= log.subrange(
            pos as int,
            end,
        ));
    } else {
        law_reader_replays_log_in_order(log, pos, (steps - 1) as nat);
    }
}

/// Whether every log in `logs` begins with the one before it, as the log does over time.
pub open spec fn grows(logs: Seq<Seq<MessageView>>) -> bool {
    forall|i: int, j: int|
        0 <= i <= j < logs.len() ==> #[trigger] logs[i].len() <= #[trigger] logs[j].len()
            && logs[j].subrange(0, logs[i].len() as int) == logs[i]
}

/// A reader at `pos` that takes one step on each log of `logs` in turn: the messages
/// it delivers, and the position it ends at.
pub open spec fn replay_growing(logs: Seq<Seq<MessageView>>, pos: nat) -> (
    Seq<MessageView>,
    nat,
)
    decreases logs.len(),
{
    if logs.len() == 0 {
        (Seq::empty(), pos)
    } else {
        let (out, next) = reader_step(logs[0], pos);
        let (rest, end) = replay_growing(logs.drop_first(), next);
        (
            match out {
                Some(m) => seq![m] + rest,
                None => rest,
            },
            end,
        )
    }
}

/// A reader replays the log in order, each message once, while the log grows between
/// its steps: what the steps deliver is exactly the final log from the starting
/// position up to where the reader ends.
pub proof fn law_reader_replays_growing_log(logs: Seq<Seq<MessageView>>, pos: nat)
    requires
        logs.len() > 0,
        grows(logs),
        pos <= logs[0].len(),
    ensures
        ({
            let (out, end) = replay_growing(logs, pos);
            &&& pos <= end <= logs.last().len()
            &&& out == logs.last().subrange(pos as int, end as int)
        }),
    decreases logs.len(),
{
    let last = logs.last();
    assert(logs[0].len() <= last.len() && last.subrange(0, logs[0].len() as int) == logs[0]);
    let (out0, next) = reader_step(logs[0], pos);
    if logs.len() == 1 {
        assert(logs.drop_first().len() == 0);
        assert(replay_growing(logs.drop_first(), next) == (Seq::<MessageView>::empty(), next));
        assert(last == logs[0]);
        if pos < logs[0].len() {
            assert(last.subrange(pos as int, pos + 1int) =~= seq![logs[0][pos as int]]);
        } else {
            assert(last.subrange(pos as int, pos as int) =~= Seq::<MessageView>::empty());
        }
    } else {
        let tail = logs.drop_first();
        assert(grows(tail)) by {
            assert forall|i: int, j: int| 0 <= i <= j < tail.len() implies #[trigger] tail[i].len()
                <= #[trigger] tail[j].len() && tail[j].subrange(0, tail[i].len() as int)
                == tail[i] by {
                assert(tail[i] == logs[i + 1] && tail[j] == logs[j + 1]);
            }
        }
        assert(logs[0].len() <= logs[1].len() && logs[1].subrange(0, logs[0].len() as int)
            == logs[0]);
        assert(tail[0] == logs[1]);
        assert(tail.last() == last);
        law_reader_replays_growing_log(tail, next);
        let (rest, end) = replay_growing(tail, next);
        if pos < logs[0].len() {
            assert(last[pos as int] == logs[0][pos as int]) by {
                assert(last.subrange(0, logs[0].len() as int)[pos as int] == last[pos as int]);
            }
            assert(seq![logs[0][pos as int]] + last.subrange(pos + 1int, end as int)
                =~= last.subrange(pos as int, end as int));
        } else {
            assert(next == pos);
        }
    }
}

/// A reader that has caught up with the log delivers, once a message is appended,
/// exactly that message next; and appending never changes what a reader that has
/// not caught up delivers next.
pub proof fn law_reader_sees_later_messages(log: Seq<MessageView>, pos: nat, m: MessageView)
    requires
        pos <= log.len(),
    ensures
        pos == log.len() ==> reader_step(log, pos) == (None::<MessageView>, pos)
            && reader_step(log.push(m), pos) == (Some(m), pos + 1),
        pos < log.len() ==> reader_step(log.push(m), pos) == reader_step(log, pos),
{
}

/// A session that was just registered for `name` is known to the server (so a
/// listener for it is accepted), and posting under it is accepted and logs the
/// text under `name`.
pub proof fn law_registered_session_may_say(
    before: Map<u64, Seq<char>>,
    log: Seq<MessageView>,
    session: u64,
    name: Seq<char>,
    message: Seq<char>,
)
    requires
        !before.contains_key(session),
    ensures
        before.insert(session, name).contains_key(session),
        say_outcome(before.insert(session, name), log, session, message) == (
            true,
            log.push((name, message)),
        ),
{
}

/// A registration that drew the ids `draws` from the server's random source is refused
/// only when it drew `SESSION_ATTEMPTS` ids and every one of them was already taken.
/// As soon as a free id comes up it succeeds under that id, the first free one drawn,
/// and records the name there. How many sessions exist, and what was said, play no
/// part beyond whether the drawn ids are taken.
pub proof fn law_register_refuses_only_when_every_draw_was_taken(
    before: Map<u64, Seq<char>>,
    name: Seq<char>,
    draws: Seq<u64>,
    result: Result<Registered, ChatError>,
    after: Map<u64, Seq<char>>,
)
    requires
        register_outcome(before, name, draws, result, after),
    ensures
        result is Err ==> draws.len() == SESSION_ATTEMPTS && (forall|i: int|
            0 <= i < draws.len() ==> before.contains_key(#[trigger] draws[i])) && after
            == before,
        (exists|i: int| 0 <= i < draws.len() && !before.contains_key(#[trigger] draws[i]))
            ==> result is Ok,
        result matches Ok(reply) ==> {
            &&& !before.contains_key(reply.session)
            &&& after == before.insert(reply.session, name)
            &&& after.contains_key(reply.session) && after[reply.session] == name
            &&& exists|k: int|
                0 <= k < draws.len() && draws[k] == reply.session && (forall|i: int|
                    0 <= i < k ==> before.contains_key(#[trigger] draws[i]))
        },
{
    if result is Ok {
        let reply = result->Ok_0;
        assert(draws[draws.len() - 1] == reply.session);
    }
}

/// Two registrations that meet the same sessions and draw the same ids end alike,
/// whatever names they ask for: one succeeds exactly when the other does, under the
/// same session, and each records its own name there.
pub proof fn law_register_outcome_ignores_the_name(
    before: Map<u64, Seq<char>>,
    draws: Seq<u64>,
    name1: Seq<char>,
    result1: Result<Registered, ChatError>,
    after1: Map<u64, Seq<char>>,
    name2: Seq<char>,
    result2: Result<Registered, ChatError>,
    after2: Map<u64, Seq<char>>,
)
    requires
        register_outcome(before, name1, draws, result1, after1),
        register_outcome(before, name2, draws, result2, after2),
    ensures
        result1 is Ok <==> result2 is Ok,
        result1 == result2,
        after1.dom() == after2.dom(),
{
    if result1 is Ok {
        assert(after1.dom() =~= after2.dom());
    }
}

/// Registering a fresh session keeps every earlier session with its name.
pub proof fn law_registration_keeps_sessions(
    before: Map<u64, Seq<char>>,
    session: u64,
    name: Seq<char>,
    other: u64,
)
    requires
        !before.contains_key(session),
        before.contains_key(other),
    ensures
        before.insert(session, name).contains_key(other),
        before.insert(session, name)[other] == before[other],
        other != session,
{
}

/// The log only grows: posting either leaves it as it was or appends one message,
/// and every earlier message stays where it was.
pub proof fn law_log_is_append_only(
    sessions: Map<u64, Seq<char>>,
    log: Seq<MessageView>,
    session: u64,
    message: Seq<char>,
)
    ensures
        ({
            let (accepted, after) = say_outcome(sessions, log, session, message);
            &&& after.len() == log.len() + (if accepted {
                1int
            } else {
                0int
            })
            &&& after.subrange(0, log.len() as int) == log
        }),
{
    let (accepted, after) = say_outcome(sessions, log, session, message);
    assert(after.subrange(0, log.len() as int) =~= log);
}

/// A post under an unknown session is refused and leaves the log as it was.
pub proof fn law_unknown_session_is_refused(
    sessions: Map<u64, Seq<char>>,
    log: Seq<MessageView>,
    session: u64,
    message: Seq<char>,
)
    requires
        !sessions.contains_key(session),
    ensures
        say_outcome(sessions, log, session, message) == (false, log),
{
}

/// `trim_start` drops a run of white space from the front and nothing else.
proof fn lemma_trim_start_bounds(s: Seq<char>) -> (i: int)
    ensures
        0 <= i <= s.len(),
        trim_start(s) == s.subrange(i, s.len() as int),
        forall|k: int| 0 <= k < i ==> is_white_space(#[trigger] s[k]),
        i < s.len() ==> !is_white_space(s[i]),
    decreases s.len(),
{
    if s.len() > 0 && is_white_space(s[0]) {
        let k = lemma_trim_start_bounds(s.drop_first());
        assert(s.drop_first().subrange(k, s.len() - 1) =~= s.subrange(k + 1, s.len() as int));
        assert forall|j: int| 0 <= j < k + 1 implies is_white_space(#[trigger] s[j]) by {
            if j > 0 {
                assert(s[j] == s.drop_first()[j - 1]);
            }
        }
        k + 1
    } else {
        assert(s.subrange(0, s.len() as int) =~= s);
        0
    }
}

/// `trim_end` drops a run of white space from the back and nothing else.
proof fn lemma_trim_end_bounds(s: Seq<char>) -> (j: int)
    ensures
        0 <= j <= s.len(),
        trim_end(s) == s.subrange(0, j),
        forall|k: int| j <= k < s.len() ==> is_white_space(#[trigger] s[k]),
        j > 0 ==> !is_white_space(s[j - 1]),
    decreases s.len(),
{
    if s.len() > 0 && is_white_space(s.last()) {
        let k = lemma_trim_end_bounds(s.drop_last());
        assert(s.drop_last().subrange(0, k) =~= s.subrange(0, k));
        assert forall|i: int| k <= i < s.len() implies is_white_space(#[trigger] s[i]) by {
            if i < s.len() - 1 {
                assert(s[i] == s.drop_last()[i]);
            }
        }
        k
    } else {
        assert(s.subrange(0, s.len() as int) =~= s);
        s.len() as int
    }
}

/// Trimming removes exactly the white space at both ends: the result is the part of
/// the line between a white-space prefix and a white-space suffix, and it neither
/// starts nor ends with white space.
pub proof fn law_trim_removes_only_edge_white_space(s: Seq<char>)
    ensures
        exists|i: int, j: int|
            {
                &&& 0 <= i <= j <= s.len()
                &&& trimmed(s) == s.subrange(i, j)
                &&& forall|k: int| 0 <= k < i ==> is_white_space(#[trigger] s[k])
                &&& forall|k: int| j <= k < s.len() ==> is_white_space(#[trigger] s[k])
            },
        trimmed(s).len() > 0 ==> !is_white_space(trimmed(s)[0]) && !is_white_space(
            trimmed(s).last(),
        ),
{
    let i = lemma_trim_start_bounds(s);
    let u = trim_start(s);
    let j = lemma_trim_end_bounds(u);
    assert(trimmed(s) =~= s.subrange(i, i + j));
    assert forall|k: int| i + j <= k < s.len() implies is_white_space(#[trigger] s[k]) by {
        if k < s.len() {
            assert(s[k] == u[k - i]);
        }
    }
    if trimmed(s).len() > 0 {
        assert(trimmed(s)[0] == u[0]);
        assert(trimmed(s).last() == u[j - 1]);
    }
}

/// The client sends a line as it sends the line trimmed: trimming what is already
/// trimmed changes nothing; and a line of white space only goes out as the empty text.
pub proof fn law_client_sends_line_as_trimmed(s: Seq<char>)
    ensures
        trimmed(trimmed(s)) == trimmed(s),
        (forall|k: int| 0 <= k < s.len() ==> is_white_space(#[trigger] s[k])) ==> trimmed(s)
            == Seq::<char>::empty(),
{
    law_trim_is_idempotent(s);
    if forall|k: int| 0 <= k < s.len() ==> is_white_space(#[trigger] s[k]) {
        let i = lemma_trim_start_bounds(s);
        assert(i == s.len()) by {
            if i < s.len() {
                assert(is_white_space(s[i]));
            }
        }
        assert(trim_start(s) =~= Seq::<char>::empty());
    }
}

/// Trimming twice is trimming once.
pub proof fn law_trim_is_idempotent(s: Seq<char>)
    ensures
        trimmed(trimmed(s)) == trimmed(s),
{
    law_trim_removes_only_edge_white_space(s);
    let t = trimmed(s);
    let i = lemma_trim_start_bounds(t);
    assert(trim_start(t) == t) by {
        if t.len() > 0 {
            assert(i == 0);
        }
        assert(t.subrange(0, t.len() as int) =~= t);
    }
    let j = lemma_trim_end_bounds(t);
    assert(trim_end(t) == t) by {
        if t.len() > 0 {
            assert(j == t.len());
        }
        assert(t.subrange(0, t.len() as int) =~= t);
    }
}

} // verus!
