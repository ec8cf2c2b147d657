//! Several uploads at once.
//!
//! Each upload has a handler of its own; the handlers share nothing but the
//! files. A schedule says whose turn it is, turn by turn, so that every
//! order in which the steps of the uploads can fall is some schedule.

use vstd::prelude::*;
use crate::form::{classification, is_file_part, lemma_next_file_part};
use crate::guarantees::lemma_upload_succeeds_iff;
use crate::media::ImageKind;
use crate::reply::{Rejection, ResponseView};
use crate::session::{
    body_of, completes, drive, headers_of, is_accepted, is_over, kind_of,
    lemma_run_is_upload_outcome, opening, parts_of, stored_name, stored_path, turn,
    upload_outcome, Circumstances, PartCircumstances, Session,
};
use crate::storage::{lemma_file_name_is_injective, lemma_stored_file_path_is_injective, Files};
use crate::upload::{success, ActionView, Phase};

verus! {

/// The handlers of the uploads `cs`, each after its first step.
pub open spec fn openings(cs: Seq<Circumstances>) -> Seq<Session> {
    cs.map_values(|c: Circumstances| opening(c))
}

/// Gives the uploads their turns in the order of `schedule`, which names
/// the upload to go next by its index. An entry that names no upload is
/// passed over.
pub open spec fn interleave(
    cs: Seq<Circumstances>,
    sessions: Seq<Session>,
    files: Files,
    schedule: Seq<int>,
) -> (Seq<Session>, Files)
    decreases schedule.len(),
{
    if schedule.len() == 0 {
        (sessions, files)
    } else {
        let k = schedule[0];
        if 0 <= k < sessions.len() && k < cs.len() {
            let (next, files_after) = turn(cs[k], sessions[k], files);
            interleave(cs, sessions.update(k, next), files_after, schedule.drop_first())
        } else {
            interleave(cs, sessions, files, schedule.drop_first())
        }
    }
}

/// What the handler has returned, once it has nothing more to ask for.
pub open spec fn verdict(s: Session) -> Option<Result<ResponseView, Rejection>> {
    match s.pending {
        ActionView::Respond(response) => Some(Ok(response)),
        ActionView::Reject(err) => Some(Err(err)),
        _ => None,
    }
}

/// The handler `n` turns after `s`.
pub open spec fn turns_from(c: Circumstances, s: Session, n: nat) -> Session
    decreases n,
{
    if n == 0 {
        s
    } else {
        turns_from(c, turn(c, s, Map::empty()).0, (n - 1) as nat)
    }
}

/// Whether every form has no more parts than a vector can hold.
pub open spec fn forms_fit(cs: Seq<Circumstances>) -> bool {
    forall|k: int| 0 <= k < cs.len() ==> (#[trigger] parts_of(cs[k])).len() <= usize::MAX
}

/// Whether no identifier is drawn twice over the parts of the uploads `cs`
/// that can be stored.
pub open spec fn no_collision(cs: Seq<Circumstances>) -> bool {
    forall|a: int, i: int, b: int, j: int|
        0 <= a < cs.len() && 0 <= b < cs.len() && 0 <= i < parts_of(cs[a]).len() && 0 <= j
            < parts_of(cs[b]).len() && !(a == b && i == j) && is_accepted(
            #[trigger] parts_of(cs[a])[i],
        ) && is_accepted(#[trigger] parts_of(cs[b])[j]) ==> parts_of(cs[a])[i].token != parts_of(
            cs[b],
        )[j].token
}

/// Whether the file of `part` is there and holds the body of `part`.
pub open spec fn holds(files: Files, part: PartCircumstances) -> bool {
    files.contains_key(stored_path(part)) && files[stored_path(part)] == body_of(part)
}

/// Whether the handler is where a handler of the upload `c` can be: what it
/// has asked for fits its phase and the parts of the form.
pub open spec fn on_track(c: Circumstances, s: Session) -> bool {
    match s.m.phase {
        Phase::Idle => false,
        Phase::AwaitingForm => s.pending == ActionView::CollectForm,
        Phase::Reading { part, kind } => {
            &&& c.form is Some
            &&& s.m.headers == headers_of(parts_of(c))
            &&& part < parts_of(c).len()
            &&& is_file_part(parts_of(c)[part as int].header)
            &&& classification(parts_of(c)[part as int].header.content_type) == Ok::<
                ImageKind,
                Rejection,
            >(kind)
            &&& s.pending == ActionView::ReadBody { part }
        },
        Phase::Storing { part } => {
            &&& c.form is Some
            &&& s.m.headers == headers_of(parts_of(c))
            &&& part < parts_of(c).len()
            &&& is_accepted(parts_of(c)[part as int])
            &&& s.pending == ActionView::StoreFile {
                part,
                name: stored_name(parts_of(c)[part as int]),
                bytes: body_of(parts_of(c)[part as int]),
            }
        },
        Phase::Finished => s.pending is Respond || s.pending is Reject,
    }
}

/// Whether the handler has had part `i` stored: part `i` is named `file`
/// and the handler has gone on beyond it.
pub open spec fn has_stored(c: Circumstances, s: Session, i: int) -> bool {
    &&& 0 <= i < parts_of(c).len()
    &&& is_file_part(parts_of(c)[i].header)
    &&& match s.m.phase {
        Phase::Reading { part, kind } => i < part,
        Phase::Storing { part } => i < part,
        Phase::Finished => s.pending is Respond,
        _ => false,
    }
}

/// Whether each handler is where some number of turns of its own take it.
pub open spec fn in_step(cs: Seq<Circumstances>, sessions: Seq<Session>) -> bool {
    &&& sessions.len() == cs.len()
    &&& forall|k: int|
        0 <= k < cs.len() ==> on_track(cs[k], #[trigger] sessions[k]) && exists|n: nat|
            sessions[k] == turns_from(cs[k], opening(cs[k]), n)
}

/// Whether every part that a handler has had stored can be stored and is in
/// its file.
pub open spec fn all_kept(cs: Seq<Circumstances>, sessions: Seq<Session>, files: Files) -> bool {
    forall|k: int, i: int|
        0 <= k < cs.len() && #[trigger] has_stored(cs[k], sessions[k], i) ==> is_accepted(
            parts_of(cs[k])[i],
        ) && holds(files, parts_of(cs[k])[i])
}

/// Two parts that have different identifiers are stored in different
/// files.
pub proof fn lemma_distinct_tokens_distinct_files(a: PartCircumstances, b: PartCircumstances)
    requires
        a.token != b.token,
    ensures
        stored_name(a) != stored_name(b),
        stored_path(a) != stored_path(b),
{
    if stored_name(a) == stored_name(b) {
        lemma_file_name_is_injective(a.token, kind_of(a), b.token, kind_of(b));
    }
    if stored_path(a) == stored_path(b) {
        lemma_stored_file_path_is_injective(stored_name(a), stored_name(b));
    }
}

/// A turn more at the end is a turn more at the start.
pub proof fn lemma_one_more_turn(c: Circumstances, s: Session, n: nat, files: Files)
    ensures
        turn(c, turns_from(c, s, n), files).0 == turns_from(c, s, n + 1),
    decreases n,
{
    let first = turn(c, s, Map::empty()).0;
    assert(turns_from(c, s, n + 1) == turns_from(c, first, n));
    if n > 0 {
        lemma_one_more_turn(c, first, (n - 1) as nat, files);
    } else {
        lemma_turn_ignores_files(c, s, files, Map::empty());
    }
}

/// The step that a handler takes does not depend on the files.
pub proof fn lemma_turn_ignores_files(c: Circumstances, s: Session, f1: Files, f2: Files)
    ensures
        turn(c, s, f1).0 == turn(c, s, f2).0,
{
}

/// A turn of a handler that is on track leaves it on track; it changes no
/// file but the one of the part that the handler has asked to be stored;
/// and the parts that the handler has had stored afterwards are those from
/// before and that one.
pub proof fn lemma_turn_keeps_on_track(c: Circumstances, s: Session, files: Files)
    requires
        parts_of(c).len() <= usize::MAX,
        on_track(c, s),
    ensures
        on_track(c, turn(c, s, files).0),
        turn(c, s, files).1 == files || (s.m.phase matches Phase::Storing { part } && turn(
            c,
            s,
            files,
        ).1 == files.insert(
            stored_path(parts_of(c)[part as int]),
            body_of(parts_of(c)[part as int]),
        )),
        forall|i: int| #[trigger]
            has_stored(c, turn(c, s, files).0, i) ==> has_stored(c, s, i) || (s.m.phase matches Phase::Storing {
                part,
            } && i == part && is_accepted(parts_of(c)[i]) && holds(
                turn(c, s, files).1,
                parts_of(c)[i],
            )),
{
    let parts = parts_of(c);
    let headers = headers_of(parts);
    let (next, after) = turn(c, s, files);
    if !is_over(s) {
        match s.m.phase {
            Phase::AwaitingForm => {
                if c.form is Some {
                    lemma_next_file_part(headers, 0);
                    assert forall|i: int| #[trigger] has_stored(c, next, i) implies false by {
                        assert(headers[i] == parts[i].header);
                    }
                }
            },
            Phase::Storing { part } => {
                if parts[part as int].writable {
                    lemma_next_file_part(headers, part + 1);
                    assert forall|i: int| #[trigger] has_stored(c, next, i) implies has_stored(
                        c,
                        s,
                        i,
                    ) || (i == part && is_accepted(parts[i]) && holds(after, parts[i])) by {
                        assert(headers[i] == parts[i].header);
                    }
                }
            },
            _ => {},
        }
    }
}

/// One turn of one upload leaves the handlers in step.
pub proof fn lemma_turn_keeps_in_step(
    cs: Seq<Circumstances>,
    sessions: Seq<Session>,
    files: Files,
    k: int,
)
    requires
        forms_fit(cs),
        in_step(cs, sessions),
        0 <= k < cs.len(),
    ensures
        in_step(cs, sessions.update(k, turn(cs[k], sessions[k], files).0)),
{
    let next = turn(cs[k], sessions[k], files).0;
    let sessions_after = sessions.update(k, next);
    lemma_turn_keeps_on_track(cs[k], sessions[k], files);
    assert forall|a: int| 0 <= a < cs.len() implies on_track(cs[a], #[trigger] sessions_after[a])
        && exists|n: nat| sessions_after[a] == turns_from(cs[a], opening(cs[a]), n) by {
        if a == k {
            let n = choose|n: nat| sessions[k] == turns_from(cs[k], opening(cs[k]), n);
            lemma_one_more_turn(cs[k], opening(cs[k]), n, files);
        }
    }
}

/// One turn of one upload loses no part that a handler has had stored,
/// where no identifier is drawn twice.
pub proof fn lemma_turn_keeps_all(
    cs: Seq<Circumstances>,
    sessions: Seq<Session>,
    files: Files,
    k: int,
)
    requires
        forms_fit(cs),
        no_collision(cs),
        in_step(cs, sessions),
        all_kept(cs, sessions, files),
        0 <= k < cs.len(),
    ensures
        all_kept(cs, sessions.update(k, turn(cs[k], sessions[k], files).0), turn(
            cs[k],
            sessions[k],
            files,
        ).1),
{
    let c = cs[k];
    let s = sessions[k];
    let (next, after) = turn(c, s, files);
    let sessions_after = sessions.update(k, next);
    lemma_turn_keeps_on_track(c, s, files);
    assert forall|a: int, i: int|
        0 <= a < cs.len() && #[trigger] has_stored(
            cs[a],
            sessions_after[a],
            i,
        ) implies is_accepted(parts_of(cs[a])[i]) && holds(after, parts_of(cs[a])[i]) by {
        if has_stored(cs[a], sessions[a], i) && after != files {
            let written = parts_of(c)[s.m.phase->Storing_part as int];
            lemma_distinct_tokens_distinct_files(parts_of(cs[a])[i], written);
        }
    }
}

/// Whatever the schedule, the handlers stay in step, and where no
/// identifier is drawn twice, no part that a handler has had stored is
/// lost.
pub proof fn lemma_interleave_keeps(
    cs: Seq<Circumstances>,
    sessions: Seq<Session>,
    files: Files,
    schedule: Seq<int>,
)
    requires
        forms_fit(cs),
        in_step(cs, sessions),
    ensures
        in_step(cs, interleave(cs, sessions, files, schedule).0),
        no_collision(cs) && all_kept(cs, sessions, files) ==> all_kept(
            cs,
            interleave(cs, sessions, files, schedule).0,
            interleave(cs, sessions, files, schedule).1,
        ),
    decreases schedule.len(),
{
    if schedule.len() > 0 {
        let k = schedule[0];
        if 0 <= k < cs.len() {
            let (next, files_after) = turn(cs[k], sessions[k], files);
            lemma_turn_keeps_in_step(cs, sessions, files, k);
            if no_collision(cs) && all_kept(cs, sessions, files) {
                lemma_turn_keeps_all(cs, sessions, files, k);
            }
            lemma_interleave_keeps(cs, sessions.update(k, next), files_after, schedule.drop_first());
        } else {
            lemma_interleave_keeps(cs, sessions, files, schedule.drop_first());
        }
    }
}

/// At the start the handlers are in step, and none has had a part stored.
pub proof fn lemma_openings_are_in_step(cs: Seq<Circumstances>, files: Files)
    ensures
        in_step(cs, openings(cs)),
        all_kept(cs, openings(cs), files),
{
    assert forall|k: int| 0 <= k < cs.len() implies on_track(cs[k], #[trigger] openings(cs)[k])
        && exists|n: nat| openings(cs)[k] == turns_from(cs[k], opening(cs[k]), n) by {
        assert(openings(cs)[k] == turns_from(cs[k], opening(cs[k]), 0));
    }
}

/// A handler that has nothing more to ask for after some number of turns
/// has returned what running it to its outcome gives.
pub proof fn lemma_turns_end_as_drive(
    c: Circumstances,
    s: Session,
    files: Files,
    fuel: nat,
    n: nat,
)
    requires
        drive(c, s, files, fuel) is Some,
        is_over(turns_from(c, s, n)),
    ensures
        verdict(turns_from(c, s, n)) == Some(drive(c, s, files, fuel)->Some_0.result),
    decreases n,
{
    if is_over(s) {
        lemma_rest_after_end(c, s, n);
    } else {
        lemma_turns_end_as_drive(
            c,
            turn(c, s, files).0,
            turn(c, s, files).1,
            (fuel - 1) as nat,
            (n - 1) as nat,
        );
    }
}

/// A handler that has nothing more to ask for stays as it is.
pub proof fn lemma_rest_after_end(c: Circumstances, s: Session, n: nat)
    requires
        is_over(s),
    ensures
        turns_from(c, s, n) == s,
    decreases n,
{
    if n > 0 {
        lemma_rest_after_end(c, s, (n - 1) as nat);
    }
}

/// An upload among others ends as it would alone: once its handler has
/// nothing more to ask for, it has returned what [`upload_outcome`] says,
/// however the turns of the uploads have fallen.
pub proof fn lemma_concurrent_upload_ends_as_alone(
    cs: Seq<Circumstances>,
    files: Files,
    schedule: Seq<int>,
    k: int,
)
    requires
        forms_fit(cs),
        0 <= k < cs.len(),
        is_over(interleave(cs, openings(cs), files, schedule).0[k]),
    ensures
        verdict(interleave(cs, openings(cs), files, schedule).0[k]) == Some(
            upload_outcome(cs[k], files).result,
        ),
{
    let c = cs[k];
    let s = interleave(cs, openings(cs), files, schedule).0[k];
    lemma_openings_are_in_step(cs, files);
    lemma_interleave_keeps(cs, openings(cs), files, schedule);
    let n = choose|n: nat| s == turns_from(c, opening(c), n);
    lemma_run_is_upload_outcome(c, files);
    lemma_turns_end_as_drive(c, opening(c), files, 2 * parts_of(c).len() + 1, n);
}

/// Uploads at once overwrite nothing of one another, where no identifier
/// is drawn twice: however their turns have fallen, every part that a
/// handler has had stored is in its file, with its own bytes. Of an upload
/// that has ended with its response, these are all its parts named `file`.
pub proof fn lemma_concurrent_uploads_keep_their_files(
    cs: Seq<Circumstances>,
    files: Files,
    schedule: Seq<int>,
    k: int,
    i: int,
)
    requires
        forms_fit(cs),
        no_collision(cs),
        0 <= k < cs.len(),
        0 <= i < parts_of(cs[k]).len(),
        is_file_part(parts_of(cs[k])[i].header),
    ensures
        has_stored(cs[k], interleave(cs, openings(cs), files, schedule).0[k], i) ==> holds(
            interleave(cs, openings(cs), files, schedule).1,
            parts_of(cs[k])[i],
        ),
        interleave(cs, openings(cs), files, schedule).0[k].pending is Respond ==> holds(
            interleave(cs, openings(cs), files, schedule).1,
            parts_of(cs[k])[i],
        ),
{
    lemma_openings_are_in_step(cs, files);
    lemma_interleave_keeps(cs, openings(cs), files, schedule);
    let s = interleave(cs, openings(cs), files, schedule).0[k];
    if s.pending is Respond {
        assert(has_stored(cs[k], s, i));
    }
}

/// Uploads at once that each can run to its end all succeed, and each of
/// their files is stored under a name of its own with its own bytes, where
/// no identifier is drawn twice: once a handler has nothing more to ask
/// for, it has returned `200 Success`, and each of its parts named `file`
/// is in its file, which is the file of no other part of any of the
/// uploads.
pub proof fn lemma_concurrent_uploads_all_succeed(
    cs: Seq<Circumstances>,
    files: Files,
    schedule: Seq<int>,
    k: int,
    i: int,
)
    requires
        forms_fit(cs),
        no_collision(cs),
        forall|a: int| 0 <= a < cs.len() ==> completes(#[trigger] cs[a]),
        0 <= k < cs.len(),
        0 <= i < parts_of(cs[k]).len(),
        is_file_part(parts_of(cs[k])[i].header),
        is_over(interleave(cs, openings(cs), files, schedule).0[k]),
    ensures
        interleave(cs, openings(cs), files, schedule).0[k].pending == ActionView::Respond(
            success(),
        ),
        holds(interleave(cs, openings(cs), files, schedule).1, parts_of(cs[k])[i]),
        forall|b: int, j: int|
            0 <= b < cs.len() && 0 <= j < parts_of(cs[b]).len() && !(b == k && j == i)
                && is_file_part((#[trigger] parts_of(cs[b])[j]).header) ==> stored_path(
                parts_of(cs[b])[j],
            ) != stored_path(parts_of(cs[k])[i]),
{
    lemma_concurrent_upload_ends_as_alone(cs, files, schedule, k);
    lemma_upload_succeeds_iff(cs[k], files);
    lemma_concurrent_uploads_keep_their_files(cs, files, schedule, k, i);
    assert forall|b: int, j: int|
        0 <= b < cs.len() && 0 <= j < parts_of(cs[b]).len() && !(b == k && j == i) && is_file_part(
            (#[trigger] parts_of(cs[b])[j]).header,
        ) implies stored_path(parts_of(cs[b])[j]) != stored_path(parts_of(cs[k])[i]) by {
        lemma_distinct_tokens_distinct_files(parts_of(cs[b])[j], parts_of(cs[k])[i]);
    }
}

} // verus!
