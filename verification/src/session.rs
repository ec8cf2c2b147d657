//! An upload from its request to its outcome.
//!
//! The handler of [`crate::upload`] decides one step at a time. This module
//! says what all its steps come to when a caller carries out each request
//! and reports back truthfully: which outcome the upload has and which files
//! the storage holds afterwards. The circumstances that the handler cannot
//! know in advance (how the form parses, what each body holds, which
//! identifier is drawn, whether a write succeeds) are gathered in a
//! [`Circumstances`] value, so that every statement here holds whatever
//! they are.

use vstd::prelude::*;
use crate::form::{
    admission, classification, is_file_part, lemma_next_file_part, next_file_part,
    PartHeaderView, MAX_UPLOAD_BYTES,
};
use crate::media::ImageKind;
use crate::reply::{Rejection, ResponseView};
use crate::storage::{file_name, stored_file_path, Files};
use crate::upload::{
    in_phase, initial, scan, success, transition, ActionView, EventView, Phase, UploadView,
};

verus! {

/// What there is to find out about one part of a form.
pub struct PartCircumstances {
    /// What the part declares.
    pub header: PartHeaderView,
    /// The chunks that reading the body yields, or `None` where reading it
    /// fails.
    pub body: Option<Seq<Seq<u8>>>,
    /// The identifier that is drawn if the part is stored.
    pub token: Seq<char>,
    /// Whether writing the part's file succeeds.
    pub writable: bool,
}

/// What there is to find out about one upload.
pub struct Circumstances {
    /// The content length that the request declares.
    pub content_length: Option<u64>,
    /// The parts of the form, or `None` where the form does not parse.
    pub form: Option<Seq<PartCircumstances>>,
}

/// How an upload ended: what its handler returned, and the files that there
/// are then.
pub struct Outcome {
    pub result: Result<ResponseView, Rejection>,
    pub files: Files,
}

/// The headers of the parts.
pub open spec fn headers_of(parts: Seq<PartCircumstances>) -> Seq<PartHeaderView> {
    parts.map_values(|p: PartCircumstances| p.header)
}

/// The parts of the form, none where it does not parse.
pub open spec fn parts_of(c: Circumstances) -> Seq<PartCircumstances> {
    match c.form {
        Some(parts) => parts,
        None => Seq::empty(),
    }
}

/// The report with which a truthful caller answers the request `action`,
/// and the files after it has carried the request out.
pub open spec fn answer(c: Circumstances, action: ActionView, files: Files) -> (EventView, Files) {
    match action {
        ActionView::CollectForm => match c.form {
            Some(parts) => (EventView::FormCollected(headers_of(parts)), files),
            None => (EventView::FormFailed, files),
        },
        ActionView::ReadBody { part } => match parts_of(c)[part as int].body {
            Some(chunks) => (EventView::BodyRead(chunks), files),
            None => (EventView::ReadFailed, files),
        },
        ActionView::StoreFile { part, name, bytes } => if parts_of(c)[part as int].writable {
            (EventView::FileStored, files.insert(stored_file_path(name), bytes))
        } else {
            (EventView::StoreFailed, files)
        },
        _ => (EventView::FormFailed, files),
    }
}

/// The identifier that is drawn in state `m`.
pub open spec fn drawn(c: Circumstances, m: UploadView) -> Seq<char> {
    match m.phase {
        Phase::Reading { part, kind } => parts_of(c)[part as int].token,
        _ => Seq::empty(),
    }
}

/// A handler between two steps: its state, and what it has asked for.
pub struct Session {
    pub m: UploadView,
    pub pending: ActionView,
}

/// The handler after its first step, in which it is told of the request.
pub open spec fn opening(c: Circumstances) -> Session {
    let (m, pending) = transition(
        initial(),
        EventView::Request { content_length: c.content_length },
        Seq::empty(),
    );
    Session { m, pending }
}

/// Whether the handler has nothing more to ask for.
pub open spec fn is_over(s: Session) -> bool {
    s.pending is Respond || s.pending is Reject || s.pending is Nothing
}

/// One turn: a truthful caller carries out what the handler has asked for
/// and reports back, and the handler takes its next step. A handler that has
/// nothing more to ask for stays as it is.
pub open spec fn turn(c: Circumstances, s: Session, files: Files) -> (Session, Files) {
    if is_over(s) {
        (s, files)
    } else {
        let (event, files_after) = answer(c, s.pending, files);
        let (m, pending) = transition(s.m, event, drawn(c, s.m));
        (Session { m, pending }, files_after)
    }
}

/// Runs the handler from `s` on for at most `fuel` turns. The result is
/// `None` where the handler has not given its outcome by then.
pub open spec fn drive(c: Circumstances, s: Session, files: Files, fuel: nat) -> Option<Outcome>
    decreases fuel,
{
    match s.pending {
        ActionView::Respond(response) => Some(Outcome { result: Ok(response), files }),
        ActionView::Reject(err) => Some(Outcome { result: Err(err), files }),
        ActionView::Nothing => None,
        _ => if fuel == 0 {
            None
        } else {
            let (next, files_after) = turn(c, s, files);
            drive(c, next, files_after, (fuel - 1) as nat)
        },
    }
}

/// Runs the handler on a request, from its first step to its outcome.
pub open spec fn run(c: Circumstances, files: Files) -> Option<Outcome> {
    drive(c, opening(c), files, 2 * parts_of(c).len() + 1)
}

/// The handler as it goes on to the parts from `from` on.
pub open spec fn scanning(m: UploadView, from: int) -> Session {
    Session { m: in_phase(m, scan(m.headers, from).0), pending: scan(m.headers, from).1 }
}

/// What becomes of the parts from `from` on, when `received` bytes have
/// been taken in before them: each part named `file` is validated, read and
/// written in turn, the others are passed over, and the first failure ends
/// the upload.
pub open spec fn process(parts: Seq<PartCircumstances>, from: int, received: nat, files: Files) -> Outcome
    decreases parts.len() - from,
{
    if from < 0 || from >= parts.len() {
        Outcome { result: Ok(success()), files }
    } else if !is_file_part(parts[from].header) {
        process(parts, from + 1, received, files)
    } else {
        match classification(parts[from].header.content_type) {
            Err(err) => Outcome { result: Err(err), files },
            Ok(kind) => match parts[from].body {
                None => Outcome { result: Err(Rejection::ReadError), files },
                Some(chunks) => {
                    let bytes = chunks.flatten();
                    if received + bytes.len() > MAX_UPLOAD_BYTES {
                        Outcome { result: Err(Rejection::PayloadTooLarge), files }
                    } else if !parts[from].writable {
                        Outcome { result: Err(Rejection::WriteError), files }
                    } else {
                        process(
                            parts,
                            from + 1,
                            received + bytes.len(),
                            files.insert(
                                stored_file_path(file_name(parts[from].token, kind)),
                                bytes,
                            ),
                        )
                    }
                },
            },
        }
    }
}

/// What becomes of an upload: it is refused by its declared length, or
/// fails to parse, or its parts are processed in order.
pub open spec fn upload_outcome(c: Circumstances, files: Files) -> Outcome {
    match admission(c.content_length) {
        Err(err) => Outcome { result: Err(err), files },
        Ok(_) => match c.form {
            None => Outcome { result: Err(Rejection::MalformedForm), files },
            Some(parts) => process(parts, 0, 0, files),
        },
    }
}

/// Parts that are not named `file` change nothing.
pub proof fn lemma_process_passes_over(
    parts: Seq<PartCircumstances>,
    from: int,
    to: int,
    received: nat,
    files: Files,
)
    requires
        0 <= from <= to <= parts.len(),
        forall|j: int| from <= j < to ==> !is_file_part(#[trigger] headers_of(parts)[j]),
    ensures
        process(parts, from, received, files) == process(parts, to, received, files),
    decreases to - from,
{
    if from < to {
        assert(!is_file_part(headers_of(parts)[from]));
        lemma_process_passes_over(parts, from + 1, to, received, files);
    }
}

/// The handler, run from the point where it goes on to the parts from
/// `from` on, comes to what [`process`] says.
pub proof fn lemma_drive_is_process(
    c: Circumstances,
    m: UploadView,
    from: int,
    files: Files,
    fuel: nat,
)
    requires
        c.form is Some,
        parts_of(c).len() <= usize::MAX,
        m.headers == headers_of(parts_of(c)),
        0 <= from <= parts_of(c).len(),
        fuel >= 2 * (parts_of(c).len() - from),
    ensures
        drive(c, scanning(m, from), files, fuel) == Some(
            process(parts_of(c), from, m.received, files),
        ),
    decreases parts_of(c).len() - from,
{
    let parts = parts_of(c);
    let headers = m.headers;
    lemma_next_file_part(headers, from);
    match next_file_part(headers, from) {
        None => {
            lemma_process_passes_over(parts, from, parts.len() as int, m.received, files);
        },
        Some(i) => {
            lemma_process_passes_over(parts, from, i, m.received, files);
            match classification(headers[i].content_type) {
                Err(_) => {},
                Ok(_) => {
                    let reading = scanning(m, from);
                    let storing = turn(c, reading, files).0;
                    assert(drive(c, reading, files, fuel) == drive(
                        c,
                        storing,
                        files,
                        (fuel - 1) as nat,
                    ));
                    if parts[i].body is Some {
                        let bytes = parts[i].body->Some_0.flatten();
                        if m.received + bytes.len() <= MAX_UPLOAD_BYTES {
                            let after = UploadView {
                                headers,
                                phase: Phase::Storing { part: i as usize },
                                received: m.received + bytes.len(),
                            };
                            let (next, files_after) = turn(c, storing, files);
                            assert(drive(c, storing, files, (fuel - 1) as nat) == drive(
                                c,
                                next,
                                files_after,
                                (fuel - 2) as nat,
                            ));
                            if parts[i].writable {
                                lemma_drive_is_process(
                                    c,
                                    after,
                                    i + 1,
                                    files_after,
                                    (fuel - 2) as nat,
                                );
                            }
                        }
                    }
                },
            }
        },
    }
}

/// Running the handler step by step comes to what [`upload_outcome`] says
/// in one: the handler always gives an outcome, and it is this one.
pub proof fn lemma_run_is_upload_outcome(c: Circumstances, files: Files)
    requires
        parts_of(c).len() <= usize::MAX,
    ensures
        run(c, files) == Some(upload_outcome(c, files)),
{
    let fuel = 2 * parts_of(c).len() + 1;
    let first = opening(c);
    if admission(c.content_length) is Ok {
        let next = turn(c, first, files).0;
        assert(drive(c, first, files, fuel) == drive(c, next, files, (fuel - 1) as nat));
        if c.form is Some {
            let collected = UploadView {
                headers: headers_of(parts_of(c)),
                phase: Phase::AwaitingForm,
                received: 0,
            };
            lemma_drive_is_process(c, collected, 0, files, (fuel - 1) as nat);
        }
    }
}

/// The kind that a part is stored as, where its content type is accepted.
pub open spec fn kind_of(part: PartCircumstances) -> ImageKind {
    match classification(part.header.content_type) {
        Ok(kind) => kind,
        Err(_) => ImageKind::Jpeg,
    }
}

/// The body of a part, where it can be read: its chunks joined.
pub open spec fn body_of(part: PartCircumstances) -> Seq<u8> {
    match part.body {
        Some(chunks) => chunks.flatten(),
        None => Seq::empty(),
    }
}

/// The name of the file that a part is stored under.
pub open spec fn stored_name(part: PartCircumstances) -> Seq<char> {
    file_name(part.token, kind_of(part))
}

/// The file that a part is stored in.
pub open spec fn stored_path(part: PartCircumstances) -> Seq<Seq<char>> {
    stored_file_path(stored_name(part))
}

/// Whether a part is named `file` and declares an accepted image type.
pub open spec fn is_accepted(part: PartCircumstances) -> bool {
    is_file_part(part.header) && classification(part.header.content_type) is Ok
}

/// Whether nothing stands in the way of storing a part, its size left
/// aside: its type is accepted, its body can be read and its file written.
pub open spec fn is_storable(part: PartCircumstances) -> bool {
    classification(part.header.content_type) is Ok && part.body is Some && part.writable
}

/// The number of body bytes in the parts named `file` from `from` on.
pub open spec fn file_bytes(parts: Seq<PartCircumstances>, from: int) -> nat
    decreases parts.len() - from,
{
    if from < 0 || from >= parts.len() {
        0
    } else if is_file_part(parts[from].header) {
        body_of(parts[from]).len() + file_bytes(parts, from + 1)
    } else {
        file_bytes(parts, from + 1)
    }
}

/// Whether an upload runs to its end: it is let in, its form parses, every
/// part named `file` can be stored, and their bodies together stay within
/// the ceiling.
pub open spec fn completes(c: Circumstances) -> bool {
    &&& admission(c.content_length) is Ok
    &&& c.form is Some
    &&& all_storable(parts_of(c), 0)
    &&& file_bytes(parts_of(c), 0) <= MAX_UPLOAD_BYTES
}

/// Whether each part named `file` from `from` on can be stored, its size
/// left aside.
pub open spec fn all_storable(parts: Seq<PartCircumstances>, from: int) -> bool {
    forall|i: int|
        from <= i < parts.len() && is_file_part(#[trigger] parts[i].header) ==> is_storable(
            parts[i],
        )
}

/// The parts from `from` on are processed without a failure exactly where
/// each part named `file` among them can be stored and their bodies fit
/// into what is left below the ceiling. The response is then the success
/// message.
pub proof fn lemma_process_succeeds_iff(
    parts: Seq<PartCircumstances>,
    from: int,
    received: nat,
    files: Files,
)
    requires
        0 <= from,
        received <= MAX_UPLOAD_BYTES,
    ensures
        process(parts, from, received, files).result is Ok <==> all_storable(parts, from)
            && received + file_bytes(parts, from) <= MAX_UPLOAD_BYTES,
        process(parts, from, received, files).result is Ok ==> process(
            parts,
            from,
            received,
            files,
        ).result == Ok::<ResponseView, Rejection>(success()),
    decreases parts.len() - from,
{
    if from < parts.len() {
        let part = parts[from];
        assert(all_storable(parts, from) <==> (is_file_part(part.header) ==> is_storable(part))
            && all_storable(parts, from + 1));
        if !is_file_part(part.header) {
            lemma_process_succeeds_iff(parts, from + 1, received, files);
        } else if is_storable(part) && received + body_of(part).len() <= MAX_UPLOAD_BYTES {
            lemma_process_succeeds_iff(
                parts,
                from + 1,
                received + body_of(part).len(),
                files.insert(stored_path(part), body_of(part)),
            );
        }
    }
}

/// Processing parts removes no file, and leaves a file's contents as they
/// are unless an accepted part with another body is stored in it.
pub proof fn lemma_process_keeps(
    parts: Seq<PartCircumstances>,
    from: int,
    received: nat,
    files: Files,
    path: Seq<Seq<char>>,
)
    requires
        0 <= from,
        files.contains_key(path),
        forall|i: int|
            from <= i < parts.len() && is_accepted(#[trigger] parts[i]) && stored_path(parts[i])
                == path ==> body_of(parts[i]) == files[path],
    ensures
        process(parts, from, received, files).files.contains_key(path),
        process(parts, from, received, files).files[path] == files[path],
    decreases parts.len() - from,
{
    if from < parts.len() {
        let part = parts[from];
        if !is_file_part(part.header) {
            lemma_process_keeps(parts, from + 1, received, files, path);
        } else if is_storable(part) && received + body_of(part).len() <= MAX_UPLOAD_BYTES {
            let files_after = files.insert(stored_path(part), body_of(part));
            lemma_process_keeps(
                parts,
                from + 1,
                received + body_of(part).len(),
                files_after,
                path,
            );
        }
    }
}

/// Whether every part after part `i` that is stored in the same file as
/// part `i` has the same body.
pub open spec fn is_not_overwritten(parts: Seq<PartCircumstances>, i: int) -> bool {
    forall|j: int|
        i < j < parts.len() && is_accepted(#[trigger] parts[j]) && stored_path(parts[j])
            == stored_path(parts[i]) ==> body_of(parts[j]) == body_of(parts[i])
}

/// Where the parts from `from` on are processed without a failure, the file
/// of each part named `file` among them exists afterwards, and holds the
/// body of that part unless a later part overwrote it.
pub proof fn lemma_process_stores(
    parts: Seq<PartCircumstances>,
    from: int,
    received: nat,
    files: Files,
    i: int,
)
    requires
        0 <= from <= i < parts.len(),
        is_file_part(parts[i].header),
        process(parts, from, received, files).result is Ok,
    ensures
        is_storable(parts[i]),
        process(parts, from, received, files).files.contains_key(stored_path(parts[i])),
        is_not_overwritten(parts, i) ==> process(parts, from, received, files).files[stored_path(
            parts[i],
        )] == body_of(parts[i]),
    decreases parts.len() - from,
{
    let part = parts[from];
    if !is_file_part(part.header) {
        lemma_process_stores(parts, from + 1, received, files, i);
    } else {
        let files_after = files.insert(stored_path(part), body_of(part));
        let taken = received + body_of(part).len();
        if from < i {
            lemma_process_stores(parts, from + 1, taken, files_after, i);
        } else {
            if is_not_overwritten(parts, i) {
                lemma_process_keeps(parts, from + 1, taken, files_after, stored_path(part));
            } else {
                lemma_process_contains(parts, from + 1, taken, files_after, stored_path(part));
            }
        }
    }
}

/// Processing parts removes no file.
pub proof fn lemma_process_contains(
    parts: Seq<PartCircumstances>,
    from: int,
    received: nat,
    files: Files,
    path: Seq<Seq<char>>,
)
    requires
        0 <= from,
        files.contains_key(path),
    ensures
        process(parts, from, received, files).files.contains_key(path),
    decreases parts.len() - from,
{
    if from < parts.len() {
        let part = parts[from];
        if !is_file_part(part.header) {
            lemma_process_contains(parts, from + 1, received, files, path);
        } else if is_storable(part) && received + body_of(part).len() <= MAX_UPLOAD_BYTES {
            lemma_process_contains(
                parts,
                from + 1,
                received + body_of(part).len(),
                files.insert(stored_path(part), body_of(part)),
                path,
            );
        }
    }
}

} // verus!
