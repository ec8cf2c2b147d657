//! What holds of every upload, whatever its circumstances.
//!
//! Each statement is about [`upload_outcome`], and says with it that this is
//! what the handler comes to when it is run step by step ([`run`]), for
//! every form that a vector can hold.

use vstd::prelude::*;
use crate::form::{
    admission, classification, is_file_part, lemma_classification, lemma_next_file_part,
    next_file_part, MAX_UPLOAD_BYTES,
};
use crate::reply::{
    final_response, lemma_rejection_is_failure, plain_message, Rejection, ResponseView,
    STATUS_BAD_REQUEST, STATUS_OK,
};
use crate::router::{lemma_stored_name_is_routed, route_of, Method, RouteView};
use crate::session::{
    all_storable, body_of, completes, file_bytes, headers_of, is_not_overwritten,
    is_storable, kind_of, lemma_process_passes_over, lemma_process_stores,
    lemma_process_succeeds_iff, lemma_run_is_upload_outcome, parts_of, process, run,
    stored_name, stored_path, upload_outcome, Circumstances, Outcome, PartCircumstances,
};
use crate::storage::{
    file_name, lemma_file_name_extension, lemma_raw_path_of_stored_name, raw_download,
    stored_file_path, Files,
};
use crate::text::ends_with;
use crate::upload::success;

verus! {

/// Whether the form has no more parts than a vector can hold.
pub open spec fn form_fits(c: Circumstances) -> bool {
    parts_of(c).len() <= usize::MAX
}

/// An upload ends with `200 Success` exactly where it is let in, its form
/// parses, every part named `file` can be stored and their bodies together
/// stay within the ceiling; otherwise it ends with a rejection.
pub proof fn lemma_upload_succeeds_iff(c: Circumstances, files: Files)
    ensures
        form_fits(c) ==> run(c, files) == Some(upload_outcome(c, files)),
        upload_outcome(c, files).result is Ok <==> completes(c),
        completes(c) ==> upload_outcome(c, files).result == Ok::<ResponseView, Rejection>(
            success(),
        ),
        success() == plain_message(STATUS_OK, "Success"@),
{
    if form_fits(c) {
        lemma_run_is_upload_outcome(c, files);
    }
    if admission(c.content_length) is Ok && c.form is Some {
        lemma_process_succeeds_iff(parts_of(c), 0, 0, files);
    }
}

/// After a `200` response, every part named `file` declared one of the two
/// accepted image types, and a file exists in the upload directory whose
/// name is the identifier drawn for the part, a dot, and the extension of
/// the declared type.
pub proof fn lemma_completed_upload_stores_each_file(c: Circumstances, files: Files, i: int)
    requires
        upload_outcome(c, files).result is Ok,
        0 <= i < parts_of(c).len(),
        is_file_part(parts_of(c)[i].header),
    ensures
        form_fits(c) ==> run(c, files) == Some(upload_outcome(c, files)),
        parts_of(c)[i].header.content_type == Some(kind_of(parts_of(c)[i]).mime()),
        upload_outcome(c, files).files.contains_key(
            stored_file_path(file_name(parts_of(c)[i].token, kind_of(parts_of(c)[i]))),
        ),
        ends_with(
            file_name(parts_of(c)[i].token, kind_of(parts_of(c)[i])),
            seq!['.'] + kind_of(parts_of(c)[i]).ext(),
        ),
{
    if form_fits(c) {
        lemma_run_is_upload_outcome(c, files);
    }
    let part = parts_of(c)[i];
    lemma_process_stores(parts_of(c), 0, 0, files, i);
    lemma_classification(part.header.content_type, kind_of(part));
    lemma_file_name_extension(part.token, kind_of(part));
}

/// Whether part `i` of the form is named `file` and declares no content
/// type, or one that is not accepted.
pub open spec fn has_rejected_type(c: Circumstances, i: int) -> bool {
    &&& 0 <= i < parts_of(c).len()
    &&& is_file_part(parts_of(c)[i].header)
    &&& classification(parts_of(c)[i].header.content_type) is Err
}

/// Whether the first part named `file` is written to the storage: the
/// upload gets as far as that part, and nothing stands in its way.
pub open spec fn first_file_is_stored(c: Circumstances) -> bool {
    &&& admission(c.content_length) is Ok
    &&& c.form is Some
    &&& match next_file_part(headers_of(parts_of(c)), 0) {
        Some(first) => is_storable(parts_of(c)[first]) && body_of(parts_of(c)[first]).len()
            <= MAX_UPLOAD_BYTES,
        None => false,
    }
}

/// An upload with a part named `file` whose content type is missing or not
/// accepted ends with a rejection, and so with a status other than 200.
pub proof fn lemma_rejected_type_fails_upload(c: Circumstances, files: Files, i: int)
    requires
        has_rejected_type(c, i),
    ensures
        form_fits(c) ==> run(c, files) == Some(upload_outcome(c, files)),
        upload_outcome(c, files).result is Err,
        final_response(upload_outcome(c, files).result).status != STATUS_OK,
{
    if form_fits(c) {
        lemma_run_is_upload_outcome(c, files);
    }
    if admission(c.content_length) is Ok && c.form is Some {
        lemma_process_succeeds_iff(parts_of(c), 0, 0, files);
    }
    lemma_rejection_is_failure(upload_outcome(c, files).result->Err_0);
}

/// An upload with a part named `file` whose content type is missing or not
/// accepted writes no file, unless a part before that one had been stored
/// by the time the handler came to it: the parts are taken in order, and
/// what was written stays.
pub proof fn lemma_rejected_type_writes_nothing(c: Circumstances, files: Files, i: int)
    requires
        has_rejected_type(c, i),
        !first_file_is_stored(c),
    ensures
        form_fits(c) ==> run(c, files) == Some(upload_outcome(c, files)),
        upload_outcome(c, files).files == files,
        upload_outcome(c, files).result is Err,
{
    if form_fits(c) {
        lemma_run_is_upload_outcome(c, files);
    }
    lemma_rejected_type_fails_upload(c, files, i);
    if admission(c.content_length) is Ok && c.form is Some {
        let parts = parts_of(c);
        let headers = headers_of(parts);
        lemma_next_file_part(headers, 0);
        assert(is_file_part(headers[i]));
        let first = next_file_part(headers, 0)->Some_0;
        lemma_process_passes_over(parts, 0, first, 0, files);
    }
}

/// An upload that declares more bytes than the ceiling is answered with
/// `400 Payload too large`, and writes no file.
pub proof fn lemma_oversized_upload_is_refused(c: Circumstances, files: Files)
    requires
        c.content_length is Some,
        c.content_length->Some_0 > MAX_UPLOAD_BYTES,
    ensures
        form_fits(c) ==> run(c, files) == Some(upload_outcome(c, files)),
        upload_outcome(c, files) == (Outcome {
            result: Err(Rejection::PayloadTooLarge),
            files,
        }),
        final_response(upload_outcome(c, files).result) == plain_message(
            STATUS_BAD_REQUEST,
            "Payload too large"@,
        ),
{
    if form_fits(c) {
        lemma_run_is_upload_outcome(c, files);
    }
}

/// Where the parts named `file` from `from` on can all be stored but hold
/// more bytes than are left below the ceiling, the upload is rejected as
/// too large.
pub proof fn lemma_oversized_bodies_are_refused(
    parts: Seq<PartCircumstances>,
    from: int,
    received: nat,
    files: Files,
)
    requires
        0 <= from,
        all_storable(parts, from),
        received + file_bytes(parts, from) > MAX_UPLOAD_BYTES,
        received <= MAX_UPLOAD_BYTES,
    ensures
        process(parts, from, received, files).result == Err::<ResponseView, Rejection>(
            Rejection::PayloadTooLarge,
        ),
    decreases parts.len() - from,
{
    if from < parts.len() {
        let part = parts[from];
        if !is_file_part(part.header) {
            lemma_oversized_bodies_are_refused(parts, from + 1, received, files);
        } else {
            if received + body_of(part).len() <= MAX_UPLOAD_BYTES {
                lemma_oversized_bodies_are_refused(
                    parts,
                    from + 1,
                    received + body_of(part).len(),
                    files.insert(stored_path(part), body_of(part)),
                );
            }
        }
    }
}

/// An upload whose bodies together exceed the ceiling, though it declared
/// a length within it, is answered with `400 Payload too large` as well.
pub proof fn lemma_oversized_form_is_refused(c: Circumstances, files: Files)
    requires
        admission(c.content_length) is Ok,
        c.form is Some,
        all_storable(parts_of(c), 0),
        file_bytes(parts_of(c), 0) > MAX_UPLOAD_BYTES,
    ensures
        form_fits(c) ==> run(c, files) == Some(upload_outcome(c, files)),
        final_response(upload_outcome(c, files).result) == plain_message(
            STATUS_BAD_REQUEST,
            "Payload too large"@,
        ),
{
    if form_fits(c) {
        lemma_run_is_upload_outcome(c, files);
    }
    lemma_oversized_bodies_are_refused(parts_of(c), 0, 0, files);
}

/// Round trip: after a `200` response, a raw download of
/// `/v1/image/raw/<name>`, where `<name>` is the name that a part was stored
/// under, reaches the raw handler and yields the bytes of that part, byte
/// for byte. This holds of every part that no later part of the same form
/// overwrote (which takes a repeated identifier).
pub proof fn lemma_stored_file_is_served(c: Circumstances, files: Files, i: int)
    requires
        upload_outcome(c, files).result is Ok,
        0 <= i < parts_of(c).len(),
        is_file_part(parts_of(c)[i].header),
        is_not_overwritten(parts_of(c), i),
    ensures
        form_fits(c) ==> run(c, files) == Some(upload_outcome(c, files)),
        route_of(Method::Get, seq!["v1"@, "image"@, "raw"@, stored_name(parts_of(c)[i])]) == Ok::<
            RouteView,
            Rejection,
        >(RouteView::Raw(seq![stored_name(parts_of(c)[i])])),
        raw_download(upload_outcome(c, files).files, seq![stored_name(parts_of(c)[i])]) == Ok::<
            Seq<u8>,
            Rejection,
        >(body_of(parts_of(c)[i])),
{
    if form_fits(c) {
        lemma_run_is_upload_outcome(c, files);
    }
    let name = stored_name(parts_of(c)[i]);
    lemma_process_stores(parts_of(c), 0, 0, files, i);
    lemma_stored_name_is_routed(name);
    lemma_raw_path_of_stored_name(name);
}

} // verus!
