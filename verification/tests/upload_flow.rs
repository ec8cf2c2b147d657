use std::collections::HashMap;

use uimage::form::{PartHeader, MAX_UPLOAD_BYTES};
use uimage::reply::{handle_rejection, respond, Media, Rejection, Response};
use uimage::router::{route, Method, Route};
use uimage::storage::{raw_file, stored_file};
use uimage::upload::{Phase, Upload, UploadAction, UploadEvent};

/// One part of a form, with what a caller would find out about it.
struct Part {
    header: PartHeader,
    body: Option<Vec<Vec<u8>>>,
    writable: bool,
}

fn part(name: &str, content_type: Option<&str>, body: &[u8]) -> Part {
    Part {
        header: PartHeader::new(name.to_string(), content_type.map(|t| t.to_string())),
        body: Some(vec![body.to_vec()]),
        writable: true,
    }
}

/// Runs the handler to its outcome against a directory held in memory.
fn run(
    content_length: Option<u64>,
    form: Option<&Vec<Part>>,
    directory: &mut HashMap<String, Vec<u8>>,
) -> Result<Response, Rejection> {
    let mut upload = Upload::new();
    let mut action = upload.step(UploadEvent::Request { content_length });
    loop {
        let event = match action {
            UploadAction::CollectForm => match form {
                Some(parts) => {
                    UploadEvent::FormCollected(parts.iter().map(|p| p.header.clone()).collect())
                }
                None => UploadEvent::FormFailed,
            },
            UploadAction::ReadBody { part } => match &form.unwrap()[part].body {
                Some(chunks) => UploadEvent::BodyRead(chunks.clone()),
                None => UploadEvent::ReadFailed,
            },
            UploadAction::StoreFile { part, name, bytes } => {
                if form.unwrap()[part].writable {
                    directory.insert(name, bytes);
                    UploadEvent::FileStored
                } else {
                    UploadEvent::StoreFailed
                }
            }
            UploadAction::Respond(response) => {
                assert!(upload.is_finished());
                return Ok(response);
            }
            UploadAction::Reject(err) => {
                assert!(upload.is_finished());
                return Err(err);
            }
            UploadAction::Nothing => panic!("the handler asked for nothing"),
        };
        action = upload.step(event);
    }
}

fn names_ending_in(directory: &HashMap<String, Vec<u8>>, suffix: &str) -> Vec<String> {
    let mut names: Vec<String> = directory.keys().filter(|n| n.ends_with(suffix)).cloned().collect();
    names.sort();
    names
}

#[test]
fn ten_byte_png_upload_stores_one_png_file() {
    let form = vec![part("file", Some("image/png"), &[7u8; 10])];
    let mut directory = HashMap::new();
    let response = run(Some(300), Some(&form), &mut directory).unwrap();
    assert_eq!(response.status, 200);
    assert_eq!(response.body, "Success");
    assert_eq!(response.media, Media::Text);
    assert_eq!(directory.len(), 1);
    let names = names_ending_in(&directory, ".png");
    assert_eq!(names.len(), 1);
    assert_eq!(directory[&names[0]].len(), 10);
    assert_eq!(directory[&names[0]], vec![7u8; 10]);
}

#[test]
fn jpeg_upload_is_stored_with_jpg_extension() {
    let form = vec![part("file", Some("image/jpeg"), b"jpeg bytes")];
    let mut directory = HashMap::new();
    let response = run(Some(300), Some(&form), &mut directory).unwrap();
    assert_eq!(response.status, 200);
    assert_eq!(names_ending_in(&directory, ".jpg").len(), 1);
    assert_eq!(names_ending_in(&directory, ".png").len(), 0);
}

#[test]
fn missing_content_type_is_rejected_and_nothing_is_written() {
    let form = vec![part("file", None, b"data")];
    let mut directory = HashMap::new();
    let outcome = run(Some(100), Some(&form), &mut directory);
    assert_eq!(outcome, Err(Rejection::UndeterminedFileType));
    assert!(directory.is_empty());
    let response = respond(outcome);
    assert_eq!(response.status, 500);
    assert_eq!(response.body, "Internal Server Error");
}

#[test]
fn unsupported_content_type_is_rejected_and_nothing_is_written() {
    for declared in ["image/gif", "text/plain", "image/jpg", "IMAGE/PNG", "image/png; q=1", ""] {
        let form = vec![part("file", Some(declared), b"data")];
        let mut directory = HashMap::new();
        let outcome = run(Some(100), Some(&form), &mut directory);
        assert_eq!(outcome, Err(Rejection::InvalidFileType));
        assert!(directory.is_empty());
        assert_eq!(respond(outcome).status, 500);
    }
}

#[test]
fn parts_under_other_names_are_passed_over() {
    let form = vec![
        part("comment", None, b"no type at all"),
        part("file", Some("image/png"), b"abc"),
        part("other", Some("application/zip"), b"zip"),
    ];
    let mut directory = HashMap::new();
    let response = run(Some(100), Some(&form), &mut directory).unwrap();
    assert_eq!(response.status, 200);
    assert_eq!(directory.len(), 1);
    assert_eq!(directory.values().next().unwrap(), b"abc");
}

#[test]
fn form_without_file_parts_succeeds_and_stores_nothing() {
    let mut directory = HashMap::new();
    let empty: Vec<Part> = Vec::new();
    let response = run(Some(0), Some(&empty), &mut directory).unwrap();
    assert_eq!((response.status, response.body.as_str()), (200, "Success"));
    let form = vec![part("avatar", Some("image/png"), b"abc")];
    let response = run(Some(50), Some(&form), &mut directory).unwrap();
    assert_eq!((response.status, response.body.as_str()), (200, "Success"));
    assert!(directory.is_empty());
}

#[test]
fn declared_length_over_the_ceiling_gets_400() {
    assert_eq!(MAX_UPLOAD_BYTES, 5_000_000);
    let form = vec![part("file", Some("image/png"), b"abc")];
    let mut directory = HashMap::new();
    let outcome = run(Some(5_000_001), Some(&form), &mut directory);
    assert_eq!(outcome, Err(Rejection::PayloadTooLarge));
    assert!(directory.is_empty());
    let response = respond(outcome);
    assert_eq!(response.status, 400);
    assert_eq!(response.body, "Payload too large");
    let outcome = run(Some(u64::MAX), Some(&form), &mut directory);
    assert_eq!(outcome, Err(Rejection::PayloadTooLarge));
}

#[test]
fn declared_length_at_the_ceiling_is_let_in() {
    let form = vec![part("file", Some("image/png"), b"abc")];
    let mut directory = HashMap::new();
    let response = run(Some(5_000_000), Some(&form), &mut directory).unwrap();
    assert_eq!(response.status, 200);
    assert_eq!(directory.len(), 1);
}

#[test]
fn request_without_declared_length_is_malformed() {
    let form = vec![part("file", Some("image/png"), b"abc")];
    let mut directory = HashMap::new();
    let outcome = run(None, Some(&form), &mut directory);
    assert_eq!(outcome, Err(Rejection::MalformedForm));
    assert_eq!(respond(outcome).status, 500);
    assert!(directory.is_empty());
}

#[test]
fn form_that_does_not_parse_is_rejected() {
    let mut directory = HashMap::new();
    let outcome = run(Some(10), None, &mut directory);
    assert_eq!(outcome, Err(Rejection::MalformedForm));
    assert_eq!(respond(outcome).body, "Internal Server Error");
}

#[test]
fn read_failure_is_rejected() {
    let mut failing = part("file", Some("image/png"), b"");
    failing.body = None;
    let form = vec![failing];
    let mut directory = HashMap::new();
    let outcome = run(Some(10), Some(&form), &mut directory);
    assert_eq!(outcome, Err(Rejection::ReadError));
    assert!(directory.is_empty());
}

#[test]
fn write_failure_is_rejected() {
    let mut failing = part("file", Some("image/jpeg"), b"abc");
    failing.writable = false;
    let form = vec![failing];
    let mut directory = HashMap::new();
    let outcome = run(Some(10), Some(&form), &mut directory);
    assert_eq!(outcome, Err(Rejection::WriteError));
    assert_eq!(respond(outcome).status, 500);
    assert!(directory.is_empty());
}

#[test]
fn file_written_before_a_rejected_part_stays() {
    let form = vec![
        part("file", Some("image/png"), b"first"),
        part("file", Some("text/plain"), b"second"),
        part("file", Some("image/jpeg"), b"third"),
    ];
    let mut directory = HashMap::new();
    let outcome = run(Some(100), Some(&form), &mut directory);
    assert_eq!(outcome, Err(Rejection::InvalidFileType));
    assert_eq!(directory.len(), 1);
    assert_eq!(names_ending_in(&directory, ".png").len(), 1);
    assert_eq!(directory.values().next().unwrap(), b"first");
}

#[test]
fn rejected_first_file_part_writes_nothing() {
    let form = vec![
        part("note", Some("image/png"), b"zero"),
        part("file", None, b"first"),
        part("file", Some("image/jpeg"), b"second"),
    ];
    let mut directory = HashMap::new();
    let outcome = run(Some(100), Some(&form), &mut directory);
    assert_eq!(outcome, Err(Rejection::UndeterminedFileType));
    assert!(directory.is_empty());
}

#[test]
fn bodies_over_the_ceiling_are_refused() {
    let form = vec![
        part("file", Some("image/png"), &vec![1u8; 3_000_000]),
        part("file", Some("image/png"), &vec![2u8; 2_000_001]),
    ];
    let mut directory = HashMap::new();
    let outcome = run(Some(1000), Some(&form), &mut directory);
    assert_eq!(outcome, Err(Rejection::PayloadTooLarge));
    assert_eq!(respond(outcome).status, 400);
    assert_eq!(directory.len(), 1);
    assert_eq!(directory.values().next().unwrap().len(), 3_000_000);
}

#[test]
fn bodies_that_fill_the_ceiling_are_stored() {
    let form = vec![
        part("file", Some("image/png"), &vec![1u8; 3_000_000]),
        part("file", Some("image/jpeg"), &vec![2u8; 2_000_000]),
    ];
    let mut directory = HashMap::new();
    let response = run(Some(1000), Some(&form), &mut directory).unwrap();
    assert_eq!(response.status, 200);
    assert_eq!(directory.len(), 2);
    let png = names_ending_in(&directory, ".png");
    let jpg = names_ending_in(&directory, ".jpg");
    assert_eq!(directory[&png[0]].len(), 3_000_000);
    assert_eq!(directory[&jpg[0]].len(), 2_000_000);
}

#[test]
fn chunks_are_joined_in_the_order_of_arrival() {
    let mut chunked = part("file", Some("image/png"), b"");
    chunked.body = Some(vec![vec![1, 2, 3], vec![], vec![4], vec![5, 6]]);
    let form = vec![chunked];
    let mut directory = HashMap::new();
    run(Some(10), Some(&form), &mut directory).unwrap();
    assert_eq!(directory.values().next().unwrap(), &vec![1u8, 2, 3, 4, 5, 6]);
}

#[test]
fn several_files_are_stored_under_names_of_their_own() {
    let form: Vec<Part> =
        (0u8..20).map(|i| part("file", Some("image/png"), &[i; 4])).collect();
    let mut directory = HashMap::new();
    let response = run(Some(1000), Some(&form), &mut directory).unwrap();
    assert_eq!(response.status, 200);
    assert_eq!(directory.len(), 20);
    for i in 0u8..20 {
        assert_eq!(directory.values().filter(|bytes| **bytes == vec![i; 4]).count(), 1);
    }
}

#[test]
fn uploads_handled_in_turn_keep_each_others_files() {
    let mut directory = HashMap::new();
    for i in 0u8..10 {
        let form = vec![part("file", Some("image/jpeg"), &[i; 3])];
        assert_eq!(run(Some(100), Some(&form), &mut directory).unwrap().status, 200);
    }
    assert_eq!(directory.len(), 10);
    for i in 0u8..10 {
        assert_eq!(directory.values().filter(|bytes| **bytes == vec![i; 3]).count(), 1);
    }
}

#[test]
fn uploaded_file_is_reached_by_a_raw_download() {
    let body = b"\x89PNG\r\n\x1a\n and so on".to_vec();
    let form = vec![part("file", Some("image/png"), &body)];
    let mut directory = HashMap::new();
    run(Some(100), Some(&form), &mut directory).unwrap();
    let name = directory.keys().next().unwrap().clone();
    let segments: Vec<String> =
        ["v1", "image", "raw", name.as_str()].iter().map(|s| s.to_string()).collect();
    let tail = match route(Method::Get, segments) {
        Ok(Route::Raw(tail)) => tail,
        other => panic!("not a raw download: {:?}", other),
    };
    assert_eq!(tail, vec![name.clone()]);
    assert_eq!(raw_file(&tail), stored_file(&name));
    assert_eq!(directory[&tail[0]], body);
}

#[test]
fn step_with_names_the_file_after_the_given_token() {
    let mut upload = Upload::new();
    assert_eq!(upload.phase(), Phase::Idle);
    assert_eq!(
        upload.step_with(UploadEvent::Request { content_length: Some(3) }, "unused"),
        UploadAction::CollectForm
    );
    assert_eq!(upload.phase(), Phase::AwaitingForm);
    let headers = vec![
        PartHeader::new("text".to_string(), None),
        PartHeader::new("file".to_string(), Some("image/jpeg".to_string())),
    ];
    assert_eq!(
        upload.step_with(UploadEvent::FormCollected(headers), "unused"),
        UploadAction::ReadBody { part: 1 }
    );
    assert_eq!(upload.phase(), Phase::Reading { part: 1, kind: uimage::media::ImageKind::Jpeg });
    assert_eq!(
        upload.step_with(UploadEvent::BodyRead(vec![vec![1], vec![2, 3]]), "token"),
        UploadAction::StoreFile { part: 1, name: "token.jpg".to_string(), bytes: vec![1, 2, 3] }
    );
    assert_eq!(upload.phase(), Phase::Storing { part: 1 });
    assert_eq!(upload.received(), 3);
    assert_eq!(
        upload.step_with(UploadEvent::FileStored, "unused"),
        UploadAction::Respond(Response::text(200, "Success"))
    );
    assert_eq!(upload.phase(), Phase::Finished);
    assert!(upload.is_finished());
}

#[test]
fn reports_that_answer_no_request_are_passed_over() {
    let mut upload = Upload::new();
    assert_eq!(upload.step(UploadEvent::FileStored), UploadAction::Nothing);
    assert_eq!(upload.step(UploadEvent::BodyRead(vec![vec![1]])), UploadAction::Nothing);
    assert_eq!(upload.step(UploadEvent::FormFailed), UploadAction::Nothing);
    assert_eq!(upload.phase(), Phase::Idle);
    upload.step(UploadEvent::Request { content_length: Some(1) });
    assert_eq!(
        upload.step(UploadEvent::Request { content_length: Some(1) }),
        UploadAction::Nothing
    );
    assert_eq!(upload.step(UploadEvent::ReadFailed), UploadAction::Nothing);
    assert_eq!(upload.phase(), Phase::AwaitingForm);
    let headers = vec![PartHeader::new("file".to_string(), Some("image/png".to_string()))];
    upload.step(UploadEvent::FormCollected(headers));
    assert_eq!(upload.step(UploadEvent::StoreFailed), UploadAction::Nothing);
    assert_eq!(upload.step(UploadEvent::FormCollected(Vec::new())), UploadAction::Nothing);
    assert_eq!(upload.phase(), Phase::Reading { part: 0, kind: uimage::media::ImageKind::Png });
    upload.step(UploadEvent::BodyRead(vec![vec![9]]));
    assert_eq!(upload.step(UploadEvent::BodyRead(vec![vec![9]])), UploadAction::Nothing);
    assert_eq!(upload.phase(), Phase::Storing { part: 0 });
    assert_eq!(upload.received(), 1);
    upload.step(UploadEvent::StoreFailed);
    assert!(upload.is_finished());
    assert_eq!(upload.step(UploadEvent::FileStored), UploadAction::Nothing);
    assert_eq!(upload.step(UploadEvent::Request { content_length: None }), UploadAction::Nothing);
    assert!(upload.is_finished());
}

#[test]
fn rejections_of_an_upload_map_to_their_status() {
    assert_eq!(handle_rejection(Rejection::UndeterminedFileType).status, 500);
    assert_eq!(handle_rejection(Rejection::InvalidFileType).status, 500);
    assert_eq!(handle_rejection(Rejection::ReadError).status, 500);
    assert_eq!(handle_rejection(Rejection::WriteError).status, 500);
    assert_eq!(handle_rejection(Rejection::MalformedForm).status, 500);
    assert_eq!(handle_rejection(Rejection::PayloadTooLarge).status, 400);
}

/// One upload under way: its handler and what the handler has asked for.
struct Running {
    handler: Upload,
    pending: UploadAction,
    form: Vec<Part>,
    outcome: Option<Result<Response, Rejection>>,
}

fn start(content_length: u64, form: Vec<Part>) -> Running {
    let mut handler = Upload::new();
    let pending = handler.step(UploadEvent::Request { content_length: Some(content_length) });
    Running { handler, pending, form, outcome: None }
}

/// Gives one upload one turn against the shared directory.
fn turn(running: &mut Running, directory: &mut HashMap<String, Vec<u8>>) {
    if running.outcome.is_some() {
        return;
    }
    let pending = std::mem::replace(&mut running.pending, UploadAction::Nothing);
    let event = match pending {
        UploadAction::CollectForm => {
            UploadEvent::FormCollected(running.form.iter().map(|p| p.header.clone()).collect())
        }
        UploadAction::ReadBody { part } => {
            UploadEvent::BodyRead(running.form[part].body.clone().unwrap())
        }
        UploadAction::StoreFile { name, bytes, .. } => {
            directory.insert(name, bytes);
            UploadEvent::FileStored
        }
        UploadAction::Respond(response) => {
            running.outcome = Some(Ok(response));
            return;
        }
        UploadAction::Reject(err) => {
            running.outcome = Some(Err(err));
            return;
        }
        UploadAction::Nothing => panic!("the handler asked for nothing"),
    };
    running.pending = running.handler.step(event);
}

#[test]
fn uploads_whose_steps_interleave_keep_their_files() {
    let mut uploads: Vec<Running> = (0u8..6)
        .map(|k| {
            start(
                100,
                vec![
                    part("file", Some("image/png"), &[k, 0]),
                    part("note", None, b"passed over"),
                    part("file", Some("image/jpeg"), &[k, 1]),
                ],
            )
        })
        .collect();
    let mut directory = HashMap::new();
    let schedule = [0usize, 1, 1, 2, 0, 3, 5, 5, 5, 4, 2, 2, 1, 0, 3, 4, 4, 1, 0, 5, 3, 2];
    for round in 0..8 {
        for k in schedule {
            turn(&mut uploads[(k + round) % 6], &mut directory);
        }
    }
    for upload in &uploads {
        let response = upload.outcome.clone().unwrap().unwrap();
        assert_eq!((response.status, response.body.as_str()), (200, "Success"));
    }
    assert_eq!(directory.len(), 12);
    for k in 0u8..6 {
        let png: Vec<&String> = directory
            .iter()
            .filter(|(name, bytes)| name.ends_with(".png") && **bytes == vec![k, 0])
            .map(|(name, _)| name)
            .collect();
        let jpg: Vec<&String> = directory
            .iter()
            .filter(|(name, bytes)| name.ends_with(".jpg") && **bytes == vec![k, 1])
            .map(|(name, _)| name)
            .collect();
        assert_eq!((png.len(), jpg.len()), (1, 1));
    }
}

#[test]
fn upload_among_others_ends_as_it_would_alone() {
    let failing = || vec![
        part("file", Some("image/png"), b"kept"),
        part("file", Some("image/bmp"), b"refused"),
    ];
    let passing = || vec![part("file", Some("image/jpeg"), b"stored")];
    let mut alone = HashMap::new();
    let expected_failing = run(Some(10), Some(&failing()), &mut alone);
    let expected_passing = run(Some(10), Some(&passing()), &mut alone);
    let mut uploads = vec![start(10, failing()), start(10, passing())];
    let mut directory = HashMap::new();
    for _ in 0..10 {
        turn(&mut uploads[0], &mut directory);
        turn(&mut uploads[1], &mut directory);
    }
    assert_eq!(uploads[0].outcome, Some(expected_failing));
    assert_eq!(uploads[1].outcome, Some(expected_passing));
    assert_eq!(uploads[0].outcome, Some(Err(Rejection::InvalidFileType)));
    assert_eq!(directory.len(), 2);
}
