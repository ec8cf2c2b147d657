//! The upload handler as a state machine.
//!
//! The handler itself neither reads the network nor writes a file. It says
//! what is to be done next (an [`UploadAction`]); its caller does that and
//! reports how it went (an [`UploadEvent`]). A report that answers no
//! request is passed over.

use vstd::prelude::*;
use vstd::string::*;
use crate::body::assemble;
use crate::form::{
    admission, check_length, chunks_view, classification, find_file_part, headers_view,
    lemma_next_file_part, next_file_part, PartHeader, PartHeaderView, MAX_UPLOAD_BYTES,
};
use crate::media::ImageKind;
use crate::reply::{plain_message, Rejection, Response, ResponseView, STATUS_OK};
use crate::storage::{file_name, is_token, name_for, new_token};

verus! {

/// What the handler is waiting for.
#[derive(Clone, Copy, Debug, PartialEq, Eq, Structural)]
pub enum Phase {
    /// The request has not been looked at.
    Idle,
    /// The parts of the form are being collected.
    AwaitingForm,
    /// The body of part `part` is being read, to be stored as `kind`.
    Reading { part: usize, kind: ImageKind },
    /// The file for part `part` is being written.
    Storing { part: usize },
    /// The outcome has been given.
    Finished,
}

/// What the caller reports.
#[derive(Clone, Debug, PartialEq, Eq)]
pub enum UploadEvent {
    /// A request has come in that declares this content length, or none.
    Request { content_length: Option<u64> },
    /// The form has been parsed: these are its parts, in order.
    FormCollected(Vec<PartHeader>),
    /// The form could not be parsed.
    FormFailed,
    /// The body that was asked for has been read: these are its chunks, in
    /// the order in which they arrived.
    BodyRead(Vec<Vec<u8>>),
    /// The body that was asked for could not be read to its end.
    ReadFailed,
    /// The file has been written.
    FileStored,
    /// The file could not be written.
    StoreFailed,
}

/// What the handler asks for.
#[derive(Clone, Debug, PartialEq, Eq)]
pub enum UploadAction {
    /// Collect the parts of the form.
    CollectForm,
    /// Read the body of part `part`.
    ReadBody { part: usize },
    /// Write `bytes`, the body of part `part`, to the file `name` in the
    /// upload directory.
    StoreFile { part: usize, name: String, bytes: Vec<u8> },
    /// The upload is complete: send this response.
    Respond(Response),
    /// The upload is refused or has failed.
    Reject(Rejection),
    /// The report answered no request: there is nothing to do.
    Nothing,
}

/// The handler's state between two reports.
#[derive(Debug)]
pub struct Upload {
    headers: Vec<PartHeader>,
    phase: Phase,
    received: u64,
}

/// What an [`Upload`] holds: the parts of the form once they are known, the
/// phase, and the number of body bytes taken in so far.
pub struct UploadView {
    pub headers: Seq<PartHeaderView>,
    pub phase: Phase,
    pub received: nat,
}

/// What an [`UploadEvent`] says.
pub enum EventView {
    Request { content_length: Option<u64> },
    FormCollected(Seq<PartHeaderView>),
    FormFailed,
    BodyRead(Seq<Seq<u8>>),
    ReadFailed,
    FileStored,
    StoreFailed,
}

/// What an [`UploadAction`] says.
pub enum ActionView {
    CollectForm,
    ReadBody { part: usize },
    StoreFile { part: usize, name: Seq<char>, bytes: Seq<u8> },
    Respond(ResponseView),
    Reject(Rejection),
    Nothing,
}

impl View for Upload {
    type V = UploadView;

    closed spec fn view(&self) -> UploadView {
        UploadView {
            headers: headers_view(self.headers@),
            phase: self.phase,
            received: self.received as nat,
        }
    }
}

impl View for UploadEvent {
    type V = EventView;

    open spec fn view(&self) -> EventView {
        match self {
            UploadEvent::Request { content_length } => EventView::Request {
                content_length: *content_length,
            },
            UploadEvent::FormCollected(headers) => EventView::FormCollected(headers_view(headers@)),
            UploadEvent::FormFailed => EventView::FormFailed,
            UploadEvent::BodyRead(chunks) => EventView::BodyRead(chunks_view(chunks@)),
            UploadEvent::ReadFailed => EventView::ReadFailed,
            UploadEvent::FileStored => EventView::FileStored,
            UploadEvent::StoreFailed => EventView::StoreFailed,
        }
    }
}

impl View for UploadAction {
    type V = ActionView;

    open spec fn view(&self) -> ActionView {
        match self {
            UploadAction::CollectForm => ActionView::CollectForm,
            UploadAction::ReadBody { part } => ActionView::ReadBody { part: *part },
            UploadAction::StoreFile { part, name, bytes } => ActionView::StoreFile {
                part: *part,
                name: name@,
                bytes: bytes@,
            },
            UploadAction::Respond(response) => ActionView::Respond(response@),
            UploadAction::Reject(err) => ActionView::Reject(*err),
            UploadAction::Nothing => ActionView::Nothing,
        }
    }
}

/// The response to an upload that ran to its end.
pub open spec fn success() -> ResponseView {
    plain_message(STATUS_OK, "Success"@)
}

/// The state before the request has been looked at.
pub open spec fn initial() -> UploadView {
    UploadView { headers: Seq::empty(), phase: Phase::Idle, received: 0 }
}

/// The state `m` in another phase.
pub open spec fn in_phase(m: UploadView, phase: Phase) -> UploadView {
    UploadView { headers: m.headers, phase, received: m.received }
}

/// Goes on to the first part to store at or after `from`: asks for its body
/// where its content type is accepted, rejects the upload where it is not,
/// and completes the upload where no such part is left.
pub open spec fn scan(headers: Seq<PartHeaderView>, from: int) -> (Phase, ActionView) {
    match next_file_part(headers, from) {
        None => (Phase::Finished, ActionView::Respond(success())),
        Some(i) => match classification(headers[i].content_type) {
            Ok(kind) => (
                Phase::Reading { part: i as usize, kind },
                ActionView::ReadBody { part: i as usize },
            ),
            Err(err) => (Phase::Finished, ActionView::Reject(err)),
        },
    }
}

/// The transition function: the state and the request that follow when the
/// handler in state `m` is told `event`, where `token` is the identifier
/// drawn for a file to store.
pub open spec fn transition(m: UploadView, event: EventView, token: Seq<char>) -> (
    UploadView,
    ActionView,
) {
    match m.phase {
        Phase::Idle => match event {
            EventView::Request { content_length } => match admission(content_length) {
                Ok(_) => (in_phase(m, Phase::AwaitingForm), ActionView::CollectForm),
                Err(err) => (in_phase(m, Phase::Finished), ActionView::Reject(err)),
            },
            _ => (m, ActionView::Nothing),
        },
        Phase::AwaitingForm => match event {
            EventView::FormCollected(headers) => {
                let (phase, action) = scan(headers, 0);
                (UploadView { headers, phase, received: m.received }, action)
            },
            EventView::FormFailed => (
                in_phase(m, Phase::Finished),
                ActionView::Reject(Rejection::MalformedForm),
            ),
            _ => (m, ActionView::Nothing),
        },
        Phase::Reading { part, kind } => match event {
            EventView::BodyRead(chunks) => {
                let bytes = chunks.flatten();
                if m.received + bytes.len() > MAX_UPLOAD_BYTES {
                    (in_phase(m, Phase::Finished), ActionView::Reject(Rejection::PayloadTooLarge))
                } else {
                    (
                        UploadView {
                            headers: m.headers,
                            phase: Phase::Storing { part },
                            received: m.received + bytes.len(),
                        },
                        ActionView::StoreFile { part, name: file_name(token, kind), bytes },
                    )
                }
            },
            EventView::ReadFailed => (
                in_phase(m, Phase::Finished),
                ActionView::Reject(Rejection::ReadError),
            ),
            _ => (m, ActionView::Nothing),
        },
        Phase::Storing { part } => match event {
            EventView::FileStored => {
                let (phase, action) = scan(m.headers, part + 1);
                (in_phase(m, phase), action)
            },
            EventView::StoreFailed => (
                in_phase(m, Phase::Finished),
                ActionView::Reject(Rejection::WriteError),
            ),
            _ => (m, ActionView::Nothing),
        },
        Phase::Finished => (m, ActionView::Nothing),
    }
}

/// There is a text of the shape that identifiers have.
pub proof fn lemma_token_exists()
    ensures
        exists|token: Seq<char>| is_token(token),
{
    let token = Seq::new(
        36,
        |i: int|
            if i == 8 || i == 13 || i == 18 || i == 23 {
                '-'
            } else if i == 14 {
                '4'
            } else if i == 19 {
                '8'
            } else {
                '0'
            },
    );
    assert(is_token(token));
}

impl Upload {
    /// A handler that has not looked at its request yet.
    pub fn new() -> (upload: Upload)
        ensures
            upload@ == initial(),
    {
        let upload = Upload { headers: Vec::new(), phase: Phase::Idle, received: 0 };
        assert(upload@.headers =~= Seq::empty());
        upload
    }

    /// Goes on to the first part to store at or after `from`.
    fn advance(&mut self, from: usize) -> (action: UploadAction)
        ensures
            final(self)@ == in_phase(old(self)@, scan(old(self)@.headers, from as int).0),
            action@ == scan(old(self)@.headers, from as int).1,
    {
        proof {
            lemma_next_file_part(headers_view(self.headers@), from as int);
        }
        match find_file_part(&self.headers, from) {
            None => {
                self.phase = Phase::Finished;
                UploadAction::Respond(Response::text(STATUS_OK, "Success"))
            },
            Some(part) => match self.headers[part].classify() {
                Ok(kind) => {
                    self.phase = Phase::Reading { part, kind };
                    UploadAction::ReadBody { part }
                },
                Err(err) => {
                    self.phase = Phase::Finished;
                    UploadAction::Reject(err)
                },
            },
        }
    }

    /// Gives the outcome `err` and finishes.
    fn give_up(&mut self, err: Rejection) -> (action: UploadAction)
        ensures
            final(self)@ == in_phase(old(self)@, Phase::Finished),
            action@ == ActionView::Reject(err),
    {
        self.phase = Phase::Finished;
        UploadAction::Reject(err)
    }

    /// Takes the report `event` and says what is to be done next, with
    /// `token` as the identifier for a file that is to be stored.
    pub fn step_with(&mut self, event: UploadEvent, token: &str) -> (action: UploadAction)
        ensures
            (final(self)@, action@) == transition(old(self)@, event@, token@),
    {
        match self.phase {
            Phase::Idle => match event {
                UploadEvent::Request { content_length } => match check_length(content_length) {
                    Ok(_) => {
                        self.phase = Phase::AwaitingForm;
                        UploadAction::CollectForm
                    },
                    Err(err) => self.give_up(err),
                },
                _ => UploadAction::Nothing,
            },
            Phase::AwaitingForm => match event {
                UploadEvent::FormCollected(headers) => {
                    self.headers = headers;
                    self.advance(0)
                },
                UploadEvent::FormFailed => self.give_up(Rejection::MalformedForm),
                _ => UploadAction::Nothing,
            },
            Phase::Reading { part, kind } => match event {
                UploadEvent::BodyRead(chunks) => {
                    if self.received > MAX_UPLOAD_BYTES {
                        return self.give_up(Rejection::PayloadTooLarge);
                    }
                    let room = (MAX_UPLOAD_BYTES - self.received) as usize;
                    match assemble(&chunks, room) {
                        None => self.give_up(Rejection::PayloadTooLarge),
                        Some(bytes) => {
                            self.received = self.received + bytes.len() as u64;
                            self.phase = Phase::Storing { part };
                            UploadAction::StoreFile { part, name: name_for(token, kind), bytes }
                        },
                    }
                },
                UploadEvent::ReadFailed => self.give_up(Rejection::ReadError),
                _ => UploadAction::Nothing,
            },
            Phase::Storing { part } => match event {
                UploadEvent::FileStored => {
                    if part < self.headers.len() {
                        self.advance(part + 1)
                    } else {
                        self.advance(part)
                    }
                },
                UploadEvent::StoreFailed => self.give_up(Rejection::WriteError),
                _ => UploadAction::Nothing,
            },
            Phase::Finished => UploadAction::Nothing,
        }
    }

    /// Takes the report `event` and says what is to be done next. Where a
    /// file is to be stored, a fresh identifier is drawn for its name; the
    /// outcome is that of [`Upload::step_with`] for the identifier drawn.
    pub fn step(&mut self, event: UploadEvent) -> (action: UploadAction)
        ensures
            exists|token: Seq<char>|
                is_token(token) && (final(self)@, action@) == transition(
                    old(self)@,
                    event@,
                    token,
                ),
    {
        match self.phase {
            Phase::Reading { .. } => {
                let token = new_token();
                self.step_with(event, token.as_str())
            },
            _ => {
                let action = self.step_with(event, "");
                proof {
                    lemma_token_exists();
                    let token = choose|token: Seq<char>| is_token(token);
                    assert(transition(old(self)@, event@, token) == transition(
                        old(self)@,
                        event@,
                        ""@,
                    ));
                }
                action
            },
        }
    }

    /// What the handler is waiting for.
    pub fn phase(&self) -> (phase: Phase)
        ensures
            phase == self@.phase,
    {
        self.phase
    }

    /// Whether the outcome has been given.
    pub fn is_finished(&self) -> (done: bool)
        ensures
            done == (self@.phase == Phase::Finished),
    {
        match self.phase {
            Phase::Finished => true,
            _ => false,
        }
    }

    /// The number of body bytes taken in so far.
    pub fn received(&self) -> (count: u64)
        ensures
            count == self@.received,
    {
        self.received
    }
}

} // verus!
