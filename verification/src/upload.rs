//! Receiving a file as a stream of messages: the leading metadata message
//! names the target, every later message appends a chunk to it. The session
//! decides, message by message, what is to be done to the target file; the
//! caller does it.

use vstd::prelude::*;
use vstd::string::StringExecFns;
use crate::ack::{Ack, AckView};
use crate::store::Files;
use crate::message::{
    MessageView, TransferMessage, carried, chunk_messages, joined, lemma_payload_concat,
    lemma_payload_of_chunks, payload,
};

verus! {

/// Refusal of a chunk that arrives before the target was named.
pub open spec fn file_not_initialized() -> Seq<char> {
    "File not initialized"@
}

/// Refusal of a message without payload, and of a call without messages.
pub open spec fn no_data_provided() -> Seq<char> {
    "No data provided"@
}

/// Refusal of a second metadata message within one call.
pub open spec fn file_already_initialized() -> Seq<char> {
    "File already initialized"@
}

/// Progress of one upload call.
#[derive(Debug, PartialEq, Eq)]
pub enum UploadSession {
    /// No message was accepted yet.
    Awaiting,
    /// The metadata message named `path`; chunks are appended to it.
    Open { path: String },
    /// A message broke the protocol; the call is over and fails with `error`.
    Rejected { error: String },
}

/// Mathematical value of an [`UploadSession`].
pub enum UploadModel {
    Awaiting,
    Open { path: Seq<char> },
    Rejected { error: Seq<char> },
}

impl View for UploadSession {
    type V = UploadModel;

    open spec fn view(&self) -> UploadModel {
        match self {
            UploadSession::Awaiting => UploadModel::Awaiting,
            UploadSession::Open { path } => UploadModel::Open { path: path@ },
            UploadSession::Rejected { error } => UploadModel::Rejected { error: error@ },
        }
    }
}

/// What the caller is to do after a message.
#[derive(Debug, PartialEq, Eq)]
pub enum UploadStep {
    /// Create the file `path` under the storage root, emptying it if present.
    Create { path: String },
    /// Append `bytes` to the file that was created, before taking the next
    /// message.
    Append { bytes: Vec<u8> },
    /// End the call with `ack`.
    Reject { ack: Ack },
}

/// Mathematical value of an [`UploadStep`].
pub enum StepView {
    Create { path: Seq<char> },
    Append { bytes: Seq<u8> },
    Reject { ack: AckView },
}

impl View for UploadStep {
    type V = StepView;

    open spec fn view(&self) -> StepView {
        match self {
            UploadStep::Create { path } => StepView::Create { path: path@ },
            UploadStep::Append { bytes } => StepView::Append { bytes: bytes@ },
            UploadStep::Reject { ack } => StepView::Reject { ack: ack@ },
        }
    }
}

impl UploadModel {
    /// The session break with `reason`, and the step that reports it.
    pub open spec fn refuse(reason: Seq<char>) -> (UploadModel, StepView) {
        (UploadModel::Rejected { error: reason }, StepView::Reject { ack: AckView::rejected(reason) })
    }

    /// The session after `message`, and the step the message asks for.
    pub open spec fn receive(self, message: MessageView) -> (UploadModel, StepView) {
        match self {
            UploadModel::Awaiting => match message {
                MessageView::Info { path } => (UploadModel::Open { path }, StepView::Create { path }),
                MessageView::ChunkData { .. } => Self::refuse(file_not_initialized()),
                MessageView::Empty => Self::refuse(no_data_provided()),
            },
            UploadModel::Open { path } => match message {
                MessageView::Info { .. } => Self::refuse(file_already_initialized()),
                MessageView::ChunkData { bytes } => (self, StepView::Append { bytes }),
                MessageView::Empty => Self::refuse(no_data_provided()),
            },
            UploadModel::Rejected { error } => Self::refuse(error),
        }
    }

    /// The acknowledgement of the call when the stream ends in this state.
    pub open spec fn finish(self) -> AckView {
        match self {
            UploadModel::Awaiting => AckView::rejected(no_data_provided()),
            UploadModel::Open { .. } => AckView::accepted(),
            UploadModel::Rejected { error } => AckView::rejected(error),
        }
    }

    /// The stored files once the caller has done `step`, which this session
    /// asked for.
    pub open spec fn perform(self, files: Files, step: StepView) -> Files {
        match step {
            StepView::Create { path } => files.insert(path, Seq::empty()),
            StepView::Append { bytes } => match self {
                UploadModel::Open { path } if files.contains_key(path) => files.insert(
                    path,
                    files[path] + bytes,
                ),
                _ => files,
            },
            StepView::Reject { .. } => files,
        }
    }
}

impl UploadSession {
    /// The session of a call that has received nothing yet.
    pub fn new() -> (session: UploadSession)
        ensures
            session@ == UploadModel::Awaiting,
    {
        UploadSession::Awaiting
    }

    /// Takes the next message of the stream and says what it asks for.
    pub fn receive(&mut self, message: TransferMessage) -> (step: UploadStep)
        ensures
            (final(self)@, step@) == old(self)@.receive(message@),
    {
        match self {
            UploadSession::Awaiting => match message {
                TransferMessage::Info { path } => {
                    *self = UploadSession::Open { path: path.clone() };
                    UploadStep::Create { path }
                },
                TransferMessage::ChunkData { .. } => self.refuse("File not initialized"),
                TransferMessage::Empty => self.refuse("No data provided"),
            },
            UploadSession::Open { .. } => match message {
                TransferMessage::Info { .. } => self.refuse("File already initialized"),
                TransferMessage::ChunkData { bytes } => UploadStep::Append { bytes },
                TransferMessage::Empty => self.refuse("No data provided"),
            },
            UploadSession::Rejected { error } => UploadStep::Reject {
                ack: Ack { success: false, error: Some(error.clone()) },
            },
        }
    }

    /// Ends the call with a refusal for `reason`.
    fn refuse(&mut self, reason: &str) -> (step: UploadStep)
        ensures
            (final(self)@, step@) == UploadModel::refuse(reason@),
    {
        *self = UploadSession::Rejected { error: String::from_str(reason) };
        UploadStep::Reject { ack: Ack::rejected(reason) }
    }

    /// The acknowledgement of the call when its stream has ended.
    pub fn finish(&self) -> (ack: Ack)
        ensures
            ack@ == self@.finish(),
    {
        match self {
            UploadSession::Awaiting => Ack::rejected("No data provided"),
            UploadSession::Open { .. } => Ack::accepted(),
            UploadSession::Rejected { error } => Ack { success: false, error: Some(error.clone()) },
        }
    }
}


/// The session and the stored files once the messages of `stream` were
/// received one after the other, starting from `session` and `files`, and
/// each step was done as asked.
pub open spec fn upload_from(session: UploadModel, files: Files, stream: Seq<MessageView>) -> (
    UploadModel,
    Files,
)
    decreases stream.len(),
{
    if stream.len() == 0 {
        (session, files)
    } else {
        let (before, stored) = upload_from(session, files, stream.drop_last());
        let (after, step) = before.receive(stream.last());
        (after, before.perform(stored, step))
    }
}

/// The stored files and the acknowledgement after a whole upload call whose
/// messages were `stream`.
pub open spec fn upload(files: Files, stream: Seq<MessageView>) -> (Files, AckView) {
    let (session, stored) = upload_from(UploadModel::Awaiting, files, stream);
    (stored, session.finish())
}

/// A stream follows the protocol when it opens with a metadata message and
/// goes on with chunks only.
pub open spec fn follows_protocol(stream: Seq<MessageView>) -> bool {
    &&& stream.len() > 0
    &&& stream[0] is Info
    &&& forall|i: int| 1 <= i < stream.len() ==> stream[i] is ChunkData
}

/// The reason given when `message` is the one that breaks the protocol: a
/// chunk does so before the target is named, a metadata message after it, a
/// message without payload anywhere.
pub open spec fn refusal(message: MessageView) -> Seq<char> {
    match message {
        MessageView::Info { .. } => file_already_initialized(),
        MessageView::ChunkData { .. } => file_not_initialized(),
        MessageView::Empty => no_data_provided(),
    }
}

/// Receiving two streams in a row is receiving their concatenation.
pub proof fn lemma_upload_concat(
    session: UploadModel,
    files: Files,
    front: Seq<MessageView>,
    back: Seq<MessageView>,
)
    ensures
        upload_from(session, files, front + back) == upload_from(
            upload_from(session, files, front).0,
            upload_from(session, files, front).1,
            back,
        ),
    decreases back.len(),
{
    if back.len() == 0 {
        assert(front + back =~= front);
    } else {
        lemma_upload_concat(session, files, front, back.drop_last());
        assert((front + back).drop_last() =~= front + back.drop_last());
        assert((front + back).last() == back.last());
    }
}

/// After a refusal nothing is accepted and nothing is stored.
pub proof fn lemma_upload_rejected_is_final(error: Seq<char>, files: Files, stream: Seq<MessageView>)
    ensures
        upload_from(UploadModel::Rejected { error }, files, stream) == (
            UploadModel::Rejected { error },
            files,
        ),
    decreases stream.len(),
{
    if stream.len() > 0 {
        lemma_upload_rejected_is_final(error, files, stream.drop_last());
    }
}

/// Where an upload stands after `stream`: nowhere without messages, open on
/// the named file with all chunks stored while the protocol is followed,
/// refused from the first violation on.
pub proof fn lemma_upload_state(files: Files, stream: Seq<MessageView>)
    ensures
        stream.len() == 0 ==> upload_from(UploadModel::Awaiting, files, stream) == (
            UploadModel::Awaiting,
            files,
        ),
        follows_protocol(stream) ==> upload_from(UploadModel::Awaiting, files, stream) == (
            UploadModel::Open { path: stream[0]->path },
            files.insert(stream[0]->path, payload(stream)),
        ),
        stream.len() > 0 && !follows_protocol(stream) ==> upload_from(
            UploadModel::Awaiting,
            files,
            stream,
        ).0 is Rejected,
    decreases stream.len(),
{
    if stream.len() > 0 {
        let front = stream.drop_last();
        lemma_upload_state(files, front);
        let (before, stored) = upload_from(UploadModel::Awaiting, files, front);
        if front.len() == 0 {
            assert(payload(front) =~= Seq::<u8>::empty());
            if stream[0] is Info {
                assert(payload(stream) =~= Seq::<u8>::empty());
            }
        } else if follows_protocol(front) {
            let path = stream[0]->path;
            assert(front[0] == stream[0]);
            if stream.last() is ChunkData {
                assert forall|i: int| 1 <= i < stream.len() implies stream[i] is ChunkData by {
                    if i < front.len() {
                        assert(front[i] == stream[i]);
                    }
                }
                assert(stored.insert(path, stored[path] + carried(stream.last())) =~= files.insert(
                    path,
                    payload(stream),
                ));
            }
        } else {
            if follows_protocol(stream) {
                assert(front[0] == stream[0]);
                assert forall|i: int| 1 <= i < front.len() implies front[i] is ChunkData by {
                    assert(front[i] == stream[i]);
                }
            }
        }
    }
}

/// The first message alone decides an upload that does not open with the
/// metadata message.
proof fn lemma_upload_single(session: UploadModel, files: Files, message: MessageView)
    ensures
        upload_from(session, files, seq![message]) == (
            session.receive(message).0,
            session.perform(files, session.receive(message).1),
        ),
{
    assert(seq![message].drop_last() =~= Seq::<MessageView>::empty());
    assert(upload_from(session, files, seq![message].drop_last()) == (session, files));
}

/// An upload is acknowledged as a success exactly when its stream follows the
/// protocol; every other call is refused with a reason.
pub proof fn law_upload_succeeds_iff_protocol_followed(files: Files, stream: Seq<MessageView>)
    ensures
        upload(files, stream).1.success <==> follows_protocol(stream),
        follows_protocol(stream) ==> upload(files, stream).1 == AckView::accepted(),
        !follows_protocol(stream) ==> upload(files, stream).1.error is Some,
{
    lemma_upload_state(files, stream);
}

/// An upload that follows the protocol leaves, under the path its first
/// message names, exactly the bytes of its chunks in the order they came,
/// and touches no other file.
pub proof fn law_upload_stores_payload(files: Files, stream: Seq<MessageView>)
    requires
        follows_protocol(stream),
    ensures
        upload(files, stream) == (
            files.insert(stream[0]->path, payload(stream)),
            AckView::accepted(),
        ),
{
    lemma_upload_state(files, stream);
}

/// An upload that does not open with the metadata message is refused and
/// creates or changes no file, whatever follows its first message.
pub proof fn law_upload_without_name_stores_nothing(files: Files, stream: Seq<MessageView>)
    requires
        stream.len() == 0 || !(stream[0] is Info),
    ensures
        upload(files, stream) == (
            files,
            AckView::rejected(
                if stream.len() == 0 {
                    no_data_provided()
                } else {
                    refusal(stream[0])
                },
            ),
        ),
{
    if stream.len() > 0 {
        let rest = stream.subrange(1, stream.len() as int);
        assert(stream =~= seq![stream[0]] + rest);
        lemma_upload_concat(UploadModel::Awaiting, files, seq![stream[0]], rest);
        lemma_upload_single(UploadModel::Awaiting, files, stream[0]);
        lemma_upload_rejected_is_final(refusal(stream[0]), files, rest);
    }
}

/// An upload that breaks the protocol after its metadata message is refused
/// for the first offending message; the chunks before it stay stored and
/// nothing after it is.
pub proof fn law_upload_stops_at_first_violation(files: Files, stream: Seq<MessageView>, k: int)
    requires
        1 <= k < stream.len(),
        follows_protocol(stream.take(k)),
        !(stream[k] is ChunkData),
    ensures
        upload(files, stream) == (
            files.insert(stream[0]->path, payload(stream.take(k))),
            AckView::rejected(refusal(stream[k])),
        ),
{
    let front = stream.take(k);
    let rest = stream.subrange(k + 1, stream.len() as int);
    assert(stream =~= front + seq![stream[k]] + rest);
    assert(front[0] == stream[0]);
    lemma_upload_state(files, front);
    let path = stream[0]->path;
    let open = UploadModel::Open { path };
    let stored = files.insert(path, payload(front));
    lemma_upload_concat(UploadModel::Awaiting, files, front + seq![stream[k]], rest);
    lemma_upload_concat(UploadModel::Awaiting, files, front, seq![stream[k]]);
    lemma_upload_single(open, stored, stream[k]);
    lemma_upload_rejected_is_final(refusal(stream[k]), stored, rest);
}

/// An upload of a metadata message followed by chunks stores the chunks'
/// blocks put end to end.
pub proof fn law_upload_of_chunks(files: Files, path: Seq<char>, blocks: Seq<Seq<u8>>)
    ensures
        follows_protocol(seq![MessageView::Info { path }] + chunk_messages(blocks)),
        upload(files, seq![MessageView::Info { path }] + chunk_messages(blocks)) == (
            files.insert(path, joined(blocks)),
            AckView::accepted(),
        ),
{
    let head = seq![MessageView::Info { path }];
    let stream = head + chunk_messages(blocks);
    assert(follows_protocol(stream));
    lemma_upload_state(files, stream);
    lemma_payload_concat(head, chunk_messages(blocks));
    lemma_payload_of_chunks(blocks);
    assert(head.drop_last() =~= Seq::<MessageView>::empty());
    assert(payload(head.drop_last()) =~= Seq::<u8>::empty());
    assert(payload(head) =~= Seq::<u8>::empty());
    assert(payload(stream) =~= joined(blocks));
}

/// An upload of a metadata message and two chunks leaves a file that holds
/// the first chunk's bytes followed by the second's, and nothing else.
pub proof fn law_upload_of_two_chunks(
    files: Files,
    path: Seq<char>,
    first: Seq<u8>,
    second: Seq<u8>,
)
    ensures
        upload(
            files,
            seq![
                MessageView::Info { path },
                MessageView::ChunkData { bytes: first },
                MessageView::ChunkData { bytes: second },
            ],
        ) == (files.insert(path, first + second), AckView::accepted()),
        (first + second).len() == first.len() + second.len(),
{
    let blocks = seq![first, second];
    law_upload_of_chunks(files, path, blocks);
    assert(seq![MessageView::Info { path }] + chunk_messages(blocks) =~= seq![
        MessageView::Info { path },
        MessageView::ChunkData { bytes: first },
        MessageView::ChunkData { bytes: second },
    ]);
    assert(blocks.drop_last() =~= seq![first]);
    assert(seq![first].drop_last() =~= Seq::<Seq<u8>>::empty());
    assert(joined(seq![first].drop_last()) =~= Seq::<u8>::empty());
    assert(joined(seq![first]) =~= first);
    assert(joined(blocks) =~= first + second);
}

} // verus!
