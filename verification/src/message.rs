//! The messages of a chunked file transfer, in either direction.

use vstd::prelude::*;

verus! {

/// One message of a transfer stream: the leading metadata, a block of file
/// bytes, or a message that carries neither.
#[derive(Debug, PartialEq, Eq)]
pub enum TransferMessage {
    /// Names the file, relative to the storage root.
    Info { path: String },
    /// The next bytes of the file.
    ChunkData { bytes: Vec<u8> },
    /// A message without payload.
    Empty,
}

/// Mathematical value of a [`TransferMessage`].
pub enum MessageView {
    Info { path: Seq<char> },
    ChunkData { bytes: Seq<u8> },
    Empty,
}

impl View for TransferMessage {
    type V = MessageView;

    open spec fn view(&self) -> MessageView {
        match self {
            TransferMessage::Info { path } => MessageView::Info { path: path@ },
            TransferMessage::ChunkData { bytes } => MessageView::ChunkData { bytes: bytes@ },
            TransferMessage::Empty => MessageView::Empty,
        }
    }
}

/// The bytes that `message` carries: those of a chunk, none otherwise.
pub open spec fn carried(message: MessageView) -> Seq<u8> {
    match message {
        MessageView::ChunkData { bytes } => bytes,
        _ => Seq::empty(),
    }
}

/// The bytes that the messages of `stream` carry, in stream order.
pub open spec fn payload(stream: Seq<MessageView>) -> Seq<u8>
    decreases stream.len(),
{
    if stream.len() == 0 {
        Seq::empty()
    } else {
        payload(stream.drop_last()) + carried(stream.last())
    }
}

/// The chunk messages that carry `blocks`, one message per block.
pub open spec fn chunk_messages(blocks: Seq<Seq<u8>>) -> Seq<MessageView> {
    Seq::new(blocks.len(), |i: int| MessageView::ChunkData { bytes: blocks[i] })
}

/// The blocks of `blocks` put end to end.
pub open spec fn joined(blocks: Seq<Seq<u8>>) -> Seq<u8>
    decreases blocks.len(),
{
    if blocks.len() == 0 {
        Seq::empty()
    } else {
        joined(blocks.drop_last()) + blocks.last()
    }
}

/// Chunk messages carry their blocks put end to end.
pub proof fn lemma_payload_of_chunks(blocks: Seq<Seq<u8>>)
    ensures
        payload(chunk_messages(blocks)) == joined(blocks),
    decreases blocks.len(),
{
    if blocks.len() > 0 {
        lemma_payload_of_chunks(blocks.drop_last());
        assert(chunk_messages(blocks).drop_last() =~= chunk_messages(blocks.drop_last()));
    }
}

/// A stream carries what its two halves carry, one after the other.
pub proof fn lemma_payload_concat(front: Seq<MessageView>, back: Seq<MessageView>)
    ensures
        payload(front + back) == payload(front) + payload(back),
    decreases back.len(),
{
    if back.len() == 0 {
        assert(front + back =~= front);
    } else {
        lemma_payload_concat(front, back.drop_last());
        assert((front + back).drop_last() =~= front + back.drop_last());
        assert((front + back).last() == back.last());
    }
}

/// A stream of one message carries what that message carries.
pub proof fn lemma_payload_single(message: MessageView)
    ensures
        payload(seq![message]) == carried(message),
{
    assert(seq![message].drop_last() =~= Seq::<MessageView>::empty());
    assert(payload(seq![message].drop_last()) =~= Seq::<u8>::empty());
    assert(payload(seq![message]) =~= carried(message));
}

} // verus!
