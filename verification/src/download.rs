//! Sending a file as a stream of messages: one metadata message with the
//! file's name, then the file's bytes in blocks, in file order, until the
//! file ends or can no longer be read.

use vstd::prelude::*;
use vstd::slice::{slice_subrange, slice_to_vec};
use vstd::string::StringExecFns;
use crate::ack::AckView;
use crate::message::{
    MessageView, TransferMessage, carried, chunk_messages, joined, lemma_payload_concat,
    lemma_payload_single, payload,
};
use crate::store::Files;
use crate::upload::{follows_protocol, law_upload_of_chunks, upload};

verus! {

/// The size of the buffer into which a download reads its file, and so the
/// largest number of bytes that one chunk carries.
pub const BLOCK_SIZE: usize = 64 * 1024;

/// The message that a read hands on: the bytes that it put at the front of
/// `buffer`, as one chunk. A read that failed or found the file at its end
/// hands on nothing, and the stream ends.
pub open spec fn chunk_of(buffer: Seq<u8>, read: Option<usize>) -> Option<MessageView> {
    match read {
        Some(n) if n > 0 => Some(MessageView::ChunkData { bytes: buffer.take(n as int) }),
        _ => None,
    }
}

/// The chunks of a download whose reads brought `reads`, one after the
/// other: `None` for a read that failed, else the bytes read. The stream
/// ends before the first read that failed or brought nothing.
pub open spec fn chunks_of(reads: Seq<Option<Seq<u8>>>) -> Seq<MessageView>
    decreases reads.len(),
{
    if reads.len() == 0 {
        Seq::empty()
    } else {
        match reads[0] {
            Some(bytes) if bytes.len() > 0 => seq![MessageView::ChunkData { bytes }] + chunks_of(
                reads.drop_first(),
            ),
            _ => Seq::empty(),
        }
    }
}

/// The stream of a download of `path` whose reads brought `reads`.
pub open spec fn download(path: Seq<char>, reads: Seq<Option<Seq<u8>>>) -> Seq<MessageView> {
    seq![MessageView::Info { path }] + chunks_of(reads)
}

/// Whether `reads` is a reading of a file that holds `content`, from its
/// first byte to its end: reads that bring some of the bytes each, in file
/// order, followed by one that brings nothing.
pub open spec fn reads_whole(content: Seq<u8>, reads: Seq<Option<Seq<u8>>>) -> bool
    decreases reads.len(),
{
    if reads.len() == 0 {
        false
    } else {
        match reads[0] {
            Some(bytes) => if bytes.len() == 0 {
                content.len() == 0
            } else {
                bytes.is_prefix_of(content) && reads_whole(
                    content.skip(bytes.len() as int),
                    reads.drop_first(),
                )
            },
            None => false,
        }
    }
}

/// Whether every read of `reads` that brought bytes brought those that
/// follow, in a file that holds `content`, the bytes of the reads before it.
/// The reads need not reach the end of the file.
pub open spec fn reads_along(content: Seq<u8>, reads: Seq<Option<Seq<u8>>>) -> bool
    decreases reads.len(),
{
    reads.len() > 0 ==> match reads[0] {
        Some(bytes) => bytes.is_prefix_of(content) && reads_along(
            content.skip(bytes.len() as int),
            reads.drop_first(),
        ),
        None => true,
    }
}

/// The first message of the download of `path`.
pub fn download_header(path: &str) -> (message: TransferMessage)
    ensures
        message@ == (MessageView::Info { path: path@ }),
{
    TransferMessage::Info { path: String::from_str(path) }
}

/// The message that follows a read into `buffer`: `read` is the number of
/// bytes that the read put there, or `None` if it failed. `None` ends the
/// stream.
pub fn download_chunk(buffer: &[u8], read: Option<usize>) -> (message: Option<TransferMessage>)
    requires
        read matches Some(n) ==> n <= buffer@.len(),
    ensures
        match message {
            Some(m) => chunk_of(buffer@, read) == Some(m@),
            None => chunk_of(buffer@, read) is None,
        },
{
    match read {
        Some(n) => {
            if n == 0 {
                None
            } else {
                let bytes = slice_to_vec(slice_subrange(buffer, 0, n));
                Some(TransferMessage::ChunkData { bytes })
            }
        },
        None => None,
    }
}

/// The chunks of a download are chunks, none of them empty; what they
/// carry is the beginning of the file when every read brought the bytes
/// that follow those of the read before it, and the whole file when the
/// reads went on to its end.
pub proof fn lemma_chunks_of_reads(content: Seq<u8>, reads: Seq<Option<Seq<u8>>>)
    ensures
        forall|i: int|
            0 <= i < chunks_of(reads).len() ==> (#[trigger] chunks_of(reads)[i]) is ChunkData
                && carried(chunks_of(reads)[i]).len() > 0,
        reads_whole(content, reads) ==> payload(chunks_of(reads)) == content,
    decreases reads.len(),
{
    if reads.len() > 0 {
        match reads[0] {
            Some(bytes) => {
                if bytes.len() > 0 {
                    let head = seq![MessageView::ChunkData { bytes }];
                    let rest = chunks_of(reads.drop_first());
                    lemma_chunks_of_reads(content.skip(bytes.len() as int), reads.drop_first());
                    assert forall|i: int| 0 <= i < chunks_of(reads).len() implies (
                    #[trigger] chunks_of(reads)[i]) is ChunkData && carried(
                        chunks_of(reads)[i],
                    ).len() > 0 by {
                        if i > 0 {
                            assert(chunks_of(reads)[i] == rest[i - 1]);
                        }
                    }
                    if reads_whole(content, reads) {
                        lemma_payload_concat(head, rest);
                        lemma_payload_single(head[0]);
                        assert(bytes + content.skip(bytes.len() as int) =~= content);
                    }
                } else {
                    assert(payload(chunks_of(reads)) =~= Seq::<u8>::empty());
                    if reads_whole(content, reads) {
                        assert(content =~= Seq::<u8>::empty());
                    }
                }
            },
            None => {},
        }
    }
}

/// A download that ends early, because a read failed, carries the beginning
/// of the file and nothing else: what was sent is never wrong, only short.
pub proof fn law_download_carries_a_prefix(
    path: Seq<char>,
    content: Seq<u8>,
    reads: Seq<Option<Seq<u8>>>,
)
    requires
        reads_along(content, reads),
    ensures
        payload(download(path, reads)).is_prefix_of(content),
{
    let head = seq![MessageView::Info { path }];
    lemma_chunks_along(content, reads);
    lemma_payload_concat(head, chunks_of(reads));
    lemma_payload_single(head[0]);
    assert(Seq::<u8>::empty() + payload(chunks_of(reads)) =~= payload(chunks_of(reads)));
}

/// The chunks of reads that follow the file carry the beginning of the file.
proof fn lemma_chunks_along(content: Seq<u8>, reads: Seq<Option<Seq<u8>>>)
    requires
        reads_along(content, reads),
    ensures
        payload(chunks_of(reads)).is_prefix_of(content),
    decreases reads.len(),
{
    if reads.len() > 0 {
        match reads[0] {
            Some(bytes) => {
                if bytes.len() > 0 {
                    let head = seq![MessageView::ChunkData { bytes }];
                    let rest = chunks_of(reads.drop_first());
                    let left = content.skip(bytes.len() as int);
                    lemma_chunks_along(left, reads.drop_first());
                    lemma_payload_concat(head, rest);
                    lemma_payload_single(head[0]);
                    assert(bytes + left =~= content);
                    assert((bytes + payload(rest)).is_prefix_of(bytes + left)) by {
                        let whole = bytes + left;
                        let sent = bytes + payload(rest);
                        assert(sent =~= whole.subrange(0, sent.len() as int)) by {
                            assert forall|i: int| 0 <= i < sent.len() implies sent[i] == whole[i] by {
                                if i >= bytes.len() {
                                    assert(payload(rest)[i - bytes.len()] == left.subrange(
                                        0,
                                        payload(rest).len() as int,
                                    )[i - bytes.len()]);
                                }
                            }
                        }
                    }
                } else {
                    assert(payload(chunks_of(reads)) =~= Seq::<u8>::empty());
                }
            },
            None => {
                assert(payload(chunks_of(reads)) =~= Seq::<u8>::empty());
            },
        }
    } else {
        assert(payload(chunks_of(reads)) =~= Seq::<u8>::empty());
    }
}

/// A download names its file once, in its first message: every later
/// message is a chunk, and no chunk is empty.
pub proof fn law_download_names_file_once(path: Seq<char>, reads: Seq<Option<Seq<u8>>>)
    ensures
        download(path, reads)[0] == (MessageView::Info { path }),
        forall|i: int|
            1 <= i < download(path, reads).len() ==> (#[trigger] download(path, reads)[i])
                is ChunkData && carried(download(path, reads)[i]).len() > 0,
        follows_protocol(download(path, reads)),
{
    lemma_chunks_of_reads(Seq::empty(), reads);
    assert forall|i: int| 1 <= i < download(path, reads).len() implies (#[trigger] download(
        path,
        reads,
    )[i]) is ChunkData && carried(download(path, reads)[i]).len() > 0 by {
        assert(download(path, reads)[i] == chunks_of(reads)[i - 1]);
    }
}

/// A download whose reads went through the file from its first byte to its
/// end carries the file's bytes, all of them and in file order.
pub proof fn law_download_carries_the_file(
    path: Seq<char>,
    content: Seq<u8>,
    reads: Seq<Option<Seq<u8>>>,
)
    requires
        reads_whole(content, reads),
    ensures
        payload(download(path, reads)) == content,
{
    let head = seq![MessageView::Info { path }];
    lemma_chunks_of_reads(content, reads);
    lemma_payload_concat(head, chunks_of(reads));
    lemma_payload_single(head[0]);
    assert(Seq::<u8>::empty() + content =~= content);
}

/// Uploading a file and then downloading it under the same path gives back
/// the bytes that were sent, all of them and in order; the download names
/// the path in its first message and in no other.
pub proof fn law_upload_then_download(
    files: Files,
    path: Seq<char>,
    blocks: Seq<Seq<u8>>,
    reads: Seq<Option<Seq<u8>>>,
)
    requires
        reads_whole(
            upload(files, seq![MessageView::Info { path }] + chunk_messages(blocks)).0[path],
            reads,
        ),
    ensures
        upload(files, seq![MessageView::Info { path }] + chunk_messages(blocks)).1
            == AckView::accepted(),
        upload(files, seq![MessageView::Info { path }] + chunk_messages(blocks)).0.contains_key(
            path,
        ),
        payload(download(path, reads)) == joined(blocks),
        download(path, reads)[0] == (MessageView::Info { path }),
        forall|i: int|
            1 <= i < download(path, reads).len() ==> (#[trigger] download(path, reads)[i])
                is ChunkData,
{
    law_upload_of_chunks(files, path, blocks);
    law_download_carries_the_file(path, joined(blocks), reads);
    law_download_names_file_once(path, reads);
}

/// Uploading the stream of a download that went through its whole file
/// stores a copy of that file under the same path, and is acknowledged.
pub proof fn law_download_then_upload(
    files: Files,
    path: Seq<char>,
    content: Seq<u8>,
    reads: Seq<Option<Seq<u8>>>,
)
    requires
        reads_whole(content, reads),
    ensures
        upload(files, download(path, reads)) == (files.insert(path, content), AckView::accepted()),
{
    law_download_names_file_once(path, reads);
    law_download_carries_the_file(path, content, reads);
    crate::upload::law_upload_stores_payload(files, download(path, reads));
}

} // verus!
