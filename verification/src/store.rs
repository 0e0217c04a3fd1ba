//! The stored sound files: which of the entries of the storage root are
//! listed, and what removing a file comes to.

use vstd::prelude::*;
use crate::ack::{Ack, AckView};
use crate::text::chars_of;

verus! {

/// The stored files as a map from each file's relative path to its bytes.
pub type Files = Map<Seq<char>, Seq<u8>>;

/// A stored sound file as it is listed.
#[derive(Debug, PartialEq, Eq)]
pub struct AudioFileRecord {
    /// The file's name, relative to the storage root.
    pub path: String,
    /// The file's playing time in milliseconds, where it is known.
    pub duration: Option<u64>,
}

/// Mathematical value of an [`AudioFileRecord`].
pub struct RecordView {
    pub path: Seq<char>,
    pub duration: Option<u64>,
}

impl View for AudioFileRecord {
    type V = RecordView;

    open spec fn view(&self) -> RecordView {
        RecordView { path: self.path@, duration: self.duration }
    }
}

/// Refusal to remove a file that is not there.
pub open spec fn file_not_found() -> Seq<char> {
    "File not found"@
}

/// The extension of the file name `name`: what follows its last dot, unless
/// the name has no dot or only the one it begins with.
pub open spec fn extension(name: Seq<char>) -> Option<Seq<char>> {
    match name.index_of_last('.') {
        Some(dot) if dot > 0 => Some(name.skip(dot + 1)),
        _ => None,
    }
}

/// Whether files with the extension `ext` are sound files.
pub open spec fn is_audio_extension(ext: Seq<char>) -> bool {
    ext == "mp3"@ || ext == "wav"@ || ext == "ogg"@
}

/// Whether the file name `name` is that of a sound file.
pub open spec fn is_audio_file(name: Seq<char>) -> bool {
    extension(name) matches Some(ext) && is_audio_extension(ext)
}

/// The names of the sound files among `entries`, in the order of `entries`.
pub open spec fn listing(entries: Seq<Seq<char>>) -> Seq<Seq<char>> {
    entries.filter(|name: Seq<char>| is_audio_file(name))
}

/// The names of `entries`, in the same order.
pub open spec fn names(entries: Seq<String>) -> Seq<Seq<char>> {
    entries.map_values(|entry: String| entry@)
}

/// The record under which the file `name` is listed.
pub open spec fn listed(name: Seq<char>) -> RecordView {
    RecordView { path: name, duration: None }
}

/// The values of `records`, in the same order.
pub open spec fn record_views(records: Seq<AudioFileRecord>) -> Seq<RecordView> {
    records.map_values(|record: AudioFileRecord| record@)
}

/// Whether the three characters behind position `dot` of `chars`, and no
/// more, are `a`, `b`, `c`.
fn ends_with(chars: &Vec<char>, dot: usize, a: char, b: char, c: char) -> (matched: bool)
    requires
        dot < chars@.len(),
    ensures
        matched == (chars@.skip(dot + 1) == seq![a, b, c]),
{
    if chars.len() - dot != 4 {
        assert(chars@.skip(dot + 1).len() != seq![a, b, c].len());
        return false;
    }
    let matched = chars[dot + 1] == a && chars[dot + 2] == b && chars[dot + 3] == c;
    proof {
        let tail = chars@.skip(dot + 1);
        assert(tail.len() == 3);
        assert(tail[0] == chars@[dot + 1]);
        assert(tail[1] == chars@[dot + 2]);
        assert(tail[2] == chars@[dot + 3]);
        if matched {
            assert(tail =~= seq![a, b, c]);
        }
    }
    matched
}

/// Whether the file name `name` is that of a sound file.
pub fn has_audio_extension(name: &str) -> (audio: bool)
    ensures
        audio == is_audio_file(name@),
{
    let chars = chars_of(name);
    let mut end: usize = chars.len();
    while end > 0 && chars[end - 1] != '.'
        invariant
            end <= chars@.len(),
            forall|j: int| end <= j < chars@.len() ==> chars@[j] != '.',
        decreases end,
    {
        end -= 1;
    }
    proof {
        chars@.index_of_last_ensures('.');
        reveal_strlit("mp3");
        reveal_strlit("wav");
        reveal_strlit("ogg");
        assert("mp3"@ =~= seq!['m', 'p', '3']);
        assert("wav"@ =~= seq!['w', 'a', 'v']);
        assert("ogg"@ =~= seq!['o', 'g', 'g']);
    }
    if end <= 1 {
        proof {
            if end == 1 {
                assert(chars@.contains('.'));
            }
        }
        return false;
    }
    let dot: usize = end - 1;
    assert(chars@.contains('.'));
    assert(chars@.index_of_last('.') == Some(dot as int));
    ends_with(&chars, dot, 'm', 'p', '3') || ends_with(&chars, dot, 'w', 'a', 'v') || ends_with(
        &chars,
        dot,
        'o',
        'g',
        'g',
    )
}

/// Lists the sound files among the entries of the storage root: one record
/// for each entry whose extension is that of a sound file, in the order of
/// the entries, without a playing time.
pub fn list_audio_files(entries: Vec<String>) -> (files: Vec<AudioFileRecord>)
    ensures
        record_views(files@) == listing(names(entries@)).map_values(|name: Seq<char>| listed(name)),
{
    let mut files: Vec<AudioFileRecord> = Vec::new();
    let ghost all = names(entries@);
    let ghost audio = |name: Seq<char>| is_audio_file(name);
    let ghost record = |name: Seq<char>| listed(name);
    proof {
        reveal(Seq::filter);
        assert(all.take(0) =~= Seq::<Seq<char>>::empty());
        assert(record_views(files@) =~= all.take(0).filter(audio).map_values(record));
    }
    for entry in it: entries
        invariant
            all == names(it.seq()),
            audio == |name: Seq<char>| is_audio_file(name),
            record == |name: Seq<char>| listed(name),
            record_views(files@) == all.take(it.index() as int).filter(audio).map_values(record),
    {
        proof {
            let seen = all.take(it.index() as int);
            assert(all.take(it.index() + 1) =~= seen.push(entry@));
            seen.lemma_filter_push(entry@, audio);
        }
        if has_audio_extension(entry.as_str()) {
            let ghost before = files@;
            files.push(AudioFileRecord { path: entry, duration: None });
            proof {
                let seen = all.take(it.index() as int);
                assert(record_views(files@) =~= record_views(before).push(listed(entry@)));
                assert(seen.filter(audio).push(entry@).map_values(record) =~= seen.filter(
                    audio,
                ).map_values(record).push(listed(entry@)));
            }
        }
    }
    assert(all.take(all.len() as int) =~= all);
    files
}

/// What removing a file comes to, once it is known whether the file is
/// there.
#[derive(Debug, PartialEq, Eq)]
pub enum Removal {
    /// Delete the file, then acknowledge the request as carried out.
    Delete,
    /// Leave the storage as it is and end the call with `ack`.
    Refuse { ack: Ack },
}

/// Mathematical value of a [`Removal`].
pub enum RemovalView {
    Delete,
    Refuse { ack: AckView },
}

impl View for Removal {
    type V = RemovalView;

    open spec fn view(&self) -> RemovalView {
        match self {
            Removal::Delete => RemovalView::Delete,
            Removal::Refuse { ack } => RemovalView::Refuse { ack: ack@ },
        }
    }
}

/// What removing a file comes to: a file that is there is deleted, a file
/// that is not there is reported as not found.
pub open spec fn removal(found: bool) -> RemovalView {
    if found {
        RemovalView::Delete
    } else {
        RemovalView::Refuse { ack: AckView::rejected(file_not_found()) }
    }
}

/// The stored files and the acknowledgement after a call that removes
/// `path`.
pub open spec fn remove(files: Files, path: Seq<char>) -> (Files, AckView) {
    match removal(files.contains_key(path)) {
        RemovalView::Delete => (files.remove(path), AckView::accepted()),
        RemovalView::Refuse { ack } => (files, ack),
    }
}

/// Decides what removing a file comes to, given whether the file is there.
pub fn plan_removal(found: bool) -> (plan: Removal)
    ensures
        plan@ == removal(found),
{
    if found {
        Removal::Delete
    } else {
        Removal::Refuse { ack: Ack::rejected("File not found") }
    }
}

/// Only sound files are listed, and all of them: every listed name is an
/// entry with the extension of a sound file, every such entry is listed,
/// and a name with any other extension is never listed, whether or not the
/// storage root holds it.
pub proof fn law_listing_holds_audio_files_only(entries: Seq<Seq<char>>)
    ensures
        forall|i: int|
            0 <= i < listing(entries).len() ==> is_audio_file(#[trigger] listing(entries)[i])
                && entries.contains(listing(entries)[i]),
        forall|i: int|
            0 <= i < entries.len() && is_audio_file(entries[i]) ==> listing(entries).contains(
                #[trigger] entries[i],
            ),
        forall|name: Seq<char>| !is_audio_file(name) ==> !listing(entries).contains(name),
{
    let audio = |name: Seq<char>| is_audio_file(name);
    assert forall|i: int| 0 <= i < listing(entries).len() implies is_audio_file(
        #[trigger] listing(entries)[i],
    ) && entries.contains(listing(entries)[i]) by {
        entries.lemma_filter_pred(audio, i);
        assert(entries.filter(audio).contains(listing(entries)[i]));
        entries.lemma_filter_contains_rev(audio, listing(entries)[i]);
    }
    assert forall|i: int| 0 <= i < entries.len() && is_audio_file(entries[i]) implies listing(
        entries,
    ).contains(#[trigger] entries[i]) by {
        entries.lemma_filter_contains(audio, i);
    }
    assert forall|name: Seq<char>| !is_audio_file(name) implies !listing(entries).contains(
        name,
    ) by {
        if listing(entries).contains(name) {
            let i = choose|i: int| 0 <= i < listing(entries).len() && listing(entries)[i] == name;
            entries.lemma_filter_pred(audio, i);
        }
    }
}

/// Removing a file that is not stored is refused and changes nothing.
/// Removing a stored file is acknowledged, takes that file away and no
/// other, and whatever way the remaining files are enumerated afterwards,
/// the listing no longer reports it.
pub proof fn law_remove(files: Files, path: Seq<char>, entries: Seq<Seq<char>>)
    requires
        forall|i: int| 0 <= i < entries.len() ==> remove(files, path).0.contains_key(entries[i]),
    ensures
        !files.contains_key(path) ==> remove(files, path) == (
            files,
            AckView::rejected(file_not_found()),
        ),
        files.contains_key(path) ==> remove(files, path) == (
            files.remove(path),
            AckView::accepted(),
        ),
        files.contains_key(path) ==> !remove(files, path).0.contains_key(path),
        files.contains_key(path) ==> !listing(entries).contains(path),
{
    if files.contains_key(path) && listing(entries).contains(path) {
        entries.lemma_filter_contains_rev(|name: Seq<char>| is_audio_file(name), path);
        let i = choose|i: int| 0 <= i < entries.len() && entries[i] == path;
        assert(remove(files, path).0.contains_key(entries[i]));
    }
}

} // verus!
