use audio_server::ack::Ack;
use audio_server::store::{
    has_audio_extension, list_audio_files, plan_removal, AudioFileRecord, Removal,
};

fn is_file_in_list(files: Vec<AudioFileRecord>, file_name: &str) -> bool {
    let mut file_found = false;

    for audiofile in files {
        if audiofile.path == file_name {
            file_found = true;
        }
    }

    file_found
}

fn record(path: &str) -> AudioFileRecord {
    AudioFileRecord { path: path.to_string(), duration: None }
}

fn entries(names: &[&str]) -> Vec<String> {
    names.iter().map(|name| name.to_string()).collect()
}

/// Carries out a remove request on a storage root held in memory.
fn remove(root: &mut Vec<String>, path: &str) -> Ack {
    let found = root.iter().any(|name| name == path);
    match plan_removal(found) {
        Removal::Delete => {
            root.retain(|name| name != path);
            Ack::accepted()
        }
        Removal::Refuse { ack } => ack,
    }
}

#[test]
fn test_grpc() {
    let unit_file_name = "unit_test.ogg";
    let mut root = entries(&["older.wav"]);
    root.push(unit_file_name.to_string());

    let files = list_audio_files(root.clone());
    assert!(is_file_in_list(files, unit_file_name));

    root.retain(|name| name != unit_file_name);

    let files = list_audio_files(root.clone());
    assert!(!is_file_in_list(files, unit_file_name));
}

#[test]
fn test_remove_file() {
    let mut root: Vec<String> = Vec::new();

    let ack = remove(&mut root, "dummy");
    assert!(!ack.success);
    assert!(ack.error.is_some());

    let unit_file_name = "unit_test2.ogg";
    root.push(unit_file_name.to_string());

    let ack = remove(&mut root, unit_file_name);
    assert!(ack.success);
    assert!(ack.error.is_none());
    assert!(root.is_empty());
    assert!(!is_file_in_list(list_audio_files(root), unit_file_name));
}

#[test]
fn removal_of_a_missing_file_says_so() {
    assert_eq!(plan_removal(false), Removal::Refuse { ack: Ack::rejected("File not found") });
    assert_eq!(plan_removal(true), Removal::Delete);
}

#[test]
fn listing_keeps_sound_files_in_entry_order() {
    let files = list_audio_files(entries(&[
        "b.wav", "notes.txt", "a.mp3", "c.ogg", "cover.png", "d.ogg",
    ]));
    assert_eq!(files, vec![record("b.wav"), record("a.mp3"), record("c.ogg"), record("d.ogg")]);
}

#[test]
fn listing_never_reports_other_extensions() {
    let files = list_audio_files(entries(&[
        "a.txt", "b.flac", "c.OGG", "d.ogg.bak", "e.mp4", "f.wave", "g.og", "h", "i.", ".ogg",
        "mp3", "ogg", "j.mp3 ",
    ]));
    assert_eq!(files, Vec::new());
}

#[test]
fn listing_of_nothing_is_empty() {
    assert_eq!(list_audio_files(Vec::new()), Vec::new());
}

#[test]
fn listed_files_carry_no_duration() {
    let files = list_audio_files(entries(&["a.ogg"]));
    assert_eq!(files.len(), 1);
    assert_eq!(files[0].path, "a.ogg");
    assert_eq!(files[0].duration, None);
}

#[test]
fn extension_is_what_follows_the_last_dot() {
    assert!(has_audio_extension("x.ogg"));
    assert!(has_audio_extension("x.wav"));
    assert!(has_audio_extension("x.mp3"));
    assert!(has_audio_extension("archive.tar.ogg"));
    assert!(has_audio_extension("..ogg"));
    assert!(has_audio_extension("a b.ogg"));
    assert!(has_audio_extension("\u{e9}t\u{e9}.mp3"));
    assert!(!has_audio_extension("x.ogg.txt"));
    assert!(!has_audio_extension("x.oggg"));
    assert!(!has_audio_extension("x.og"));
    assert!(!has_audio_extension("xogg"));
    assert!(!has_audio_extension("x."));
    assert!(!has_audio_extension(""));
    assert!(!has_audio_extension("."));
    assert!(!has_audio_extension("x.Ogg"));
}

#[test]
fn hidden_file_has_no_extension() {
    assert!(!has_audio_extension(".ogg"));
    assert!(!has_audio_extension(".mp3"));
    assert!(has_audio_extension(".hidden.wav"));
}
