use audio_server::ack::{Ack, Stage, TransportFault};
use audio_server::message::TransferMessage;
use audio_server::upload::{UploadSession, UploadStep};

/// A storage root held in memory: the files in the order of their creation.
struct Disk {
    files: Vec<(String, Vec<u8>)>,
    open: Option<usize>,
}

impl Disk {
    fn new() -> Disk {
        Disk { files: Vec::new(), open: None }
    }

    fn content(&self, path: &str) -> Option<&Vec<u8>> {
        self.files.iter().find(|(name, _)| name == path).map(|(_, bytes)| bytes)
    }

    fn perform(&mut self, step: &UploadStep) {
        match step {
            UploadStep::Create { path } => {
                match self.files.iter().position(|(name, _)| name == path) {
                    Some(at) => {
                        self.files[at].1.clear();
                        self.open = Some(at);
                    }
                    None => {
                        self.files.push((path.clone(), Vec::new()));
                        self.open = Some(self.files.len() - 1);
                    }
                }
            }
            UploadStep::Append { bytes } => {
                let at = self.open.expect("append without a target");
                self.files[at].1.extend_from_slice(bytes);
            }
            UploadStep::Reject { .. } => {}
        }
    }
}

/// Runs a whole upload call: every message in turn, each step performed on
/// `disk`, up to the first refusal or the end of the stream.
fn upload(disk: &mut Disk, stream: Vec<TransferMessage>) -> Ack {
    let mut session = UploadSession::new();
    for message in stream {
        let step = session.receive(message);
        disk.perform(&step);
        if let UploadStep::Reject { ack } = step {
            return ack;
        }
    }
    session.finish()
}

fn info(path: &str) -> TransferMessage {
    TransferMessage::Info { path: path.to_string() }
}

fn chunk(bytes: Vec<u8>) -> TransferMessage {
    TransferMessage::ChunkData { bytes }
}

#[test]
fn test_upload_file_no_data() {
    let mut disk = Disk::new();
    let ack = upload(&mut disk, vec![TransferMessage::Empty]);
    assert!(!ack.success);
    assert!(ack.error.is_some());
    assert_eq!(ack.error, Some("No data provided".to_string()));
    assert!(disk.files.is_empty());
}

#[test]
fn test_upload_file_before_name() {
    let mut disk = Disk::new();
    let dummy_vec = vec![0; 64];
    let ack = upload(&mut disk, vec![chunk(dummy_vec)]);
    assert!(!ack.success);
    assert!(ack.error.is_some());
    assert_eq!(ack.error, Some("File not initialized".to_string()));
    assert!(disk.files.is_empty());
}

#[test]
fn chunk_before_name_creates_no_file_whatever_follows() {
    let mut session = UploadSession::new();
    let first = session.receive(chunk(vec![1, 2, 3]));
    assert_eq!(first, UploadStep::Reject { ack: Ack::rejected("File not initialized") });
    assert_eq!(session, UploadSession::Rejected { error: "File not initialized".to_string() });
    // The call is over: a name that comes late opens nothing.
    let late = session.receive(info("late.ogg"));
    assert_eq!(late, UploadStep::Reject { ack: Ack::rejected("File not initialized") });
    let more = session.receive(chunk(vec![4]));
    assert_eq!(more, UploadStep::Reject { ack: Ack::rejected("File not initialized") });
    assert_eq!(session.finish(), Ack::rejected("File not initialized"));
}

#[test]
fn info_then_two_chunks_stores_both_in_order() {
    let mut disk = Disk::new();
    let first: Vec<u8> = (0..1000u32).map(|i| (i % 251) as u8).collect();
    let second: Vec<u8> = (0..1500u32).map(|i| (i % 13) as u8).collect();
    let ack = upload(&mut disk, vec![info("x.ogg"), chunk(first.clone()), chunk(second.clone())]);
    assert_eq!(ack, Ack { success: true, error: None });
    let stored = disk.content("x.ogg").expect("x.ogg is stored");
    assert_eq!(stored.len(), 1000 + 1500);
    assert_eq!(&stored[..1000], &first[..]);
    assert_eq!(&stored[1000..], &second[..]);
    assert_eq!(disk.files.len(), 1);
}

#[test]
fn steps_follow_the_messages() {
    let mut session = UploadSession::new();
    assert_eq!(session, UploadSession::Awaiting);
    assert_eq!(session.receive(info("a.wav")), UploadStep::Create { path: "a.wav".to_string() });
    assert_eq!(session, UploadSession::Open { path: "a.wav".to_string() });
    assert_eq!(session.receive(chunk(vec![9, 8, 7])), UploadStep::Append { bytes: vec![9, 8, 7] });
    assert_eq!(session.receive(chunk(vec![])), UploadStep::Append { bytes: vec![] });
    assert_eq!(session, UploadSession::Open { path: "a.wav".to_string() });
    assert_eq!(session.finish(), Ack::accepted());
}

#[test]
fn info_alone_succeeds_with_an_empty_file() {
    let mut disk = Disk::new();
    let ack = upload(&mut disk, vec![info("empty.mp3")]);
    assert_eq!(ack, Ack::accepted());
    assert_eq!(disk.content("empty.mp3"), Some(&Vec::new()));
}

#[test]
fn upload_truncates_a_file_that_is_there() {
    let mut disk = Disk::new();
    assert!(upload(&mut disk, vec![info("x.ogg"), chunk(vec![1, 2, 3, 4])]).success);
    assert!(upload(&mut disk, vec![info("x.ogg"), chunk(vec![5])]).success);
    assert_eq!(disk.content("x.ogg"), Some(&vec![5]));
    assert_eq!(disk.files.len(), 1);
}

#[test]
fn empty_stream_is_refused() {
    let mut disk = Disk::new();
    let ack = upload(&mut disk, Vec::new());
    assert_eq!(ack, Ack { success: false, error: Some("No data provided".to_string()) });
    assert!(disk.files.is_empty());
}

#[test]
fn second_info_is_refused_and_keeps_what_was_stored() {
    let mut disk = Disk::new();
    let ack = upload(
        &mut disk,
        vec![info("x.ogg"), chunk(vec![1, 2]), info("y.ogg"), chunk(vec![3])],
    );
    assert_eq!(ack, Ack::rejected("File already initialized"));
    assert_eq!(disk.content("x.ogg"), Some(&vec![1, 2]));
    assert_eq!(disk.content("y.ogg"), None);
}

#[test]
fn empty_message_after_name_is_refused() {
    let mut disk = Disk::new();
    let ack = upload(
        &mut disk,
        vec![info("x.ogg"), chunk(vec![1, 2]), TransferMessage::Empty, chunk(vec![3])],
    );
    assert_eq!(ack, Ack::rejected("No data provided"));
    assert_eq!(disk.content("x.ogg"), Some(&vec![1, 2]));
}

#[test]
fn acknowledgements_say_what_they_are() {
    assert_eq!(Ack::accepted(), Ack { success: true, error: None });
    assert_eq!(Ack::rejected("why"), Ack { success: false, error: Some("why".to_string()) });
}

#[test]
fn transport_faults_name_their_stage() {
    let cases = [
        (Stage::Receive, "Error receiving stream: reset"),
        (Stage::Create, "Failed to create file: reset"),
        (Stage::Write, "Failed to write to file: reset"),
        (Stage::Open, "Failed to open file: reset"),
        (Stage::Remove, "Failed to remove file: reset"),
    ];
    for (stage, message) in cases {
        let fault = TransportFault::new(stage, "reset");
        assert_eq!(fault, TransportFault { stage, message: message.to_string() });
    }
    assert_eq!(TransportFault::new(Stage::Open, "").message, "Failed to open file: ");
}
