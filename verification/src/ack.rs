//! Results handed back to a remote caller: the structured acknowledgement of
//! a request, and the fault that ends a call when the transport or the file
//! system fails underneath it.

use vstd::prelude::*;
use vstd::string::StringExecFns;

verus! {

/// Acknowledgement of a request: whether it was carried out and, if not, why.
#[derive(Debug, PartialEq, Eq)]
pub struct Ack {
    pub success: bool,
    pub error: Option<String>,
}

/// Mathematical value of an [`Ack`].
pub struct AckView {
    pub success: bool,
    pub error: Option<Seq<char>>,
}

impl AckView {
    /// The acknowledgement of a request that was carried out.
    pub open spec fn accepted() -> AckView {
        AckView { success: true, error: None }
    }

    /// The acknowledgement of a request that was refused for `reason`.
    pub open spec fn rejected(reason: Seq<char>) -> AckView {
        AckView { success: false, error: Some(reason) }
    }
}

impl View for Ack {
    type V = AckView;

    open spec fn view(&self) -> AckView {
        AckView {
            success: self.success,
            error: match self.error {
                Some(e) => Some(e@),
                None => None,
            },
        }
    }
}

impl Ack {
    /// Acknowledges a request that was carried out.
    pub fn accepted() -> (ack: Ack)
        ensures
            ack@ == AckView::accepted(),
    {
        Ack { success: true, error: None }
    }

    /// Acknowledges a request that was refused for `reason`.
    pub fn rejected(reason: &str) -> (ack: Ack)
        ensures
            ack@ == AckView::rejected(reason@),
    {
        Ack { success: false, error: Some(String::from_str(reason)) }
    }
}

/// The operation underneath a call that can fail outside this library.
#[derive(Clone, Copy, Debug, PartialEq, Eq, Structural)]
pub enum Stage {
    /// Receiving the next message of an upload.
    Receive,
    /// Creating the target file of an upload.
    Create,
    /// Appending a chunk to the target file of an upload.
    Write,
    /// Opening the file of a download.
    Open,
    /// Deleting a stored file.
    Remove,
}

impl Stage {
    /// The text that introduces a fault of this stage.
    pub open spec fn prefix(self) -> Seq<char> {
        match self {
            Stage::Receive => "Error receiving stream: "@,
            Stage::Create => "Failed to create file: "@,
            Stage::Write => "Failed to write to file: "@,
            Stage::Open => "Failed to open file: "@,
            Stage::Remove => "Failed to remove file: "@,
        }
    }
}

/// A failure of the transport or of the file system: it ends the call as a
/// whole instead of being acknowledged.
#[derive(Debug, PartialEq, Eq)]
pub struct TransportFault {
    pub stage: Stage,
    pub message: String,
}

impl TransportFault {
    /// The fault of `stage` whose cause the environment describes as `detail`.
    pub fn new(stage: Stage, detail: &str) -> (fault: TransportFault)
        ensures
            fault.stage == stage,
            fault.message@ == stage.prefix() + detail@,
    {
        let prefix = match stage {
            Stage::Receive => "Error receiving stream: ",
            Stage::Create => "Failed to create file: ",
            Stage::Write => "Failed to write to file: ",
            Stage::Open => "Failed to open file: ",
            Stage::Remove => "Failed to remove file: ",
        };
        TransportFault { stage, message: String::from_str(prefix).concat(detail) }
    }
}

} // verus!
