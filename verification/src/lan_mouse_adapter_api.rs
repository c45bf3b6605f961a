//! The messages of earlier plugins, which report nothing but their capabilities
//! in their greeting. Everything else is as in [`crate::plugin_api`].
use vstd::prelude::*;

pub use crate::plugin_api::frames::FrameReader;
pub use crate::plugin_api::manifest::AdapterManifest;
pub use crate::plugin_api::ApiError;
pub use crate::plugin_api::Cancelled;
pub use crate::plugin_api::Capabilities;
pub use crate::plugin_api::Completion;
pub use crate::plugin_api::CopyManifest;
pub use crate::plugin_api::EntryKind;
pub use crate::plugin_api::MountReady;
pub use crate::plugin_api::Operation;
pub use crate::plugin_api::PasteDestination;
pub use crate::plugin_api::Progress;
pub use crate::plugin_api::PublishFileClipboard;
pub use crate::plugin_api::RangeRequest;
pub use crate::plugin_api::RangeResponse;
pub use crate::plugin_api::Released;
pub use crate::plugin_api::RemoteEntry;
pub use crate::plugin_api::RemoteManifest;
pub use crate::plugin_api::SourceEntry;
pub use crate::plugin_api::Unmounted;
pub use crate::plugin_api::GNOME_COPIED_FILES_MIME;
pub use crate::plugin_api::PROTOCOL_VERSION;
pub use crate::plugin_api::URI_LIST_MIME;
use crate::plugin_api::ApiFault;

verus! {

/// Wire messages exchanged between an earlier plugin and the daemon.
#[derive(Debug, Clone, PartialEq, Eq)]
#[allow(inconsistent_fields)]
pub enum Message {
    /// Plugin startup declaration; the daemon validates it before routing messages.
    Hello {
        /// Protocol version advertised by the plugin during startup.
        protocol_version: u32,
        /// Identifier that lets the daemon match the process to its configured adapter.
        adapter_id: String,
        /// Human-readable plugin name shown to users.
        name: String,
        /// Operations and MIME types the plugin can handle.
        capabilities: Capabilities,
    },
    /// Plugin-to-daemon declaration of a local clipboard selection.
    CopyManifest(CopyManifest),
    /// Daemon-to-plugin destination selected for the transfer.
    PasteDestination(PasteDestination),
    /// Daemon-to-plugin progress update.
    Progress(Progress),
    /// Daemon-to-plugin manifest; it precedes plugin range requests.
    RemoteManifest(RemoteManifest),
    /// Plugin-to-daemon request for a remote byte range.
    RangeRequest(RangeRequest),
    /// Daemon-to-plugin response to a range request.
    RangeResponse(RangeResponse),
    /// Daemon-to-plugin notification that a mount is ready.
    MountReady(MountReady),
    /// Plugin-to-daemon request to publish file clipboard data.
    PublishFileClipboard(PublishFileClipboard),
    /// Daemon-to-plugin release notification.
    Released(Released),
    /// Daemon-to-plugin mount cleanup result.
    Unmounted(Unmounted),
    /// Daemon-to-plugin terminal success or failure result.
    Completed(Completion),
    /// Daemon-to-plugin cancellation notification.
    Cancelled(Cancelled),
    /// Daemon-to-plugin request that the plugin stop a transfer.
    Cancel {
        /// Transfer that must no longer be processed.
        transfer_id: String,
    },
    /// Plugin-to-daemon report of an uncorrelated or transfer-specific failure.
    Error {
        /// Human-readable failure reported to the peer.
        message: String,
    },
    /// Plugin-to-daemon clipboard payload for a transfer and MIME type.
    ClipboardData {
        /// Transfer whose clipboard payload is supplied.
        transfer_id: String,
        /// Exact desktop MIME identifier for `value`.
        mime_type: String,
        /// Payload associated with `mime_type`.
        value: String,
    },
}

/// What comes of a parsed frame: a greeting of another protocol version is
/// refused.
pub open spec fn version_fault(m: Message) -> Option<u32> {
    match m {
        Message::Hello { protocol_version, .. } => if protocol_version != PROTOCOL_VERSION {
            Some(protocol_version)
        } else {
            None
        },
        _ => None,
    }
}

impl Message {
    /// This message as one newline-terminated frame, from its JSON text or the
    /// reason why it has none.
    pub fn encode_line(json: Result<String, String>) -> (r: Result<String, ApiError>)
        ensures
            match (json, r) {
                (Ok(json), Ok(line)) => line@ == json@.push('\n'),
                (Err(reason), Err(error)) => error@ == ApiFault::Json(reason@),
                _ => false,
            },
    {
        match json {
            Ok(json) => {
                let mut line: String = json;
                line.push('\n');
                Ok(line)
            },
            Err(reason) => Err(ApiError::Json(reason)),
        }
    }

    /// The message of a frame, from what the JSON parser made of it. Validates
    /// any advertised protocol version.
    pub fn decode_line(parsed: Result<Message, String>) -> (r: Result<Message, ApiError>)
        ensures
            match parsed {
                Ok(message) => match version_fault(message) {
                    None => r == Ok::<Message, ApiError>(message),
                    Some(version) => r is Err && r->Err_0@ == ApiFault::UnsupportedVersion(
                        version,
                    ),
                },
                Err(reason) => r is Err && r->Err_0@ == ApiFault::Json(reason@),
            },
    {
        let message: Message = match parsed {
            Ok(message) => message,
            Err(reason) => {
                return Err(ApiError::Json(reason));
            },
        };
        match &message {
            Message::Hello { protocol_version, .. } => {
                if *protocol_version != PROTOCOL_VERSION {
                    return Err(ApiError::UnsupportedVersion(*protocol_version));
                }
            },
            _ => {},
        }
        Ok(message)
    }
}

} // verus!
