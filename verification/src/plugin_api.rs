//! Message vocabulary spoken by out-of-process Syntra plugins.
//!
//! Plugins communicate with the daemon through newline-delimited JSON frames;
//! this module defines the messages, [`frames`] finds the frames in a stream,
//! and [`manifest`] says which plugins are taken.
use vstd::prelude::*;

use crate::text::byte_len;
use crate::text::decimal;
use crate::text::len_of;
use crate::text::push_decimal;

pub mod frames;
pub mod manifest;
pub mod rules;

verus! {

/// Protocol version used by all newline-delimited JSON frames.
pub const PROTOCOL_VERSION: u32 = 1;

/// Standard URI-list MIME type used by desktop file managers.
/// The exact string enables interoperability with applications that consume RFC 2483 URI lists.
pub const URI_LIST_MIME: &'static str = "text/uri-list";

/// GNOME/Nautilus MIME type carrying copied-file operation metadata.
/// The exact string is required for file managers to recognise the clipboard offer.
pub const GNOME_COPIED_FILES_MIME: &'static str = "x-special/gnome-copied-files";

/// Errors returned while encoding, decoding or validating the plugin protocol.
#[derive(Debug, Clone, PartialEq, Eq)]
pub enum ApiError {
    /// A frame was not valid JSON, or did not match the expected shape.
    Json(String),
    /// The peer announced a protocol version this build cannot speak.
    UnsupportedVersion(u32),
    /// A manifest was well-formed JSON but semantically invalid.
    InvalidManifest(String),
    /// The underlying stream failed; the plugin is no longer reachable.
    Io(String),
    /// A frame exceeded the read limit and was refused.
    ///
    /// The bound exists so a malfunctioning plugin cannot exhaust memory.
    FrameTooLong,
    /// A base64 range payload decoded to more bytes than the caller allowed.
    PayloadTooLong,
    /// The stream ended mid-frame, so the plugin exited unexpectedly.
    TruncatedFrame,
}

pub ghost enum ApiFault {
    Json(Seq<char>),
    UnsupportedVersion(u32),
    InvalidManifest(Seq<char>),
    Io(Seq<char>),
    FrameTooLong,
    PayloadTooLong,
    TruncatedFrame,
}

impl View for ApiError {
    type V = ApiFault;

    open spec fn view(&self) -> ApiFault {
        match *self {
            ApiError::Json(text) => ApiFault::Json(text@),
            ApiError::UnsupportedVersion(version) => ApiFault::UnsupportedVersion(version),
            ApiError::InvalidManifest(text) => ApiFault::InvalidManifest(text@),
            ApiError::Io(text) => ApiFault::Io(text@),
            ApiError::FrameTooLong => ApiFault::FrameTooLong,
            ApiError::PayloadTooLong => ApiFault::PayloadTooLong,
            ApiError::TruncatedFrame => ApiFault::TruncatedFrame,
        }
    }
}

/// What is said of a fault.
pub open spec fn fault_text(f: ApiFault) -> Seq<char> {
    match f {
        ApiFault::Json(text) => "invalid JSON line: "@ + text,
        ApiFault::UnsupportedVersion(version) => "unsupported protocol version "@ + decimal(
            version as nat,
        ),
        ApiFault::InvalidManifest(text) => "invalid manifest: "@ + text,
        ApiFault::Io(text) => "I/O error: "@ + text,
        ApiFault::FrameTooLong => "JSON frame exceeds maximum length"@,
        ApiFault::PayloadTooLong => "decoded range payload exceeds maximum length"@,
        ApiFault::TruncatedFrame => "truncated JSON frame"@,
    }
}

impl ApiError {
    /// What is said of the error.
    pub fn to_text(&self) -> (s: String)
        ensures
            s@ == fault_text(self@),
    {
        match self {
            ApiError::Json(text) => {
                let mut s: String = "invalid JSON line: ".to_owned();
                s.push_str(text.as_str());
                s
            },
            ApiError::UnsupportedVersion(version) => {
                let mut s: String = "unsupported protocol version ".to_owned();
                push_decimal(&mut s, *version as u64);
                s
            },
            ApiError::InvalidManifest(text) => {
                let mut s: String = "invalid manifest: ".to_owned();
                s.push_str(text.as_str());
                s
            },
            ApiError::Io(text) => {
                let mut s: String = "I/O error: ".to_owned();
                s.push_str(text.as_str());
                s
            },
            ApiError::FrameTooLong => "JSON frame exceeds maximum length".to_owned(),
            ApiError::PayloadTooLong => "decoded range payload exceeds maximum length".to_owned(),
            ApiError::TruncatedFrame => "truncated JSON frame".to_owned(),
        }
    }
}

/// Filesystem operation requested for a transfer.
#[derive(Debug, Clone, Copy, PartialEq, Eq, Structural)]
pub enum Operation {
    /// Leave the source in place.
    Copy,
    /// Remove the source once the transfer completes successfully.
    Move,
}

/// Filesystem category of a transferred entry.
#[derive(Debug, Clone, Copy, PartialEq, Eq, Structural)]
pub enum EntryKind {
    /// A regular file, the only kind whose bytes are streamed.
    File,
    /// A directory, transferred as structure so its children can be placed.
    Directory,
    /// Anything else (symlink, socket, device); carried so the receiver can
    /// report it rather than silently dropping the entry.
    Other,
}

/// Plugin-to-daemon description of a locally selected entry.
#[derive(Debug, Clone, PartialEq, Eq)]
pub struct SourceEntry {
    pub uri: String,
    pub kind: EntryKind,
    pub size: Option<u64>,
}

/// Plugin-to-daemon declaration of the entries selected for transfer.
#[derive(Debug, Clone, PartialEq, Eq)]
pub struct CopyManifest {
    pub transfer_id: String,
    pub operation: Operation,
    pub entries: Vec<SourceEntry>,
}

/// Entry exposed by the daemon to a file-consuming plugin.
#[derive(Debug, Clone, PartialEq, Eq)]
pub struct RemoteEntry {
    pub entry_id: u64,
    pub path: String,
    pub kind: EntryKind,
    pub size: Option<u64>,
}

/// Daemon-to-plugin manifest that precedes range requests for remote files.
#[derive(Debug, Clone, PartialEq, Eq)]
pub struct RemoteManifest {
    pub transfer_id: String,
    pub operation: Operation,
    pub entries: Vec<RemoteEntry>,
}

/// Plugin-to-daemon request for bytes from an entry in a remote manifest.
#[derive(Debug, Clone, PartialEq, Eq)]
pub struct RangeRequest {
    pub transfer_id: String,
    pub request_id: u64,
    pub entry_id: u64,
    pub offset: u64,
    pub length: u32,
}

/// Daemon-to-plugin response matched to a preceding range request.
#[derive(Debug, Clone, PartialEq, Eq)]
pub struct RangeResponse {
    pub transfer_id: String,
    pub request_id: u64,
    pub offset: u64,
    pub data_base64: String,
    pub eof: bool,
    pub error: Option<String>,
}

/// Daemon-to-plugin notification that a remote read-only mount is ready.
#[derive(Debug, Clone, PartialEq, Eq)]
pub struct MountReady {
    pub transfer_id: String,
    pub mount_uri: String,
    pub uris: Vec<String>,
}

/// Plugin-to-daemon request to publish selected files through the desktop clipboard.
#[derive(Debug, Clone, PartialEq, Eq)]
pub struct PublishFileClipboard {
    pub transfer_id: String,
    pub operation: Operation,
    pub uris: Vec<String>,
}

/// Daemon-to-plugin notification that a clipboard transfer may be released.
#[derive(Debug, Clone, PartialEq, Eq)]
pub struct Released {
    pub transfer_id: String,
}

/// Daemon-to-plugin result of removing a temporary remote mount.
#[derive(Debug, Clone, PartialEq, Eq)]
pub struct Unmounted {
    pub transfer_id: String,
    pub success: bool,
    pub error: Option<String>,
}

/// Daemon-to-plugin destination for a paste operation.
#[derive(Debug, Clone, PartialEq, Eq)]
pub struct PasteDestination {
    pub transfer_id: String,
    pub destination_uri: String,
}

/// Daemon-to-plugin progress update for an active transfer.
#[derive(Debug, Clone, PartialEq, Eq)]
pub struct Progress {
    pub transfer_id: String,
    pub completed_entries: u64,
    pub total_entries: u64,
    pub completed_bytes: Option<u64>,
    pub total_bytes: Option<u64>,
}

/// Daemon-to-plugin terminal result for an active transfer.
#[derive(Debug, Clone, PartialEq, Eq)]
pub struct Completion {
    pub transfer_id: String,
    pub success: bool,
    pub error: Option<String>,
}

/// Daemon-to-plugin cancellation notification.
#[derive(Debug, Clone, PartialEq, Eq)]
pub struct Cancelled {
    pub transfer_id: String,
}

/// Capability declaration exchanged during plugin startup.
#[derive(Debug, Clone, PartialEq, Eq)]
pub struct Capabilities {
    pub clipboard_read: bool,
    pub paste: bool,
    pub cancel: bool,
    pub requires_live_mount: bool,
    pub mime_types: Vec<String>,
}

/// What `base64` decodes a text to, with the standard alphabet and canonical
/// padding; nothing where the text is no such encoding.
pub uninterp spec fn base64_decoded(text: Seq<char>) -> Option<Seq<u8>>;

/// `base64`'s `STANDARD.decode`. The bytes, and whether there are any, are left
/// to the name; an encoding has four characters for each three bytes begun.
#[verifier::external_body]
fn decode_base64(text: &str) -> (r: Option<Vec<u8>>)
    ensures
        match r {
            Some(bytes) => {
                &&& base64_decoded(text@) == Some(bytes@)
                &&& byte_len(text@) == 4 * ((bytes@.len() + 2) / 3)
            },
            None => base64_decoded(text@) is None,
        },
{
    base64::Engine::decode(&base64::engine::general_purpose::STANDARD, text).ok()
}

/// The smaller of a number and the largest `usize`.
pub open spec fn capped(n: int) -> int {
    if n > usize::MAX {
        usize::MAX as int
    } else {
        n
    }
}

/// How many characters the encoding of a payload may have: a little more than
/// `max_len` bytes take.
pub open spec fn encoded_limit(max_len: usize) -> int {
    capped(capped(max_len * 4) + 3) / 3 + 4
}

/// What decoding a range payload comes to, from what its text decodes to.
pub open spec fn payload_fault(
    encoded_len: nat,
    decoded: Option<Seq<u8>>,
    max_len: usize,
) -> Option<ApiFault> {
    if encoded_len > encoded_limit(max_len) {
        Some(ApiFault::PayloadTooLong)
    } else {
        match decoded {
            None => Some(ApiFault::InvalidManifest("invalid range payload"@)),
            Some(bytes) => if bytes.len() > max_len {
                Some(ApiFault::PayloadTooLong)
            } else {
                None
            },
        }
    }
}

/// The payload of a range, from what its text decoded to.
pub fn bounded_payload(decoded: Option<Vec<u8>>, max_len: usize) -> (r: Result<Vec<u8>, ApiError>)
    ensures
        match (decoded, r) {
            (Some(bytes), Ok(payload)) => payload@ == bytes@ && bytes@.len() <= max_len,
            (Some(bytes), Err(error)) => bytes@.len() > max_len && error@
                == ApiFault::PayloadTooLong,
            (None, Err(error)) => error@ == ApiFault::InvalidManifest("invalid range payload"@),
            (None, Ok(_)) => false,
        },
{
    match decoded {
        Some(bytes) => if bytes.len() > max_len {
            Err(ApiError::PayloadTooLong)
        } else {
            Ok(bytes)
        },
        None => Err(ApiError::InvalidManifest("invalid range payload".to_owned())),
    }
}

impl RangeResponse {
    /// The bytes of the range. A text that is too long for `max_len` bytes is
    /// refused before it is decoded; one within the limit is never refused for
    /// its length.
    pub fn decode_data(&self, max_len: usize) -> (r: Result<Vec<u8>, ApiError>)
        ensures
            match r {
                Ok(bytes) => {
                    &&& base64_decoded(self.data_base64@) == Some(bytes@)
                    &&& payload_fault(
                        byte_len(self.data_base64@),
                        base64_decoded(self.data_base64@),
                        max_len,
                    ) is None
                },
                Err(error) => payload_fault(
                    byte_len(self.data_base64@),
                    base64_decoded(self.data_base64@),
                    max_len,
                ) == Some(error@),
            },
    {
        let four: usize = if max_len > usize::MAX / 4 {
            usize::MAX
        } else {
            max_len * 4
        };
        if len_of(self.data_base64.as_str()) > four.saturating_add(3) / 3 + 4 {
            return Err(ApiError::PayloadTooLong);
        }
        bounded_payload(decode_base64(self.data_base64.as_str()), max_len)
    }
}

/// The limit on the encoding refuses no payload that the limit on the bytes
/// allows: bytes in four characters for each three begun stay within it.
pub proof fn law_limit_admits_every_payload(bytes: Seq<u8>, max_len: usize)
    requires
        bytes.len() <= max_len,
        max_len <= usize::MAX / 4,
    ensures
        payload_fault(4 * ((bytes.len() + 2) / 3), Some(bytes), max_len) is None,
{
    let n = bytes.len();
    assert(4 * ((n + 2) / 3) <= (4 * n + 8) / 3);
}

/// What a plugin reports about itself during the handshake.
///
/// Compiled into the plugin, so it can never disagree with the binary the
/// way a file beside it can.
#[derive(Debug, Clone, PartialEq, Eq)]
pub struct PluginMetadata {
    /// One or two sentences describing the capability this plugin adds.
    pub description: String,
    /// Plugin version.
    pub version: String,
    /// Person or organisation responsible for it.
    pub author: String,
    /// Project or documentation page.
    pub homepage: Option<String>,
    /// Where the source can be audited.
    pub source: Option<String>,
    /// Where newer releases are published.
    pub update_url: Option<String>,
    /// SPDX licence identifier.
    pub license: Option<String>,
    /// Shipped with Syntra rather than installed by the user.
    pub bundled: bool,
    /// Started only while something needs it, then exits.
    ///
    /// Reported by the plugin because only it knows how it behaves; a stale
    /// manifest omitting this is what made a one-shot plugin read as broken.
    pub on_demand: bool,
    /// Fingerprint of the build this plugin came from.
    pub build_fingerprint: String,
}

impl Default for PluginMetadata {
    fn default() -> (m: PluginMetadata)
        ensures
            m.description@.len() == 0,
            m.version@.len() == 0,
            m.author@.len() == 0,
            m.homepage is None,
            m.source is None,
            m.update_url is None,
            m.license is None,
            !m.bundled,
            !m.on_demand,
            m.build_fingerprint@.len() == 0,
    {
        PluginMetadata {
            description: String::new(),
            version: String::new(),
            author: String::new(),
            homepage: None,
            source: None,
            update_url: None,
            license: None,
            bundled: false,
            on_demand: false,
            build_fingerprint: String::new(),
        }
    }
}

/// Wire messages exchanged between an out-of-process plugin and the daemon.
#[derive(Debug, Clone, PartialEq, Eq)]
#[allow(inconsistent_fields)]
pub enum Message {
    /// Plugin startup declaration; the daemon validates it before routing messages.
    ///
    /// This is the authoritative description of a plugin. A manifest file is
    /// only how an unknown plugin is *discovered*; once the process speaks,
    /// what it says about itself wins. A file beside a binary can be stale,
    /// edited or missing, and a plugin described by a stale file is reported
    /// wrongly for as long as the file survives.
    Hello {
        /// Protocol version advertised by the plugin during startup.
        protocol_version: u32,
        /// Identifier that lets the daemon match the process to its configured adapter.
        adapter_id: String,
        /// Human-readable plugin name shown to users.
        name: String,
        /// Operations and MIME types the plugin can handle.
        capabilities: Capabilities,
        /// Everything else a user is shown about the plugin.
        ///
        /// Optional so a third-party plugin that does not report it still
        /// completes its handshake.
        metadata: Option<PluginMetadata>,
    },
    /// Plugin-to-daemon declaration of a local clipboard selection.
    CopyManifest(CopyManifest),
    /// Daemon-to-plugin destination selected for the transfer.
    PasteDestination(PasteDestination),
    /// Daemon-to-plugin progress update.
    Progress(Progress),
    /// Daemon-to-plugin manifest; it precedes plugin range requests.
    RemoteManifest(RemoteManifest),
    /// Plugin-to-daemon request for a remote byte range.
    RangeRequest(RangeRequest),
    /// Daemon-to-plugin response to a range request.
    RangeResponse(RangeResponse),
    /// Daemon-to-plugin notification that a mount is ready.
    MountReady(MountReady),
    /// Plugin-to-daemon request to publish file clipboard data.
    PublishFileClipboard(PublishFileClipboard),
    /// Daemon-to-plugin release notification.
    Released(Released),
    /// Daemon-to-plugin mount cleanup result.
    Unmounted(Unmounted),
    /// Daemon-to-plugin terminal success or failure result.
    Completed(Completion),
    /// Daemon-to-plugin cancellation notification.
    Cancelled(Cancelled),
    /// Daemon-to-plugin request that the plugin stop a transfer.
    Cancel {
        /// Transfer that must no longer be processed.
        transfer_id: String,
    },
    /// Plugin-to-daemon report of an uncorrelated or transfer-specific failure.
    Error {
        /// Human-readable failure reported to the peer.
        message: String,
    },
    /// Plugin-to-daemon clipboard payload for a transfer and MIME type.
    ClipboardData {
        /// Transfer whose clipboard payload is supplied.
        transfer_id: String,
        /// Exact desktop MIME identifier for `value`.
        mime_type: String,
        /// Payload associated with `mime_type`.
        value: String,
    },
}

/// What comes of a parsed frame: a greeting of another protocol version is
/// refused.
pub open spec fn version_fault(m: Message) -> Option<u32> {
    match m {
        Message::Hello { protocol_version, .. } => if protocol_version != PROTOCOL_VERSION {
            Some(protocol_version)
        } else {
            None
        },
        _ => None,
    }
}

impl Message {
    /// This message as one newline-terminated frame, from its JSON text or the
    /// reason why it has none.
    pub fn encode_line(json: Result<String, String>) -> (r: Result<String, ApiError>)
        ensures
            match (json, r) {
                (Ok(json), Ok(line)) => line@ == json@.push('\n'),
                (Err(reason), Err(error)) => error@ == ApiFault::Json(reason@),
                _ => false,
            },
    {
        match json {
            Ok(json) => {
                let mut line: String = json;
                line.push('\n');
                Ok(line)
            },
            Err(reason) => Err(ApiError::Json(reason)),
        }
    }

    /// The message of a frame, from what the JSON parser made of it. Validates
    /// any advertised protocol version.
    pub fn decode_line(parsed: Result<Message, String>) -> (r: Result<Message, ApiError>)
        ensures
            match parsed {
                Ok(message) => match version_fault(message) {
                    None => r == Ok::<Message, ApiError>(message),
                    Some(version) => r is Err && r->Err_0@ == ApiFault::UnsupportedVersion(
                        version,
                    ),
                },
                Err(reason) => r is Err && r->Err_0@ == ApiFault::Json(reason@),
            },
    {
        let message: Message = match parsed {
            Ok(message) => message,
            Err(reason) => {
                return Err(ApiError::Json(reason));
            },
        };
        match &message {
            Message::Hello { protocol_version, .. } => {
                if *protocol_version != PROTOCOL_VERSION {
                    return Err(ApiError::UnsupportedVersion(*protocol_version));
                }
            },
            _ => {},
        }
        Ok(message)
    }
}

// ---------------------------------------------------------------------------
// The fingerprint of a build
// ---------------------------------------------------------------------------

/// The fingerprint of a checkout: the version; with the commit where it is
/// known, which is marked where the tree differs from it.
pub open spec fn fingerprint(
    version: Option<Seq<char>>,
    commit: Option<Seq<char>>,
    status: Option<Seq<char>>,
) -> Seq<char> {
    let version = match version {
        Some(version) => version,
        None => "unknown"@,
    };
    match commit {
        None => version,
        Some(commit) => if status is Some && status->Some_0.len() > 0 {
            version + "+"@ + commit + ".dirty"@
        } else {
            version + "+"@ + commit
        },
    }
}

/// Describes the source the component was built from, by its version, its commit
/// and what differs from the commit.
///
/// Falls back to the package version when the commit is unknown, as in a
/// published crate or a source tarball. That is weaker but never wrong: two
/// components built from the same tarball still agree.
pub fn fingerprint_from_checkout(
    version: Option<&str>,
    commit: Option<&str>,
    status: Option<&str>,
) -> (s: String)
    ensures
        s@ == fingerprint(
            match version {
                Some(version) => Some(version@),
                None => None,
            },
            match commit {
                Some(commit) => Some(commit@),
                None => None,
            },
            match status {
                Some(status) => Some(status@),
                None => None,
            },
        ),
{
    let mut s: String = match version {
        Some(version) => version.to_owned(),
        None => "unknown".to_owned(),
    };
    match commit {
        Some(commit) => {
            s.push_str("+");
            s.push_str(commit);
            let dirty: bool = match status {
                Some(status) => status.unicode_len() > 0,
                None => false,
            };
            if dirty {
                s.push_str(".dirty");
            }
        },
        None => {},
    }
    s
}

/// The fingerprint that is compiled in: the one that was given, unless it is
/// empty, or that of the checkout.
pub fn build_fingerprint(given: Option<String>, checkout: String) -> (s: String)
    ensures
        s@ == (if given is Some && given->Some_0@.len() > 0 {
            given->Some_0@
        } else {
            checkout@
        }),
{
    match given {
        Some(given) => if given.as_str().unicode_len() > 0 {
            given
        } else {
            checkout
        },
        None => checkout,
    }
}

} // verus!
