//! What a daemon and its clients say to each other: the events that the daemon
//! reports and the requests that a client makes.
//!
//! Paths are texts here, and addresses are numbers, so that what the library
//! decides over them can be stated.
use crate::table::Key;
use vstd::prelude::*;

pub use crate::history::HistoryEventId;
pub use crate::history::HistoryKind;
pub use crate::proto::Position;

verus! {

/// The number by which a daemon knows a configured client.
pub type ClientHandle = u64;

pub type ClipboardTransferId = u64;

pub type ClipboardFileId = u64;

/// An IP address: the number that its octets stand for.
#[derive(Clone, Copy, Debug, PartialEq, Eq, Structural)]
pub enum IpAddr {
    V4(u32),
    V6(u128),
}

impl IpAddr {
    /// Addresses of the fourth version come first, then the number decides.
    pub open spec fn precedes(a: IpAddr, b: IpAddr) -> bool {
        match (a, b) {
            (IpAddr::V4(a), IpAddr::V4(b)) => a < b,
            (IpAddr::V4(_), IpAddr::V6(_)) => true,
            (IpAddr::V6(_), IpAddr::V4(_)) => false,
            (IpAddr::V6(a), IpAddr::V6(b)) => a < b,
        }
    }

    /// Whether this address comes before another.
    pub fn is_before(self, other: IpAddr) -> (r: bool)
        ensures
            r == IpAddr::precedes(self, other),
    {
        match (self, other) {
            (IpAddr::V4(a), IpAddr::V4(b)) => a < b,
            (IpAddr::V4(_), IpAddr::V6(_)) => true,
            (IpAddr::V6(_), IpAddr::V4(_)) => false,
            (IpAddr::V6(a), IpAddr::V6(b)) => a < b,
        }
    }
}

/// The address and port of a peer; flow and scope are those of the sixth
/// version.
#[derive(Clone, Copy, Debug, PartialEq, Eq, Structural)]
pub struct SocketAddr {
    pub ip: IpAddr,
    pub port: u16,
    pub flow: u32,
    pub scope: u32,
}

impl Key for SocketAddr {
    type Model = SocketAddr;

    open spec fn model(&self) -> SocketAddr {
        *self
    }

    open spec fn below(a: SocketAddr, b: SocketAddr) -> bool {
        if a.ip != b.ip {
            IpAddr::precedes(a.ip, b.ip)
        } else if a.port != b.port {
            a.port < b.port
        } else if a.flow != b.flow {
            a.flow < b.flow
        } else {
            a.scope < b.scope
        }
    }

    proof fn lemma_order(a: SocketAddr, b: SocketAddr, c: SocketAddr) {
    }

    fn is_below(&self, other: &SocketAddr) -> (r: bool) {
        if self.ip != other.ip {
            self.ip.is_before(other.ip)
        } else if self.port != other.port {
            self.port < other.port
        } else if self.flow != other.flow {
            self.flow < other.flow
        } else {
            self.scope < other.scope
        }
    }
}

/// How a client is configured.
#[derive(Clone, Debug, PartialEq, Eq)]
pub struct ClientConfig {
    pub hostname: Option<String>,
    pub fix_ips: Vec<IpAddr>,
    pub port: u16,
    pub pos: Position,
    pub cmd: Option<String>,
}

/// What is known of a client at the moment.
#[derive(Clone, Debug, PartialEq, Eq)]
pub struct ClientState {
    pub active: bool,
    pub active_addr: Option<SocketAddr>,
    pub alive: bool,
    pub remote_ready: bool,
    pub dns_ips: Vec<IpAddr>,
    pub ips: Vec<IpAddr>,
    pub has_pressed_keys: bool,
    pub resolving: bool,
    pub peer_commit: Option<[u8; 8]>,
}

impl Default for ClientConfig {
    /// A client that nothing is known of yet.
    fn default() -> (c: ClientConfig)
        ensures
            c.hostname is None,
            c.fix_ips@.len() == 0,
            c.port == 0,
            c.pos == Position::Left,
            c.cmd is None,
    {
        ClientConfig { hostname: None, fix_ips: Vec::new(), port: 0, pos: Position::Left, cmd: None }
    }
}

impl Default for ClientState {
    /// A client that has not been heard of.
    fn default() -> (s: ClientState)
        ensures
            !s.active,
            s.active_addr is None,
            !s.alive,
            !s.remote_ready,
            s.dns_ips@.len() == 0,
            s.ips@.len() == 0,
            !s.has_pressed_keys,
            !s.resolving,
            s.peer_commit is None,
    {
        ClientState {
            active: false,
            active_addr: None,
            alive: false,
            remote_ready: false,
            dns_ips: Vec::new(),
            ips: Vec::new(),
            has_pressed_keys: false,
            resolving: false,
            peer_commit: None,
        }
    }
}

/// Which contents of the clipboard are shared.
#[derive(Clone, Copy, Debug, PartialEq, Eq, Structural)]
pub struct ClipboardSettings {
    pub text: bool,
    pub image: bool,
    pub files: bool,
}

#[derive(Clone, Copy, Debug, PartialEq, Eq, Structural)]
pub enum ClipboardTransferDirection {
    Sending,
    Receiving,
}

#[derive(Clone, Debug, PartialEq, Eq)]
pub enum ClipboardTransferState {
    Pending,
    Transferring,
    Completed,
    Cancelled,
    Failed(String),
}

/// How far the transfer of a clipboard file has come.
#[derive(Clone, Debug, PartialEq, Eq)]
pub struct ClipboardTransferStatus {
    pub transfer_id: ClipboardTransferId,
    pub file_id: ClipboardFileId,
    pub name: String,
    pub direction: ClipboardTransferDirection,
    pub transferred_bytes: u64,
    pub total_bytes: u64,
    pub bytes_per_second: u64,
    pub state: ClipboardTransferState,
}

#[derive(Clone, Copy, Debug, PartialEq, Eq, Structural)]
pub enum ManualTransferState {
    Offering,
    AwaitingAcceptance,
    Transferring,
    Completed,
    Declined,
    Cancelled,
    Failed,
}

/// How far a manually sent file has come.
#[derive(Clone, Debug, PartialEq, Eq)]
pub struct ManualTransferStatus {
    pub peer_fingerprint: String,
    pub transfer_id: u64,
    pub file_name: String,
    pub size: u64,
    pub transferred: u64,
    pub direction: ClipboardTransferDirection,
    pub state: ManualTransferState,
    pub destination: Option<String>,
    pub error: Option<String>,
}

/// A file that a peer offers.
#[derive(Clone, Debug, PartialEq, Eq)]
pub struct IncomingFileOffer {
    pub peer_fingerprint: String,
    pub transfer_id: u64,
    pub file_name: String,
    pub size: u64,
    pub suggested_directory: String,
}

/// Where received files go.
#[derive(Clone, Debug, PartialEq, Eq)]
pub struct FileReceiveSettings {
    pub auto_accept: bool,
    pub download_directory: String,
}

/// The picture of a peer, four bytes for each pixel.
#[derive(Clone, Debug, PartialEq, Eq)]
pub struct PeerAvatar {
    pub width: u32,
    pub height: u32,
    pub rgba: Vec<u8>,
}

/// How a device presents itself.
#[derive(Clone, Debug, PartialEq, Eq)]
pub struct DeviceProfile {
    pub display_name: String,
    pub avatar: Option<PeerAvatar>,
}

/// A device found on the network.
#[derive(Clone, Debug, PartialEq, Eq)]
pub struct DiscoveredPeer {
    pub id: String,
    pub display_name: String,
    pub addresses: Vec<IpAddr>,
    pub port: u16,
}

#[derive(Clone, Copy, Debug, PartialEq, Eq, Structural)]
pub enum PluginHealth {
    Disabled,
    NotInstalled,
    Stopped,
    Starting,
    Healthy,
    Unresponsive,
    Failed,
}

/// What the daemon says of a plugin.
#[derive(Clone, Debug, PartialEq, Eq)]
pub struct PluginStatus {
    pub id: String,
    pub name: String,
    pub description: String,
    pub version: String,
    pub author: String,
    pub homepage: Option<String>,
    pub source: Option<String>,
    pub update_url: Option<String>,
    pub license: Option<String>,
    pub mime_types: Vec<String>,
    pub bundled: bool,
    pub manifest_path: String,
    pub executable: String,
    pub installed: bool,
    pub enabled: bool,
    pub running: bool,
    pub health: PluginHealth,
    pub restarts: u32,
    pub pid: Option<u32>,
    pub protocol_version: u32,
    pub supported_protocol_version: u32,
    pub error: Option<String>,
}

#[derive(Clone, Copy, Debug, PartialEq, Eq, Structural)]
pub enum DaemonOrigin {
    Service,
    Dashboard,
    Manual,
}

/// What the daemon says of itself.
#[derive(Clone, Debug, PartialEq, Eq)]
pub struct DaemonInfo {
    pub version: String,
    pub origin: DaemonOrigin,
    pub pid: u32,
    pub uptime_seconds: u64,
    pub executable: String,
    pub socket: String,
    pub config_dir: String,
    pub port: u16,
    pub capture_backend: Option<String>,
    pub emulation_backend: Option<String>,
}

/// As much of a clipboard event as a list shows.
#[derive(Clone, Debug, PartialEq, Eq)]
pub enum HistoryPreview {
    Text { preview: String, truncated: bool },
    Image { size_bytes: u64, width: Option<u32>, height: Option<u32> },
    Files { names: Vec<String>, total_files: u64, total_size_bytes: u64 },
}

#[derive(Clone, Debug, PartialEq, Eq)]
pub struct HistoryRecordSummary {
    pub event_id: HistoryEventId,
    pub created_at_ms: i64,
    pub origin_label: Option<String>,
    pub pinned: bool,
    pub kind: HistoryKind,
    pub preview: HistoryPreview,
}

/// A part of the history, newest first.
#[derive(Clone, Debug, PartialEq, Eq)]
pub struct HistoryPage {
    pub query: String,
    pub offset: u64,
    pub next_offset: Option<u64>,
    pub records: Vec<HistoryRecordSummary>,
}

/// The pixels of a clipboard image, four bytes each where the size is known.
#[derive(Clone, Debug, PartialEq, Eq)]
pub struct HistoryImage {
    pub width: Option<u32>,
    pub height: Option<u32>,
    pub bytes: Vec<u8>,
}

/// What the daemon reports.
#[allow(inconsistent_fields)]
#[derive(Clone, Debug, PartialEq, Eq)]
pub enum FrontendEvent {
    Created(ClientHandle, ClientConfig, ClientState),
    State(ClientHandle, ClientConfig, ClientState),
    Deleted(ClientHandle),
    NoSuchClient(ClientHandle),
    Enumerate(Vec<(ClientHandle, ClientConfig, ClientState)>),
    DiscoveredPeers(Vec<DiscoveredPeer>),
    ClientFingerprint { handle: ClientHandle, fingerprint: String },
    /// A profile, and whether it passed the check that every profile is put to
    /// on arrival.
    PeerDeviceProfile { fingerprint: String, profile: DeviceProfile, valid: bool },
    IdentityRegenerated { fingerprint: String },
    PortChanged(u16, Option<String>),
    Error(String),
    FileReceiveSettingsChanged(FileReceiveSettings, Option<String>),
    IncomingFileOffer(IncomingFileOffer),
    ManualTransferStatus(ManualTransferStatus),
    ManualTransferError(String),
    HistoryChanged,
    HistoryPage(HistoryPage),
    HistoryPinResult { event_id: HistoryEventId, pinned: bool, updated: bool },
    HistoryImageResult {
        event_id: HistoryEventId,
        image: Option<HistoryImage>,
        error: Option<String>,
    },
    HistoryClearResult {
        operation_id: String,
        affected: u64,
        peers_acknowledged: u32,
        error: Option<String>,
    },
    HistoryError(String),
    CaptureStatus(bool),
    InputSharing(bool),
    EmulationStatus(bool),
    AuthorizedUpdated(Vec<(String, String)>),
    PublicKeyFingerprint(String),
    DeviceConnected { addr: SocketAddr, fingerprint: String },
    DeviceEntered { fingerprint: String, addr: SocketAddr, pos: Position },
    IncomingDisconnected(SocketAddr),
    ConnectionAttempt { fingerprint: String },
    ClipboardSettings(ClipboardSettings),
    ClipboardTransferStatus(ClipboardTransferStatus),
    LogSpec(String),
    Plugins(Vec<PluginStatus>),
}

/// What a client asks of the daemon.
#[allow(inconsistent_fields)]
#[derive(Clone, Debug, PartialEq, Eq)]
pub enum FrontendRequest {
    Create,
    Delete(ClientHandle),
    Activate(ClientHandle, bool),
    ChangePort(u16),
    Sync,
    Enumerate,
    ResolveDns(ClientHandle),
    UpdateHostname(ClientHandle, Option<String>),
    UpdatePort(ClientHandle, u16),
    UpdatePosition(ClientHandle, Position),
    UpdateFixIps(ClientHandle, Vec<IpAddr>),
    EnableCapture,
    EnableEmulation,
    SetInputSharing(bool),
    DiscoverPeers,
    AuthorizeKey(String, String),
    RemoveAuthorizedKey(String),
    SaveConfiguration,
    SetClipboardText(bool),
    SetClipboardImage(bool),
    SetClipboardFiles(bool),
    CancelClipboardTransfer(ClipboardTransferId),
    RegenerateIdentity,
    QueryHistory { query: String, offset: u64, limit: u32 },
    SetHistoryPinned { event_id: HistoryEventId, pinned: bool },
    ClearGlobalHistory,
    GetHistoryImage(HistoryEventId),
    SetLocalDeviceProfile(DeviceProfile),
    SetFileReceiveSettings(FileReceiveSettings),
    SendFiles { peer_fingerprint: String, paths: Vec<String> },
    AcceptFileTransfer {
        peer_fingerprint: String,
        transfer_id: u64,
        destination_directory: String,
    },
    DeclineFileTransfer { peer_fingerprint: String, transfer_id: u64 },
    CancelManualTransfer { peer_fingerprint: String, transfer_id: u64 },
    SetPluginEnabled { id: String, enabled: bool },
    RestartPlugin { id: String },
    QueryPlugins,
    QueryDaemonInfo,
    StopService,
}

} // verus!
