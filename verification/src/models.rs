//! The values that the control panel shows and the forms it accepts.
use crate::text::{opt_view, views};
use vstd::prelude::*;

verus! {

/// The version of the state that the interface loads.
pub const APP_VERSION: u32 = 1;

/// How a connection authenticates.
#[derive(Clone, Copy, Debug, PartialEq, Eq, Structural)]
pub enum AuthMethod {
    Password,
    PrivateKey,
}

impl Default for AuthMethod {
    fn default() -> (res: Self)
        ensures
            res == AuthMethod::Password,
    {
        AuthMethod::Password
    }
}

/// The texts of pairs of names and values.
pub open spec fn pairs_view(pairs: Seq<(String, String)>) -> Seq<(Seq<char>, Seq<char>)> {
    Seq::new(pairs.len(), |i: int| (pairs[i].0@, pairs[i].1@))
}

/// A saved connection.
#[derive(Clone, Debug, PartialEq, Eq)]
pub struct ServerProfile {
    pub id: String,
    pub name: String,
    pub host: String,
    pub username: String,
    pub port: u16,
    pub auth_method: AuthMethod,
    pub key_path: Option<String>,
    pub jump_host_id: Option<String>,
    pub group_name: Option<String>,
    pub tags: Vec<String>,
    pub notes: String,
    pub favorite: bool,
    pub created_at: String,
    pub updated_at: String,
    pub last_connected_at: Option<String>,
}

#[verifier::ext_equal]
pub struct ServerProfileView {
    pub id: Seq<char>,
    pub name: Seq<char>,
    pub host: Seq<char>,
    pub username: Seq<char>,
    pub port: u16,
    pub auth_method: AuthMethod,
    pub key_path: Option<Seq<char>>,
    pub jump_host_id: Option<Seq<char>>,
    pub group_name: Option<Seq<char>>,
    pub tags: Seq<Seq<char>>,
    pub notes: Seq<char>,
    pub favorite: bool,
    pub created_at: Seq<char>,
    pub updated_at: Seq<char>,
    pub last_connected_at: Option<Seq<char>>,
}

impl View for ServerProfile {
    type V = ServerProfileView;

    open spec fn view(&self) -> ServerProfileView {
        ServerProfileView {
            id: self.id@,
            name: self.name@,
            host: self.host@,
            username: self.username@,
            port: self.port,
            auth_method: self.auth_method,
            key_path: opt_view(self.key_path),
            jump_host_id: opt_view(self.jump_host_id),
            group_name: opt_view(self.group_name),
            tags: views(self.tags@),
            notes: self.notes@,
            favorite: self.favorite,
            created_at: self.created_at@,
            updated_at: self.updated_at@,
            last_connected_at: opt_view(self.last_connected_at),
        }
    }
}

/// A saved profile, and the servers whose open sessions it outdates.
#[derive(Clone, Debug, PartialEq, Eq)]
pub struct ServerSaveResult {
    pub server: ServerProfile,
    pub invalidated_server_ids: Vec<String>,
}

/// What the connection form sends. The port is wide enough for an out-of-range
/// number to be answered with an error.
#[derive(Clone, Debug, PartialEq, Eq)]
pub struct ServerDraft {
    pub id: Option<String>,
    pub name: String,
    pub host: String,
    pub username: String,
    pub port: u32,
    pub auth_method: AuthMethod,
    pub key_path: Option<String>,
    pub jump_host_id: Option<String>,
    pub group_name: Option<String>,
    pub tags: Vec<String>,
    pub notes: String,
    pub favorite: bool,
    pub password: Option<String>,
    pub key_passphrase: Option<String>,
    pub sudo_password: Option<String>,
}

#[verifier::ext_equal]
pub struct ServerDraftView {
    pub id: Option<Seq<char>>,
    pub name: Seq<char>,
    pub host: Seq<char>,
    pub username: Seq<char>,
    pub port: u32,
    pub auth_method: AuthMethod,
    pub key_path: Option<Seq<char>>,
    pub jump_host_id: Option<Seq<char>>,
    pub group_name: Option<Seq<char>>,
    pub tags: Seq<Seq<char>>,
    pub notes: Seq<char>,
    pub favorite: bool,
    pub password: Option<Seq<char>>,
    pub key_passphrase: Option<Seq<char>>,
    pub sudo_password: Option<Seq<char>>,
}

impl View for ServerDraft {
    type V = ServerDraftView;

    open spec fn view(&self) -> ServerDraftView {
        ServerDraftView {
            id: opt_view(self.id),
            name: self.name@,
            host: self.host@,
            username: self.username@,
            port: self.port,
            auth_method: self.auth_method,
            key_path: opt_view(self.key_path),
            jump_host_id: opt_view(self.jump_host_id),
            group_name: opt_view(self.group_name),
            tags: views(self.tags@),
            notes: self.notes@,
            favorite: self.favorite,
            password: opt_view(self.password),
            key_passphrase: opt_view(self.key_passphrase),
            sudo_password: opt_view(self.sudo_password),
        }
    }
}

/// A private key found in the SSH directory.
#[derive(Clone, Debug, PartialEq, Eq)]
pub struct SshKey {
    pub path: String,
    pub name: String,
    pub kind: String,
    pub size_bytes: u64,
}

#[verifier::ext_equal]
pub struct SshKeyView {
    pub path: Seq<char>,
    pub name: Seq<char>,
    pub kind: Seq<char>,
    pub size_bytes: u64,
}

impl View for SshKey {
    type V = SshKeyView;

    open spec fn view(&self) -> SshKeyView {
        SshKeyView {
            path: self.path@,
            name: self.name@,
            kind: self.kind@,
            size_bytes: self.size_bytes,
        }
    }
}

/// One `Host` alias of an SSH client configuration.
#[derive(Clone, Debug, PartialEq, Eq)]
pub struct SshConfigEntry {
    pub alias: String,
    pub host: Option<String>,
    pub username: Option<String>,
    pub port: Option<u16>,
    pub key_path: Option<String>,
}

#[verifier::ext_equal]
pub struct SshConfigEntryView {
    pub alias: Seq<char>,
    pub host: Option<Seq<char>>,
    pub username: Option<Seq<char>>,
    pub port: Option<u16>,
    pub key_path: Option<Seq<char>>,
}

impl View for SshConfigEntry {
    type V = SshConfigEntryView;

    open spec fn view(&self) -> SshConfigEntryView {
        SshConfigEntryView {
            alias: self.alias@,
            host: opt_view(self.host),
            username: opt_view(self.username),
            port: self.port,
            key_path: opt_view(self.key_path),
        }
    }
}

/// What the interface loads at the start.
#[derive(Clone, Debug, PartialEq, Eq)]
pub struct AppStateSnapshot {
    pub version: u32,
    pub servers: Vec<ServerProfile>,
    pub ssh_keys: Vec<SshKey>,
    pub ssh_config_entries: Vec<SshConfigEntry>,
}

/// Whether a vault exists, and whether it is open.
#[derive(Clone, Debug, PartialEq, Eq)]
pub struct CredentialStatus {
    pub configured: bool,
    pub unlocked: bool,
}

/// What a server offers, as the capability probe found it.
#[derive(Clone, Debug, PartialEq, Eq)]
pub struct ServerCapabilities {
    pub distro: Option<String>,
    pub package_manager: Option<String>,
    pub init_system: Option<String>,
    pub systemd: bool,
    pub docker: bool,
    pub podman: bool,
    pub sudo: bool,
    pub network_tool: Option<String>,
    pub journalctl: bool,
    pub logread: bool,
    pub cron: bool,
    pub architecture: String,
    pub coreutils_variant: String,
    pub root: bool,
}

#[verifier::ext_equal]
pub struct ServerCapabilitiesView {
    pub distro: Option<Seq<char>>,
    pub package_manager: Option<Seq<char>>,
    pub init_system: Option<Seq<char>>,
    pub systemd: bool,
    pub docker: bool,
    pub podman: bool,
    pub sudo: bool,
    pub network_tool: Option<Seq<char>>,
    pub journalctl: bool,
    pub logread: bool,
    pub cron: bool,
    pub architecture: Seq<char>,
    pub coreutils_variant: Seq<char>,
    pub root: bool,
}

impl View for ServerCapabilities {
    type V = ServerCapabilitiesView;

    open spec fn view(&self) -> ServerCapabilitiesView {
        ServerCapabilitiesView {
            distro: opt_view(self.distro),
            package_manager: opt_view(self.package_manager),
            init_system: opt_view(self.init_system),
            systemd: self.systemd,
            docker: self.docker,
            podman: self.podman,
            sudo: self.sudo,
            network_tool: opt_view(self.network_tool),
            journalctl: self.journalctl,
            logread: self.logread,
            cron: self.cron,
            architecture: self.architecture@,
            coreutils_variant: self.coreutils_variant@,
            root: self.root,
        }
    }
}

/// Identity and capabilities of a connected server.
#[derive(Clone, Debug, PartialEq, Eq)]
pub struct ConnectionSummary {
    pub server_id: String,
    pub hostname: String,
    pub os: String,
    pub kernel: String,
    pub architecture: String,
    pub capabilities: ServerCapabilities,
    pub connected_at: String,
}

#[verifier::ext_equal]
pub struct ConnectionSummaryView {
    pub server_id: Seq<char>,
    pub hostname: Seq<char>,
    pub os: Seq<char>,
    pub kernel: Seq<char>,
    pub architecture: Seq<char>,
    pub capabilities: ServerCapabilitiesView,
    pub connected_at: Seq<char>,
}

impl View for ConnectionSummary {
    type V = ConnectionSummaryView;

    open spec fn view(&self) -> ConnectionSummaryView {
        ConnectionSummaryView {
            server_id: self.server_id@,
            hostname: self.hostname@,
            os: self.os@,
            kernel: self.kernel@,
            architecture: self.architecture@,
            capabilities: self.capabilities@,
            connected_at: self.connected_at@,
        }
    }
}

/// When a connection was made.
#[derive(Clone, Debug, PartialEq, Eq)]
pub struct ServerConnection {
    pub server_id: String,
    pub connected_at: String,
}

#[verifier::ext_equal]
pub struct ServerConnectionView {
    pub server_id: Seq<char>,
    pub connected_at: Seq<char>,
}

impl View for ServerConnection {
    type V = ServerConnectionView;

    open spec fn view(&self) -> ServerConnectionView {
        ServerConnectionView {
            server_id: self.server_id@,
            connected_at: self.connected_at@,
        }
    }
}

/// A network interface with its addresses.
#[derive(Clone, Debug, PartialEq, Eq)]
pub struct NetworkInterface {
    pub name: String,
    pub addresses: Vec<String>,
}

#[verifier::ext_equal]
pub struct NetworkInterfaceView {
    pub name: Seq<char>,
    pub addresses: Seq<Seq<char>>,
}

impl View for NetworkInterface {
    type V = NetworkInterfaceView;

    open spec fn view(&self) -> NetworkInterfaceView {
        NetworkInterfaceView {
            name: self.name@,
            addresses: views(self.addresses@),
        }
    }
}

/// A large file; the time of its last change is in Unix seconds.
#[derive(Clone, Debug, PartialEq, Eq)]
pub struct LargestFile {
    pub path: String,
    pub size_bytes: u64,
    pub modified_at: Option<i64>,
}

#[verifier::ext_equal]
pub struct LargestFileView {
    pub path: Seq<char>,
    pub size_bytes: u64,
    pub modified_at: Option<i64>,
}

impl View for LargestFile {
    type V = LargestFileView;

    open spec fn view(&self) -> LargestFileView {
        LargestFileView {
            path: self.path@,
            size_bytes: self.size_bytes,
            modified_at: self.modified_at,
        }
    }
}

/// A large directory and how deep below the root it lies.
#[derive(Clone, Debug, PartialEq, Eq)]
pub struct LargestDirectory {
    pub path: String,
    pub size_bytes: u64,
    pub depth: u32,
}

#[verifier::ext_equal]
pub struct LargestDirectoryView {
    pub path: Seq<char>,
    pub size_bytes: u64,
    pub depth: u32,
}

impl View for LargestDirectory {
    type V = LargestDirectoryView;

    open spec fn view(&self) -> LargestDirectoryView {
        LargestDirectoryView {
            path: self.path@,
            size_bytes: self.size_bytes,
            depth: self.depth,
        }
    }
}

/// Disk usage of a container runtime. Sizes of any other type are kept so that the
/// total stays consistent.
#[derive(Clone, Copy, Debug, PartialEq, Eq, Structural)]
pub struct DockerDiskUsage {
    pub images_bytes: u64,
    pub containers_bytes: u64,
    pub volumes_bytes: u64,
    pub build_cache_bytes: u64,
    pub other_bytes: u64,
    pub total_bytes: u64,
    pub reclaimable_bytes: u64,
}

/// A page of a longer list.
#[derive(Clone, Debug, PartialEq, Eq)]
pub struct Page<T> {
    pub items: Vec<T>,
    pub has_more: bool,
}

/// A service unit.
#[derive(Clone, Debug, PartialEq, Eq)]
pub struct ServiceInfo {
    pub name: String,
    pub load_state: String,
    pub active_state: String,
    pub sub_state: String,
    pub description: String,
    pub enabled: Option<bool>,
}

#[verifier::ext_equal]
pub struct ServiceInfoView {
    pub name: Seq<char>,
    pub load_state: Seq<char>,
    pub active_state: Seq<char>,
    pub sub_state: Seq<char>,
    pub description: Seq<char>,
    pub enabled: Option<bool>,
}

impl View for ServiceInfo {
    type V = ServiceInfoView;

    open spec fn view(&self) -> ServiceInfoView {
        ServiceInfoView {
            name: self.name@,
            load_state: self.load_state@,
            active_state: self.active_state@,
            sub_state: self.sub_state@,
            description: self.description@,
            enabled: self.enabled,
        }
    }
}

/// A service unit with its properties, journal and unit file.
#[derive(Clone, Debug, PartialEq, Eq)]
pub struct ServiceDetails {
    pub name: String,
    pub properties: Vec<(String, String)>,
    pub journal: String,
    pub unit_file: Option<String>,
}

#[verifier::ext_equal]
pub struct ServiceDetailsView {
    pub name: Seq<char>,
    pub properties: Seq<(Seq<char>, Seq<char>)>,
    pub journal: Seq<char>,
    pub unit_file: Option<Seq<char>>,
}

impl View for ServiceDetails {
    type V = ServiceDetailsView;

    open spec fn view(&self) -> ServiceDetailsView {
        ServiceDetailsView {
            name: self.name@,
            properties: pairs_view(self.properties@),
            journal: self.journal@,
            unit_file: opt_view(self.unit_file),
        }
    }
}

/// An entry of a remote directory.
#[derive(Clone, Debug, PartialEq, Eq)]
pub struct RemoteFile {
    pub name: String,
    pub path: String,
    pub kind: String,
    pub size_bytes: u64,
    pub modified_at: Option<i64>,
    pub permissions: Option<String>,
    pub uid: Option<u32>,
    pub gid: Option<u32>,
    pub hidden: bool,
}

#[verifier::ext_equal]
pub struct RemoteFileView {
    pub name: Seq<char>,
    pub path: Seq<char>,
    pub kind: Seq<char>,
    pub size_bytes: u64,
    pub modified_at: Option<i64>,
    pub permissions: Option<Seq<char>>,
    pub uid: Option<u32>,
    pub gid: Option<u32>,
    pub hidden: bool,
}

impl View for RemoteFile {
    type V = RemoteFileView;

    open spec fn view(&self) -> RemoteFileView {
        RemoteFileView {
            name: self.name@,
            path: self.path@,
            kind: self.kind@,
            size_bytes: self.size_bytes,
            modified_at: self.modified_at,
            permissions: opt_view(self.permissions),
            uid: self.uid,
            gid: self.gid,
            hidden: self.hidden,
        }
    }
}

/// Which part of a remote directory is wanted.
#[derive(Clone, Debug, PartialEq, Eq)]
pub struct RemotePathRequest {
    pub path: String,
    pub show_hidden: bool,
    pub offset: usize,
    pub limit: usize,
}

/// How far a transfer has come.
#[derive(Clone, Debug, PartialEq, Eq)]
pub struct TransferProgress {
    pub transfer_id: String,
    pub direction: String,
    pub path: String,
    pub completed_bytes: u64,
    pub total_bytes: u64,
    pub completed_files: u64,
    pub total_files: u64,
    pub done: bool,
    pub error: Option<String>,
}

#[verifier::ext_equal]
pub struct TransferProgressView {
    pub transfer_id: Seq<char>,
    pub direction: Seq<char>,
    pub path: Seq<char>,
    pub completed_bytes: u64,
    pub total_bytes: u64,
    pub completed_files: u64,
    pub total_files: u64,
    pub done: bool,
    pub error: Option<Seq<char>>,
}

impl View for TransferProgress {
    type V = TransferProgressView;

    open spec fn view(&self) -> TransferProgressView {
        TransferProgressView {
            transfer_id: self.transfer_id@,
            direction: self.direction@,
            path: self.path@,
            completed_bytes: self.completed_bytes,
            total_bytes: self.total_bytes,
            completed_files: self.completed_files,
            total_files: self.total_files,
            done: self.done,
            error: opt_view(self.error),
        }
    }
}

/// A container image.
#[derive(Clone, Debug, PartialEq, Eq)]
pub struct DockerImage {
    pub id: String,
    pub repository: String,
    pub tag: String,
    pub size: String,
    pub created: String,
}

#[verifier::ext_equal]
pub struct DockerImageView {
    pub id: Seq<char>,
    pub repository: Seq<char>,
    pub tag: Seq<char>,
    pub size: Seq<char>,
    pub created: Seq<char>,
}

impl View for DockerImage {
    type V = DockerImageView;

    open spec fn view(&self) -> DockerImageView {
        DockerImageView {
            id: self.id@,
            repository: self.repository@,
            tag: self.tag@,
            size: self.size@,
            created: self.created@,
        }
    }
}

/// A container volume.
#[derive(Clone, Debug, PartialEq, Eq)]
pub struct DockerVolume {
    pub name: String,
    pub driver: String,
    pub mountpoint: String,
}

#[verifier::ext_equal]
pub struct DockerVolumeView {
    pub name: Seq<char>,
    pub driver: Seq<char>,
    pub mountpoint: Seq<char>,
}

impl View for DockerVolume {
    type V = DockerVolumeView;

    open spec fn view(&self) -> DockerVolumeView {
        DockerVolumeView {
            name: self.name@,
            driver: self.driver@,
            mountpoint: self.mountpoint@,
        }
    }
}

/// A container network.
#[derive(Clone, Debug, PartialEq, Eq)]
pub struct DockerNetwork {
    pub id: String,
    pub name: String,
    pub driver: String,
    pub scope: String,
}

#[verifier::ext_equal]
pub struct DockerNetworkView {
    pub id: Seq<char>,
    pub name: Seq<char>,
    pub driver: Seq<char>,
    pub scope: Seq<char>,
}

impl View for DockerNetwork {
    type V = DockerNetworkView;

    open spec fn view(&self) -> DockerNetworkView {
        DockerNetworkView {
            id: self.id@,
            name: self.name@,
            driver: self.driver@,
            scope: self.scope@,
        }
    }
}

/// The command that opens a shell in a container.
#[derive(Clone, Debug, PartialEq, Eq)]
pub struct ContainerExec {
    pub command: String,
    pub shell: String,
}

#[verifier::ext_equal]
pub struct ContainerExecView {
    pub command: Seq<char>,
    pub shell: Seq<char>,
}

impl View for ContainerExec {
    type V = ContainerExecView;

    open spec fn view(&self) -> ContainerExecView {
        ContainerExecView {
            command: self.command@,
            shell: self.shell@,
        }
    }
}

/// What the form for a new container sends.
#[derive(Clone, Debug, PartialEq, Eq)]
pub struct DockerCreateInput {
    pub image: String,
    pub name: Option<String>,
    pub command: Option<String>,
    pub ports: Vec<String>,
    pub environment: Vec<String>,
    pub volumes: Vec<String>,
    pub networks: Vec<String>,
    pub restart_policy: Option<String>,
    pub detached: bool,
    pub remove_on_exit: bool,
    pub memory_limit: Option<String>,
    pub cpu_limit: Option<String>,
}

#[verifier::ext_equal]
pub struct DockerCreateInputView {
    pub image: Seq<char>,
    pub name: Option<Seq<char>>,
    pub command: Option<Seq<char>>,
    pub ports: Seq<Seq<char>>,
    pub environment: Seq<Seq<char>>,
    pub volumes: Seq<Seq<char>>,
    pub networks: Seq<Seq<char>>,
    pub restart_policy: Option<Seq<char>>,
    pub detached: bool,
    pub remove_on_exit: bool,
    pub memory_limit: Option<Seq<char>>,
    pub cpu_limit: Option<Seq<char>>,
}

impl View for DockerCreateInput {
    type V = DockerCreateInputView;

    open spec fn view(&self) -> DockerCreateInputView {
        DockerCreateInputView {
            image: self.image@,
            name: opt_view(self.name),
            command: opt_view(self.command),
            ports: views(self.ports@),
            environment: views(self.environment@),
            volumes: views(self.volumes@),
            networks: views(self.networks@),
            restart_policy: opt_view(self.restart_policy),
            detached: self.detached,
            remove_on_exit: self.remove_on_exit,
            memory_limit: opt_view(self.memory_limit),
            cpu_limit: opt_view(self.cpu_limit),
        }
    }
}

/// A socket with the process that owns it.
#[derive(Clone, Debug, PartialEq, Eq)]
pub struct PortInfo {
    pub protocol: String,
    pub state: String,
    pub local_address: String,
    pub remote_address: String,
    pub process: String,
    pub pid: Option<u32>,
}

#[verifier::ext_equal]
pub struct PortInfoView {
    pub protocol: Seq<char>,
    pub state: Seq<char>,
    pub local_address: Seq<char>,
    pub remote_address: Seq<char>,
    pub process: Seq<char>,
    pub pid: Option<u32>,
}

impl View for PortInfo {
    type V = PortInfoView;

    open spec fn view(&self) -> PortInfoView {
        PortInfoView {
            protocol: self.protocol@,
            state: self.state@,
            local_address: self.local_address@,
            remote_address: self.remote_address@,
            process: self.process@,
            pid: self.pid,
        }
    }
}

/// Which log lines are wanted.
#[derive(Clone, Debug, PartialEq, Eq)]
pub struct LogsRequest {
    pub source: String,
    pub service: Option<String>,
    pub container: Option<String>,
    pub compose_path: Option<String>,
    pub file_path: Option<String>,
    pub lines: u32,
    pub since: Option<String>,
    pub query: Option<String>,
    pub severity: Option<String>,
}

#[verifier::ext_equal]
pub struct LogsRequestView {
    pub source: Seq<char>,
    pub service: Option<Seq<char>>,
    pub container: Option<Seq<char>>,
    pub compose_path: Option<Seq<char>>,
    pub file_path: Option<Seq<char>>,
    pub lines: u32,
    pub since: Option<Seq<char>>,
    pub query: Option<Seq<char>>,
    pub severity: Option<Seq<char>>,
}

impl View for LogsRequest {
    type V = LogsRequestView;

    open spec fn view(&self) -> LogsRequestView {
        LogsRequestView {
            source: self.source@,
            service: opt_view(self.service),
            container: opt_view(self.container),
            compose_path: opt_view(self.compose_path),
            file_path: opt_view(self.file_path),
            lines: self.lines,
            since: opt_view(self.since),
            query: opt_view(self.query),
            severity: opt_view(self.severity),
        }
    }
}

/// A request to follow a log.
#[derive(Clone, Debug, PartialEq, Eq)]
pub struct LogStreamRequest {
    pub session_id: String,
    pub server_id: String,
    pub logs: LogsRequest,
}

/// A log that is being followed.
#[derive(Clone, Debug, PartialEq, Eq)]
pub struct LogStreamStarted {
    pub session_id: String,
    pub server_id: String,
}

/// Text from a followed log.
#[derive(Clone, Debug, PartialEq, Eq)]
pub struct LogStreamEvent {
    pub session_id: String,
    pub data: String,
}

/// A request for a terminal.
#[derive(Clone, Debug, PartialEq, Eq)]
pub struct TerminalRequest {
    pub session_id: String,
    pub server_id: String,
    pub cols: u32,
    pub rows: u32,
    pub command: Option<String>,
}

/// A terminal that was opened.
#[derive(Clone, Debug, PartialEq, Eq)]
pub struct TerminalStarted {
    pub session_id: String,
    pub server_id: String,
}

/// The new size of a terminal.
#[derive(Clone, Debug, PartialEq, Eq)]
pub struct TerminalResize {
    pub session_id: String,
    pub cols: u32,
    pub rows: u32,
}

/// Text from a terminal.
#[derive(Clone, Debug, PartialEq, Eq)]
pub struct TerminalEvent {
    pub session_id: String,
    pub data: String,
}

/// A scheduled command.
#[derive(Clone, Debug, PartialEq, Eq)]
pub struct CronJob {
    pub id: String,
    pub source: String,
    pub user: String,
    pub schedule: String,
    pub command: String,
    pub enabled: bool,
    pub human_schedule: String,
    pub next_run: Option<String>,
    pub editable: bool,
}

#[verifier::ext_equal]
pub struct CronJobView {
    pub id: Seq<char>,
    pub source: Seq<char>,
    pub user: Seq<char>,
    pub schedule: Seq<char>,
    pub command: Seq<char>,
    pub enabled: bool,
    pub human_schedule: Seq<char>,
    pub next_run: Option<Seq<char>>,
    pub editable: bool,
}

impl View for CronJob {
    type V = CronJobView;

    open spec fn view(&self) -> CronJobView {
        CronJobView {
            id: self.id@,
            source: self.source@,
            user: self.user@,
            schedule: self.schedule@,
            command: self.command@,
            enabled: self.enabled,
            human_schedule: self.human_schedule@,
            next_run: opt_view(self.next_run),
            editable: self.editable,
        }
    }
}

/// A scheduled command as the form sends it.
#[derive(Clone, Debug, PartialEq, Eq)]
pub struct CronJobInput {
    pub id: Option<String>,
    pub schedule: String,
    pub command: String,
    pub enabled: bool,
}

#[verifier::ext_equal]
pub struct CronJobInputView {
    pub id: Option<Seq<char>>,
    pub schedule: Seq<char>,
    pub command: Seq<char>,
    pub enabled: bool,
}

impl View for CronJobInput {
    type V = CronJobInputView;

    open spec fn view(&self) -> CronJobInputView {
        CronJobInputView {
            id: opt_view(self.id),
            schedule: self.schedule@,
            command: self.command@,
            enabled: self.enabled,
        }
    }
}

/// A software package.
#[derive(Clone, Debug, PartialEq, Eq)]
pub struct PackageInfo {
    pub name: String,
    pub version: String,
    pub architecture: String,
    pub description: String,
    pub installed: bool,
    pub upgrade_version: Option<String>,
}

#[verifier::ext_equal]
pub struct PackageInfoView {
    pub name: Seq<char>,
    pub version: Seq<char>,
    pub architecture: Seq<char>,
    pub description: Seq<char>,
    pub installed: bool,
    pub upgrade_version: Option<Seq<char>>,
}

impl View for PackageInfo {
    type V = PackageInfoView;

    open spec fn view(&self) -> PackageInfoView {
        PackageInfoView {
            name: self.name@,
            version: self.version@,
            architecture: self.architecture@,
            description: self.description@,
            installed: self.installed,
            upgrade_version: opt_view(self.upgrade_version),
        }
    }
}

/// A page of packages.
#[derive(Clone, Debug, PartialEq, Eq)]
pub struct PackagePage {
    pub manager: String,
    pub packages: Page<PackageInfo>,
    pub pending_upgrades: usize,
}

/// A user account.
#[derive(Clone, Debug, PartialEq, Eq)]
pub struct LinuxUser {
    pub name: String,
    pub uid: u32,
    pub gid: u32,
    pub home: String,
    pub shell: String,
    pub groups: Vec<String>,
    pub last_login: Option<String>,
    pub locked: bool,
}

#[verifier::ext_equal]
pub struct LinuxUserView {
    pub name: Seq<char>,
    pub uid: u32,
    pub gid: u32,
    pub home: Seq<char>,
    pub shell: Seq<char>,
    pub groups: Seq<Seq<char>>,
    pub last_login: Option<Seq<char>>,
    pub locked: bool,
}

impl View for LinuxUser {
    type V = LinuxUserView;

    open spec fn view(&self) -> LinuxUserView {
        LinuxUserView {
            name: self.name@,
            uid: self.uid,
            gid: self.gid,
            home: self.home@,
            shell: self.shell@,
            groups: views(self.groups@),
            last_login: opt_view(self.last_login),
            locked: self.locked,
        }
    }
}

/// A user group.
#[derive(Clone, Debug, PartialEq, Eq)]
pub struct LinuxGroup {
    pub name: String,
    pub gid: u32,
    pub members: Vec<String>,
}

#[verifier::ext_equal]
pub struct LinuxGroupView {
    pub name: Seq<char>,
    pub gid: u32,
    pub members: Seq<Seq<char>>,
}

impl View for LinuxGroup {
    type V = LinuxGroupView;

    open spec fn view(&self) -> LinuxGroupView {
        LinuxGroupView {
            name: self.name@,
            gid: self.gid,
            members: views(self.members@),
        }
    }
}

/// Accounts and groups of a server.
#[derive(Clone, Debug, PartialEq, Eq)]
pub struct AccountSnapshot {
    pub users: Vec<LinuxUser>,
    pub groups: Vec<LinuxGroup>,
}

/// What the form for a new account sends.
#[derive(Clone, Debug, PartialEq, Eq)]
pub struct UserCreateInput {
    pub name: String,
    pub home: Option<String>,
    pub shell: Option<String>,
    pub groups: Vec<String>,
    pub password: Option<String>,
}

#[verifier::ext_equal]
pub struct UserCreateInputView {
    pub name: Seq<char>,
    pub home: Option<Seq<char>>,
    pub shell: Option<Seq<char>>,
    pub groups: Seq<Seq<char>>,
    pub password: Option<Seq<char>>,
}

impl View for UserCreateInput {
    type V = UserCreateInputView;

    open spec fn view(&self) -> UserCreateInputView {
        UserCreateInputView {
            name: self.name@,
            home: opt_view(self.home),
            shell: opt_view(self.shell),
            groups: views(self.groups@),
            password: opt_view(self.password),
        }
    }
}

/// A Compose project found on a server.
#[derive(Clone, Debug, PartialEq, Eq)]
pub struct ComposeProject {
    pub name: String,
    pub path: String,
    pub services: Vec<String>,
    pub running: usize,
    pub topology: Vec<String>,
    pub environment: Vec<String>,
}

#[verifier::ext_equal]
pub struct ComposeProjectView {
    pub name: Seq<char>,
    pub path: Seq<char>,
    pub services: Seq<Seq<char>>,
    pub running: usize,
    pub topology: Seq<Seq<char>>,
    pub environment: Seq<Seq<char>>,
}

impl View for ComposeProject {
    type V = ComposeProjectView;

    open spec fn view(&self) -> ComposeProjectView {
        ComposeProjectView {
            name: self.name@,
            path: self.path@,
            services: views(self.services@),
            running: self.running,
            topology: views(self.topology@),
            environment: views(self.environment@),
        }
    }
}

/// The firewall of a server.
#[derive(Clone, Debug, PartialEq, Eq)]
pub struct FirewallSnapshot {
    pub provider: Option<String>,
    pub enabled: bool,
    pub rules: Vec<String>,
}

#[verifier::ext_equal]
pub struct FirewallSnapshotView {
    pub provider: Option<Seq<char>>,
    pub enabled: bool,
    pub rules: Seq<Seq<char>>,
}

impl View for FirewallSnapshot {
    type V = FirewallSnapshotView;

    open spec fn view(&self) -> FirewallSnapshotView {
        FirewallSnapshotView {
            provider: opt_view(self.provider),
            enabled: self.enabled,
            rules: views(self.rules@),
        }
    }
}

/// A key that may log in.
#[derive(Clone, Debug, PartialEq, Eq)]
pub struct AuthorizedKey {
    pub id: String,
    pub kind: String,
    pub fingerprint: String,
    pub comment: String,
    pub key: String,
}

#[verifier::ext_equal]
pub struct AuthorizedKeyView {
    pub id: Seq<char>,
    pub kind: Seq<char>,
    pub fingerprint: Seq<char>,
    pub comment: Seq<char>,
    pub key: Seq<char>,
}

impl View for AuthorizedKey {
    type V = AuthorizedKeyView;

    open spec fn view(&self) -> AuthorizedKeyView {
        AuthorizedKeyView {
            id: self.id@,
            kind: self.kind@,
            fingerprint: self.fingerprint@,
            comment: self.comment@,
            key: self.key@,
        }
    }
}

/// Pending updates of a server.
#[derive(Clone, Debug, PartialEq, Eq)]
pub struct SecuritySnapshot {
    pub updates: usize,
    pub security_updates: usize,
    pub reboot_required: bool,
    pub last_package_update: Option<String>,
    pub kernel_version: String,
    pub container_version: Option<String>,
    pub container_update_available: bool,
    pub package_updates_available: bool,
}

#[verifier::ext_equal]
pub struct SecuritySnapshotView {
    pub updates: usize,
    pub security_updates: usize,
    pub reboot_required: bool,
    pub last_package_update: Option<Seq<char>>,
    pub kernel_version: Seq<char>,
    pub container_version: Option<Seq<char>>,
    pub container_update_available: bool,
    pub package_updates_available: bool,
}

impl View for SecuritySnapshot {
    type V = SecuritySnapshotView;

    open spec fn view(&self) -> SecuritySnapshotView {
        SecuritySnapshotView {
            updates: self.updates,
            security_updates: self.security_updates,
            reboot_required: self.reboot_required,
            last_package_update: opt_view(self.last_package_update),
            kernel_version: self.kernel_version@,
            container_version: opt_view(self.container_version),
            container_update_available: self.container_update_available,
            package_updates_available: self.package_updates_available,
        }
    }
}

/// A saved quick action.
#[derive(Clone, Debug, PartialEq, Eq)]
pub struct SavedCommand {
    pub id: String,
    pub server_id: Option<String>,
    pub name: String,
    pub command: String,
}

#[verifier::ext_equal]
pub struct SavedCommandView {
    pub id: Seq<char>,
    pub server_id: Option<Seq<char>>,
    pub name: Seq<char>,
    pub command: Seq<char>,
}

impl View for SavedCommand {
    type V = SavedCommandView;

    open spec fn view(&self) -> SavedCommandView {
        SavedCommandView {
            id: self.id@,
            server_id: opt_view(self.server_id),
            name: self.name@,
            command: self.command@,
        }
    }
}

/// A quick action as the form sends it.
#[derive(Clone, Debug, PartialEq, Eq)]
pub struct SavedCommandInput {
    pub id: Option<String>,
    pub server_id: Option<String>,
    pub name: String,
    pub command: String,
}

#[verifier::ext_equal]
pub struct SavedCommandInputView {
    pub id: Option<Seq<char>>,
    pub server_id: Option<Seq<char>>,
    pub name: Seq<char>,
    pub command: Seq<char>,
}

impl View for SavedCommandInput {
    type V = SavedCommandInputView;

    open spec fn view(&self) -> SavedCommandInputView {
        SavedCommandInputView {
            id: opt_view(self.id),
            server_id: opt_view(self.server_id),
            name: self.name@,
            command: self.command@,
        }
    }
}

/// A saved tunnel.
#[derive(Clone, Debug, PartialEq, Eq)]
pub struct TunnelConfig {
    pub id: String,
    pub server_id: String,
    pub name: String,
    pub kind: String,
    pub bind_host: String,
    pub bind_port: u16,
    pub target_host: String,
    pub target_port: u16,
}

#[verifier::ext_equal]
pub struct TunnelConfigView {
    pub id: Seq<char>,
    pub server_id: Seq<char>,
    pub name: Seq<char>,
    pub kind: Seq<char>,
    pub bind_host: Seq<char>,
    pub bind_port: u16,
    pub target_host: Seq<char>,
    pub target_port: u16,
}

impl View for TunnelConfig {
    type V = TunnelConfigView;

    open spec fn view(&self) -> TunnelConfigView {
        TunnelConfigView {
            id: self.id@,
            server_id: self.server_id@,
            name: self.name@,
            kind: self.kind@,
            bind_host: self.bind_host@,
            bind_port: self.bind_port,
            target_host: self.target_host@,
            target_port: self.target_port,
        }
    }
}

/// A tunnel as the form sends it.
#[derive(Clone, Debug, PartialEq, Eq)]
pub struct TunnelInput {
    pub id: Option<String>,
    pub server_id: String,
    pub name: String,
    pub kind: String,
    pub bind_host: String,
    pub bind_port: u32,
    pub target_host: String,
    pub target_port: u32,
}

#[verifier::ext_equal]
pub struct TunnelInputView {
    pub id: Option<Seq<char>>,
    pub server_id: Seq<char>,
    pub name: Seq<char>,
    pub kind: Seq<char>,
    pub bind_host: Seq<char>,
    pub bind_port: u32,
    pub target_host: Seq<char>,
    pub target_port: u32,
}

impl View for TunnelInput {
    type V = TunnelInputView;

    open spec fn view(&self) -> TunnelInputView {
        TunnelInputView {
            id: opt_view(self.id),
            server_id: self.server_id@,
            name: self.name@,
            kind: self.kind@,
            bind_host: self.bind_host@,
            bind_port: self.bind_port,
            target_host: self.target_host@,
            target_port: self.target_port,
        }
    }
}

/// Whether a tunnel runs.
#[derive(Clone, Debug, PartialEq, Eq)]
pub struct TunnelStatus {
    pub id: String,
    pub running: bool,
    pub error: Option<String>,
}

#[verifier::ext_equal]
pub struct TunnelStatusView {
    pub id: Seq<char>,
    pub running: bool,
    pub error: Option<Seq<char>>,
}

impl View for TunnelStatus {
    type V = TunnelStatusView;

    open spec fn view(&self) -> TunnelStatusView {
        TunnelStatusView {
            id: self.id@,
            running: self.running,
            error: opt_view(self.error),
        }
    }
}

/// What a quick action printed on one server.
#[derive(Clone, Debug, PartialEq, Eq)]
pub struct CommandResult {
    pub server_id: String,
    pub server_name: String,
    pub stdout: String,
    pub stderr: String,
    pub exit_code: i32,
    pub error: Option<String>,
}

#[verifier::ext_equal]
pub struct CommandResultView {
    pub server_id: Seq<char>,
    pub server_name: Seq<char>,
    pub stdout: Seq<char>,
    pub stderr: Seq<char>,
    pub exit_code: i32,
    pub error: Option<Seq<char>>,
}

impl View for CommandResult {
    type V = CommandResultView;

    open spec fn view(&self) -> CommandResultView {
        CommandResultView {
            server_id: self.server_id@,
            server_name: self.server_name@,
            stdout: self.stdout@,
            stderr: self.stderr@,
            exit_code: self.exit_code,
            error: opt_view(self.error),
        }
    }
}

} // verus!
