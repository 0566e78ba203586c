use dmux::bridge::{bridge_key_preflight_at_base, open_at_base, BRIDGE_DIR, KEY_FILE};
use dmux::bridge_dir::{
    bridge_child, ensure_bridge_child, open_bridge_base, read_document, write_new_atomic,
    write_replace_atomic, MAX_DOCUMENT_BYTES,
};
use dmux::bridge_documents::{
    bridge_capabilities, plan_completion, read_ack, read_completion_documents, read_consumed,
    read_context, verified_descriptor_identity, write_ack_new, write_completion_marker,
    write_heartbeat, write_replay_ack_new, LifecycleEffect,
};
use dmux::bridge_lease::{claim_instance, release_instance, validate_lease_identity, Bridge, LEASE_FILE};
use dmux::bridge_requests::{
    consume_request_new, discard_observed_request, next_request, ObservedRequests,
};
use dmux::canonical::canonical_unsigned_request;
use dmux::descriptor::{PublishRequest, ServiceDescriptor, MAX_DESCRIPTOR_BYTES};
use dmux::descriptor_io::{
    publish_service_descriptor, publish_service_descriptor_in, read_verified_descriptor_at_base,
    PublishedDescriptor,
};
use dmux::dialogue::{
    Action, FileKind, FileStat, ObservedRequest, PeerIdentity, ProcessIdentity, Refusal, Reply,
    Slot, Stop,
};
use dmux::digest::{hex_lower, hmac_sha256};
use dmux::failure::{BridgeFsError, OsErrorKind, OsFailure};
use dmux::identifier::fresh_identifier;
use dmux::json::{parse_document, Json};
use dmux::launcher::{validate_launcher_witness, LauncherOrigin, LauncherWitness};
use dmux::lifecycle::{consume_lifecycle_completion_proof, marker_write_failed, Claimant};
use dmux::managed::UnixDomain;
use dmux::private_dir::{ensure_child, open_platform_base, BasePath, Dir, RUNTIME_DIR};
use dmux::private_files::{
    publish_named_replace, remove_private_verified, revalidate_runtime_path,
};
use dmux::process_identity::{
    current_boot_id, platform_runtime_base, process_start_token, Platform,
};
use dmux::recovery_files::{
    recovery_epoch_dir_at_base, recovery_manifest_names, recovery_manifest_read_at_root,
    recovery_manifest_remove_at_root, recovery_manifest_root_at_base,
    recovery_manifest_write_candidate_at_root, recovery_spool_read_from_dir,
    recovery_spool_remove_from_dir, recovery_spool_write_to_dir, MAX_RECOVERY_MANIFEST_BYTES,
    MAX_RECOVERY_MESSAGE_BYTES,
};
use dmux::service::{initialize_at_base, Service, DESCRIPTOR_FILE, SERVICE_LEASE_FILE};
use dmux::service_bind::{
    bind_service_socket_early, claim_service, invalidate_service_descriptor,
    prebind_dmux_managed_service, service_bootstrap_missing_prebind_attempted, ManagedConfig,
    ServiceState, ServiceStop,
};
use dmux::service_socket::{connect_unix_bounded, peer_pid, socket_witness, SOCKET_FILE};
use dmux::text_set::TextSet;
use sha2::{Digest, Sha256};

const EUID: u32 = 1000;
const PID: u32 = 4242;
const NOW: u64 = 1_700_000_000;

/// What a name in the file system of a [`World`] stands for.
enum Thing {
    File(Vec<u8>),
    Directory(Vec<(String, u64)>),
    /// A socket, with the process that listens on it.
    Socket(Option<u32>),
    Link(String),
}

struct Node {
    thing: Thing,
    uid: u32,
    mode: u32,
    nlink: u64,
}

/// An operating system in memory.
struct World {
    nodes: Vec<Node>,
    drawn: u64,
    threads: u64,
    platform: Platform,
    boot: String,
    processes: Vec<(u32, u64)>,
    locks: Vec<(u64, usize)>,
    sessions: usize,
    current: u64,
    remembered: u64,
    leave_fails: bool,
    exited: Option<i32>,
    connect_errno: Option<i32>,
    remaining: Vec<u64>,
    polls: Vec<Reply>,
    claimed: TextSet,
    /// Every action that was performed.
    journal: Vec<String>,
}

struct Open {
    slot: Slot,
    node: u64,
    offset: usize,
}

/// What one operation, or one that goes on, holds open.
struct Session {
    id: usize,
    open: Vec<Open>,
    peer: Option<u32>,
    observed: ObservedRequests,
    /// The files of the requests that were observed.
    kept: Vec<(String, u64)>,
}

fn failed(kind: OsErrorKind, errno: i32, text: &str) -> Reply {
    Reply::Failed(OsFailure {
        kind,
        errno: Some(errno),
        text: text.to_string(),
    })
}

fn not_found() -> Reply {
    failed(OsErrorKind::NotFound, 2, "No such file or directory")
}

fn name_taken() -> Reply {
    failed(OsErrorKind::AlreadyExists, 17, "File exists")
}

fn link_met() -> Reply {
    failed(OsErrorKind::Other, 40, "Too many levels of symbolic links")
}

fn path_of(text: &str) -> BasePath {
    BasePath {
        bytes: text.as_bytes().to_vec(),
        display: text.to_string(),
    }
}

impl World {
    fn new() -> World {
        World {
            nodes: vec![Node {
                thing: Thing::Directory(Vec::new()),
                uid: 0,
                mode: 0o755,
                nlink: 1,
            }],
            drawn: 0,
            threads: 1,
            platform: Platform::Linux,
            boot: "99999999-aaaa-4bbb-8ccc-dddddddddddd".to_string(),
            processes: vec![(PID, 777)],
            locks: Vec::new(),
            sessions: 0,
            current: 0,
            remembered: 0,
            leave_fails: false,
            exited: None,
            connect_errno: None,
            remaining: Vec::new(),
            polls: Vec::new(),
            claimed: TextSet::new(),
            journal: Vec::new(),
        }
    }

    /// A world with one private directory of the platform.
    fn with_base() -> (World, BasePath) {
        let mut world = World::new();
        let base = world.base("base", 0o700);
        (world, base)
    }

    fn base(&mut self, name: &str, mode: u32) -> BasePath {
        self.make(0, name, Thing::Directory(Vec::new()), mode);
        path_of(&format!("/{name}"))
    }

    fn session(&mut self) -> Session {
        self.sessions += 1;
        Session {
            id: self.sessions,
            open: Vec::new(),
            peer: None,
            observed: ObservedRequests::new(),
            kept: Vec::new(),
        }
    }

    /// Closes all that a session holds.
    fn close(&mut self, session: Session) {
        self.locks.retain(|(_, holder)| *holder != session.id);
    }

    fn make(&mut self, directory: u64, name: &str, thing: Thing, mode: u32) -> u64 {
        let node = self.nodes.len() as u64;
        self.nodes.push(Node {
            thing,
            uid: EUID,
            mode,
            nlink: 1,
        });
        self.entries(directory).push((name.to_string(), node));
        node
    }

    fn entries(&mut self, directory: u64) -> &mut Vec<(String, u64)> {
        match &mut self.nodes[directory as usize].thing {
            Thing::Directory(entries) => entries,
            _ => panic!("not a directory"),
        }
    }

    fn lookup(&self, directory: u64, name: &str) -> Option<u64> {
        match &self.nodes[directory as usize].thing {
            Thing::Directory(entries) => entries
                .iter()
                .find(|(entry, _)| entry == name)
                .map(|(_, node)| *node),
            _ => None,
        }
    }

    fn take_name(&mut self, directory: u64, name: &str) -> Option<u64> {
        let entries = self.entries(directory);
        let at = entries.iter().position(|(entry, _)| entry == name)?;
        Some(entries.remove(at).1)
    }

    /// Follows a path; the last component only if it is no link.
    fn walk(&self, path: &str) -> Option<u64> {
        let mut node: u64 = 0;
        for part in path.split('/').filter(|part| !part.is_empty()) {
            node = self.lookup(node, part)?;
        }
        Some(node)
    }

    fn at(&self, path: &str) -> u64 {
        self.walk(path).unwrap()
    }

    fn there(&self, path: &str) -> bool {
        self.walk(path).is_some()
    }

    fn bytes(&self, path: &str) -> Vec<u8> {
        match &self.nodes[self.at(path) as usize].thing {
            Thing::File(bytes) => bytes.clone(),
            _ => panic!("not a file"),
        }
    }

    fn mode(&self, path: &str) -> u32 {
        self.nodes[self.at(path) as usize].mode
    }

    fn names(&self, path: &str) -> Vec<String> {
        match &self.nodes[self.at(path) as usize].thing {
            Thing::Directory(entries) => entries.iter().map(|(name, _)| name.clone()).collect(),
            _ => panic!("not a directory"),
        }
    }

    fn stat(&self, node: u64) -> Reply {
        let held = &self.nodes[node as usize];
        let (kind, len) = match &held.thing {
            Thing::File(bytes) => (FileKind::Regular, bytes.len() as u64),
            Thing::Directory(_) => (FileKind::Directory, 0),
            Thing::Socket(_) => (FileKind::Socket, 0),
            Thing::Link(_) => (FileKind::Other, 0),
        };
        Reply::Stat(FileStat {
            kind,
            uid: held.uid,
            nlink: held.nlink,
            mode: held.mode,
            dev: 9,
            ino: node,
            len,
        })
    }

    fn open_directory(&self, session: &mut Session, node: Option<u64>, into: Slot) -> Reply {
        let node = match node {
            None => return not_found(),
            Some(node) => node,
        };
        match &self.nodes[node as usize].thing {
            Thing::Directory(_) => {
                session.hold(into, node);
                Reply::Done
            }
            _ => failed(OsErrorKind::Other, 20, "Not a directory"),
        }
    }

    fn perform(&mut self, session: &mut Session, action: Action) -> Reply {
        self.journal.push(format!("{action:?}"));
        match action {
            Action::OpenBase { path, into } => {
                let text = String::from_utf8(path).unwrap();
                let node = self.walk(&text);
                self.open_directory(session, node, into)
            }
            Action::OpenDirectory { dir, name, into } => {
                let node = self.lookup(session.node(dir), &name);
                self.open_directory(session, node, into)
            }
            Action::MakeDirectory { dir, name } => {
                if self.lookup(session.node(dir), &name).is_some() {
                    return name_taken();
                }
                self.make(session.node(dir), &name, Thing::Directory(Vec::new()), 0o700);
                Reply::Done
            }
            Action::SetMode { slot, mode } => {
                self.nodes[session.node(slot) as usize].mode = mode;
                Reply::Done
            }
            Action::Stat { slot } => self.stat(session.node(slot)),
            Action::StatName { dir, name } => match self.lookup(session.node(dir), &name) {
                None => not_found(),
                Some(node) => self.stat(node),
            },
            Action::OpenFile { dir, name, into, .. } => {
                match self.lookup(session.node(dir), &name) {
                    None => not_found(),
                    Some(node) => match &self.nodes[node as usize].thing {
                        Thing::Link(_) => link_met(),
                        _ => {
                            session.hold(into, node);
                            Reply::Done
                        }
                    },
                }
            }
            Action::CreateFile { dir, name, into, .. } => {
                if self.lookup(session.node(dir), &name).is_some() {
                    return name_taken();
                }
                let node = self.make(session.node(dir), &name, Thing::File(Vec::new()), 0o600);
                session.hold(into, node);
                Reply::Done
            }
            Action::Read { slot, limit } => {
                let bytes = self.file(session.node(slot)).clone();
                let open = session.find(slot);
                let end = bytes.len().min(open.offset + limit as usize);
                let part = bytes[open.offset..end].to_vec();
                open.offset = end;
                Reply::Bytes(part)
            }
            Action::ReadAll { slot } => {
                let bytes = self.file(session.node(slot)).clone();
                let open = session.find(slot);
                let part = bytes[open.offset..].to_vec();
                open.offset = bytes.len();
                Reply::Bytes(part)
            }
            Action::Rewind { slot } => {
                session.find(slot).offset = 0;
                Reply::Done
            }
            Action::Write { slot, bytes } => {
                let node = session.node(slot);
                let open = session.find(slot);
                let held = self.file(node);
                held.truncate(open.offset);
                held.resize(open.offset, 0);
                held.extend_from_slice(&bytes);
                open.offset = held.len();
                Reply::Done
            }
            Action::Truncate { slot } => {
                self.file(session.node(slot)).clear();
                Reply::Done
            }
            Action::SyncFile { .. } | Action::SyncDirectory { .. } => Reply::Done,
            Action::RenameNoReplace { from_dir, from, to_dir, to } => {
                if self.lookup(session.node(to_dir), &to).is_some() {
                    return name_taken();
                }
                match self.take_name(session.node(from_dir), &from) {
                    None => not_found(),
                    Some(node) => {
                        self.entries(session.node(to_dir)).push((to, node));
                        Reply::Done
                    }
                }
            }
            Action::RenameReplace { dir, from, to } => {
                match self.take_name(session.node(dir), &from) {
                    None => not_found(),
                    Some(node) => {
                        if let Some(old) = self.take_name(session.node(dir), &to) {
                            self.nodes[old as usize].nlink -= 1;
                        }
                        self.entries(session.node(dir)).push((to, node));
                        Reply::Done
                    }
                }
            }
            Action::Link { dir, from, to } => {
                if self.lookup(session.node(dir), &to).is_some() {
                    return name_taken();
                }
                match self.lookup(session.node(dir), &from) {
                    None => not_found(),
                    Some(node) => {
                        self.nodes[node as usize].nlink += 1;
                        self.entries(session.node(dir)).push((to, node));
                        Reply::Done
                    }
                }
            }
            Action::Unlink { dir, name } => match self.take_name(session.node(dir), &name) {
                None => not_found(),
                Some(node) => {
                    self.nodes[node as usize].nlink -= 1;
                    Reply::Done
                }
            },
            Action::LockExclusive { slot } => {
                let node = session.node(slot);
                if self.locks.iter().any(|(locked, _)| *locked == node) {
                    return failed(OsErrorKind::Other, 11, "Resource temporarily unavailable");
                }
                self.locks.push((node, session.id));
                Reply::Done
            }
            Action::ListNames { dir } => match &self.nodes[session.node(dir) as usize].thing {
                Thing::Directory(entries) => {
                    Reply::Names(entries.iter().map(|(name, _)| Some(name.clone())).collect())
                }
                _ => panic!("not a directory"),
            },
            Action::DrawIdentifier => {
                self.drawn += 1;
                Reply::Text(format!("00000000-0000-4000-8000-{:012x}", self.drawn))
            }
            Action::OpenSocket { into } => {
                session.hold(into, 0);
                Reply::Done
            }
            Action::PrepareSocket { .. } => Reply::Done,
            Action::Connect { path, .. } => {
                let text = String::from_utf8(path).unwrap();
                let peer = match self.walk(&text) {
                    None => return not_found(),
                    Some(node) => match &self.nodes[node as usize].thing {
                        Thing::Socket(Some(pid)) => *pid,
                        _ => return failed(OsErrorKind::Other, 111, "Connection refused"),
                    },
                };
                session.peer = Some(peer);
                match self.connect_errno {
                    None => Reply::Done,
                    Some(errno) => failed(OsErrorKind::Other, errno, "Operation now in progress"),
                }
            }
            Action::SetDeadline { .. } => Reply::Done,
            Action::RemainingTime => Reply::Number(self.remaining.remove(0)),
            Action::PollWritable { .. } => self.polls.remove(0),
            Action::PendingError { .. } => Reply::Done,
            Action::PeerCredentials { .. } => match session.peer {
                Some(pid) => Reply::Peer(PeerIdentity {
                    complete: true,
                    pid: pid as i32,
                    uid: EUID,
                }),
                None => failed(OsErrorKind::Other, 107, "Transport endpoint is not connected"),
            },
            Action::PeerProcess { .. } | Action::PeerOwner { .. } => Reply::Peer(PeerIdentity {
                complete: true,
                pid: session.peer.unwrap() as i32,
                uid: EUID,
            }),
            Action::StatPath { path } => {
                let pid: u32 = path.strip_prefix("/proc/").unwrap().parse().unwrap();
                if !self.processes.iter().any(|(known, _)| *known == pid) {
                    return not_found();
                }
                Reply::Stat(FileStat {
                    kind: FileKind::Directory,
                    uid: EUID,
                    nlink: 9,
                    mode: 0o555,
                    dev: 3,
                    ino: pid as u64,
                    len: 0,
                })
            }
            Action::ReadSystemFile { path, limit } => {
                let text = if path == "/proc/sys/kernel/random/boot_id" {
                    format!("{}\n", self.boot)
                } else {
                    let pid: u32 = path
                        .strip_prefix("/proc/")
                        .unwrap()
                        .strip_suffix("/stat")
                        .unwrap()
                        .parse()
                        .unwrap();
                    match self.processes.iter().find(|(known, _)| *known == pid) {
                        None => return not_found(),
                        Some((_, start)) => format!(
                            "{pid} (mux) server) S 1 1 1 0 -1 4194560 9 0 0 0 0 0 0 0 20 0 1 0 {start} 1 2\n"
                        ),
                    }
                };
                let bytes = text.into_bytes();
                let end = bytes.len().min(limit as usize);
                Reply::Bytes(bytes[..end].to_vec())
            }
            Action::BootTime => Reply::BootTime {
                seconds: 1_600_000_000,
                micros: 42,
                pending: OsFailure {
                    kind: OsErrorKind::Other,
                    errno: None,
                    text: String::new(),
                },
            },
            Action::ProcessInfo { pid } => {
                match self.processes.iter().find(|(known, _)| *known == pid) {
                    None => failed(OsErrorKind::Other, 3, "No such process"),
                    Some((_, start)) => Reply::Process(ProcessIdentity {
                        pid,
                        uid: EUID,
                        start_seconds: *start,
                        start_micros: 5,
                    }),
                }
            }
            Action::Clock => Reply::Integer(NOW as i64),
            Action::CountThreads => Reply::Number(self.threads),
            Action::EncodeDescriptor { descriptor } => Reply::Bytes(encode(&descriptor)),
            Action::DecodeDescriptor { raw } => match decode(&raw) {
                Ok(descriptor) => Reply::Descriptor(descriptor),
                Err(reason) => Reply::Unreadable(reason),
            },
            Action::TakeObserved { uid } => match session.observed.take(&uid) {
                Some(request) => {
                    let at = session.kept.iter().position(|(kept, _)| *kept == uid).unwrap();
                    let (_, node) = session.kept.remove(at);
                    session.hold(Slot::Observed, node);
                    Reply::Observed(request)
                }
                None => Reply::Absent,
            },
            Action::ClaimInstance { instance } => {
                Reply::Flag(claim_instance(&mut self.claimed, &instance).is_ok())
            }
            Action::RememberDirectory => {
                self.remembered = self.current;
                Reply::Done
            }
            Action::EnterDirectory { dir } => {
                self.current = session.node(dir);
                Reply::Done
            }
            Action::BindListener { name } => {
                if self.lookup(self.current, &name).is_some() {
                    return failed(OsErrorKind::Other, 98, "Address already in use");
                }
                self.make(self.current, &name, Thing::Socket(Some(PID)), 0o600);
                Reply::Done
            }
            Action::LeaveDirectory => {
                if self.leave_fails {
                    return failed(OsErrorKind::Other, 5, "Input/output error");
                }
                self.current = self.remembered;
                Reply::Done
            }
            Action::Exit { status } => {
                self.exited = Some(status);
                Reply::Done
            }
        }
    }

    fn file(&mut self, node: u64) -> &mut Vec<u8> {
        match &mut self.nodes[node as usize].thing {
            Thing::File(bytes) => bytes,
            _ => panic!("not a file"),
        }
    }

    /// Nobody listens on the socket any more.
    fn stop_listening(&mut self, path: &str) {
        let node = self.at(path);
        self.nodes[node as usize].thing = Thing::Socket(None);
    }

    fn remove(&mut self, directory: &str, name: &str) {
        let directory = self.at(directory);
        let node = self.take_name(directory, name).unwrap();
        self.nodes[node as usize].nlink -= 1;
    }
}

impl Session {
    fn hold(&mut self, slot: Slot, node: u64) {
        self.open.retain(|open| open.slot != slot);
        self.open.push(Open {
            slot,
            node,
            offset: 0,
        });
    }

    fn find(&mut self, slot: Slot) -> &mut Open {
        self.open
            .iter_mut()
            .find(|open| open.slot == slot)
            .expect("the slot is open")
    }

    fn node(&self, slot: Slot) -> u64 {
        self.open
            .iter()
            .find(|open| open.slot == slot)
            .expect("the slot is open")
            .node
    }
}

/// Runs a dialogue to its end.
fn drive<T>(
    world: &mut World,
    session: &mut Session,
    operation: impl Fn(&Vec<Reply>) -> Result<T, Stop>,
) -> Result<T, Refusal> {
    drive_with(world, session, |_, _| {}, operation)
}

/// Runs a dialogue to its end, with something that happens before each action.
fn drive_with<T>(
    world: &mut World,
    session: &mut Session,
    mut before: impl FnMut(&mut World, &Action),
    operation: impl Fn(&Vec<Reply>) -> Result<T, Stop>,
) -> Result<T, Refusal> {
    let mut replies: Vec<Reply> = Vec::new();
    loop {
        match operation(&replies) {
            Ok(value) => return Ok(value),
            Err(Stop::Await(action)) => {
                before(world, &action);
                let reply = world.perform(session, action);
                replies.push(reply);
            }
            Err(Stop::Refuse(refusal)) => return Err(refusal),
            Err(Stop::Misfit) => panic!("an answer does not fit"),
        }
    }
}

fn text_value(text: &str) -> serde_json::Value {
    serde_json::Value::String(text.to_string())
}

fn optional_text(text: &Option<String>) -> serde_json::Value {
    match text {
        Some(text) => text_value(text),
        None => serde_json::Value::Null,
    }
}

fn optional_number(number: Option<u64>) -> serde_json::Value {
    match number {
        Some(number) => serde_json::Value::from(number),
        None => serde_json::Value::Null,
    }
}

fn encode(descriptor: &ServiceDescriptor) -> Vec<u8> {
    let mut map = serde_json::Map::new();
    let mut put = |name: &str, value: serde_json::Value| {
        map.insert(name.to_string(), value);
    };
    put("descriptor_version", serde_json::Value::from(descriptor.descriptor_version));
    put("state", text_value(&descriptor.state));
    put("epoch", text_value(&descriptor.epoch));
    put("pid", serde_json::Value::from(descriptor.pid));
    put("socket", text_value(&descriptor.socket));
    put("socket_dev", optional_number(descriptor.socket_dev));
    put("socket_ino", optional_number(descriptor.socket_ino));
    put("start_token", text_value(&descriptor.start_token));
    put("backend_instance_uid", optional_text(&descriptor.backend_instance_uid));
    put("boot_nonce", text_value(&descriptor.boot_nonce));
    put("boot_id", text_value(&descriptor.boot_id));
    put("written_by", text_value(&descriptor.written_by));
    put("written_at", text_value(&descriptor.written_at));
    put("sentinel_window_id", optional_number(descriptor.sentinel_window_id));
    put("sentinel_tab_id", optional_number(descriptor.sentinel_tab_id));
    put("sentinel_pane_id", optional_number(descriptor.sentinel_pane_id));
    put(
        "sentinel_fallback",
        match descriptor.sentinel_fallback {
            Some(flag) => serde_json::Value::Bool(flag),
            None => serde_json::Value::Null,
        },
    );
    put("recovery_generation", optional_text(&descriptor.recovery_generation));
    put("recovery_manifest_id", optional_text(&descriptor.recovery_manifest_id));
    put("error", optional_text(&descriptor.error));
    serde_json::to_vec(&serde_json::Value::Object(map)).unwrap()
}

fn decode(raw: &[u8]) -> Result<ServiceDescriptor, String> {
    let value: serde_json::Value = serde_json::from_slice(raw).map_err(|error| error.to_string())?;
    let map = value.as_object().ok_or("not an object")?;
    let known = [
        "descriptor_version", "state", "epoch", "pid", "socket", "socket_dev", "socket_ino",
        "start_token", "backend_instance_uid", "boot_nonce", "boot_id", "written_by", "written_at",
        "sentinel_window_id", "sentinel_tab_id", "sentinel_pane_id", "sentinel_fallback",
        "recovery_generation", "recovery_manifest_id", "error",
    ];
    if let Some(name) = map.keys().find(|name| !known.contains(&name.as_str())) {
        return Err(format!("unknown field `{name}`"));
    }
    let text = |name: &str| -> Result<String, String> {
        match map.get(name).and_then(|value| value.as_str()) {
            Some(text) => Ok(text.to_string()),
            None => Err(format!("missing field `{name}`")),
        }
    };
    let maybe = |name: &str| map.get(name).and_then(|value| value.as_str()).map(String::from);
    let number = |name: &str| map.get(name).and_then(|value| value.as_u64());
    Ok(ServiceDescriptor {
        descriptor_version: number("descriptor_version").ok_or("missing field")? as u32,
        state: text("state")?,
        epoch: text("epoch")?,
        pid: number("pid").ok_or("missing field `pid`")? as u32,
        socket: text("socket")?,
        socket_dev: number("socket_dev"),
        socket_ino: number("socket_ino"),
        start_token: text("start_token")?,
        backend_instance_uid: maybe("backend_instance_uid"),
        boot_nonce: text("boot_nonce")?,
        boot_id: text("boot_id")?,
        written_by: text("written_by")?,
        written_at: text("written_at")?,
        sentinel_window_id: number("sentinel_window_id"),
        sentinel_tab_id: number("sentinel_tab_id"),
        sentinel_pane_id: number("sentinel_pane_id"),
        sentinel_fallback: map.get("sentinel_fallback").and_then(|value| value.as_bool()),
        recovery_generation: maybe("recovery_generation"),
        recovery_manifest_id: maybe("recovery_manifest_id"),
        error: maybe("error"),
    })
}

fn request(state: &str) -> PublishRequest {
    PublishRequest {
        state: state.to_string(),
        epoch: "11111111-1111-4111-8111-111111111111".to_string(),
        backend_instance_uid: Some("22222222-2222-4222-8222-222222222222".to_string()),
        boot_nonce: "33333333-3333-4333-8333-333333333333".to_string(),
        sentinel_window_id: (state == "ready").then_some(0),
        sentinel_tab_id: (state == "ready").then_some(0),
        sentinel_pane_id: (state == "ready").then_some(0),
        sentinel_fallback: (state == "ready").then_some(false),
        recovery_generation: None,
        recovery_manifest_id: None,
        error: None,
    }
}

fn service_at(world: &World, base: &BasePath) -> Service {
    Service::new(path_of(&base.display), world.platform, EUID, PID)
}

/// The session that holds the directory of the platform and ours.
fn runtime(world: &mut World, base: &BasePath) -> Result<(Session, Dir), Refusal> {
    let mut session = world.session();
    let root = drive(world, &mut session, |replies| {
        Ok(open_platform_base(replies, 0, base, Slot::Base, EUID)?.0)
    })?;
    let dir = drive(world, &mut session, |replies| {
        Ok(ensure_child(replies, 0, &root, RUNTIME_DIR, Slot::Runtime, EUID)?.0)
    })?;
    Ok((session, dir))
}

fn listener(world: &mut World, base: &BasePath) {
    let (_, dir) = runtime(world, base).unwrap();
    let node = world.at(&dir.path);
    world.make(node, SOCKET_FILE, Thing::Socket(Some(PID)), 0o600);
}

fn publish_service_descriptor_at_base(
    world: &mut World,
    base: &BasePath,
    request: PublishRequest,
) -> Result<PublishedDescriptor, Refusal> {
    let (mut session, _) = runtime(world, base)?;
    let service = service_at(world, base);
    drive(world, &mut session, |replies| {
        Ok(publish_service_descriptor_in(replies, 0, &request, &service)?.0)
    })
}

fn read_verified(
    world: &mut World,
    base: &BasePath,
    maximum: usize,
) -> Result<Option<Vec<u8>>, Refusal> {
    let service = service_at(world, base);
    let mut session = world.session();
    drive(world, &mut session, |replies| {
        Ok(read_verified_descriptor_at_base(replies, &service, maximum)?.0.cloned())
    })
}

fn initialize(world: &mut World, base: &BasePath) -> Result<(Session, Service), Refusal> {
    let service = service_at(world, base);
    let mut session = world.session();
    match drive(world, &mut session, |replies| initialize_at_base(replies, 0, &service)) {
        Ok(_) => Ok((session, service)),
        Err(refusal) => {
            world.close(session);
            Err(refusal)
        }
    }
}

fn bind(world: &mut World, session: &mut Session, service: &Service) -> Result<(), Refusal> {
    drive(world, session, |replies| bind_service_socket_early(replies, 0, service)).map(|_| ())
}

#[test]
fn early_service_bind_is_relative_private_and_restores_cwd() {
    let (mut world, base) = World::with_base();
    let before = world.current;
    let (mut session, service) = initialize(&mut world, &base).unwrap();
    bind(&mut world, &mut session, &service).unwrap();
    assert_eq!(world.current, before);
    let dir = service.runtime_dir();
    let witness = drive(&mut world, &mut session, |replies| {
        Ok(socket_witness(replies, 0, &dir, &service.socket, true, service.platform, EUID)?.0)
    })
    .unwrap()
    .unwrap();
    assert_eq!(witness.peer_pid, PID);
    assert!(matches!(
        world.nodes[world.at("/base/dmux/wez-dmux.sock") as usize].thing,
        Thing::Socket(_)
    ));
    assert_eq!(world.mode("/base/dmux/wez-dmux.sock") & 0o077, 0);
    assert!(world
        .journal
        .iter()
        .any(|action| action == "BindListener { name: \"wez-dmux.sock\" }"));
}

#[test]
fn early_service_bind_refuses_live_and_quarantines_only_proven_stale_socket() {
    let (mut live_world, live_base) = World::with_base();
    listener(&mut live_world, &live_base);
    let error = initialize(&mut live_world, &live_base).err().unwrap();
    assert_eq!(error.code, "duplicate_service");
    assert!(live_world.there("/base/dmux/wez-dmux.sock"));

    let (mut world, base) = World::with_base();
    let (mut first, service) = initialize(&mut world, &base).unwrap();
    bind(&mut world, &mut first, &service).unwrap();
    world.stop_listening("/base/dmux/wez-dmux.sock");
    world.close(first);

    let (mut second, service) = initialize(&mut world, &base).unwrap();
    assert!(!world.there("/base/dmux/wez-dmux.sock"));
    let quarantined = world
        .names("/base/dmux")
        .iter()
        .filter(|name| name.starts_with(".stale-socket-"))
        .count();
    assert_eq!(quarantined, 1);
    bind(&mut world, &mut second, &service).unwrap();
    assert!(world.there("/base/dmux/wez-dmux.sock"));
}

#[test]
fn early_service_bind_rejects_runtime_path_replacement_before_side_effect() {
    let (mut world, base) = World::with_base();
    let (mut session, service) = initialize(&mut world, &base).unwrap();
    let root = world.at("/base");
    let held = world.take_name(root, "dmux").unwrap();
    world.entries(root).push(("held-runtime".to_string(), held));
    world.make(root, "replacement-target", Thing::Directory(Vec::new()), 0o700);
    world.make(root, "dmux", Thing::Link("/base/replacement-target".to_string()), 0o777);

    let error = bind(&mut world, &mut session, &service).err().unwrap();
    assert!(matches!(error.code, "unsafe_directory" | "runtime_changed"));
    assert!(!world.there("/base/replacement-target/wez-dmux.sock"));
    assert!(!world.there("/base/held-runtime/wez-dmux.sock"));
}

#[test]
fn a_second_service_finds_the_lease_held() {
    let (mut world, base) = World::with_base();
    let (first, _) = initialize(&mut world, &base).unwrap();
    assert_eq!(
        initialize(&mut world, &base).err().unwrap().code,
        "duplicate_service"
    );
    world.close(first);
    assert!(initialize(&mut world, &base).is_ok());
    assert_eq!(
        String::from_utf8(world.bytes(&format!("/base/dmux/{SERVICE_LEASE_FILE}"))).unwrap(),
        "{\"lease_version\":1,\"pid\":4242,\"start_token\":\"linux:777\"}\n"
    );
}

#[test]
fn the_process_ends_where_it_cannot_leave_the_private_directory() {
    let (mut world, base) = World::with_base();
    let (mut session, service) = initialize(&mut world, &base).unwrap();
    world.leave_fails = true;
    let _ = bind(&mut world, &mut session, &service);
    assert_eq!(world.exited, Some(125));
}

fn replace_descriptor(world: &mut World, base: &BasePath, descriptor: &ServiceDescriptor) {
    let (mut session, dir) = runtime(world, base).unwrap();
    let mut raw = encode(descriptor);
    raw.push(b'\n');
    publish_raw(world, &mut session, &dir, &raw);
}

fn publish_raw(world: &mut World, session: &mut Session, dir: &Dir, raw: &[u8]) {
    drive(world, session, |replies| {
        publish_named_replace(replies, 0, dir, DESCRIPTOR_FILE, raw, MAX_DESCRIPTOR_BYTES, EUID)
    })
    .unwrap();
}

#[test]
fn starting_publication_is_private_atomic_and_rejects_preplants() {
    let (mut world, base) = World::with_base();
    let published =
        publish_service_descriptor_at_base(&mut world, &base, request("starting")).unwrap();
    assert_eq!(published.descriptor.state, "starting");
    assert_eq!(published.descriptor.socket_dev, None);
    assert_eq!(world.mode("/base/dmux/wez-dmux.json") & 0o777, 0o600);
    assert_eq!(world.bytes("/base/dmux/wez-dmux.json"), published.raw);

    world.remove("/base/dmux", DESCRIPTOR_FILE);
    let root = world.at("/base");
    world.make(root, "preplant-target", Thing::File(b"must-not-change".to_vec()), 0o644);
    let dir = world.at("/base/dmux");
    world.make(dir, DESCRIPTOR_FILE, Thing::Link("/base/preplant-target".to_string()), 0o777);
    let error =
        publish_service_descriptor_at_base(&mut world, &base, request("starting")).unwrap_err();
    assert_eq!(error.code, "unsafe_file");
    assert_eq!(world.bytes("/base/preplant-target"), b"must-not-change");
}

fn start_token_of(world: &mut World, pid: u32) -> Result<String, Refusal> {
    let platform = world.platform;
    let mut session = world.session();
    drive(world, &mut session, |replies| {
        Ok(process_start_token(replies, 0, platform, pid, EUID)?.0)
    })
}

fn boot_id_of(world: &mut World) -> String {
    let platform = world.platform;
    let mut session = world.session();
    drive(world, &mut session, |replies| Ok(current_boot_id(replies, 0, platform)?.0)).unwrap()
}

#[test]
fn ready_round_trip_proves_boot_process_and_socket_identity() {
    for platform in [Platform::Linux, Platform::Macos] {
        let (mut world, base) = World::with_base();
        world.platform = platform;
        listener(&mut world, &base);
        let published =
            publish_service_descriptor_at_base(&mut world, &base, request("ready")).unwrap();
        assert_eq!(published.peer_pid, Some(PID));
        assert_eq!(
            published.descriptor.start_token,
            start_token_of(&mut world, PID).unwrap()
        );
        assert_eq!(published.descriptor.boot_id, boot_id_of(&mut world));
        assert_eq!(
            read_verified(&mut world, &base, MAX_DESCRIPTOR_BYTES).unwrap().unwrap(),
            published.raw
        );
    }
}

#[test]
fn identities_are_read_as_each_system_gives_them() {
    let (mut world, _) = World::with_base();
    assert_eq!(start_token_of(&mut world, PID).unwrap(), "linux:777");
    assert_eq!(boot_id_of(&mut world), "linux:99999999-aaaa-4bbb-8ccc-dddddddddddd");
    assert_eq!(start_token_of(&mut world, 0).unwrap_err().code, "identity_unavailable");
    world.platform = Platform::Macos;
    assert_eq!(start_token_of(&mut world, PID).unwrap(), "macos:777:5");
    assert_eq!(boot_id_of(&mut world), "macos:1600000000:42");
    assert_eq!(start_token_of(&mut world, 7).unwrap_err().code, "identity_unavailable");
}

#[test]
fn a_descriptor_says_when_it_was_written() {
    let (mut world, base) = World::with_base();
    let published =
        publish_service_descriptor_at_base(&mut world, &base, request("starting")).unwrap();
    assert_eq!(published.descriptor.written_at, "2023-11-14T22:13:20Z");
    assert_eq!(published.descriptor.descriptor_version, 1);
    assert_eq!(published.descriptor.pid, PID);
    assert_eq!(published.descriptor.socket, "/base/dmux/wez-dmux.sock");
    assert_eq!(published.raw.last(), Some(&b'\n'));
}

#[test]
fn mux_startup_style_repeated_publication_does_not_wait_for_accept() {
    let (mut world, base) = World::with_base();
    listener(&mut world, &base);
    for state in ["starting", "recovering", "ready"] {
        let published =
            publish_service_descriptor_at_base(&mut world, &base, request(state)).unwrap();
        assert_eq!(published.descriptor.state, state);
        assert_eq!(published.peer_pid, Some(PID));
    }
    assert!(!world
        .journal
        .iter()
        .any(|action| action.starts_with("PollWritable")));
    let raw = read_verified(&mut world, &base, MAX_DESCRIPTOR_BYTES).unwrap().unwrap();
    assert_eq!(decode(&raw).unwrap().state, "ready");
}

#[test]
fn stale_boot_pid_start_and_socket_witnesses_fail_closed() {
    for platform in [Platform::Linux, Platform::Macos] {
        let (mut world, base) = World::with_base();
        world.platform = platform;
        listener(&mut world, &base);
        let published =
            publish_service_descriptor_at_base(&mut world, &base, request("ready")).unwrap();
        let copy = || decode(&published.raw).unwrap();

        let mut stale = copy();
        stale.boot_id = match boot_id_of(&mut world).split_once(':').unwrap().0 {
            "linux" => "linux:44444444-4444-4444-8444-444444444444".to_string(),
            _ => "macos:1:0".to_string(),
        };
        replace_descriptor(&mut world, &base, &stale);
        assert_eq!(
            read_verified(&mut world, &base, MAX_DESCRIPTOR_BYTES).unwrap_err().code,
            "stale_boot"
        );

        let mut stale = copy();
        stale.start_token = match platform {
            Platform::Linux => "linux:1".to_string(),
            Platform::Macos => "macos:1:0".to_string(),
        };
        replace_descriptor(&mut world, &base, &stale);
        assert_eq!(
            read_verified(&mut world, &base, MAX_DESCRIPTOR_BYTES).unwrap_err().code,
            "stale_process"
        );

        let mut stale = copy();
        stale.pid = i32::MAX as u32;
        replace_descriptor(&mut world, &base, &stale);
        assert!(matches!(
            read_verified(&mut world, &base, MAX_DESCRIPTOR_BYTES).unwrap_err().code,
            "identity_unavailable" | "stale_process"
        ));

        let mut stale = copy();
        stale.socket_ino = stale.socket_ino.map(|ino| ino.saturating_add(1));
        replace_descriptor(&mut world, &base, &stale);
        assert_eq!(
            read_verified(&mut world, &base, MAX_DESCRIPTOR_BYTES).unwrap_err().code,
            "socket_identity"
        );
    }
}

#[test]
fn socket_replacement_and_symlinked_runtime_fail_closed() {
    let (mut world, base) = World::with_base();
    listener(&mut world, &base);
    let published =
        publish_service_descriptor_at_base(&mut world, &base, request("ready")).unwrap();
    world.remove("/base/dmux", SOCKET_FILE);
    let dir = world.at("/base/dmux");
    world.make(dir, SOCKET_FILE, Thing::Socket(Some(PID)), 0o600);
    assert_eq!(
        read_verified(&mut world, &base, MAX_DESCRIPTOR_BYTES).unwrap_err().code,
        "socket_identity"
    );
    assert_ne!(
        world.at("/base/dmux/wez-dmux.sock"),
        published.descriptor.socket_ino.unwrap()
    );

    let holder = world.base("holder", 0o700);
    world.base("target", 0o700);
    let node = world.at("/holder");
    world.make(node, RUNTIME_DIR, Thing::Link("/target".to_string()), 0o777);
    assert_eq!(
        publish_service_descriptor_at_base(&mut world, &holder, request("starting"))
            .unwrap_err()
            .code,
        "unsafe_directory"
    );
}

#[test]
fn strict_reader_rejects_unknown_fields_symlinks_and_bounds() {
    let (mut world, base) = World::with_base();
    let (mut session, dir) = runtime(&mut world, &base).unwrap();
    publish_raw(
        &mut world,
        &mut session,
        &dir,
        br#"{"descriptor_version":1,"unknown":true}"#,
    );
    assert_eq!(
        read_verified(&mut world, &base, MAX_DESCRIPTOR_BYTES).unwrap_err().code,
        "invalid_descriptor"
    );
    assert_eq!(
        read_verified(&mut world, &base, 1).unwrap_err().code,
        "message_too_large"
    );
    world.remove("/base/dmux", DESCRIPTOR_FILE);
    let root = world.at("/base");
    world.make(root, "descriptor-target", Thing::File(b"hostile".to_vec()), 0o644);
    let node = world.at("/base/dmux");
    world.make(node, DESCRIPTOR_FILE, Thing::Link("/base/descriptor-target".to_string()), 0o777);
    assert_eq!(
        read_verified(&mut world, &base, MAX_DESCRIPTOR_BYTES).unwrap_err().code,
        "unsafe_file"
    );
}

#[test]
fn a_verified_read_changes_nothing() {
    let (mut world, base) = World::with_base();
    listener(&mut world, &base);
    publish_service_descriptor_at_base(&mut world, &base, request("ready")).unwrap();
    world.journal.clear();
    read_verified(&mut world, &base, MAX_DESCRIPTOR_BYTES).unwrap().unwrap();
    for action in &world.journal {
        for changing in [
            "MakeDirectory", "SetMode", "CreateFile", "Write", "Truncate", "Rename", "Link",
            "Unlink", "Lock", "Bind",
        ] {
            assert!(!action.starts_with(changing), "{action}");
        }
    }
    world.remove("/base/dmux", DESCRIPTOR_FILE);
    assert!(read_verified(&mut world, &base, MAX_DESCRIPTOR_BYTES).unwrap().is_none());
}

fn epoch_dir(world: &mut World, base: &BasePath, epoch: &str) -> Result<(Session, Dir), Refusal> {
    let mut session = world.session();
    let dir = drive(world, &mut session, |replies| {
        Ok(recovery_epoch_dir_at_base(replies, 0, base, epoch, EUID)?.0)
    })?;
    Ok((session, dir))
}

fn spool_read(
    world: &mut World,
    session: &mut Session,
    dir: &Dir,
    kind: &str,
    maximum: usize,
) -> Result<Option<Vec<u8>>, Refusal> {
    drive(world, session, |replies| {
        Ok(recovery_spool_read_from_dir(replies, 0, dir, kind, maximum, EUID)?.0.cloned())
    })
}

fn spool_write(
    world: &mut World,
    session: &mut Session,
    dir: &Dir,
    kind: &str,
    raw: &[u8],
) -> Result<(), Refusal> {
    drive(world, session, |replies| {
        recovery_spool_write_to_dir(replies, 0, dir, kind, raw, EUID)
    })
    .map(|_| ())
}

fn spool_remove(
    world: &mut World,
    session: &mut Session,
    dir: &Dir,
    kind: &str,
) -> Result<bool, Refusal> {
    drive(world, session, |replies| {
        Ok(recovery_spool_remove_from_dir(replies, 0, dir, kind, EUID)?.0)
    })
}

#[test]
fn recovery_spool_is_fixed_private_bounded_and_atomic() {
    let (mut world, base) = World::with_base();
    let epoch = "dddddddd-dddd-4ddd-8ddd-dddddddddddd";
    let (mut session, dir) = epoch_dir(&mut world, &base, epoch).unwrap();
    assert!(spool_read(&mut world, &mut session, &dir, "command", 1024).unwrap().is_none());
    spool_write(&mut world, &mut session, &dir, "command", b"first").unwrap();
    spool_write(&mut world, &mut session, &dir, "command", b"second").unwrap();
    assert_eq!(
        spool_read(&mut world, &mut session, &dir, "command", 1024).unwrap().unwrap(),
        b"second"
    );
    let path = format!("/base/dmux/recovery/{epoch}/command.json");
    assert_eq!(world.mode(&path) & 0o777, 0o600);
    assert!(spool_remove(&mut world, &mut session, &dir, "command").unwrap());
    assert!(!spool_remove(&mut world, &mut session, &dir, "command").unwrap());
    assert_eq!(
        spool_read(&mut world, &mut session, &dir, "status", 0).unwrap_err().code,
        "invalid_limit"
    );
    assert_eq!(
        spool_write(
            &mut world,
            &mut session,
            &dir,
            "response",
            &vec![0; MAX_RECOVERY_MESSAGE_BYTES + 1]
        )
        .unwrap_err()
        .code,
        "message_too_large"
    );
    assert_eq!(
        spool_read(&mut world, &mut session, &dir, "../escape", 1024).unwrap_err().code,
        "invalid_kind"
    );
}

#[test]
fn recovery_spool_rejects_symlink_preplants_and_unsafe_epoch_dirs() {
    let (mut world, base) = World::with_base();
    let epoch = "eeeeeeee-eeee-4eee-8eee-eeeeeeeeeeee";
    let (mut session, dir) = epoch_dir(&mut world, &base, epoch).unwrap();
    let root = world.at("/base");
    world.make(root, "spool-target", Thing::File(b"must-not-change".to_vec()), 0o644);
    let node = world.at(&dir.path);
    world.make(node, "control.json", Thing::Link("/base/spool-target".to_string()), 0o777);
    assert_eq!(
        spool_write(&mut world, &mut session, &dir, "control", b"hostile").unwrap_err().code,
        "unsafe_file"
    );
    assert_eq!(world.bytes("/base/spool-target"), b"must-not-change");

    let hostile = world.base("hostile", 0o700);
    let (mut session, runtime_dir) = runtime(&mut world, &hostile).unwrap();
    drive(&mut world, &mut session, |replies| {
        ensure_child(replies, 0, &runtime_dir, "recovery", Slot::Recovery, EUID)
    })
    .unwrap();
    let node = world.at("/hostile/dmux/recovery");
    world.make(node, epoch, Thing::Directory(Vec::new()), 0o777);
    assert_eq!(
        epoch_dir(&mut world, &hostile, epoch).err().unwrap().code,
        "unsafe_directory"
    );
}

#[test]
fn recovery_remove_never_deletes_a_post_verification_name_swap() {
    let (mut world, base) = World::with_base();
    let epoch = "ffffffff-ffff-4fff-8fff-ffffffffffff";
    let (mut session, dir) = epoch_dir(&mut world, &base, epoch).unwrap();
    spool_write(&mut world, &mut session, &dir, "command", b"original").unwrap();

    let directory = dir.path.clone();
    let mut replacement = None;
    let removed = drive_with(
        &mut world,
        &mut session,
        |world, action| {
            if matches!(action, Action::Truncate { .. }) {
                let name = world
                    .names(&directory)
                    .into_iter()
                    .find(|name| name.starts_with(".remove-"))
                    .unwrap();
                world.remove(&directory, &name);
                let node = world.at(&directory);
                world.make(node, &name, Thing::File(b"racing replacement".to_vec()), 0o600);
                replacement = Some(name);
            }
        },
        |replies| Ok(remove_private_verified(replies, 0, &dir, "command.json", EUID)?.0),
    )
    .unwrap();
    assert!(removed);

    assert!(!world.there(&format!("{directory}/command.json")));
    assert_eq!(
        world.bytes(&format!("{directory}/{}", replacement.unwrap())),
        b"racing replacement"
    );
}

fn manifest_root(world: &mut World, base: &BasePath) -> Result<(Session, Dir), Refusal> {
    let mut session = world.session();
    let dir = drive(world, &mut session, |replies| {
        Ok(recovery_manifest_root_at_base(replies, 0, base, EUID)?.0)
    })?;
    Ok((session, dir))
}

fn manifest_write(
    world: &mut World,
    session: &mut Session,
    root: &Dir,
    candidate: &str,
    raw: &[u8],
) -> Result<(), Refusal> {
    drive(world, session, |replies| {
        recovery_manifest_write_candidate_at_root(replies, 0, root, candidate, raw, EUID)
    })
    .map(|_| ())
}

fn manifest_read(
    world: &mut World,
    session: &mut Session,
    root: &Dir,
    candidate: &str,
    kind: &str,
    maximum: usize,
) -> Result<Option<Vec<u8>>, Refusal> {
    drive(world, session, |replies| {
        Ok(recovery_manifest_read_at_root(replies, 0, root, candidate, kind, maximum, EUID)?
            .0
            .cloned())
    })
}

fn manifest_remove(
    world: &mut World,
    session: &mut Session,
    root: &Dir,
    candidate: &str,
    kind: &str,
) -> Result<bool, Refusal> {
    drive(world, session, |replies| {
        Ok(recovery_manifest_remove_at_root(replies, 0, root, candidate, kind, EUID)?.0)
    })
}

#[test]
fn recovery_manifest_handle_uses_fixed_opaque_names_and_private_files() {
    let (mut world, base) = World::with_base();
    let (mut session, root) = manifest_root(&mut world, &base).unwrap();
    let candidate = ".capture-11111111-1111-4111-8111-111111111111-1700000000-1";
    let names = recovery_manifest_names(candidate).unwrap();

    manifest_write(&mut world, &mut session, &root, candidate, b"candidate").unwrap();
    assert_eq!(
        manifest_read(&mut world, &mut session, &root, candidate, "candidate", 1024)
            .unwrap()
            .unwrap(),
        b"candidate"
    );
    assert_eq!(
        world.mode(&format!("{}/{}", root.path, names.candidate)) & 0o777,
        0o600
    );

    let above_spool_limit = vec![b'x'; MAX_RECOVERY_MESSAGE_BYTES + 1];
    manifest_write(&mut world, &mut session, &root, candidate, &above_spool_limit).unwrap();
    assert_eq!(
        manifest_read(
            &mut world,
            &mut session,
            &root,
            candidate,
            "candidate",
            MAX_RECOVERY_MANIFEST_BYTES,
        )
        .unwrap()
        .unwrap()
        .len(),
        MAX_RECOVERY_MESSAGE_BYTES + 1
    );
    assert_eq!(
        manifest_write(
            &mut world,
            &mut session,
            &root,
            candidate,
            &vec![0; MAX_RECOVERY_MANIFEST_BYTES + 1],
        )
        .unwrap_err()
        .code,
        "message_too_large"
    );

    for (name, body) in [(&names.plan, "plan"), (&names.published, "published")] {
        drive(&mut world, &mut session, |replies| {
            publish_named_replace(
                replies,
                0,
                &root,
                name,
                body.as_bytes(),
                MAX_RECOVERY_MANIFEST_BYTES,
                EUID,
            )
        })
        .unwrap();
    }
    assert_eq!(
        manifest_read(&mut world, &mut session, &root, candidate, "plan", 1024)
            .unwrap()
            .unwrap(),
        b"plan"
    );
    assert_eq!(
        manifest_read(&mut world, &mut session, &root, candidate, "published", 1024)
            .unwrap()
            .unwrap(),
        b"published"
    );
    assert!(manifest_remove(&mut world, &mut session, &root, candidate, "candidate").unwrap());
    assert!(manifest_remove(&mut world, &mut session, &root, candidate, "plan").unwrap());
    assert_eq!(
        manifest_remove(&mut world, &mut session, &root, candidate, "published")
            .unwrap_err()
            .code,
        "invalid_kind"
    );
    assert!(recovery_manifest_names("../../escape").is_err());
    assert_eq!(
        manifest_read(&mut world, &mut session, &root, candidate, "candidate", 0)
            .unwrap_err()
            .code,
        "invalid_limit"
    );
}

#[test]
fn recovery_manifest_rejects_symlink_preplants_and_unsafe_roots() {
    let (mut world, base) = World::with_base();
    let (mut session, root) = manifest_root(&mut world, &base).unwrap();
    let candidate = ".capture-22222222-2222-4222-8222-222222222222-1700000000-2";
    let node = world.at("/base");
    world.make(node, "manifest-target", Thing::File(b"must-not-change".to_vec()), 0o644);
    let node = world.at(&root.path);
    world.make(node, candidate, Thing::Link("/base/manifest-target".to_string()), 0o777);
    assert_eq!(
        manifest_write(&mut world, &mut session, &root, candidate, b"hostile")
            .unwrap_err()
            .code,
        "unsafe_file"
    );
    assert_eq!(world.bytes("/base/manifest-target"), b"must-not-change");

    let hostile = world.base("hostile", 0o700);
    let node = world.at("/hostile");
    world.make(node, "dmux", Thing::Directory(Vec::new()), 0o777);
    assert_eq!(
        manifest_root(&mut world, &hostile).err().unwrap().code,
        "unsafe_directory"
    );
}

#[test]
fn backend_identity_is_optional_only_for_unavailable_states() {
    let (mut world, base) = World::with_base();
    let mut starting = request("starting");
    starting.backend_instance_uid = None;
    let published = publish_service_descriptor_at_base(&mut world, &base, starting).unwrap();
    assert_eq!(published.descriptor.backend_instance_uid, None);

    let mut refused = request("failed");
    refused.backend_instance_uid = None;
    refused.error = Some("managed service unavailable".to_string());
    publish_service_descriptor_at_base(&mut world, &base, refused).unwrap();

    for state in ["recovering", "ready"] {
        let mut invalid = request(state);
        invalid.backend_instance_uid = None;
        assert_eq!(
            publish_service_descriptor_at_base(&mut world, &base, invalid)
                .unwrap_err()
                .code,
            "invalid_request"
        );
    }
}

#[test]
fn missing_linux_runtime_environment_fails_closed() {
    assert_eq!(
        platform_runtime_base(None).unwrap_err().code(),
        "runtime_unavailable"
    );
}

#[test]
fn untrusted_runtime_environment_overrides_are_ignored() {
    let trusted = b"/holder/trusted-xdg".to_vec();
    let resolved = platform_runtime_base(Some(trusted.clone())).unwrap();
    assert_eq!(resolved, trusted);
    assert_eq!(
        platform_runtime_base(Some(b"relative/runtime".to_vec()))
            .unwrap_err()
            .code(),
        "runtime_unavailable"
    );
}

#[test]
fn a_connection_waits_no_longer_than_its_deadline() {
    let (mut world, base) = World::with_base();
    listener(&mut world, &base);
    world.connect_errno = Some(115);
    let service = service_at(&world, &base);
    let connect = |world: &mut World| {
        let mut session = world.session();
        let outcome = drive(world, &mut session, |replies| {
            Ok(connect_unix_bounded(replies, 0, &service.socket, Platform::Linux)?.0)
        })
        .unwrap();
        (session, outcome)
    };

    world.remaining = vec![200_000_000, 100_000_000];
    world.polls = vec![
        failed(OsErrorKind::Interrupted, 4, "Interrupted system call"),
        Reply::Flag(true),
    ];
    let (mut session, outcome) = connect(&mut world);
    assert!(outcome.is_ok());
    assert_eq!(
        drive(&mut world, &mut session, |replies| {
            Ok(peer_pid(replies, 0, Platform::Linux, EUID)?.0)
        })
        .unwrap(),
        PID
    );
    assert!(world
        .journal
        .iter()
        .any(|action| action == "PollWritable { slot: Connection, timeout: 200 }"));

    world.remaining = vec![0];
    let (_, outcome) = connect(&mut world);
    assert_eq!(outcome.unwrap_err().code(), "socket_unavailable");

    world.remaining = vec![1];
    world.polls = vec![Reply::Flag(false)];
    let (_, outcome) = connect(&mut world);
    assert_eq!(
        outcome.unwrap_err().detail,
        "timed out connecting to fixed socket"
    );

    let long = path_of(&"x".repeat(108));
    let mut session = world.session();
    let outcome = drive(&mut world, &mut session, |replies| {
        Ok(connect_unix_bounded(replies, 0, &long, Platform::Linux)?.0)
    })
    .unwrap();
    assert_eq!(
        outcome.unwrap_err().detail,
        "fixed socket path exceeds sockaddr_un"
    );
}

#[test]
fn a_moved_runtime_directory_is_noticed() {
    let (mut world, base) = World::with_base();
    let (mut session, _) = runtime(&mut world, &base).unwrap();
    let check = |world: &mut World, session: &mut Session| {
        drive(world, session, |replies| revalidate_runtime_path(replies, 0, &base, EUID))
    };
    assert!(check(&mut world, &mut session).is_ok());
    let root = world.at("/base");
    world.take_name(root, "dmux").unwrap();
    world.make(root, "dmux", Thing::Directory(Vec::new()), 0o700);
    assert_eq!(
        check(&mut world, &mut session).unwrap_err().code,
        "runtime_changed"
    );
}

fn drive_service<T>(
    world: &mut World,
    session: &mut Session,
    mut operation: impl FnMut(&Vec<Reply>) -> Result<T, ServiceStop>,
) -> Result<T, String> {
    let mut replies: Vec<Reply> = Vec::new();
    loop {
        match operation(&replies) {
            Ok(value) => return Ok(value),
            Err(ServiceStop::Await(action)) => {
                let reply = world.perform(session, action);
                replies.push(reply);
            }
            Err(ServiceStop::Failed(reason)) => return Err(reason),
            Err(ServiceStop::Misfit) => panic!("an answer does not fit"),
        }
    }
}

fn exact_config() -> ManagedConfig {
    ManagedConfig {
        dmux_recovery_primitives: true,
        unix_domains: vec![UnixDomain {
            name: "dmux".to_string(),
            socket_path: Some(b"/base/dmux/wez-dmux.sock".to_vec()),
            no_serve_automatically: true,
            ..UnixDomain::default()
        }],
        tls_servers: 0,
    }
}

#[test]
fn the_listener_is_handed_over_once_and_only_to_the_exact_configuration() {
    let (mut world, base) = World::with_base();
    let service = service_at(&world, &base);
    let mut state = ServiceState::new();
    let mut session = world.session();
    let mut bootstrap = drive_service(&mut world, &mut session, |replies| {
        prebind_dmux_managed_service(&mut state, &service, replies)
    })
    .unwrap();
    assert!(state.bound_socket.is_some());
    assert!(state.listener);

    let config = exact_config();
    let unclaimed = drive_service(&mut world, &mut session, |replies| {
        bootstrap.validate_and_take(&mut state, &config, &service, replies)
    })
    .err()
    .unwrap();
    assert!(unclaimed.contains("did not call wezterm.mux.dmux_service_bootstrap()"));

    let mut bootstrap = dmux::service_bind::ManagedServiceBootstrap { consumed: false };
    state.listener = true;
    drive_service(&mut world, &mut session, |replies| {
        claim_service(&mut state, &service, replies)
    })
    .unwrap();
    assert!(state.claimed);
    let guard = drive_service(&mut world, &mut session, |replies| {
        bootstrap.validate_and_take(&mut state, &config, &service, replies)
    })
    .unwrap();
    assert!(guard.taken);
    assert!(bootstrap.consumed);
    assert!(!state.listener);
    assert!(drive_service(&mut world, &mut session, |replies| {
        bootstrap.validate_and_take(&mut state, &config, &service, replies)
    })
    .is_err());

    let published = drive(&mut world, &mut session, |replies| {
        Ok(publish_service_descriptor(replies, &request("ready"), &state, &service)?.0)
    })
    .unwrap();
    assert_eq!(published.peer_pid, Some(PID));
    assert!(drive_service(&mut world, &mut session, |replies| {
        invalidate_service_descriptor(&state, &service, replies)
    })
    .unwrap());
    assert!(!drive_service(&mut world, &mut session, |replies| {
        invalidate_service_descriptor(&state, &service, replies)
    })
    .unwrap());
}

#[test]
fn each_deviation_of_the_configuration_keeps_the_listener_back() {
    let take = |change: &dyn Fn(&mut ManagedConfig)| -> String {
        let (mut world, base) = World::with_base();
        let service = service_at(&world, &base);
        let mut state = ServiceState::new();
        let mut session = world.session();
        let mut bootstrap = drive_service(&mut world, &mut session, |replies| {
            prebind_dmux_managed_service(&mut state, &service, replies)
        })
        .unwrap();
        drive_service(&mut world, &mut session, |replies| {
            claim_service(&mut state, &service, replies)
        })
        .unwrap();
        let mut config = exact_config();
        change(&mut config);
        let error = drive_service(&mut world, &mut session, |replies| {
            bootstrap.validate_and_take(&mut state, &config, &service, replies)
        })
        .err()
        .unwrap();
        assert!(!state.listener);
        error
    };
    assert!(take(&|config| config.dmux_recovery_primitives = false)
        .contains("must enable dmux_recovery_primitives"));
    assert!(take(&|config| config.unix_domains.clear()).contains("exactly one Unix domain"));
    assert!(take(&|config| config.tls_servers = 1).contains("must not expose TLS listeners"));
    take(&|config| config.unix_domains[0].name = "other".to_string());
    take(&|config| config.unix_domains[0].socket_path = Some(b"/tmp/other.sock".to_vec()));
    take(&|config| config.unix_domains[0].no_serve_automatically = false);
    take(&|config| config.unix_domains[0].connect_automatically = true);
    take(&|config| config.unix_domains[0].skip_permissions_check = true);
    take(&|config| config.unix_domains[0].serve_command = Some(Vec::new()));
    take(&|config| config.unix_domains[0].proxy_command = Some(Vec::new()));
}

#[test]
fn prebinding_needs_a_single_thread_and_happens_once() {
    let (mut world, base) = World::with_base();
    let service = service_at(&world, &base);
    let mut state = ServiceState::new();
    world.threads = 2;
    let mut session = world.session();
    assert_eq!(
        drive_service(&mut world, &mut session, |replies| {
            prebind_dmux_managed_service(&mut state, &service, replies)
        })
        .err()
        .unwrap(),
        "dmux managed service prebind requires one OS thread, found 2"
    );
    assert!(!world.there("/base/dmux"));
    world.threads = 1;
    let bootstrap = drive_service(&mut world, &mut session, |replies| {
        prebind_dmux_managed_service(&mut state, &service, replies)
    })
    .unwrap();
    assert!(drive_service(&mut world, &mut session, |replies| {
        prebind_dmux_managed_service(&mut state, &service, replies)
    })
    .is_err());
    bootstrap.abandon(&mut state);
    assert!(!state.listener);
}

#[test]
fn an_attempt_without_a_bound_socket_is_remembered() {
    let (mut world, base) = World::with_base();
    let service = service_at(&world, &base);
    let mut state = ServiceState::new();
    let mut session = world.session();
    assert!(!service_bootstrap_missing_prebind_attempted(&state));
    assert!(drive_service(&mut world, &mut session, |replies| {
        claim_service(&mut state, &service, replies)
    })
    .is_err());
    assert!(service_bootstrap_missing_prebind_attempted(&state));
    assert!(drive_service(&mut world, &mut session, |replies| {
        invalidate_service_descriptor(&state, &service, replies)
    })
    .is_err());
    assert_eq!(
        drive(&mut world, &mut session, |replies| {
            publish_service_descriptor(replies, &request("ready"), &state, &service)
        })
        .unwrap_err()
        .code,
        "bootstrap_required"
    );
}

/// An open spool with its session.
struct Spool {
    bridge: Bridge,
    key: Vec<u8>,
    proofs: TextSet,
}

fn bridge_base(world: &mut World, name: &str, key: &[u8]) -> BasePath {
    let base = world.base(name, 0o700);
    let mut session = world.session();
    let root = drive(world, &mut session, |replies| {
        Ok(open_bridge_base(replies, 0, &base, EUID)?.0)
    })
    .unwrap();
    let runtime = drive(world, &mut session, |replies| {
        Ok(ensure_bridge_child(replies, 0, &root, "dmux", Slot::Runtime, EUID)?.0)
    })
    .unwrap();
    let bridge = drive(world, &mut session, |replies| {
        Ok(ensure_bridge_child(replies, 0, &runtime, BRIDGE_DIR, Slot::Bridge, EUID)?.0)
    })
    .unwrap();
    drive(world, &mut session, |replies| {
        write_new_atomic(replies, 0, &bridge, KEY_FILE, key, EUID)
    })
    .unwrap();
    base
}

fn open_spool(
    world: &mut World,
    base: &BasePath,
    instance: &str,
    pid: u32,
    start: &str,
) -> Result<(Session, Spool), Refusal> {
    let mut session = world.session();
    match drive(world, &mut session, |replies| {
        Ok(open_at_base(replies, base, instance, pid, start, EUID)?.0)
    }) {
        Ok(spool) => Ok((
            session,
            Spool {
                bridge: spool.bridge,
                key: spool.key,
                proofs: TextSet::new(),
            },
        )),
        Err(refusal) => {
            if refusal.code != "duplicate_instance" {
                release_instance(&mut world.claimed, instance);
            }
            world.close(session);
            Err(refusal)
        }
    }
}

fn close_spool(world: &mut World, session: Session, spool: Spool) {
    release_instance(&mut world.claimed, &spool.bridge.instance);
    world.close(session);
}

fn new_document(
    world: &mut World,
    session: &mut Session,
    dir: &Dir,
    name: &str,
    body: &[u8],
) -> Result<(), Refusal> {
    drive(world, session, |replies| write_new_atomic(replies, 0, dir, name, body, EUID)).map(|_| ())
}

fn publish_request(
    world: &mut World,
    session: &mut Session,
    spool: &Spool,
    uid: &str,
    body: &[u8],
) {
    let dir = spool.bridge.dir_below(Slot::Requests, "requests");
    new_document(world, session, &dir, &format!("req-{uid}.json"), body).unwrap();
}

fn next(
    world: &mut World,
    session: &mut Session,
    spool: &Spool,
    maximum: usize,
) -> Result<Option<(String, Vec<u8>)>, Refusal> {
    let found = drive(world, session, |replies| {
        Ok(next_request(replies, &spool.bridge, maximum)?
            .0
            .map(|(uid, body, length)| (uid, body.clone(), length)))
    })?;
    Ok(found.map(|(uid, body, length)| {
        let node = session.node(Slot::Observed);
        session.kept.retain(|(kept, _)| *kept != uid);
        session.kept.push((uid.clone(), node));
        session.observed.insert(
            uid.clone(),
            ObservedRequest {
                body: body.clone(),
                length,
            },
        );
        (uid, body)
    }))
}

fn consume(
    world: &mut World,
    session: &mut Session,
    spool: &Spool,
    uid: &str,
) -> Result<(), Refusal> {
    drive(world, session, |replies| consume_request_new(replies, &spool.bridge, uid)).map(|_| ())
}

fn discard(
    world: &mut World,
    session: &mut Session,
    spool: &Spool,
    uid: &str,
) -> Result<(), Refusal> {
    drive(world, session, |replies| {
        discard_observed_request(replies, &spool.bridge, uid)
    })
    .map(|_| ())
}

fn consumed(
    world: &mut World,
    session: &mut Session,
    spool: &Spool,
    uid: &str,
    maximum: usize,
) -> Result<Option<Vec<u8>>, Refusal> {
    drive(world, session, |replies| {
        Ok(read_consumed(replies, 0, &spool.bridge, uid, maximum)?.0.cloned())
    })
}

fn acknowledged(
    world: &mut World,
    session: &mut Session,
    spool: &Spool,
    uid: &str,
    maximum: usize,
) -> Result<Option<Vec<u8>>, Refusal> {
    drive(world, session, |replies| {
        Ok(read_ack(replies, 0, &spool.bridge, uid, maximum)?.0.cloned())
    })
}

fn acknowledge(
    world: &mut World,
    session: &mut Session,
    spool: &Spool,
    uid: &str,
    body: &[u8],
) -> Result<(), Refusal> {
    drive(world, session, |replies| write_ack_new(replies, &spool.bridge, uid, body)).map(|_| ())
}

/// What a decoder says of an acknowledgement with a field too many.
const ACK_COMPLAINT: &str = "unknown field `extra`";

/// Consumes the proof of a completion: reads both documents, checks them,
/// and leaves the marker.
fn complete(
    world: &mut World,
    session: &mut Session,
    spool: &mut Spool,
    uid: &str,
    platform_action: &str,
) -> Result<(), BridgeFsError> {
    let (consumed, ack) = drive(world, session, |replies| {
        let (consumed, ack, _) =
            read_completion_documents(replies, &spool.bridge, uid, platform_action)?;
        Ok((consumed.clone(), ack.clone()))
    })
    .map_err(|refusal| refusal.into_bridge())?;
    let claimant = Claimant {
        uid,
        instance: &spool.bridge.instance,
        pid: spool.bridge.pid,
        process_start_token: &spool.bridge.process_start_token,
        platform_action,
    };
    let marker = consume_lifecycle_completion_proof(
        Some(consumed),
        Some(ack),
        ACK_COMPLAINT,
        claimant,
        &spool.key,
        Ok(NOW),
        &mut spool.proofs,
    )?;
    drive(world, session, |replies| {
        write_completion_marker(replies, &spool.bridge, &marker.name, &marker.body)
    })
    .map(|_| ())
    .map_err(|refusal| marker_write_failed(&refusal.into_bridge()))
}

fn object(entries: Vec<(&str, serde_json::Value)>) -> serde_json::Value {
    let mut map = serde_json::Map::new();
    for (name, value) in entries {
        map.insert(name.to_string(), value);
    }
    serde_json::Value::Object(map)
}

fn signed_finish_documents(
    spool: &Spool,
    uid: &str,
    issued_at: u64,
    expiry: u64,
    completed_at: u64,
    origin_pid: u32,
    origin_start: &str,
    platform_action: &str,
) -> (Vec<u8>, Vec<u8>) {
    let number = |n: u64| serde_json::Value::from(n);
    let mut request = object(vec![
        ("protocol_version", number(1)),
        ("uid", text_value(uid)),
        ("action", text_value("safe_quit")),
        (
            "target",
            object(vec![
                ("phase", text_value("finish")),
                ("proof_uid", text_value("aaaaaaaa-aaaa-4aaa-8aaa-aaaaaaaaaaaa")),
                ("platform_action", text_value(platform_action)),
            ]),
        ),
        ("issued_at", number(issued_at)),
        ("expiry", number(expiry)),
        ("nonce", text_value("bbbbbbbbbbbbbbbbbbbbbbbbbbbbbbbb")),
        ("replay_key", text_value("cccccccccccccccccccccccccccccccc")),
        (
            "origin",
            object(vec![
                ("kind", text_value("resident_gui")),
                ("gui_instance", text_value(&spool.bridge.instance)),
                ("pid", number(origin_pid as u64)),
                ("process_start_token", text_value(origin_start)),
            ]),
        ),
        ("hmac_sha256", text_value("")),
    ]);
    let raw = serde_json::to_vec(&request).unwrap();
    let canonical = match parse_document(&raw).unwrap() {
        Json::Object(entries) => canonical_unsigned_request(&entries).unwrap(),
        _ => panic!("not an object"),
    };
    let signature = hex_lower(&hmac_sha256(&spool.key, canonical.as_bytes()));
    request["hmac_sha256"] = text_value(&signature);
    let digest = hex_lower(Sha256::digest(canonical.as_bytes()).as_slice());
    let ack = object(vec![
        ("protocol_version", number(1)),
        ("uid", text_value(uid)),
        ("action", text_value("safe_quit")),
        ("nonce", text_value("bbbbbbbbbbbbbbbbbbbbbbbbbbbbbbbb")),
        ("ok", serde_json::Value::Bool(true)),
        ("completed_at", number(completed_at)),
        ("request_sha256", text_value(&digest)),
        ("gui_instance", text_value(&spool.bridge.instance)),
        ("platform_action", text_value(platform_action)),
    ]);
    (
        serde_json::to_vec(&request).unwrap(),
        serde_json::to_vec(&ack).unwrap(),
    )
}

fn preflight(world: &mut World, base: &BasePath) -> Result<usize, Refusal> {
    let mut session = world.session();
    drive(world, &mut session, |replies| {
        Ok(bridge_key_preflight_at_base(replies, base, EUID)?.0)
    })
}

#[test]
fn checked_preflight_is_read_only_and_validates_private_key() {
    let mut world = World::new();
    let base = bridge_base(&mut world, "base", &[7; 32]);
    assert_eq!(preflight(&mut world, &base).unwrap(), 32);

    let absent = world.base("absent", 0o700);
    assert!(preflight(&mut world, &absent).is_err());
    assert!(!world.there("/absent/dmux"));

    world.remove("/base/dmux/bridge", KEY_FILE);
    let node = world.at("/base/dmux/bridge");
    world.make(node, KEY_FILE, Thing::File(vec![7; 31]), 0o600);
    assert_eq!(
        preflight(&mut world, &base).unwrap_err().code,
        "key_invalid"
    );

    assert_eq!(
        verified_descriptor_identity(None).unwrap_err().code,
        "descriptor_unavailable"
    );
    assert_eq!(
        verified_descriptor_identity(Some(&b"not-json".to_vec()))
            .unwrap_err()
            .code,
        "descriptor_unavailable"
    );
    let identity = verified_descriptor_identity(Some(
        &br#"{"backend_instance_uid":"99999999-9999-4999-8999-999999999999","epoch":"88888888-8888-4888-8888-888888888888"}"#
            .to_vec(),
    ))
    .unwrap();
    assert_eq!(identity.0, "99999999-9999-4999-8999-999999999999");
    assert_eq!(identity.1, "88888888-8888-4888-8888-888888888888");
}

fn launcher_origin() -> LauncherOrigin {
    LauncherOrigin {
        gui_instance: "gui-88888888888848888888888888888888".to_string(),
        uid: EUID as u64,
        pid: 42,
        start_token: "macos:1:2".to_string(),
        launcher_request_uid: "88888888-8888-4888-8888-888888888888".to_string(),
        domain: "ssh:remote".to_string(),
        backend_instance_uid: "99999999-9999-4999-8999-999999999999".to_string(),
        server_epoch: "aaaaaaaa-aaaa-4aaa-8aaa-aaaaaaaaaaaa".to_string(),
        host_uid: "dddddddd-dddd-4ddd-8ddd-dddddddddddd".to_string(),
        space_uid: Some("bbbbbbbb-bbbb-4bbb-8bbb-bbbbbbbbbbbb".to_string()),
    }
}

#[test]
fn launcher_witness_is_exact_and_bound_to_leased_instance() {
    let witness = LauncherWitness {
        origin: launcher_origin(),
        transport_backend_instance_uid: "cccccccc-cccc-4ccc-8ccc-cccccccccccc".to_string(),
    };
    validate_launcher_witness(&witness, &witness.origin, &witness.origin.gui_instance, EUID)
        .unwrap();

    let mut hostile = launcher_origin();
    hostile.launcher_request_uid = "77777777-7777-4777-8777-777777777777".to_string();
    assert_eq!(
        validate_launcher_witness(&witness, &hostile, &witness.origin.gui_instance, EUID)
            .unwrap_err()
            .code,
        "launcher_witness_mismatch"
    );
    assert_eq!(
        validate_launcher_witness(&witness, &witness.origin, "gui-different", EUID)
            .unwrap_err()
            .code,
        "launcher_witness_mismatch"
    );
}

#[test]
fn rejects_untrusted_runtime_and_instance_components() {
    let mut world = World::new();
    let writable = world.base("writable", 0o777);
    let error = open_spool(&mut world, &writable, "gui-ok", 1, "token").unwrap_err_code();
    assert_eq!(error, "unsafe_directory");

    world.base("holder", 0o700);
    world.base("target", 0o700);
    let node = world.at("/holder");
    world.make(node, "runtime-link", Thing::Link("/target".to_string()), 0o777);
    let link = path_of("/holder/runtime-link");
    let error = open_spool(&mut world, &link, "gui-ok", 1, "token").unwrap_err_code();
    assert!(matches!(error, "runtime_unavailable" | "unsafe_directory"));

    let base = bridge_base(&mut world, "base", &[7; 32]);
    let error = open_spool(&mut world, &base, "../escape", 1, "token").unwrap_err_code();
    assert_eq!(error, "invalid_instance");
}

trait RefusalCode {
    fn unwrap_err_code(self) -> &'static str;
}

impl<T> RefusalCode for Result<T, Refusal> {
    fn unwrap_err_code(self) -> &'static str {
        match self {
            Ok(_) => panic!("it was not refused"),
            Err(refusal) => refusal.code,
        }
    }
}

#[test]
fn exclusive_lease_binds_instance_pid_and_start_token() {
    let mut world = World::new();
    let base = bridge_base(&mut world, "base", &[7; 32]);
    let (mut session, first) = open_spool(&mut world, &base, "gui-lease", 41, "start-a").unwrap();
    assert_eq!(
        open_spool(&mut world, &base, "gui-lease", 42, "start-b").unwrap_err_code(),
        "duplicate_instance"
    );

    let dir = first.bridge.instance_dir();
    let raw = drive(&mut world, &mut session, |replies| {
        Ok(read_document(replies, 0, &dir, LEASE_FILE, 1024, EUID)?.0.cloned())
    })
    .unwrap()
    .unwrap();
    let lease: serde_json::Value = serde_json::from_slice(&raw).unwrap();
    assert_eq!(lease["gui_instance"], "gui-lease");
    assert_eq!(lease["pid"], 41);
    assert_eq!(lease["process_start_token"], "start-a");

    close_spool(&mut world, session, first);
    let (session, second) = open_spool(&mut world, &base, "gui-lease", 42, "start-b").unwrap();
    let lease_path = format!("{}/{}", second.bridge.instance_dir().path, LEASE_FILE);
    close_spool(&mut world, session, second);
    let node = world.at(&lease_path);
    world.nodes[node as usize].mode = 0o644;
    assert_eq!(
        open_spool(&mut world, &base, "gui-lease", 43, "start-c").unwrap_err_code(),
        "unsafe_file"
    );
    assert_eq!(world.mode(&lease_path) & 0o777, 0o644);
}

#[test]
fn another_process_cannot_take_a_held_lease() {
    let mut world = World::new();
    let base = bridge_base(&mut world, "base", &[7; 32]);
    let (session, first) = open_spool(&mut world, &base, "gui-lease", 41, "start-a").unwrap();
    world.claimed = TextSet::new();
    assert_eq!(
        open_spool(&mut world, &base, "gui-lease", 42, "start-b").unwrap_err_code(),
        "duplicate_instance"
    );
    close_spool(&mut world, session, first);
}

#[test]
fn descriptor_spool_is_private_atomic_and_no_replace() {
    let mut world = World::new();
    let base = bridge_base(&mut world, "base", &[7; 32]);
    let (mut session, spool) = open_spool(&mut world, &base, "gui-spool", 55, "start").unwrap();
    let uid = "01234567-89ab-4def-8123-456789abcdef";
    publish_request(&mut world, &mut session, &spool, uid, br#"{"protocol_version":1}"#);

    let (found_uid, body) =
        next(&mut world, &mut session, &spool, MAX_DOCUMENT_BYTES).unwrap().unwrap();
    assert_eq!(found_uid, uid);
    assert_eq!(body, br#"{"protocol_version":1}"#);
    consume(&mut world, &mut session, &spool, uid).unwrap();
    assert!(next(&mut world, &mut session, &spool, MAX_DOCUMENT_BYTES).unwrap().is_none());
    assert_eq!(
        consumed(&mut world, &mut session, &spool, uid, MAX_DOCUMENT_BYTES).unwrap().unwrap(),
        body
    );

    acknowledge(&mut world, &mut session, &spool, uid, b"ack-one").unwrap();
    assert_eq!(
        acknowledged(&mut world, &mut session, &spool, uid, 64).unwrap().unwrap(),
        b"ack-one"
    );
    assert_eq!(
        acknowledge(&mut world, &mut session, &spool, uid, b"ack-two").unwrap_err().code,
        "already_exists"
    );
    assert_eq!(
        acknowledged(&mut world, &mut session, &spool, uid, 64).unwrap().unwrap(),
        b"ack-one"
    );
    let replay = |world: &mut World, session: &mut Session, body: &[u8]| {
        drive(world, session, |replies| {
            write_replay_ack_new(replies, &spool.bridge, uid, body)
        })
    };
    replay(&mut world, &mut session, b"replay-one").unwrap();
    assert_eq!(
        replay(&mut world, &mut session, b"replay-two").unwrap_err().code,
        "already_exists"
    );

    for body in ["heartbeat-one", "heartbeat-two"] {
        drive(&mut world, &mut session, |replies| {
            write_heartbeat(replies, &spool.bridge, body.as_bytes())
        })
        .unwrap();
    }
    let dir = spool.bridge.instance_dir();
    assert_eq!(
        drive(&mut world, &mut session, |replies| {
            Ok(read_document(replies, 0, &dir, "heartbeat.json", 64, EUID)?.0.cloned())
        })
        .unwrap()
        .unwrap(),
        b"heartbeat-two"
    );
    for path in [
        format!("{}/consumed/req-{uid}.json", dir.path),
        format!("{}/acks/ack-{uid}.json", dir.path),
        format!("{}/heartbeat.json", dir.path),
    ] {
        assert_eq!(world.mode(&path) & 0o777, 0o600);
    }
}

#[test]
fn lifecycle_completion_requires_exact_consumed_ack_and_is_one_use() {
    let mut world = World::new();
    let base = bridge_base(&mut world, "base", &[7; 32]);
    let (mut session, mut spool) =
        open_spool(&mut world, &base, "gui-completion", 61, "start-61").unwrap();
    let uid = "41234567-89ab-4def-8123-456789abcdef";
    let (request, ack) =
        signed_finish_documents(&spool, uid, NOW, NOW + 10, NOW, 61, "start-61", "quit");
    publish_request(&mut world, &mut session, &spool, uid, &request);
    let (observed_uid, _) =
        next(&mut world, &mut session, &spool, MAX_DOCUMENT_BYTES).unwrap().unwrap();
    assert_eq!(observed_uid, uid);
    consume(&mut world, &mut session, &spool, uid).unwrap();
    acknowledge(&mut world, &mut session, &spool, uid, &ack).unwrap();

    complete(&mut world, &mut session, &mut spool, uid, "quit").unwrap();
    let dir = spool.bridge.dir_below(Slot::Acks, "acks");
    assert!(drive(&mut world, &mut session, |replies| {
        Ok(read_document(replies, 0, &dir, &format!("completion-{uid}.json"), 1024, EUID)?
            .0
            .cloned())
    })
    .unwrap()
    .is_some());
    assert_eq!(
        complete(&mut world, &mut session, &mut spool, uid, "quit").unwrap_err().code,
        "completion_replayed"
    );
    spool.proofs = TextSet::new();
    assert_eq!(
        complete(&mut world, &mut session, &mut spool, uid, "quit").unwrap_err().code,
        "completion_replayed"
    );
}

#[test]
fn lifecycle_completion_rejects_stale_incarnation_and_expired_proof() {
    let mut world = World::new();
    let base = bridge_base(&mut world, "base", &[7; 32]);
    let (mut session, mut spool) =
        open_spool(&mut world, &base, "gui-completion-stale", 62, "start-62").unwrap();

    let stale_uid = "51234567-89ab-4def-8123-456789abcdef";
    let (request, ack) = signed_finish_documents(
        &spool,
        stale_uid,
        NOW,
        NOW + 10,
        NOW,
        999,
        "different-start",
        "quit",
    );
    publish_request(&mut world, &mut session, &spool, stale_uid, &request);
    next(&mut world, &mut session, &spool, MAX_DOCUMENT_BYTES).unwrap().unwrap();
    consume(&mut world, &mut session, &spool, stale_uid).unwrap();
    acknowledge(&mut world, &mut session, &spool, stale_uid, &ack).unwrap();
    assert_eq!(
        complete(&mut world, &mut session, &mut spool, stale_uid, "quit").unwrap_err().code,
        "completion_proof_invalid"
    );

    let expired_uid = "61234567-89ab-4def-8123-456789abcdef";
    let (request, ack) = signed_finish_documents(
        &spool,
        expired_uid,
        NOW - 20,
        NOW - 10,
        NOW - 10,
        62,
        "start-62",
        "quit",
    );
    publish_request(&mut world, &mut session, &spool, expired_uid, &request);
    next(&mut world, &mut session, &spool, MAX_DOCUMENT_BYTES).unwrap().unwrap();
    consume(&mut world, &mut session, &spool, expired_uid).unwrap();
    acknowledge(&mut world, &mut session, &spool, expired_uid, &ack).unwrap();
    assert_eq!(
        complete(&mut world, &mut session, &mut spool, expired_uid, "quit").unwrap_err().code,
        "completion_proof_invalid"
    );
}

#[test]
fn corrupt_consumed_evidence_is_never_replaced_or_redispatched() {
    let mut world = World::new();
    let base = bridge_base(&mut world, "base", &[7; 32]);
    let (mut session, spool) = open_spool(&mut world, &base, "gui-corrupt", 56, "start").unwrap();
    let uid = "11234567-89ab-4def-8123-456789abcdef";
    let dir = spool.bridge.dir_below(Slot::Consumed, "consumed");
    new_document(&mut world, &mut session, &dir, &format!("req-{uid}.json"), b"not-json").unwrap();
    publish_request(&mut world, &mut session, &spool, uid, b"valid-new-request");

    assert_eq!(
        consume(&mut world, &mut session, &spool, uid).unwrap_err().code,
        "already_consumed"
    );
    assert_eq!(
        consumed(&mut world, &mut session, &spool, uid, 64).unwrap().unwrap(),
        b"not-json"
    );
    let (_, still_pending) = next(&mut world, &mut session, &spool, 64).unwrap().unwrap();
    assert_eq!(still_pending, b"valid-new-request");
    discard(&mut world, &mut session, &spool, uid).unwrap();
    assert!(next(&mut world, &mut session, &spool, 64).unwrap().is_none());
    assert_eq!(
        consumed(&mut world, &mut session, &spool, uid, 64).unwrap().unwrap(),
        b"not-json"
    );
}

#[test]
fn request_inode_swap_and_lease_replacement_fail_closed() {
    let mut world = World::new();
    let base = bridge_base(&mut world, "base", &[7; 32]);
    let (mut session, spool) = open_spool(&mut world, &base, "gui-race", 59, "start").unwrap();
    let uid = "31234567-89ab-4def-8123-456789abcdef";
    publish_request(&mut world, &mut session, &spool, uid, b"observed-request");
    let (_, observed) = next(&mut world, &mut session, &spool, 64).unwrap().unwrap();
    assert_eq!(observed, b"observed-request");

    let requests = spool.bridge.dir_below(Slot::Requests, "requests");
    world.remove(&requests.path, &format!("req-{uid}.json"));
    publish_request(&mut world, &mut session, &spool, uid, b"replacement-request");
    assert_eq!(
        consume(&mut world, &mut session, &spool, uid).unwrap_err().code,
        "request_changed"
    );
    assert!(consumed(&mut world, &mut session, &spool, uid, 64).unwrap().is_none());

    let dir = spool.bridge.instance_dir();
    world.remove(&dir.path, LEASE_FILE);
    new_document(&mut world, &mut session, &dir, LEASE_FILE, b"replacement-lease").unwrap();
    assert_eq!(
        next(&mut world, &mut session, &spool, 64).unwrap_err().code,
        "lease_lost"
    );
}

#[test]
fn symlink_and_oversize_inputs_fail_closed() {
    let mut world = World::new();
    let base = bridge_base(&mut world, "base", &[7; 32]);
    let (mut session, spool) = open_spool(&mut world, &base, "gui-hostile", 57, "start").unwrap();
    let uid = "21234567-89ab-4def-8123-456789abcdef";
    let root = world.at("/base");
    world.make(root, "target", Thing::File(b"target".to_vec()), 0o644);
    let requests = spool.bridge.dir_below(Slot::Requests, "requests");
    let node = world.at(&requests.path);
    let name = format!("req-{uid}.json");
    world.make(node, &name, Thing::Link("/base/target".to_string()), 0o777);
    assert_eq!(
        next(&mut world, &mut session, &spool, 64).unwrap_err().code,
        "unsafe_file"
    );
    world.remove(&requests.path, &name);

    publish_request(&mut world, &mut session, &spool, uid, &vec![b'x'; 65]);
    let (_, body) = next(&mut world, &mut session, &spool, 64).unwrap().unwrap();
    assert_eq!(body.len(), 65, "one-byte overflow sentinel is preserved");
    consume(&mut world, &mut session, &spool, uid).unwrap();
    assert_eq!(
        consumed(&mut world, &mut session, &spool, uid, 64).unwrap_err().code,
        "message_too_large"
    );
}

#[test]
fn context_reads_are_descriptor_relative_and_bounded() {
    let mut world = World::new();
    let base = bridge_base(&mut world, "base", &[7; 32]);
    let (mut session, spool) = open_spool(&mut world, &base, "gui-context", 58, "start").unwrap();
    let dir = spool.bridge.dir_below(Slot::Context, "context");
    new_document(&mut world, &mut session, &dir, "42.json", b"context").unwrap();
    let context = |world: &mut World, session: &mut Session, pane: u64, maximum: usize| {
        drive(world, session, |replies| {
            Ok(read_context(replies, &spool.bridge, pane, maximum)?.0.cloned())
        })
    };
    assert_eq!(
        context(&mut world, &mut session, 42, 64).unwrap().unwrap(),
        b"context"
    );
    assert!(context(&mut world, &mut session, 43, 64).unwrap().is_none());
    assert_eq!(
        context(&mut world, &mut session, 42, 3).unwrap_err().code,
        "message_too_large"
    );
}

#[test]
fn requests_come_in_the_order_of_their_identifiers() {
    let mut world = World::new();
    let base = bridge_base(&mut world, "base", &[7; 32]);
    let (mut session, spool) = open_spool(&mut world, &base, "gui-order", 58, "start").unwrap();
    let uids = [
        "01234567-89ab-4def-8123-456789abcdef",
        "21234567-89ab-4def-8123-456789abcdef",
        "71234567-89ab-4def-8123-456789abcdef",
    ];
    for uid in [uids[2], uids[0], uids[1]] {
        publish_request(&mut world, &mut session, &spool, uid, uid.as_bytes());
    }
    for uid in uids {
        let (found, body) = next(&mut world, &mut session, &spool, 64).unwrap().unwrap();
        assert_eq!(found, uid);
        assert_eq!(body, uid.as_bytes());
        consume(&mut world, &mut session, &spool, uid).unwrap();
    }
    assert!(next(&mut world, &mut session, &spool, 64).unwrap().is_none());
    assert_eq!(
        consume(&mut world, &mut session, &spool, uids[0]).unwrap_err().code,
        "request_disappeared"
    );
    assert_eq!(
        discard(&mut world, &mut session, &spool, uids[0]).unwrap_err().code,
        "request_disappeared"
    );
    publish_request(&mut world, &mut session, &spool, "81234567-89ab-4def-8123-456789abcdef", b"x");
    assert_eq!(
        discard(&mut world, &mut session, &spool, "81234567-89ab-4def-8123-456789abcdef")
            .unwrap_err()
            .code,
        "request_unobserved"
    );
}

#[test]
fn a_document_is_replaced_or_refused_as_asked() {
    let mut world = World::new();
    let base = bridge_base(&mut world, "base", &[7; 32]);
    let mut session = world.session();
    let root = drive(&mut world, &mut session, |replies| {
        Ok(open_bridge_base(replies, 0, &base, EUID)?.0)
    })
    .unwrap();
    let dir = drive(&mut world, &mut session, |replies| {
        Ok(bridge_child(replies, 0, &root, "dmux", Slot::Runtime, EUID)?.0)
    })
    .unwrap();
    for body in ["one", "two"] {
        drive(&mut world, &mut session, |replies| {
            write_replace_atomic(replies, 0, &dir, "a.json", body.as_bytes(), EUID)
        })
        .unwrap();
    }
    assert_eq!(world.bytes("/base/dmux/a.json"), b"two");
    assert_eq!(
        new_document(&mut world, &mut session, &dir, "a.json", b"three").unwrap_err().code,
        "already_exists"
    );
    assert_eq!(world.bytes("/base/dmux/a.json"), b"two");
    let large = vec![0; MAX_DOCUMENT_BYTES + 1];
    assert_eq!(
        new_document(&mut world, &mut session, &dir, "b.json", &large).unwrap_err().code,
        "message_too_large"
    );
    assert!(!world.there("/base/dmux/b.json"));
    assert_eq!(
        new_document(&mut world, &mut session, &dir, "../b", b"x").unwrap_err().code,
        "invalid_component"
    );
    assert_eq!(
        world.names("/base/dmux").len(),
        2,
        "nothing temporary is left behind"
    );
}

#[test]
fn a_lease_that_another_body_overwrote_is_lost() {
    let mut world = World::new();
    let base = bridge_base(&mut world, "base", &[7; 32]);
    let (mut session, spool) = open_spool(&mut world, &base, "gui-lease", 41, "start-a").unwrap();
    let check = |world: &mut World, session: &mut Session| {
        drive(world, session, |replies| validate_lease_identity(replies, 0, &spool.bridge))
    };
    assert!(check(&mut world, &mut session).is_ok());
    let node = world.at(&format!("{}/{}", spool.bridge.instance_dir().path, LEASE_FILE));
    *world.file(node) = b"{}".to_vec();
    assert_eq!(
        check(&mut world, &mut session).unwrap_err().code,
        "lease_lost"
    );
}

#[test]
fn completions_act_only_in_the_managed_process() {
    assert_eq!(plan_completion(true, true, "quit").unwrap(), LifecycleEffect::Terminate);
    assert_eq!(plan_completion(true, true, "hide").unwrap(), LifecycleEffect::Hide);
    assert!(plan_completion(false, true, "quit").is_err());
    assert!(plan_completion(true, false, "quit").is_err());
    assert!(plan_completion(true, true, "other").is_err());
}

#[test]
fn capabilities_are_fixed() {
    let capabilities = bridge_capabilities();
    assert_eq!(capabilities.version, 1);
    assert_eq!(capabilities.max_document_bytes, MAX_DOCUMENT_BYTES);
    assert!(capabilities.descriptor_backed_spool && capabilities.launcher_witness);
}

#[test]
fn fresh_identifiers_are_version_four_and_differ() {
    let first = fresh_identifier();
    let second = fresh_identifier();
    assert_ne!(first, second);
    assert_eq!(first.len(), 36);
    assert_eq!(&first[14..15], "4");
    assert!(dmux::identifier::validate_uid(&first).is_ok());
}

#[test]
fn a_request_that_was_rewritten_in_place_is_neither_consumed_nor_discarded() {
    let mut world = World::new();
    let base = bridge_base(&mut world, "base", &[7; 32]);
    let (mut session, spool) = open_spool(&mut world, &base, "gui-rewrite", 58, "start").unwrap();
    let uid = "01234567-89ab-4def-8123-456789abcdef";
    publish_request(&mut world, &mut session, &spool, uid, b"observed");
    let requests = spool.bridge.dir_below(Slot::Requests, "requests");
    let node = world.at(&format!("{}/req-{uid}.json", requests.path));
    next(&mut world, &mut session, &spool, 64).unwrap().unwrap();
    *world.file(node) = b"replaced".to_vec();
    assert_eq!(
        discard(&mut world, &mut session, &spool, uid).unwrap_err().code,
        "request_changed"
    );
    assert_eq!(world.bytes(&format!("{}/req-{uid}.json", requests.path)), b"replaced");
    next(&mut world, &mut session, &spool, 64).unwrap().unwrap();
    *world.file(node) = b"observed".to_vec();
    assert_eq!(
        consume(&mut world, &mut session, &spool, uid).unwrap_err().code,
        "request_changed"
    );
}

/// Consumes and acknowledges a finish request, and then tries to complete it.
fn try_completion(
    issued_at: u64,
    expiry: u64,
    platform_action: &str,
    change: &dyn Fn(&mut Vec<u8>, &mut Vec<u8>),
) -> Result<(), BridgeFsError> {
    let mut world = World::new();
    let base = bridge_base(&mut world, "base", &[7; 32]);
    let (mut session, mut spool) =
        open_spool(&mut world, &base, "gui-proof", 61, "start-61").unwrap();
    let uid = "41234567-89ab-4def-8123-456789abcdef";
    let (mut request, mut ack) =
        signed_finish_documents(&spool, uid, issued_at, expiry, issued_at, 61, "start-61", "quit");
    change(&mut request, &mut ack);
    publish_request(&mut world, &mut session, &spool, uid, &request);
    next(&mut world, &mut session, &spool, MAX_DOCUMENT_BYTES).unwrap().unwrap();
    consume(&mut world, &mut session, &spool, uid).unwrap();
    acknowledge(&mut world, &mut session, &spool, uid, &ack).unwrap();
    complete(&mut world, &mut session, &mut spool, uid, platform_action)
}

fn replace_text(document: &mut Vec<u8>, from: &str, to: &str) {
    let text = String::from_utf8(document.clone()).unwrap();
    assert!(text.contains(from));
    *document = text.replace(from, to).into_bytes();
}

#[test]
fn a_completion_must_be_authentic_and_in_time() {
    let keep = |_: &mut Vec<u8>, _: &mut Vec<u8>| {};
    assert!(try_completion(NOW, NOW + 10, "quit", &keep).is_ok());
    let code = |change: &dyn Fn(&mut Vec<u8>, &mut Vec<u8>)| {
        try_completion(NOW, NOW + 10, "quit", change).unwrap_err().code
    };
    for change in [
        &(|request: &mut Vec<u8>, _: &mut Vec<u8>| {
            replace_text(request, "cccccccccccccccccccccccccccccccc", "cccccccccccccccccccccccccccccccd")
        }) as &dyn Fn(&mut Vec<u8>, &mut Vec<u8>),
        &|request, _| replace_text(request, "resident_gui", "remote_gui"),
        &|request, _| replace_text(request, "\"phase\":\"finish\"", "\"phase\":\"begin\""),
        &|request, _| replace_text(request, "\"replay_key\"", "\"other_key\""),
        &|request, _| *request = b"not json".to_vec(),
        &|request, _| replace_text(request, "\"finish\"", "null"),
        &|_, ack| replace_text(ack, "\"ok\":true", "\"ok\":false"),
        &|_, ack| replace_text(ack, "\"ok\":true", "\"ok\":true,\"extra\":1"),
        &|_, ack| replace_text(ack, "\"ok\":true", "\"ok\":true,\"already_hidden\":false"),
        &|_, ack| replace_text(ack, "bbbbbbbbbbbbbbbbbbbbbbbbbbbbbbbb", "bbbbbbbbbbbbbbbbbbbbbbbbbbbbbbbc"),
        &|_, ack| *ack = b"[]".to_vec(),
    ] {
        assert_eq!(code(change), "completion_proof_invalid");
    }
    assert_eq!(
        try_completion(NOW, NOW + 11, "quit", &keep).unwrap_err().code,
        "completion_proof_invalid"
    );
    assert_eq!(
        try_completion(NOW, NOW + 10, "hide", &keep).unwrap_err().code,
        "completion_proof_invalid"
    );
    assert_eq!(
        try_completion(NOW, NOW + 10, "restart", &keep).unwrap_err().code,
        "completion_action"
    );
}

#[test]
fn the_complaint_about_an_acknowledgement_is_handed_on() {
    let detail = |change: &dyn Fn(&mut Vec<u8>, &mut Vec<u8>)| {
        try_completion(NOW, NOW + 10, "quit", change).unwrap_err().detail
    };
    assert_eq!(
        detail(&|_, ack| replace_text(ack, "\"ok\":true", "\"ok\":true,\"extra\":1")),
        "primary acknowledgement is not exact finish schema: unknown field `extra`"
    );
    assert_eq!(
        detail(&|_, ack| replace_text(ack, "\"ok\":true", "\"ok\":null")),
        "primary acknowledgement contains a null field"
    );
    assert_eq!(
        detail(&|_, ack| replace_text(ack, "\"ok\":true", "\"ok\":false")),
        "primary acknowledgement does not exactly prove this safe lifecycle completion"
    );
}

#[test]
fn an_acknowledgement_may_be_given_by_place() {
    let by_place = |_: &mut Vec<u8>, ack: &mut Vec<u8>| {
        let value: serde_json::Value = serde_json::from_slice(ack).unwrap();
        let row: Vec<serde_json::Value> = [
            "protocol_version", "uid", "action", "nonce", "ok", "completed_at", "request_sha256",
            "gui_instance", "platform_action",
        ]
        .iter()
        .map(|name| value[*name].clone())
        .collect();
        *ack = serde_json::to_vec(&serde_json::Value::Array(row)).unwrap();
    };
    assert!(try_completion(NOW, NOW + 10, "quit", &by_place).is_ok());
}

#[test]
fn a_completion_without_its_documents_is_missing() {
    let claimant = Claimant {
        uid: "41234567-89ab-4def-8123-456789abcdef",
        instance: "gui",
        pid: 1,
        process_start_token: "start",
        platform_action: "quit",
    };
    let mut proofs = TextSet::new();
    let mut attempt = |consumed: Option<Vec<u8>>, ack: Option<Vec<u8>>, now: Result<u64, String>| {
        consume_lifecycle_completion_proof(consumed, ack, "", claimant, &[7; 32], now, &mut proofs)
            .unwrap_err()
            .code
    };
    assert_eq!(attempt(None, Some(Vec::new()), Ok(NOW)), "completion_proof_missing");
    assert_eq!(attempt(Some(Vec::new()), None, Ok(NOW)), "completion_proof_missing");
}
