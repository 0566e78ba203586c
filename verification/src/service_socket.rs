//! The fixed socket of the managed service: whether it is there, whether it is
//! private, and which process serves it.

use crate::dialogue::{
    ask_anything, ask_done, ask_stat, must_do, must_done, must_give_text, must_text, refuse,
    refuse_io, refused, refused_io, run_of, said_anything, said_done, said_stat, steps_of, Action,
    ActionView, FileKind, Reply, Run, Slot, Stop, StopView,
};
use crate::failure::{failure, io_detail, DescriptorError, Failure, OsErrorKind, OsFailure};
use crate::identifier::{is_component, MAX_JSON_INTEGER};
use crate::private_dir::{
    directory_synced, not_found, require_component, sync_directory, unsafe_component, BasePath, Dir,
    DirView, PERMISSIONS,
};
use crate::process_identity::Platform;
use crate::text::{copy_bytes, join_text, joined};
use vstd::prelude::*;

verus! {

/// The name of the fixed socket.
pub const SOCKET_FILE: &'static str = "wez-dmux.sock";

/// The permission bits of anybody but the owner.
pub const USABLE_BY_OTHERS: u32 = 0o077;

/// The device and the inode of a socket.
pub type SocketIdentity = (u64, u64);

/// A socket that is live: its identity, and the process at its other end.
#[derive(Clone, Copy, Debug, PartialEq, Eq, Structural)]
pub struct SocketWitness {
    pub dev: u64,
    pub ino: u64,
    pub peer_pid: u32,
}

impl View for SocketWitness {
    type V = SocketWitness;

    open spec fn view(&self) -> SocketWitness {
        *self
    }
}

/// The private socket under a name, if there is one.
pub open spec fn socket_found(
    replies: Seq<Reply>,
    at: int,
    dir: DirView,
    name: Seq<char>,
    euid: u32,
) -> Run<Option<SocketIdentity>> {
    let path = joined(dir.path, name);
    if !is_component(name) {
        Err(unsafe_component())
    } else {
        match said_stat(replies, at, ActionView::StatName { dir: dir.slot, name }) {
            Err(stop) => Err(stop),
            Ok((Err(error), at)) => if error.kind == OsErrorKind::NotFound {
                Ok((None, at))
            } else {
                Err(refused_io("socket_unavailable"@, path, error))
            },
            Ok((Ok(stat), at)) => if stat.kind != FileKind::Socket || stat.uid != euid || stat.nlink
                != 1 || (stat.mode & PERMISSIONS) & USABLE_BY_OTHERS != 0 {
                Err(
                    refused(
                        "unsafe_socket"@,
                        path
                            + " must be a singly-linked current-user-owned private Unix socket"@,
                    ),
                )
            } else if stat.dev == 0 || stat.ino == 0 || stat.dev > MAX_JSON_INTEGER || stat.ino
                > MAX_JSON_INTEGER {
                Err(
                    refused(
                        "unsafe_socket"@,
                        "socket device/inode cannot be represented exactly in JSON/Lua"@,
                    ),
                )
            } else {
                Ok((Some((stat.dev, stat.ino)), at))
            },
        }
    }
}

/// Looks for the private socket under a name.
pub fn socket_stat_named(
    replies: &Vec<Reply>,
    at: usize,
    dir: &Dir,
    name: &str,
    euid: u32,
) -> (run: Result<(Option<SocketIdentity>, usize), Stop>)
    ensures
        run_of(run) == socket_found(replies@, at as int, dir@, name@, euid),
{
    require_component(name)?;
    let path = join_text(dir.path.as_str(), name);
    let (asked, at) = ask_stat(
        replies,
        at,
        Action::StatName { dir: dir.slot, name: name.to_owned() },
    )?;
    match asked {
        Err(error) => {
            if not_found(error.kind) {
                Ok((None, at))
            } else {
                Err(refuse_io("socket_unavailable", path.as_str(), error))
            }
        },
        Ok(stat) => {
            let socket = match stat.kind {
                FileKind::Socket => true,
                _ => false,
            };
            if !socket || stat.uid != euid || stat.nlink != 1 || (stat.mode & PERMISSIONS)
                & USABLE_BY_OTHERS != 0 {
                return Err(
                    refuse(
                        "unsafe_socket",
                        path.concat(
                            " must be a singly-linked current-user-owned private Unix socket",
                        ),
                    ),
                );
            }
            if stat.dev == 0 || stat.ino == 0 || stat.dev > MAX_JSON_INTEGER || stat.ino
                > MAX_JSON_INTEGER {
                return Err(
                    refuse(
                        "unsafe_socket",
                        "socket device/inode cannot be represented exactly in JSON/Lua".to_owned(),
                    ),
                );
            }
            Ok((Some((stat.dev, stat.ino)), at))
        },
    }
}

/// A stale socket, moved out of the way once it proved to be the expected one.
/// Another one that turns up there is moved back; none is ever removed.
pub open spec fn socket_quarantined(
    replies: Seq<Reply>,
    at: int,
    dir: DirView,
    expected: SocketIdentity,
    euid: u32,
) -> Result<int, StopView> {
    match must_give_text(replies, at, ActionView::DrawIdentifier) {
        Err(stop) => Err(stop),
        Ok((identifier, at)) => {
            let aside = ".stale-socket-"@ + identifier;
            match must_do(
                replies,
                at,
                ActionView::RenameNoReplace {
                    from_dir: dir.slot,
                    from: SOCKET_FILE@,
                    to_dir: dir.slot,
                    to: aside,
                },
                "socket_changed"@,
                joined(dir.path, SOCKET_FILE@),
            ) {
                Err(stop) => Err(stop),
                Ok(at) => match socket_found(replies, at, dir, aside, euid) {
                    Err(stop) => Err(stop),
                    Ok((moved, at)) => if moved == Some(expected) {
                        directory_synced(replies, at, dir.slot)
                    } else {
                        match said_anything(
                            replies,
                            at,
                            ActionView::RenameNoReplace {
                                from_dir: dir.slot,
                                from: aside,
                                to_dir: dir.slot,
                                to: SOCKET_FILE@,
                            },
                        ) {
                            Err(stop) => Err(stop),
                            Ok(at) => Err(
                                refused(
                                    "socket_changed"@,
                                    "atomic stale-socket quarantine moved a different inode"@,
                                ),
                            ),
                        }
                    },
                },
            }
        },
    }
}

fn is_identity(found: Option<SocketIdentity>, expected: SocketIdentity) -> (same: bool)
    ensures
        same == (found == Some(expected)),
{
    match found {
        Some((dev, ino)) => dev == expected.0 && ino == expected.1,
        None => false,
    }
}

/// Moves a stale socket out of the way.
pub fn quarantine_socket(
    replies: &Vec<Reply>,
    at: usize,
    dir: &Dir,
    expected: SocketIdentity,
    euid: u32,
) -> (run: Result<usize, Stop>)
    ensures
        steps_of(run) == socket_quarantined(replies@, at as int, dir@, expected, euid),
{
    let (identifier, at) = must_text(replies, at, Action::DrawIdentifier)?;
    let aside = ".stale-socket-".to_owned().concat(identifier.as_str());
    let path = join_text(dir.path.as_str(), SOCKET_FILE);
    let at = must_done(
        replies,
        at,
        Action::RenameNoReplace {
            from_dir: dir.slot,
            from: SOCKET_FILE.to_owned(),
            to_dir: dir.slot,
            to: aside.clone(),
        },
        "socket_changed",
        path.as_str(),
    )?;
    let (moved, at) = socket_stat_named(replies, at, dir, aside.as_str(), euid)?;
    if !is_identity(moved, expected) {
        let _at: usize = ask_anything(
            replies,
            at,
            Action::RenameNoReplace {
                from_dir: dir.slot,
                from: aside,
                to_dir: dir.slot,
                to: SOCKET_FILE.to_owned(),
            },
        )?;
        return Err(
            refuse(
                "socket_changed",
                "atomic stale-socket quarantine moved a different inode".to_owned(),
            ),
        );
    }
    sync_directory(replies, at, dir.slot)
}

/// How many bytes the address of a socket holds, with the closing NUL.
pub open spec fn address_capacity(platform: Platform) -> int {
    match platform {
        Platform::Linux => 108,
        Platform::Macos => 104,
    }
}

/// Whether an error says that connecting goes on in the background.
pub open spec fn is_in_progress(platform: Platform, errno: Option<i32>) -> bool {
    match platform {
        Platform::Linux => errno == Some(115i32) || errno == Some(11i32),
        Platform::Macos => errno == Some(36i32) || errno == Some(35i32),
    }
}

/// Whether an error says that nobody serves the socket.
pub open spec fn is_connection_refused(platform: Platform, errno: Option<i32>) -> bool {
    match platform {
        Platform::Linux => errno == Some(111i32),
        Platform::Macos => errno == Some(61i32),
    }
}

fn errno_is(errno: Option<i32>, number: i32) -> (same: bool)
    ensures
        same == (errno == Some(number)),
{
    match errno {
        Some(errno) => errno == number,
        None => false,
    }
}

fn in_progress(platform: Platform, errno: Option<i32>) -> (yes: bool)
    ensures
        yes == is_in_progress(platform, errno),
{
    match platform {
        Platform::Linux => errno_is(errno, 115) || errno_is(errno, 11),
        Platform::Macos => errno_is(errno, 36) || errno_is(errno, 35),
    }
}

/// Whether an error says that nobody serves the socket.
pub fn connection_refused(platform: Platform, errno: Option<i32>) -> (yes: bool)
    ensures
        yes == is_connection_refused(platform, errno),
{
    match platform {
        Platform::Linux => errno_is(errno, 111),
        Platform::Macos => errno_is(errno, 61),
    }
}

/// Why no connection was made: the refusal, and the number of the system error
/// that caused it.
pub struct ConnectFailure {
    pub refusal: Failure,
    pub errno: Option<i32>,
}

/// A failure to connect that no system error caused.
pub open spec fn not_connected(detail: Seq<char>) -> Result<(), ConnectFailure> {
    Err(ConnectFailure { refusal: failure("socket_unavailable"@, detail), errno: None })
}

/// A failure to connect that a system error caused.
pub open spec fn not_connected_io(context: Seq<char>, error: OsFailure) -> Result<
    (),
    ConnectFailure,
> {
    Err(
        ConnectFailure {
            refusal: failure("socket_unavailable"@, io_detail(context, error.text@)),
            errno: error.errno,
        },
    )
}

/// The view of a connection, or of why there is none.
pub open spec fn connection_of(connected: Result<(), DescriptorError>) -> Result<
    (),
    ConnectFailure,
> {
    match connected {
        Ok(()) => Ok(()),
        Err(error) => Err(ConnectFailure { refusal: error@, errno: error.errno }),
    }
}

/// How long connecting may take, in milliseconds.
pub const CONNECT_MILLIS: u64 = 250;

/// The time to wait for a socket: the time that is left in whole milliseconds,
/// and at least one.
pub open spec fn poll_timeout(nanos: u64) -> i32 {
    let millis = nanos as int / 1_000_000;
    if millis < 1 {
        1
    } else if millis > i32::MAX {
        i32::MAX
    } else {
        millis as i32
    }
}

fn timeout_of(nanos: u64) -> (timeout: i32)
    ensures
        timeout == poll_timeout(nanos),
{
    let millis: u64 = nanos / 1_000_000;
    if millis < 1 {
        1
    } else if millis > 0x7fff_ffff {
        0x7fff_ffff
    } else {
        millis as i32
    }
}

/// A socket that is connecting, once it became writable. An interrupted wait is
/// taken up again with the time that is left.
pub open spec fn became_writable(replies: Seq<Reply>, at: int) -> Run<Result<(), ConnectFailure>>
    decreases replies.len() - at,
{
    if at >= replies.len() {
        Err(StopView::Await(ActionView::RemainingTime))
    } else {
        match replies[at] {
            Reply::Number(nanos) => if nanos == 0 {
                Ok((not_connected("timed out connecting to fixed socket"@), at + 1))
            } else if at + 1 >= replies.len() {
                Err(
                    StopView::Await(
                        ActionView::PollWritable {
                            slot: Slot::Connection,
                            timeout: poll_timeout(nanos),
                        },
                    ),
                )
            } else {
                match replies[at + 1] {
                    Reply::Flag(true) => Ok((Ok(()), at + 2)),
                    Reply::Flag(false) => Ok(
                        (not_connected("timed out connecting to fixed socket"@), at + 2),
                    ),
                    Reply::Failed(error) => if error.kind == OsErrorKind::Interrupted {
                        became_writable(replies, at + 2)
                    } else {
                        Ok((not_connected_io("poll(fixed socket)"@, error), at + 2))
                    },
                    _ => Err(StopView::Misfit),
                }
            },
            _ => Err(StopView::Misfit),
        }
    }
}

fn unconnected(detail: &str) -> (result: Result<(), DescriptorError>)
    ensures
        connection_of(result) == not_connected(detail@),
{
    Err(DescriptorError::new("socket_unavailable", detail.to_owned()))
}

fn unconnected_io(context: &str, error: &OsFailure) -> (result: Result<(), DescriptorError>)
    ensures
        connection_of(result) == not_connected_io(context@, *error),
{
    Err(DescriptorError::io("socket_unavailable", context, error))
}

/// How far connecting has come.
pub open spec fn connecting_of(run: Result<(Result<(), DescriptorError>, usize), Stop>) -> Run<
    Result<(), ConnectFailure>,
> {
    match run {
        Ok((connected, at)) => Ok((connection_of(connected), at as int)),
        Err(stop) => Err(stop@),
    }
}

fn wait_writable(replies: &Vec<Reply>, at: usize) -> (run: Result<
    (Result<(), DescriptorError>, usize),
    Stop,
>)
    ensures
        connecting_of(run) == became_writable(replies@, at as int),
    decreases replies@.len() - at,
{
    if at >= replies.len() {
        return Err(Stop::Await(Action::RemainingTime));
    }
    let nanos: u64 = match &replies[at] {
        Reply::Number(nanos) => *nanos,
        _ => {
            return Err(Stop::Misfit);
        },
    };
    if nanos == 0 {
        return Ok((unconnected("timed out connecting to fixed socket"), at + 1));
    }
    if at + 1 >= replies.len() {
        return Err(
            Stop::Await(
                Action::PollWritable { slot: Slot::Connection, timeout: timeout_of(nanos) },
            ),
        );
    }
    match &replies[at + 1] {
        Reply::Flag(ready) => {
            if *ready {
                Ok((Ok(()), at + 2))
            } else {
                Ok((unconnected("timed out connecting to fixed socket"), at + 2))
            }
        },
        Reply::Failed(error) => {
            let interrupted = match error.kind {
                OsErrorKind::Interrupted => true,
                _ => false,
            };
            if interrupted {
                wait_writable(replies, at + 2)
            } else {
                Ok((unconnected_io("poll(fixed socket)", error), at + 2))
            }
        },
        _ => Err(Stop::Misfit),
    }
}

/// A connection that was made in the background, or the error that was pending.
pub open spec fn settled(replies: Seq<Reply>, at: int, display: Seq<char>) -> Run<
    Result<(), ConnectFailure>,
> {
    if at >= replies.len() {
        Err(StopView::Await(ActionView::PendingError { slot: Slot::Connection }))
    } else {
        match replies[at] {
            Reply::Done => Ok((Ok(()), at + 1)),
            Reply::Pending(error) => Ok((not_connected_io(display, error), at + 1)),
            Reply::Failed(error) => Ok((not_connected_io("getsockopt(SO_ERROR)"@, error), at + 1)),
            _ => Err(StopView::Misfit),
        }
    }
}

fn settle(replies: &Vec<Reply>, at: usize, display: &str) -> (run: Result<
    (Result<(), DescriptorError>, usize),
    Stop,
>)
    ensures
        connecting_of(run) == settled(replies@, at as int, display@),
{
    if at >= replies.len() {
        return Err(Stop::Await(Action::PendingError { slot: Slot::Connection }));
    }
    match &replies[at] {
        Reply::Done => Ok((Ok(()), at + 1)),
        Reply::Pending(error) => Ok((unconnected_io(display, error), at + 1)),
        Reply::Failed(error) => Ok((unconnected_io("getsockopt(SO_ERROR)", error), at + 1)),
        _ => Err(Stop::Misfit),
    }
}

/// A connection to a socket, or why there is none. It waits no longer than the
/// deadline.
pub open spec fn connected(replies: Seq<Reply>, at: int, path: BasePath, platform: Platform) -> Run<
    Result<(), ConnectFailure>,
> {
    if path.bytes@.len() == 0 || path.bytes@.len() >= address_capacity(platform) {
        Ok((not_connected("fixed socket path exceeds sockaddr_un"@), at))
    } else {
        match said_done(replies, at, ActionView::OpenSocket { into: Slot::Connection }) {
            Err(stop) => Err(stop),
            Ok((Err(error), at)) => Ok((not_connected_io("socket(AF_UNIX)"@, error), at)),
            Ok((Ok(()), at)) => match said_done(
                replies,
                at,
                ActionView::PrepareSocket { slot: Slot::Connection },
            ) {
                Err(stop) => Err(stop),
                Ok((Err(error), at)) => Ok((not_connected_io("fcntl(service socket)"@, error), at)),
                Ok((Ok(()), at)) => match said_done(
                    replies,
                    at,
                    ActionView::Connect { slot: Slot::Connection, path: path.bytes@ },
                ) {
                    Err(stop) => Err(stop),
                    Ok((Ok(()), at)) => Ok((Ok(()), at)),
                    Ok((Err(error), at)) => if !is_in_progress(platform, error.errno) {
                        Ok((not_connected_io(path.display@, error), at))
                    } else {
                        match said_anything(
                            replies,
                            at,
                            ActionView::SetDeadline { millis: CONNECT_MILLIS },
                        ) {
                            Err(stop) => Err(stop),
                            Ok(at) => match became_writable(replies, at) {
                                Err(stop) => Err(stop),
                                Ok((Err(failed), at)) => Ok((Err(failed), at)),
                                Ok((Ok(()), at)) => settled(replies, at, path.display@),
                            },
                        }
                    },
                },
            },
        }
    }
}

fn capacity(platform: Platform) -> (bytes: usize)
    ensures
        bytes == address_capacity(platform),
{
    match platform {
        Platform::Linux => 108,
        Platform::Macos => 104,
    }
}

/// Connects to a socket, waiting no longer than the deadline.
pub fn connect_unix_bounded(
    replies: &Vec<Reply>,
    at: usize,
    path: &BasePath,
    platform: Platform,
) -> (run: Result<(Result<(), DescriptorError>, usize), Stop>)
    ensures
        connecting_of(run) == connected(replies@, at as int, *path, platform),
{
    if path.bytes.len() == 0 || path.bytes.len() >= capacity(platform) {
        return Ok((unconnected("fixed socket path exceeds sockaddr_un"), at));
    }
    let (opened, at) = ask_done(replies, at, Action::OpenSocket { into: Slot::Connection })?;
    if let Err(error) = opened {
        return Ok((unconnected_io("socket(AF_UNIX)", error), at));
    }
    let (prepared, at) = ask_done(replies, at, Action::PrepareSocket { slot: Slot::Connection })?;
    if let Err(error) = prepared {
        return Ok((unconnected_io("fcntl(service socket)", error), at));
    }
    let (asked, at) = ask_done(
        replies,
        at,
        Action::Connect { slot: Slot::Connection, path: copy_bytes(path.bytes.as_slice()) },
    )?;
    match asked {
        Ok(()) => Ok((Ok(()), at)),
        Err(error) => {
            if !in_progress(platform, error.errno) {
                return Ok((unconnected_io(path.display.as_str(), error), at));
            }
            let at = ask_anything(replies, at, Action::SetDeadline { millis: CONNECT_MILLIS })?;
            let (waited, at) = wait_writable(replies, at)?;
            match waited {
                Err(error) => Ok((Err(error), at)),
                Ok(()) => settle(replies, at, path.display.as_str()),
            }
        },
    }
}

/// The process at the other end of a connection, which must be one of ours.
pub open spec fn peer(replies: Seq<Reply>, at: int, platform: Platform, euid: u32) -> Run<u32> {
    match platform {
        Platform::Linux => if at >= replies.len() {
            Err(StopView::Await(ActionView::PeerCredentials { slot: Slot::Connection }))
        } else {
            match replies[at] {
                Reply::Peer(peer) => if !peer.complete || peer.pid <= 0 || peer.uid != euid {
                    Err(
                        refused(
                            "socket_identity"@,
                            "socket peer credentials are incomplete or not current-user-owned"@,
                        ),
                    )
                } else {
                    Ok((peer.pid as u32, at + 1))
                },
                Reply::Failed(error) => Err(
                    refused_io("socket_identity"@, "getsockopt(SO_PEERCRED)"@, error),
                ),
                _ => Err(StopView::Misfit),
            }
        },
        Platform::Macos => if at >= replies.len() {
            Err(StopView::Await(ActionView::PeerProcess { slot: Slot::Connection }))
        } else {
            match replies[at] {
                Reply::Peer(process) => if at + 1 >= replies.len() {
                    Err(StopView::Await(ActionView::PeerOwner { slot: Slot::Connection }))
                } else {
                    match replies[at + 1] {
                        Reply::Peer(owner) => if process.pid <= 0 || owner.uid != euid {
                            Err(
                                refused(
                                    "socket_identity"@,
                                    "socket peer is not a live current-user process"@,
                                ),
                            )
                        } else {
                            Ok((process.pid as u32, at + 2))
                        },
                        Reply::Failed(error) => Err(
                            refused_io("socket_identity"@, "getpeereid"@, error),
                        ),
                        _ => Err(StopView::Misfit),
                    }
                },
                Reply::Failed(error) => Err(
                    refused_io("socket_identity"@, "getsockopt(LOCAL_PEERPID)"@, error),
                ),
                _ => Err(StopView::Misfit),
            }
        },
    }
}

/// Asks for the process at the other end of a connection.
pub fn peer_pid(replies: &Vec<Reply>, at: usize, platform: Platform, euid: u32) -> (run: Result<
    (u32, usize),
    Stop,
>)
    ensures
        match (run, peer(replies@, at as int, platform, euid)) {
            (Ok((pid, next)), Ok((peer, then))) => pid == peer && next == then,
            (Err(stop), Err(stopped)) => stop@ == stopped,
            _ => false,
        },
{
    match platform {
        Platform::Linux => {
            if at >= replies.len() {
                return Err(Stop::Await(Action::PeerCredentials { slot: Slot::Connection }));
            }
            match &replies[at] {
                Reply::Peer(peer) => {
                    if !peer.complete || peer.pid <= 0 || peer.uid != euid {
                        return Err(
                            refuse(
                                "socket_identity",
                                "socket peer credentials are incomplete or not current-user-owned".to_owned(),
                            ),
                        );
                    }
                    Ok((peer.pid as u32, at + 1))
                },
                Reply::Failed(error) => Err(
                    refuse_io("socket_identity", "getsockopt(SO_PEERCRED)", error),
                ),
                _ => Err(Stop::Misfit),
            }
        },
        Platform::Macos => {
            if at >= replies.len() {
                return Err(Stop::Await(Action::PeerProcess { slot: Slot::Connection }));
            }
            let pid: i32 = match &replies[at] {
                Reply::Peer(process) => process.pid,
                Reply::Failed(error) => {
                    return Err(refuse_io("socket_identity", "getsockopt(LOCAL_PEERPID)", error));
                },
                _ => {
                    return Err(Stop::Misfit);
                },
            };
            if at + 1 >= replies.len() {
                return Err(Stop::Await(Action::PeerOwner { slot: Slot::Connection }));
            }
            match &replies[at + 1] {
                Reply::Peer(owner) => {
                    if pid <= 0 || owner.uid != euid {
                        return Err(
                            refuse(
                                "socket_identity",
                                "socket peer is not a live current-user process".to_owned(),
                            ),
                        );
                    }
                    Ok((pid as u32, at + 2))
                },
                Reply::Failed(error) => Err(refuse_io("socket_identity", "getpeereid", error)),
                _ => Err(Stop::Misfit),
            }
        },
    }
}

/// The live fixed socket and the process that serves it, if it is there. The
/// socket must be the same before and after the connection.
pub open spec fn witnessed(
    replies: Seq<Reply>,
    at: int,
    dir: DirView,
    socket: BasePath,
    required: bool,
    platform: Platform,
    euid: u32,
) -> Run<Option<SocketWitness>> {
    match socket_found(replies, at, dir, SOCKET_FILE@, euid) {
        Err(stop) => Err(stop),
        Ok((None, at)) => if required {
            Err(refused("socket_unavailable"@, "fixed socket is absent"@))
        } else {
            Ok((None, at))
        },
        Ok((Some(before), at)) => match connected(replies, at, socket, platform) {
            Err(stop) => Err(stop),
            Ok((Err(failed), at)) => Err(StopView::Refuse(failed.refusal)),
            Ok((Ok(()), at)) => match peer(replies, at, platform, euid) {
                Err(stop) => Err(stop),
                Ok((pid, at)) => match socket_found(replies, at, dir, SOCKET_FILE@, euid) {
                    Err(stop) => Err(stop),
                    Ok((None, at)) => Err(
                        refused("socket_changed"@, "fixed socket disappeared after connect"@),
                    ),
                    Ok((Some(after), at)) => if before != after {
                        Err(refused("socket_changed"@, "fixed socket changed while connecting"@))
                    } else {
                        Ok(
                            (
                                Some(
                                    SocketWitness { dev: before.0, ino: before.1, peer_pid: pid },
                                ),
                                at,
                            ),
                        )
                    },
                },
            },
        },
    }
}

/// Looks for the live fixed socket and the process that serves it.
pub fn socket_witness(
    replies: &Vec<Reply>,
    at: usize,
    dir: &Dir,
    socket: &BasePath,
    required: bool,
    platform: Platform,
    euid: u32,
) -> (run: Result<(Option<SocketWitness>, usize), Stop>)
    ensures
        run_of(run) == witnessed(replies@, at as int, dir@, *socket, required, platform, euid),
{
    let (found, at) = socket_stat_named(replies, at, dir, SOCKET_FILE, euid)?;
    let before: SocketIdentity = match found {
        Some(identity) => identity,
        None => {
            if required {
                return Err(refuse("socket_unavailable", "fixed socket is absent".to_owned()));
            }
            return Ok((None, at));
        },
    };
    let (made, at) = connect_unix_bounded(replies, at, socket, platform)?;
    if let Err(error) = made {
        return Err(refuse(error.code, error.detail));
    }
    let (pid, at) = peer_pid(replies, at, platform, euid)?;
    let (found, at) = socket_stat_named(replies, at, dir, SOCKET_FILE, euid)?;
    match found {
        None => Err(
            refuse("socket_changed", "fixed socket disappeared after connect".to_owned()),
        ),
        Some(after) => {
            if before.0 != after.0 || before.1 != after.1 {
                return Err(
                    refuse("socket_changed", "fixed socket changed while connecting".to_owned()),
                );
            }
            Ok((Some(SocketWitness { dev: before.0, ino: before.1, peer_pid: pid }), at))
        },
    }
}

/// Moving a stale socket out of the way destroys nothing, whatever the system
/// answers: no name is removed and no rename replaces a file.
pub proof fn law_socket_quarantine_destroys_nothing(
    replies: Seq<Reply>,
    at: int,
    dir: DirView,
    expected: SocketIdentity,
    euid: u32,
)
    ensures
        socket_quarantined(replies, at, dir, expected, euid) matches Err(
            StopView::Await(action),
        ) ==> !(action is Unlink) && !(action is RenameReplace) && !(action is Truncate),
{
}

/// While a connection is awaited, the time that is left is asked for or the
/// socket is waited for, and every such wait is for a positive time.
pub proof fn law_every_wait_has_a_deadline(replies: Seq<Reply>, at: int)
    requires
        0 <= at,
    ensures
        became_writable(replies, at) matches Err(StopView::Await(action)) ==> (action
            is RemainingTime || (action matches ActionView::PollWritable { slot, timeout } && slot
            == Slot::Connection && timeout >= 1)),
    decreases replies.len() - at,
{
    if at + 1 < replies.len() {
        law_every_wait_has_a_deadline(replies, at + 2);
    }
}

/// Where no time is left, the wait ends without a connection.
pub proof fn law_no_time_left_ends_the_wait(replies: Seq<Reply>, at: int)
    requires
        0 <= at < replies.len(),
        replies[at] == Reply::Number(0),
    ensures
        became_writable(replies, at) == Ok::<(Result<(), ConnectFailure>, int), StopView>(
            (not_connected("timed out connecting to fixed socket"@), at + 1),
        ),
{
}

} // verus!
