//! The managed service: the lease that makes it the only one, the socket that
//! it binds before anything else runs, and the hand-over of both.

use crate::dialogue::{
    is_same_object, must_do, must_done, must_stat, must_stat_slot, refuse, refused, same_object,
    steps_of, Access, Action, ActionView, Reply, Slot, Stop, StopView,
};
use crate::failure::Failure;
use crate::json::{json_quoted, quote};
use crate::private_dir::{
    base_opened, child_ensured, directory_synced, ensure_child, file_checked, file_ensured,
    file_opened, open_or_create_private_rw, open_platform_base, open_private_optional,
    sync_directory, validate_private_file, BasePath, Dir, DirView, RUNTIME_DIR,
};
use crate::private_files::{
    remove_private_verified, removed, revalidate_runtime_path, runtime_revalidated,
};
use crate::process_identity::{
    join_bytes, joined_bytes, process_start_token, start_token, Platform,
};
use crate::service_socket::{
    became_writable, connect_unix_bounded, connected, connection_refused, is_connection_refused,
    law_every_wait_has_a_deadline, peer, peer_pid, quarantine_socket, socket_found,
    socket_quarantined, socket_stat_named, SOCKET_FILE,
};
use crate::text::{copy_bytes, decimal, decimal_text, join_text, joined};
use vstd::prelude::*;
use vstd::utf8::encode_utf8;

verus! {

/// The name of the published descriptor.
pub const DESCRIPTOR_FILE: &'static str = "wez-dmux.json";

/// The name of the lease that makes a service the only one.
pub const SERVICE_LEASE_FILE: &'static str = ".wez-dmux-service.lease";

/// Where a service runs: the directory of the platform, the fixed socket below
/// it, the system, the user and the process.
#[derive(Debug)]
pub struct Service {
    pub base: BasePath,
    pub socket: BasePath,
    pub platform: Platform,
    pub euid: u32,
    pub pid: u32,
}

impl Service {
    /// Whether the socket is the fixed one below the directory of the platform.
    pub open spec fn wf(self) -> bool {
        &&& self.socket.bytes@ == joined_bytes(
            joined_bytes(self.base.bytes@, encode_utf8(RUNTIME_DIR@)),
            encode_utf8(SOCKET_FILE@),
        )
        &&& self.socket.display@ == joined(joined(self.base.display@, RUNTIME_DIR@), SOCKET_FILE@)
    }

    /// A service below a directory of the platform.
    pub fn new(base: BasePath, platform: Platform, euid: u32, pid: u32) -> (service: Self)
        ensures
            service.wf(),
            service.base == base,
            service.platform == platform,
            service.euid == euid,
            service.pid == pid,
    {
        let runtime = join_bytes(base.bytes.as_slice(), RUNTIME_DIR.as_bytes());
        let bytes = join_bytes(runtime.as_slice(), SOCKET_FILE.as_bytes());
        let display = join_text(
            join_text(base.display.as_str(), RUNTIME_DIR).as_str(),
            SOCKET_FILE,
        );
        Service { base, socket: BasePath { bytes, display }, platform, euid, pid }
    }

    /// Our directory below that of the platform.
    pub open spec fn runtime(self) -> DirView {
        DirView { slot: Slot::Runtime, path: joined(self.base.display@, RUNTIME_DIR@) }
    }

    /// Our directory below that of the platform.
    pub fn runtime_dir(&self) -> (dir: Dir)
        ensures
            dir@ == self.runtime(),
    {
        Dir { slot: Slot::Runtime, path: join_text(self.base.display.as_str(), RUNTIME_DIR) }
    }
}

/// The lease, once its name proved to stand for the file that is held.
pub open spec fn lease_recognised(
    replies: Seq<Reply>,
    at: int,
    dir: DirView,
    changed: Seq<char>,
    euid: u32,
) -> Result<int, StopView> {
    match file_opened(
        replies,
        at,
        dir,
        SERVICE_LEASE_FILE@,
        Access::Read,
        Slot::CurrentLease,
        euid,
    ) {
        Err(stop) => Err(stop),
        Ok((false, at)) => Err(refused("service_lease_lost"@, "lease path is absent"@)),
        Ok((true, at)) => match must_stat_slot(
            replies,
            at,
            Slot::Lease,
            "service_lease_lost"@,
            "held service lease"@,
        ) {
            Err(stop) => Err(stop),
            Ok((held, at)) => match must_stat_slot(
                replies,
                at,
                Slot::CurrentLease,
                "service_lease_lost"@,
                "current service lease"@,
            ) {
                Err(stop) => Err(stop),
                Ok((current, at)) => if same_object(held, current) {
                    Ok(at)
                } else {
                    Err(refused("service_lease_lost"@, changed))
                },
            },
        },
    }
}

fn recognise_lease(replies: &Vec<Reply>, at: usize, dir: &Dir, changed: &str, euid: u32) -> (run:
    Result<usize, Stop>)
    ensures
        steps_of(run) == lease_recognised(replies@, at as int, dir@, changed@, euid),
{
    let (found, at) = open_private_optional(
        replies,
        at,
        dir,
        SERVICE_LEASE_FILE,
        Access::Read,
        Slot::CurrentLease,
        euid,
    )?;
    if !found {
        return Err(refuse("service_lease_lost", "lease path is absent".to_owned()));
    }
    let (held, at) = must_stat(
        replies,
        at,
        Slot::Lease,
        "service_lease_lost",
        "held service lease",
    )?;
    let (current, at) = must_stat(
        replies,
        at,
        Slot::CurrentLease,
        "service_lease_lost",
        "current service lease",
    )?;
    if !is_same_object(&held, &current) {
        return Err(refuse("service_lease_lost", changed.to_owned()));
    }
    Ok(at)
}

/// What the lease says of the process that holds it.
pub open spec fn lease_body(pid: u32, token: Seq<char>) -> Seq<char> {
    "{\"lease_version\":1,\"pid\":"@ + decimal(pid as nat) + ",\"start_token\":"@ + json_quoted(
        token,
    ) + "}\n"@
}

/// A held lease, filled anew and durable.
pub open spec fn lease_filled(replies: Seq<Reply>, at: int, bytes: Seq<u8>) -> Result<
    int,
    StopView,
> {
    let code = "service_lease_lost"@;
    let context = "write lease"@;
    match must_do(replies, at, ActionView::Truncate { slot: Slot::Lease }, code, context) {
        Err(stop) => Err(stop),
        Ok(at) => match must_do(
            replies,
            at,
            ActionView::Rewind { slot: Slot::Lease },
            code,
            context,
        ) {
            Err(stop) => Err(stop),
            Ok(at) => match must_do(
                replies,
                at,
                ActionView::Write { slot: Slot::Lease, bytes },
                code,
                context,
            ) {
                Err(stop) => Err(stop),
                Ok(at) => must_do(
                    replies,
                    at,
                    ActionView::SyncFile { slot: Slot::Lease },
                    code,
                    context,
                ),
            },
        },
    }
}

fn fill_lease(replies: &Vec<Reply>, at: usize, bytes: Vec<u8>) -> (run: Result<usize, Stop>)
    ensures
        steps_of(run) == lease_filled(replies@, at as int, bytes@),
{
    let at = must_done(
        replies,
        at,
        Action::Truncate { slot: Slot::Lease },
        "service_lease_lost",
        "write lease",
    )?;
    let at = must_done(
        replies,
        at,
        Action::Rewind { slot: Slot::Lease },
        "service_lease_lost",
        "write lease",
    )?;
    let at = must_done(
        replies,
        at,
        Action::Write { slot: Slot::Lease, bytes },
        "service_lease_lost",
        "write lease",
    )?;
    must_done(
        replies,
        at,
        Action::SyncFile { slot: Slot::Lease },
        "service_lease_lost",
        "write lease",
    )
}

/// The lease of the service, locked for this process and signed with its
/// identity.
pub open spec fn lease_acquired(replies: Seq<Reply>, at: int, service: Service) -> Result<
    int,
    StopView,
> {
    let dir = service.runtime();
    match file_ensured(replies, at, dir, SERVICE_LEASE_FILE@, Slot::Lease, service.euid) {
        Err(stop) => Err(stop),
        Ok(at) => match must_do(
            replies,
            at,
            ActionView::LockExclusive { slot: Slot::Lease },
            "duplicate_service"@,
            joined(dir.path, SERVICE_LEASE_FILE@),
        ) {
            Err(stop) => Err(stop),
            Ok(at) => match lease_recognised(
                replies,
                at,
                dir,
                "service lease changed while it was acquired"@,
                service.euid,
            ) {
                Err(stop) => Err(stop),
                Ok(at) => match start_token(
                    replies,
                    at,
                    service.platform,
                    service.pid,
                    service.euid,
                ) {
                    Err(stop) => Err(stop),
                    Ok((token, at)) => match lease_filled(
                        replies,
                        at,
                        encode_utf8(lease_body(service.pid, token)),
                    ) {
                        Err(stop) => Err(stop),
                        Ok(at) => directory_synced(replies, at, dir.slot),
                    },
                },
            },
        },
    }
}

/// Acquires the lease of the service.
pub fn acquire_service_lease(replies: &Vec<Reply>, at: usize, service: &Service) -> (run: Result<
    usize,
    Stop,
>)
    ensures
        steps_of(run) == lease_acquired(replies@, at as int, *service),
{
    let dir = service.runtime_dir();
    let at = open_or_create_private_rw(
        replies,
        at,
        &dir,
        SERVICE_LEASE_FILE,
        Slot::Lease,
        service.euid,
    )?;
    let path = join_text(dir.path.as_str(), SERVICE_LEASE_FILE);
    let at = must_done(
        replies,
        at,
        Action::LockExclusive { slot: Slot::Lease },
        "duplicate_service",
        path.as_str(),
    )?;
    let at = recognise_lease(
        replies,
        at,
        &dir,
        "service lease changed while it was acquired",
        service.euid,
    )?;
    let (token, at) = process_start_token(
        replies,
        at,
        service.platform,
        service.pid,
        service.euid,
    )?;
    let body = "{\"lease_version\":1,\"pid\":".to_owned().concat(
        decimal_text(service.pid as u64).as_str(),
    ).concat(",\"start_token\":").concat(quote(token.as_str()).as_str()).concat("}\n");
    let at = fill_lease(replies, at, copy_bytes(body.as_str().as_bytes()))?;
    sync_directory(replies, at, dir.slot)
}

/// The capability of the service, once its directories and its lease proved to
/// be those that are held.
pub open spec fn service_revalidated(replies: Seq<Reply>, at: int, service: Service) -> Result<
    int,
    StopView,
> {
    match runtime_revalidated(replies, at, service.base, service.euid) {
        Err(stop) => Err(stop),
        Ok(at) => match file_checked(
            replies,
            at,
            Slot::Lease,
            joined(service.runtime().path, SERVICE_LEASE_FILE@),
            service.euid,
        ) {
            Err(stop) => Err(stop),
            Ok(at) => lease_recognised(
                replies,
                at,
                service.runtime(),
                "service lease path no longer names the held locked inode"@,
                service.euid,
            ),
        },
    }
}

/// Checks the capability of the service.
pub fn revalidate_service(replies: &Vec<Reply>, at: usize, service: &Service) -> (run: Result<
    usize,
    Stop,
>)
    ensures
        steps_of(run) == service_revalidated(replies@, at as int, *service),
{
    let at = revalidate_runtime_path(replies, at, &service.base, service.euid)?;
    let dir = service.runtime_dir();
    let path = join_text(dir.path.as_str(), SERVICE_LEASE_FILE);
    let at = validate_private_file(replies, at, Slot::Lease, path.as_str(), service.euid)?;
    recognise_lease(
        replies,
        at,
        &dir,
        "service lease path no longer names the held locked inode",
        service.euid,
    )
}

/// A refusal as one line.
pub open spec fn refusal_line(refusal: Failure) -> Seq<char> {
    "dmux_descriptor_"@ + refusal.code + ": "@ + refusal.detail
}

/// The fixed socket, once it is not there: a stale one is moved out of the way,
/// one that is served or may be served ends the attempt.
pub open spec fn socket_made_absent(replies: Seq<Reply>, at: int, service: Service) -> Result<
    int,
    StopView,
> {
    let dir = service.runtime();
    match service_revalidated(replies, at, service) {
        Err(stop) => Err(stop),
        Ok(at) => match socket_found(replies, at, dir, SOCKET_FILE@, service.euid) {
            Err(stop) => Err(stop),
            Ok((None, at)) => Ok(at),
            Ok((Some(identity), at)) => match connected(
                replies,
                at,
                service.socket,
                service.platform,
            ) {
                Err(stop) => Err(stop),
                Ok((Ok(()), at)) => match peer(replies, at, service.platform, service.euid) {
                    Err(stop) => Err(stop),
                    Ok((pid, at)) => Err(
                        refused(
                            "duplicate_service"@,
                            "fixed mux socket is already served by pid "@ + decimal(pid as nat),
                        ),
                    ),
                },
                Ok((Err(failed), at)) => if !is_connection_refused(
                    service.platform,
                    failed.errno,
                ) {
                    Err(
                        refused(
                            "socket_live_or_unknown"@,
                            "existing fixed socket was not proven stale by ECONNREFUSED: "@
                                + refusal_line(failed.refusal),
                        ),
                    )
                } else {
                    match socket_quarantined(replies, at, dir, identity, service.euid) {
                        Err(stop) => Err(stop),
                        Ok(at) => match service_revalidated(replies, at, service) {
                            Err(stop) => Err(stop),
                            Ok(at) => match socket_found(
                                replies,
                                at,
                                dir,
                                SOCKET_FILE@,
                                service.euid,
                            ) {
                                Err(stop) => Err(stop),
                                Ok((None, at)) => Ok(at),
                                Ok((Some(_), at)) => Err(
                                    refused(
                                        "socket_changed"@,
                                        "fixed socket name was recreated during stale-socket quarantine"@,
                                    ),
                                ),
                            },
                        },
                    }
                },
            },
        },
    }
}

/// Makes sure that the fixed socket is not there.
pub fn prepare_socket_absent(replies: &Vec<Reply>, at: usize, service: &Service) -> (run: Result<
    usize,
    Stop,
>)
    ensures
        steps_of(run) == socket_made_absent(replies@, at as int, *service),
{
    let dir = service.runtime_dir();
    let at = revalidate_service(replies, at, service)?;
    let (found, at) = socket_stat_named(replies, at, &dir, SOCKET_FILE, service.euid)?;
    let identity = match found {
        Some(identity) => identity,
        None => {
            return Ok(at);
        },
    };
    let (made, at) = connect_unix_bounded(replies, at, &service.socket, service.platform)?;
    match made {
        Ok(()) => {
            let (pid, _at) = peer_pid(replies, at, service.platform, service.euid)?;
            Err(
                refuse(
                    "duplicate_service",
                    "fixed mux socket is already served by pid ".to_owned().concat(
                        decimal_text(pid as u64).as_str(),
                    ),
                ),
            )
        },
        Err(error) => {
            if !connection_refused(service.platform, error.errno) {
                return Err(
                    refuse(
                        "socket_live_or_unknown",
                        "existing fixed socket was not proven stale by ECONNREFUSED: ".to_owned().concat(
                            error.to_string().as_str(),
                        ),
                    ),
                );
            }
            let at = quarantine_socket(replies, at, &dir, identity, service.euid)?;
            let at = revalidate_service(replies, at, service)?;
            let (found, at) = socket_stat_named(replies, at, &dir, SOCKET_FILE, service.euid)?;
            if found.is_some() {
                return Err(
                    refuse(
                        "socket_changed",
                        "fixed socket name was recreated during stale-socket quarantine".to_owned(),
                    ),
                );
            }
            Ok(at)
        },
    }
}

/// The service, before it binds: its directories are held, its lease is its
/// own, no stale descriptor is left and the socket is not there.
pub open spec fn initialized(replies: Seq<Reply>, at: int, service: Service) -> Result<
    int,
    StopView,
> {
    match base_opened(replies, at, service.base, Slot::Base, service.euid) {
        Err(stop) => Err(stop),
        Ok((base, at)) => match child_ensured(
            replies,
            at,
            base,
            RUNTIME_DIR@,
            Slot::Runtime,
            service.euid,
        ) {
            Err(stop) => Err(stop),
            Ok((runtime, at)) => match lease_acquired(replies, at, service) {
                Err(stop) => Err(stop),
                Ok(at) => match service_revalidated(replies, at, service) {
                    Err(stop) => Err(stop),
                    Ok(at) => match removed(
                        replies,
                        at,
                        service.runtime(),
                        DESCRIPTOR_FILE@,
                        service.euid,
                    ) {
                        Err(stop) => Err(stop),
                        Ok((_, at)) => socket_made_absent(replies, at, service),
                    },
                },
            },
        },
    }
}

/// Prepares the service for binding.
pub fn initialize_at_base(replies: &Vec<Reply>, at: usize, service: &Service) -> (run: Result<
    usize,
    Stop,
>)
    ensures
        steps_of(run) == initialized(replies@, at as int, *service),
{
    let (base, at) = open_platform_base(replies, at, &service.base, Slot::Base, service.euid)?;
    let (_runtime, at) = ensure_child(
        replies,
        at,
        &base,
        RUNTIME_DIR,
        Slot::Runtime,
        service.euid,
    )?;
    let at = acquire_service_lease(replies, at, service)?;
    let at = revalidate_service(replies, at, service)?;
    let dir = service.runtime_dir();
    let (_stale, at) = remove_private_verified(replies, at, &dir, DESCRIPTOR_FILE, service.euid)?;
    prepare_socket_absent(replies, at, service)
}

/// An acquired lease of the service is locked: its file was locked for this
/// process alone, and the lock was granted.
pub proof fn law_service_lease_is_locked(replies: Seq<Reply>, at: int, service: Service)
    requires
        0 <= at,
        lease_acquired(replies, at, service) is Ok,
    ensures
        exists|k: int|
            at <= k < replies.len() && replies[k] is Done && lease_acquired(
                #[trigger] replies.take(k),
                at,
                service,
            ) == Err::<int, StopView>(
                StopView::Await(ActionView::LockExclusive { slot: Slot::Lease }),
            ),
{
    let dir = service.runtime();
    let k = file_ensured(
        replies,
        at,
        dir,
        SERVICE_LEASE_FILE@,
        Slot::Lease,
        service.euid,
    )->Ok_0;
    let before = replies.take(k);
    assert(file_ensured(before, at, dir, SERVICE_LEASE_FILE@, Slot::Lease, service.euid) == Ok::<
        int,
        StopView,
    >(k));
    assert(lease_acquired(before, at, service) == Err::<int, StopView>(
        StopView::Await(ActionView::LockExclusive { slot: Slot::Lease }),
    ));
}

/// A second service is refused: where the lock is not granted, the service is a
/// duplicate.
pub proof fn law_held_service_lease_refuses_a_second(
    replies: Seq<Reply>,
    at: int,
    service: Service,
    k: int,
)
    requires
        0 <= at <= k < replies.len(),
        lease_acquired(replies.take(k), at, service) == Err::<int, StopView>(
            StopView::Await(ActionView::LockExclusive { slot: Slot::Lease }),
        ),
        replies[k] is Failed,
    ensures
        lease_acquired(replies, at, service) matches Err(StopView::Refuse(refusal))
            && refusal.code == "duplicate_service"@,
{
    let dir = service.runtime();
    let before = replies.take(k);
    assert(file_ensured(before, at, dir, SERVICE_LEASE_FILE@, Slot::Lease, service.euid) == Ok::<
        int,
        StopView,
    >(k));
    assert(file_ensured(replies, at, dir, SERVICE_LEASE_FILE@, Slot::Lease, service.euid) == Ok::<
        int,
        StopView,
    >(k));
}

/// Whether the system said that nobody serves the socket.
pub open spec fn was_refused(replies: Seq<Reply>, platform: Platform) -> bool {
    exists|k: int|
        0 <= k < replies.len() && match #[trigger] replies[k] {
            Reply::Failed(error) => is_connection_refused(platform, error.errno),
            Reply::Pending(error) => is_connection_refused(platform, error.errno),
            _ => false,
        }
}

proof fn lemma_wait_was_refused(replies: Seq<Reply>, at: int, platform: Platform)
    requires
        0 <= at,
    ensures
        became_writable(replies, at) matches Ok((Err(failed), _)) ==> is_connection_refused(
            platform,
            failed.errno,
        ) ==> was_refused(replies, platform),
        became_writable(replies, at) matches Ok((_, next)) ==> next > at,
    decreases replies.len() - at,
{
    if at + 1 < replies.len() {
        lemma_wait_was_refused(replies, at + 2, platform);
        assert(replies[at + 1] == replies[at + 1]);
    }
}

proof fn lemma_connection_was_refused(
    replies: Seq<Reply>,
    at: int,
    path: BasePath,
    platform: Platform,
)
    requires
        0 <= at,
    ensures
        connected(replies, at, path, platform) matches Ok((Err(failed), _))
            ==> is_connection_refused(platform, failed.errno) ==> was_refused(replies, platform),
{
    lemma_wait_was_refused(replies, at + 4, platform);
    if at + 2 < replies.len() {
        assert(replies[at] == replies[at]);
        assert(replies[at + 1] == replies[at + 1]);
        assert(replies[at + 2] == replies[at + 2]);
    }
    if let Ok((Ok(()), next)) = became_writable(replies, at + 4) {
        if next < replies.len() {
            assert(replies[next] == replies[next]);
        }
    }
}

/// Only a socket that is proved to be stale is moved out of the way: nothing is
/// renamed unless the system refused a connection to it.
pub proof fn law_only_a_stale_socket_is_moved(replies: Seq<Reply>, at: int, service: Service)
    requires
        0 <= at,
    ensures
        socket_made_absent(replies, at, service) matches Err(StopView::Await(action)) ==> action
            is RenameNoReplace ==> was_refused(replies, service.platform),
{
    if let Ok(next) = service_revalidated(replies, at, service) {
        if let Ok((Some(_), next)) = socket_found(
            replies,
            next,
            service.runtime(),
            SOCKET_FILE@,
            service.euid,
        ) {
            law_every_wait_has_a_deadline(replies, next + 4);
            lemma_connection_was_refused(replies, next, service.socket, service.platform);
        }
    }
}

} // verus!
