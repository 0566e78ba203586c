//! Publishing the service descriptor, and reading it only after everything it
//! says was proved against the live system.

use crate::descriptor::{
    path_text, path_to_descriptor_string, ready_failure, request_failure, validate_ready_descriptor,
    DescriptorView, PublishRequest, RequestView, ServiceDescriptor, DESCRIPTOR_VERSION,
    MAX_DESCRIPTOR_BYTES,
};
use crate::dialogue::{
    is_same_object, must_do, must_done, must_stat, must_stat_slot, refuse, refused, run_of,
    same_object, steps_of, Access, Action, ActionView, FileStat, Reply, Run, Slot, Stop, StopView,
};
use crate::failure::{failure, Failure};
use crate::private_dir::{
    base_opened, child, child_opened, file_opened, open_platform_base, open_private_optional,
    DirView, RUNTIME_DIR,
};
use crate::private_files::{
    held_read, publish_named_replace, published, read_held_bounded, revalidate_runtime_path,
    runtime_revalidated,
};
use crate::process_identity::{
    boot_id, current_boot_id, process_start_token, start_token,
};
use crate::service::{
    revalidate_service, service_revalidated, Service, DESCRIPTOR_FILE,
};
use crate::service_bind::{require_witness, required_witness, same_witness, ServiceState};
use crate::service_socket::{became_writable, socket_witness, witnessed, SocketWitness};
use crate::text::{
    copy_bytes, decimal, decimal_text, join_text, joined, optional_string, same_bytes, same_text,
};
use vstd::prelude::*;

verus! {

/// What the format `%Y-%m-%dT%H:%M:%SZ` writes of a time in UTC, given in
/// seconds since the epoch, where the calendar reaches that far.
pub uninterp spec fn utc_text(seconds: i64) -> Option<Seq<char>>;

/// Writes a time with `chrono::DateTime::from_timestamp` and
/// `chrono::DateTime::format`. The result is the named text, and `None` where
/// the seconds lie outside the calendar.
#[verifier::external_body]
pub(crate) fn format_utc(seconds: i64) -> (text: Option<String>)
    ensures
        optional_string(text) == utc_text(seconds),
{
    chrono::DateTime::from_timestamp(seconds, 0).map(
        |time| time.format("%Y-%m-%dT%H:%M:%SZ").to_string(),
    )
}

/// The time of publication.
pub open spec fn time_written(replies: Seq<Reply>, at: int) -> Run<Seq<char>> {
    if at >= replies.len() {
        Err(StopView::Await(ActionView::Clock))
    } else {
        match replies[at] {
            Reply::Integer(seconds) => match utc_text(seconds) {
                Some(text) => Ok((text, at + 1)),
                None => Err(StopView::Misfit),
            },
            _ => Err(StopView::Misfit),
        }
    }
}

fn write_time(replies: &Vec<Reply>, at: usize) -> (run: Result<(String, usize), Stop>)
    ensures
        run_of(run) == time_written(replies@, at as int),
{
    if at >= replies.len() {
        return Err(Stop::Await(Action::Clock));
    }
    match &replies[at] {
        Reply::Integer(seconds) => match format_utc(*seconds) {
            Some(text) => Ok((text, at + 1)),
            None => Err(Stop::Misfit),
        },
        _ => Err(Stop::Misfit),
    }
}

/// The live socket of a publisher, if it is there. It must lead to this
/// process, and a ready service must have one.
pub open spec fn publisher_socket(replies: Seq<Reply>, at: int, state: Seq<char>, service: Service) -> Run<
    Option<SocketWitness>,
> {
    match witnessed(
        replies,
        at,
        service.runtime(),
        service.socket,
        false,
        service.platform,
        service.euid,
    ) {
        Err(stop) => Err(stop),
        Ok((Some(witness), at)) => if witness.peer_pid != service.pid {
            Err(
                refused(
                    "socket_identity"@,
                    "fixed socket peer pid "@ + decimal(witness.peer_pid as nat)
                        + " is not publisher pid "@ + decimal(service.pid as nat),
                ),
            )
        } else {
            Ok((Some(witness), at))
        },
        Ok((None, at)) => if state == "ready"@ {
            Err(
                refused(
                    "socket_unavailable"@,
                    "ready publication requires the fixed live service socket"@,
                ),
            )
        } else {
            Ok((None, at))
        },
    }
}

fn find_publisher_socket(replies: &Vec<Reply>, at: usize, state: &str, service: &Service) -> (run:
    Result<(Option<SocketWitness>, usize), Stop>)
    ensures
        run_of(run) == publisher_socket(replies@, at as int, state@, *service),
{
    let dir = service.runtime_dir();
    let (found, at) = socket_witness(
        replies,
        at,
        &dir,
        &service.socket,
        false,
        service.platform,
        service.euid,
    )?;
    match found {
        Some(witness) => {
            if witness.peer_pid != service.pid {
                return Err(
                    refuse(
                        "socket_identity",
                        "fixed socket peer pid ".to_owned().concat(
                            decimal_text(witness.peer_pid as u64).as_str(),
                        ).concat(" is not publisher pid ").concat(
                            decimal_text(service.pid as u64).as_str(),
                        ),
                    ),
                );
            }
            Ok((Some(witness), at))
        },
        None => {
            if same_text(state, "ready") {
                return Err(
                    refuse(
                        "socket_unavailable",
                        "ready publication requires the fixed live service socket".to_owned(),
                    ),
                );
            }
            Ok((None, at))
        },
    }
}

/// The socket of a publisher, proved to be the same as before.
pub open spec fn socket_unchanged(
    replies: Seq<Reply>,
    at: int,
    before: Option<SocketWitness>,
    service: Service,
    missing: Seq<char>,
    changed: Seq<char>,
) -> Result<int, StopView> {
    match before {
        None => Ok(at),
        Some(before) => match required_witness(replies, at, service, "socket_changed"@, missing) {
            Err(stop) => Err(stop),
            Ok((after, at)) => if before == after {
                Ok(at)
            } else {
                Err(refused("socket_changed"@, changed))
            },
        },
    }
}

fn check_socket_unchanged(
    replies: &Vec<Reply>,
    at: usize,
    before: &Option<SocketWitness>,
    service: &Service,
    missing: &str,
    changed: &str,
) -> (run: Result<usize, Stop>)
    ensures
        steps_of(run) == socket_unchanged(
            replies@,
            at as int,
            *before,
            *service,
            missing@,
            changed@,
        ),
{
    match before {
        None => Ok(at),
        Some(before) => {
            let (after, at) = require_witness(replies, at, service, "socket_changed", missing)?;
            if !same_witness(before, &after) {
                return Err(refuse("socket_changed", changed.to_owned()));
            }
            Ok(at)
        },
    }
}

/// The device of a live socket.
pub open spec fn witness_dev(witness: Option<SocketWitness>) -> Option<u64> {
    match witness {
        Some(witness) => Some(witness.dev),
        None => None,
    }
}

/// The inode of a live socket.
pub open spec fn witness_ino(witness: Option<SocketWitness>) -> Option<u64> {
    match witness {
        Some(witness) => Some(witness.ino),
        None => None,
    }
}

/// The process that serves a live socket.
pub open spec fn witness_pid(witness: Option<SocketWitness>) -> Option<u32> {
    match witness {
        Some(witness) => Some(witness.peer_pid),
        None => None,
    }
}

/// The descriptor that a request gives, with what the system says of this
/// process and its socket.
pub open spec fn described(
    replies: Seq<Reply>,
    at: int,
    request: RequestView,
    socket: Option<SocketWitness>,
    service: Service,
) -> Run<DescriptorView> {
    match path_text(service.socket.bytes@) {
        Err(refusal) => Err(StopView::Refuse(refusal)),
        Ok(path) => match start_token(replies, at, service.platform, service.pid, service.euid) {
            Err(stop) => Err(stop),
            Ok((token, at)) => match boot_id(replies, at, service.platform) {
                Err(stop) => Err(stop),
                Ok((boot, at)) => match time_written(replies, at) {
                    Err(stop) => Err(stop),
                    Ok((written_at, at)) => Ok(
                        (
                            DescriptorView {
                                descriptor_version: DESCRIPTOR_VERSION,
                                state: request.state,
                                epoch: request.epoch,
                                pid: service.pid,
                                socket: path,
                                socket_dev: witness_dev(socket),
                                socket_ino: witness_ino(socket),
                                start_token: token,
                                backend_instance_uid: request.backend_instance_uid,
                                boot_nonce: request.boot_nonce,
                                boot_id: boot,
                                written_by: "mux-startup"@,
                                written_at,
                                sentinel_window_id: request.sentinel_window_id,
                                sentinel_tab_id: request.sentinel_tab_id,
                                sentinel_pane_id: request.sentinel_pane_id,
                                sentinel_fallback: request.sentinel_fallback,
                                recovery_generation: request.recovery_generation,
                                recovery_manifest_id: request.recovery_manifest_id,
                                error: request.error,
                            },
                            at,
                        ),
                    ),
                },
            },
        },
    }
}

fn copy_text(text: &Option<String>) -> (copy: Option<String>)
    ensures
        optional_string(copy) == optional_string(*text),
{
    match text {
        Some(text) => Some(text.clone()),
        None => None,
    }
}

fn describe(
    replies: &Vec<Reply>,
    at: usize,
    request: &PublishRequest,
    socket: &Option<SocketWitness>,
    service: &Service,
) -> (run: Result<(ServiceDescriptor, usize), Stop>)
    ensures
        run_of(run) == described(replies@, at as int, request@, *socket, *service),
{
    let path = match path_to_descriptor_string(service.socket.bytes.as_slice()) {
        Ok(path) => path,
        Err(error) => {
            return Err(refuse(error.code, error.detail));
        },
    };
    let (token, at) = process_start_token(
        replies,
        at,
        service.platform,
        service.pid,
        service.euid,
    )?;
    let (boot, at) = current_boot_id(replies, at, service.platform)?;
    let (written_at, at) = write_time(replies, at)?;
    let (dev, ino) = match socket {
        Some(witness) => (Some(witness.dev), Some(witness.ino)),
        None => (None, None),
    };
    let descriptor = ServiceDescriptor {
        descriptor_version: DESCRIPTOR_VERSION,
        state: request.state.clone(),
        epoch: request.epoch.clone(),
        pid: service.pid,
        socket: path,
        socket_dev: dev,
        socket_ino: ino,
        start_token: token,
        backend_instance_uid: copy_text(&request.backend_instance_uid),
        boot_nonce: request.boot_nonce.clone(),
        boot_id: boot,
        written_by: "mux-startup".to_owned(),
        written_at,
        sentinel_window_id: request.sentinel_window_id,
        sentinel_tab_id: request.sentinel_tab_id,
        sentinel_pane_id: request.sentinel_pane_id,
        sentinel_fallback: request.sentinel_fallback,
        recovery_generation: copy_text(&request.recovery_generation),
        recovery_manifest_id: copy_text(&request.recovery_manifest_id),
        error: copy_text(&request.error),
    };
    Ok((descriptor, at))
}

/// A descriptor, written as JSON and closed with a newline.
pub open spec fn encoded(replies: Seq<Reply>, at: int, descriptor: DescriptorView) -> Run<Seq<u8>> {
    if at >= replies.len() {
        Err(StopView::Await(ActionView::EncodeDescriptor { descriptor }))
    } else {
        match replies[at] {
            Reply::Bytes(raw) => Ok((raw@.push(10u8), at + 1)),
            Reply::Unreadable(reason) => Err(refused("invalid_descriptor"@, reason@)),
            _ => Err(StopView::Misfit),
        }
    }
}

fn copy_descriptor(descriptor: &ServiceDescriptor) -> (copy: ServiceDescriptor)
    ensures
        copy@ == descriptor@,
{
    ServiceDescriptor {
        descriptor_version: descriptor.descriptor_version,
        state: descriptor.state.clone(),
        epoch: descriptor.epoch.clone(),
        pid: descriptor.pid,
        socket: descriptor.socket.clone(),
        socket_dev: descriptor.socket_dev,
        socket_ino: descriptor.socket_ino,
        start_token: descriptor.start_token.clone(),
        backend_instance_uid: copy_text(&descriptor.backend_instance_uid),
        boot_nonce: descriptor.boot_nonce.clone(),
        boot_id: descriptor.boot_id.clone(),
        written_by: descriptor.written_by.clone(),
        written_at: descriptor.written_at.clone(),
        sentinel_window_id: descriptor.sentinel_window_id,
        sentinel_tab_id: descriptor.sentinel_tab_id,
        sentinel_pane_id: descriptor.sentinel_pane_id,
        sentinel_fallback: descriptor.sentinel_fallback,
        recovery_generation: copy_text(&descriptor.recovery_generation),
        recovery_manifest_id: copy_text(&descriptor.recovery_manifest_id),
        error: copy_text(&descriptor.error),
    }
}

fn encode(replies: &Vec<Reply>, at: usize, descriptor: &ServiceDescriptor) -> (run: Result<
    (Vec<u8>, usize),
    Stop,
>)
    ensures
        run_of(run) == encoded(replies@, at as int, descriptor@),
{
    if at >= replies.len() {
        return Err(
            Stop::Await(Action::EncodeDescriptor { descriptor: copy_descriptor(descriptor) }),
        );
    }
    match &replies[at] {
        Reply::Bytes(raw) => {
            let mut bytes = copy_bytes(raw.as_slice());
            bytes.push(10);
            Ok((bytes, at + 1))
        },
        Reply::Unreadable(reason) => Err(refuse("invalid_descriptor", reason.clone())),
        _ => Err(Stop::Misfit),
    }
}

/// What was published: the descriptor, its bytes, and the process that serves
/// the socket.
#[derive(Debug)]
pub struct PublishedDescriptor {
    pub descriptor: ServiceDescriptor,
    pub raw: Vec<u8>,
    pub peer_pid: Option<u32>,
}

/// The view of a [`PublishedDescriptor`].
pub struct PublishedView {
    pub descriptor: DescriptorView,
    pub raw: Seq<u8>,
    pub peer_pid: Option<u32>,
}

impl View for PublishedDescriptor {
    type V = PublishedView;

    open spec fn view(&self) -> PublishedView {
        PublishedView { descriptor: self.descriptor@, raw: self.raw@, peer_pid: self.peer_pid }
    }
}

/// A descriptor, published while the socket stayed the same.
pub open spec fn descriptor_installed(
    replies: Seq<Reply>,
    at: int,
    descriptor: DescriptorView,
    socket: Option<SocketWitness>,
    service: Service,
) -> Run<PublishedView> {
    match socket_unchanged(
        replies,
        at,
        socket,
        service,
        "fixed socket disappeared before publication"@,
        "fixed socket identity changed before publication"@,
    ) {
        Err(stop) => Err(stop),
        Ok(at) => match encoded(replies, at, descriptor) {
            Err(stop) => Err(stop),
            Ok((raw, at)) => match published(
                replies,
                at,
                service.runtime(),
                DESCRIPTOR_FILE@,
                raw,
                MAX_DESCRIPTOR_BYTES,
                service.euid,
            ) {
                Err(stop) => Err(stop),
                Ok(at) => match runtime_revalidated(replies, at, service.base, service.euid) {
                    Err(stop) => Err(stop),
                    Ok(at) => match socket_unchanged(
                        replies,
                        at,
                        socket,
                        service,
                        "fixed socket disappeared after publication"@,
                        "fixed socket identity changed after publication"@,
                    ) {
                        Err(stop) => Err(stop),
                        Ok(at) => Ok(
                            (
                                PublishedView { descriptor, raw, peer_pid: witness_pid(socket) },
                                at,
                            ),
                        ),
                    },
                },
            },
        },
    }
}

/// A request, published.
pub open spec fn descriptor_published(
    replies: Seq<Reply>,
    at: int,
    request: RequestView,
    service: Service,
) -> Run<PublishedView> {
    match request_failure(request) {
        Some(refusal) => Err(StopView::Refuse(refusal)),
        None => match publisher_socket(replies, at, request.state, service) {
            Err(stop) => Err(stop),
            Ok((socket, at)) => match described(replies, at, request, socket, service) {
                Err(stop) => Err(stop),
                Ok((descriptor, at)) => descriptor_installed(
                    replies,
                    at,
                    descriptor,
                    socket,
                    service,
                ),
            },
        },
    }
}

fn install_descriptor(
    replies: &Vec<Reply>,
    at: usize,
    descriptor: ServiceDescriptor,
    socket: &Option<SocketWitness>,
    service: &Service,
) -> (run: Result<(PublishedDescriptor, usize), Stop>)
    ensures
        run_of(run) == descriptor_installed(
            replies@,
            at as int,
            descriptor@,
            *socket,
            *service,
        ),
{
    let at = check_socket_unchanged(
        replies,
        at,
        socket,
        service,
        "fixed socket disappeared before publication",
        "fixed socket identity changed before publication",
    )?;
    let (raw, at) = encode(replies, at, &descriptor)?;
    let dir = service.runtime_dir();
    let at = publish_named_replace(
        replies,
        at,
        &dir,
        DESCRIPTOR_FILE,
        raw.as_slice(),
        MAX_DESCRIPTOR_BYTES,
        service.euid,
    )?;
    let at = revalidate_runtime_path(replies, at, &service.base, service.euid)?;
    let at = check_socket_unchanged(
        replies,
        at,
        socket,
        service,
        "fixed socket disappeared after publication",
        "fixed socket identity changed after publication",
    )?;
    let peer_pid: Option<u32> = match socket {
        Some(witness) => Some(witness.peer_pid),
        None => None,
    };
    Ok((PublishedDescriptor { descriptor, raw, peer_pid }, at))
}

/// Publishes a descriptor below the held directories.
pub fn publish_service_descriptor_in(
    replies: &Vec<Reply>,
    at: usize,
    request: &PublishRequest,
    service: &Service,
) -> (run: Result<(PublishedDescriptor, usize), Stop>)
    ensures
        run_of(run) == descriptor_published(replies@, at as int, request@, *service),
{
    if let Err(error) = request.validate() {
        return Err(refuse(error.code, error.detail));
    }
    let (socket, at) = find_publisher_socket(replies, at, request.state.as_str(), service)?;
    let (descriptor, at) = describe(replies, at, request, &socket, service)?;
    install_descriptor(replies, at, descriptor, &socket, service)
}

/// A request, published by a service that was bound early and claimed by its
/// configuration.
pub open spec fn service_descriptor_published(
    replies: Seq<Reply>,
    request: RequestView,
    state: ServiceState,
    service: Service,
) -> Run<PublishedView> {
    if !state.claimed {
        Err(
            refused(
                "bootstrap_required"@,
                "managed service config did not claim the early native bootstrap"@,
            ),
        )
    } else if state.bound_socket is None {
        Err(
            refused(
                "bootstrap_required"@,
                "call dmux_service_bootstrap during service configuration before publication"@,
            ),
        )
    } else {
        match service_revalidated(replies, 0, service) {
            Err(stop) => Err(stop),
            Ok(at) => descriptor_published(replies, at, request, service),
        }
    }
}

/// Publishes the descriptor of the service.
pub fn publish_service_descriptor(
    replies: &Vec<Reply>,
    request: &PublishRequest,
    state: &ServiceState,
    service: &Service,
) -> (run: Result<(PublishedDescriptor, usize), Stop>)
    ensures
        run_of(run) == service_descriptor_published(replies@, request@, *state, *service),
{
    if !state.claimed {
        return Err(
            refuse(
                "bootstrap_required",
                "managed service config did not claim the early native bootstrap".to_owned(),
            ),
        );
    }
    if state.bound_socket.is_none() {
        return Err(
            refuse(
                "bootstrap_required",
                "call dmux_service_bootstrap during service configuration before publication".to_owned(),
            ),
        );
    }
    let at = revalidate_service(replies, 0, service)?;
    publish_service_descriptor_in(replies, at, request, service)
}

/// The descriptor that is read: its file is held open, and this is what the
/// system says of it and what it holds. `None` where there is none.
pub open spec fn descriptor_held(replies: Seq<Reply>, service: Service, maximum: usize) -> Run<
    Option<(FileStat, Seq<u8>)>,
> {
    let path = joined(service.runtime().path, DESCRIPTOR_FILE@);
    match base_opened(replies, 0, service.base, Slot::Base, service.euid) {
        Err(stop) => Err(stop),
        Ok((base, at)) => match child_opened(
            replies,
            at,
            base,
            RUNTIME_DIR@,
            Slot::Runtime,
            service.euid,
        ) {
            Err(stop) => Err(stop),
            Ok((runtime, at)) => match file_opened(
                replies,
                at,
                runtime,
                DESCRIPTOR_FILE@,
                Access::Read,
                Slot::Descriptor,
                service.euid,
            ) {
                Err(stop) => Err(stop),
                Ok((false, at)) => Ok((None, at)),
                Ok((true, at)) => match must_stat_slot(
                    replies,
                    at,
                    Slot::Descriptor,
                    "read_failed"@,
                    path,
                ) {
                    Err(stop) => Err(stop),
                    Ok((stat, at)) => match held_read(
                        replies,
                        at,
                        Slot::Descriptor,
                        path,
                        maximum,
                        service.euid,
                    ) {
                        Err(stop) => Err(stop),
                        Ok((raw, at)) => Ok((Some((stat, raw)), at)),
                    },
                },
            },
        },
    }
}

fn hold_descriptor<'a>(replies: &'a Vec<Reply>, service: &Service, maximum: usize) -> (run: Result<
    (Option<(FileStat, &'a Vec<u8>)>, usize),
    Stop,
>)
    ensures
        match (run, descriptor_held(replies@, *service, maximum)) {
            (Ok((Some((stat, bytes)), next)), Ok((Some((held, raw)), then))) => stat == held
                && bytes@ == raw && next == then,
            (Ok((None, next)), Ok((None, then))) => next == then,
            (Err(stop), Err(stopped)) => stop@ == stopped,
            _ => false,
        },
{
    let (base, at) = open_platform_base(replies, 0, &service.base, Slot::Base, service.euid)?;
    let (runtime, at) = child(replies, at, &base, RUNTIME_DIR, Slot::Runtime, service.euid)?;
    let (found, at) = open_private_optional(
        replies,
        at,
        &runtime,
        DESCRIPTOR_FILE,
        Access::Read,
        Slot::Descriptor,
        service.euid,
    )?;
    if !found {
        return Ok((None, at));
    }
    let path = join_text(runtime.path.as_str(), DESCRIPTOR_FILE);
    let (stat, at) = must_stat(replies, at, Slot::Descriptor, "read_failed", path.as_str())?;
    let (raw, at) = read_held_bounded(
        replies,
        at,
        Slot::Descriptor,
        path.as_str(),
        maximum,
        service.euid,
    )?;
    Ok((Some((stat, raw)), at))
}

/// The descriptor that bytes hold.
pub open spec fn decoded(replies: Seq<Reply>, at: int, raw: Seq<u8>) -> Run<DescriptorView> {
    if at >= replies.len() {
        Err(StopView::Await(ActionView::DecodeDescriptor { raw }))
    } else {
        match replies[at] {
            Reply::Descriptor(descriptor) => Ok((descriptor@, at + 1)),
            Reply::Unreadable(reason) => Err(refused("invalid_descriptor"@, reason@)),
            _ => Err(StopView::Misfit),
        }
    }
}

fn decode<'a>(replies: &'a Vec<Reply>, at: usize, raw: &Vec<u8>) -> (run: Result<
    (&'a ServiceDescriptor, usize),
    Stop,
>)
    ensures
        match (run, decoded(replies@, at as int, raw@)) {
            (Ok((descriptor, next)), Ok((view, then))) => descriptor@ == view && next == then,
            (Err(stop), Err(stopped)) => stop@ == stopped,
            _ => false,
        },
{
    if at >= replies.len() {
        return Err(
            Stop::Await(Action::DecodeDescriptor { raw: copy_bytes(raw.as_slice()) }),
        );
    }
    match &replies[at] {
        Reply::Descriptor(descriptor) => Ok((descriptor, at + 1)),
        Reply::Unreadable(reason) => Err(refuse("invalid_descriptor", reason.clone())),
        _ => Err(Stop::Misfit),
    }
}

/// The live boot and process that a descriptor names.
pub open spec fn incarnation_proved(
    replies: Seq<Reply>,
    at: int,
    descriptor: DescriptorView,
    service: Service,
    stale_boot: Failure,
    stale_process: Failure,
) -> Result<int, StopView> {
    match boot_id(replies, at, service.platform) {
        Err(stop) => Err(stop),
        Ok((boot, at)) => if descriptor.boot_id != boot {
            Err(StopView::Refuse(stale_boot))
        } else {
            match start_token(replies, at, service.platform, descriptor.pid, service.euid) {
                Err(stop) => Err(stop),
                Ok((token, at)) => if descriptor.start_token != token {
                    Err(StopView::Refuse(stale_process))
                } else {
                    Ok(at)
                },
            }
        },
    }
}

fn prove_incarnation(
    replies: &Vec<Reply>,
    at: usize,
    descriptor: &ServiceDescriptor,
    service: &Service,
    boot_code: &'static str,
    boot_detail: &str,
    process_code: &'static str,
    process_detail: &str,
) -> (run: Result<usize, Stop>)
    ensures
        steps_of(run) == incarnation_proved(
            replies@,
            at as int,
            descriptor@,
            *service,
            failure(boot_code@, boot_detail@),
            failure(process_code@, process_detail@),
        ),
{
    let (boot, at) = current_boot_id(replies, at, service.platform)?;
    if !same_text(descriptor.boot_id.as_str(), boot.as_str()) {
        return Err(refuse(boot_code, boot_detail.to_owned()));
    }
    let (token, at) = process_start_token(
        replies,
        at,
        service.platform,
        descriptor.pid,
        service.euid,
    )?;
    if !same_text(descriptor.start_token.as_str(), token.as_str()) {
        return Err(refuse(process_code, process_detail.to_owned()));
    }
    Ok(at)
}

/// The live socket that a descriptor names, served by the process that it
/// names.
pub open spec fn socket_proved(
    replies: Seq<Reply>,
    at: int,
    descriptor: DescriptorView,
    service: Service,
) -> Run<SocketWitness> {
    match required_witness(
        replies,
        at,
        service,
        "socket_unavailable"@,
        "fixed descriptor socket is absent"@,
    ) {
        Err(stop) => Err(stop),
        Ok((witness, at)) => if Some(witness.dev) != descriptor.socket_dev || Some(witness.ino)
            != descriptor.socket_ino {
            Err(
                refused(
                    "socket_identity"@,
                    "descriptor socket dev/inode does not match the fixed live socket"@,
                ),
            )
        } else if witness.peer_pid != descriptor.pid {
            Err(
                refused(
                    "socket_identity"@,
                    "fixed socket peer pid "@ + decimal(witness.peer_pid as nat)
                        + " does not match descriptor pid "@ + decimal(descriptor.pid as nat),
                ),
            )
        } else {
            Ok((witness, at))
        },
    }
}

fn number_is(number: Option<u64>, expected: u64) -> (same: bool)
    ensures
        same == (Some(expected) == number),
{
    match number {
        Some(number) => number == expected,
        None => false,
    }
}

fn prove_socket(
    replies: &Vec<Reply>,
    at: usize,
    descriptor: &ServiceDescriptor,
    service: &Service,
) -> (run: Result<(SocketWitness, usize), Stop>)
    ensures
        run_of(run) == socket_proved(replies@, at as int, descriptor@, *service),
{
    let (witness, at) = require_witness(
        replies,
        at,
        service,
        "socket_unavailable",
        "fixed descriptor socket is absent",
    )?;
    if !number_is(descriptor.socket_dev, witness.dev) || !number_is(
        descriptor.socket_ino,
        witness.ino,
    ) {
        return Err(
            refuse(
                "socket_identity",
                "descriptor socket dev/inode does not match the fixed live socket".to_owned(),
            ),
        );
    }
    if witness.peer_pid != descriptor.pid {
        return Err(
            refuse(
                "socket_identity",
                "fixed socket peer pid ".to_owned().concat(
                    decimal_text(witness.peer_pid as u64).as_str(),
                ).concat(" does not match descriptor pid ").concat(
                    decimal_text(descriptor.pid as u64).as_str(),
                ),
            ),
        );
    }
    Ok((witness, at))
}

/// The refusal of an incarnation that changed while it was proved.
pub open spec fn identity_changed() -> Failure {
    failure(
        "identity_changed"@,
        "boot or process incarnation changed during descriptor verification"@,
    )
}

/// The live service that a descriptor names: the running boot, the live
/// incarnation of the process, and the socket that it serves, all of them
/// proved again at the end.
pub open spec fn service_proved(
    replies: Seq<Reply>,
    at: int,
    descriptor: DescriptorView,
    service: Service,
) -> Result<int, StopView> {
    match incarnation_proved(
        replies,
        at,
        descriptor,
        service,
        failure(
            "stale_boot"@,
            "descriptor boot_id is not the running operating-system boot"@,
        ),
        failure(
            "stale_process"@,
            "descriptor start_token does not match the live pid incarnation"@,
        ),
    ) {
        Err(stop) => Err(stop),
        Ok(at) => match socket_proved(replies, at, descriptor, service) {
            Err(stop) => Err(stop),
            Ok((before, at)) => match incarnation_proved(
                replies,
                at,
                descriptor,
                service,
                identity_changed(),
                identity_changed(),
            ) {
                Err(stop) => Err(stop),
                Ok(at) => match required_witness(
                    replies,
                    at,
                    service,
                    "socket_changed"@,
                    "fixed socket disappeared during verification"@,
                ) {
                    Err(stop) => Err(stop),
                    Ok((after, at)) => if after != before {
                        Err(
                            refused(
                                "socket_changed"@,
                                "fixed socket identity changed during descriptor verification"@,
                            ),
                        )
                    } else {
                        Ok(at)
                    },
                },
            },
        },
    }
}

fn prove_service(
    replies: &Vec<Reply>,
    at: usize,
    descriptor: &ServiceDescriptor,
    service: &Service,
) -> (run: Result<usize, Stop>)
    ensures
        steps_of(run) == service_proved(replies@, at as int, descriptor@, *service),
{
    let at = prove_incarnation(
        replies,
        at,
        descriptor,
        service,
        "stale_boot",
        "descriptor boot_id is not the running operating-system boot",
        "stale_process",
        "descriptor start_token does not match the live pid incarnation",
    )?;
    let (before, at) = prove_socket(replies, at, descriptor, service)?;
    let at = prove_incarnation(
        replies,
        at,
        descriptor,
        service,
        "identity_changed",
        "boot or process incarnation changed during descriptor verification",
        "identity_changed",
        "boot or process incarnation changed during descriptor verification",
    )?;
    let (after, at) = require_witness(
        replies,
        at,
        service,
        "socket_changed",
        "fixed socket disappeared during verification",
    )?;
    if !same_witness(&after, &before) {
        return Err(
            refuse(
                "socket_changed",
                "fixed socket identity changed during descriptor verification".to_owned(),
            ),
        );
    }
    Ok(at)
}

/// The held descriptor, proved to be still the one that its name stands for and
/// to hold the same bytes.
pub open spec fn descriptor_unchanged(
    replies: Seq<Reply>,
    at: int,
    held: FileStat,
    raw: Seq<u8>,
    service: Service,
    maximum: usize,
) -> Result<int, StopView> {
    let code = "descriptor_changed"@;
    match runtime_revalidated(replies, at, service.base, service.euid) {
        Err(stop) => Err(stop),
        Ok(at) => match file_opened(
            replies,
            at,
            service.runtime(),
            DESCRIPTOR_FILE@,
            Access::Read,
            Slot::CurrentDescriptor,
            service.euid,
        ) {
            Err(stop) => Err(stop),
            Ok((false, at)) => Err(refused(code, "descriptor disappeared"@)),
            Ok((true, at)) => match must_stat_slot(
                replies,
                at,
                Slot::CurrentDescriptor,
                code,
                DESCRIPTOR_FILE@,
            ) {
                Err(stop) => Err(stop),
                Ok((current, at)) => if !same_object(held, current) {
                    Err(refused(code, "descriptor path no longer names the held inode"@))
                } else {
                    match must_do(
                        replies,
                        at,
                        ActionView::Rewind { slot: Slot::Descriptor },
                        code,
                        DESCRIPTOR_FILE@,
                    ) {
                        Err(stop) => Err(stop),
                        Ok(at) => match held_read(
                            replies,
                            at,
                            Slot::Descriptor,
                            joined(service.runtime().path, DESCRIPTOR_FILE@),
                            maximum,
                            service.euid,
                        ) {
                            Err(stop) => Err(stop),
                            Ok((again, at)) => if again == raw {
                                Ok(at)
                            } else {
                                Err(
                                    refused(
                                        code,
                                        "descriptor bytes changed during verification"@,
                                    ),
                                )
                            },
                        },
                    }
                },
            },
        },
    }
}

fn check_descriptor_unchanged(
    replies: &Vec<Reply>,
    at: usize,
    held: &FileStat,
    raw: &Vec<u8>,
    service: &Service,
    maximum: usize,
) -> (run: Result<usize, Stop>)
    ensures
        steps_of(run) == descriptor_unchanged(
            replies@,
            at as int,
            *held,
            raw@,
            *service,
            maximum,
        ),
{
    let at = revalidate_runtime_path(replies, at, &service.base, service.euid)?;
    let dir = service.runtime_dir();
    let (found, at) = open_private_optional(
        replies,
        at,
        &dir,
        DESCRIPTOR_FILE,
        Access::Read,
        Slot::CurrentDescriptor,
        service.euid,
    )?;
    if !found {
        return Err(refuse("descriptor_changed", "descriptor disappeared".to_owned()));
    }
    let (current, at) = must_stat(
        replies,
        at,
        Slot::CurrentDescriptor,
        "descriptor_changed",
        DESCRIPTOR_FILE,
    )?;
    if !is_same_object(held, &current) {
        return Err(
            refuse(
                "descriptor_changed",
                "descriptor path no longer names the held inode".to_owned(),
            ),
        );
    }
    let at = must_done(
        replies,
        at,
        Action::Rewind { slot: Slot::Descriptor },
        "descriptor_changed",
        DESCRIPTOR_FILE,
    )?;
    let path = join_text(dir.path.as_str(), DESCRIPTOR_FILE);
    let (again, at) = read_held_bounded(
        replies,
        at,
        Slot::Descriptor,
        path.as_str(),
        maximum,
        service.euid,
    )?;
    if !same_bytes(again.as_slice(), raw.as_slice()) {
        return Err(
            refuse(
                "descriptor_changed",
                "descriptor bytes changed during verification".to_owned(),
            ),
        );
    }
    Ok(at)
}

/// The bytes of the descriptor, if there is one, after everything that it says
/// was proved.
pub open spec fn verified(replies: Seq<Reply>, service: Service, maximum: usize) -> Run<
    Option<Seq<u8>>,
> {
    if maximum == 0 || maximum > MAX_DESCRIPTOR_BYTES {
        Err(
            refused(
                "invalid_limit"@,
                "descriptor limit must be between 1 and "@ + decimal(MAX_DESCRIPTOR_BYTES as nat),
            ),
        )
    } else {
        match descriptor_held(replies, service, maximum) {
            Err(stop) => Err(stop),
            Ok((None, at)) => Ok((None, at)),
            Ok((Some((held, raw)), at)) => match decoded(replies, at, raw) {
                Err(stop) => Err(stop),
                Ok((descriptor, at)) => match ready_failure(
                    descriptor,
                    service.socket.bytes@,
                ) {
                    Some(refusal) => Err(StopView::Refuse(refusal)),
                    None => match service_proved(replies, at, descriptor, service) {
                        Err(stop) => Err(stop),
                        Ok(at) => match descriptor_unchanged(
                            replies,
                            at,
                            held,
                            raw,
                            service,
                            maximum,
                        ) {
                            Err(stop) => Err(stop),
                            Ok(at) => Ok((Some(raw), at)),
                        },
                    },
                },
            },
        }
    }
}

/// Reads the descriptor of the service, and proves everything that it says.
pub fn read_verified_descriptor_at_base<'a>(
    replies: &'a Vec<Reply>,
    service: &Service,
    maximum: usize,
) -> (run: Result<(Option<&'a Vec<u8>>, usize), Stop>)
    ensures
        match (run, verified(replies@, *service, maximum)) {
            (Ok((Some(bytes), next)), Ok((Some(raw), then))) => bytes@ == raw && next == then,
            (Ok((None, next)), Ok((None, then))) => next == then,
            (Err(stop), Err(stopped)) => stop@ == stopped,
            _ => false,
        },
{
    if maximum == 0 || maximum > MAX_DESCRIPTOR_BYTES {
        return Err(
            refuse(
                "invalid_limit",
                "descriptor limit must be between 1 and ".to_owned().concat(
                    decimal_text(MAX_DESCRIPTOR_BYTES as u64).as_str(),
                ),
            ),
        );
    }
    let (found, at) = hold_descriptor(replies, service, maximum)?;
    let (held, raw) = match found {
        Some(pair) => pair,
        None => {
            return Ok((None, at));
        },
    };
    let (descriptor, at) = decode(replies, at, raw)?;
    if let Err(error) = validate_ready_descriptor(descriptor, service.socket.bytes.as_slice()) {
        return Err(refuse(error.code, error.detail));
    }
    let at = prove_service(replies, at, descriptor, service)?;
    let at = check_descriptor_unchanged(replies, at, &held, raw, service, maximum)?;
    Ok((Some(raw), at))
}

/// Whether an action only looks: it creates, writes, renames and removes no
/// file.
pub open spec fn only_looks(action: ActionView) -> bool {
    &&& !(action is Unlink)
    &&& !(action is Truncate)
    &&& !(action is Write)
    &&& !(action is RenameNoReplace)
    &&& !(action is RenameReplace)
    &&& !(action is CreateFile)
    &&& !(action is MakeDirectory)
    &&& !(action is Link)
    &&& !(action is SetMode)
}

proof fn lemma_wait_goes_on(replies: Seq<Reply>, at: int)
    requires
        0 <= at,
    ensures
        match became_writable(replies, at) {
            Ok((_, next)) => at <= next,
            Err(StopView::Await(action)) => only_looks(action),
            _ => true,
        },
    decreases replies.len() - at,
{
    if at + 1 < replies.len() {
        lemma_wait_goes_on(replies, at + 2);
    }
}

proof fn lemma_witness_looks(
    replies: Seq<Reply>,
    at: int,
    service: Service,
    code: Seq<char>,
    missing: Seq<char>,
)
    requires
        0 <= at,
    ensures
        match required_witness(replies, at, service, code, missing) {
            Ok((_, next)) => at <= next,
            Err(StopView::Await(action)) => only_looks(action),
            _ => true,
        },
{
    lemma_wait_goes_on(replies, at + 5);
}

proof fn lemma_incarnation_looks(
    replies: Seq<Reply>,
    at: int,
    descriptor: DescriptorView,
    service: Service,
    stale_boot: Failure,
    stale_process: Failure,
)
    requires
        0 <= at,
    ensures
        match incarnation_proved(replies, at, descriptor, service, stale_boot, stale_process) {
            Ok(next) => at <= next,
            Err(StopView::Await(action)) => only_looks(action),
            _ => true,
        },
{
}

proof fn lemma_service_looks(
    replies: Seq<Reply>,
    at: int,
    descriptor: DescriptorView,
    service: Service,
)
    requires
        0 <= at,
    ensures
        match service_proved(replies, at, descriptor, service) {
            Ok(next) => at <= next,
            Err(StopView::Await(action)) => only_looks(action),
            _ => true,
        },
{
    let stale_boot = failure(
        "stale_boot"@,
        "descriptor boot_id is not the running operating-system boot"@,
    );
    let stale_process = failure(
        "stale_process"@,
        "descriptor start_token does not match the live pid incarnation"@,
    );
    lemma_incarnation_looks(replies, at, descriptor, service, stale_boot, stale_process);
    if let Ok(at) = incarnation_proved(
        replies,
        at,
        descriptor,
        service,
        stale_boot,
        stale_process,
    ) {
        lemma_witness_looks(
            replies,
            at,
            service,
            "socket_unavailable"@,
            "fixed descriptor socket is absent"@,
        );
        if let Ok((_, at)) = socket_proved(replies, at, descriptor, service) {
            lemma_incarnation_looks(
                replies,
                at,
                descriptor,
                service,
                identity_changed(),
                identity_changed(),
            );
            if let Ok(at) = incarnation_proved(
                replies,
                at,
                descriptor,
                service,
                identity_changed(),
                identity_changed(),
            ) {
                lemma_witness_looks(
                    replies,
                    at,
                    service,
                    "socket_changed"@,
                    "fixed socket disappeared during verification"@,
                );
            }
        }
    }
}

/// Reading never changes anything: whatever the system answers, no action of a
/// verified read creates, writes, renames or removes a file.
pub proof fn law_verified_read_only_looks(replies: Seq<Reply>, service: Service, maximum: usize)
    ensures
        verified(replies, service, maximum) matches Err(StopView::Await(action)) ==> only_looks(
            action,
        ),
{
    if let Ok((Some((held, raw)), at)) = descriptor_held(replies, service, maximum) {
        assert(0 <= at);
        if let Ok((descriptor, at)) = decoded(replies, at, raw) {
            lemma_service_looks(replies, at, descriptor, service);
        }
    }
}

/// Whether the answers hold a live descriptor at some place: there the bytes
/// were handed out to be read, they name a ready service on the fixed socket, and
/// what was answered afterwards proves the boot, the process and the socket that
/// they name, twice.
pub open spec fn proved_live(
    replies: Seq<Reply>,
    service: Service,
    maximum: usize,
    raw: Seq<u8>,
    k: int,
) -> bool {
    &&& 0 <= k < replies.len()
    &&& verified(replies.take(k), service, maximum) == Err::<(Option<Seq<u8>>, int), StopView>(
        StopView::Await(ActionView::DecodeDescriptor { raw }),
    )
    &&& replies[k] matches Reply::Descriptor(descriptor) && {
        &&& ready_failure(descriptor@, service.socket.bytes@) is None
        &&& service_proved(replies, k + 1, descriptor@, service) is Ok
    }
}

/// The descriptor that is held depends on nothing that was answered later.
proof fn lemma_held_before(replies: Seq<Reply>, service: Service, maximum: usize, k: int)
    requires
        descriptor_held(replies, service, maximum) matches Ok((Some(_), at)) && at == k,
    ensures
        0 <= k <= replies.len(),
        descriptor_held(replies.take(k), service, maximum) == descriptor_held(
            replies,
            service,
            maximum,
        ),
{
    let before = replies.take(k);
    let path = joined(service.runtime().path, DESCRIPTOR_FILE@);
    if let Ok((base, at)) = base_opened(replies, 0, service.base, Slot::Base, service.euid) {
        if let Ok((runtime, next)) = child_opened(
            replies,
            at,
            base,
            RUNTIME_DIR@,
            Slot::Runtime,
            service.euid,
        ) {
            if let Ok((found, then)) = file_opened(
                replies,
                next,
                runtime,
                DESCRIPTOR_FILE@,
                Access::Read,
                Slot::Descriptor,
                service.euid,
            ) {
                if let Ok((stat, last)) = must_stat_slot(
                    replies,
                    then,
                    Slot::Descriptor,
                    "read_failed"@,
                    path,
                ) {
                    assert(0 <= at <= next <= then <= last <= k <= replies.len());
                    assert(base_opened(before, 0, service.base, Slot::Base, service.euid) == Ok::<
                        (DirView, int),
                        StopView,
                    >((base, at)));
                    assert(child_opened(
                        before,
                        at,
                        base,
                        RUNTIME_DIR@,
                        Slot::Runtime,
                        service.euid,
                    ) == Ok::<(DirView, int), StopView>((runtime, next)));
                    assert(file_opened(
                        before,
                        next,
                        runtime,
                        DESCRIPTOR_FILE@,
                        Access::Read,
                        Slot::Descriptor,
                        service.euid,
                    ) == Ok::<(bool, int), StopView>((found, then)));
                    assert(must_stat_slot(before, then, Slot::Descriptor, "read_failed"@, path)
                        == Ok::<(FileStat, int), StopView>((stat, last)));
                    assert(held_read(
                        before,
                        last,
                        Slot::Descriptor,
                        path,
                        maximum,
                        service.euid,
                    ) == held_read(
                        replies,
                        last,
                        Slot::Descriptor,
                        path,
                        maximum,
                        service.euid,
                    ));
                }
            }
        }
    }
}

/// What a descriptor that is given out went through.
proof fn lemma_given_was_proved(
    replies: Seq<Reply>,
    service: Service,
    maximum: usize,
    raw: Seq<u8>,
    k: int,
)
    requires
        verified(replies, service, maximum) is Ok,
        descriptor_held(replies, service, maximum) matches Ok((Some((_, read)), at)) && at == k
            && read == raw,
    ensures
        0 <= k < replies.len(),
        replies[k] matches Reply::Descriptor(descriptor) && {
            &&& ready_failure(descriptor@, service.socket.bytes@) is None
            &&& service_proved(replies, k + 1, descriptor@, service) is Ok
        },
        verified(replies, service, maximum) matches Ok((Some(given), _)) && given == raw,
        0 < maximum <= MAX_DESCRIPTOR_BYTES,
{
    lemma_held_before(replies, service, maximum, k);
    assert(decoded(replies, k, raw) is Ok);
}

/// The bytes of a descriptor are only given where they were proved to name a
/// live service.
pub proof fn law_verified_descriptor_is_live(replies: Seq<Reply>, service: Service, maximum: usize)
    ensures
        verified(replies, service, maximum) matches Ok((Some(raw), _)) ==> exists|k: int|
            #[trigger] proved_live(replies, service, maximum, raw, k),
{
    if let Ok((Some(given), _)) = verified(replies, service, maximum) {
        if let Ok((Some((held, raw)), k)) = descriptor_held(replies, service, maximum) {
            lemma_held_before(replies, service, maximum, k);
            lemma_given_was_proved(replies, service, maximum, raw, k);
            assert(decoded(replies.take(k), k, raw) == Err::<(DescriptorView, int), StopView>(
                StopView::Await(ActionView::DecodeDescriptor { raw }),
            ));
            assert(proved_live(replies, service, maximum, raw, k));
        }
    }
}

} // verus!
