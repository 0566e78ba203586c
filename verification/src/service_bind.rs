//! Binding the fixed socket early, while the process has one thread, and the
//! hand-over of its listener to the configured server.

use crate::dialogue::{
    ask_anything, ask_done, must_do, must_done, refuse, refuse_io, refused, refused_io, run_of,
    said_anything, said_done, steps_of, Action, ActionView, Reply, Run, Slot, Stop, StopView,
};
use crate::failure::OsFailure;
use crate::managed::UnixDomain;
use crate::path_text::{same_absolute, same_absolute_path};
use crate::private_dir::{directory_synced, sync_directory};
use crate::private_files::{remove_private_verified, removed};
use crate::process_identity::Platform;
use crate::service::{
    initialize_at_base, initialized, prepare_socket_absent, refusal_line, revalidate_service,
    service_revalidated, socket_made_absent, Service, DESCRIPTOR_FILE,
};
use crate::service_socket::{socket_witness, witnessed, SocketWitness, SOCKET_FILE};
use crate::text::{decimal, decimal_text, join_text, joined, same_text};
use vstd::prelude::*;

verus! {

/// The present directory, restored after an error. Where even that fails the
/// process ends at once: it must not go on in a directory that somebody else
/// may have chosen.
pub open spec fn left_after(replies: Seq<Reply>, at: int, context: Seq<char>, error: OsFailure) -> StopView {
    match said_done(replies, at, ActionView::LeaveDirectory) {
        Err(stop) => stop,
        Ok((Ok(()), at)) => refused_io("bind_failed"@, context, error),
        Ok((Err(_), at)) => match said_anything(replies, at, ActionView::Exit { status: 125 }) {
            Err(stop) => stop,
            Ok(_) => refused_io("bind_failed"@, context, error),
        },
    }
}

fn leave_after(replies: &Vec<Reply>, at: usize, context: &str, error: &OsFailure) -> (stop: Stop)
    ensures
        stop@ == left_after(replies@, at as int, context@, *error),
{
    match ask_done(replies, at, Action::LeaveDirectory) {
        Err(stop) => stop,
        Ok((Ok(()), _at)) => refuse_io("bind_failed", context, error),
        Ok((Err(_), at)) => match ask_anything(replies, at, Action::Exit { status: 125 }) {
            Err(stop) => stop,
            Ok(_) => refuse_io("bind_failed", context, error),
        },
    }
}

/// A listener that was bound to the fixed name inside the held directory.
pub open spec fn listener_bound(replies: Seq<Reply>, at: int, service: Service) -> Result<
    int,
    StopView,
> {
    match must_do(
        replies,
        at,
        ActionView::RememberDirectory,
        "bind_failed"@,
        "open current directory"@,
    ) {
        Err(stop) => Err(stop),
        Ok(at) => match must_do(
            replies,
            at,
            ActionView::EnterDirectory { dir: Slot::Runtime },
            "bind_failed"@,
            "enter held dmux runtime directory"@,
        ) {
            Err(stop) => Err(stop),
            Ok(at) => match said_done(
                replies,
                at,
                ActionView::BindListener { name: SOCKET_FILE@ },
            ) {
                Err(stop) => Err(stop),
                Ok((Err(error), at)) => Err(
                    left_after(replies, at, joined(service.runtime().path, SOCKET_FILE@), error),
                ),
                Ok((Ok(()), at)) => match said_done(replies, at, ActionView::LeaveDirectory) {
                    Err(stop) => Err(stop),
                    Ok((Ok(()), at)) => Ok(at),
                    Ok((Err(error), at)) => Err(
                        left_after(replies, at, "restore current directory"@, error),
                    ),
                },
            },
        },
    }
}

fn bind_listener(replies: &Vec<Reply>, at: usize, service: &Service) -> (run: Result<usize, Stop>)
    ensures
        steps_of(run) == listener_bound(replies@, at as int, *service),
{
    let at = must_done(
        replies,
        at,
        Action::RememberDirectory,
        "bind_failed",
        "open current directory",
    )?;
    let at = must_done(
        replies,
        at,
        Action::EnterDirectory { dir: Slot::Runtime },
        "bind_failed",
        "enter held dmux runtime directory",
    )?;
    let (bound, at) = ask_done(
        replies,
        at,
        Action::BindListener { name: SOCKET_FILE.to_owned() },
    )?;
    if let Err(error) = bound {
        let dir = service.runtime_dir();
        let path = join_text(dir.path.as_str(), SOCKET_FILE);
        return Err(leave_after(replies, at, path.as_str(), error));
    }
    let (left, at) = ask_done(replies, at, Action::LeaveDirectory)?;
    match left {
        Ok(()) => Ok(at),
        Err(error) => Err(leave_after(replies, at, "restore current directory", error)),
    }
}

/// A live socket that must be there.
pub open spec fn required_witness(
    replies: Seq<Reply>,
    at: int,
    service: Service,
    code: Seq<char>,
    missing: Seq<char>,
) -> Run<SocketWitness> {
    match witnessed(
        replies,
        at,
        service.runtime(),
        service.socket,
        true,
        service.platform,
        service.euid,
    ) {
        Err(stop) => Err(stop),
        Ok((None, _)) => Err(refused(code, missing)),
        Ok((Some(witness), at)) => Ok((witness, at)),
    }
}

/// Looks for a live socket that must be there.
pub fn require_witness(
    replies: &Vec<Reply>,
    at: usize,
    service: &Service,
    code: &'static str,
    missing: &str,
) -> (run: Result<(SocketWitness, usize), Stop>)
    ensures
        run_of(run) == required_witness(replies@, at as int, *service, code@, missing@),
{
    let dir = service.runtime_dir();
    let (found, at) = socket_witness(
        replies,
        at,
        &dir,
        &service.socket,
        true,
        service.platform,
        service.euid,
    )?;
    match found {
        Some(witness) => Ok((witness, at)),
        None => Err(refuse(code, missing.to_owned())),
    }
}

/// Whether two witnesses are the same.
pub fn same_witness(left: &SocketWitness, right: &SocketWitness) -> (same: bool)
    ensures
        same == (*left == *right),
{
    left.dev == right.dev && left.ino == right.ino && left.peer_pid == right.peer_pid
}

/// The fixed socket, bound by this process and proved to lead to it.
pub open spec fn socket_bound(replies: Seq<Reply>, at: int, service: Service) -> Result<
    int,
    StopView,
> {
    match service_revalidated(replies, at, service) {
        Err(stop) => Err(stop),
        Ok(at) => match socket_made_absent(replies, at, service) {
            Err(stop) => Err(stop),
            Ok(at) => match service_revalidated(replies, at, service) {
                Err(stop) => Err(stop),
                Ok(at) => match listener_bound(replies, at, service) {
                    Err(stop) => Err(stop),
                    Ok(at) => bound_socket_proved(replies, at, service),
                },
            },
        },
    }
}

/// The bound socket, proved to lead to this process and to stay the same.
pub open spec fn bound_socket_proved(replies: Seq<Reply>, at: int, service: Service) -> Result<
    int,
    StopView,
> {
    match service_revalidated(replies, at, service) {
        Err(stop) => Err(stop),
        Ok(at) => match required_witness(
            replies,
            at,
            service,
            "bind_failed"@,
            "bound fixed socket is absent"@,
        ) {
            Err(stop) => Err(stop),
            Ok((before, at)) => if before.peer_pid != service.pid {
                Err(
                    refused(
                        "socket_identity"@,
                        "bound fixed socket does not route to this service process"@,
                    ),
                )
            } else {
                match required_witness(
                    replies,
                    at,
                    service,
                    "socket_changed"@,
                    "bound fixed socket disappeared"@,
                ) {
                    Err(stop) => Err(stop),
                    Ok((after, at)) => if before != after {
                        Err(
                            refused(
                                "socket_changed"@,
                                "bound fixed socket changed before listener handoff"@,
                            ),
                        )
                    } else {
                        match service_revalidated(replies, at, service) {
                            Err(stop) => Err(stop),
                            Ok(at) => directory_synced(replies, at, Slot::Runtime),
                        }
                    },
                }
            },
        },
    }
}

fn prove_bound_socket(replies: &Vec<Reply>, at: usize, service: &Service) -> (run: Result<
    usize,
    Stop,
>)
    ensures
        steps_of(run) == bound_socket_proved(replies@, at as int, *service),
{
    let at = revalidate_service(replies, at, service)?;
    let (before, at) = require_witness(
        replies,
        at,
        service,
        "bind_failed",
        "bound fixed socket is absent",
    )?;
    if before.peer_pid != service.pid {
        return Err(
            refuse(
                "socket_identity",
                "bound fixed socket does not route to this service process".to_owned(),
            ),
        );
    }
    let (after, at) = require_witness(
        replies,
        at,
        service,
        "socket_changed",
        "bound fixed socket disappeared",
    )?;
    if !same_witness(&before, &after) {
        return Err(
            refuse(
                "socket_changed",
                "bound fixed socket changed before listener handoff".to_owned(),
            ),
        );
    }
    let at = revalidate_service(replies, at, service)?;
    sync_directory(replies, at, Slot::Runtime)
}

/// Binds the fixed socket.
pub fn bind_service_socket_early(replies: &Vec<Reply>, at: usize, service: &Service) -> (run:
    Result<usize, Stop>)
    ensures
        steps_of(run) == socket_bound(replies@, at as int, *service),
{
    let at = revalidate_service(replies, at, service)?;
    let at = prepare_socket_absent(replies, at, service)?;
    let at = revalidate_service(replies, at, service)?;
    let at = bind_listener(replies, at, service)?;
    prove_bound_socket(replies, at, service)
}

/// What the process knows of its managed service.
#[derive(Debug)]
pub struct ServiceState {
    /// The socket that was bound, once it was.
    pub bound_socket: Option<SocketWitness>,
    /// Whether the listener was not handed over or dropped yet.
    pub listener: bool,
    /// Whether the configuration claimed the service.
    pub claimed: bool,
    /// Whether the configuration claimed a service that was not there.
    pub missing_attempt: bool,
}

impl ServiceState {
    /// No service.
    pub fn new() -> (state: Self)
        ensures
            state == (ServiceState {
                bound_socket: None,
                listener: false,
                claimed: false,
                missing_attempt: false,
            }),
    {
        ServiceState {
            bound_socket: None,
            listener: false,
            claimed: false,
            missing_attempt: false,
        }
    }
}

/// Whether the configuration asked for a managed service although none was
/// bound before.
pub fn service_bootstrap_missing_prebind_attempted(state: &ServiceState) -> (attempted: bool)
    ensures
        attempted == state.missing_attempt,
{
    state.missing_attempt
}

/// Why an attempt does not go on: the next action, the reason in words, or an
/// answer that does not fit.
#[derive(Debug)]
pub enum ServiceStop {
    Await(Action),
    Failed(String),
    Misfit,
}

/// The view of a [`ServiceStop`].
pub enum ServiceStopView {
    Await(ActionView),
    Failed(Seq<char>),
    Misfit,
}

impl View for ServiceStop {
    type V = ServiceStopView;

    open spec fn view(&self) -> ServiceStopView {
        match *self {
            ServiceStop::Await(action) => ServiceStopView::Await(action@),
            ServiceStop::Failed(text) => ServiceStopView::Failed(text@),
            ServiceStop::Misfit => ServiceStopView::Misfit,
        }
    }
}

/// A stop with its refusal in words.
pub open spec fn in_words(stop: StopView) -> ServiceStopView {
    match stop {
        StopView::Await(action) => ServiceStopView::Await(action),
        StopView::Refuse(refusal) => ServiceStopView::Failed(refusal_line(refusal)),
        StopView::Misfit => ServiceStopView::Misfit,
    }
}

fn put_in_words(stop: Stop) -> (words: ServiceStop)
    ensures
        words@ == in_words(stop@),
{
    match stop {
        Stop::Await(action) => ServiceStop::Await(action),
        Stop::Refuse(refusal) => ServiceStop::Failed(refusal.into_descriptor().to_string()),
        Stop::Misfit => ServiceStop::Misfit,
    }
}

/// The right to take over the bound listener.
#[derive(Debug)]
pub struct ManagedServiceBootstrap {
    pub consumed: bool,
}

/// A sign that the listener was taken over.
#[derive(Debug)]
pub struct ManagedServiceGuard {
    pub taken: bool,
}

/// How the number of threads is asked for.
pub open spec fn thread_context(platform: Platform) -> Seq<char> {
    match platform {
        Platform::Linux => "/proc/self/task"@,
        Platform::Macos => "proc_pidinfo(PROC_PIDTASKINFO)"@,
    }
}

/// The process, once it proved to have a single thread.
pub open spec fn single_threaded(replies: Seq<Reply>, platform: Platform) -> Result<
    int,
    ServiceStopView,
> {
    if replies.len() == 0 {
        Err(ServiceStopView::Await(ActionView::CountThreads))
    } else {
        match replies[0] {
            Reply::Number(threads) => if threads == 1 {
                Ok(1)
            } else {
                Err(
                    ServiceStopView::Failed(
                        "dmux managed service prebind requires one OS thread, found "@ + decimal(
                            threads as nat,
                        ),
                    ),
                )
            },
            Reply::Failed(error) => Err(
                in_words(refused_io("thread_count"@, thread_context(platform), error)),
            ),
            _ => Err(ServiceStopView::Misfit),
        }
    }
}

fn require_single_thread(replies: &Vec<Reply>, platform: Platform) -> (run: Result<
    usize,
    ServiceStop,
>)
    ensures
        match (run, single_threaded(replies@, platform)) {
            (Ok(at), Ok(then)) => at == then,
            (Err(stop), Err(stopped)) => stop@ == stopped,
            _ => false,
        },
{
    if replies.len() == 0 {
        return Err(ServiceStop::Await(Action::CountThreads));
    }
    match &replies[0] {
        Reply::Number(threads) => {
            if *threads == 1 {
                return Ok(1);
            }
            Err(
                ServiceStop::Failed(
                    "dmux managed service prebind requires one OS thread, found ".to_owned().concat(
                        decimal_text(*threads).as_str(),
                    ),
                ),
            )
        },
        Reply::Failed(error) => {
            let context = match platform {
                Platform::Linux => "/proc/self/task",
                Platform::Macos => "proc_pidinfo(PROC_PIDTASKINFO)",
            };
            Err(put_in_words(refuse_io("thread_count", context, error)))
        },
        _ => Err(ServiceStop::Misfit),
    }
}

/// The socket that an early bind leaves behind, or why it does not go on.
pub open spec fn prebound(
    replies: Seq<Reply>,
    already_bound: bool,
    service: Service,
) -> Result<SocketWitness, ServiceStopView> {
    match single_threaded(replies, service.platform) {
        Err(stop) => Err(stop),
        Ok(at) => if already_bound {
            Err(ServiceStopView::Failed("dmux managed service was already prebound"@))
        } else {
            match initialized(replies, at, service) {
                Err(stop) => Err(in_words(stop)),
                Ok(at) => match socket_bound(replies, at, service) {
                    Err(stop) => Err(in_words(stop)),
                    Ok(at) => match witnessed(
                        replies,
                        at,
                        service.runtime(),
                        service.socket,
                        true,
                        service.platform,
                        service.euid,
                    ) {
                        Err(stop) => Err(in_words(stop)),
                        Ok((None, _)) => Err(
                            ServiceStopView::Failed("prebound dmux socket disappeared"@),
                        ),
                        Ok((Some(witness), _)) => Ok(witness),
                    },
                },
            }
        },
    }
}

fn prebind(replies: &Vec<Reply>, already_bound: bool, service: &Service) -> (run: Result<
    SocketWitness,
    ServiceStop,
>)
    ensures
        match (run, prebound(replies@, already_bound, *service)) {
            (Ok(witness), Ok(bound)) => witness == bound,
            (Err(stop), Err(stopped)) => stop@ == stopped,
            _ => false,
        },
{
    let at = require_single_thread(replies, service.platform)?;
    if already_bound {
        return Err(ServiceStop::Failed("dmux managed service was already prebound".to_owned()));
    }
    let at: usize = match initialize_at_base(replies, at, service) {
        Ok(at) => at,
        Err(stop) => {
            return Err(put_in_words(stop));
        },
    };
    let at: usize = match bind_service_socket_early(replies, at, service) {
        Ok(at) => at,
        Err(stop) => {
            return Err(put_in_words(stop));
        },
    };
    let dir = service.runtime_dir();
    match socket_witness(
        replies,
        at,
        &dir,
        &service.socket,
        true,
        service.platform,
        service.euid,
    ) {
        Err(stop) => Err(put_in_words(stop)),
        Ok((None, _)) => Err(ServiceStop::Failed("prebound dmux socket disappeared".to_owned())),
        Ok((Some(witness), _)) => Ok(witness),
    }
}

/// Binds the fixed socket of the managed service, before the configuration is
/// loaded and while the process has one thread. This is the only way to it.
pub fn prebind_dmux_managed_service(
    state: &mut ServiceState,
    service: &Service,
    replies: &Vec<Reply>,
) -> (result: Result<ManagedServiceBootstrap, ServiceStop>)
    ensures
        match (result, prebound(replies@, old(state).bound_socket is Some, *service)) {
            (Ok(bootstrap), Ok(witness)) => !bootstrap.consumed && *final(state) == (ServiceState {
                bound_socket: Some(witness),
                listener: true,
                ..*old(state)
            }),
            (Err(stop), Err(stopped)) => stop@ == stopped && *final(state) == *old(state),
            _ => false,
        },
{
    let witness = prebind(replies, state.bound_socket.is_some(), service)?;
    state.bound_socket = Some(witness);
    state.listener = true;
    Ok(ManagedServiceBootstrap { consumed: false })
}

/// What the loaded configuration says of the server.
#[derive(Debug)]
pub struct ManagedConfig {
    pub dmux_recovery_primitives: bool,
    pub unix_domains: Vec<UnixDomain>,
    pub tls_servers: usize,
}

/// Whether a domain is exactly the socket that was bound.
pub open spec fn is_service_domain(domain: UnixDomain, socket: Seq<u8>) -> bool {
    &&& domain.name@ == "dmux"@
    &&& domain.socket_path is Some
    &&& same_absolute(domain.socket_path->0@, socket)
    &&& domain.no_serve_automatically
    &&& !domain.connect_automatically
    &&& !domain.skip_permissions_check
    &&& domain.serve_command is None
    &&& domain.proxy_command is None
}

fn service_domain(domain: &UnixDomain, socket: &[u8]) -> (yes: bool)
    ensures
        yes == is_service_domain(*domain, socket@),
{
    let bound = match &domain.socket_path {
        Some(path) => same_absolute_path(path.as_slice(), socket),
        None => false,
    };
    same_text(domain.name.as_str(), "dmux") && bound && domain.no_serve_automatically
        && !domain.connect_automatically && !domain.skip_permissions_check
        && domain.serve_command.is_none() && domain.proxy_command.is_none()
}

/// Why a configuration cannot take over the service, as far as it and the state
/// of the process decide.
pub open spec fn configuration_refusal(state: ServiceState, config: ManagedConfig) -> Option<
    Seq<char>,
> {
    if !state.claimed {
        Some("managed mux config did not call wezterm.mux.dmux_service_bootstrap()"@)
    } else if !config.dmux_recovery_primitives {
        Some("managed mux config must enable dmux_recovery_primitives"@)
    } else if config.unix_domains@.len() != 1 {
        Some("managed mux config must declare exactly one Unix domain"@)
    } else if config.tls_servers != 0 {
        Some("managed mux config must not expose TLS listeners"@)
    } else if state.bound_socket is None {
        Some("managed service bootstrap state is absent"@)
    } else {
        None
    }
}

fn check_configuration(state: &ServiceState, config: &ManagedConfig) -> (result: Result<
    SocketWitness,
    ServiceStop,
>)
    ensures
        match result {
            Ok(witness) => configuration_refusal(*state, *config) is None && state.bound_socket
                == Some(witness),
            Err(stop) => configuration_refusal(*state, *config) is Some && stop@
                == ServiceStopView::Failed(configuration_refusal(*state, *config)->0),
        },
{
    if !state.claimed {
        return Err(
            ServiceStop::Failed(
                "managed mux config did not call wezterm.mux.dmux_service_bootstrap()".to_owned(),
            ),
        );
    }
    if !config.dmux_recovery_primitives {
        return Err(
            ServiceStop::Failed(
                "managed mux config must enable dmux_recovery_primitives".to_owned(),
            ),
        );
    }
    if config.unix_domains.len() != 1 {
        return Err(
            ServiceStop::Failed(
                "managed mux config must declare exactly one Unix domain".to_owned(),
            ),
        );
    }
    if config.tls_servers != 0 {
        return Err(
            ServiceStop::Failed("managed mux config must not expose TLS listeners".to_owned()),
        );
    }
    match state.bound_socket {
        Some(witness) => Ok(witness),
        None => Err(
            ServiceStop::Failed("managed service bootstrap state is absent".to_owned()),
        ),
    }
}

/// The hand-over of the listener, or why it does not go on.
pub open spec fn handed_over(
    replies: Seq<Reply>,
    state: ServiceState,
    config: ManagedConfig,
    service: Service,
) -> Result<(), ServiceStopView> {
    match configuration_refusal(state, config) {
        Some(reason) => Err(ServiceStopView::Failed(reason)),
        None => match service_revalidated(replies, 0, service) {
            Err(stop) => Err(in_words(stop)),
            Ok(at) => if !is_service_domain(config.unix_domains@[0], service.socket.bytes@) {
                Err(
                    ServiceStopView::Failed(
                        "managed mux domain does not match the exact fixed prebound service contract"@,
                    ),
                )
            } else {
                match witnessed(
                    replies,
                    at,
                    service.runtime(),
                    service.socket,
                    true,
                    service.platform,
                    service.euid,
                ) {
                    Err(stop) => Err(in_words(stop)),
                    Ok((None, _)) => Err(
                        ServiceStopView::Failed("prebound managed socket is absent"@),
                    ),
                    Ok((Some(actual), _)) => if state.bound_socket != Some(actual)
                        || actual.peer_pid != service.pid {
                        Err(
                            ServiceStopView::Failed(
                                "prebound managed socket identity changed before listener handoff"@,
                            ),
                        )
                    } else if !state.listener {
                        Err(ServiceStopView::Failed("managed listener was already consumed"@))
                    } else {
                        Ok(())
                    },
                }
            },
        },
    }
}

fn hand_over(replies: &Vec<Reply>, state: &ServiceState, config: &ManagedConfig, service: &Service) -> (result:
    Result<(), ServiceStop>)
    ensures
        match (result, handed_over(replies@, *state, *config, *service)) {
            (Ok(()), Ok(())) => true,
            (Err(stop), Err(stopped)) => stop@ == stopped,
            _ => false,
        },
{
    let expected = check_configuration(state, config)?;
    let at: usize = match revalidate_service(replies, 0, service) {
        Ok(at) => at,
        Err(stop) => {
            return Err(put_in_words(stop));
        },
    };
    if !service_domain(&config.unix_domains[0], service.socket.bytes.as_slice()) {
        return Err(
            ServiceStop::Failed(
                "managed mux domain does not match the exact fixed prebound service contract".to_owned(),
            ),
        );
    }
    let dir = service.runtime_dir();
    let found = match socket_witness(
        replies,
        at,
        &dir,
        &service.socket,
        true,
        service.platform,
        service.euid,
    ) {
        Ok((found, _)) => found,
        Err(stop) => {
            return Err(put_in_words(stop));
        },
    };
    let actual = match found {
        Some(actual) => actual,
        None => {
            return Err(ServiceStop::Failed("prebound managed socket is absent".to_owned()));
        },
    };
    if !same_witness(&actual, &expected) || actual.peer_pid != service.pid {
        return Err(
            ServiceStop::Failed(
                "prebound managed socket identity changed before listener handoff".to_owned(),
            ),
        );
    }
    if !state.listener {
        return Err(ServiceStop::Failed("managed listener was already consumed".to_owned()));
    }
    Ok(())
}

impl ManagedServiceBootstrap {
    /// Takes over the bound listener for a configuration. A refusal gives up
    /// the listener for good.
    pub fn validate_and_take(
        &mut self,
        state: &mut ServiceState,
        config: &ManagedConfig,
        service: &Service,
        replies: &Vec<Reply>,
    ) -> (result: Result<ManagedServiceGuard, ServiceStop>)
        ensures
            match (result, handed_over(replies@, *old(state), *config, *service)) {
                (Ok(guard), Ok(())) => guard.taken && final(self).consumed && *final(state) == (
                ServiceState { listener: false, ..*old(state) }),
                (Err(stop), Err(stopped)) => {
                    &&& stop@ == stopped
                    &&& *final(self) == *old(self)
                    &&& *final(state) == (if stopped is Failed && !old(self).consumed {
                        ServiceState { listener: false, ..*old(state) }
                    } else {
                        *old(state)
                    })
                },
                _ => false,
            },
    {
        match hand_over(replies, state, config, service) {
            Ok(()) => {
                state.listener = false;
                self.consumed = true;
                Ok(ManagedServiceGuard { taken: true })
            },
            Err(ServiceStop::Failed(reason)) => {
                if !self.consumed {
                    state.listener = false;
                }
                Err(ServiceStop::Failed(reason))
            },
            Err(stop) => Err(stop),
        }
    }

    /// Gives up the bound listener, if it was not taken over.
    pub fn abandon(self, state: &mut ServiceState)
        ensures
            *final(state) == (if self.consumed {
                *old(state)
            } else {
                ServiceState { listener: false, ..*old(state) }
            }),
    {
        if !self.consumed {
            state.listener = false;
        }
    }
}

/// Claims the service for the configuration, once its capability was checked.
/// Where there is none, the attempt is remembered.
pub fn claim_service(state: &mut ServiceState, service: &Service, replies: &Vec<Reply>) -> (result:
    Result<(), ServiceStop>)
    ensures
        match result {
            Ok(()) => old(state).bound_socket is Some && service_revalidated(
                replies@,
                0,
                *service,
            ) is Ok && *final(state) == (ServiceState { claimed: true, ..*old(state) }),
            Err(stop) => if old(state).bound_socket is None {
                stop@ == ServiceStopView::Failed(
                    "dmux_descriptor_early_prebind_required: start wezterm-mux-server with --dmux-managed-service"@,
                ) && *final(state) == (ServiceState { missing_attempt: true, ..*old(state) })
            } else {
                service_revalidated(replies@, 0, *service) matches Err(stopped) && stop@
                    == in_words(stopped) && *final(state) == *old(state)
            },
        },
{
    if state.bound_socket.is_none() {
        state.missing_attempt = true;
        return Err(
            ServiceStop::Failed(
                "dmux_descriptor_early_prebind_required: start wezterm-mux-server with --dmux-managed-service".to_owned(),
            ),
        );
    }
    match revalidate_service(replies, 0, service) {
        Err(stop) => Err(put_in_words(stop)),
        Ok(_) => {
            state.claimed = true;
            Ok(())
        },
    }
}

/// The descriptor of the service, invalidated: whether there was one.
pub open spec fn invalidated(replies: Seq<Reply>, bound: bool, service: Service) -> Result<
    bool,
    ServiceStopView,
> {
    if !bound {
        Err(
            ServiceStopView::Failed(
                "dmux_descriptor_bootstrap_required: call dmux_service_bootstrap first"@,
            ),
        )
    } else {
        match service_revalidated(replies, 0, service) {
            Err(stop) => Err(in_words(stop)),
            Ok(at) => match removed(
                replies,
                at,
                service.runtime(),
                DESCRIPTOR_FILE@,
                service.euid,
            ) {
                Err(stop) => Err(in_words(stop)),
                Ok((there, _)) => Ok(there),
            },
        }
    }
}

/// Invalidates the published descriptor.
pub fn invalidate_service_descriptor(
    state: &ServiceState,
    service: &Service,
    replies: &Vec<Reply>,
) -> (result: Result<bool, ServiceStop>)
    ensures
        match (result, invalidated(replies@, state.bound_socket is Some, *service)) {
            (Ok(there), Ok(was)) => there == was,
            (Err(stop), Err(stopped)) => stop@ == stopped,
            _ => false,
        },
{
    if state.bound_socket.is_none() {
        return Err(
            ServiceStop::Failed(
                "dmux_descriptor_bootstrap_required: call dmux_service_bootstrap first".to_owned(),
            ),
        );
    }
    let at: usize = match revalidate_service(replies, 0, service) {
        Ok(at) => at,
        Err(stop) => {
            return Err(put_in_words(stop));
        },
    };
    let dir = service.runtime_dir();
    match remove_private_verified(replies, at, &dir, DESCRIPTOR_FILE, service.euid) {
        Ok((there, _)) => Ok(there),
        Err(stop) => Err(put_in_words(stop)),
    }
}

/// The listener is handed over at most once: after it was taken or given up, no
/// answers of the system and no configuration give it out again.
pub proof fn law_listener_is_handed_over_once(
    replies: Seq<Reply>,
    state: ServiceState,
    config: ManagedConfig,
    service: Service,
)
    requires
        !state.listener,
    ensures
        handed_over(replies, state, config, service) is Err,
{
}

/// The listener is handed over only to a configuration that claimed the
/// service, serves the bound socket alone and is not reachable otherwise, and
/// only while that socket leads to this process.
pub proof fn law_handover_is_exact(
    replies: Seq<Reply>,
    state: ServiceState,
    config: ManagedConfig,
    service: Service,
)
    requires
        handed_over(replies, state, config, service) is Ok,
    ensures
        state.claimed,
        state.bound_socket is Some,
        state.bound_socket->0.peer_pid == service.pid,
        config.dmux_recovery_primitives,
        config.tls_servers == 0,
        config.unix_domains@.len() == 1,
        is_service_domain(config.unix_domains@[0], service.socket.bytes@),
{
}

/// Nothing is bound but by a process with a single thread, and nothing is bound
/// twice.
pub proof fn law_prebind_needs_a_single_thread(
    replies: Seq<Reply>,
    already_bound: bool,
    service: Service,
)
    ensures
        prebound(replies, already_bound, service) is Ok ==> !already_bound && replies.len() > 0
            && replies[0] == Reply::Number(1),
        prebound(replies, already_bound, service) matches Err(
            ServiceStopView::Await(action),
        ) ==> action is CountThreads || (!already_bound && replies.len() > 0 && replies[0]
            == Reply::Number(1)),
{
}

/// Whether binding got as far as an action.
pub open spec fn binding_asked(
    replies: Seq<Reply>,
    at: int,
    service: Service,
    k: int,
    action: ActionView,
) -> bool {
    at <= k < replies.len() && listener_bound(replies.take(k), at, service) == Err::<int, StopView>(
        StopView::Await(action),
    )
}

/// Whether the former directory was restored by an answer, or the process was
/// asked to end.
pub open spec fn directory_left(replies: Seq<Reply>, at: int, service: Service, k: int) -> bool {
    ||| binding_asked(replies, at, service, k, ActionView::LeaveDirectory) && replies[k] is Done
    ||| binding_asked(replies, at, service, k, ActionView::Exit { status: 125 })
}

/// The process never goes on in the private directory: once it was entered to
/// bind the socket, binding ends, well or not, only after the former directory
/// was restored, or with the end of the process.
pub proof fn law_the_private_directory_is_left(
    replies: Seq<Reply>,
    at: int,
    service: Service,
    entered: int,
)
    requires
        0 <= at,
        binding_asked(
            replies,
            at,
            service,
            entered,
            ActionView::EnterDirectory { dir: Slot::Runtime },
        ),
        replies[entered] is Done,
        listener_bound(replies, at, service) is Ok || listener_bound(replies, at, service)->Err_0
            is Refuse,
    ensures
        exists|k: int| entered < k && #[trigger] directory_left(replies, at, service, k),
{
    assert(entered == at + 1);
    let left = at + 3;
    if replies[left] is Done {
        assert(directory_left(replies, at, service, left));
    } else if replies[at + 2] is Done {
        if replies[left + 1] is Done {
            assert(directory_left(replies, at, service, left + 1));
        } else {
            assert(directory_left(replies, at, service, left + 2));
        }
    } else {
        assert(directory_left(replies, at, service, left + 1));
    }
}

} // verus!
