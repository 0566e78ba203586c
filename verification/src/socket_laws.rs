//! What is proved of the service socket before anything rests on it, and when the
//! listener is handed over.

use crate::dialogue::{ActionView, FileKind, Reply, Slot, StopView};
use crate::failure::OsErrorKind;
use crate::identifier::is_component;
use crate::managed::UnixDomain;
use crate::path_text::same_absolute;
use crate::private_dir::{BasePath, DirView};
use crate::private_files::removed;
use crate::process_identity::Platform;
use crate::service::{service_revalidated, socket_made_absent, Service};
use crate::service_bind::{
    bound_socket_proved, configuration_refusal, handed_over, invalidated, is_service_domain,
    listener_bound, prebound, required_witness, socket_bound, ManagedConfig, ServiceState,
    ServiceStopView,
};
use crate::service_socket::{
    connected, is_connection_refused, is_in_progress, peer, poll_timeout, socket_found,
    socket_quarantined, witnessed, ConnectFailure, SocketWitness,
};
use vstd::prelude::*;

verus! {

/// A socket is accepted exactly where it is one of this user, under one name, that
/// others cannot use, and its identity can be written exactly. That there is none
/// is told apart from every other failure.
pub proof fn law_accepted_socket_is_the_users_alone(
    replies: Seq<Reply>,
    at: int,
    dir: DirView,
    name: Seq<char>,
    euid: u32,
)
    requires
        is_component(name),
        0 <= at < replies.len(),
    ensures
        replies[at] matches Reply::Stat(stat) ==> {
            let found = socket_found(replies, at, dir, name, euid);
            &&& found is Ok <==> stat.kind == FileKind::Socket && stat.uid == euid && stat.nlink == 1
                && (stat.mode & 0o777u32) & 0o077u32 == 0 && 1 <= stat.dev <= 9_007_199_254_740_991
                && 1 <= stat.ino <= 9_007_199_254_740_991
            &&& found is Ok ==> found->Ok_0.0 == Some((stat.dev, stat.ino)) && found->Ok_0.1 == at
                + 1
        },
        replies[at] matches Reply::Failed(error) ==> {
            let found = socket_found(replies, at, dir, name, euid);
            &&& found is Ok <==> error.kind == OsErrorKind::NotFound
            &&& found is Ok ==> found->Ok_0.0 is None
        },
        socket_found(replies.take(at), at, dir, name, euid)->Err_0 == StopView::Await(
            ActionView::StatName { dir: dir.slot, name },
        ),
{
}

/// The process at the other end is believed exactly where it is a process of this
/// user, as the system says.
pub proof fn law_peer_is_a_process_of_the_user(
    replies: Seq<Reply>,
    at: int,
    euid: u32,
)
    requires
        0 <= at,
    ensures
        peer(replies, at, Platform::Linux, euid) is Ok <==> at < replies.len() && (
        replies[at] matches Reply::Peer(other) && other.complete && other.pid > 0 && other.uid
            == euid),
        peer(replies, at, Platform::Linux, euid) matches Ok((pid, end)) ==> pid
            == replies[at]->Peer_0.pid && end == at + 1,
        peer(replies, at, Platform::Macos, euid) is Ok <==> at + 1 < replies.len() && replies[at]
            is Peer && replies[at + 1] is Peer && replies[at]->Peer_0.pid > 0 && replies[at
            + 1]->Peer_0.uid == euid,
        peer(replies, at, Platform::Macos, euid) matches Ok((pid, end)) ==> pid
            == replies[at]->Peer_0.pid && end == at + 2,
{
}

/// A live socket is witnessed exactly where it was found, a connection to it was
/// made, its other end is a process of this user, and it was then found unchanged.
pub proof fn law_witness_is_a_live_socket(
    replies: Seq<Reply>,
    at: int,
    dir: DirView,
    socket: BasePath,
    required: bool,
    platform: Platform,
    euid: u32,
    witness: SocketWitness,
    end: int,
)
    ensures
        witnessed(replies, at, dir, socket, required, platform, euid) == Ok::<
            (Option<SocketWitness>, int),
            StopView,
        >((Some(witness), end)) <==> {
            let first = socket_found(replies, at, dir, "wez-dmux.sock"@, euid);
            let joined = connected(replies, first->Ok_0.1, socket, platform);
            let other = peer(replies, joined->Ok_0.1, platform, euid);
            let last = socket_found(replies, other->Ok_0.1, dir, "wez-dmux.sock"@, euid);
            &&& first is Ok && first->Ok_0.0 == Some((witness.dev, witness.ino))
            &&& joined is Ok && joined->Ok_0.0 is Ok
            &&& other is Ok && other->Ok_0.0 == witness.peer_pid
            &&& last is Ok && last->Ok_0.0 == first->Ok_0.0 && last->Ok_0.1 == end
        },
        socket_found(replies, at, dir, "wez-dmux.sock"@, euid) matches Ok((None, next)) ==> (
        witnessed(replies, at, dir, socket, required, platform, euid) is Ok <==> !required),
{
}

/// A connection that is made at once is made; one that is refused says so; and a
/// path that fits no address is not tried.
pub proof fn law_connection_is_made_or_refused(
    replies: Seq<Reply>,
    at: int,
    path: BasePath,
    platform: Platform,
)
    requires
        0 <= at,
    ensures
        ({
            let room = if platform == Platform::Linux {
                108int
            } else {
                104int
            };
            let fits = 0 < path.bytes@.len() < room;
            let opened = at + 2 < replies.len() && replies[at] is Done && replies[at + 1] is Done;
            &&& !fits ==> connected(replies, at, path, platform) is Ok && connected(
                replies,
                at,
                path,
                platform,
            )->Ok_0.0 is Err && connected(replies, at, path, platform)->Ok_0.1 == at
            &&& fits && opened && replies[at + 2] is Done ==> connected(replies, at, path, platform)
                == Ok::<(Result<(), ConnectFailure>, int), StopView>((Ok(()), at + 3))
            &&& fits && opened ==> (replies[at + 2] matches Reply::Failed(error) ==> (
            !is_in_progress(platform, error.errno) ==> {
                let result = connected(replies, at, path, platform);
                &&& result is Ok
                &&& result->Ok_0.0 is Err
                &&& result->Ok_0.0->Err_0.errno == error.errno
                &&& result->Ok_0.0->Err_0.refusal.code == "socket_unavailable"@
            }))
            &&& fits && opened ==> connected(replies.take(at + 2), at, path, platform) is Err
                && connected(replies.take(at + 2), at, path, platform)->Err_0 == StopView::Await(
                ActionView::Connect { slot: Slot::Connection, path: path.bytes@ },
            )
        }),
{
}

/// A connection that is still being made is given a quarter of a second. It is made
/// where the socket becomes writable in time and then reports no error.
pub proof fn law_pending_connection_has_a_quarter_second(
    replies: Seq<Reply>,
    at: int,
    path: BasePath,
    platform: Platform,
)
    requires
        0 <= at,
        0 < path.bytes@.len() < 104,
        at + 2 < replies.len(),
        replies[at] is Done,
        replies[at + 1] is Done,
        replies[at + 2] matches Reply::Failed(error) && is_in_progress(platform, error.errno),
    ensures
        connected(replies.take(at + 3), at, path, platform) is Err && connected(
            replies.take(at + 3),
            at,
            path,
            platform,
        )->Err_0 == StopView::Await(ActionView::SetDeadline { millis: 250 }),
        at + 6 < replies.len() && (replies[at + 4] matches Reply::Number(left) && left > 0)
            && replies[at + 5] == Reply::Flag(true) ==> {
            &&& replies[at + 6] is Done ==> connected(replies, at, path, platform) == Ok::<
                (Result<(), ConnectFailure>, int),
                StopView,
            >((Ok(()), at + 7))
            &&& replies[at + 6] matches Reply::Pending(error) ==> connected(
                replies,
                at,
                path,
                platform,
            ) is Ok && connected(replies, at, path, platform)->Ok_0.0 is Err && connected(
                replies,
                at,
                path,
                platform,
            )->Ok_0.0->Err_0.errno == error.errno
        },
        at + 5 < replies.len() && (replies[at + 4] matches Reply::Number(left) && left > 0)
            && replies[at + 5] == Reply::Flag(false) ==> connected(replies, at, path, platform)
            is Ok && connected(replies, at, path, platform)->Ok_0.0 is Err,
{
}

/// A wait is at least a millisecond and otherwise no longer than the time that is
/// left.
pub proof fn law_wait_fits_the_time_left(nanos: u64)
    ensures
        poll_timeout(nanos) >= 1,
        nanos >= 1_000_000 ==> poll_timeout(nanos) * 1_000_000 <= nanos,
        1_000_000 <= nanos < 1_000_000_000_000 ==> (poll_timeout(nanos) + 1) * 1_000_000 > nanos,
{
}

/// Only the one error of each system that says so counts as a refused connection,
/// and it never counts as one that is still being made.
pub proof fn law_refused_connection_is_told_apart(platform: Platform, errno: Option<i32>)
    ensures
        is_connection_refused(platform, errno) <==> errno == Some(
            if platform == Platform::Linux {
                111i32
            } else {
                61i32
            },
        ),
        !(is_connection_refused(platform, errno) && is_in_progress(platform, errno)),
        errno is None ==> !is_in_progress(platform, errno),
{
}

/// The listener is bound in the private directory under the name of the socket, and
/// the directory is left again.
pub proof fn law_listener_is_bound_in_the_private_directory(
    replies: Seq<Reply>,
    at: int,
    service: Service,
)
    requires
        0 <= at,
    ensures
        listener_bound(replies, at, service) is Ok <==> at + 3 < replies.len() && replies[at]
            is Done && replies[at + 1] is Done && replies[at + 2] is Done && replies[at + 3]
            is Done,
        listener_bound(replies, at, service) is Ok ==> {
            &&& listener_bound(replies, at, service)->Ok_0 == at + 4
            &&& listener_bound(replies.take(at + 1), at, service) == Err::<int, StopView>(
                StopView::Await(ActionView::EnterDirectory { dir: Slot::Runtime }),
            )
            &&& listener_bound(replies.take(at + 2), at, service) == Err::<int, StopView>(
                StopView::Await(ActionView::BindListener { name: "wez-dmux.sock"@ }),
            )
            &&& listener_bound(replies.take(at + 3), at, service) == Err::<int, StopView>(
                StopView::Await(ActionView::LeaveDirectory),
            )
        },
{
}

/// The configuration of the managed service is taken exactly where it claimed the
/// service, allows recovery, has one domain and no listener of another kind, and
/// the socket is bound.
pub proof fn law_managed_configuration_is_exact(state: ServiceState, config: ManagedConfig)
    ensures
        configuration_refusal(state, config) is None <==> state.claimed
            && config.dmux_recovery_primitives && config.unix_domains@.len() == 1
            && config.tls_servers == 0 && state.bound_socket is Some,
{
}

/// The domain of the managed service is the fixed socket under its name, and
/// neither starts, proxies nor connects anything by itself.
pub proof fn law_service_domain_is_the_fixed_socket(domain: UnixDomain, socket: Seq<u8>)
    ensures
        is_service_domain(domain, socket) <==> {
            &&& domain.name@ == "dmux"@
            &&& domain.socket_path is Some
            &&& same_absolute(domain.socket_path->0@, socket)
            &&& domain.no_serve_automatically
            &&& !domain.connect_automatically
            &&& !domain.skip_permissions_check
            &&& domain.serve_command is None
            &&& domain.proxy_command is None
        },
{
}

/// The listener is handed over exactly where the configuration is the managed one,
/// the service is unchanged, its domain is the fixed socket, the socket is the one
/// that was bound and is served by this process, and the listener is still there.
pub proof fn law_unchanged_listener_is_handed_over(
    replies: Seq<Reply>,
    state: ServiceState,
    config: ManagedConfig,
    service: Service,
)
    ensures
        handed_over(replies, state, config, service) is Ok <==> {
            let checked = service_revalidated(replies, 0, service);
            let actual = witnessed(
                replies,
                checked->Ok_0,
                service.runtime(),
                service.socket,
                true,
                service.platform,
                service.euid,
            );
            &&& state.claimed
            &&& config.dmux_recovery_primitives
            &&& config.unix_domains@.len() == 1
            &&& config.tls_servers == 0
            &&& state.bound_socket is Some
            &&& checked is Ok
            &&& is_service_domain(config.unix_domains@[0], service.socket.bytes@)
            &&& actual is Ok && actual->Ok_0.0 == state.bound_socket
            &&& state.bound_socket->0.peer_pid == service.pid
            &&& state.listener
        },
{
    let checked = service_revalidated(replies, 0, service);
    if checked is Ok {
        lemma_required_socket_is_there(replies, checked->Ok_0, service);
    }
}

proof fn lemma_required_socket_is_there(replies: Seq<Reply>, at: int, service: Service)
    ensures
        ({
            let actual = witnessed(
                replies,
                at,
                service.runtime(),
                service.socket,
                true,
                service.platform,
                service.euid,
            );
            actual is Ok ==> actual->Ok_0.0 is Some
        }),
{
}

/// A bound socket is proved to lead to this process, twice with the same result,
/// and its entry is made durable.
pub proof fn law_bound_socket_leads_to_this_process(
    replies: Seq<Reply>,
    at: int,
    service: Service,
)
    requires
        bound_socket_proved(replies, at, service) is Ok,
    ensures
        exists|k: int|
            ({
                let first = #[trigger] required_witness(
                    replies,
                    k,
                    service,
                    "bind_failed"@,
                    "bound fixed socket is absent"@,
                );
                let second = required_witness(
                    replies,
                    first->Ok_0.1,
                    service,
                    "socket_changed"@,
                    "bound fixed socket disappeared"@,
                );
                &&& first is Ok
                &&& first->Ok_0.0.peer_pid == service.pid
                &&& second is Ok
                &&& second->Ok_0.0 == first->Ok_0.0
            }),
        ({
            let end = bound_socket_proved(replies, at, service)->Ok_0;
            end <= replies.len() && replies[end - 1] is Done
        }),
{
    let k = service_revalidated(replies, at, service)->Ok_0;
    assert(required_witness(
        replies,
        k,
        service,
        "bind_failed"@,
        "bound fixed socket is absent"@,
    ) is Ok);
}

/// What the early binding gives is the live socket that it bound and proved.
pub proof fn law_prebound_socket_was_proved(
    replies: Seq<Reply>,
    already_bound: bool,
    service: Service,
    witness: SocketWitness,
)
    requires
        prebound(replies, already_bound, service) == Ok::<SocketWitness, ServiceStopView>(witness),
    ensures
        !already_bound,
        exists|k: int|
            ({
                let bound = #[trigger] socket_bound(replies, k, service);
                let seen = witnessed(
                    replies,
                    bound->Ok_0,
                    service.runtime(),
                    service.socket,
                    true,
                    service.platform,
                    service.euid,
                );
                bound is Ok && seen is Ok && seen->Ok_0.0 == Some(witness)
            }),
{
    let k = crate::service::initialized(replies, 1, service)->Ok_0;
    assert(socket_bound(replies, k, service) is Ok);
}

/// Withdrawing the descriptor of the service needs a bound and unchanged service,
/// and says whether there was one.
pub proof fn law_withdrawal_says_whether_there_was_a_descriptor(
    replies: Seq<Reply>,
    bound: bool,
    service: Service,
    there: bool,
)
    ensures
        invalidated(replies, bound, service) == Ok::<bool, ServiceStopView>(there) <==> {
            let checked = service_revalidated(replies, 0, service);
            let gone = removed(
                replies,
                checked->Ok_0,
                service.runtime(),
                "wez-dmux.json"@,
                service.euid,
            );
            bound && checked is Ok && gone is Ok && gone->Ok_0.0 == there
        },
{
}

/// A place for the socket is free where there is none. A socket that is served makes
/// this service a duplicate; one that cannot be proved stale is left alone.
pub proof fn law_served_socket_is_left_alone(replies: Seq<Reply>, at: int, service: Service)
    requires
        service_revalidated(replies, at, service) is Ok,
    ensures
        ({
            let next = service_revalidated(replies, at, service)->Ok_0;
            let found = socket_found(
                replies,
                next,
                service.runtime(),
                "wez-dmux.sock"@,
                service.euid,
            );
            let joined = connected(replies, found->Ok_0.1, service.socket, service.platform);
            let absent = socket_made_absent(replies, at, service);
            &&& found is Ok && found->Ok_0.0 is None ==> absent == Ok::<int, StopView>(
                found->Ok_0.1,
            )
            &&& found is Ok && found->Ok_0.0 is Some && joined is Ok && joined->Ok_0.0 is Ok && peer(
                replies,
                joined->Ok_0.1,
                service.platform,
                service.euid,
            ) is Ok ==> (absent matches Err(StopView::Refuse(refusal)) && refusal.code
                == "duplicate_service"@)
            &&& found is Ok && found->Ok_0.0 is Some && joined is Ok && joined->Ok_0.0 is Err
                && !is_connection_refused(service.platform, joined->Ok_0.0->Err_0.errno) ==> (
            absent matches Err(StopView::Refuse(refusal)) && refusal.code
                == "socket_live_or_unknown"@)
        }),
{
}

/// A stale socket is moved out of the way, and the place is found free after that.
pub proof fn law_stale_socket_is_moved_away(replies: Seq<Reply>, at: int, service: Service)
    requires
        service_revalidated(replies, at, service) is Ok,
        ({
            let next = service_revalidated(replies, at, service)->Ok_0;
            let found = socket_found(
                replies,
                next,
                service.runtime(),
                "wez-dmux.sock"@,
                service.euid,
            );
            let joined = connected(replies, found->Ok_0.1, service.socket, service.platform);
            &&& found is Ok && found->Ok_0.0 is Some
            &&& joined is Ok && joined->Ok_0.0 is Err
            &&& is_connection_refused(service.platform, joined->Ok_0.0->Err_0.errno)
        }),
    ensures
        socket_made_absent(replies, at, service) is Ok <==> {
            let next = service_revalidated(replies, at, service)->Ok_0;
            let found = socket_found(
                replies,
                next,
                service.runtime(),
                "wez-dmux.sock"@,
                service.euid,
            );
            let joined = connected(replies, found->Ok_0.1, service.socket, service.platform);
            let moved = socket_quarantined(
                replies,
                joined->Ok_0.1,
                service.runtime(),
                found->Ok_0.0->0,
                service.euid,
            );
            let checked = service_revalidated(replies, moved->Ok_0, service);
            let again = socket_found(
                replies,
                checked->Ok_0,
                service.runtime(),
                "wez-dmux.sock"@,
                service.euid,
            );
            moved is Ok && checked is Ok && again is Ok && again->Ok_0.0 is None
        },
{
}

/// A stale socket is moved aside under a fresh name, found there to be the very same
/// one, and the move is made durable.
pub proof fn law_moved_socket_is_the_stale_one(
    replies: Seq<Reply>,
    at: int,
    dir: DirView,
    expected: (u64, u64),
    euid: u32,
)
    requires
        0 <= at,
        socket_quarantined(replies, at, dir, expected, euid) is Ok,
    ensures
        at + 4 <= replies.len(),
        socket_quarantined(replies, at, dir, expected, euid)->Ok_0 == at + 4,
        replies[at] is Text,
        replies[at + 1] is Done,
        replies[at + 2] is Stat && (replies[at + 2]->Stat_0.dev, replies[at + 2]->Stat_0.ino)
            == expected,
        replies[at + 3] is Done,
        socket_quarantined(replies.take(at + 1), at, dir, expected, euid) == Err::<int, StopView>(
            StopView::Await(
                ActionView::RenameNoReplace {
                    from_dir: dir.slot,
                    from: "wez-dmux.sock"@,
                    to_dir: dir.slot,
                    to: ".stale-socket-"@ + replies[at]->Text_0@,
                },
            ),
        ),
        socket_quarantined(replies.take(at + 3), at, dir, expected, euid) == Err::<int, StopView>(
            StopView::Await(ActionView::SyncDirectory { slot: dir.slot }),
        ),
{
}

/// A socket is bound only in a free place of an unchanged service, and is proved
/// after that.
pub proof fn law_bound_socket_took_a_free_place(replies: Seq<Reply>, at: int, service: Service)
    ensures
        socket_bound(replies, at, service) is Ok <==> {
            let first = service_revalidated(replies, at, service);
            let free = socket_made_absent(replies, first->Ok_0, service);
            let second = service_revalidated(replies, free->Ok_0, service);
            let bound = listener_bound(replies, second->Ok_0, service);
            let proved = bound_socket_proved(replies, bound->Ok_0, service);
            first is Ok && free is Ok && second is Ok && bound is Ok && proved is Ok
        },
{
}

} // verus!
