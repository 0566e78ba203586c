//! What a descriptor is held against before its bytes are given out, and what its
//! publication demands.

use crate::descriptor::{DescriptorView, RequestView};
use crate::descriptor_file_laws::{law_publication_carries_the_request, says_what_is_requested};
use crate::descriptor_io::{
    described, descriptor_held, descriptor_installed, descriptor_published, descriptor_unchanged,
    encoded, identity_changed, incarnation_proved, publisher_socket,
    service_descriptor_published, service_proved, socket_proved, verified,
};
use crate::dialogue::{FileStat, Reply, StopView};
use crate::failure::Failure;
use crate::private_files::{published, runtime_revalidated};
use crate::process_identity::{boot_id, start_token};
use crate::service::{service_revalidated, Service};
use crate::service_bind::{required_witness, ServiceState};
use vstd::prelude::*;

verus! {

/// A descriptor names the running incarnation exactly where its boot is the
/// running one and its start token that of the live process of its number.
pub proof fn law_incarnation_is_the_running_one(
    replies: Seq<Reply>,
    at: int,
    descriptor: DescriptorView,
    service: Service,
    stale_boot: Failure,
    stale_process: Failure,
)
    ensures
        ({
            let proved = incarnation_proved(
                replies,
                at,
                descriptor,
                service,
                stale_boot,
                stale_process,
            );
            let boot = boot_id(replies, at, service.platform);
            let token = start_token(
                replies,
                boot->Ok_0.1,
                service.platform,
                descriptor.pid,
                service.euid,
            );
            &&& proved is Ok <==> boot is Ok && boot->Ok_0.0 == descriptor.boot_id && token is Ok
                && token->Ok_0.0 == descriptor.start_token
            &&& proved is Ok ==> proved->Ok_0 == token->Ok_0.1
            &&& boot is Ok && boot->Ok_0.0 != descriptor.boot_id ==> proved == Err::<int, StopView>(
                StopView::Refuse(stale_boot),
            )
            &&& boot is Ok && boot->Ok_0.0 == descriptor.boot_id && token is Ok && token->Ok_0.0
                != descriptor.start_token ==> proved == Err::<int, StopView>(
                StopView::Refuse(stale_process),
            )
        }),
{
}

/// The live socket is that of a descriptor exactly where it has the same identity
/// and is served by the process of its number.
pub proof fn law_live_socket_is_the_described_one(
    replies: Seq<Reply>,
    at: int,
    descriptor: DescriptorView,
    service: Service,
)
    ensures
        ({
            let proved = socket_proved(replies, at, descriptor, service);
            let seen = required_witness(
                replies,
                at,
                service,
                "socket_unavailable"@,
                "fixed descriptor socket is absent"@,
            );
            &&& proved is Ok <==> seen is Ok && descriptor.socket_dev == Some(seen->Ok_0.0.dev)
                && descriptor.socket_ino == Some(seen->Ok_0.0.ino) && descriptor.pid
                == seen->Ok_0.0.peer_pid
            &&& proved is Ok ==> proved->Ok_0 == seen->Ok_0
        }),
{
}

/// A described service is proved exactly where its incarnation and its socket are,
/// and then both once more, with the same socket.
pub proof fn law_proved_service_is_proved_twice(
    replies: Seq<Reply>,
    at: int,
    descriptor: DescriptorView,
    service: Service,
)
    ensures
        service_proved(replies, at, descriptor, service) is Ok <==> {
            let first = incarnation_proved(
                replies,
                at,
                descriptor,
                service,
                crate::failure::failure(
                    "stale_boot"@,
                    "descriptor boot_id is not the running operating-system boot"@,
                ),
                crate::failure::failure(
                    "stale_process"@,
                    "descriptor start_token does not match the live pid incarnation"@,
                ),
            );
            let socket = socket_proved(replies, first->Ok_0, descriptor, service);
            let second = incarnation_proved(
                replies,
                socket->Ok_0.1,
                descriptor,
                service,
                identity_changed(),
                identity_changed(),
            );
            let again = required_witness(
                replies,
                second->Ok_0,
                service,
                "socket_changed"@,
                "fixed socket disappeared during verification"@,
            );
            &&& first is Ok
            &&& socket is Ok
            &&& second is Ok
            &&& again is Ok
            &&& again->Ok_0.0 == socket->Ok_0.0
        },
{
}

/// A descriptor is unchanged only where the runtime directory is, its name still
/// leads to the file that is held, and that file still holds the same bytes.
pub proof fn law_unchanged_descriptor_is_the_held_one(
    replies: Seq<Reply>,
    at: int,
    held: FileStat,
    raw: Seq<u8>,
    service: Service,
    maximum: usize,
)
    requires
        0 <= at,
        descriptor_unchanged(replies, at, held, raw, service, maximum) is Ok,
    ensures
        runtime_revalidated(replies, at, service.base, service.euid) is Ok,
        ({
            let end = descriptor_unchanged(replies, at, held, raw, service, maximum)->Ok_0;
            let next = runtime_revalidated(replies, at, service.base, service.euid)->Ok_0;
            &&& next + 2 < replies.len()
            &&& replies[next + 2] is Stat
            &&& replies[next + 2]->Stat_0.dev == held.dev
            &&& replies[next + 2]->Stat_0.ino == held.ino
            &&& 2 <= end <= replies.len()
            &&& replies[end - 2] is Bytes
            &&& replies[end - 2]->Bytes_0@ == raw
        }),
{
}

/// The bytes of a descriptor are asked for within 65536, and there are none exactly
/// where there is no such file.
pub proof fn law_absent_descriptor_is_none(replies: Seq<Reply>, service: Service, maximum: usize)
    ensures
        maximum == 0 || maximum > 65536 ==> verified(replies, service, maximum) matches Err(
            StopView::Refuse(_),
        ),
        1 <= maximum <= 65536 ==> ((verified(replies, service, maximum) matches Ok((None, _))) <==> (
        descriptor_held(replies, service, maximum) matches Ok((None, _)))),
        verified(replies, service, maximum) matches Ok((Some(raw), _)) ==> (descriptor_held(
            replies,
            service,
            maximum,
        ) matches Ok((Some((_, bytes)), _)) && bytes == raw),
{
}

/// The service publishes a descriptor only once its configuration claimed it and
/// its socket is bound, and only while it is unchanged; what it publishes says what
/// is requested.
pub proof fn law_claimed_service_publishes(
    replies: Seq<Reply>,
    request: RequestView,
    state: ServiceState,
    service: Service,
)
    ensures
        !state.claimed || state.bound_socket is None ==> (service_descriptor_published(
            replies,
            request,
            state,
            service,
        ) matches Err(StopView::Refuse(refusal)) && refusal.code == "bootstrap_required"@),
        state.claimed && state.bound_socket is Some ==> (service_revalidated(replies, 0, service)
            matches Ok(at) ==> service_descriptor_published(replies, request, state, service)
            == descriptor_published(replies, at, request, service)),
        service_descriptor_published(replies, request, state, service) matches Ok((given, _)) ==> {
            &&& state.claimed
            &&& state.bound_socket is Some
            &&& service_revalidated(replies, 0, service) is Ok
            &&& says_what_is_requested(given.descriptor, request)
        },
{
    if service_descriptor_published(replies, request, state, service) is Ok {
        let at = service_revalidated(replies, 0, service)->Ok_0;
        law_publication_carries_the_request(replies, at, request, service);
    }
}

/// A published descriptor names a socket only if that was found the same before the
/// descriptor was encoded and after it was installed.
pub proof fn law_published_socket_is_unchanged(
    replies: Seq<Reply>,
    at: int,
    request: RequestView,
    service: Service,
)
    requires
        descriptor_published(replies, at, request, service) is Ok,
    ensures
        ({
            let given = descriptor_published(replies, at, request, service)->Ok_0.0;
            given.peer_pid is Some ==> {
                &&& exists|k: int|
                    ({
                        let seen = #[trigger] required_witness(
                            replies,
                            k,
                            service,
                            "socket_changed"@,
                            "fixed socket disappeared before publication"@,
                        );
                        seen is Ok && Some(seen->Ok_0.0.dev) == given.descriptor.socket_dev && Some(
                            seen->Ok_0.0.ino,
                        ) == given.descriptor.socket_ino && Some(seen->Ok_0.0.peer_pid)
                            == given.peer_pid
                    })
                &&& exists|k: int|
                    ({
                        let seen = #[trigger] required_witness(
                            replies,
                            k,
                            service,
                            "socket_changed"@,
                            "fixed socket disappeared after publication"@,
                        );
                        seen is Ok && Some(seen->Ok_0.0.dev) == given.descriptor.socket_dev && Some(
                            seen->Ok_0.0.ino,
                        ) == given.descriptor.socket_ino && Some(seen->Ok_0.0.peer_pid)
                            == given.peer_pid
                    })
            }
        }),
{
    let (socket, a) = publisher_socket(replies, at, request.state, service)->Ok_0;
    let (descriptor, b) = described(replies, a, request, socket, service)->Ok_0;
    let installed = descriptor_installed(replies, b, descriptor, socket, service);
    assert(installed is Ok);
    if socket is Some {
        let first = required_witness(
            replies,
            b,
            service,
            "socket_changed"@,
            "fixed socket disappeared before publication"@,
        );
        assert(first is Ok && first->Ok_0.0 == socket->0);
        let (raw, c) = encoded(replies, first->Ok_0.1, descriptor)->Ok_0;
        let d = published(
            replies,
            c,
            service.runtime(),
            crate::service::DESCRIPTOR_FILE@,
            raw,
            crate::descriptor::MAX_DESCRIPTOR_BYTES,
            service.euid,
        )->Ok_0;
        let e = runtime_revalidated(replies, d, service.base, service.euid)->Ok_0;
        let second = required_witness(
            replies,
            e,
            service,
            "socket_changed"@,
            "fixed socket disappeared after publication"@,
        );
        assert(second is Ok && second->Ok_0.0 == socket->0);
    }
}

} // verus!
