//! What is durable, private and unchanged once a file operation has succeeded.

use crate::bridge_dir::{
    bridge_directory_refusal, document_created, document_read, document_replaced,
    new_document_written,
};
use crate::dialogue::{must_do, Access, ActionView, FileKind, FileStat, Reply, Run, Slot, StopView};
use crate::identifier::is_component;
use crate::json::json_quoted;
use crate::path_text::is_absolute;
use crate::private_dir::{
    base_opened, child_ensured, directory_refusal, directory_synced, file_ensured, holds_nul,
    is_private_file, BasePath, DirView,
};
use crate::private_files::{
    existing_held, file_filled, held_read, published, removed, runtime_revalidated, temporary_created,
};
use crate::process_identity::{start_token, Platform};
use crate::service::{
    initialized, lease_acquired, lease_body, lease_filled, lease_recognised, service_revalidated,
    socket_made_absent, Service,
};
use crate::text::decimal;
use vstd::prelude::*;
use vstd::utf8::encode_utf8;

verus! {

/// Whether the files that are accepted are exactly the regular files of this user
/// under one name that only the user can read and write.
pub proof fn law_private_files_are_the_users_alone(stat: FileStat, euid: u32)
    ensures
        is_private_file(stat, euid) <==> stat.kind == FileKind::Regular && stat.uid == euid
            && stat.nlink == 1 && stat.mode & 0o777u32 == 0o600u32,
{
}

/// A directory is accepted exactly where it is one of this user, with the demanded
/// permissions or, where none are demanded, not writable by others. The two kinds
/// of operations agree on this.
pub proof fn law_private_directories_are_the_users_alone(
    stat: FileStat,
    path: Seq<char>,
    exact: Option<u32>,
    euid: u32,
)
    ensures
        directory_refusal(stat, path, exact, euid) is None <==> {
            &&& stat.kind == FileKind::Directory
            &&& stat.uid == euid
            &&& exact is Some ==> stat.mode & 0o777u32 == exact->0
            &&& exact is None ==> stat.mode & 0o777u32 & 0o022u32 == 0
        },
        bridge_directory_refusal(stat, path, exact, euid) is None <==> directory_refusal(
            stat,
            path,
            exact,
            euid,
        ) is None,
{
}

/// A base directory is opened only by an absolute path without a NUL, and is the
/// one that the slot stands for.
pub proof fn law_base_is_absolute(
    replies: Seq<Reply>,
    at: int,
    base: BasePath,
    into: Slot,
    euid: u32,
)
    ensures
        base_opened(replies, at, base, into, euid) matches Ok((dir, end)) ==> {
            &&& is_absolute(base.bytes@)
            &&& !holds_nul(base.bytes@)
            &&& dir.slot == into
            &&& dir.path == base.display@
            &&& end == at + 2
        },
        at >= replies.len() && is_absolute(base.bytes@) && !holds_nul(base.bytes@) ==> base_opened(
            replies,
            at,
            base,
            into,
            euid,
        ) == Err::<(DirView, int), StopView>(
            StopView::Await(ActionView::OpenBase { path: base.bytes@, into }),
        ),
{
}

/// A directory that had to be made is made private, and its parent is made durable.
pub proof fn law_made_directory_is_durable(
    replies: Seq<Reply>,
    at: int,
    dir: DirView,
    name: Seq<char>,
    into: Slot,
    euid: u32,
)
    requires
        0 <= at < replies.len(),
        replies[at] is Done,
        child_ensured(replies, at, dir, name, into, euid) is Ok,
    ensures
        ({
            let end = child_ensured(replies, at, dir, name, into, euid)->Ok_0.1;
            &&& at + 2 <= end <= replies.len()
            &&& replies[end - 1] is Done
            &&& child_ensured(replies.take(end - 1), at, dir, name, into, euid) == Err::<
                (DirView, int),
                StopView,
            >(StopView::Await(ActionView::SyncDirectory { slot: dir.slot }))
            &&& child_ensured(replies.take(end - 3), at, dir, name, into, euid) == Err::<
                (DirView, int),
                StopView,
            >(StopView::Await(ActionView::SetMode { slot: into, mode: 0o700u32 }))
        }),
{
}

/// Where the runtime directory was found unchanged, the base and the runtime
/// directory that are held are the very ones that the paths lead to.
pub proof fn law_unchanged_runtime_is_the_held_one(
    replies: Seq<Reply>,
    at: int,
    base: BasePath,
    euid: u32,
)
    requires
        0 <= at,
        runtime_revalidated(replies, at, base, euid) is Ok,
    ensures
        ({
            let end = runtime_revalidated(replies, at, base, euid)->Ok_0;
            &&& at + 4 <= end <= replies.len()
            &&& forall|k: int| end - 4 <= k < end ==> (#[trigger] replies[k]) is Stat
            &&& replies[end - 4]->Stat_0.dev == replies[end - 3]->Stat_0.dev
            &&& replies[end - 4]->Stat_0.ino == replies[end - 3]->Stat_0.ino
            &&& replies[end - 2]->Stat_0.dev == replies[end - 1]->Stat_0.dev
            &&& replies[end - 2]->Stat_0.ino == replies[end - 1]->Stat_0.ino
            &&& runtime_revalidated(replies.take(end - 4), at, base, euid) == Err::<int, StopView>(
                StopView::Await(ActionView::Stat { slot: Slot::Base }),
            )
            &&& runtime_revalidated(replies.take(end - 3), at, base, euid) == Err::<int, StopView>(
                StopView::Await(ActionView::Stat { slot: Slot::CurrentBase }),
            )
            &&& runtime_revalidated(replies.take(end - 2), at, base, euid) == Err::<int, StopView>(
                StopView::Await(ActionView::Stat { slot: Slot::Runtime }),
            )
            &&& runtime_revalidated(replies.take(end - 1), at, base, euid) == Err::<int, StopView>(
                StopView::Await(ActionView::Stat { slot: Slot::CurrentRuntime }),
            )
        }),
{
}

/// A file that is filled is made private, written in whole and made durable, in
/// this order.
pub proof fn law_filled_file_is_durable(
    replies: Seq<Reply>,
    at: int,
    slot: Slot,
    bytes: Seq<u8>,
)
    requires
        0 <= at <= replies.len(),
        file_filled(replies, at, slot, bytes) matches Ok((Ok(()), _)),
    ensures
        ({
            let end = file_filled(replies, at, slot, bytes)->Ok_0.1;
            &&& end == at + 3 && end <= replies.len()
            &&& replies[at] is Done && replies[at + 1] is Done && replies[at + 2] is Done
            &&& file_filled(replies.take(at), at, slot, bytes)->Err_0 == StopView::Await(
                ActionView::SetMode { slot, mode: 0o600u32 },
            )
            &&& file_filled(replies.take(at + 1), at, slot, bytes)->Err_0 == StopView::Await(
                ActionView::Write { slot, bytes },
            )
            &&& file_filled(replies.take(at + 2), at, slot, bytes)->Err_0 == StopView::Await(
                ActionView::SyncFile { slot },
            )
        }),
{
}

/// What is published is durable: the new file was filled and made durable before
/// it got its name, and what was asked last, and granted, is that the entries of
/// its directory are made so.
pub proof fn law_publication_is_durable(
    replies: Seq<Reply>,
    at: int,
    dir: DirView,
    name: Seq<char>,
    bytes: Seq<u8>,
    maximum: usize,
    euid: u32,
)
    requires
        0 <= at <= replies.len(),
        published(replies, at, dir, name, bytes, maximum, euid) is Ok,
    ensures
        ({
            let end = published(replies, at, dir, name, bytes, maximum, euid)->Ok_0;
            let start = existing_held(replies, at, dir, name, "publish_failed"@, euid)->Ok_0.1;
            let filling = start + 2;
            &&& at < end <= replies.len()
            &&& replies[end - 1] is Done
            &&& published(replies.take(end - 1), at, dir, name, bytes, maximum, euid) == Err::<
                int,
                StopView,
            >(StopView::Await(ActionView::SyncDirectory { slot: dir.slot }))
            &&& file_filled(replies, filling, Slot::Temporary, bytes) matches Ok((Ok(()), _))
            &&& filling + 3 < end
        }),
{
    lemma_publication_ends(replies, at, dir, name, bytes, maximum, euid);
}

proof fn lemma_publication_ends(
    replies: Seq<Reply>,
    at: int,
    dir: DirView,
    name: Seq<char>,
    bytes: Seq<u8>,
    maximum: usize,
    euid: u32,
)
    requires
        0 <= at <= replies.len(),
        published(replies, at, dir, name, bytes, maximum, euid) is Ok,
    ensures
        ({
            let end = published(replies, at, dir, name, bytes, maximum, euid)->Ok_0;
            let start = existing_held(replies, at, dir, name, "publish_failed"@, euid)->Ok_0.1;
            &&& start + 5 < end <= replies.len()
            &&& at < start
            &&& replies[end - 1] is Done
            &&& published(replies.take(end - 1), at, dir, name, bytes, maximum, euid) == Err::<
                int,
                StopView,
            >(StopView::Await(ActionView::SyncDirectory { slot: dir.slot }))
            &&& file_filled(replies, start + 2, Slot::Temporary, bytes) matches Ok((Ok(()), _))
        }),
{
    let (existing, a) = existing_held(replies, at, dir, name, "publish_failed"@, euid)->Ok_0;
    let (temporary, b) = temporary_created(replies, a, dir, bytes, maximum, euid)->Ok_0;
    assert(b == a + 6);
}

/// What was removed is gone durably: the file was emptied and made so, and then the
/// entries of its directory were.
pub proof fn law_removal_is_durable(
    replies: Seq<Reply>,
    at: int,
    dir: DirView,
    name: Seq<char>,
    euid: u32,
)
    requires
        0 <= at <= replies.len(),
        removed(replies, at, dir, name, euid) matches Ok((true, _)),
    ensures
        ({
            let end = removed(replies, at, dir, name, euid)->Ok_0.1;
            &&& at + 3 <= end <= replies.len()
            &&& replies[end - 1] is Done && replies[end - 2] is Done && replies[end - 3] is Done
            &&& removed(replies.take(end - 1), at, dir, name, euid) == Err::<
                (bool, int),
                StopView,
            >(StopView::Await(ActionView::SyncDirectory { slot: dir.slot }))
            &&& removed(replies.take(end - 2), at, dir, name, euid) == Err::<
                (bool, int),
                StopView,
            >(StopView::Await(ActionView::SyncFile { slot: Slot::Existing }))
            &&& removed(replies.take(end - 3), at, dir, name, euid) == Err::<
                (bool, int),
                StopView,
            >(StopView::Await(ActionView::Truncate { slot: Slot::Existing }))
        }),
{
}

/// A new document is durable: it was filled and made durable before it got its
/// name, and what was asked last, and granted, is that the entries of its directory
/// are made so.
pub proof fn law_new_document_is_durable(
    replies: Seq<Reply>,
    at: int,
    dir: DirView,
    name: Seq<char>,
    bytes: Seq<u8>,
    euid: u32,
)
    requires
        0 <= at <= replies.len(),
        new_document_written(replies, at, dir, name, bytes, euid) is Ok,
    ensures
        ({
            let end = new_document_written(replies, at, dir, name, bytes, euid)->Ok_0;
            &&& at + 3 <= end <= replies.len()
            &&& replies[end - 1] is Done
            &&& new_document_written(replies.take(end - 1), at, dir, name, bytes, euid) == Err::<
                int,
                StopView,
            >(StopView::Await(ActionView::SyncDirectory { slot: dir.slot }))
            &&& file_filled(replies, at + 3, Slot::Temporary, bytes) matches Ok((Ok(()), _))
        }),
{
}

/// A replaced document is durable, in the same way.
pub proof fn law_replaced_document_is_durable(
    replies: Seq<Reply>,
    at: int,
    dir: DirView,
    name: Seq<char>,
    bytes: Seq<u8>,
    euid: u32,
)
    requires
        0 <= at <= replies.len(),
        document_replaced(replies, at, dir, name, bytes, euid) is Ok,
    ensures
        ({
            let end = document_replaced(replies, at, dir, name, bytes, euid)->Ok_0;
            &&& at + 3 <= end <= replies.len()
            &&& replies[end - 1] is Done
            &&& document_replaced(replies.take(end - 1), at, dir, name, bytes, euid) == Err::<
                int,
                StopView,
            >(StopView::Await(ActionView::SyncDirectory { slot: dir.slot }))
            &&& exists|k: int|
                at < k < end && (#[trigger] file_filled(replies, k, Slot::Temporary, bytes)) is Ok
                    && file_filled(replies, k, Slot::Temporary, bytes)->Ok_0.0 is Ok
        }),
{
    let k = if replies[at] is Done {
        at + 4
    } else {
        at + 3
    };
    assert(file_filled(replies, k, Slot::Temporary, bytes) is Ok);
}

/// An acquired lease of the service names this process, durably: its file is cut,
/// filled with just that and made durable, and so is its directory.
#[verifier::rlimit(40)]
pub proof fn law_acquired_service_lease_is_filled(replies: Seq<Reply>, at: int, service: Service)
    requires
        0 <= at,
        lease_acquired(replies, at, service) is Ok,
    ensures
        ({
            let end = lease_acquired(replies, at, service)->Ok_0;
            &&& at + 5 <= end <= replies.len()
            &&& forall|k: int| end - 5 <= k < end ==> (#[trigger] replies[k]) is Done
            &&& exists|k: int|
                (#[trigger] start_token(replies, k, service.platform, service.pid, service.euid))
                    is Ok && lease_acquired(replies.take(end - 3), at, service) == Err::<
                    int,
                    StopView,
                >(
                    StopView::Await(
                        ActionView::Write {
                            slot: Slot::Lease,
                            bytes: encode_utf8(
                                "{\"lease_version\":1,\"pid\":"@ + decimal(service.pid as nat)
                                    + ",\"start_token\":"@ + json_quoted(
                                    start_token(
                                        replies,
                                        k,
                                        service.platform,
                                        service.pid,
                                        service.euid,
                                    )->Ok_0.0,
                                ) + "}\n"@,
                            ),
                        },
                    ),
                )
            &&& lease_acquired(replies.take(end - 2), at, service) == Err::<int, StopView>(
                StopView::Await(ActionView::SyncFile { slot: Slot::Lease }),
            )
            &&& lease_acquired(replies.take(end - 1), at, service) == Err::<int, StopView>(
                StopView::Await(ActionView::SyncDirectory { slot: Slot::Runtime }),
            )
        }),
{
    let (token, d) = token_stage(replies, at, service)->Ok_0;
    lemma_lease_end(replies, at, service);
    lemma_lease_prefix(replies, at, service, d + 2);
    lemma_lease_prefix(replies, at, service, d + 3);
    lemma_lease_prefix(replies, at, service, d + 4);
    lemma_token_stage_given(replies, at, service);
}

proof fn lemma_lease_end(replies: Seq<Reply>, at: int, service: Service)
    requires
        0 <= at,
        lease_acquired(replies, at, service) is Ok,
    ensures
        token_stage(replies, at, service) is Ok,
        ({
            let (token, d) = token_stage(replies, at, service)->Ok_0;
            &&& at <= d
            &&& d + 5 <= replies.len()
            &&& lease_acquired(replies, at, service)->Ok_0 == d + 5
            &&& forall|k: int| d <= k < d + 5 ==> (#[trigger] replies[k]) is Done
        }),
{
    lemma_token_stage(replies, at, service);
    lemma_token_stage_given(replies, at, service);
}

proof fn lemma_lease_prefix(replies: Seq<Reply>, at: int, service: Service, n: int)
    requires
        0 <= at,
        token_stage(replies, at, service) is Ok,
        ({
            let d = token_stage(replies, at, service)->Ok_0.1;
            &&& at <= d
            &&& d + 5 <= replies.len()
            &&& d + 2 <= n < d + 5
            &&& forall|k: int| d <= k < d + 5 ==> (#[trigger] replies[k]) is Done
        }),
    ensures
        ({
            let (token, d) = token_stage(replies, at, service)->Ok_0;
            lease_acquired(replies.take(n), at, service) == Err::<int, StopView>(
                StopView::Await(
                    if n == d + 2 {
                        ActionView::Write {
                            slot: Slot::Lease,
                            bytes: encode_utf8(lease_body(service.pid, token)),
                        }
                    } else if n == d + 3 {
                        ActionView::SyncFile { slot: Slot::Lease }
                    } else {
                        ActionView::SyncDirectory { slot: Slot::Runtime }
                    },
                ),
            )
        }),
{
    lemma_token_stage_settles(replies, at, service, n);
    lemma_token_stage(replies.take(n), at, service);
}

proof fn lemma_token_stage_given(replies: Seq<Reply>, at: int, service: Service)
    requires
        0 <= at,
        token_stage(replies, at, service) is Ok,
    ensures
        at <= token_stage(replies, at, service)->Ok_0.1 <= replies.len(),
        exists|k: int|
            (#[trigger] start_token(replies, k, service.platform, service.pid, service.euid))
                is Ok && start_token(replies, k, service.platform, service.pid, service.euid)
                == token_stage(replies, at, service),
{
    reveal(token_stage);
    let dir = service.runtime();
    let name = crate::service::SERVICE_LEASE_FILE@;
    let changed = "service lease changed while it was acquired"@;
    let a = file_ensured(replies, at, dir, name, Slot::Lease, service.euid)->Ok_0;
    let c = lease_recognised(replies, a + 1, dir, changed, service.euid)->Ok_0;
    assert(at <= a && a + 1 <= c);
    lemma_start_token_ends(replies, c, service.platform, service.pid, service.euid);
}

proof fn lemma_start_token_ends(
    replies: Seq<Reply>,
    at: int,
    platform: Platform,
    pid: u32,
    euid: u32,
)
    requires
        0 <= at,
        start_token(replies, at, platform, pid, euid) is Ok,
    ensures
        at <= start_token(replies, at, platform, pid, euid)->Ok_0.1 <= replies.len(),
        forall|n: int|
            start_token(replies, at, platform, pid, euid)->Ok_0.1 <= n <= replies.len()
                ==> #[trigger] start_token(replies.take(n), at, platform, pid, euid)
                == start_token(replies, at, platform, pid, euid),
{
}

#[verifier::opaque]
spec fn token_stage(replies: Seq<Reply>, at: int, service: Service) -> Run<Seq<char>> {
    let dir = service.runtime();
    match file_ensured(
        replies,
        at,
        dir,
        crate::service::SERVICE_LEASE_FILE@,
        Slot::Lease,
        service.euid,
    ) {
        Err(stop) => Err(stop),
        Ok(at) => match must_do(
            replies,
            at,
            ActionView::LockExclusive { slot: Slot::Lease },
            "duplicate_service"@,
            crate::text::joined(dir.path, crate::service::SERVICE_LEASE_FILE@),
        ) {
            Err(stop) => Err(stop),
            Ok(at) => match lease_recognised(
                replies,
                at,
                dir,
                "service lease changed while it was acquired"@,
                service.euid,
            ) {
                Err(stop) => Err(stop),
                Ok(at) => start_token(replies, at, service.platform, service.pid, service.euid),
            },
        },
    }
}

proof fn lemma_token_stage(replies: Seq<Reply>, at: int, service: Service)
    ensures
        lease_acquired(replies, at, service) == match token_stage(replies, at, service) {
            Err(stop) => Err(stop),
            Ok((token, at)) => match lease_filled(
                replies,
                at,
                encode_utf8(lease_body(service.pid, token)),
            ) {
                Err(stop) => Err(stop),
                Ok(at) => directory_synced(replies, at, Slot::Runtime),
            },
        },
{
    reveal(token_stage);
}

proof fn lemma_token_stage_settles(replies: Seq<Reply>, at: int, service: Service, n: int)
    requires
        0 <= at,
        token_stage(replies, at, service) is Ok,
        token_stage(replies, at, service)->Ok_0.1 <= n <= replies.len(),
    ensures
        token_stage(replies.take(n), at, service) == token_stage(replies, at, service),
{
    reveal(token_stage);
    let dir = service.runtime();
    let name = crate::service::SERVICE_LEASE_FILE@;
    let changed = "service lease changed while it was acquired"@;
    let a = file_ensured(replies, at, dir, name, Slot::Lease, service.euid)->Ok_0;
    let c = lease_recognised(replies, a + 1, dir, changed, service.euid)->Ok_0;
    assert(at <= a && a + 1 <= c);
    lemma_start_token_ends(replies, c, service.platform, service.pid, service.euid);
    let early = replies.take(n);
    assert(file_ensured(early, at, dir, name, Slot::Lease, service.euid) == Ok::<int, StopView>(a));
    assert(lease_recognised(early, a + 1, dir, changed, service.euid) == Ok::<int, StopView>(c));
    assert(start_token(early, c, service.platform, service.pid, service.euid) == start_token(
        replies,
        c,
        service.platform,
        service.pid,
        service.euid,
    ));
}

/// Where the service was found unchanged, the file under the name of its lease is
/// the very file that this process holds.
pub proof fn law_unchanged_service_holds_its_lease(
    replies: Seq<Reply>,
    at: int,
    service: Service,
)
    requires
        0 <= at,
        service_revalidated(replies, at, service) is Ok,
    ensures
        ({
            let end = service_revalidated(replies, at, service)->Ok_0;
            &&& at + 2 <= end <= replies.len()
            &&& replies[end - 2] is Stat && replies[end - 1] is Stat
            &&& replies[end - 2]->Stat_0.dev == replies[end - 1]->Stat_0.dev
            &&& replies[end - 2]->Stat_0.ino == replies[end - 1]->Stat_0.ino
            &&& service_revalidated(replies.take(end - 2), at, service) == Err::<int, StopView>(
                StopView::Await(ActionView::Stat { slot: Slot::Lease }),
            )
            &&& service_revalidated(replies.take(end - 1), at, service) == Err::<int, StopView>(
                StopView::Await(ActionView::Stat { slot: Slot::CurrentLease }),
            )
            &&& runtime_revalidated(replies, at, service.base, service.euid) is Ok
        }),
{
}

/// A service that was initialized holds its lease, has withdrawn the descriptor of
/// an earlier one, and has found no socket, or none that is served, in its place.
pub proof fn law_initialized_service_is_alone(replies: Seq<Reply>, at: int, service: Service)
    requires
        initialized(replies, at, service) is Ok,
    ensures
        exists|k: int| (#[trigger] lease_acquired(replies, k, service)) is Ok,
        exists|k: int|
            (#[trigger] removed(
                replies,
                k,
                service.runtime(),
                "wez-dmux.json"@,
                service.euid,
            )) is Ok,
        exists|k: int|
            (#[trigger] socket_made_absent(replies, k, service)) is Ok && socket_made_absent(
                replies,
                k,
                service,
            ) == initialized(replies, at, service),
{
    let a = base_opened(replies, at, service.base, Slot::Base, service.euid)->Ok_0;
    let b = child_ensured(
        replies,
        a.1,
        a.0,
        crate::private_dir::RUNTIME_DIR@,
        Slot::Runtime,
        service.euid,
    )->Ok_0;
    let c = lease_acquired(replies, b.1, service);
    assert(c is Ok);
    let d = service_revalidated(replies, c->Ok_0, service);
    assert(d is Ok);
    let e = removed(replies, d->Ok_0, service.runtime(), "wez-dmux.json"@, service.euid);
    assert(e is Ok);
    assert(socket_made_absent(replies, e->Ok_0.1, service) is Ok);
}

/// A file of up to its limit is written, and a longer one is refused before anything
/// is made for it.
pub proof fn law_file_within_its_limit_is_written(
    replies: Seq<Reply>,
    at: int,
    dir: DirView,
    name: Seq<char>,
    bytes: Seq<u8>,
    maximum: usize,
    euid: u32,
)
    requires
        at >= replies.len(),
    ensures
        bytes.len() <= maximum ==> temporary_created(replies, at, dir, bytes, maximum, euid)
            == Err::<(Seq<char>, int), StopView>(StopView::Await(ActionView::DrawIdentifier)),
        bytes.len() > maximum ==> temporary_created(replies, at, dir, bytes, maximum, euid) matches Err(
            StopView::Refuse(_),
        ),
        is_component(name) && bytes.len() <= 65536 ==> document_created(
            replies,
            at,
            dir,
            name,
            bytes,
            euid,
        ) == Err::<int, StopView>(
            StopView::Await(
                ActionView::CreateFile {
                    dir: dir.slot,
                    name,
                    access: Access::Write,
                    into: Slot::Temporary,
                },
            ),
        ),
        !is_component(name) || bytes.len() > 65536 ==> document_created(
            replies,
            at,
            dir,
            name,
            bytes,
            euid,
        ) matches Err(StopView::Refuse(_)),
{
}

/// A held file is read in whole where it is private, within the limit and of one
/// length throughout; and a document is where it is within the limit.
pub proof fn law_file_within_its_limit_is_read(
    replies: Seq<Reply>,
    at: int,
    slot: Slot,
    path: Seq<char>,
    dir: DirView,
    name: Seq<char>,
    maximum: usize,
    euid: u32,
)
    requires
        0 <= at,
        at + 3 < replies.len(),
    ensures
        held_read(replies, at, slot, path, maximum, euid) is Ok <==> {
            &&& replies[at] is Stat && is_private_file(replies[at]->Stat_0, euid)
            &&& replies[at + 1] is Stat && replies[at + 1]->Stat_0.len <= maximum
            &&& replies[at + 2] is Bytes && replies[at + 2]->Bytes_0@.len() <= maximum
            &&& replies[at + 3] is Stat
            &&& replies[at + 1]->Stat_0.len == replies[at + 3]->Stat_0.len
            &&& replies[at + 2]->Bytes_0@.len() == replies[at + 3]->Stat_0.len
        },
        held_read(replies, at, slot, path, maximum, euid) matches Ok((bytes, end)) ==> end == at + 4
            && bytes == replies[at + 2]->Bytes_0@,
        is_component(name) ==> ((document_read(replies, at, dir, name, maximum, euid) matches Ok(
            (Some(_), _),
        )) <==> {
            &&& replies[at] is Done
            &&& replies[at + 1] is Stat && is_private_file(replies[at + 1]->Stat_0, euid)
            &&& replies[at + 2] is Stat && replies[at + 2]->Stat_0.len <= maximum
            &&& replies[at + 3] is Bytes && replies[at + 3]->Bytes_0@.len() <= maximum
        }),
        document_read(replies, at, dir, name, maximum, euid) matches Ok((Some(bytes), end)) ==> end
            == at + 4 && bytes == replies[at + 3]->Bytes_0@,
{
}

/// A file that is replaced is emptied, durably, once the new one stands; where there
/// was none, nothing is emptied.
pub proof fn law_replaced_file_is_emptied(
    replies: Seq<Reply>,
    at: int,
    dir: DirView,
    name: Seq<char>,
    bytes: Seq<u8>,
    maximum: usize,
    euid: u32,
)
    requires
        0 <= at <= replies.len(),
        published(replies, at, dir, name, bytes, maximum, euid) is Ok,
    ensures
        ({
            let end = published(replies, at, dir, name, bytes, maximum, euid)->Ok_0;
            let existing = existing_held(
                replies,
                at,
                dir,
                name,
                "publish_failed"@,
                euid,
            )->Ok_0.0;
            &&& existing is Some ==> published(
                replies.take(end - 2),
                at,
                dir,
                name,
                bytes,
                maximum,
                euid,
            ) == Err::<int, StopView>(
                StopView::Await(ActionView::SyncFile { slot: Slot::Existing }),
            ) && published(replies.take(end - 3), at, dir, name, bytes, maximum, euid) == Err::<
                int,
                StopView,
            >(StopView::Await(ActionView::Truncate { slot: Slot::Existing }))
            &&& existing is None ==> published(
                replies.take(end - 2),
                at,
                dir,
                name,
                bytes,
                maximum,
                euid,
            ) == Err::<int, StopView>(StopView::Await(ActionView::Stat { slot: Slot::Published }))
        }),
{
    let (existing, a) = existing_held(replies, at, dir, name, "publish_failed"@, euid)->Ok_0;
    let (temporary, b) = temporary_created(replies, a, dir, bytes, maximum, euid)->Ok_0;
    assert(b == a + 6);
}

} // verus!
