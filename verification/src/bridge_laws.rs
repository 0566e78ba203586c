//! What the operations of the bridge demand before they do anything, and what they
//! hand over.

use crate::bridge::{
    bridge_entered, instance_claimed, instance_entered, key_preflight, key_read, opening_failure,
    spool_opened,
};
use crate::bridge_dir::{
    bridge_base_opened, bridge_child_ensured, document_opened, document_read, document_replaced,
    new_document_written, request_read,
};
use crate::bridge_documents::{
    ack_name, ack_read, ack_written, completion_documents_read, completion_refusal, consumed_read,
    context_read, descriptor_identity, heartbeat_written, replay_ack_name,
};
use crate::bridge_lease::{instance_lease_acquired, lease_failure, lease_required, BridgeView};
use crate::bridge_requests::{
    least_request, maximum_failure, request_consumed, request_discarded, request_next,
    source_opened, source_recognised,
};
use crate::dialogue::{ActionView, Reply, Slot, StopView};
use crate::descriptor_io::only_looks;
use crate::failure::{failure, OsErrorKind};
use crate::identifier::{
    is_canonical_uuid, is_component, is_instance, request_name, request_uid,
};
use crate::json::{entry, json_document, object_of, text_of, unsigned_of};
use crate::order::text_before;
use crate::private_dir::{is_private_file, BasePath, DirView};
use crate::text::{decimal, joined};
use vstd::prelude::*;
use vstd::utf8::encode_utf8;

verus! {

/// No operation does anything before the lease was found to be held: where the
/// lease stops it, it stops with just that.
pub proof fn law_every_operation_needs_the_lease(
    replies: Seq<Reply>,
    bridge: BridgeView,
    uid: Seq<char>,
    name: Seq<char>,
    body: Seq<u8>,
    pane_id: u64,
    maximum: usize,
    platform_action: Seq<char>,
)
    requires
        lease_required(replies, 0, bridge) is Err,
    ensures
        ({
            let stop = lease_required(replies, 0, bridge)->Err_0;
            &&& ack_written(replies, bridge, uid, name, body) == Err::<int, StopView>(stop)
            &&& heartbeat_written(replies, bridge, body) == Err::<int, StopView>(stop)
            &&& context_read(replies, bridge, pane_id, maximum) is Err && context_read(
                replies,
                bridge,
                pane_id,
                maximum,
            )->Err_0 == stop
            &&& ack_read(replies, 0, bridge, uid, maximum) is Err && ack_read(
                replies,
                0,
                bridge,
                uid,
                maximum,
            )->Err_0 == stop
            &&& consumed_read(replies, 0, bridge, uid, maximum) is Err && consumed_read(
                replies,
                0,
                bridge,
                uid,
                maximum,
            )->Err_0 == stop
            &&& completion_documents_read(replies, bridge, uid, platform_action) is Err
                && completion_documents_read(replies, bridge, uid, platform_action)->Err_0 == stop
            &&& request_next(replies, bridge, maximum) is Err && request_next(
                replies,
                bridge,
                maximum,
            )->Err_0 == stop
            &&& request_consumed(replies, bridge, uid) == Err::<int, StopView>(stop)
            &&& request_discarded(replies, bridge, uid) == Err::<int, StopView>(stop)
        }),
{
}

/// With the lease held, the heartbeat replaces the document of that name in the
/// directory of the instance.
pub proof fn law_heartbeat_is_the_instances(
    replies: Seq<Reply>,
    bridge: BridgeView,
    body: Seq<u8>,
    at: int,
)
    requires
        lease_required(replies, 0, bridge) == Ok::<int, StopView>(at),
    ensures
        heartbeat_written(replies, bridge, body) == document_replaced(
            replies,
            at,
            DirView { slot: Slot::Instance, path: bridge.path },
            "heartbeat.json"@,
            body,
            bridge.euid,
        ),
{
}

/// With the lease held, the context of a pane is the document of its number among
/// the contexts. A number that cannot be written exactly, or a limit out of bounds,
/// is refused before anything is read.
pub proof fn law_context_is_that_of_the_pane(
    replies: Seq<Reply>,
    bridge: BridgeView,
    pane_id: u64,
    maximum: usize,
    at: int,
)
    requires
        lease_required(replies, 0, bridge) == Ok::<int, StopView>(at),
    ensures
        pane_id <= 9_007_199_254_740_991 && 1 <= maximum <= 65536 ==> context_read(
            replies,
            bridge,
            pane_id,
            maximum,
        ) == document_read(
            replies,
            at,
            bridge.below(Slot::Context, "context"@),
            decimal(pane_id as nat) + ".json"@,
            maximum,
            bridge.euid,
        ),
        pane_id > 9_007_199_254_740_991 || maximum == 0 || maximum > 65536 ==> context_read(
            replies,
            bridge,
            pane_id,
            maximum,
        ) matches Err(StopView::Refuse(_)),
{
}

/// With the lease held and a canonical identifier, an acknowledgement is a new
/// document among the acknowledgements, a consumed request one among the consumed
/// ones, and each is read under the name that it is written under.
pub proof fn law_documents_are_found_by_their_identifier(
    replies: Seq<Reply>,
    bridge: BridgeView,
    uid: Seq<char>,
    body: Seq<u8>,
    maximum: usize,
    at: int,
)
    requires
        lease_required(replies, 0, bridge) == Ok::<int, StopView>(at),
        is_canonical_uuid(uid),
        1 <= maximum <= 65536,
    ensures
        ack_written(replies, bridge, uid, ack_name(uid), body) == new_document_written(
            replies,
            at,
            bridge.below(Slot::Acks, "acks"@),
            "ack-"@ + uid + ".json"@,
            body,
            bridge.euid,
        ),
        ack_written(replies, bridge, uid, replay_ack_name(uid), body) == new_document_written(
            replies,
            at,
            bridge.below(Slot::Acks, "acks"@),
            "ack-"@ + uid + ".replay.json"@,
            body,
            bridge.euid,
        ),
        ack_read(replies, 0, bridge, uid, maximum) == document_read(
            replies,
            at,
            bridge.below(Slot::Acks, "acks"@),
            "ack-"@ + uid + ".json"@,
            maximum,
            bridge.euid,
        ),
        consumed_read(replies, 0, bridge, uid, maximum) == document_read(
            replies,
            at,
            bridge.below(Slot::Consumed, "consumed"@),
            request_name(uid),
            maximum,
            bridge.euid,
        ),
{
}

/// What is no canonical identifier names no document: it is refused before
/// anything is read or written.
pub proof fn law_no_document_without_an_identifier(
    replies: Seq<Reply>,
    bridge: BridgeView,
    uid: Seq<char>,
    name: Seq<char>,
    body: Seq<u8>,
    maximum: usize,
    platform_action: Seq<char>,
)
    requires
        lease_required(replies, 0, bridge) is Ok,
        !is_canonical_uuid(uid),
    ensures
        ack_written(replies, bridge, uid, name, body) matches Err(StopView::Refuse(_)),
        ack_read(replies, 0, bridge, uid, maximum) matches Err(StopView::Refuse(_)),
        consumed_read(replies, 0, bridge, uid, maximum) matches Err(StopView::Refuse(_)),
        completion_documents_read(replies, bridge, uid, platform_action) matches Err(
            StopView::Refuse(_),
        ),
        request_consumed(replies, bridge, uid) matches Err(StopView::Refuse(_)),
        request_discarded(replies, bridge, uid) matches Err(StopView::Refuse(_)),
{
}

/// The two documents of a completion are the consumed request and the primary
/// acknowledgement of one identifier, for a quit or a hide.
pub proof fn law_completion_documents_belong_together(
    replies: Seq<Reply>,
    bridge: BridgeView,
    uid: Seq<char>,
    platform_action: Seq<char>,
)
    requires
        completion_documents_read(replies, bridge, uid, platform_action) is Ok,
    ensures
        is_canonical_uuid(uid),
        platform_action == "quit"@ || platform_action == "hide"@,
        ({
            let ((consumed, ack), end) = completion_documents_read(
                replies,
                bridge,
                uid,
                platform_action,
            )->Ok_0;
            let first = consumed_read(
                replies,
                lease_required(replies, 0, bridge)->Ok_0,
                bridge,
                uid,
                65536,
            );
            let second = ack_read(replies, first->Ok_0.1, bridge, uid, 65536);
            &&& first is Ok && first->Ok_0.0 == Some(consumed)
            &&& second is Ok && second->Ok_0.0 == Some(ack)
            &&& second->Ok_0.1 == end
        }),
{
}

/// A completion is performed exactly for a quit or a hide of a managed GUI, on its
/// own thread.
pub proof fn law_completion_is_for_the_managed_gui(
    dmux_managed_gui: bool,
    on_gui_thread: bool,
    platform_action: Seq<char>,
)
    ensures
        completion_refusal(dmux_managed_gui, on_gui_thread, platform_action) is None <==> (
        platform_action == "quit"@ || platform_action == "hide"@) && dmux_managed_gui
            && on_gui_thread,
        platform_action == "quit"@ && !dmux_managed_gui ==> completion_refusal(
            dmux_managed_gui,
            on_gui_thread,
            platform_action,
        ) == Some(
            failure(
                "completion_disabled"@,
                "dmux_safe_quit_application is available only when dmux_managed_gui is enabled"@,
            ),
        ),
        platform_action == "hide"@ && !dmux_managed_gui ==> completion_refusal(
            dmux_managed_gui,
            on_gui_thread,
            platform_action,
        ) == Some(
            failure(
                "completion_disabled"@,
                "dmux_safe_hide_application is available only when dmux_managed_gui is enabled"@,
            ),
        ),
        completion_refusal(dmux_managed_gui, on_gui_thread, platform_action) matches Some(refusal)
            ==> refusal.code == "completion_action"@ || refusal.code == "completion_disabled"@
            || refusal.code == "completion_thread"@,
{
    reveal_strlit("quit");
    reveal_strlit("hide");
    assert("quit"@[0] == 'q' && "hide"@[0] == 'h');
}

/// A limit on documents is accepted from one byte up to 65536.
pub proof fn law_document_limits(maximum: usize)
    ensures
        maximum_failure(maximum) is None <==> 1 <= maximum <= 65536,
{
}

/// The identity of a descriptor is what its document says under the two names,
/// exactly where it is an object that says both as canonical identifiers.
pub proof fn law_descriptor_identity_is_what_it_says(raw: Option<Seq<u8>>)
    ensures
        match descriptor_identity(raw) {
            Ok((backend, epoch)) => {
                &&& raw is Some
                &&& json_document(raw->0) is Ok
                &&& object_of(Some(json_document(raw->0)->Ok_0)) is Some
                &&& ({
                    let entries = object_of(Some(json_document(raw->0)->Ok_0))->0;
                    text_of(entry(entries, "backend_instance_uid"@)) == Some(backend) && text_of(
                        entry(entries, "epoch"@),
                    ) == Some(epoch)
                })
                &&& is_canonical_uuid(backend)
                &&& is_canonical_uuid(epoch)
            },
            Err(_) => !(raw is Some && json_document(raw->0) is Ok && object_of(
                Some(json_document(raw->0)->Ok_0),
            ) is Some && ({
                let entries = object_of(Some(json_document(raw->0)->Ok_0))->0;
                let backend = text_of(entry(entries, "backend_instance_uid"@));
                let epoch = text_of(entry(entries, "epoch"@));
                backend is Some && is_canonical_uuid(backend->0) && epoch is Some
                    && is_canonical_uuid(epoch->0)
            })),
        },
{
}

/// A lease counts as held exactly where its document is an object of four fields
/// that names the version, the instance, the process and its start.
pub proof fn law_lease_names_its_holder(
    raw: Seq<u8>,
    instance: Seq<char>,
    pid: u32,
    token: Seq<char>,
)
    ensures
        lease_failure(raw, instance, pid, token) is None <==> {
            let document = json_document(raw);
            let entries = object_of(Some(document->Ok_0));
            &&& document is Ok
            &&& entries is Some
            &&& entries->0.len() == 4
            &&& unsigned_of(entry(entries->0, "lease_version"@)) == Some(1u64)
            &&& text_of(entry(entries->0, "gui_instance"@)) == Some(instance)
            &&& unsigned_of(entry(entries->0, "pid"@)) == Some(pid as u64)
            &&& text_of(entry(entries->0, "process_start_token"@)) == Some(token)
        },
{
}

/// Where the lease was found to be held, the file under its name was the very file
/// that this process holds, and its contents name this instance and this process.
pub proof fn law_held_lease_is_this_process(replies: Seq<Reply>, at: int, bridge: BridgeView)
    requires
        0 <= at,
        lease_required(replies, at, bridge) is Ok,
    ensures
        exists|i: int, j: int|
            at <= i < j < replies.len() && (#[trigger] replies[i]) is Stat && (
            #[trigger] replies[j]) is Stat && replies[i]->Stat_0.dev == replies[j]->Stat_0.dev
                && replies[i]->Stat_0.ino == replies[j]->Stat_0.ino,
        exists|k: int|
            at <= k < replies.len() && (#[trigger] replies[k]) is Bytes && lease_failure(
                replies[k]->Bytes_0@,
                bridge.instance,
                bridge.pid,
                bridge.process_start_token,
            ) is None,
{
    let end = lease_required(replies, at, bridge)->Ok_0;
    assert(replies[end - 1] is Bytes);
    assert(replies[at + 3] is Stat && replies[at + 4] is Stat);
}

/// The key of the bridge is handed out exactly as it was read, and only if it has
/// 32 bytes.
pub proof fn law_key_is_whole(replies: Seq<Reply>, at: int, dir: DirView, euid: u32)
    ensures
        key_read(replies, at, dir, euid) matches Ok((key, end)) ==> key.len() == 32
            && document_read(replies, at, dir, "key"@, 32, euid) == Ok::<
            (Option<Seq<u8>>, int),
            StopView,
        >((Some(key), end)),
        document_read(replies, at, dir, "key"@, 32, euid) matches Ok((Some(key), end)) ==> (key.len()
            == 32 <==> key_read(replies, at, dir, euid) is Ok),
{
}

/// A spool is opened only for a well-formed instance of an identified process, and
/// what is opened is that instance, with a whole key.
pub proof fn law_opened_spool_is_the_instances(
    replies: Seq<Reply>,
    base: BasePath,
    instance: Seq<char>,
    pid: u32,
    token: Seq<char>,
    euid: u32,
)
    ensures
        opening_failure(instance, pid, token) is None <==> is_instance(instance) && pid != 0
            && token.len() > 0 && encode_utf8(token).len() <= 256,
        spool_opened(replies, base, instance, pid, token, euid) matches Ok(((bridge, key), _)) ==> {
            &&& opening_failure(instance, pid, token) is None
            &&& bridge.instance == instance
            &&& bridge.pid == pid
            &&& bridge.process_start_token == token
            &&& bridge.euid == euid
            &&& key.len() == 32
        },
{
}

/// The request that is handed out is the first of those that were listed, and is
/// handed out under the identifier in its name. Nothing is handed out exactly where
/// no request was listed.
pub proof fn law_first_request_is_handed_out(
    replies: Seq<Reply>,
    bridge: BridgeView,
    maximum: usize,
)
    requires
        lease_required(replies, 0, bridge) is Ok,
        request_next(replies, bridge, maximum) is Ok,
    ensures
        ({
            let at = lease_required(replies, 0, bridge)->Ok_0;
            let names = replies[at]->Names_0@;
            &&& at < replies.len()
            &&& replies[at] is Names
            &&& match request_next(replies, bridge, maximum)->Ok_0.0 {
                None => forall|i: int|
                    0 <= i < names.len() && (#[trigger] names[i]) is Some ==> request_uid(
                        names[i]->0@,
                    ) is None,
                Some(request) => {
                    &&& least_request(names) is Some
                    &&& request_uid(least_request(names)->0) == Some(request.uid)
                    &&& exists|i: int|
                        0 <= i < names.len() && (#[trigger] names[i]) is Some && names[i]->0@
                            == least_request(names)->0
                    &&& forall|i: int|
                        0 <= i < names.len() && (#[trigger] names[i]) is Some && request_uid(
                            names[i]->0@,
                        ) is Some ==> !text_before(names[i]->0@, least_request(names)->0)
                    &&& ({
                        let read = request_read(
                            replies,
                            at + 1,
                            bridge.below(Slot::Requests, "requests"@),
                            least_request(names)->0,
                            maximum,
                            bridge.euid,
                        );
                        read is Ok && read->Ok_0.0 == (request.body, request.length)
                    })
                },
            }
        }),
{
    let at = lease_required(replies, 0, bridge)->Ok_0;
    let names = replies[at]->Names_0@;
    lemma_least_is_listed(names);
    assert forall|i: int|
        0 <= i < names.len() && (#[trigger] names[i]) is Some && request_uid(names[i]->0@)
            is Some implies least_request(names) is Some && !text_before(
        names[i]->0@,
        least_request(names)->0,
    ) by {
        crate::bridge_requests::law_requests_are_handed_out_in_order(names, i);
    }
}

proof fn lemma_least_is_listed(names: Seq<Option<String>>)
    ensures
        least_request(names) is Some ==> request_uid(least_request(names)->0) is Some && exists|
            i: int,
        |
            0 <= i < names.len() && (#[trigger] names[i]) is Some && names[i]->0@
                == least_request(names)->0,
    decreases names.len(),
{
    if names.len() > 0 {
        let rest = names.drop_last();
        lemma_least_is_listed(rest);
        assert(names[names.len() - 1] == names.last());
        if least_request(rest) is Some {
            let i = choose|i: int|
                0 <= i < rest.len() && (#[trigger] rest[i]) is Some && rest[i]->0@
                    == least_request(rest)->0;
            assert(names[i] == rest[i]);
        }
    }
}

/// A consumed request is durable: what was asked last, and granted, is that the
/// entries of both directories are made so.
pub proof fn law_consumption_is_durable(replies: Seq<Reply>, bridge: BridgeView, uid: Seq<char>)
    requires
        request_consumed(replies, bridge, uid) is Ok,
    ensures
        ({
            let end = request_consumed(replies, bridge, uid)->Ok_0;
            &&& 2 <= end <= replies.len()
            &&& replies[end - 1] is Done
            &&& replies[end - 2] is Done
            &&& request_consumed(replies.take(end - 1), bridge, uid) == Err::<int, StopView>(
                StopView::Await(ActionView::SyncDirectory { slot: Slot::Consumed }),
            )
            &&& request_consumed(replies.take(end - 2), bridge, uid) == Err::<int, StopView>(
                StopView::Await(ActionView::SyncDirectory { slot: Slot::Requests }),
            )
        }),
{
}

/// A discarded request is durably gone: what was asked last, and granted, is that
/// the entries of its directory are made so.
pub proof fn law_discarding_is_durable(replies: Seq<Reply>, bridge: BridgeView, uid: Seq<char>)
    requires
        request_discarded(replies, bridge, uid) is Ok,
    ensures
        ({
            let end = request_discarded(replies, bridge, uid)->Ok_0;
            &&& 1 <= end <= replies.len()
            &&& replies[end - 1] is Done
            &&& request_discarded(replies.take(end - 1), bridge, uid) == Err::<int, StopView>(
                StopView::Await(ActionView::SyncDirectory { slot: Slot::Requests }),
            )
        }),
{
}

/// An acquired lease names this instance and this process, durably: it is cut,
/// filled with just that, and made durable, and so is its directory.
pub proof fn law_acquired_lease_is_filled(replies: Seq<Reply>, at: int, bridge: BridgeView)
    requires
        0 <= at,
        instance_lease_acquired(replies, at, bridge) is Ok,
    ensures
        ({
            let end = instance_lease_acquired(replies, at, bridge)->Ok_0;
            let body = "{\"gui_instance\":"@ + crate::json::json_quoted(bridge.instance)
                + ",\"lease_version\":"@ + decimal(1) + ",\"pid\":"@ + decimal(bridge.pid as nat)
                + ",\"process_start_token\":"@ + crate::json::json_quoted(
                bridge.process_start_token,
            ) + "}"@;
            &&& at + 5 <= end <= replies.len()
            &&& forall|k: int| end - 5 <= k < end ==> (#[trigger] replies[k]) is Done
            &&& instance_lease_acquired(replies.take(end - 5), at, bridge) == Err::<int, StopView>(
                StopView::Await(ActionView::Truncate { slot: Slot::Lease }),
            )
            &&& instance_lease_acquired(replies.take(end - 3), at, bridge) == Err::<int, StopView>(
                StopView::Await(
                    ActionView::Write { slot: Slot::Lease, bytes: encode_utf8(body) },
                ),
            )
            &&& instance_lease_acquired(replies.take(end - 2), at, bridge) == Err::<int, StopView>(
                StopView::Await(ActionView::SyncFile { slot: Slot::Lease }),
            )
            &&& instance_lease_acquired(replies.take(end - 1), at, bridge) == Err::<int, StopView>(
                StopView::Await(ActionView::SyncDirectory { slot: Slot::Instance }),
            )
        }),
{
}

/// The spool of an instance stands in the directory of that instance, which this
/// process claimed, and its lease was acquired there.
pub proof fn law_opened_spool_is_claimed(
    replies: Seq<Reply>,
    base: BasePath,
    instance: Seq<char>,
    pid: u32,
    token: Seq<char>,
    euid: u32,
)
    requires
        spool_opened(replies, base, instance, pid, token, euid) is Ok,
    ensures
        ({
            let ((bridge, key), end) = spool_opened(
                replies,
                base,
                instance,
                pid,
                token,
                euid,
            )->Ok_0;
            &&& bridge.path == joined(
                joined(joined(joined(base.display@, "dmux"@), "bridge"@), "instances"@),
                instance,
            )
            &&& exists|k: int|
                (#[trigger] instance_claimed(replies, k, instance)) is Ok && replies[k]
                    == Reply::Flag(true) && instance_lease_acquired(replies, k + 1, bridge) == Ok::<
                    int,
                    StopView,
                >(end)
            &&& exists|k: int|
                (#[trigger] key_read(
                    replies,
                    k,
                    DirView {
                        slot: Slot::Bridge,
                        path: joined(joined(base.display@, "dmux"@), "bridge"@),
                    },
                    euid,
                )) is Ok && key_read(
                    replies,
                    k,
                    DirView {
                        slot: Slot::Bridge,
                        path: joined(joined(base.display@, "dmux"@), "bridge"@),
                    },
                    euid,
                )->Ok_0.0 == key
        }),
{
    let ((dir, key), at) = bridge_entered(replies, base, euid)->Ok_0;
    lemma_bridge_entered(replies, base, euid);
    let (inner, next) = instance_entered(replies, at, dir, instance, euid)->Ok_0;
    lemma_instance_entered(replies, at, dir, instance, euid);
    assert(instance_claimed(replies, next, instance) is Ok);
}

proof fn lemma_bridge_entered(replies: Seq<Reply>, base: BasePath, euid: u32)
    requires
        bridge_entered(replies, base, euid) is Ok,
    ensures
        ({
            let ((dir, key), at) = bridge_entered(replies, base, euid)->Ok_0;
            &&& dir == (DirView {
                slot: Slot::Bridge,
                path: joined(joined(base.display@, "dmux"@), "bridge"@),
            })
            &&& exists|k: int|
                (#[trigger] key_read(replies, k, dir, euid)) is Ok && key_read(
                    replies,
                    k,
                    dir,
                    euid,
                )->Ok_0.0 == key
        }),
{
    let (root, a) = bridge_base_opened(replies, 0, base, euid)->Ok_0;
    let (runtime, b) = bridge_child_ensured(
        replies,
        a,
        root,
        "dmux"@,
        Slot::Runtime,
        euid,
    )->Ok_0;
    let (dir, c) = bridge_child_ensured(replies, b, runtime, "bridge"@, Slot::Bridge, euid)->Ok_0;
    lemma_ensured_child(replies, a, root, "dmux"@, Slot::Runtime, euid);
    lemma_ensured_child(replies, b, runtime, "bridge"@, Slot::Bridge, euid);
    assert(root.path == base.display@);
    assert(key_read(replies, c, dir, euid) is Ok);
}

proof fn lemma_ensured_child(
    replies: Seq<Reply>,
    at: int,
    dir: DirView,
    name: Seq<char>,
    into: Slot,
    euid: u32,
)
    requires
        bridge_child_ensured(replies, at, dir, name, into, euid) is Ok,
    ensures
        bridge_child_ensured(replies, at, dir, name, into, euid)->Ok_0.0 == (DirView {
            slot: into,
            path: joined(dir.path, name),
        }),
{
}

proof fn lemma_instance_entered(
    replies: Seq<Reply>,
    at: int,
    bridge: DirView,
    instance: Seq<char>,
    euid: u32,
)
    requires
        instance_entered(replies, at, bridge, instance, euid) is Ok,
    ensures
        instance_entered(replies, at, bridge, instance, euid)->Ok_0.0.path == joined(
            joined(bridge.path, "instances"@),
            instance,
        ),
{
    let (instances, a) = bridge_child_ensured(
        replies,
        at,
        bridge,
        "instances"@,
        Slot::Instances,
        euid,
    )->Ok_0;
    lemma_ensured_child(replies, at, bridge, "instances"@, Slot::Instances, euid);
    lemma_ensured_child(replies, a, instances, instance, Slot::Instance, euid);
}

/// The check of the key before a start finds a whole key, and only looks: it
/// neither makes a directory nor writes anything.
pub proof fn law_key_preflight_only_looks(replies: Seq<Reply>, base: BasePath, euid: u32)
    ensures
        key_preflight(replies, base, euid) matches Ok((length, _)) ==> length == 32,
        key_preflight(replies, base, euid) matches Err(StopView::Await(action)) ==> only_looks(
            action,
        ),
{
}

/// A document is there exactly where it could be opened and is a private file of
/// this user; that there is none is told apart from every other failure.
pub proof fn law_opened_document_is_private(
    replies: Seq<Reply>,
    at: int,
    dir: DirView,
    name: Seq<char>,
    into: Slot,
    euid: u32,
)
    requires
        0 <= at,
        is_component(name),
    ensures
        ({
            let opened = document_opened(replies, at, dir, name, into, euid);
            &&& (opened matches Ok((true, _))) <==> at + 1 < replies.len() && replies[at] is Done
                && replies[at + 1] is Stat && is_private_file(replies[at + 1]->Stat_0, euid)
            &&& (opened matches Ok((false, _))) <==> at < replies.len() && (
            replies[at] matches Reply::Failed(error) && error.kind == OsErrorKind::NotFound)
        }),
{
}

/// A new document under a name that is taken is refused as already there, at the
/// first look and, where the name is taken meanwhile, at the last step; and the
/// temporary file is gone then.
pub proof fn law_taken_name_is_refused(
    replies: Seq<Reply>,
    at: int,
    dir: DirView,
    name: Seq<char>,
    bytes: Seq<u8>,
    euid: u32,
)
    requires
        0 <= at,
    ensures
        document_opened(replies, at, dir, name, Slot::Existing, euid) matches Ok((true, _)) ==> (
        new_document_written(replies, at, dir, name, bytes, euid) matches Err(
            StopView::Refuse(refusal),
        ) && refusal.code == "already_exists"@),
        at + 8 < replies.len() && (replies[at + 7] matches Reply::Failed(error) && error.kind
            == OsErrorKind::AlreadyExists) && replies[at + 8] is Done && new_document_written(
            replies.take(at + 7),
            at,
            dir,
            name,
            bytes,
            euid,
        ) == Err::<int, StopView>(
            StopView::Await(
                ActionView::Link {
                    dir: dir.slot,
                    from: ".tmp-"@ + replies[at + 1]->Text_0@,
                    to: name,
                },
            ),
        ) && at + 10 < replies.len() && replies[at + 9] is Done && replies[at + 10] is Stat
            && is_private_file(replies[at + 10]->Stat_0, euid) ==> {
            &&& new_document_written(replies.take(at + 8), at, dir, name, bytes, euid) == Err::<
                int,
                StopView,
            >(
                StopView::Await(
                    ActionView::Unlink {
                        dir: dir.slot,
                        name: ".tmp-"@ + replies[at + 1]->Text_0@,
                    },
                ),
            )
            &&& new_document_written(replies, at, dir, name, bytes, euid) matches Err(
                StopView::Refuse(refusal),
            ) && refusal.code == "already_exists"@
        },
{
}

/// What is consumed is what was handed out: the file that was observed is the very
/// file that stood among the requests and then among the consumed ones, with the
/// length and the bytes that were handed out.
pub proof fn law_consumed_request_is_the_observed_one(
    replies: Seq<Reply>,
    bridge: BridgeView,
    uid: Seq<char>,
)
    requires
        request_consumed(replies, bridge, uid) is Ok,
    ensures
        ({
            let a = source_opened(replies, bridge, uid)->Ok_0;
            let observed = replies[a + 1]->Observed_0;
            let held = replies[a + 2]->Stat_0;
            let source = replies[a + 3]->Stat_0;
            let moved = replies[a + 7]->Stat_0;
            &&& source_opened(replies, bridge, uid) is Ok
            &&& a >= 0
            &&& request_consumed(replies, bridge, uid)->Ok_0 == a + 12
            &&& a + 12 <= replies.len()
            &&& replies[a + 1] is Observed
            &&& replies[a + 2] is Stat && replies[a + 3] is Stat && replies[a + 7] is Stat
            &&& held.dev == source.dev && held.ino == source.ino && source.len == observed.length
            &&& held.dev == moved.dev && held.ino == moved.ino && moved.len == observed.length
            &&& replies[a + 9] is Bytes
            &&& replies[a + 9]->Bytes_0@ == observed.body@
        }),
{
    lemma_source_opened(replies, bridge, uid);
}

proof fn lemma_source_opened(replies: Seq<Reply>, bridge: BridgeView, uid: Seq<char>)
    requires
        source_opened(replies, bridge, uid) is Ok,
    ensures
        source_opened(replies, bridge, uid)->Ok_0 >= 0,
{
}

/// A request that was consumed before is refused as such, whether that is seen at the
/// first look or only when it is to be moved; every other failure of the move is one
/// of consumption.
pub proof fn law_consumed_request_is_refused(
    replies: Seq<Reply>,
    bridge: BridgeView,
    uid: Seq<char>,
    a: int,
)
    requires
        source_opened(replies, bridge, uid) == Ok::<int, StopView>(a),
        is_component(request_name(uid)),
    ensures
        ({
            let consumed = bridge.below(Slot::Consumed, "consumed"@);
            let name = request_name(uid);
            let looked = document_opened(
                replies,
                a,
                consumed,
                name,
                Slot::Destination,
                bridge.euid,
            );
            let result = request_consumed(replies, bridge, uid);
            &&& (looked matches Ok((true, _))) ==> (result matches Err(StopView::Refuse(refusal))
                && refusal.code == "already_consumed"@)
            &&& (looked matches Ok((false, _))) && source_recognised(
                replies,
                a + 1,
                uid,
                "consume_request_new requires bytes returned by next_request on this handle"@,
            ) is Ok && a + 4 < replies.len() ==> (replies[a + 4] matches Reply::Failed(error) ==> {
                &&& error.kind == OsErrorKind::AlreadyExists && document_opened(
                    replies,
                    a + 5,
                    consumed,
                    name,
                    Slot::Destination,
                    bridge.euid,
                ) is Ok ==> (result matches Err(StopView::Refuse(refusal)) && refusal.code
                    == "already_consumed"@)
                &&& error.kind != OsErrorKind::AlreadyExists ==> (result matches Err(
                    StopView::Refuse(refusal),
                ) && refusal.code == "consume_failed"@)
            })
        }),
{
    lemma_source_opened(replies, bridge, uid);
}

} // verus!
