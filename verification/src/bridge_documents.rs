//! Documents of a GUI instance: consumed requests, acknowledgements, contexts
//! and the heartbeat, each read or written under the lease of this process; and
//! the completion of the GUI's lifecycle.

use crate::bridge_dir::{
    document_read, document_replaced, new_document_written, read_document, write_new_atomic,
    write_replace_atomic, MAX_DOCUMENT_BYTES,
};
use crate::bridge_lease::{lease_required, validate_lease_identity, Bridge, BridgeView, API_VERSION};
use crate::bridge_requests::{maximum_failure, validate_maximum};
use crate::dialogue::{refuse, refused, steps_of, Reply, Run, Slot, Stop, StopView};
use crate::failure::{failure, BridgeFsError, Failure};
use crate::identifier::{refuses, request_name, uid_failure, validate_uid, MAX_JSON_INTEGER};
use crate::json::{
    as_object, as_text, entry, find_entry, json_document, object_of, parse_document, text_of,
};
use crate::lifecycle::is_platform_action;
use crate::managed::{require_managed_safe_hide_api, require_managed_safe_quit_api};
use crate::text::{decimal, decimal_text, same_text};
use vstd::prelude::*;

verus! {

/// A document of the instance that is named by a request identifier, if it is
/// there.
pub open spec fn uid_document_read(
    replies: Seq<Reply>,
    at: int,
    bridge: BridgeView,
    slot: Slot,
    dir: Seq<char>,
    uid: Seq<char>,
    name: Seq<char>,
    maximum: usize,
) -> Run<Option<Seq<u8>>> {
    match lease_required(replies, at, bridge) {
        Err(stop) => Err(stop),
        Ok(at) => match uid_failure(uid) {
            Some(refusal) => Err(StopView::Refuse(refusal)),
            None => match maximum_failure(maximum) {
                Some(refusal) => Err(StopView::Refuse(refusal)),
                None => document_read(
                    replies,
                    at,
                    bridge.below(slot, dir),
                    name,
                    maximum,
                    bridge.euid,
                ),
            },
        },
    }
}

fn read_uid_document<'a>(
    replies: &'a Vec<Reply>,
    at: usize,
    bridge: &Bridge,
    slot: Slot,
    dir: &str,
    uid: &str,
    name: &str,
    maximum: usize,
) -> (run: Result<(Option<&'a Vec<u8>>, usize), Stop>)
    ensures
        match (
            run,
            uid_document_read(replies@, at as int, bridge@, slot, dir@, uid@, name@, maximum),
        ) {
            (Ok((Some(bytes), next)), Ok((Some(read), then))) => bytes@ == read && next == then,
            (Ok((None, next)), Ok((None, then))) => next == then,
            (Err(stop), Err(stopped)) => stop@ == stopped,
            _ => false,
        },
{
    let at = validate_lease_identity(replies, at, bridge)?;
    if let Err(error) = validate_uid(uid) {
        return Err(refuse(error.code, error.detail));
    }
    if let Err(error) = validate_maximum(maximum) {
        return Err(refuse(error.code, error.detail));
    }
    let dir = bridge.dir_below(slot, dir);
    read_document(replies, at, &dir, name, maximum, bridge.euid)
}

/// A consumed request, if it is there.
pub open spec fn consumed_read(
    replies: Seq<Reply>,
    at: int,
    bridge: BridgeView,
    uid: Seq<char>,
    maximum: usize,
) -> Run<Option<Seq<u8>>> {
    uid_document_read(
        replies,
        at,
        bridge,
        Slot::Consumed,
        "consumed"@,
        uid,
        request_name(uid),
        maximum,
    )
}

/// Reads a consumed request.
pub fn read_consumed<'a>(
    replies: &'a Vec<Reply>,
    at: usize,
    bridge: &Bridge,
    uid: &str,
    maximum: usize,
) -> (run: Result<(Option<&'a Vec<u8>>, usize), Stop>)
    ensures
        match (run, consumed_read(replies@, at as int, bridge@, uid@, maximum)) {
            (Ok((Some(bytes), next)), Ok((Some(read), then))) => bytes@ == read && next == then,
            (Ok((None, next)), Ok((None, then))) => next == then,
            (Err(stop), Err(stopped)) => stop@ == stopped,
            _ => false,
        },
{
    let name = "req-".to_owned().concat(uid).concat(".json");
    read_uid_document(
        replies,
        at,
        bridge,
        Slot::Consumed,
        "consumed",
        uid,
        name.as_str(),
        maximum,
    )
}

/// The name of an acknowledgement.
pub open spec fn ack_name(uid: Seq<char>) -> Seq<char> {
    "ack-"@ + uid + ".json"@
}

/// The name of the acknowledgement of a replayed request.
pub open spec fn replay_ack_name(uid: Seq<char>) -> Seq<char> {
    "ack-"@ + uid + ".replay.json"@
}

/// An acknowledgement, if it is there.
pub open spec fn ack_read(
    replies: Seq<Reply>,
    at: int,
    bridge: BridgeView,
    uid: Seq<char>,
    maximum: usize,
) -> Run<Option<Seq<u8>>> {
    uid_document_read(
        replies,
        at,
        bridge,
        Slot::Acks,
        "acks"@,
        uid,
        ack_name(uid),
        maximum,
    )
}

/// Reads an acknowledgement.
pub fn read_ack<'a>(
    replies: &'a Vec<Reply>,
    at: usize,
    bridge: &Bridge,
    uid: &str,
    maximum: usize,
) -> (run: Result<(Option<&'a Vec<u8>>, usize), Stop>)
    ensures
        match (run, ack_read(replies@, at as int, bridge@, uid@, maximum)) {
            (Ok((Some(bytes), next)), Ok((Some(read), then))) => bytes@ == read && next == then,
            (Ok((None, next)), Ok((None, then))) => next == then,
            (Err(stop), Err(stopped)) => stop@ == stopped,
            _ => false,
        },
{
    let name = "ack-".to_owned().concat(uid).concat(".json");
    read_uid_document(
        replies,
        at,
        bridge,
        Slot::Acks,
        "acks",
        uid,
        name.as_str(),
        maximum,
    )
}

/// A new acknowledgement under a name.
pub open spec fn ack_written(
    replies: Seq<Reply>,
    bridge: BridgeView,
    uid: Seq<char>,
    name: Seq<char>,
    body: Seq<u8>,
) -> Result<int, StopView> {
    match lease_required(replies, 0, bridge) {
        Err(stop) => Err(stop),
        Ok(at) => match uid_failure(uid) {
            Some(refusal) => Err(StopView::Refuse(refusal)),
            None => new_document_written(
                replies,
                at,
                bridge.below(Slot::Acks, "acks"@),
                name,
                body,
                bridge.euid,
            ),
        },
    }
}

fn write_named_ack(replies: &Vec<Reply>, bridge: &Bridge, uid: &str, name: &str, body: &[u8]) -> (run:
    Result<usize, Stop>)
    ensures
        steps_of(run) == ack_written(replies@, bridge@, uid@, name@, body@),
{
    let at = validate_lease_identity(replies, 0, bridge)?;
    if let Err(error) = validate_uid(uid) {
        return Err(refuse(error.code, error.detail));
    }
    let dir = bridge.dir_below(Slot::Acks, "acks");
    write_new_atomic(replies, at, &dir, name, body, bridge.euid)
}

/// Acknowledges a request, once.
pub fn write_ack_new(replies: &Vec<Reply>, bridge: &Bridge, uid: &str, body: &[u8]) -> (run: Result<
    usize,
    Stop,
>)
    ensures
        steps_of(run) == ack_written(replies@, bridge@, uid@, ack_name(uid@), body@),
{
    let name = "ack-".to_owned().concat(uid).concat(".json");
    write_named_ack(replies, bridge, uid, name.as_str(), body)
}

/// Acknowledges a replayed request, once.
pub fn write_replay_ack_new(replies: &Vec<Reply>, bridge: &Bridge, uid: &str, body: &[u8]) -> (run:
    Result<usize, Stop>)
    ensures
        steps_of(run) == ack_written(replies@, bridge@, uid@, replay_ack_name(uid@), body@),
{
    let name = "ack-".to_owned().concat(uid).concat(".replay.json");
    write_named_ack(replies, bridge, uid, name.as_str(), body)
}

/// The context of a pane, if it is there.
pub open spec fn context_read(
    replies: Seq<Reply>,
    bridge: BridgeView,
    pane_id: u64,
    maximum: usize,
) -> Run<Option<Seq<u8>>> {
    match lease_required(replies, 0, bridge) {
        Err(stop) => Err(stop),
        Ok(at) => if pane_id > MAX_JSON_INTEGER {
            Err(
                refused("invalid_pane_id"@, "pane id exceeds the exact Lua integer range"@),
            )
        } else {
            match maximum_failure(maximum) {
                Some(refusal) => Err(StopView::Refuse(refusal)),
                None => document_read(
                    replies,
                    at,
                    bridge.below(Slot::Context, "context"@),
                    decimal(pane_id as nat) + ".json"@,
                    maximum,
                    bridge.euid,
                ),
            }
        },
    }
}

/// Reads the context of a pane.
pub fn read_context<'a>(replies: &'a Vec<Reply>, bridge: &Bridge, pane_id: u64, maximum: usize) -> (run:
    Result<(Option<&'a Vec<u8>>, usize), Stop>)
    ensures
        match (run, context_read(replies@, bridge@, pane_id, maximum)) {
            (Ok((Some(bytes), next)), Ok((Some(read), then))) => bytes@ == read && next == then,
            (Ok((None, next)), Ok((None, then))) => next == then,
            (Err(stop), Err(stopped)) => stop@ == stopped,
            _ => false,
        },
{
    let at = validate_lease_identity(replies, 0, bridge)?;
    if pane_id > MAX_JSON_INTEGER {
        return Err(
            refuse("invalid_pane_id", "pane id exceeds the exact Lua integer range".to_owned()),
        );
    }
    if let Err(error) = validate_maximum(maximum) {
        return Err(refuse(error.code, error.detail));
    }
    let dir = bridge.dir_below(Slot::Context, "context");
    let name = decimal_text(pane_id).concat(".json");
    read_document(replies, at, &dir, name.as_str(), maximum, bridge.euid)
}

/// The heartbeat, written in the place of the last one.
pub open spec fn heartbeat_written(replies: Seq<Reply>, bridge: BridgeView, body: Seq<u8>) -> Result<
    int,
    StopView,
> {
    match lease_required(replies, 0, bridge) {
        Err(stop) => Err(stop),
        Ok(at) => document_replaced(
            replies,
            at,
            bridge.dir(),
            "heartbeat.json"@,
            body,
            bridge.euid,
        ),
    }
}

/// Writes the heartbeat.
pub fn write_heartbeat(replies: &Vec<Reply>, bridge: &Bridge, body: &[u8]) -> (run: Result<
    usize,
    Stop,
>)
    ensures
        steps_of(run) == heartbeat_written(replies@, bridge@, body@),
{
    let at = validate_lease_identity(replies, 0, bridge)?;
    let dir = bridge.instance_dir();
    write_replace_atomic(replies, at, &dir, "heartbeat.json", body, bridge.euid)
}

/// The consumed request and the acknowledgement that prove a completion.
pub open spec fn completion_documents_read(
    replies: Seq<Reply>,
    bridge: BridgeView,
    uid: Seq<char>,
    platform_action: Seq<char>,
) -> Run<(Seq<u8>, Seq<u8>)> {
    match lease_required(replies, 0, bridge) {
        Err(stop) => Err(stop),
        Ok(at) => match uid_failure(uid) {
            Some(refusal) => Err(StopView::Refuse(refusal)),
            None => if !is_platform_action(platform_action) {
                Err(refused("completion_action"@, "platform_action must be quit or hide"@))
            } else {
                match consumed_read(replies, at, bridge, uid, MAX_DOCUMENT_BYTES) {
                    Err(stop) => Err(stop),
                    Ok((None, _)) => Err(
                        refused(
                            "completion_proof_missing"@,
                            "the exact consumed request is absent"@,
                        ),
                    ),
                    Ok((Some(consumed), at)) => match ack_read(
                        replies,
                        at,
                        bridge,
                        uid,
                        MAX_DOCUMENT_BYTES,
                    ) {
                        Err(stop) => Err(stop),
                        Ok((None, _)) => Err(
                            refused(
                                "completion_proof_missing"@,
                                "the durable primary acknowledgement is absent"@,
                            ),
                        ),
                        Ok((Some(ack), at)) => Ok(((consumed, ack), at)),
                    },
                }
            },
        },
    }
}

/// Reads the documents that prove a completion.
pub fn read_completion_documents<'a>(
    replies: &'a Vec<Reply>,
    bridge: &Bridge,
    uid: &str,
    platform_action: &str,
) -> (run: Result<(&'a Vec<u8>, &'a Vec<u8>, usize), Stop>)
    ensures
        match (run, completion_documents_read(replies@, bridge@, uid@, platform_action@)) {
            (Ok((consumed, ack, next)), Ok(((request, primary), then))) => consumed@ == request
                && ack@ == primary && next == then,
            (Err(stop), Err(stopped)) => stop@ == stopped,
            _ => false,
        },
{
    let at = validate_lease_identity(replies, 0, bridge)?;
    if let Err(error) = validate_uid(uid) {
        return Err(refuse(error.code, error.detail));
    }
    if !same_text(platform_action, "quit") && !same_text(platform_action, "hide") {
        return Err(
            refuse("completion_action", "platform_action must be quit or hide".to_owned()),
        );
    }
    let (found, at) = read_consumed(replies, at, bridge, uid, MAX_DOCUMENT_BYTES)?;
    let consumed = match found {
        Some(consumed) => consumed,
        None => {
            return Err(
                refuse(
                    "completion_proof_missing",
                    "the exact consumed request is absent".to_owned(),
                ),
            );
        },
    };
    let (found, at) = read_ack(replies, at, bridge, uid, MAX_DOCUMENT_BYTES)?;
    match found {
        Some(ack) => Ok((consumed, ack, at)),
        None => Err(
            refuse(
                "completion_proof_missing",
                "the durable primary acknowledgement is absent".to_owned(),
            ),
        ),
    }
}

/// Writes the durable marker of a completion among the acknowledgements.
pub fn write_completion_marker(replies: &Vec<Reply>, bridge: &Bridge, name: &str, body: &str) -> (run:
    Result<usize, Stop>)
    ensures
        steps_of(run) == new_document_written(
            replies@,
            0,
            bridge@.below(Slot::Acks, "acks"@),
            name@,
            vstd::utf8::encode_utf8(body@),
            bridge@.euid,
        ),
{
    let dir = bridge.dir_below(Slot::Acks, "acks");
    write_new_atomic(replies, 0, &dir, name, body.as_bytes(), bridge.euid)
}

/// What a proved completion does.
#[derive(Clone, Copy, Debug, PartialEq, Eq, Structural)]
pub enum LifecycleEffect {
    /// End the message loop.
    Terminate,
    /// Hide the application.
    Hide,
}

/// The refusal of a completion, before its proof is looked at.
pub open spec fn completion_refusal(
    dmux_managed_gui: bool,
    on_gui_thread: bool,
    platform_action: Seq<char>,
) -> Option<Failure> {
    if !is_platform_action(platform_action) {
        Some(failure("completion_action"@, "platform_action must be quit or hide"@))
    } else if !dmux_managed_gui {
        Some(
            failure(
                "completion_disabled"@,
                if platform_action == "quit"@ {
                    "dmux_safe_quit_application is available only when dmux_managed_gui is enabled"@
                } else {
                    "dmux_safe_hide_application is available only when dmux_managed_gui is enabled"@
                },
            ),
        )
    } else if !on_gui_thread {
        Some(
            failure(
                "completion_thread"@,
                "managed lifecycle completion is not running on the GUI thread"@,
            ),
        )
    } else {
        None
    }
}

/// Decides what a completion does once its proof was consumed.
pub fn plan_completion(dmux_managed_gui: bool, on_gui_thread: bool, platform_action: &str) -> (result:
    Result<LifecycleEffect, BridgeFsError>)
    ensures
        refuses(
            result,
            completion_refusal(dmux_managed_gui, on_gui_thread, platform_action@),
        ),
        result matches Ok(effect) ==> effect == (if platform_action@ == "quit"@ {
            LifecycleEffect::Terminate
        } else {
            LifecycleEffect::Hide
        }),
{
    let quit = same_text(platform_action, "quit");
    let hide = same_text(platform_action, "hide");
    if !quit && !hide {
        return Err(
            BridgeFsError::new(
                "completion_action",
                "platform_action must be quit or hide".to_owned(),
            ),
        );
    }
    let gate = if quit {
        require_managed_safe_quit_api(dmux_managed_gui)
    } else {
        require_managed_safe_hide_api(dmux_managed_gui)
    };
    if let Err(reason) = gate {
        return Err(BridgeFsError::new("completion_disabled", reason.to_owned()));
    }
    if !on_gui_thread {
        return Err(
            BridgeFsError::new(
                "completion_thread",
                "managed lifecycle completion is not running on the GUI thread".to_owned(),
            ),
        );
    }
    if quit {
        Ok(LifecycleEffect::Terminate)
    } else {
        Ok(LifecycleEffect::Hide)
    }
}

/// The refusal of a descriptor that does not identify its service.
pub open spec fn unavailable(detail: Seq<char>) -> Failure {
    failure("descriptor_unavailable"@, detail)
}

/// The backend and the epoch that a verified descriptor names.
pub open spec fn descriptor_identity(raw: Option<Seq<u8>>) -> Result<
    (Seq<char>, Seq<char>),
    Failure,
> {
    match raw {
        None => Err(unavailable("managed service descriptor is absent"@)),
        Some(raw) => match json_document(raw) {
            Err(reason) => Err(unavailable("descriptor JSON: "@ + reason)),
            Ok(document) => {
                let entries = match object_of(Some(document)) {
                    Some(entries) => entries,
                    None => seq![],
                };
                match text_of(entry(entries, "backend_instance_uid"@)) {
                    None => Err(
                        unavailable("verified descriptor omitted backend_instance_uid"@),
                    ),
                    Some(backend) => if uid_failure(backend) is Some {
                        Err(uid_failure(backend)->0)
                    } else {
                        match text_of(entry(entries, "epoch"@)) {
                            None => Err(unavailable("verified descriptor omitted epoch"@)),
                            Some(epoch) => if uid_failure(epoch) is Some {
                                Err(uid_failure(epoch)->0)
                            } else {
                                Ok((backend, epoch))
                            },
                        }
                    },
                }
            },
        },
    }
}

/// The view of an optional document.
pub open spec fn optional_raw(raw: Option<&Vec<u8>>) -> Option<Seq<u8>> {
    match raw {
        Some(raw) => Some(raw@),
        None => None,
    }
}

/// Takes the backend and the epoch from a verified descriptor.
pub fn verified_descriptor_identity(raw: Option<&Vec<u8>>) -> (result: Result<
    (String, String),
    BridgeFsError,
>)
    ensures
        match result {
            Ok((backend, epoch)) => descriptor_identity(optional_raw(raw)) == Ok::<
                (Seq<char>, Seq<char>),
                Failure,
            >((backend@, epoch@)),
            Err(error) => descriptor_identity(optional_raw(raw)) == Err::<
                (Seq<char>, Seq<char>),
                Failure,
            >(error@),
        },
{
    let raw = match raw {
        Some(raw) => raw,
        None => {
            return Err(
                BridgeFsError::new(
                    "descriptor_unavailable",
                    "managed service descriptor is absent".to_owned(),
                ),
            );
        },
    };
    let document = match parse_document(raw.as_slice()) {
        Ok(document) => document,
        Err(reason) => {
            return Err(
                BridgeFsError::new(
                    "descriptor_unavailable",
                    "descriptor JSON: ".to_owned().concat(reason.as_str()),
                ),
            );
        },
    };
    let missing = BridgeFsError::new(
        "descriptor_unavailable",
        "verified descriptor omitted backend_instance_uid".to_owned(),
    );
    let entries = match as_object(Some(&document)) {
        Some(entries) => entries,
        None => {
            return Err(missing);
        },
    };
    let backend = match as_text(find_entry(entries, "backend_instance_uid")) {
        Some(backend) => backend,
        None => {
            return Err(missing);
        },
    };
    validate_uid(backend)?;
    let epoch = match as_text(find_entry(entries, "epoch")) {
        Some(epoch) => epoch,
        None => {
            return Err(
                BridgeFsError::new(
                    "descriptor_unavailable",
                    "verified descriptor omitted epoch".to_owned(),
                ),
            );
        },
    };
    validate_uid(epoch)?;
    Ok((backend.to_owned(), epoch.to_owned()))
}

/// What the bridge offers to scripts.
#[derive(Clone, Copy, Debug, PartialEq, Eq, Structural)]
pub struct BridgeCapabilities {
    pub version: u32,
    pub descriptor_backed_spool: bool,
    pub exclusive_instance_lease: bool,
    pub zero_window_lifecycle: bool,
    pub capability_bound_lifecycle_completion: bool,
    pub verified_mux_descriptor: bool,
    pub checked_preflight: bool,
    pub launcher_witness: bool,
    pub max_document_bytes: usize,
}

/// What the bridge offers to scripts.
pub fn bridge_capabilities() -> (capabilities: BridgeCapabilities)
    ensures
        capabilities == (BridgeCapabilities {
            version: API_VERSION,
            descriptor_backed_spool: true,
            exclusive_instance_lease: true,
            zero_window_lifecycle: true,
            capability_bound_lifecycle_completion: true,
            verified_mux_descriptor: true,
            checked_preflight: true,
            launcher_witness: true,
            max_document_bytes: MAX_DOCUMENT_BYTES,
        }),
{
    BridgeCapabilities {
        version: API_VERSION,
        descriptor_backed_spool: true,
        exclusive_instance_lease: true,
        zero_window_lifecycle: true,
        capability_bound_lifecycle_completion: true,
        verified_mux_descriptor: true,
        checked_preflight: true,
        launcher_witness: true,
        max_document_bytes: MAX_DOCUMENT_BYTES,
    }
}

/// The primary acknowledgement and that of a replay never share a name, nor
/// does either share one with a completion marker.
pub proof fn law_acknowledgements_do_not_collide(uid: Seq<char>, other: Seq<char>)
    requires
        uid_failure(uid) is None,
        uid_failure(other) is None,
    ensures
        ack_name(uid) != replay_ack_name(other),
        ack_name(uid) == ack_name(other) ==> uid == other,
        ack_name(uid) != "completion-"@ + other + ".json"@,
{
    reveal_strlit("ack-");
    reveal_strlit(".json");
    reveal_strlit(".replay.json");
    reveal_strlit("completion-");
    crate::identifier::law_canonical_uuid_is_a_shape(uid);
    crate::identifier::law_canonical_uuid_is_a_shape(other);
    assert(uid.len() == 36 && other.len() == 36);
    assert(ack_name(uid).len() != replay_ack_name(other).len());
    assert(ack_name(uid)[0] == 'a');
    assert(("completion-"@ + other + ".json"@)[0] == 'c');
    if ack_name(uid) == ack_name(other) {
        assert(ack_name(uid).subrange(4, 40) =~= uid);
        assert(ack_name(other).subrange(4, 40) =~= other);
    }
}

} // verus!
