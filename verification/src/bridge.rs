//! The spool of a GUI instance: requests that are handed out, consumed once and
//! acknowledged, all of it under the lease of this process.

use crate::bridge_dir::{
    bridge_base_opened, bridge_child, bridge_child_ensured, bridge_child_opened, document_read,
    ensure_bridge_child, open_bridge_base, read_document,
};
use crate::bridge_lease::{
    acquire_instance_lease, already_leased, instance_lease_acquired, Bridge, BridgeView,
};
use crate::dialogue::{
    refuse, refused, run_of, steps_of, Action, ActionView, Reply, Run, Slot, Stop, StopView,
};
use crate::failure::{debug_text, failure, BridgeFsError, Failure};
use crate::identifier::{instance_failure, refuses, validate_instance};
use crate::private_dir::{BasePath, Dir, DirView};
use crate::text::{byte_len, copy_bytes, decimal, decimal_text};
use vstd::prelude::*;
use vstd::utf8::encode_utf8;

verus! {

/// The directory of the bridge.
pub const BRIDGE_DIR: &'static str = "bridge";

/// The directory of the instances.
pub const INSTANCES_DIR: &'static str = "instances";

/// The file of the key that signs requests.
pub const KEY_FILE: &'static str = "key";

/// How many bytes the key has.
pub const KEY_BYTES: usize = 32;

/// The key of the bridge.
pub open spec fn key_read(replies: Seq<Reply>, at: int, bridge: DirView, euid: u32) -> Run<Seq<u8>> {
    match document_read(replies, at, bridge, KEY_FILE@, KEY_BYTES, euid) {
        Err(stop) => Err(stop),
        Ok((None, _)) => Err(refused("key_unavailable"@, "bridge/key is absent"@)),
        Ok((Some(key), at)) => if key.len() != KEY_BYTES {
            Err(
                refused(
                    "key_invalid"@,
                    "bridge key contains "@ + decimal(key.len()) + " bytes; expected 32"@,
                ),
            )
        } else {
            Ok((key, at))
        },
    }
}

fn read_key<'a>(replies: &'a Vec<Reply>, at: usize, bridge: &Dir, euid: u32) -> (run: Result<
    (&'a Vec<u8>, usize),
    Stop,
>)
    ensures
        match (run, key_read(replies@, at as int, bridge@, euid)) {
            (Ok((key, next)), Ok((read, then))) => key@ == read && next == then,
            (Err(stop), Err(stopped)) => stop@ == stopped,
            _ => false,
        },
{
    let (found, at) = read_document(replies, at, bridge, KEY_FILE, KEY_BYTES, euid)?;
    match found {
        None => Err(refuse("key_unavailable", "bridge/key is absent".to_owned())),
        Some(key) => {
            if key.len() != KEY_BYTES {
                return Err(
                    refuse(
                        "key_invalid",
                        "bridge key contains ".to_owned().concat(
                            decimal_text(key.len() as u64).as_str(),
                        ).concat(" bytes; expected 32"),
                    ),
                );
            }
            Ok((key, at))
        },
    }
}

/// The number of bytes of a key that is fit for use. Nothing is made and no
/// lease is taken.
pub open spec fn key_preflight(replies: Seq<Reply>, base: BasePath, euid: u32) -> Run<nat> {
    match bridge_base_opened(replies, 0, base, euid) {
        Err(stop) => Err(stop),
        Ok((base, at)) => match bridge_child_opened(
            replies,
            at,
            base,
            "dmux"@,
            Slot::Runtime,
            euid,
        ) {
            Err(stop) => Err(stop),
            Ok((runtime, at)) => match bridge_child_opened(
                replies,
                at,
                runtime,
                BRIDGE_DIR@,
                Slot::Bridge,
                euid,
            ) {
                Err(stop) => Err(stop),
                Ok((bridge, at)) => match key_read(replies, at, bridge, euid) {
                    Err(stop) => Err(stop),
                    Ok((key, at)) => Ok((key.len(), at)),
                },
            },
        },
    }
}

/// Checks that there is a key that is fit for use.
pub fn bridge_key_preflight_at_base(replies: &Vec<Reply>, base: &BasePath, euid: u32) -> (run: Result<
    (usize, usize),
    Stop,
>)
    ensures
        match (run, key_preflight(replies@, *base, euid)) {
            (Ok((len, next)), Ok((bytes, then))) => len == bytes && next == then,
            (Err(stop), Err(stopped)) => stop@ == stopped,
            _ => false,
        },
{
    let (base, at) = open_bridge_base(replies, 0, base, euid)?;
    let (runtime, at) = bridge_child(replies, at, &base, "dmux", Slot::Runtime, euid)?;
    let (bridge, at) = bridge_child(replies, at, &runtime, BRIDGE_DIR, Slot::Bridge, euid)?;
    let (key, at) = read_key(replies, at, &bridge, euid)?;
    Ok((key.len(), at))
}

/// Why no bridge is opened for this instance and process.
pub open spec fn opening_failure(instance: Seq<char>, pid: u32, token: Seq<char>) -> Option<
    Failure,
> {
    if instance_failure(instance) is Some {
        instance_failure(instance)
    } else if pid == 0 || token.len() == 0 || encode_utf8(token).len() > 256 {
        Some(failure("identity_invalid"@, "GUI process identity is incomplete"@))
    } else {
        None
    }
}

fn check_opening(instance: &str, pid: u32, token: &str) -> (result: Result<(), BridgeFsError>)
    ensures
        refuses(result, opening_failure(instance@, pid, token@)),
{
    validate_instance(instance)?;
    if pid == 0 || token.is_empty() || byte_len(token) > 256 {
        return Err(
            BridgeFsError::new(
                "identity_invalid",
                "GUI process identity is incomplete".to_owned(),
            ),
        );
    }
    Ok(())
}

/// An instance that was claimed within this process.
pub open spec fn instance_claimed(replies: Seq<Reply>, at: int, instance: Seq<char>) -> Result<
    int,
    StopView,
> {
    if at >= replies.len() {
        Err(StopView::Await(ActionView::ClaimInstance { instance }))
    } else {
        match replies[at] {
            Reply::Flag(true) => Ok(at + 1),
            Reply::Flag(false) => Err(StopView::Refuse(already_leased(instance))),
            _ => Err(StopView::Misfit),
        }
    }
}

fn ask_claim(replies: &Vec<Reply>, at: usize, instance: &str) -> (run: Result<usize, Stop>)
    ensures
        steps_of(run) == instance_claimed(replies@, at as int, instance@),
{
    if at >= replies.len() {
        return Err(Stop::Await(Action::ClaimInstance { instance: instance.to_owned() }));
    }
    match &replies[at] {
        Reply::Flag(claimed) => {
            if *claimed {
                return Ok(at + 1);
            }
            Err(
                refuse(
                    "duplicate_instance",
                    "GUI instance ".to_owned().concat(debug_text(instance).as_str()).concat(
                        " is already leased by this process",
                    ),
                ),
            )
        },
        _ => Err(Stop::Misfit),
    }
}

/// The directory of the bridge, made if it is missing, and its key.
pub open spec fn bridge_entered(replies: Seq<Reply>, base: BasePath, euid: u32) -> Run<
    (DirView, Seq<u8>),
> {
    match bridge_base_opened(replies, 0, base, euid) {
        Err(stop) => Err(stop),
        Ok((base, at)) => match bridge_child_ensured(
            replies,
            at,
            base,
            "dmux"@,
            Slot::Runtime,
            euid,
        ) {
            Err(stop) => Err(stop),
            Ok((runtime, at)) => match bridge_child_ensured(
                replies,
                at,
                runtime,
                BRIDGE_DIR@,
                Slot::Bridge,
                euid,
            ) {
                Err(stop) => Err(stop),
                Ok((bridge, at)) => match key_read(replies, at, bridge, euid) {
                    Err(stop) => Err(stop),
                    Ok((key, at)) => Ok(((bridge, key), at)),
                },
            },
        },
    }
}

fn enter_bridge<'a>(replies: &'a Vec<Reply>, base: &BasePath, euid: u32) -> (run: Result<
    (Dir, &'a Vec<u8>, usize),
    Stop,
>)
    ensures
        match (run, bridge_entered(replies@, *base, euid)) {
            (Ok((dir, key, next)), Ok(((bridge, read), then))) => dir@ == bridge && key@ == read
                && next == then,
            (Err(stop), Err(stopped)) => stop@ == stopped,
            _ => false,
        },
{
    let (base, at) = open_bridge_base(replies, 0, base, euid)?;
    let (runtime, at) = ensure_bridge_child(replies, at, &base, "dmux", Slot::Runtime, euid)?;
    let (bridge, at) = ensure_bridge_child(
        replies,
        at,
        &runtime,
        BRIDGE_DIR,
        Slot::Bridge,
        euid,
    )?;
    let (key, at) = read_key(replies, at, &bridge, euid)?;
    Ok((bridge, key, at))
}

/// The directories of an instance, made where they are missing.
pub open spec fn instance_entered(
    replies: Seq<Reply>,
    at: int,
    bridge: DirView,
    instance: Seq<char>,
    euid: u32,
) -> Run<DirView> {
    match bridge_child_ensured(replies, at, bridge, INSTANCES_DIR@, Slot::Instances, euid) {
        Err(stop) => Err(stop),
        Ok((instances, at)) => match bridge_child_ensured(
            replies,
            at,
            instances,
            instance,
            Slot::Instance,
            euid,
        ) {
            Err(stop) => Err(stop),
            Ok((dir, at)) => match bridge_child_ensured(
                replies,
                at,
                dir,
                "requests"@,
                Slot::Requests,
                euid,
            ) {
                Err(stop) => Err(stop),
                Ok((_, at)) => match bridge_child_ensured(
                    replies,
                    at,
                    dir,
                    "acks"@,
                    Slot::Acks,
                    euid,
                ) {
                    Err(stop) => Err(stop),
                    Ok((_, at)) => match bridge_child_ensured(
                        replies,
                        at,
                        dir,
                        "consumed"@,
                        Slot::Consumed,
                        euid,
                    ) {
                        Err(stop) => Err(stop),
                        Ok((_, at)) => match bridge_child_ensured(
                            replies,
                            at,
                            dir,
                            "context"@,
                            Slot::Context,
                            euid,
                        ) {
                            Err(stop) => Err(stop),
                            Ok((_, at)) => Ok((dir, at)),
                        },
                    },
                },
            },
        },
    }
}

fn enter_instance(replies: &Vec<Reply>, at: usize, bridge: &Dir, instance: &str, euid: u32) -> (run:
    Result<(Dir, usize), Stop>)
    ensures
        run_of(run) == instance_entered(replies@, at as int, bridge@, instance@, euid),
{
    let (instances, at) = ensure_bridge_child(
        replies,
        at,
        bridge,
        INSTANCES_DIR,
        Slot::Instances,
        euid,
    )?;
    let (dir, at) = ensure_bridge_child(replies, at, &instances, instance, Slot::Instance, euid)?;
    let (_requests, at) = ensure_bridge_child(
        replies,
        at,
        &dir,
        "requests",
        Slot::Requests,
        euid,
    )?;
    let (_acks, at) = ensure_bridge_child(replies, at, &dir, "acks", Slot::Acks, euid)?;
    let (_consumed, at) = ensure_bridge_child(
        replies,
        at,
        &dir,
        "consumed",
        Slot::Consumed,
        euid,
    )?;
    let (_context, at) = ensure_bridge_child(replies, at, &dir, "context", Slot::Context, euid)?;
    Ok((dir, at))
}

/// An open spool: the instance and the process, and the key.
#[derive(Debug)]
pub struct DmuxBridgeSpool {
    pub bridge: Bridge,
    pub key: Vec<u8>,
}

/// An instance with its process and the key, once the spool is open: every
/// directory is held and the lease is this process's own.
pub open spec fn spool_opened(
    replies: Seq<Reply>,
    base: BasePath,
    instance: Seq<char>,
    pid: u32,
    token: Seq<char>,
    euid: u32,
) -> Run<(BridgeView, Seq<u8>)> {
    match opening_failure(instance, pid, token) {
        Some(refusal) => Err(StopView::Refuse(refusal)),
        None => match bridge_entered(replies, base, euid) {
            Err(stop) => Err(stop),
            Ok(((bridge, key), at)) => match instance_entered(
                replies,
                at,
                bridge,
                instance,
                euid,
            ) {
                Err(stop) => Err(stop),
                Ok((dir, at)) => match instance_claimed(replies, at, instance) {
                    Err(stop) => Err(stop),
                    Ok(at) => {
                        let view = BridgeView {
                            instance,
                            pid,
                            process_start_token: token,
                            euid,
                            path: dir.path,
                        };
                        match instance_lease_acquired(replies, at, view) {
                            Err(stop) => Err(stop),
                            Ok(at) => Ok(((view, key), at)),
                        }
                    },
                },
            },
        },
    }
}

/// Opens the spool of an instance for a process.
pub fn open_at_base(
    replies: &Vec<Reply>,
    base: &BasePath,
    instance: &str,
    pid: u32,
    start_token: &str,
    euid: u32,
) -> (run: Result<(DmuxBridgeSpool, usize), Stop>)
    ensures
        match (run, spool_opened(replies@, *base, instance@, pid, start_token@, euid)) {
            (Ok((spool, next)), Ok(((view, key), then))) => spool.bridge@ == view && spool.key@
                == key && next == then,
            (Err(stop), Err(stopped)) => stop@ == stopped,
            _ => false,
        },
{
    if let Err(error) = check_opening(instance, pid, start_token) {
        return Err(refuse(error.code, error.detail));
    }
    let (entered, key, at) = enter_bridge(replies, base, euid)?;
    let (dir, at) = enter_instance(replies, at, &entered, instance, euid)?;
    let at = ask_claim(replies, at, instance)?;
    let bridge = Bridge {
        instance: instance.to_owned(),
        pid,
        process_start_token: start_token.to_owned(),
        euid,
        path: dir.path,
    };
    let at = acquire_instance_lease(replies, at, &bridge)?;
    Ok((DmuxBridgeSpool { bridge, key: copy_bytes(key.as_slice()) }, at))
}

} // verus!
