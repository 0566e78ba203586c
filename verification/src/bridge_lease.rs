//! The lease of a GUI instance: one process at a time consumes the requests of
//! an instance, and proves before each step that it still does.

use crate::bridge_dir::{
    bridge_synced, document_opened, document_read, open_document, read_document, sync_bridge,
};
use crate::dialogue::{
    ask_done, is_same_object, must_do, must_done, must_stat, must_stat_slot, refuse, refuse_io,
    refused, refused_io, said_done, same_object, steps_of, Access, Action, ActionView, Reply, Slot,
    Stop, StopView,
};
use crate::failure::{debug_quoted, debug_text, failure, BridgeFsError, Failure, OsErrorKind};
use crate::identifier::refuses;
use crate::json::{
    as_object, as_text, as_unsigned, entry, find_entry, json_document, json_quoted, object_of,
    parse_document, quote, text_of, unsigned_of, Json, JsonView,
};
use crate::private_dir::{
    already_exists, file_checked, validate_private_file, Dir, DirView, PRIVATE_FILE,
};
use crate::text::{copy_bytes, decimal, decimal_text, join_text, joined, same_text};
use crate::text_set::TextSet;
use vstd::prelude::*;
use vstd::utf8::encode_utf8;

verus! {

/// The name of the lease in the directory of an instance.
pub const LEASE_FILE: &'static str = ".consumer-lease";

/// The version of the bridge.
pub const API_VERSION: u32 = 1;

/// A GUI instance and the process that consumes its requests.
#[derive(Debug)]
pub struct Bridge {
    pub instance: String,
    pub pid: u32,
    pub process_start_token: String,
    pub euid: u32,
    /// The path of the instance's directory, by which refusals name it.
    pub path: String,
}

/// The view of a [`Bridge`].
pub struct BridgeView {
    pub instance: Seq<char>,
    pub pid: u32,
    pub process_start_token: Seq<char>,
    pub euid: u32,
    pub path: Seq<char>,
}

impl View for Bridge {
    type V = BridgeView;

    open spec fn view(&self) -> BridgeView {
        BridgeView {
            instance: self.instance@,
            pid: self.pid,
            process_start_token: self.process_start_token@,
            euid: self.euid,
            path: self.path@,
        }
    }
}

impl BridgeView {
    /// The directory of the instance.
    pub open spec fn dir(self) -> DirView {
        DirView { slot: Slot::Instance, path: self.path }
    }

    /// A directory below that of the instance.
    pub open spec fn below(self, slot: Slot, name: Seq<char>) -> DirView {
        DirView { slot, path: joined(self.path, name) }
    }
}

impl Bridge {
    /// The directory of the instance.
    pub fn instance_dir(&self) -> (dir: Dir)
        ensures
            dir@ == self@.dir(),
    {
        Dir { slot: Slot::Instance, path: self.path.clone() }
    }

    /// A directory below that of the instance.
    pub fn dir_below(&self, slot: Slot, name: &str) -> (dir: Dir)
        ensures
            dir@ == self@.below(slot, name@),
    {
        Dir { slot, path: join_text(self.path.as_str(), name) }
    }
}

/// What the lease says of the process that holds it, as JSON.
pub open spec fn instance_lease_body(instance: Seq<char>, pid: u32, token: Seq<char>) -> Seq<char> {
    "{\"gui_instance\":"@ + json_quoted(instance) + ",\"lease_version\":"@ + decimal(
        API_VERSION as nat,
    ) + ",\"pid\":"@ + decimal(pid as nat) + ",\"process_start_token\":"@ + json_quoted(token)
        + "}"@
}

fn write_lease_body(bridge: &Bridge) -> (body: String)
    ensures
        body@ == instance_lease_body(bridge.instance@, bridge.pid, bridge.process_start_token@),
{
    "{\"gui_instance\":".to_owned().concat(quote(bridge.instance.as_str()).as_str()).concat(
        ",\"lease_version\":",
    ).concat(decimal_text(API_VERSION as u64).as_str()).concat(",\"pid\":").concat(
        decimal_text(bridge.pid as u64).as_str(),
    ).concat(",\"process_start_token\":").concat(
        quote(bridge.process_start_token.as_str()).as_str(),
    ).concat("}")
}

/// Whether a document is the lease of this process: exactly its four fields.
pub open spec fn is_lease_of(
    document: JsonView,
    instance: Seq<char>,
    pid: u32,
    token: Seq<char>,
) -> bool {
    match object_of(Some(document)) {
        Some(entries) => {
            &&& entries.len() == 4
            &&& unsigned_of(entry(entries, "lease_version"@)) == Some(API_VERSION as u64)
            &&& text_of(entry(entries, "gui_instance"@)) == Some(instance)
            &&& unsigned_of(entry(entries, "pid"@)) == Some(pid as u64)
            &&& text_of(entry(entries, "process_start_token"@)) == Some(token)
        },
        None => false,
    }
}

fn text_is(text: Option<&str>, expected: &str) -> (same: bool)
    ensures
        same == (crate::text::optional_text(text) == Some(expected@)),
{
    match text {
        Some(text) => same_text(text, expected),
        None => false,
    }
}

fn number_is(number: Option<u64>, expected: u64) -> (same: bool)
    ensures
        same == (number == Some(expected)),
{
    match number {
        Some(number) => number == expected,
        None => false,
    }
}

fn lease_matches(document: &Json, bridge: &Bridge) -> (same: bool)
    ensures
        same == is_lease_of(
            document.contents(),
            bridge.instance@,
            bridge.pid,
            bridge.process_start_token@,
        ),
{
    match as_object(Some(document)) {
        Some(entries) => entries.len() == 4 && number_is(
            as_unsigned(find_entry(entries, "lease_version")),
            API_VERSION as u64,
        ) && text_is(as_text(find_entry(entries, "gui_instance")), bridge.instance.as_str())
            && number_is(as_unsigned(find_entry(entries, "pid")), bridge.pid as u64) && text_is(
            as_text(find_entry(entries, "process_start_token")),
            bridge.process_start_token.as_str(),
        ),
        None => false,
    }
}

/// Why the bytes of a lease are not those of this process.
pub open spec fn lease_failure(raw: Seq<u8>, instance: Seq<char>, pid: u32, token: Seq<char>) -> Option<
    Failure,
> {
    match json_document(raw) {
        Err(reason) => Some(failure("lease_lost"@, "lease JSON: "@ + reason)),
        Ok(document) => if is_lease_of(document, instance, pid, token) {
            None
        } else {
            Some(failure("lease_lost"@, "consumer lease identity changed"@))
        },
    }
}

/// Checks that the bytes of a lease are those of this process.
pub fn check_lease_body(raw: &[u8], bridge: &Bridge) -> (result: Result<(), BridgeFsError>)
    ensures
        refuses(
            result,
            lease_failure(raw@, bridge.instance@, bridge.pid, bridge.process_start_token@),
        ),
{
    match parse_document(raw) {
        Err(reason) => Err(
            BridgeFsError::new("lease_lost", "lease JSON: ".to_owned().concat(reason.as_str())),
        ),
        Ok(document) => {
            if lease_matches(&document, bridge) {
                Ok(())
            } else {
                Err(
                    BridgeFsError::new(
                        "lease_lost",
                        "consumer lease identity changed".to_owned(),
                    ),
                )
            }
        },
    }
}

/// The held lease, once it proved to be private. A refusal means that the lease
/// is lost.
pub open spec fn held_lease_checked(replies: Seq<Reply>, at: int, path: Seq<char>, euid: u32) -> Result<
    int,
    StopView,
> {
    match file_checked(replies, at, Slot::Lease, path, euid) {
        Ok(at) => Ok(at),
        Err(StopView::Refuse(refusal)) => Err(
            refused("lease_lost"@, "held consumer lease: "@ + refusal.detail),
        ),
        Err(stop) => Err(stop),
    }
}

fn check_held_lease(replies: &Vec<Reply>, at: usize, path: &str, euid: u32) -> (run: Result<
    usize,
    Stop,
>)
    ensures
        steps_of(run) == held_lease_checked(replies@, at as int, path@, euid),
{
    match validate_private_file(replies, at, Slot::Lease, path, euid) {
        Ok(at) => Ok(at),
        Err(Stop::Refuse(refusal)) => Err(
            refuse(
                "lease_lost",
                "held consumer lease: ".to_owned().concat(refusal.detail.as_str()),
            ),
        ),
        Err(stop) => Err(stop),
    }
}

/// The lease of this process, once its name proved to stand for the held file
/// and to say so.
pub open spec fn lease_required(replies: Seq<Reply>, at: int, bridge: BridgeView) -> Result<
    int,
    StopView,
> {
    let dir = bridge.dir();
    match held_lease_checked(replies, at, joined(dir.path, LEASE_FILE@), bridge.euid) {
        Err(stop) => Err(stop),
        Ok(at) => match document_opened(
            replies,
            at,
            dir,
            LEASE_FILE@,
            Slot::CurrentLease,
            bridge.euid,
        ) {
            Err(stop) => Err(stop),
            Ok((false, _)) => Err(refused("lease_lost"@, "consumer lease path is absent"@)),
            Ok((true, at)) => match must_stat_slot(
                replies,
                at,
                Slot::Lease,
                "lease_lost"@,
                "held consumer lease"@,
            ) {
                Err(stop) => Err(stop),
                Ok((held, at)) => match must_stat_slot(
                    replies,
                    at,
                    Slot::CurrentLease,
                    "lease_lost"@,
                    "current consumer lease"@,
                ) {
                    Err(stop) => Err(stop),
                    Ok((current, at)) => if !same_object(held, current) {
                        Err(
                            refused(
                                "lease_lost"@,
                                "consumer lease path no longer names the held lease inode"@,
                            ),
                        )
                    } else {
                        lease_body_required(replies, at, bridge)
                    },
                },
            },
        },
    }
}

/// The bytes of the lease, once they proved to be those of this process.
pub open spec fn lease_body_required(replies: Seq<Reply>, at: int, bridge: BridgeView) -> Result<
    int,
    StopView,
> {
    match document_read(
        replies,
        at,
        bridge.dir(),
        LEASE_FILE@,
        1024,
        bridge.euid,
    ) {
        Err(stop) => Err(stop),
        Ok((None, _)) => Err(refused("lease_lost"@, "consumer lease is absent"@)),
        Ok((Some(raw), at)) => match lease_failure(
            raw,
            bridge.instance,
            bridge.pid,
            bridge.process_start_token,
        ) {
            Some(refusal) => Err(StopView::Refuse(refusal)),
            None => Ok(at),
        },
    }
}

fn require_lease_body(replies: &Vec<Reply>, at: usize, bridge: &Bridge) -> (run: Result<
    usize,
    Stop,
>)
    ensures
        steps_of(run) == lease_body_required(replies@, at as int, bridge@),
{
    let dir = bridge.instance_dir();
    let (found, at) = read_document(replies, at, &dir, LEASE_FILE, 1024, bridge.euid)?;
    match found {
        None => Err(refuse("lease_lost", "consumer lease is absent".to_owned())),
        Some(raw) => match check_lease_body(raw.as_slice(), bridge) {
            Ok(()) => Ok(at),
            Err(error) => Err(refuse(error.code, error.detail)),
        },
    }
}

/// Checks that the lease is still that of this process.
pub fn validate_lease_identity(replies: &Vec<Reply>, at: usize, bridge: &Bridge) -> (run: Result<
    usize,
    Stop,
>)
    ensures
        steps_of(run) == lease_required(replies@, at as int, bridge@),
{
    let dir = bridge.instance_dir();
    let path = join_text(dir.path.as_str(), LEASE_FILE);
    let at = check_held_lease(replies, at, path.as_str(), bridge.euid)?;
    let (found, at) = open_document(
        replies,
        at,
        &dir,
        LEASE_FILE,
        Slot::CurrentLease,
        bridge.euid,
    )?;
    if !found {
        return Err(refuse("lease_lost", "consumer lease path is absent".to_owned()));
    }
    let (held, at) = must_stat(replies, at, Slot::Lease, "lease_lost", "held consumer lease")?;
    let (current, at) = must_stat(
        replies,
        at,
        Slot::CurrentLease,
        "lease_lost",
        "current consumer lease",
    )?;
    if !is_same_object(&held, &current) {
        return Err(
            refuse(
                "lease_lost",
                "consumer lease path no longer names the held lease inode".to_owned(),
            ),
        );
    }
    require_lease_body(replies, at, bridge)
}

/// The file of the lease, opened or made.
pub open spec fn lease_file_opened(replies: Seq<Reply>, at: int, dir: DirView) -> Result<
    int,
    StopView,
> {
    let path = joined(dir.path, LEASE_FILE@);
    match said_done(
        replies,
        at,
        ActionView::CreateFile {
            dir: dir.slot,
            name: LEASE_FILE@,
            access: Access::ReadWrite,
            into: Slot::Lease,
        },
    ) {
        Err(stop) => Err(stop),
        Ok((Ok(()), at)) => must_do(
            replies,
            at,
            ActionView::SetMode { slot: Slot::Lease, mode: PRIVATE_FILE },
            "lease_unavailable"@,
            path,
        ),
        Ok((Err(error), at)) => if error.kind != OsErrorKind::AlreadyExists {
            Err(refused_io("lease_unavailable"@, path, error))
        } else {
            must_do(
                replies,
                at,
                ActionView::OpenFile {
                    dir: dir.slot,
                    name: LEASE_FILE@,
                    access: Access::ReadWrite,
                    into: Slot::Lease,
                },
                "lease_unavailable"@,
                path,
            )
        },
    }
}

fn open_lease_file(replies: &Vec<Reply>, at: usize, dir: &Dir) -> (run: Result<usize, Stop>)
    ensures
        steps_of(run) == lease_file_opened(replies@, at as int, dir@),
{
    let path = join_text(dir.path.as_str(), LEASE_FILE);
    let (created, at) = ask_done(
        replies,
        at,
        Action::CreateFile {
            dir: dir.slot,
            name: LEASE_FILE.to_owned(),
            access: Access::ReadWrite,
            into: Slot::Lease,
        },
    )?;
    match created {
        Ok(()) => must_done(
            replies,
            at,
            Action::SetMode { slot: Slot::Lease, mode: PRIVATE_FILE },
            "lease_unavailable",
            path.as_str(),
        ),
        Err(error) => {
            if !already_exists(error.kind) {
                return Err(refuse_io("lease_unavailable", path.as_str(), error));
            }
            must_done(
                replies,
                at,
                Action::OpenFile {
                    dir: dir.slot,
                    name: LEASE_FILE.to_owned(),
                    access: Access::ReadWrite,
                    into: Slot::Lease,
                },
                "lease_unavailable",
                path.as_str(),
            )
        },
    }
}

/// The lease, filled anew and durable.
pub open spec fn instance_lease_filled(
    replies: Seq<Reply>,
    at: int,
    path: Seq<char>,
    bytes: Seq<u8>,
) -> Result<int, StopView> {
    let code = "lease_unavailable"@;
    match must_do(replies, at, ActionView::Truncate { slot: Slot::Lease }, code, path) {
        Err(stop) => Err(stop),
        Ok(at) => match must_do(
            replies,
            at,
            ActionView::Rewind { slot: Slot::Lease },
            code,
            path,
        ) {
            Err(stop) => Err(stop),
            Ok(at) => match must_do(
                replies,
                at,
                ActionView::Write { slot: Slot::Lease, bytes },
                code,
                path,
            ) {
                Err(stop) => Err(stop),
                Ok(at) => must_do(
                    replies,
                    at,
                    ActionView::SyncFile { slot: Slot::Lease },
                    code,
                    path,
                ),
            },
        },
    }
}

fn fill_instance_lease(replies: &Vec<Reply>, at: usize, path: &str, bytes: Vec<u8>) -> (run: Result<
    usize,
    Stop,
>)
    ensures
        steps_of(run) == instance_lease_filled(replies@, at as int, path@, bytes@),
{
    let at = must_done(
        replies,
        at,
        Action::Truncate { slot: Slot::Lease },
        "lease_unavailable",
        path,
    )?;
    let at = must_done(
        replies,
        at,
        Action::Rewind { slot: Slot::Lease },
        "lease_unavailable",
        path,
    )?;
    let at = must_done(
        replies,
        at,
        Action::Write { slot: Slot::Lease, bytes },
        "lease_unavailable",
        path,
    )?;
    must_done(replies, at, Action::SyncFile { slot: Slot::Lease }, "lease_unavailable", path)
}

/// The lease of an instance, locked for this process and signed with its
/// identity.
pub open spec fn instance_lease_acquired(replies: Seq<Reply>, at: int, bridge: BridgeView) -> Result<
    int,
    StopView,
> {
    let dir = bridge.dir();
    let path = joined(dir.path, LEASE_FILE@);
    match lease_file_opened(replies, at, dir) {
        Err(stop) => Err(stop),
        Ok(at) => match file_checked(replies, at, Slot::Lease, path, bridge.euid) {
            Err(stop) => Err(stop),
            Ok(at) => match must_do(
                replies,
                at,
                ActionView::LockExclusive { slot: Slot::Lease },
                "duplicate_instance"@,
                "GUI instance "@ + debug_quoted(bridge.instance)
                    + " is leased by another process"@,
            ) {
                Err(stop) => Err(stop),
                Ok(at) => match instance_lease_filled(
                    replies,
                    at,
                    path,
                    encode_utf8(
                        instance_lease_body(
                            bridge.instance,
                            bridge.pid,
                            bridge.process_start_token,
                        ),
                    ),
                ) {
                    Err(stop) => Err(stop),
                    Ok(at) => bridge_synced(replies, at, dir.slot),
                },
            },
        },
    }
}

/// Acquires the lease of an instance.
pub fn acquire_instance_lease(replies: &Vec<Reply>, at: usize, bridge: &Bridge) -> (run: Result<
    usize,
    Stop,
>)
    ensures
        steps_of(run) == instance_lease_acquired(replies@, at as int, bridge@),
{
    let dir = bridge.instance_dir();
    let path = join_text(dir.path.as_str(), LEASE_FILE);
    let at = open_lease_file(replies, at, &dir)?;
    let at = validate_private_file(replies, at, Slot::Lease, path.as_str(), bridge.euid)?;
    let context = "GUI instance ".to_owned().concat(
        debug_text(bridge.instance.as_str()).as_str(),
    ).concat(" is leased by another process");
    let at = must_done(
        replies,
        at,
        Action::LockExclusive { slot: Slot::Lease },
        "duplicate_instance",
        context.as_str(),
    )?;
    let body = write_lease_body(bridge);
    let at = fill_instance_lease(
        replies,
        at,
        path.as_str(),
        copy_bytes(body.as_str().as_bytes()),
    )?;
    sync_bridge(replies, at, dir.slot)
}

/// The refusal of an instance that this process leases already.
pub open spec fn already_leased(instance: Seq<char>) -> Failure {
    failure(
        "duplicate_instance"@,
        "GUI instance "@ + debug_quoted(instance) + " is already leased by this process"@,
    )
}

/// Why an instance cannot be claimed while these are.
pub open spec fn claim_refusal(active: Set<Seq<char>>, instance: Seq<char>) -> Option<Failure> {
    if active.contains(instance) {
        Some(already_leased(instance))
    } else {
        None
    }
}

/// Claims an instance within this process.
pub fn claim_instance(active: &mut TextSet, instance: &str) -> (result: Result<(), BridgeFsError>)
    ensures
        final(active)@ == old(active)@.insert(instance@),
        refuses(result, claim_refusal(old(active)@, instance@)),
{
    if active.insert(instance.to_owned()) {
        Ok(())
    } else {
        Err(
            BridgeFsError::new(
                "duplicate_instance",
                "GUI instance ".to_owned().concat(debug_text(instance).as_str()).concat(
                    " is already leased by this process",
                ),
            ),
        )
    }
}

/// Gives up the claim on an instance.
pub fn release_instance(active: &mut TextSet, instance: &str)
    ensures
        final(active)@ == old(active)@.remove(instance@),
{
    active.remove(instance);
}

/// While an instance is claimed, a second claim within the process is refused,
/// after it was released the next one is not, and other instances are claimed as
/// before either way.
pub proof fn law_claim_is_exclusive(
    active: Set<Seq<char>>,
    instance: Seq<char>,
    other: Seq<char>,
)
    requires
        other != instance,
    ensures
        claim_refusal(active.insert(instance), instance) == Some(already_leased(instance)),
        claim_refusal(active.insert(instance).remove(instance), instance) is None,
        claim_refusal(active.insert(instance), other) == claim_refusal(active, other),
        claim_refusal(active.remove(instance), other) == claim_refusal(active, other),
{
}

/// An acquired lease is locked: its file was locked for this process alone, and
/// the lock was granted.
pub proof fn law_acquired_lease_is_locked(replies: Seq<Reply>, at: int, bridge: BridgeView)
    requires
        0 <= at,
        instance_lease_acquired(replies, at, bridge) is Ok,
    ensures
        exists|k: int|
            at <= k < replies.len() && replies[k] is Done && instance_lease_acquired(
                #[trigger] replies.take(k),
                at,
                bridge,
            ) == Err::<int, StopView>(
                StopView::Await(ActionView::LockExclusive { slot: Slot::Lease }),
            ),
{
    let dir = bridge.dir();
    let path = joined(dir.path, LEASE_FILE@);
    let opened = lease_file_opened(replies, at, dir)->Ok_0;
    let k = file_checked(replies, opened, Slot::Lease, path, bridge.euid)->Ok_0;
    let before = replies.take(k);
    assert(lease_file_opened(before, at, dir) == Ok::<int, StopView>(opened));
    assert(file_checked(before, opened, Slot::Lease, path, bridge.euid) == Ok::<int, StopView>(k));
    assert(instance_lease_acquired(before, at, bridge) == Err::<int, StopView>(
        StopView::Await(ActionView::LockExclusive { slot: Slot::Lease }),
    ));
}

/// A second live consumer of an instance is refused: where the lock is not
/// granted, the instance is a duplicate.
pub proof fn law_held_lease_refuses_a_second(
    replies: Seq<Reply>,
    at: int,
    bridge: BridgeView,
    k: int,
)
    requires
        0 <= at <= k < replies.len(),
        instance_lease_acquired(replies.take(k), at, bridge) == Err::<int, StopView>(
            StopView::Await(ActionView::LockExclusive { slot: Slot::Lease }),
        ),
        replies[k] is Failed,
    ensures
        instance_lease_acquired(replies, at, bridge) matches Err(StopView::Refuse(refusal))
            && refusal.code == "duplicate_instance"@,
{
    let dir = bridge.dir();
    let path = joined(dir.path, LEASE_FILE@);
    let before = replies.take(k);
    let opened = lease_file_opened(before, at, dir)->Ok_0;
    assert(lease_file_opened(replies, at, dir) == Ok::<int, StopView>(opened));
    assert(file_checked(replies, opened, Slot::Lease, path, bridge.euid) == Ok::<int, StopView>(k));
}

} // verus!
