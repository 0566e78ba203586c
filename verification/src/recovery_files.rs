//! The documents of recovery: messages in the spool of an epoch, and manifests
//! that outlive it. Both are chosen by kind, never by path.

use crate::dialogue::{
    refuse, refused, run_of, steps_of, Reply, Run, Slot, Stop, StopView,
};
use crate::failure::{failure, DescriptorError, Failure, RecoveryManifestError, RecoverySpoolError};
use crate::identifier::{
    component_failure, refuses, uuid_failure, validate_component, validate_uuid, MAX_JSON_INTEGER,
};
use crate::private_dir::{
    base_opened, child_ensured, ensure_child, open_platform_base, BasePath, Dir, DirView,
    RUNTIME_DIR,
};
use crate::private_files::{
    named_read, publish_named_replace, published, read_private_named, remove_private_verified,
    removed,
};
use crate::text::{
    byte_len, chars_of, decimal, decimal_text, find_char, parse_u64, same_text, split_around,
    split_once, strip_prefix, unsigned_value, without_prefix,
};
use vstd::prelude::*;
use vstd::utf8::{decode_utf8, encode_utf8, encode_utf8_decode_utf8, is_char_boundary};

verus! {

/// The most bytes that a recovery message may have.
pub const MAX_RECOVERY_MESSAGE_BYTES: usize = 1_048_576;

/// The most bytes that a recovery manifest may have.
pub const MAX_RECOVERY_MANIFEST_BYTES: usize = 16_777_216;

/// The kinds of recovery message.
#[derive(Clone, Copy, Debug, PartialEq, Eq, Structural)]
pub enum RecoverySpoolKind {
    Command,
    Response,
    Status,
    Control,
    InitialSnapshot,
}

/// The kind that a word names.
pub open spec fn spool_kind(word: Seq<char>) -> Option<RecoverySpoolKind> {
    if word == "command"@ {
        Some(RecoverySpoolKind::Command)
    } else if word == "response"@ {
        Some(RecoverySpoolKind::Response)
    } else if word == "status"@ {
        Some(RecoverySpoolKind::Status)
    } else if word == "control"@ {
        Some(RecoverySpoolKind::Control)
    } else if word == "initial_snapshot"@ {
        Some(RecoverySpoolKind::InitialSnapshot)
    } else {
        None
    }
}

/// The refusal of a word that names no kind of message.
pub open spec fn unknown_spool_kind() -> Failure {
    failure(
        "invalid_kind"@,
        "kind must be command, response, status, control, or initial_snapshot"@,
    )
}

/// The name of the file of a kind.
pub open spec fn spool_file(kind: RecoverySpoolKind) -> Seq<char> {
    match kind {
        RecoverySpoolKind::Command => "command.json"@,
        RecoverySpoolKind::Response => "response.json"@,
        RecoverySpoolKind::Status => "status.json"@,
        RecoverySpoolKind::Control => "control.json"@,
        RecoverySpoolKind::InitialSnapshot => "initial-snapshot.json"@,
    }
}

impl RecoverySpoolKind {
    /// Reads a kind.
    pub fn parse(value: &str) -> (result: Result<Self, RecoverySpoolError>)
        ensures
            match result {
                Ok(kind) => spool_kind(value@) == Some(kind),
                Err(error) => spool_kind(value@) is None && error@ == unknown_spool_kind(),
            },
    {
        if same_text(value, "command") {
            Ok(RecoverySpoolKind::Command)
        } else if same_text(value, "response") {
            Ok(RecoverySpoolKind::Response)
        } else if same_text(value, "status") {
            Ok(RecoverySpoolKind::Status)
        } else if same_text(value, "control") {
            Ok(RecoverySpoolKind::Control)
        } else if same_text(value, "initial_snapshot") {
            Ok(RecoverySpoolKind::InitialSnapshot)
        } else {
            Err(
                RecoverySpoolError::new(
                    "invalid_kind",
                    "kind must be command, response, status, control, or initial_snapshot".to_owned(),
                ),
            )
        }
    }

    /// The name of the file of this kind.
    pub fn file_name(self) -> (name: &'static str)
        ensures
            name@ == spool_file(self),
    {
        match self {
            RecoverySpoolKind::Command => "command.json",
            RecoverySpoolKind::Response => "response.json",
            RecoverySpoolKind::Status => "status.json",
            RecoverySpoolKind::Control => "control.json",
            RecoverySpoolKind::InitialSnapshot => "initial-snapshot.json",
        }
    }
}

/// The kinds of recovery manifest.
#[derive(Clone, Copy, Debug, PartialEq, Eq, Structural)]
pub enum RecoveryManifestKind {
    Candidate,
    Plan,
    Published,
}

/// The kind that a word names.
pub open spec fn manifest_kind(word: Seq<char>) -> Option<RecoveryManifestKind> {
    if word == "candidate"@ {
        Some(RecoveryManifestKind::Candidate)
    } else if word == "plan"@ {
        Some(RecoveryManifestKind::Plan)
    } else if word == "published"@ {
        Some(RecoveryManifestKind::Published)
    } else {
        None
    }
}

/// The refusal of a word that names no kind of manifest.
pub open spec fn unknown_manifest_kind() -> Failure {
    failure("invalid_kind"@, "kind must be candidate, plan, or published"@)
}

impl RecoveryManifestKind {
    /// Reads a kind.
    pub fn parse(value: &str) -> (result: Result<Self, RecoveryManifestError>)
        ensures
            match result {
                Ok(kind) => manifest_kind(value@) == Some(kind),
                Err(error) => manifest_kind(value@) is None && error@ == unknown_manifest_kind(),
            },
    {
        if same_text(value, "candidate") {
            Ok(RecoveryManifestKind::Candidate)
        } else if same_text(value, "plan") {
            Ok(RecoveryManifestKind::Plan)
        } else if same_text(value, "published") {
            Ok(RecoveryManifestKind::Published)
        } else {
            Err(
                RecoveryManifestError::new(
                    "invalid_kind",
                    "kind must be candidate, plan, or published".to_owned(),
                ),
            )
        }
    }
}

/// The directory of an epoch's messages, made if it is missing.
pub open spec fn epoch_dir(
    replies: Seq<Reply>,
    at: int,
    base: BasePath,
    epoch: Seq<char>,
    euid: u32,
) -> Run<DirView> {
    match uuid_failure("epoch"@, epoch) {
        Some(refusal) => Err(StopView::Refuse(refusal)),
        None => match base_opened(replies, at, base, Slot::Base, euid) {
            Err(stop) => Err(stop),
            Ok((base, at)) => match child_ensured(
                replies,
                at,
                base,
                RUNTIME_DIR@,
                Slot::Runtime,
                euid,
            ) {
                Err(stop) => Err(stop),
                Ok((runtime, at)) => match child_ensured(
                    replies,
                    at,
                    runtime,
                    "recovery"@,
                    Slot::Recovery,
                    euid,
                ) {
                    Err(stop) => Err(stop),
                    Ok((recovery, at)) => child_ensured(
                        replies,
                        at,
                        recovery,
                        epoch,
                        Slot::Epoch,
                        euid,
                    ),
                },
            },
        },
    }
}

/// Opens the directory of an epoch's messages.
pub fn recovery_epoch_dir_at_base(
    replies: &Vec<Reply>,
    at: usize,
    base: &BasePath,
    epoch: &str,
    euid: u32,
) -> (run: Result<(Dir, usize), Stop>)
    ensures
        run_of(run) == epoch_dir(replies@, at as int, *base, epoch@, euid),
{
    if let Err(error) = validate_uuid("epoch", epoch) {
        return Err(refuse(error.code, error.detail));
    }
    let (base, at) = open_platform_base(replies, at, base, Slot::Base, euid)?;
    let (runtime, at) = ensure_child(replies, at, &base, RUNTIME_DIR, Slot::Runtime, euid)?;
    let (recovery, at) = ensure_child(replies, at, &runtime, "recovery", Slot::Recovery, euid)?;
    ensure_child(replies, at, &recovery, epoch, Slot::Epoch, euid)
}

/// The refusal of a limit for reading.
pub open spec fn invalid_limit(maximum: usize, largest: usize) -> Option<Failure> {
    if maximum == 0 || maximum > largest {
        Some(
            failure(
                "invalid_limit"@,
                "max_bytes must be between 1 and "@ + decimal(largest as nat),
            ),
        )
    } else {
        None
    }
}

fn check_limit(maximum: usize, largest: usize) -> (result: Result<(), Stop>)
    ensures
        match result {
            Ok(()) => invalid_limit(maximum, largest) is None,
            Err(stop) => invalid_limit(maximum, largest) is Some && stop@ == StopView::Refuse(
                invalid_limit(maximum, largest)->0,
            ),
        },
{
    if maximum == 0 || maximum > largest {
        return Err(
            refuse(
                "invalid_limit",
                "max_bytes must be between 1 and ".to_owned().concat(
                    decimal_text(largest as u64).as_str(),
                ),
            ),
        );
    }
    Ok(())
}

/// A message of the spool, if there is one of this kind.
pub open spec fn message_read(
    replies: Seq<Reply>,
    at: int,
    dir: DirView,
    kind: Seq<char>,
    maximum: usize,
    euid: u32,
) -> Run<Option<Seq<u8>>> {
    match invalid_limit(maximum, MAX_RECOVERY_MESSAGE_BYTES) {
        Some(refusal) => Err(StopView::Refuse(refusal)),
        None => match spool_kind(kind) {
            None => Err(StopView::Refuse(unknown_spool_kind())),
            Some(kind) => named_read(replies, at, dir, spool_file(kind), maximum, euid),
        },
    }
}

fn parse_spool_kind(kind: &str) -> (result: Result<RecoverySpoolKind, Stop>)
    ensures
        match result {
            Ok(parsed) => spool_kind(kind@) == Some(parsed),
            Err(stop) => spool_kind(kind@) is None && stop@ == StopView::Refuse(
                unknown_spool_kind(),
            ),
        },
{
    match RecoverySpoolKind::parse(kind) {
        Ok(kind) => Ok(kind),
        Err(error) => Err(refuse(error.code, error.detail)),
    }
}

/// Reads a message of the spool.
pub fn recovery_spool_read_from_dir<'a>(
    replies: &'a Vec<Reply>,
    at: usize,
    dir: &Dir,
    kind: &str,
    maximum: usize,
    euid: u32,
) -> (run: Result<(Option<&'a Vec<u8>>, usize), Stop>)
    ensures
        match (run, message_read(replies@, at as int, dir@, kind@, maximum, euid)) {
            (Ok((Some(bytes), next)), Ok((Some(read), then))) => bytes@ == read && next == then,
            (Ok((None, next)), Ok((None, then))) => next == then,
            (Err(stop), Err(stopped)) => stop@ == stopped,
            _ => false,
        },
{
    check_limit(maximum, MAX_RECOVERY_MESSAGE_BYTES)?;
    let kind = parse_spool_kind(kind)?;
    read_private_named(replies, at, dir, kind.file_name(), maximum, euid)
}

/// The refusal of a document that is too large.
pub open spec fn too_large(what: Seq<char>, len: nat, largest: usize) -> Option<Failure> {
    if len > largest {
        Some(
            failure(
                "message_too_large"@,
                what + " is "@ + decimal(len) + " bytes; maximum is "@ + decimal(largest as nat),
            ),
        )
    } else {
        None
    }
}

fn check_size(what: &str, len: usize, largest: usize) -> (result: Result<(), Stop>)
    ensures
        match result {
            Ok(()) => too_large(what@, len as nat, largest) is None,
            Err(stop) => too_large(what@, len as nat, largest) is Some && stop@
                == StopView::Refuse(too_large(what@, len as nat, largest)->0),
        },
{
    if len > largest {
        return Err(
            refuse(
                "message_too_large",
                what.to_owned().concat(" is ").concat(decimal_text(len as u64).as_str()).concat(
                    " bytes; maximum is ",
                ).concat(decimal_text(largest as u64).as_str()),
            ),
        );
    }
    Ok(())
}

/// A message of the spool, written.
pub open spec fn message_written(
    replies: Seq<Reply>,
    at: int,
    dir: DirView,
    kind: Seq<char>,
    raw: Seq<u8>,
    euid: u32,
) -> Result<int, StopView> {
    match too_large("recovery document"@, raw.len(), MAX_RECOVERY_MESSAGE_BYTES) {
        Some(refusal) => Err(StopView::Refuse(refusal)),
        None => match spool_kind(kind) {
            None => Err(StopView::Refuse(unknown_spool_kind())),
            Some(kind) => published(
                replies,
                at,
                dir,
                spool_file(kind),
                raw,
                MAX_RECOVERY_MESSAGE_BYTES,
                euid,
            ),
        },
    }
}

/// Writes a message of the spool.
pub fn recovery_spool_write_to_dir(
    replies: &Vec<Reply>,
    at: usize,
    dir: &Dir,
    kind: &str,
    raw: &[u8],
    euid: u32,
) -> (run: Result<usize, Stop>)
    ensures
        steps_of(run) == message_written(replies@, at as int, dir@, kind@, raw@, euid),
{
    check_size("recovery document", raw.len(), MAX_RECOVERY_MESSAGE_BYTES)?;
    let kind = parse_spool_kind(kind)?;
    publish_named_replace(
        replies,
        at,
        dir,
        kind.file_name(),
        raw,
        MAX_RECOVERY_MESSAGE_BYTES,
        euid,
    )
}

/// Whether a message of the spool was removed.
pub open spec fn message_removed(
    replies: Seq<Reply>,
    at: int,
    dir: DirView,
    kind: Seq<char>,
    euid: u32,
) -> Run<bool> {
    match spool_kind(kind) {
        None => Err(StopView::Refuse(unknown_spool_kind())),
        Some(kind) => removed(replies, at, dir, spool_file(kind), euid),
    }
}

/// Removes a message of the spool.
pub fn recovery_spool_remove_from_dir(
    replies: &Vec<Reply>,
    at: usize,
    dir: &Dir,
    kind: &str,
    euid: u32,
) -> (run: Result<(bool, usize), Stop>)
    ensures
        run_of(run) == message_removed(replies@, at as int, dir@, kind@, euid),
{
    let kind = parse_spool_kind(kind)?;
    remove_private_verified(replies, at, dir, kind.file_name(), euid)
}

/// The refusal of a name of a candidate.
pub open spec fn invalid_name(detail: Seq<char>) -> Failure {
    failure("invalid_name"@, detail)
}

/// The number of bytes that a UUID has.
pub const UUID_BYTES: usize = 36;

/// The refusal of a number that is not positive, exact and in canonical
/// decimal.
pub open spec fn number_failure(label: Seq<char>, value: Seq<char>) -> Option<Failure> {
    match unsigned_value(value) {
        None => Some(invalid_name("candidate "@ + label + " is not decimal"@)),
        Some(number) => if number > u64::MAX {
            Some(invalid_name("candidate "@ + label + " is not decimal"@))
        } else if number == 0 || number > MAX_JSON_INTEGER || decimal(number) != value {
            Some(
                invalid_name(
                    "candidate "@ + label + " is not a canonical positive exact integer"@,
                ),
            )
        } else {
            None
        },
    }
}

/// The refusal of what follows the epoch in the name of a candidate: a time and
/// a serial number.
pub open spec fn suffix_failure(suffix: Seq<char>) -> Option<Failure> {
    match without_prefix(suffix, seq!['-']) {
        None => Some(invalid_name("candidate epoch delimiter is missing"@)),
        Some(rest) => match split_around(rest, '-') {
            None => Some(invalid_name("candidate time/serial delimiter is missing"@)),
            Some((unix, serial)) => if serial.contains('-') {
                Some(invalid_name("candidate_name has trailing fields"@))
            } else if number_failure("unix time"@, unix) is Some {
                number_failure("unix time"@, unix)
            } else {
                number_failure("serial"@, serial)
            },
        },
    }
}

/// The epoch that the stem of a candidate's name starts with, and the rest.
pub open spec fn stem_parts(stem: Seq<char>) -> (Seq<char>, Seq<char>) {
    let bytes = encode_utf8(stem);
    (
        decode_utf8(bytes.subrange(0, UUID_BYTES as int)),
        decode_utf8(bytes.subrange(UUID_BYTES as int, bytes.len() as int)),
    )
}

/// The names of a candidate, of its plan and of its published manifest.
pub struct ManifestNames {
    pub candidate: Seq<char>,
    pub plan: Seq<char>,
    pub published: Seq<char>,
}

/// The names that belong to a candidate.
pub open spec fn manifest_names(candidate: Seq<char>) -> Result<ManifestNames, Failure> {
    match without_prefix(candidate, ".capture-"@) {
        None => Err(invalid_name("candidate_name must start with .capture-"@)),
        Some(stem) => {
            let (epoch, suffix) = stem_parts(stem);
            let names = ManifestNames {
                candidate,
                plan: candidate + ".plan"@,
                published: "manifest-"@ + stem + ".json"@,
            };
            if encode_utf8(stem).len() < 40 {
                Err(invalid_name("candidate_name is truncated"@))
            } else if uuid_failure("candidate epoch"@, epoch) is Some {
                Err(uuid_failure("candidate epoch"@, epoch)->0)
            } else if suffix_failure(suffix) is Some {
                Err(suffix_failure(suffix)->0)
            } else if component_failure(names.candidate) is Some {
                Err(component_failure(names.candidate)->0)
            } else if component_failure(names.plan) is Some {
                Err(component_failure(names.plan)->0)
            } else if component_failure(names.published) is Some {
                Err(component_failure(names.published)->0)
            } else {
                Ok(names)
            }
        },
    }
}

/// Whether the epoch that the name of a candidate starts with ends between two
/// characters, where the name is long enough to hold one.
pub open spec fn cuts_between_characters(candidate: Seq<char>) -> bool {
    match without_prefix(candidate, ".capture-"@) {
        Some(stem) => encode_utf8(stem).len() >= 40 ==> is_char_boundary(
            encode_utf8(stem),
            UUID_BYTES as int,
        ),
        None => true,
    }
}

/// Whether the epoch that the name of a candidate starts with ends between two
/// characters.
pub fn can_be_cut(candidate: &str) -> (yes: bool)
    ensures
        yes == cuts_between_characters(candidate@),
{
    match strip_prefix(candidate, ".capture-") {
        Some(stem) => byte_len(stem) < 40 || stem.is_char_boundary(UUID_BYTES),
        None => true,
    }
}

/// The names of a candidate, of its plan and of its published manifest.
#[derive(Debug)]
pub struct RecoveryManifestNames {
    pub candidate: String,
    pub plan: String,
    pub published: String,
}

impl View for RecoveryManifestNames {
    type V = ManifestNames;

    open spec fn view(&self) -> ManifestNames {
        ManifestNames {
            candidate: self.candidate@,
            plan: self.plan@,
            published: self.published@,
        }
    }
}

fn name_error(detail: &str) -> (error: RecoveryManifestError)
    ensures
        error@ == invalid_name(detail@),
{
    RecoveryManifestError::new("invalid_name", detail.to_owned())
}

fn check_number(label: &str, value: &str) -> (result: Result<(), RecoveryManifestError>)
    ensures
        refuses(result, number_failure(label@, value@)),
{
    let start = "candidate ".to_owned().concat(label);
    match parse_u64(value) {
        None => Err(
            RecoveryManifestError::new("invalid_name", start.concat(" is not decimal")),
        ),
        Some(number) => {
            if number == 0 || number > MAX_JSON_INTEGER || !same_text(
                decimal_text(number).as_str(),
                value,
            ) {
                return Err(
                    RecoveryManifestError::new(
                        "invalid_name",
                        start.concat(" is not a canonical positive exact integer"),
                    ),
                );
            }
            Ok(())
        },
    }
}

fn check_suffix(suffix: &str) -> (result: Result<(), RecoveryManifestError>)
    ensures
        refuses(result, suffix_failure(suffix@)),
{
    proof {
        reveal_strlit("-");
        assert("-"@ =~= seq!['-']);
    }
    let rest = match strip_prefix(suffix, "-") {
        Some(rest) => rest,
        None => {
            return Err(name_error("candidate epoch delimiter is missing"));
        },
    };
    let (unix, serial) = match split_once(rest, '-') {
        Some(parts) => parts,
        None => {
            return Err(name_error("candidate time/serial delimiter is missing"));
        },
    };
    let chars = chars_of(serial);
    if find_char(&chars, '-').is_some() {
        return Err(name_error("candidate_name has trailing fields"));
    }
    check_number("unix time", unix)?;
    check_number("serial", serial)
}

fn split_stem<'a>(stem: &'a str) -> (parts: (&'a str, &'a str))
    requires
        is_char_boundary(encode_utf8(stem@), UUID_BYTES as int),
    ensures
        (parts.0@, parts.1@) == stem_parts(stem@),
{
    let parts = stem.split_at(UUID_BYTES);
    proof {
        encode_utf8_decode_utf8(parts.0@);
        encode_utf8_decode_utf8(parts.1@);
    }
    parts
}

fn manifest_error(error: DescriptorError) -> (result: RecoveryManifestError)
    ensures
        result@ == error@,
{
    RecoveryManifestError::from_descriptor(error)
}

/// Finds the names that belong to a candidate.
pub fn recovery_manifest_names(candidate: &str) -> (result: Result<
    RecoveryManifestNames,
    RecoveryManifestError,
>)
    requires
        cuts_between_characters(candidate@),
    ensures
        match result {
            Ok(names) => manifest_names(candidate@) == Ok::<ManifestNames, Failure>(names@),
            Err(error) => manifest_names(candidate@) == Err::<ManifestNames, Failure>(error@),
        },
{
    let stem = match strip_prefix(candidate, ".capture-") {
        Some(stem) => stem,
        None => {
            return Err(name_error("candidate_name must start with .capture-"));
        },
    };
    if byte_len(stem) < 40 {
        return Err(name_error("candidate_name is truncated"));
    }
    let (epoch, suffix) = split_stem(stem);
    if let Err(error) = validate_uuid("candidate epoch", epoch) {
        return Err(manifest_error(error));
    }
    check_suffix(suffix)?;
    let plan = candidate.to_owned().concat(".plan");
    let published = "manifest-".to_owned().concat(stem).concat(".json");
    if let Err(error) = validate_component(candidate) {
        return Err(manifest_error(error));
    }
    if let Err(error) = validate_component(plan.as_str()) {
        return Err(manifest_error(error));
    }
    if let Err(error) = validate_component(published.as_str()) {
        return Err(manifest_error(error));
    }
    Ok(RecoveryManifestNames { candidate: candidate.to_owned(), plan, published })
}

/// The directory of manifests, made if it is missing.
pub open spec fn manifest_root(replies: Seq<Reply>, at: int, base: BasePath, euid: u32) -> Run<
    DirView,
> {
    match base_opened(replies, at, base, Slot::Base, euid) {
        Err(stop) => Err(stop),
        Ok((base, at)) => match child_ensured(replies, at, base, "dmux"@, Slot::Runtime, euid) {
            Err(stop) => Err(stop),
            Ok((dmux, at)) => child_ensured(
                replies,
                at,
                dmux,
                "recovery-manifests"@,
                Slot::Manifests,
                euid,
            ),
        },
    }
}

/// Opens the directory of manifests.
pub fn recovery_manifest_root_at_base(
    replies: &Vec<Reply>,
    at: usize,
    base: &BasePath,
    euid: u32,
) -> (run: Result<(Dir, usize), Stop>)
    ensures
        run_of(run) == manifest_root(replies@, at as int, *base, euid),
{
    let (base, at) = open_platform_base(replies, at, base, Slot::Base, euid)?;
    let (dmux, at) = ensure_child(replies, at, &base, "dmux", Slot::Runtime, euid)?;
    ensure_child(replies, at, &dmux, "recovery-manifests", Slot::Manifests, euid)
}

fn names_or_stop(candidate: &str) -> (result: Result<RecoveryManifestNames, Stop>)
    requires
        cuts_between_characters(candidate@),
    ensures
        match result {
            Ok(names) => manifest_names(candidate@) == Ok::<ManifestNames, Failure>(names@),
            Err(stop) => manifest_names(candidate@) matches Err(refusal) && stop@
                == StopView::Refuse(refusal),
        },
{
    match recovery_manifest_names(candidate) {
        Ok(names) => Ok(names),
        Err(error) => Err(refuse(error.code, error.detail)),
    }
}

fn manifest_kind_or_stop(kind: &str) -> (result: Result<RecoveryManifestKind, Stop>)
    ensures
        match result {
            Ok(parsed) => manifest_kind(kind@) == Some(parsed),
            Err(stop) => manifest_kind(kind@) is None && stop@ == StopView::Refuse(
                unknown_manifest_kind(),
            ),
        },
{
    match RecoveryManifestKind::parse(kind) {
        Ok(kind) => Ok(kind),
        Err(error) => Err(refuse(error.code, error.detail)),
    }
}

/// A candidate, written.
pub open spec fn candidate_written(
    replies: Seq<Reply>,
    at: int,
    root: DirView,
    candidate: Seq<char>,
    raw: Seq<u8>,
    euid: u32,
) -> Result<int, StopView> {
    match manifest_names(candidate) {
        Err(refusal) => Err(StopView::Refuse(refusal)),
        Ok(names) => match too_large("candidate"@, raw.len(), MAX_RECOVERY_MANIFEST_BYTES) {
            Some(refusal) => Err(StopView::Refuse(refusal)),
            None => published(
                replies,
                at,
                root,
                names.candidate,
                raw,
                MAX_RECOVERY_MANIFEST_BYTES,
                euid,
            ),
        },
    }
}

/// Writes a candidate.
pub fn recovery_manifest_write_candidate_at_root(
    replies: &Vec<Reply>,
    at: usize,
    root: &Dir,
    candidate: &str,
    raw: &[u8],
    euid: u32,
) -> (run: Result<usize, Stop>)
    requires
        cuts_between_characters(candidate@),
    ensures
        steps_of(run) == candidate_written(replies@, at as int, root@, candidate@, raw@, euid),
{
    let names = names_or_stop(candidate)?;
    check_size("candidate", raw.len(), MAX_RECOVERY_MANIFEST_BYTES)?;
    publish_named_replace(
        replies,
        at,
        root,
        names.candidate.as_str(),
        raw,
        MAX_RECOVERY_MANIFEST_BYTES,
        euid,
    )
}

/// The name of a manifest of some kind.
pub open spec fn manifest_file(names: ManifestNames, kind: RecoveryManifestKind) -> Seq<char> {
    match kind {
        RecoveryManifestKind::Candidate => names.candidate,
        RecoveryManifestKind::Plan => names.plan,
        RecoveryManifestKind::Published => names.published,
    }
}

/// A manifest, if there is one of this kind.
pub open spec fn manifest_read(
    replies: Seq<Reply>,
    at: int,
    root: DirView,
    candidate: Seq<char>,
    kind: Seq<char>,
    maximum: usize,
    euid: u32,
) -> Run<Option<Seq<u8>>> {
    match invalid_limit(maximum, MAX_RECOVERY_MANIFEST_BYTES) {
        Some(refusal) => Err(StopView::Refuse(refusal)),
        None => match manifest_names(candidate) {
            Err(refusal) => Err(StopView::Refuse(refusal)),
            Ok(names) => match manifest_kind(kind) {
                None => Err(StopView::Refuse(unknown_manifest_kind())),
                Some(kind) => named_read(
                    replies,
                    at,
                    root,
                    manifest_file(names, kind),
                    maximum,
                    euid,
                ),
            },
        },
    }
}

/// Reads a manifest.
pub fn recovery_manifest_read_at_root<'a>(
    replies: &'a Vec<Reply>,
    at: usize,
    root: &Dir,
    candidate: &str,
    kind: &str,
    maximum: usize,
    euid: u32,
) -> (run: Result<(Option<&'a Vec<u8>>, usize), Stop>)
    requires
        cuts_between_characters(candidate@),
    ensures
        match (run, manifest_read(replies@, at as int, root@, candidate@, kind@, maximum, euid)) {
            (Ok((Some(bytes), next)), Ok((Some(read), then))) => bytes@ == read && next == then,
            (Ok((None, next)), Ok((None, then))) => next == then,
            (Err(stop), Err(stopped)) => stop@ == stopped,
            _ => false,
        },
{
    check_limit(maximum, MAX_RECOVERY_MANIFEST_BYTES)?;
    let names = names_or_stop(candidate)?;
    let name = match manifest_kind_or_stop(kind)? {
        RecoveryManifestKind::Candidate => names.candidate,
        RecoveryManifestKind::Plan => names.plan,
        RecoveryManifestKind::Published => names.published,
    };
    read_private_named(replies, at, root, name.as_str(), maximum, euid)
}

/// Whether a manifest was removed. A published one never is.
pub open spec fn manifest_removed(
    replies: Seq<Reply>,
    at: int,
    root: DirView,
    candidate: Seq<char>,
    kind: Seq<char>,
    euid: u32,
) -> Run<bool> {
    match manifest_names(candidate) {
        Err(refusal) => Err(StopView::Refuse(refusal)),
        Ok(names) => match manifest_kind(kind) {
            None => Err(StopView::Refuse(unknown_manifest_kind())),
            Some(kind) => if kind == RecoveryManifestKind::Published {
                Err(
                    refused(
                        "invalid_kind"@,
                        "durable published manifests cannot be removed through the Lua API"@,
                    ),
                )
            } else {
                removed(replies, at, root, manifest_file(names, kind), euid)
            },
        },
    }
}

/// Removes a candidate or a plan.
pub fn recovery_manifest_remove_at_root(
    replies: &Vec<Reply>,
    at: usize,
    root: &Dir,
    candidate: &str,
    kind: &str,
    euid: u32,
) -> (run: Result<(bool, usize), Stop>)
    requires
        cuts_between_characters(candidate@),
    ensures
        run_of(run) == manifest_removed(replies@, at as int, root@, candidate@, kind@, euid),
{
    let names = names_or_stop(candidate)?;
    let name = match manifest_kind_or_stop(kind)? {
        RecoveryManifestKind::Candidate => names.candidate,
        RecoveryManifestKind::Plan => names.plan,
        RecoveryManifestKind::Published => {
            return Err(
                refuse(
                    "invalid_kind",
                    "durable published manifests cannot be removed through the Lua API".to_owned(),
                ),
            );
        },
    };
    remove_private_verified(replies, at, root, name.as_str(), euid)
}

/// A published manifest is durable: no request removes it, and the refusal
/// comes before anything is done.
pub proof fn law_published_manifest_is_never_removed(
    replies: Seq<Reply>,
    at: int,
    root: DirView,
    candidate: Seq<char>,
    euid: u32,
)
    ensures
        manifest_removed(replies, at, root, candidate, "published"@, euid) matches Err(stop)
            && stop is Refuse,
{
    assert("published"@ != "candidate"@ && "published"@ != "plan"@) by {
        reveal_strlit("published");
        reveal_strlit("candidate");
        reveal_strlit("plan");
        assert("published"@[0] != "candidate"@[0]);
        assert("published"@.len() != "plan"@.len());
    }
}

/// The three names of a candidate are distinct, so that no manifest stands in
/// the place of another.
pub proof fn law_manifest_names_are_distinct(candidate: Seq<char>)
    requires
        manifest_names(candidate) is Ok,
    ensures
        ({
            let names = manifest_names(candidate)->Ok_0;
            names.candidate != names.plan && names.candidate != names.published && names.plan
                != names.published
        }),
{
    let names = manifest_names(candidate)->Ok_0;
    reveal_strlit(".plan");
    reveal_strlit(".capture-");
    reveal_strlit("manifest-");
    assert(names.plan.len() != names.candidate.len());
    assert(candidate[0] == '.') by {
        assert(candidate.take(9)[0] == ".capture-"@[0]);
    }
    assert(names.plan[0] == '.');
    assert(names.published[0] == 'm');
}

} // verus!
