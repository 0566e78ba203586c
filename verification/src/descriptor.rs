//! The service descriptor: what the managed service publishes of itself, what a
//! publisher may ask for, and what a reader demands.

use crate::failure::{failure, DescriptorError, Failure};
use crate::identifier::{
    bounded_text_failure, is_bounded_text, is_canonical_uuid, refuses, uuid_failure,
    validate_bounded_text, validate_uuid, MAX_JSON_INTEGER,
};
use crate::private_dir::{contains_nul, holds_nul};
use crate::process_identity::MAX_PID;
use crate::table_schema::{
    check_keys, either_error, field_error, keys_refusal, names_of, SchemaWords, TableKey,
};
use crate::text::{optional_string, read_utf8, same_text};
use vstd::prelude::*;
use vstd::utf8::{decode_utf8, encode_utf8, valid_utf8};

verus! {

/// The version of the descriptor.
pub const DESCRIPTOR_VERSION: u32 = 1;

/// The most bytes that a descriptor may have.
pub const MAX_DESCRIPTOR_BYTES: usize = 65536;

/// What the managed service publishes of itself.
#[derive(Debug)]
pub struct ServiceDescriptor {
    pub descriptor_version: u32,
    pub state: String,
    pub epoch: String,
    pub pid: u32,
    pub socket: String,
    pub socket_dev: Option<u64>,
    pub socket_ino: Option<u64>,
    pub start_token: String,
    pub backend_instance_uid: Option<String>,
    pub boot_nonce: String,
    pub boot_id: String,
    pub written_by: String,
    pub written_at: String,
    pub sentinel_window_id: Option<u64>,
    pub sentinel_tab_id: Option<u64>,
    pub sentinel_pane_id: Option<u64>,
    pub sentinel_fallback: Option<bool>,
    pub recovery_generation: Option<String>,
    pub recovery_manifest_id: Option<String>,
    pub error: Option<String>,
}

/// The view of a [`ServiceDescriptor`].
pub struct DescriptorView {
    pub descriptor_version: u32,
    pub state: Seq<char>,
    pub epoch: Seq<char>,
    pub pid: u32,
    pub socket: Seq<char>,
    pub socket_dev: Option<u64>,
    pub socket_ino: Option<u64>,
    pub start_token: Seq<char>,
    pub backend_instance_uid: Option<Seq<char>>,
    pub boot_nonce: Seq<char>,
    pub boot_id: Seq<char>,
    pub written_by: Seq<char>,
    pub written_at: Seq<char>,
    pub sentinel_window_id: Option<u64>,
    pub sentinel_tab_id: Option<u64>,
    pub sentinel_pane_id: Option<u64>,
    pub sentinel_fallback: Option<bool>,
    pub recovery_generation: Option<Seq<char>>,
    pub recovery_manifest_id: Option<Seq<char>>,
    pub error: Option<Seq<char>>,
}

impl View for ServiceDescriptor {
    type V = DescriptorView;

    open spec fn view(&self) -> DescriptorView {
        DescriptorView {
            descriptor_version: self.descriptor_version,
            state: self.state@,
            epoch: self.epoch@,
            pid: self.pid,
            socket: self.socket@,
            socket_dev: self.socket_dev,
            socket_ino: self.socket_ino,
            start_token: self.start_token@,
            backend_instance_uid: optional_string(self.backend_instance_uid),
            boot_nonce: self.boot_nonce@,
            boot_id: self.boot_id@,
            written_by: self.written_by@,
            written_at: self.written_at@,
            sentinel_window_id: self.sentinel_window_id,
            sentinel_tab_id: self.sentinel_tab_id,
            sentinel_pane_id: self.sentinel_pane_id,
            sentinel_fallback: self.sentinel_fallback,
            recovery_generation: optional_string(self.recovery_generation),
            recovery_manifest_id: optional_string(self.recovery_manifest_id),
            error: optional_string(self.error),
        }
    }
}

/// What a publisher asks to be published.
#[derive(Debug)]
pub struct PublishRequest {
    pub state: String,
    pub epoch: String,
    pub backend_instance_uid: Option<String>,
    pub boot_nonce: String,
    pub sentinel_window_id: Option<u64>,
    pub sentinel_tab_id: Option<u64>,
    pub sentinel_pane_id: Option<u64>,
    pub sentinel_fallback: Option<bool>,
    pub recovery_generation: Option<String>,
    pub recovery_manifest_id: Option<String>,
    pub error: Option<String>,
}

/// The view of a [`PublishRequest`].
pub struct RequestView {
    pub state: Seq<char>,
    pub epoch: Seq<char>,
    pub backend_instance_uid: Option<Seq<char>>,
    pub boot_nonce: Seq<char>,
    pub sentinel_window_id: Option<u64>,
    pub sentinel_tab_id: Option<u64>,
    pub sentinel_pane_id: Option<u64>,
    pub sentinel_fallback: Option<bool>,
    pub recovery_generation: Option<Seq<char>>,
    pub recovery_manifest_id: Option<Seq<char>>,
    pub error: Option<Seq<char>>,
}

impl View for PublishRequest {
    type V = RequestView;

    open spec fn view(&self) -> RequestView {
        RequestView {
            state: self.state@,
            epoch: self.epoch@,
            backend_instance_uid: optional_string(self.backend_instance_uid),
            boot_nonce: self.boot_nonce@,
            sentinel_window_id: self.sentinel_window_id,
            sentinel_tab_id: self.sentinel_tab_id,
            sentinel_pane_id: self.sentinel_pane_id,
            sentinel_fallback: self.sentinel_fallback,
            recovery_generation: optional_string(self.recovery_generation),
            recovery_manifest_id: optional_string(self.recovery_manifest_id),
            error: optional_string(self.error),
        }
    }
}

/// A publication as a script hands it in: the keys of its table, and each field
/// as it could be read.
#[derive(Debug)]
pub struct PublishTable {
    pub keys: Vec<TableKey>,
    pub state: Result<String, String>,
    pub epoch: Result<String, String>,
    pub backend_instance_uid: Result<Option<String>, String>,
    pub boot_nonce: Result<String, String>,
    pub sentinel_window_id: Result<Option<u64>, String>,
    pub sentinel_tab_id: Result<Option<u64>, String>,
    pub sentinel_pane_id: Result<Option<u64>, String>,
    pub sentinel_fallback: Result<Option<bool>, String>,
    pub recovery_generation: Result<Option<String>, String>,
    pub recovery_manifest_id: Result<Option<String>, String>,
    pub error: Result<Option<String>, String>,
}

/// The fields of a publication.
pub open spec fn publish_fields() -> Seq<Seq<char>> {
    seq![
        "state"@,
        "epoch"@,
        "backend_instance_uid"@,
        "boot_nonce"@,
        "sentinel_window_id"@,
        "sentinel_tab_id"@,
        "sentinel_pane_id"@,
        "sentinel_fallback"@,
        "recovery_generation"@,
        "recovery_manifest_id"@,
        "error"@,
    ]
}

fn publish_field_names() -> (names: Vec<&'static str>)
    ensures
        names_of(names@) == publish_fields(),
{
    let mut names: Vec<&'static str> = Vec::new();
    names.push("state");
    names.push("epoch");
    names.push("backend_instance_uid");
    names.push("boot_nonce");
    names.push("sentinel_window_id");
    names.push("sentinel_tab_id");
    names.push("sentinel_pane_id");
    names.push("sentinel_fallback");
    names.push("recovery_generation");
    names.push("recovery_manifest_id");
    names.push("error");
    assert(names_of(names@) =~= publish_fields());
    names
}

/// The refusal of an unreadable or unknown key of a publication.
pub open spec fn publish_keys_refusal(table: PublishTable) -> Option<Seq<char>> {
    keys_refusal(
        table.keys@.map_values(|k: TableKey| k@),
        publish_fields(),
        "dmux_descriptor_invalid_request: input key is "@,
        " rather than a string"@,
        "dmux_descriptor_invalid_request: unknown publisher field "@,
        ""@,
    )
}

/// The first error of a publication's fields, in the order in which they are
/// read.
pub open spec fn publish_field_error(table: PublishTable) -> Option<Seq<char>> {
    let rest = field_error(table.error);
    let rest = either_error(field_error(table.recovery_manifest_id), rest);
    let rest = either_error(field_error(table.recovery_generation), rest);
    let rest = either_error(field_error(table.sentinel_fallback), rest);
    let rest = either_error(field_error(table.sentinel_pane_id), rest);
    let rest = either_error(field_error(table.sentinel_tab_id), rest);
    let rest = either_error(field_error(table.sentinel_window_id), rest);
    let rest = either_error(field_error(table.boot_nonce), rest);
    let rest = either_error(field_error(table.backend_instance_uid), rest);
    let rest = either_error(field_error(table.epoch), rest);
    either_error(field_error(table.state), rest)
}

/// The states in which a service publishes itself.
pub open spec fn is_state(state: Seq<char>) -> bool {
    state == "starting"@ || state == "recovering"@ || state == "ready"@ || state == "failed"@
}

/// How many of the four sentinel fields are given.
pub open spec fn sentinel_fields(request: RequestView) -> int {
    (if request.sentinel_window_id is Some {
        1int
    } else {
        0
    }) + (if request.sentinel_tab_id is Some {
        1int
    } else {
        0
    }) + (if request.sentinel_pane_id is Some {
        1int
    } else {
        0
    }) + (if request.sentinel_fallback is Some {
        1int
    } else {
        0
    })
}

/// Whether a number is too large to be exact in JSON and in scripts.
pub open spec fn is_inexact(number: Option<u64>) -> bool {
    number is Some && number->0 > MAX_JSON_INTEGER
}

/// The refusal of an invalid request.
pub open spec fn invalid_request(detail: Seq<char>) -> Option<Failure> {
    Some(failure("invalid_request"@, detail))
}

/// The refusal of an optional UUID.
pub open spec fn optional_uuid_failure(name: Seq<char>, value: Option<Seq<char>>) -> Option<
    Failure,
> {
    match value {
        Some(value) => uuid_failure(name, value),
        None => None,
    }
}

/// The refusal of an optional bounded text.
pub open spec fn optional_bounded_failure(
    name: Seq<char>,
    value: Option<Seq<char>>,
    maximum: nat,
) -> Option<Failure> {
    match value {
        Some(value) => bounded_text_failure(name, value, maximum),
        None => None,
    }
}

/// The first of two refusals.
pub open spec fn either_failure(left: Option<Failure>, right: Option<Failure>) -> Option<Failure> {
    if left is Some {
        left
    } else {
        right
    }
}

/// The refusal of a request whose identity is incomplete.
pub open spec fn identity_failure(request: RequestView) -> Option<Failure> {
    let rest = if (request.state == "recovering"@ || request.state == "ready"@)
        && request.backend_instance_uid is None {
        invalid_request("recovering and ready publication require backend_instance_uid"@)
    } else {
        None
    };
    let rest = either_failure(
        optional_uuid_failure("backend_instance_uid"@, request.backend_instance_uid),
        rest,
    );
    let rest = either_failure(uuid_failure("boot_nonce"@, request.boot_nonce), rest);
    let rest = either_failure(uuid_failure("epoch"@, request.epoch), rest);
    if !is_state(request.state) {
        invalid_request("state must be starting, recovering, ready, or failed"@)
    } else {
        rest
    }
}

/// The refusal of a request whose sentinel is incomplete or inexact.
pub open spec fn sentinel_failure(request: RequestView) -> Option<Failure> {
    if sentinel_fields(request) != 0 && sentinel_fields(request) != 4 {
        invalid_request("sentinel fields must be supplied together"@)
    } else if is_inexact(request.sentinel_window_id) {
        invalid_request(
            "sentinel_window_id"@ + " exceeds the exact JSON/Lua integer range"@,
        )
    } else if is_inexact(request.sentinel_tab_id) {
        invalid_request("sentinel_tab_id"@ + " exceeds the exact JSON/Lua integer range"@)
    } else if is_inexact(request.sentinel_pane_id) {
        invalid_request(
            "sentinel_pane_id"@ + " exceeds the exact JSON/Lua integer range"@,
        )
    } else if request.state == "ready"@ && (sentinel_fields(request) != 4
        || request.sentinel_fallback != Some(false)) {
        invalid_request("ready publication requires a complete non-fallback sentinel"@)
    } else {
        None
    }
}

/// The refusal of a request whose recovery fields or error text are unfit.
pub open spec fn outcome_failure(request: RequestView) -> Option<Failure> {
    let rest = if request.state == "failed"@ && request.error is None {
        invalid_request("failed publication requires error"@)
    } else if request.state != "failed"@ && request.error is Some {
        invalid_request("error is accepted only for failed publication"@)
    } else {
        None
    };
    let rest = either_failure(optional_bounded_failure("error"@, request.error, 1024), rest);
    let rest = either_failure(
        optional_bounded_failure("recovery_manifest_id"@, request.recovery_manifest_id, 256),
        rest,
    );
    either_failure(
        optional_uuid_failure("recovery_generation"@, request.recovery_generation),
        rest,
    )
}

/// The first reason why a request is refused.
pub open spec fn request_failure(request: RequestView) -> Option<Failure> {
    either_failure(
        identity_failure(request),
        either_failure(sentinel_failure(request), outcome_failure(request)),
    )
}

fn invalid(detail: &str) -> (error: DescriptorError)
    ensures
        Some(error@) == invalid_request(detail@),
{
    DescriptorError::new("invalid_request", detail.to_owned())
}

fn exact(name: &str, number: Option<u64>) -> (result: Result<(), DescriptorError>)
    ensures
        match result {
            Ok(()) => !is_inexact(number),
            Err(error) => is_inexact(number) && Some(error@) == invalid_request(
                name@ + " exceeds the exact JSON/Lua integer range"@,
            ),
        },
{
    if let Some(number) = number {
        if number > MAX_JSON_INTEGER {
            return Err(
                DescriptorError::new(
                    "invalid_request",
                    name.to_owned().concat(" exceeds the exact JSON/Lua integer range"),
                ),
            );
        }
    }
    Ok(())
}

fn is_false(flag: Option<bool>) -> (yes: bool)
    ensures
        yes == (flag == Some(false)),
{
    match flag {
        Some(flag) => !flag,
        None => false,
    }
}

fn optional_uuid(name: &str, value: &Option<String>) -> (result: Result<(), DescriptorError>)
    ensures
        refuses(result, optional_uuid_failure(name@, optional_string(*value))),
{
    match value {
        Some(value) => validate_uuid(name, value.as_str()),
        None => Ok(()),
    }
}

fn optional_bounded(name: &str, value: &Option<String>, maximum: usize) -> (result: Result<
    (),
    DescriptorError,
>)
    ensures
        refuses(result, optional_bounded_failure(name@, optional_string(*value), maximum as nat)),
{
    match value {
        Some(value) => validate_bounded_text(name, value.as_str(), maximum),
        None => Ok(()),
    }
}

impl PublishRequest {
    /// Reads a publication that a script hands in.
    pub fn from_table(table: PublishTable) -> (result: Result<Self, String>)
        ensures
            match result {
                Err(reason) => if publish_keys_refusal(table) is Some {
                    publish_keys_refusal(table) == Some(reason@)
                } else {
                    publish_field_error(table) == Some(reason@)
                },
                Ok(request) => {
                    &&& publish_keys_refusal(table) is None
                    &&& publish_field_error(table) is None
                    &&& table.state == Ok::<String, String>(request.state)
                    &&& table.epoch == Ok::<String, String>(request.epoch)
                    &&& table.backend_instance_uid == Ok::<Option<String>, String>(
                        request.backend_instance_uid,
                    )
                    &&& table.boot_nonce == Ok::<String, String>(request.boot_nonce)
                    &&& table.sentinel_window_id == Ok::<Option<u64>, String>(
                        request.sentinel_window_id,
                    )
                    &&& table.sentinel_tab_id == Ok::<Option<u64>, String>(request.sentinel_tab_id)
                    &&& table.sentinel_pane_id == Ok::<Option<u64>, String>(
                        request.sentinel_pane_id,
                    )
                    &&& table.sentinel_fallback == Ok::<Option<bool>, String>(
                        request.sentinel_fallback,
                    )
                    &&& table.recovery_generation == Ok::<Option<String>, String>(
                        request.recovery_generation,
                    )
                    &&& table.recovery_manifest_id == Ok::<Option<String>, String>(
                        request.recovery_manifest_id,
                    )
                    &&& table.error == Ok::<Option<String>, String>(request.error)
                },
            },
    {
        let allowed = publish_field_names();
        let words = SchemaWords {
            before_type: "dmux_descriptor_invalid_request: input key is ",
            behind_type: " rather than a string",
            before_field: "dmux_descriptor_invalid_request: unknown publisher field ",
            behind_field: "",
        };
        check_keys(&table.keys, &allowed, words)?;
        Ok(
            PublishRequest {
                state: table.state?,
                epoch: table.epoch?,
                backend_instance_uid: table.backend_instance_uid?,
                boot_nonce: table.boot_nonce?,
                sentinel_window_id: table.sentinel_window_id?,
                sentinel_tab_id: table.sentinel_tab_id?,
                sentinel_pane_id: table.sentinel_pane_id?,
                sentinel_fallback: table.sentinel_fallback?,
                recovery_generation: table.recovery_generation?,
                recovery_manifest_id: table.recovery_manifest_id?,
                error: table.error?,
            },
        )
    }

    fn check_identity(&self) -> (result: Result<(), DescriptorError>)
        ensures
            refuses(result, identity_failure(self@)),
    {
        let state = self.state.as_str();
        let ready = same_text(state, "ready");
        let recovering = same_text(state, "recovering");
        if !same_text(state, "starting") && !recovering && !ready && !same_text(state, "failed") {
            return Err(invalid("state must be starting, recovering, ready, or failed"));
        }
        validate_uuid("epoch", self.epoch.as_str())?;
        validate_uuid("boot_nonce", self.boot_nonce.as_str())?;
        optional_uuid("backend_instance_uid", &self.backend_instance_uid)?;
        if (recovering || ready) && self.backend_instance_uid.is_none() {
            return Err(invalid("recovering and ready publication require backend_instance_uid"));
        }
        Ok(())
    }

    fn check_sentinel(&self) -> (result: Result<(), DescriptorError>)
        ensures
            refuses(result, sentinel_failure(self@)),
    {
        let window = self.sentinel_window_id.is_some();
        let tab = self.sentinel_tab_id.is_some();
        let pane = self.sentinel_pane_id.is_some();
        let fallback = self.sentinel_fallback.is_some();
        let all = window && tab && pane && fallback;
        let any = window || tab || pane || fallback;
        if any && !all {
            return Err(invalid("sentinel fields must be supplied together"));
        }
        exact("sentinel_window_id", self.sentinel_window_id)?;
        exact("sentinel_tab_id", self.sentinel_tab_id)?;
        exact("sentinel_pane_id", self.sentinel_pane_id)?;
        if same_text(self.state.as_str(), "ready") && (!all || !is_false(self.sentinel_fallback)) {
            return Err(invalid("ready publication requires a complete non-fallback sentinel"));
        }
        Ok(())
    }

    fn check_outcome(&self) -> (result: Result<(), DescriptorError>)
        ensures
            refuses(result, outcome_failure(self@)),
    {
        optional_uuid("recovery_generation", &self.recovery_generation)?;
        optional_bounded("recovery_manifest_id", &self.recovery_manifest_id, 256)?;
        optional_bounded("error", &self.error, 1024)?;
        let failed = same_text(self.state.as_str(), "failed");
        if failed && self.error.is_none() {
            return Err(invalid("failed publication requires error"));
        }
        if !failed && self.error.is_some() {
            return Err(invalid("error is accepted only for failed publication"));
        }
        Ok(())
    }

    /// Checks a request.
    pub fn validate(&self) -> (result: Result<(), DescriptorError>)
        ensures
            refuses(result, request_failure(self@)),
    {
        self.check_identity()?;
        self.check_sentinel()?;
        self.check_outcome()
    }
}

/// A path as the text of a descriptor, if it is one.
pub open spec fn path_text(path: Seq<u8>) -> Result<Seq<char>, Failure> {
    if !valid_utf8(path) {
        Err(failure("invalid_path"@, "fixed socket path is not UTF-8"@))
    } else if holds_nul(path) {
        Err(failure("invalid_path"@, "fixed socket path contains NUL"@))
    } else {
        Ok(decode_utf8(path))
    }
}

/// Writes a path as the text of a descriptor.
pub fn path_to_descriptor_string(path: &[u8]) -> (result: Result<String, DescriptorError>)
    ensures
        match result {
            Ok(text) => path_text(path@) == Ok::<Seq<char>, Failure>(text@),
            Err(error) => path_text(path@) == Err::<Seq<char>, Failure>(error@),
        },
{
    match read_utf8(path) {
        Err(_) => Err(
            DescriptorError::new("invalid_path", "fixed socket path is not UTF-8".to_owned()),
        ),
        Ok(text) => {
            if contains_nul(path) {
                Err(
                    DescriptorError::new(
                        "invalid_path",
                        "fixed socket path contains NUL".to_owned(),
                    ),
                )
            } else {
                Ok(text)
            }
        },
    }
}

/// Whether a text has twenty bytes, all of them ASCII.
pub open spec fn is_timestamp(text: Seq<char>) -> bool {
    encode_utf8(text).len() == 20 && forall|i: int|
        0 <= i < encode_utf8(text).len() ==> (#[trigger] encode_utf8(text)[i]) < 128
}

fn timestamp(text: &str) -> (yes: bool)
    ensures
        yes == is_timestamp(text@),
{
    let bytes = text.as_bytes();
    if bytes.len() != 20 {
        return false;
    }
    let mut i: usize = 0;
    while i < bytes.len()
        invariant
            i <= bytes@.len(),
            bytes@ == encode_utf8(text@),
            forall|k: int| 0 <= k < i ==> bytes@[k] < 128,
        decreases bytes@.len() - i,
    {
        if bytes[i] >= 128 {
            assert(encode_utf8(text@)[i as int] >= 128);
            return false;
        }
        i += 1;
    }
    true
}

/// The refusal of an invalid descriptor.
pub open spec fn invalid_descriptor(detail: Seq<char>) -> Option<Failure> {
    Some(failure("invalid_descriptor"@, detail))
}

/// Whether a number is positive and exact in JSON and in scripts.
pub open spec fn is_exact_positive(number: Option<u64>) -> bool {
    number is Some && 1 <= number->0 <= MAX_JSON_INTEGER
}

/// The refusal of a descriptor whose service is not the one that we expect.
pub open spec fn service_failure(descriptor: DescriptorView, socket: Seq<u8>) -> Option<Failure> {
    let rest = match path_text(socket) {
        Err(refusal) => Some(refusal),
        Ok(expected) => if descriptor.socket != expected {
            Some(
                failure(
                    "socket_identity"@,
                    "descriptor socket is not the internally resolved fixed socket path"@,
                ),
            )
        } else if descriptor.pid == 0 || descriptor.pid > MAX_PID {
            invalid_descriptor("descriptor pid is outside the native process-id range"@)
        } else if !is_exact_positive(descriptor.socket_dev) {
            invalid_descriptor(
                "socket_dev"@ + " is not a positive exact JSON/Lua integer"@,
            )
        } else if !is_exact_positive(descriptor.socket_ino) {
            invalid_descriptor(
                "socket_ino"@ + " is not a positive exact JSON/Lua integer"@,
            )
        } else {
            None
        },
    };
    let rest = either_failure(
        match descriptor.backend_instance_uid {
            None => invalid_descriptor("ready descriptor lacks backend_instance_uid"@),
            Some(uid) => uuid_failure("backend_instance_uid"@, uid),
        },
        rest,
    );
    let rest = either_failure(uuid_failure("boot_nonce"@, descriptor.boot_nonce), rest);
    let rest = either_failure(uuid_failure("epoch"@, descriptor.epoch), rest);
    if descriptor.descriptor_version != DESCRIPTOR_VERSION || descriptor.state != "ready"@ {
        Some(failure("not_ready"@, "descriptor must be strict version 1 in ready state"@))
    } else {
        rest
    }
}

/// The refusal of a descriptor whose witnesses are incomplete.
pub open spec fn witness_failure(descriptor: DescriptorView) -> Option<Failure> {
    let rest = either_failure(
        optional_uuid_failure("recovery_generation"@, descriptor.recovery_generation),
        optional_bounded_failure("recovery_manifest_id"@, descriptor.recovery_manifest_id, 256),
    );
    if descriptor.written_by != "mux-startup"@ || !is_timestamp(descriptor.written_at) {
        invalid_descriptor("descriptor writer witness is invalid"@)
    } else if descriptor.sentinel_window_id is None || descriptor.sentinel_tab_id is None
        || descriptor.sentinel_pane_id is None || descriptor.sentinel_fallback != Some(false)
        || descriptor.error is Some {
        invalid_descriptor("ready descriptor lacks the non-fallback sentinel witness"@)
    } else if is_inexact(descriptor.sentinel_window_id) || is_inexact(descriptor.sentinel_tab_id)
        || is_inexact(descriptor.sentinel_pane_id) {
        invalid_descriptor("sentinel id exceeds the exact JSON/Lua integer range"@)
    } else {
        rest
    }
}

/// The first reason why a descriptor is not that of a ready service with this
/// socket.
pub open spec fn ready_failure(descriptor: DescriptorView, socket: Seq<u8>) -> Option<Failure> {
    either_failure(service_failure(descriptor, socket), witness_failure(descriptor))
}

fn defective(detail: &str) -> (error: DescriptorError)
    ensures
        Some(error@) == invalid_descriptor(detail@),
{
    DescriptorError::new("invalid_descriptor", detail.to_owned())
}

fn exact_positive(number: Option<u64>) -> (yes: bool)
    ensures
        yes == is_exact_positive(number),
{
    match number {
        Some(number) => 1 <= number && number <= MAX_JSON_INTEGER,
        None => false,
    }
}

fn inexact(number: Option<u64>) -> (yes: bool)
    ensures
        yes == is_inexact(number),
{
    match number {
        Some(number) => number > MAX_JSON_INTEGER,
        None => false,
    }
}

fn check_service(descriptor: &ServiceDescriptor, socket: &[u8]) -> (result: Result<
    (),
    DescriptorError,
>)
    ensures
        refuses(result, service_failure(descriptor@, socket@)),
{
    if descriptor.descriptor_version != DESCRIPTOR_VERSION || !same_text(
        descriptor.state.as_str(),
        "ready",
    ) {
        return Err(
            DescriptorError::new(
                "not_ready",
                "descriptor must be strict version 1 in ready state".to_owned(),
            ),
        );
    }
    validate_uuid("epoch", descriptor.epoch.as_str())?;
    validate_uuid("boot_nonce", descriptor.boot_nonce.as_str())?;
    match &descriptor.backend_instance_uid {
        None => {
            return Err(defective("ready descriptor lacks backend_instance_uid"));
        },
        Some(uid) => {
            validate_uuid("backend_instance_uid", uid.as_str())?;
        },
    }
    let expected = path_to_descriptor_string(socket)?;
    if !same_text(descriptor.socket.as_str(), expected.as_str()) {
        return Err(
            DescriptorError::new(
                "socket_identity",
                "descriptor socket is not the internally resolved fixed socket path".to_owned(),
            ),
        );
    }
    if descriptor.pid == 0 || descriptor.pid > MAX_PID {
        return Err(defective("descriptor pid is outside the native process-id range"));
    }
    if !exact_positive(descriptor.socket_dev) {
        return Err(
            DescriptorError::new(
                "invalid_descriptor",
                "socket_dev".to_owned().concat(" is not a positive exact JSON/Lua integer"),
            ),
        );
    }
    if !exact_positive(descriptor.socket_ino) {
        return Err(
            DescriptorError::new(
                "invalid_descriptor",
                "socket_ino".to_owned().concat(" is not a positive exact JSON/Lua integer"),
            ),
        );
    }
    Ok(())
}

fn check_witnesses(descriptor: &ServiceDescriptor) -> (result: Result<(), DescriptorError>)
    ensures
        refuses(result, witness_failure(descriptor@)),
{
    if !same_text(descriptor.written_by.as_str(), "mux-startup") || !timestamp(
        descriptor.written_at.as_str(),
    ) {
        return Err(defective("descriptor writer witness is invalid"));
    }
    if descriptor.sentinel_window_id.is_none() || descriptor.sentinel_tab_id.is_none()
        || descriptor.sentinel_pane_id.is_none() || !is_false(descriptor.sentinel_fallback)
        || descriptor.error.is_some() {
        return Err(defective("ready descriptor lacks the non-fallback sentinel witness"));
    }
    if inexact(descriptor.sentinel_window_id) || inexact(descriptor.sentinel_tab_id) || inexact(
        descriptor.sentinel_pane_id,
    ) {
        return Err(defective("sentinel id exceeds the exact JSON/Lua integer range"));
    }
    optional_uuid("recovery_generation", &descriptor.recovery_generation)?;
    optional_bounded("recovery_manifest_id", &descriptor.recovery_manifest_id, 256)
}

/// Checks that a descriptor is that of a ready service with this socket.
pub fn validate_ready_descriptor(descriptor: &ServiceDescriptor, socket: &[u8]) -> (result: Result<
    (),
    DescriptorError,
>)
    ensures
        refuses(result, ready_failure(descriptor@, socket@)),
{
    check_service(descriptor, socket)?;
    check_witnesses(descriptor)
}

/// A request is published exactly where it is complete and consistent: a known
/// state, canonical identifiers, a backend instance where one serves or recovers,
/// a sentinel in whole or not at all, exact numbers, a real sentinel where the
/// service is ready, and an error exactly where it has failed.
pub proof fn law_complete_request_is_published(request: RequestView)
    ensures
        request_failure(request) is None <==> {
            let serving = request.state == "recovering"@ || request.state == "ready"@;
            let whole = request.sentinel_window_id is Some && request.sentinel_tab_id is Some
                && request.sentinel_pane_id is Some && request.sentinel_fallback is Some;
            let none = request.sentinel_window_id is None && request.sentinel_tab_id is None
                && request.sentinel_pane_id is None && request.sentinel_fallback is None;
            &&& serving || request.state == "starting"@ || request.state == "failed"@
            &&& is_canonical_uuid(request.epoch)
            &&& is_canonical_uuid(request.boot_nonce)
            &&& request.backend_instance_uid matches Some(uid) ==> is_canonical_uuid(uid)
            &&& serving ==> request.backend_instance_uid is Some
            &&& whole || none
            &&& request.sentinel_window_id matches Some(id) ==> id <= 9_007_199_254_740_991
            &&& request.sentinel_tab_id matches Some(id) ==> id <= 9_007_199_254_740_991
            &&& request.sentinel_pane_id matches Some(id) ==> id <= 9_007_199_254_740_991
            &&& request.state == "ready"@ ==> whole && request.sentinel_fallback == Some(false)
            &&& request.recovery_generation matches Some(uid) ==> is_canonical_uuid(uid)
            &&& request.recovery_manifest_id matches Some(id) ==> is_bounded_text(id, 256)
            &&& request.error matches Some(error) ==> is_bounded_text(error, 1024)
            &&& request.error is Some <==> request.state == "failed"@
        },
{
}

/// A descriptor counts as ready exactly where it is complete: the first version in
/// the ready state, canonical identifiers, the fixed socket path, exact positive
/// numbers, the writer's witness, a real sentinel and no error.
pub proof fn law_complete_descriptor_is_ready(descriptor: DescriptorView, socket: Seq<u8>)
    ensures
        ready_failure(descriptor, socket) is None <==> {
            &&& descriptor.descriptor_version == 1
            &&& descriptor.state == "ready"@
            &&& is_canonical_uuid(descriptor.epoch)
            &&& is_canonical_uuid(descriptor.boot_nonce)
            &&& descriptor.backend_instance_uid is Some && is_canonical_uuid(
                descriptor.backend_instance_uid->0,
            )
            &&& valid_utf8(socket) && !holds_nul(socket) && descriptor.socket == decode_utf8(
                socket,
            )
            &&& 1 <= descriptor.pid <= 2_147_483_647
            &&& descriptor.socket_dev is Some && 1 <= descriptor.socket_dev->0
                <= 9_007_199_254_740_991
            &&& descriptor.socket_ino is Some && 1 <= descriptor.socket_ino->0
                <= 9_007_199_254_740_991
            &&& descriptor.written_by == "mux-startup"@
            &&& is_timestamp(descriptor.written_at)
            &&& descriptor.sentinel_window_id is Some && descriptor.sentinel_window_id->0
                <= 9_007_199_254_740_991
            &&& descriptor.sentinel_tab_id is Some && descriptor.sentinel_tab_id->0
                <= 9_007_199_254_740_991
            &&& descriptor.sentinel_pane_id is Some && descriptor.sentinel_pane_id->0
                <= 9_007_199_254_740_991
            &&& descriptor.sentinel_fallback == Some(false)
            &&& descriptor.error is None
            &&& descriptor.recovery_generation matches Some(uid) ==> is_canonical_uuid(uid)
            &&& descriptor.recovery_manifest_id matches Some(id) ==> is_bounded_text(id, 256)
        },
{
}

/// A refused request says why: an identifier or a text that is malformed makes it an
/// invalid descriptor, and what does not fit together an invalid request.
pub proof fn law_refused_request_says_why(request: RequestView)
    ensures
        request_failure(request) matches Some(refusal) ==> refusal.code == "invalid_request"@
            || refusal.code == "invalid_descriptor"@,
        !is_state(request.state) ==> request_failure(request) is Some && request_failure(
            request,
        )->0.code == "invalid_request"@,
        is_state(request.state) && !is_canonical_uuid(request.epoch) ==> request_failure(request)
            is Some && request_failure(request)->0.code == "invalid_descriptor"@,
{
}

/// A descriptor that is not ready says why: it is another version or state, or names
/// another socket, or is malformed.
pub proof fn law_unready_descriptor_says_why(descriptor: DescriptorView, socket: Seq<u8>)
    ensures
        descriptor.descriptor_version != 1 || descriptor.state != "ready"@ ==> ready_failure(
            descriptor,
            socket,
        ) == Some(
            failure("not_ready"@, "descriptor must be strict version 1 in ready state"@),
        ),
        ready_failure(descriptor, socket) matches Some(refusal) ==> refusal.code == "not_ready"@
            || refusal.code == "invalid_descriptor"@ || refusal.code == "socket_identity"@
            || refusal.code == "invalid_path"@,
        ready_failure(descriptor, socket) matches Some(refusal) ==> refusal.code
            == "socket_identity"@ ==> descriptor.socket != decode_utf8(socket),
{
    reveal_strlit("not_ready");
    reveal_strlit("invalid_descriptor");
    reveal_strlit("socket_identity");
    reveal_strlit("invalid_path");
    assert("socket_identity"@.len() == 15 && "not_ready"@.len() == 9 && "invalid_descriptor"@.len()
        == 18 && "invalid_path"@.len() == 12);
}

} // verus!
