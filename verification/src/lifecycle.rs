//! Proof that a safe lifecycle completion was requested and acknowledged.
//!
//! A completion is backed by two documents: the consumed request, signed under
//! the bridge key, and the primary acknowledgement of exactly that request.

use crate::canonical::{canonical_unsigned_request, unsigned_canonical};
use crate::digest::{
    constant_time_equal, hex_lower, hex_text, hmac, hmac_sha256, sha256, sha256_digest,
};
use crate::failure::{failure, BridgeFsError, Failure};
use crate::identifier::{
    all_lower_hex, is_canonical_uuid, is_lower_hex, law_canonical_uuid_is_a_shape, uid_failure,
    validate_uid, MAX_JSON_INTEGER,
};
use crate::json::{
    as_object, as_text, as_unsigned, contains_json_null, entries_contents, entry, find_entry,
    holds_null, json_document, object_of, optional_contents, parse_document, text_of, unsigned_of,
    Json, JsonView,
};
use crate::text_set::TextSet;
use crate::text::{byte_len, optional_text, same_text};
use vstd::prelude::*;
use vstd::utf8::*;

verus! {

/// The refusal of a completion, with this detail.
pub open spec fn proof_invalid(detail: Seq<char>) -> Failure {
    failure("completion_proof_invalid"@, detail)
}

fn invalid(detail: &str) -> (error: BridgeFsError)
    ensures
        error@ == proof_invalid(detail@),
{
    BridgeFsError::new("completion_proof_invalid", detail.to_owned())
}

/// The names of a request's fields.
pub open spec fn is_request_key(name: Seq<char>) -> bool {
    ||| name == "action"@
    ||| name == "expiry"@
    ||| name == "hmac_sha256"@
    ||| name == "issued_at"@
    ||| name == "nonce"@
    ||| name == "origin"@
    ||| name == "protocol_version"@
    ||| name == "replay_key"@
    ||| name == "target"@
    ||| name == "uid"@
}

/// The names of the fields of a finish target.
pub open spec fn is_finish_key(name: Seq<char>) -> bool {
    ||| name == "phase"@
    ||| name == "platform_action"@
    ||| name == "proof_uid"@
}

/// Whether an object has exactly ten fields, all of them request fields.
pub open spec fn has_request_schema(entries: Seq<(Seq<char>, JsonView)>) -> bool {
    entries.len() == 10 && forall|i: int|
        0 <= i < entries.len() ==> is_request_key((#[trigger] entries[i]).0)
}

/// Whether an object has exactly three fields, all of them finish fields.
pub open spec fn has_finish_schema(entries: Seq<(Seq<char>, JsonView)>) -> bool {
    entries.len() == 3 && forall|i: int|
        0 <= i < entries.len() ==> is_finish_key((#[trigger] entries[i]).0)
}

fn request_schema(entries: &Vec<(String, Json)>) -> (exact: bool)
    ensures
        exact == has_request_schema(entries_contents(entries@)),
{
    if entries.len() != 10 {
        return false;
    }
    let ghost views = entries_contents(entries@);
    let mut i: usize = 0;
    while i < entries.len()
        invariant
            i <= entries@.len(),
            views == entries_contents(entries@),
            forall|k: int| 0 <= k < i ==> is_request_key((#[trigger] views[k]).0),
        decreases entries@.len() - i,
    {
        let name = entries[i].0.as_str();
        assert(views[i as int].0 == name@);
        if !(same_text(name, "action") || same_text(name, "expiry") || same_text(
            name,
            "hmac_sha256",
        ) || same_text(name, "issued_at") || same_text(name, "nonce") || same_text(name, "origin")
            || same_text(name, "protocol_version") || same_text(name, "replay_key") || same_text(
            name,
            "target",
        ) || same_text(name, "uid")) {
            return false;
        }
        i += 1;
    }
    true
}

fn finish_schema(entries: &Vec<(String, Json)>) -> (exact: bool)
    ensures
        exact == has_finish_schema(entries_contents(entries@)),
{
    if entries.len() != 3 {
        return false;
    }
    let ghost views = entries_contents(entries@);
    let mut i: usize = 0;
    while i < entries.len()
        invariant
            i <= entries@.len(),
            views == entries_contents(entries@),
            forall|k: int| 0 <= k < i ==> is_finish_key((#[trigger] views[k]).0),
        decreases entries@.len() - i,
    {
        let name = entries[i].0.as_str();
        assert(views[i as int].0 == name@);
        if !(same_text(name, "phase") || same_text(name, "platform_action") || same_text(
            name,
            "proof_uid",
        )) {
            return false;
        }
        i += 1;
    }
    true
}

/// The refusal of an optional value that is no exact JSON integer.
pub open spec fn exact_failure(value: Option<JsonView>, label: Seq<char>) -> Option<Failure> {
    match unsigned_of(value) {
        None => Some(proof_invalid(label + " is not an unsigned integer"@)),
        Some(value) => if value > MAX_JSON_INTEGER {
            Some(proof_invalid(label + " exceeds the exact JSON integer range"@))
        } else {
            None
        },
    }
}

/// Reads an exact JSON integer.
pub fn exact_json_u64(value: Option<&Json>, label: &str) -> (result: Result<u64, BridgeFsError>)
    ensures
        match result {
            Ok(number) => exact_failure(optional_contents(value), label@) is None && unsigned_of(
                optional_contents(value),
            ) == Some(number),
            Err(error) => exact_failure(optional_contents(value), label@) == Some(error@),
        },
{
    match as_unsigned(value) {
        None => Err(
            BridgeFsError::new(
                "completion_proof_invalid",
                label.to_owned().concat(" is not an unsigned integer"),
            ),
        ),
        Some(number) => {
            if number > MAX_JSON_INTEGER {
                Err(
                    BridgeFsError::new(
                        "completion_proof_invalid",
                        label.to_owned().concat(" exceeds the exact JSON integer range"),
                    ),
                )
            } else {
                Ok(number)
            }
        },
    }
}

/// The process that a completion has to come from.
#[derive(Clone, Copy)]
pub struct Claimant<'a> {
    pub uid: &'a str,
    pub instance: &'a str,
    pub pid: u32,
    pub process_start_token: &'a str,
    pub platform_action: &'a str,
}

/// What a well-formed finish request carries.
pub struct FinishRequest {
    pub nonce: String,
    pub issued_at: u64,
    pub expiry: u64,
    pub signature: String,
    pub canonical: String,
}

/// The view of a [`FinishRequest`].
pub struct FinishView {
    pub nonce: Seq<char>,
    pub issued_at: u64,
    pub expiry: u64,
    pub signature: Seq<char>,
    pub canonical: Seq<char>,
}

impl View for FinishRequest {
    type V = FinishView;

    open spec fn view(&self) -> FinishView {
        FinishView {
            nonce: self.nonce@,
            issued_at: self.issued_at,
            expiry: self.expiry,
            signature: self.signature@,
            canonical: self.canonical@,
        }
    }
}

/// Whether the origin names the claimant: one of the two resident kinds, and
/// exactly this process incarnation.
pub open spec fn origin_names(
    origin: Seq<(Seq<char>, JsonView)>,
    instance: Seq<char>,
    pid: u32,
    process_start_token: Seq<char>,
) -> bool {
    let kind = text_of(entry(origin, "kind"@));
    &&& kind == Some("in_gui"@) || kind == Some("resident_gui"@)
    &&& text_of(entry(origin, "gui_instance"@)) == Some(instance)
    &&& unsigned_of(entry(origin, "pid"@)) == Some(pid as u64)
    &&& text_of(entry(origin, "process_start_token"@)) == Some(process_start_token)
}

/// What stands between a request's fields and a finish request, up to the
/// target: the first refusal owed.
pub open spec fn request_head_failure(
    object: Seq<(Seq<char>, JsonView)>,
    uid: Seq<char>,
    instance: Seq<char>,
    pid: u32,
    process_start_token: Seq<char>,
) -> Option<Failure> {
    let nonce = text_of(entry(object, "nonce"@));
    let issued_at = entry(object, "issued_at"@);
    let expiry = entry(object, "expiry"@);
    let origin = object_of(entry(object, "origin"@));
    if !has_request_schema(object) {
        Some(
            proof_invalid("consumed request does not have the exact bridge-v1 top-level schema"@),
        )
    } else if unsigned_of(entry(object, "protocol_version"@)) != Some(1u64) || text_of(
        entry(object, "uid"@),
    ) != Some(uid) || text_of(entry(object, "action"@)) != Some("safe_quit"@) {
        Some(proof_invalid("consumed request is not the exact safe_quit request UID"@))
    } else if nonce is None {
        Some(proof_invalid("request nonce is absent"@))
    } else if !(32 <= encode_utf8(nonce->0).len() <= 128) || !all_lower_hex(nonce->0) {
        Some(proof_invalid("request nonce is not canonical lowercase hexadecimal"@))
    } else if exact_failure(issued_at, "request issued_at"@) is Some {
        exact_failure(issued_at, "request issued_at"@)
    } else if exact_failure(expiry, "request expiry"@) is Some {
        exact_failure(expiry, "request expiry"@)
    } else if unsigned_of(expiry)->0 <= unsigned_of(issued_at)->0 || unsigned_of(expiry)->0
        - unsigned_of(issued_at)->0 > 10 {
        Some(proof_invalid("request TTL is outside bridge-v1 bounds"@))
    } else if origin is None {
        Some(proof_invalid("request origin is absent"@))
    } else if !origin_names(origin->0, instance, pid, process_start_token) {
        Some(
            proof_invalid(
                "request origin does not name this exact resident/in-GUI process incarnation"@,
            ),
        )
    } else {
        None
    }
}

/// The first refusal owed to a request's target and signature.
pub open spec fn request_tail_failure(
    object: Seq<(Seq<char>, JsonView)>,
    platform_action: Seq<char>,
) -> Option<Failure> {
    let target = object_of(entry(object, "target"@));
    let proof_uid = text_of(entry(target->0, "proof_uid"@));
    let signature = text_of(entry(object, "hmac_sha256"@));
    if target is None {
        Some(proof_invalid("request target is absent"@))
    } else if !has_finish_schema(target->0) || text_of(entry(target->0, "phase"@)) != Some(
        "finish"@,
    ) || text_of(entry(target->0, "platform_action"@)) != Some(platform_action) {
        Some(
            proof_invalid(
                "request is not an exact safe_quit finish target for this platform action"@,
            ),
        )
    } else if proof_uid is None {
        Some(proof_invalid("finish proof_uid is absent"@))
    } else if uid_failure(proof_uid->0) is Some {
        uid_failure(proof_uid->0)
    } else if signature is None {
        Some(proof_invalid("request HMAC is absent"@))
    } else if encode_utf8(signature->0).len() != 64 || !all_lower_hex(signature->0) {
        Some(proof_invalid("request HMAC is not 64 lowercase hexadecimal characters"@))
    } else if unsigned_canonical(object) is Err {
        Some(proof_invalid(unsigned_canonical(object)->Err_0))
    } else {
        None
    }
}

/// What a consumed request says as a finish request of this claimant, or the
/// first refusal owed to it.
pub open spec fn finish_request_of(
    request: JsonView,
    uid: Seq<char>,
    instance: Seq<char>,
    pid: u32,
    process_start_token: Seq<char>,
    platform_action: Seq<char>,
) -> Result<FinishView, Failure> {
    if holds_null(request) {
        Err(proof_invalid("consumed request contains a null field"@))
    } else {
        match request {
            JsonView::Object(object) => {
                let head = request_head_failure(object, uid, instance, pid, process_start_token);
                let tail = request_tail_failure(object, platform_action);
                if head is Some {
                    Err(head->0)
                } else if tail is Some {
                    Err(tail->0)
                } else {
                    Ok(
                        FinishView {
                            nonce: text_of(entry(object, "nonce"@))->0,
                            issued_at: unsigned_of(entry(object, "issued_at"@))->0,
                            expiry: unsigned_of(entry(object, "expiry"@))->0,
                            signature: text_of(entry(object, "hmac_sha256"@))->0,
                            canonical: unsigned_canonical(object)->Ok_0,
                        },
                    )
                }
            },
            _ => Err(proof_invalid("consumed request is not one JSON object"@)),
        }
    }
}

fn text_is(value: Option<&str>, expected: &str) -> (same: bool)
    ensures
        same == (optional_text(value) == Some(expected@)),
{
    match value {
        Some(text) => same_text(text, expected),
        None => false,
    }
}

fn number_is(value: Option<u64>, expected: u64) -> (same: bool)
    ensures
        same == (value == Some(expected)),
{
    match value {
        Some(number) => number == expected,
        None => false,
    }
}

fn check_request_head(object: &Vec<(String, Json)>, claimant: Claimant) -> (result: Result<
    (),
    BridgeFsError,
>)
    ensures
        crate::identifier::refuses(
            result,
            request_head_failure(
                entries_contents(object@),
                claimant.uid@,
                claimant.instance@,
                claimant.pid,
                claimant.process_start_token@,
            ),
        ),
{
    if !request_schema(object) {
        return Err(
            invalid("consumed request does not have the exact bridge-v1 top-level schema"),
        );
    }
    if !number_is(as_unsigned(find_entry(object, "protocol_version")), 1) || !text_is(
        as_text(find_entry(object, "uid")),
        claimant.uid,
    ) || !text_is(as_text(find_entry(object, "action")), "safe_quit") {
        return Err(invalid("consumed request is not the exact safe_quit request UID"));
    }
    match as_text(find_entry(object, "nonce")) {
        None => {
            return Err(invalid("request nonce is absent"));
        },
        Some(nonce) => {
            if byte_len(nonce) < 32 || byte_len(nonce) > 128 || !is_lower_hex(nonce) {
                return Err(invalid("request nonce is not canonical lowercase hexadecimal"));
            }
        },
    }
    let issued_at: u64 = match exact_json_u64(find_entry(object, "issued_at"), "request issued_at") {
        Ok(number) => number,
        Err(error) => {
            return Err(error);
        },
    };
    let expiry: u64 = match exact_json_u64(find_entry(object, "expiry"), "request expiry") {
        Ok(number) => number,
        Err(error) => {
            return Err(error);
        },
    };
    if expiry <= issued_at || expiry - issued_at > 10 {
        return Err(invalid("request TTL is outside bridge-v1 bounds"));
    }
    match as_object(find_entry(object, "origin")) {
        None => Err(invalid("request origin is absent")),
        Some(origin) => {
            let kind = as_text(find_entry(origin, "kind"));
            if !(text_is(kind, "in_gui") || text_is(kind, "resident_gui")) || !text_is(
                as_text(find_entry(origin, "gui_instance")),
                claimant.instance,
            ) || !number_is(as_unsigned(find_entry(origin, "pid")), claimant.pid as u64) || !text_is(
                as_text(find_entry(origin, "process_start_token")),
                claimant.process_start_token,
            ) {
                return Err(
                    invalid(
                        "request origin does not name this exact resident/in-GUI process incarnation",
                    ),
                );
            }
            Ok(())
        },
    }
}

/// Reads a consumed request as a finish request of this claimant.
pub fn finish_request(request: &Json, claimant: Claimant) -> (result: Result<
    FinishRequest,
    BridgeFsError,
>)
    ensures
        match result {
            Ok(finish) => finish_request_of(
                request.contents(),
                claimant.uid@,
                claimant.instance@,
                claimant.pid,
                claimant.process_start_token@,
                claimant.platform_action@,
            ) == Ok::<FinishView, Failure>(finish@),
            Err(error) => finish_request_of(
                request.contents(),
                claimant.uid@,
                claimant.instance@,
                claimant.pid,
                claimant.process_start_token@,
                claimant.platform_action@,
            ) == Err::<FinishView, Failure>(error@),
        },
{
    if contains_json_null(request) {
        return Err(invalid("consumed request contains a null field"));
    }
    let object = match as_object(Some(request)) {
        Some(object) => object,
        None => {
            return Err(invalid("consumed request is not one JSON object"));
        },
    };
    match check_request_head(object, claimant) {
        Ok(()) => {},
        Err(error) => {
            return Err(error);
        },
    }
    let target = match as_object(find_entry(object, "target")) {
        Some(target) => target,
        None => {
            return Err(invalid("request target is absent"));
        },
    };
    if !finish_schema(target) || !text_is(as_text(find_entry(target, "phase")), "finish")
        || !text_is(as_text(find_entry(target, "platform_action")), claimant.platform_action) {
        return Err(
            invalid("request is not an exact safe_quit finish target for this platform action"),
        );
    }
    match as_text(find_entry(target, "proof_uid")) {
        None => {
            return Err(invalid("finish proof_uid is absent"));
        },
        Some(proof_uid) => match validate_uid(proof_uid) {
            Ok(()) => {},
            Err(error) => {
                return Err(error);
            },
        },
    }
    let signature = match as_text(find_entry(object, "hmac_sha256")) {
        None => {
            return Err(invalid("request HMAC is absent"));
        },
        Some(signature) => signature,
    };
    if byte_len(signature) != 64 || !is_lower_hex(signature) {
        return Err(invalid("request HMAC is not 64 lowercase hexadecimal characters"));
    }
    let canonical = match canonical_unsigned_request(object) {
        Ok(canonical) => canonical,
        Err(error) => {
            return Err(error);
        },
    };
    match (
        as_text(find_entry(object, "nonce")),
        as_unsigned(find_entry(object, "issued_at")),
        as_unsigned(find_entry(object, "expiry")),
    ) {
        (Some(nonce), Some(issued_at), Some(expiry)) => Ok(
            FinishRequest {
                nonce: nonce.to_owned(),
                issued_at,
                expiry,
                signature: signature.to_owned(),
                canonical,
            },
        ),
        _ => {
            assert(false);
            Err(invalid("request nonce is absent"))
        },
    }
}

/// The signature that a finish request must carry under this key.
pub open spec fn expected_signature(finish: FinishView, key: Seq<u8>) -> Seq<char> {
    hex_text(hmac(key, encode_utf8(finish.canonical)))
}

/// The digest of a finish request.
pub open spec fn request_digest(finish: FinishView) -> Seq<char> {
    hex_text(sha256(encode_utf8(finish.canonical)))
}

/// The refusal of a finish request whose signature is not the expected one.
pub open spec fn signature_failure(finish: FinishView, expected: Seq<char>) -> Option<Failure> {
    if finish.signature == expected {
        None
    } else {
        Some(
            proof_invalid("consumed request HMAC does not authenticate under this bridge key"@),
        )
    }
}

/// Holds a finish request's signature against the expected one.
pub fn check_signature(finish: &FinishRequest, expected: &str) -> (result: Result<
    (),
    BridgeFsError,
>)
    ensures
        crate::identifier::refuses(result, signature_failure(finish@, expected@)),
{
    proof {
        crate::text::lemma_utf8_injective(finish.signature@, expected@);
    }
    if constant_time_equal(finish.signature.as_str().as_bytes(), expected.as_bytes()) {
        Ok(())
    } else {
        Err(invalid("consumed request HMAC does not authenticate under this bridge key"))
    }
}

/// The acknowledgement of a finished lifecycle request.
#[derive(Debug)]
pub struct CompletionAck {
    pub protocol_version: u32,
    pub uid: String,
    pub action: String,
    pub nonce: String,
    pub ok: bool,
    pub completed_at: u64,
    pub request_sha256: String,
    pub gui_instance: String,
    pub platform_action: String,
    pub already_hidden: Option<bool>,
}

/// The view of a [`CompletionAck`].
pub struct AckView {
    pub protocol_version: u32,
    pub uid: Seq<char>,
    pub action: Seq<char>,
    pub nonce: Seq<char>,
    pub ok: bool,
    pub completed_at: u64,
    pub request_sha256: Seq<char>,
    pub gui_instance: Seq<char>,
    pub platform_action: Seq<char>,
    pub already_hidden: Option<bool>,
}

impl View for CompletionAck {
    type V = AckView;

    open spec fn view(&self) -> AckView {
        AckView {
            protocol_version: self.protocol_version,
            uid: self.uid@,
            action: self.action@,
            nonce: self.nonce@,
            ok: self.ok,
            completed_at: self.completed_at,
            request_sha256: self.request_sha256@,
            gui_instance: self.gui_instance@,
            platform_action: self.platform_action@,
            already_hidden: self.already_hidden,
        }
    }
}

/// The names of an acknowledgement's fields.
pub open spec fn is_ack_key(name: Seq<char>) -> bool {
    ||| name == "protocol_version"@
    ||| name == "uid"@
    ||| name == "action"@
    ||| name == "nonce"@
    ||| name == "ok"@
    ||| name == "completed_at"@
    ||| name == "request_sha256"@
    ||| name == "gui_instance"@
    ||| name == "platform_action"@
    ||| name == "already_hidden"@
}

/// The Boolean of an optional value that is one.
pub open spec fn bool_of(value: Option<JsonView>) -> Option<bool> {
    match value {
        Some(JsonView::Bool(value)) => Some(value),
        _ => None,
    }
}

/// The acknowledgement that ten values make: nine required ones of the right
/// types, and a last one that may be missing.
pub open spec fn ack_of_values(values: Seq<Option<JsonView>>) -> Option<AckView> {
    let version = unsigned_of(values[0]);
    let hidden = match values[9] {
        None => true,
        Some(JsonView::Null) => true,
        Some(JsonView::Bool(_)) => true,
        _ => false,
    };
    if version is Some && version->0 <= u32::MAX && text_of(values[1]) is Some && text_of(
        values[2],
    ) is Some && text_of(values[3]) is Some && bool_of(values[4]) is Some && unsigned_of(
        values[5],
    ) is Some && text_of(values[6]) is Some && text_of(values[7]) is Some && text_of(values[8])
        is Some && hidden {
        Some(
            AckView {
                protocol_version: version->0 as u32,
                uid: text_of(values[1])->0,
                action: text_of(values[2])->0,
                nonce: text_of(values[3])->0,
                ok: bool_of(values[4])->0,
                completed_at: unsigned_of(values[5])->0,
                request_sha256: text_of(values[6])->0,
                gui_instance: text_of(values[7])->0,
                platform_action: text_of(values[8])->0,
                already_hidden: bool_of(values[9]),
            },
        )
    } else {
        None
    }
}

/// The acknowledgement that a document states: by name, with no other field,
/// or by place, in the order of the fields.
pub open spec fn ack_of(value: JsonView) -> Option<AckView> {
    match value {
        JsonView::Object(entries) => if forall|i: int|
            0 <= i < entries.len() ==> is_ack_key((#[trigger] entries[i]).0) {
            ack_of_values(
                seq![
                    entry(entries, "protocol_version"@),
                    entry(entries, "uid"@),
                    entry(entries, "action"@),
                    entry(entries, "nonce"@),
                    entry(entries, "ok"@),
                    entry(entries, "completed_at"@),
                    entry(entries, "request_sha256"@),
                    entry(entries, "gui_instance"@),
                    entry(entries, "platform_action"@),
                    entry(entries, "already_hidden"@),
                ],
            )
        } else {
            None
        },
        JsonView::Array(items) => if items.len() == 9 || items.len() == 10 {
            ack_of_values(
                Seq::new(
                    10,
                    |i: int|
                        if i < items.len() {
                            Some(items[i])
                        } else {
                            None
                        },
                ),
            )
        } else {
            None
        },
        _ => None,
    }
}

/// The acknowledgement that a document states, or the refusal owed to it. The
/// complaint is what the decoder of acknowledgements says of one that does not fit
/// the schema.
pub open spec fn finish_ack_of(ack: JsonView, complaint: Seq<char>) -> Result<AckView, Failure> {
    if holds_null(ack) {
        Err(proof_invalid("primary acknowledgement contains a null field"@))
    } else if ack_of(ack) is None {
        Err(
            proof_invalid(
                "primary acknowledgement is not exact finish schema: "@ + complaint,
            ),
        )
    } else {
        Ok(ack_of(ack)->0)
    }
}

fn as_bool(value: Option<&Json>) -> (result: Option<bool>)
    ensures
        result == bool_of(optional_contents(value)),
{
    match value {
        Some(Json::Bool(value)) => Some(*value),
        _ => None,
    }
}

fn ack_from_values(values: &Vec<Option<&Json>>) -> (result: Option<CompletionAck>)
    requires
        values@.len() == 10,
    ensures
        match result {
            Some(ack) => ack_of_values(
                values@.map_values(|v: Option<&Json>| optional_contents(v)),
            ) == Some(ack@),
            None => ack_of_values(values@.map_values(|v: Option<&Json>| optional_contents(v)))
                is None,
        },
{
    let hidden = match values[9] {
        None => true,
        Some(Json::Null) => true,
        Some(Json::Bool(_)) => true,
        _ => false,
    };
    if !hidden {
        return None;
    }
    match (
        as_unsigned(values[0]),
        as_text(values[1]),
        as_text(values[2]),
        as_text(values[3]),
        as_bool(values[4]),
        as_unsigned(values[5]),
        as_text(values[6]),
        as_text(values[7]),
        as_text(values[8]),
    ) {
        (
            Some(version),
            Some(uid),
            Some(action),
            Some(nonce),
            Some(ok),
            Some(completed_at),
            Some(request_sha256),
            Some(gui_instance),
            Some(platform_action),
        ) => {
            if version > u32::MAX as u64 {
                return None;
            }
            Some(
                CompletionAck {
                    protocol_version: version as u32,
                    uid: uid.to_owned(),
                    action: action.to_owned(),
                    nonce: nonce.to_owned(),
                    ok,
                    completed_at,
                    request_sha256: request_sha256.to_owned(),
                    gui_instance: gui_instance.to_owned(),
                    platform_action: platform_action.to_owned(),
                    already_hidden: as_bool(values[9]),
                },
            )
        },
        _ => None,
    }
}

fn ack_schema(entries: &Vec<(String, Json)>) -> (known: bool)
    ensures
        known == (forall|i: int|
            0 <= i < entries@.len() ==> is_ack_key((#[trigger] entries_contents(entries@)[i]).0)),
{
    let ghost views = entries_contents(entries@);
    let mut i: usize = 0;
    while i < entries.len()
        invariant
            i <= entries@.len(),
            views == entries_contents(entries@),
            forall|k: int| 0 <= k < i ==> is_ack_key((#[trigger] views[k]).0),
        decreases entries@.len() - i,
    {
        let name = entries[i].0.as_str();
        assert(views[i as int].0 == name@);
        if !(same_text(name, "protocol_version") || same_text(name, "uid") || same_text(
            name,
            "action",
        ) || same_text(name, "nonce") || same_text(name, "ok") || same_text(name, "completed_at")
            || same_text(name, "request_sha256") || same_text(name, "gui_instance") || same_text(
            name,
            "platform_action",
        ) || same_text(name, "already_hidden")) {
            return false;
        }
        i += 1;
    }
    true
}

fn ack_from_json(ack: &Json) -> (result: Option<CompletionAck>)
    ensures
        match result {
            Some(value) => ack_of(ack.contents()) == Some(value@),
            None => ack_of(ack.contents()) is None,
        },
{
    let mut values: Vec<Option<&Json>> = Vec::new();
    match ack {
        Json::Object(entries) => {
            assert(ack.contents()->Object_0 =~= entries_contents(entries@));
            if !ack_schema(entries) {
                return None;
            }
            values.push(find_entry(entries, "protocol_version"));
            values.push(find_entry(entries, "uid"));
            values.push(find_entry(entries, "action"));
            values.push(find_entry(entries, "nonce"));
            values.push(find_entry(entries, "ok"));
            values.push(find_entry(entries, "completed_at"));
            values.push(find_entry(entries, "request_sha256"));
            values.push(find_entry(entries, "gui_instance"));
            values.push(find_entry(entries, "platform_action"));
            values.push(find_entry(entries, "already_hidden"));
            proof {
                let e = entries_contents(entries@);
                assert(values@.map_values(|v: Option<&Json>| optional_contents(v)) =~= seq![
                    entry(e, "protocol_version"@),
                    entry(e, "uid"@),
                    entry(e, "action"@),
                    entry(e, "nonce"@),
                    entry(e, "ok"@),
                    entry(e, "completed_at"@),
                    entry(e, "request_sha256"@),
                    entry(e, "gui_instance"@),
                    entry(e, "platform_action"@),
                    entry(e, "already_hidden"@),
                ]);
            }
            ack_from_values(&values)
        },
        Json::Array(items) => {
            if items.len() != 9 && items.len() != 10 {
                return None;
            }
            let mut i: usize = 0;
            while i < 10
                invariant
                    i <= 10,
                    9 <= items@.len() <= 10,
                    values@.len() == i,
                    forall|k: int|
                        0 <= k < i ==> #[trigger] values@[k] == if k < items@.len() {
                            Some(&items@[k])
                        } else {
                            None
                        },
                decreases 10 - i,
            {
                if i < items.len() {
                    values.push(Some(&items[i]));
                } else {
                    values.push(None);
                }
                i += 1;
            }
            proof {
                let views = ack.contents()->Array_0;
                assert(values@.map_values(|v: Option<&Json>| optional_contents(v)) =~= Seq::new(
                    10,
                    |i: int|
                        if i < views.len() {
                            Some(views[i])
                        } else {
                            None
                        },
                ));
            }
            ack_from_values(&values)
        },
        _ => None,
    }
}

/// Reads a document as the acknowledgement of a finished request. The complaint is
/// handed on where the document does not fit the schema.
pub fn finish_ack(ack: &Json, complaint: &str) -> (result: Result<CompletionAck, BridgeFsError>)
    ensures
        match result {
            Ok(value) => finish_ack_of(ack.contents(), complaint@) == Ok::<AckView, Failure>(
                value@,
            ),
            Err(error) => finish_ack_of(ack.contents(), complaint@) == Err::<AckView, Failure>(
                error@,
            ),
        },
{
    if contains_json_null(ack) {
        return Err(invalid("primary acknowledgement contains a null field"));
    }
    match ack_from_json(ack) {
        Some(value) => Ok(value),
        None => Err(
            BridgeFsError::new(
                "completion_proof_invalid",
                "primary acknowledgement is not exact finish schema: ".to_owned().concat(
                    complaint,
                ),
            ),
        ),
    }
}

/// Whether an acknowledgement proves the completion of exactly this request,
/// in its time, by this instance and for this action.
pub open spec fn ack_proves(
    ack: AckView,
    finish: FinishView,
    digest: Seq<char>,
    uid: Seq<char>,
    instance: Seq<char>,
    platform_action: Seq<char>,
    now: u64,
) -> bool {
    &&& ack.protocol_version == 1
    &&& ack.uid == uid
    &&& ack.action == "safe_quit"@
    &&& ack.nonce == finish.nonce
    &&& ack.ok
    &&& ack.completed_at <= MAX_JSON_INTEGER
    &&& finish.issued_at <= ack.completed_at <= finish.expiry
    &&& ack.completed_at <= now + 2
    &&& now <= finish.expiry
    &&& encode_utf8(ack.request_sha256).len() == 64
    &&& all_lower_hex(ack.request_sha256)
    &&& ack.request_sha256 == digest
    &&& ack.gui_instance == instance
    &&& ack.platform_action == platform_action
    &&& ack.already_hidden is None
}

/// The refusal of an acknowledgement that proves nothing.
pub open spec fn ack_failure(proves: bool) -> Option<Failure> {
    if proves {
        None
    } else {
        Some(
            proof_invalid(
                "primary acknowledgement does not exactly prove this safe lifecycle completion"@,
            ),
        )
    }
}

/// Holds an acknowledgement against the request that it answers.
pub fn check_acknowledgement(
    ack: &CompletionAck,
    finish: &FinishRequest,
    digest: &str,
    claimant: Claimant,
    now: u64,
) -> (result: Result<(), BridgeFsError>)
    ensures
        crate::identifier::refuses(
            result,
            ack_failure(
                ack_proves(
                    ack@,
                    finish@,
                    digest@,
                    claimant.uid@,
                    claimant.instance@,
                    claimant.platform_action@,
                    now,
                ),
            ),
        ),
{
    proof {
        crate::text::lemma_utf8_injective(ack.request_sha256@, digest@);
    }
    if ack.protocol_version != 1 || !same_text(ack.uid.as_str(), claimant.uid) || !same_text(
        ack.action.as_str(),
        "safe_quit",
    ) || !same_text(ack.nonce.as_str(), finish.nonce.as_str()) || !ack.ok || ack.completed_at
        > MAX_JSON_INTEGER || ack.completed_at < finish.issued_at || ack.completed_at
        > finish.expiry || ack.completed_at > now.saturating_add(2) || now > finish.expiry
        || byte_len(ack.request_sha256.as_str()) != 64 || !is_lower_hex(ack.request_sha256.as_str())
        || !constant_time_equal(ack.request_sha256.as_str().as_bytes(), digest.as_bytes())
        || !same_text(ack.gui_instance.as_str(), claimant.instance) || !same_text(
        ack.platform_action.as_str(),
        claimant.platform_action,
    ) || ack.already_hidden.is_some() {
        return Err(
            invalid(
                "primary acknowledgement does not exactly prove this safe lifecycle completion",
            ),
        );
    }
    Ok(())
}

/// What the two documents of a completion prove: the digest of the request, or
/// the first refusal owed. The documents and the clock are as they were read, and
/// the complaint is what the decoder of acknowledgements says of one that does not
/// fit the schema.
pub open spec fn completion_of(
    request: Result<JsonView, Seq<char>>,
    ack: Result<JsonView, Seq<char>>,
    complaint: Seq<char>,
    uid: Seq<char>,
    instance: Seq<char>,
    pid: u32,
    process_start_token: Seq<char>,
    platform_action: Seq<char>,
    key: Seq<u8>,
    now: Result<u64, Seq<char>>,
) -> Result<Seq<char>, Failure> {
    match request {
        Err(reason) => Err(proof_invalid("consumed request is not JSON: "@ + reason)),
        Ok(request) => match finish_request_of(
            request,
            uid,
            instance,
            pid,
            process_start_token,
            platform_action,
        ) {
            Err(refusal) => Err(refusal),
            Ok(finish) => {
                let signature = signature_failure(finish, expected_signature(finish, key));
                if signature is Some {
                    Err(signature->0)
                } else {
                    match ack {
                        Err(reason) => Err(
                            proof_invalid("primary acknowledgement is not JSON: "@ + reason),
                        ),
                        Ok(ack) => match finish_ack_of(ack, complaint) {
                            Err(refusal) => Err(refusal),
                            Ok(ack) => match now {
                                Err(reason) => Err(failure("clock_invalid"@, reason)),
                                Ok(now) => {
                                    let digest = request_digest(finish);
                                    if ack_proves(
                                        ack,
                                        finish,
                                        digest,
                                        uid,
                                        instance,
                                        platform_action,
                                        now,
                                    ) {
                                        Ok(digest)
                                    } else {
                                        Err(ack_failure(false)->0)
                                    }
                                },
                            },
                        },
                    }
                }
            },
        },
    }
}

/// What a reading of the clock says.
pub open spec fn clock_view(now: Result<u64, String>) -> Result<u64, Seq<char>> {
    match now {
        Ok(now) => Ok(now),
        Err(reason) => Err(reason@),
    }
}

/// Whether a computed digest is the one that is owed, or the refusal is.
pub open spec fn yields(
    result: Result<String, BridgeFsError>,
    owed: Result<Seq<char>, Failure>,
) -> bool {
    match result {
        Ok(text) => owed == Ok::<Seq<char>, Failure>(text@),
        Err(error) => owed == Err::<Seq<char>, Failure>(error@),
    }
}

/// Checks the two documents of a completion after they were read: the request,
/// its signature under the key, the acknowledgement and the time. The complaint is
/// handed on where the acknowledgement does not fit the schema.
pub fn check_completion(
    request: Result<Json, String>,
    ack: Result<Json, String>,
    complaint: &str,
    claimant: Claimant,
    key: &[u8],
    now: Result<u64, String>,
) -> (result: Result<String, BridgeFsError>)
    ensures
        yields(
            result,
            completion_of(
                match request {
                    Ok(value) => Ok(value.contents()),
                    Err(reason) => Err(reason@),
                },
                match ack {
                    Ok(value) => Ok(value.contents()),
                    Err(reason) => Err(reason@),
                },
                complaint@,
                claimant.uid@,
                claimant.instance@,
                claimant.pid,
                claimant.process_start_token@,
                claimant.platform_action@,
                key@,
                clock_view(now),
            ),
        ),
{
    let request = match request {
        Ok(request) => request,
        Err(reason) => {
            return Err(
                BridgeFsError::new(
                    "completion_proof_invalid",
                    "consumed request is not JSON: ".to_owned().concat(reason.as_str()),
                ),
            );
        },
    };
    let finish = match finish_request(&request, claimant) {
        Ok(finish) => finish,
        Err(error) => {
            return Err(error);
        },
    };
    let code = hmac_sha256(key, finish.canonical.as_str().as_bytes());
    let expected = hex_lower(code.as_slice());
    match check_signature(&finish, expected.as_str()) {
        Ok(()) => {},
        Err(error) => {
            return Err(error);
        },
    }
    let hashed = sha256_digest(finish.canonical.as_str().as_bytes());
    let digest = hex_lower(hashed.as_slice());
    let ack = match ack {
        Ok(ack) => ack,
        Err(reason) => {
            return Err(
                BridgeFsError::new(
                    "completion_proof_invalid",
                    "primary acknowledgement is not JSON: ".to_owned().concat(reason.as_str()),
                ),
            );
        },
    };
    let ack = match finish_ack(&ack, complaint) {
        Ok(ack) => ack,
        Err(error) => {
            return Err(error);
        },
    };
    let now: u64 = match now {
        Ok(now) => now,
        Err(reason) => {
            return Err(BridgeFsError::new("clock_invalid", reason));
        },
    };
    match check_acknowledgement(&ack, &finish, digest.as_str(), claimant, now) {
        Ok(()) => Ok(digest),
        Err(error) => Err(error),
    }
}

/// Validates the two documents of a completion as they were read from the
/// spool, and returns the digest of the request. The complaint is handed on where
/// the acknowledgement does not fit the schema.
pub fn validate_lifecycle_completion_documents(
    request_raw: &[u8],
    ack_raw: &[u8],
    complaint: &str,
    claimant: Claimant,
    key: &[u8],
    now: Result<u64, String>,
) -> (result: Result<String, BridgeFsError>)
    ensures
        yields(
            result,
            completion_of(
                json_document(request_raw@),
                json_document(ack_raw@),
                complaint@,
                claimant.uid@,
                claimant.instance@,
                claimant.pid,
                claimant.process_start_token@,
                claimant.platform_action@,
                key@,
                clock_view(now),
            ),
        ),
{
    check_completion(
        parse_document(request_raw),
        parse_document(ack_raw),
        complaint,
        claimant,
        key,
        now,
    )
}

/// The key under which a process remembers a consumed proof.
pub open spec fn process_key(instance: Seq<char>, uid: Seq<char>) -> Seq<char> {
    instance + ":"@ + uid
}

/// The durable marker of a consumed proof.
#[derive(Debug)]
pub struct CompletionMarker {
    pub name: String,
    pub body: String,
}

/// The view of a [`CompletionMarker`].
pub struct MarkerView {
    pub name: Seq<char>,
    pub body: Seq<char>,
}

impl View for CompletionMarker {
    type V = MarkerView;

    open spec fn view(&self) -> MarkerView {
        MarkerView { name: self.name@, body: self.body@ }
    }
}

/// The marker of a completion.
pub open spec fn marker_of(
    uid: Seq<char>,
    platform_action: Seq<char>,
    digest: Seq<char>,
) -> MarkerView {
    MarkerView {
        name: "completion-"@ + uid + ".json"@,
        body: platform_action + ":"@ + digest + "\n"@,
    }
}

/// Whether a text names one of the two lifecycle actions.
pub open spec fn is_platform_action(action: Seq<char>) -> bool {
    action == "quit"@ || action == "hide"@
}

/// The document that an optional byte string holds.
pub open spec fn optional_document(raw: Option<Vec<u8>>) -> Option<Result<JsonView, Seq<char>>> {
    match raw {
        Some(raw) => Some(json_document(raw@)),
        None => None,
    }
}

/// What the attempt to consume a completion proof gives, and the set of
/// consumed proofs after it.
pub open spec fn consume_step(
    consumed: Option<Result<JsonView, Seq<char>>>,
    ack: Option<Result<JsonView, Seq<char>>>,
    complaint: Seq<char>,
    uid: Seq<char>,
    instance: Seq<char>,
    pid: u32,
    process_start_token: Seq<char>,
    platform_action: Seq<char>,
    key: Seq<u8>,
    now: Result<u64, Seq<char>>,
    proofs: Set<Seq<char>>,
) -> (Result<MarkerView, Failure>, Set<Seq<char>>) {
    if uid_failure(uid) is Some {
        (Err(uid_failure(uid)->0), proofs)
    } else if !is_platform_action(platform_action) {
        (Err(failure("completion_action"@, "platform_action must be quit or hide"@)), proofs)
    } else if consumed is None {
        (
            Err(failure("completion_proof_missing"@, "the exact consumed request is absent"@)),
            proofs,
        )
    } else if ack is None {
        (
            Err(
                failure(
                    "completion_proof_missing"@,
                    "the durable primary acknowledgement is absent"@,
                ),
            ),
            proofs,
        )
    } else {
        match completion_of(
            consumed->0,
            ack->0,
            complaint,
            uid,
            instance,
            pid,
            process_start_token,
            platform_action,
            key,
            now,
        ) {
            Err(refusal) => (Err(refusal), proofs),
            Ok(digest) => if proofs.contains(process_key(instance, uid)) {
                (
                    Err(
                        failure(
                            "completion_replayed"@,
                            "this lifecycle proof was already consumed in this GUI process"@,
                        ),
                    ),
                    proofs,
                )
            } else {
                (
                    Ok(marker_of(uid, platform_action, digest)),
                    proofs.insert(process_key(instance, uid)),
                )
            },
        }
    }
}

/// Whether a computed marker is the one that is owed, or the refusal is.
pub open spec fn marks(
    result: Result<CompletionMarker, BridgeFsError>,
    owed: Result<MarkerView, Failure>,
) -> bool {
    match result {
        Ok(marker) => owed == Ok::<MarkerView, Failure>(marker@),
        Err(error) => owed == Err::<MarkerView, Failure>(error@),
    }
}

/// Consumes the proof of a completion: validates its documents, remembers it in
/// this process, and says which durable marker has to be written. The complaint is
/// handed on where the acknowledgement does not fit the schema.
pub fn consume_lifecycle_completion_proof(
    consumed: Option<Vec<u8>>,
    ack: Option<Vec<u8>>,
    complaint: &str,
    claimant: Claimant,
    key: &[u8],
    now: Result<u64, String>,
    proofs: &mut TextSet,
) -> (result: Result<CompletionMarker, BridgeFsError>)
    ensures
        ({
            let step = consume_step(
                optional_document(consumed),
                optional_document(ack),
                complaint@,
                claimant.uid@,
                claimant.instance@,
                claimant.pid,
                claimant.process_start_token@,
                claimant.platform_action@,
                key@,
                clock_view(now),
                old(proofs)@,
            );
            marks(result, step.0) && final(proofs)@ == step.1
        }),
{
    match validate_uid(claimant.uid) {
        Ok(()) => {},
        Err(error) => {
            return Err(error);
        },
    }
    if !same_text(claimant.platform_action, "quit") && !same_text(claimant.platform_action, "hide") {
        return Err(
            BridgeFsError::new(
                "completion_action",
                "platform_action must be quit or hide".to_owned(),
            ),
        );
    }
    let consumed = match consumed {
        Some(consumed) => consumed,
        None => {
            return Err(
                BridgeFsError::new(
                    "completion_proof_missing",
                    "the exact consumed request is absent".to_owned(),
                ),
            );
        },
    };
    let ack = match ack {
        Some(ack) => ack,
        None => {
            return Err(
                BridgeFsError::new(
                    "completion_proof_missing",
                    "the durable primary acknowledgement is absent".to_owned(),
                ),
            );
        },
    };
    let digest = match validate_lifecycle_completion_documents(
        consumed.as_slice(),
        ack.as_slice(),
        complaint,
        claimant,
        key,
        now,
    ) {
        Ok(digest) => digest,
        Err(error) => {
            return Err(error);
        },
    };
    let process_key = claimant.instance.to_owned().concat(":").concat(claimant.uid);
    let ghost before = proofs@;
    if !proofs.insert(process_key) {
        assert(proofs@ =~= before);
        return Err(
            BridgeFsError::new(
                "completion_replayed",
                "this lifecycle proof was already consumed in this GUI process".to_owned(),
            ),
        );
    }
    Ok(
        CompletionMarker {
            name: "completion-".to_owned().concat(claimant.uid).concat(".json"),
            body: claimant.platform_action.to_owned().concat(":").concat(digest.as_str()).concat(
                "\n",
            ),
        },
    )
}

/// The refusal owed when the durable marker of a consumed proof could not be
/// written.
pub fn marker_write_failed(error: &BridgeFsError) -> (result: BridgeFsError)
    ensures
        result@ == failure(
            "completion_replayed"@,
            "durable lifecycle proof consumption failed: "@ + ("dmux_bridge_"@ + error@.code + ": "@
                + error@.detail),
        ),
{
    BridgeFsError::new(
        "completion_replayed",
        "durable lifecycle proof consumption failed: ".to_owned().concat(
            error.to_string().as_str(),
        ),
    )
}

/// A completion is accepted only where it is authentic and in time: the request
/// names this request and this action, its origin is this process incarnation,
/// its signature is that of the key over all its other fields, the
/// acknowledgement answers its digest, and it has not expired.
pub proof fn law_accepted_completion_is_authentic(
    request: Result<JsonView, Seq<char>>,
    ack: Result<JsonView, Seq<char>>,
    complaint: Seq<char>,
    uid: Seq<char>,
    instance: Seq<char>,
    pid: u32,
    token: Seq<char>,
    action: Seq<char>,
    key: Seq<u8>,
    now: Result<u64, Seq<char>>,
    digest: Seq<char>,
)
    requires
        completion_of(request, ack, complaint, uid, instance, pid, token, action, key, now) == Ok::<
            Seq<char>,
            Failure,
        >(digest),
    ensures
        request is Ok && request->Ok_0 is Object && ack is Ok && now is Ok,
        ({
            let object = request->Ok_0->Object_0;
            let origin = object_of(entry(object, "origin"@));
            let target = object_of(entry(object, "target"@));
            let issued_at = unsigned_of(entry(object, "issued_at"@));
            let expiry = unsigned_of(entry(object, "expiry"@));
            let canonical = unsigned_canonical(object);
            let answer = ack_of(ack->Ok_0);
            &&& text_of(entry(object, "uid"@)) == Some(uid)
            &&& text_of(entry(object, "action"@)) == Some("safe_quit"@)
            &&& origin is Some && origin_names(origin->0, instance, pid, token)
            &&& target is Some && text_of(entry(target->0, "platform_action"@)) == Some(action)
            &&& canonical is Ok
            &&& text_of(entry(object, "hmac_sha256"@)) == Some(
                hex_text(hmac(key, encode_utf8(canonical->Ok_0))),
            )
            &&& digest == hex_text(sha256(encode_utf8(canonical->Ok_0)))
            &&& answer is Some && answer->0.ok && answer->0.request_sha256 == digest
            &&& issued_at is Some && expiry is Some
            &&& issued_at->0 < expiry->0 <= issued_at->0 + 10
            &&& issued_at->0 <= answer->0.completed_at <= expiry->0
            &&& now->Ok_0 <= expiry->0
        }),
{
}

/// A completion proof is good for one use: after it was consumed, no documents,
/// key or time make the same request of the same instance succeed again.
pub proof fn law_completion_proof_is_one_use(
    consumed: Option<Result<JsonView, Seq<char>>>,
    ack: Option<Result<JsonView, Seq<char>>>,
    later_consumed: Option<Result<JsonView, Seq<char>>>,
    later_ack: Option<Result<JsonView, Seq<char>>>,
    complaint: Seq<char>,
    later_complaint: Seq<char>,
    uid: Seq<char>,
    instance: Seq<char>,
    pid: u32,
    later_pid: u32,
    token: Seq<char>,
    later_token: Seq<char>,
    action: Seq<char>,
    later_action: Seq<char>,
    key: Seq<u8>,
    later_key: Seq<u8>,
    now: Result<u64, Seq<char>>,
    later: Result<u64, Seq<char>>,
    proofs: Set<Seq<char>>,
)
    requires
        consume_step(
            consumed,
            ack,
            complaint,
            uid,
            instance,
            pid,
            token,
            action,
            key,
            now,
            proofs,
        ).0 is Ok,
    ensures
        ({
            let after = consume_step(
                consumed,
                ack,
                complaint,
                uid,
                instance,
                pid,
                token,
                action,
                key,
                now,
                proofs,
            ).1;
            consume_step(
                later_consumed,
                later_ack,
                later_complaint,
                uid,
                instance,
                later_pid,
                later_token,
                later_action,
                later_key,
                later,
                after,
            ).0 is Err
        }),
{
}

/// A refused attempt consumes nothing, and no attempt forgets a consumed proof.
pub proof fn law_refused_completion_consumes_nothing(
    consumed: Option<Result<JsonView, Seq<char>>>,
    ack: Option<Result<JsonView, Seq<char>>>,
    complaint: Seq<char>,
    uid: Seq<char>,
    instance: Seq<char>,
    pid: u32,
    token: Seq<char>,
    action: Seq<char>,
    key: Seq<u8>,
    now: Result<u64, Seq<char>>,
    proofs: Set<Seq<char>>,
)
    ensures
        ({
            let step = consume_step(
                consumed,
                ack,
                complaint,
                uid,
                instance,
                pid,
                token,
                action,
                key,
                now,
                proofs,
            );
            &&& step.0 is Err ==> step.1 == proofs
            &&& proofs.subset_of(step.1)
        }),
{
}

/// Two proofs are remembered under the same key only if they are of the same
/// instance and the same request.
pub proof fn law_process_keys_do_not_collide(
    instance: Seq<char>,
    uid: Seq<char>,
    other_instance: Seq<char>,
    other_uid: Seq<char>,
)
    requires
        is_canonical_uuid(uid),
        is_canonical_uuid(other_uid),
        process_key(instance, uid) == process_key(other_instance, other_uid),
    ensures
        instance == other_instance,
        uid == other_uid,
{
    law_canonical_uuid_is_a_shape(uid);
    law_canonical_uuid_is_a_shape(other_uid);
    let whole = process_key(instance, uid);
    reveal_strlit(":");
    assert(instance =~= whole.take(whole.len() - 37));
    assert(other_instance =~= whole.take(whole.len() - 37));
    assert(uid =~= whole.skip(whole.len() - 36));
    assert(other_uid =~= whole.skip(whole.len() - 36));
}

} // verus!
