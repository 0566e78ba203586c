//! Which completions of a safe lifecycle action are accepted.

use crate::canonical::unsigned_canonical;
use crate::digest::{hex_text, hmac, sha256};
use crate::failure::Failure;
use crate::identifier::{all_lower_hex, is_canonical_uuid};
use crate::json::{entry, holds_null, object_of, text_of, unsigned_of, JsonView};
use crate::lifecycle::{ack_of, completion_of, consume_step};
use vstd::prelude::*;
use vstd::utf8::*;

verus! {

/// The fields of a finish request in the right form: the exact schema, this
/// request, a nonce of 32 to 128 lowercase hexadecimal digits, a life of at most
/// ten seconds, an origin in exactly this process incarnation, and the finish
/// target for this action.
pub open spec fn is_exact_finish(
    object: Seq<(Seq<char>, JsonView)>,
    uid: Seq<char>,
    instance: Seq<char>,
    pid: u32,
    token: Seq<char>,
    action: Seq<char>,
) -> bool {
    let nonce = text_of(entry(object, "nonce"@));
    let issued_at = unsigned_of(entry(object, "issued_at"@));
    let expiry = unsigned_of(entry(object, "expiry"@));
    let origin = object_of(entry(object, "origin"@));
    let kind = text_of(entry(origin->0, "kind"@));
    let target = object_of(entry(object, "target"@));
    let proof_uid = text_of(entry(target->0, "proof_uid"@));
    &&& !holds_null(JsonView::Object(object))
    &&& object.len() == 10
    &&& forall|i: int|
        0 <= i < object.len() ==> {
            let name = (#[trigger] object[i]).0;
            name == "action"@ || name == "expiry"@ || name == "hmac_sha256"@ || name
                == "issued_at"@ || name == "nonce"@ || name == "origin"@ || name
                == "protocol_version"@ || name == "replay_key"@ || name == "target"@ || name
                == "uid"@
        }
    &&& unsigned_of(entry(object, "protocol_version"@)) == Some(1u64)
    &&& text_of(entry(object, "uid"@)) == Some(uid)
    &&& text_of(entry(object, "action"@)) == Some("safe_quit"@)
    &&& nonce is Some
    &&& 32 <= encode_utf8(nonce->0).len() <= 128
    &&& all_lower_hex(nonce->0)
    &&& issued_at is Some
    &&& expiry is Some
    &&& issued_at->0 < expiry->0 <= issued_at->0 + 10
    &&& expiry->0 <= 9_007_199_254_740_991
    &&& origin is Some
    &&& kind == Some("in_gui"@) || kind == Some("resident_gui"@)
    &&& text_of(entry(origin->0, "gui_instance"@)) == Some(instance)
    &&& unsigned_of(entry(origin->0, "pid"@)) == Some(pid as u64)
    &&& text_of(entry(origin->0, "process_start_token"@)) == Some(token)
    &&& target is Some
    &&& target->0.len() == 3
    &&& forall|i: int|
        0 <= i < target->0.len() ==> {
            let name = (#[trigger] target->0[i]).0;
            name == "phase"@ || name == "platform_action"@ || name == "proof_uid"@
        }
    &&& text_of(entry(target->0, "phase"@)) == Some("finish"@)
    &&& text_of(entry(target->0, "platform_action"@)) == Some(action)
    &&& proof_uid is Some
    &&& is_canonical_uuid(proof_uid->0)
}

/// Whether a request carries the signature of the key over the canonical text of
/// all its other fields.
pub open spec fn is_signed(object: Seq<(Seq<char>, JsonView)>, key: Seq<u8>) -> bool {
    let canonical = unsigned_canonical(object);
    let signature = text_of(entry(object, "hmac_sha256"@));
    &&& canonical is Ok
    &&& signature == Some(hex_text(hmac(key, encode_utf8(canonical->Ok_0))))
    &&& encode_utf8(signature->0).len() == 64
    &&& all_lower_hex(signature->0)
}

/// Whether an acknowledgement answers a finish request of this digest, by this
/// instance, for this action and in time.
pub open spec fn is_exact_answer(
    answer: Seq<(Seq<char>, JsonView)>,
    object: Seq<(Seq<char>, JsonView)>,
    digest: Seq<char>,
    uid: Seq<char>,
    instance: Seq<char>,
    action: Seq<char>,
    now: u64,
) -> bool {
    let completed_at = unsigned_of(entry(answer, "completed_at"@));
    &&& !holds_null(JsonView::Object(answer))
    &&& forall|i: int|
        0 <= i < answer.len() ==> {
            let name = (#[trigger] answer[i]).0;
            name == "protocol_version"@ || name == "uid"@ || name == "action"@ || name == "nonce"@
                || name == "ok"@ || name == "completed_at"@ || name == "request_sha256"@ || name
                == "gui_instance"@ || name == "platform_action"@
        }
    &&& unsigned_of(entry(answer, "protocol_version"@)) == Some(1u64)
    &&& text_of(entry(answer, "uid"@)) == Some(uid)
    &&& text_of(entry(answer, "action"@)) == Some("safe_quit"@)
    &&& text_of(entry(answer, "nonce"@)) == text_of(entry(object, "nonce"@))
    &&& entry(answer, "ok"@) == Some(JsonView::Bool(true))
    &&& completed_at is Some
    &&& unsigned_of(entry(object, "issued_at"@))->0 <= completed_at->0
    &&& completed_at->0 <= unsigned_of(entry(object, "expiry"@))->0
    &&& completed_at->0 <= now + 2
    &&& now <= unsigned_of(entry(object, "expiry"@))->0
    &&& text_of(entry(answer, "request_sha256"@)) == Some(digest)
    &&& encode_utf8(digest).len() == 64
    &&& all_lower_hex(digest)
    &&& text_of(entry(answer, "gui_instance"@)) == Some(instance)
    &&& text_of(entry(answer, "platform_action"@)) == Some(action)
}

/// A name that no field has is not found.
proof fn lemma_absent(entries: Seq<(Seq<char>, JsonView)>, name: Seq<char>)
    requires
        forall|i: int| 0 <= i < entries.len() ==> (#[trigger] entries[i]).0 != name,
    ensures
        entry(entries, name) is None,
    decreases entries.len(),
{
    if entries.len() > 0 {
        let rest = entries.drop_first();
        assert forall|i: int| 0 <= i < rest.len() implies (#[trigger] rest[i]).0 != name by {
            assert(rest[i] == entries[i + 1]);
        }
        assert(entries[0].0 != name);
        lemma_absent(rest, name);
    }
}

/// Every authentic completion is accepted, of a quit and of a hide alike: an
/// exact finish request of this process incarnation, signed under the key, whose
/// digest this instance acknowledges for the same action in time, gives that
/// digest.
pub proof fn law_authentic_completion_is_accepted(
    object: Seq<(Seq<char>, JsonView)>,
    answer: Seq<(Seq<char>, JsonView)>,
    complaint: Seq<char>,
    uid: Seq<char>,
    instance: Seq<char>,
    pid: u32,
    token: Seq<char>,
    action: Seq<char>,
    key: Seq<u8>,
    now: u64,
)
    requires
        action == "quit"@ || action == "hide"@,
        is_exact_finish(object, uid, instance, pid, token, action),
        is_signed(object, key),
        is_exact_answer(
            answer,
            object,
            hex_text(sha256(encode_utf8(unsigned_canonical(object)->Ok_0))),
            uid,
            instance,
            action,
            now,
        ),
    ensures
        completion_of(
            Ok(JsonView::Object(object)),
            Ok(JsonView::Object(answer)),
            complaint,
            uid,
            instance,
            pid,
            token,
            action,
            key,
            Ok(now),
        ) == Ok::<Seq<char>, Failure>(
            hex_text(sha256(encode_utf8(unsigned_canonical(object)->Ok_0))),
        ),
{
    assert forall|i: int| 0 <= i < answer.len() implies (#[trigger] answer[i]).0
        != "already_hidden"@ by {
        reveal_strlit("already_hidden");
        reveal_strlit("protocol_version");
        reveal_strlit("uid");
        reveal_strlit("action");
        reveal_strlit("nonce");
        reveal_strlit("ok");
        reveal_strlit("completed_at");
        reveal_strlit("request_sha256");
        reveal_strlit("gui_instance");
        reveal_strlit("platform_action");
        assert("already_hidden"@[0] == 'a');
        assert("request_sha256"@[0] == 'r');
        assert("already_hidden"@.len() == 14 && "protocol_version"@.len() == 16);
        assert("uid"@.len() == 3 && "action"@.len() == 6 && "nonce"@.len() == 5);
        assert("ok"@.len() == 2 && "completed_at"@.len() == 12 && "gui_instance"@.len() == 12);
        assert("platform_action"@.len() == 15);
    }
    lemma_absent(answer, "already_hidden"@);
    assert(ack_of(JsonView::Object(answer)) is Some);
}

/// The first consumption of an authentic completion succeeds, of a quit and of a
/// hide alike. The marker names the request and holds the action and the digest,
/// and the proof of this request of this instance is remembered.
pub proof fn law_authentic_completion_is_consumed(
    object: Seq<(Seq<char>, JsonView)>,
    answer: Seq<(Seq<char>, JsonView)>,
    complaint: Seq<char>,
    uid: Seq<char>,
    instance: Seq<char>,
    pid: u32,
    token: Seq<char>,
    action: Seq<char>,
    key: Seq<u8>,
    now: u64,
    proofs: Set<Seq<char>>,
)
    requires
        is_canonical_uuid(uid),
        action == "quit"@ || action == "hide"@,
        is_exact_finish(object, uid, instance, pid, token, action),
        is_signed(object, key),
        is_exact_answer(
            answer,
            object,
            hex_text(sha256(encode_utf8(unsigned_canonical(object)->Ok_0))),
            uid,
            instance,
            action,
            now,
        ),
        !proofs.contains(instance + ":"@ + uid),
    ensures
        ({
            let digest = hex_text(sha256(encode_utf8(unsigned_canonical(object)->Ok_0)));
            let (marker, after) = consume_step(
                Some(Ok(JsonView::Object(object))),
                Some(Ok(JsonView::Object(answer))),
                complaint,
                uid,
                instance,
                pid,
                token,
                action,
                key,
                Ok(now),
                proofs,
            );
            &&& marker is Ok
            &&& marker->Ok_0.name == "completion-"@ + uid + ".json"@
            &&& marker->Ok_0.body == action + ":"@ + digest + "\n"@
            &&& after == proofs.insert(instance + ":"@ + uid)
        }),
{
    law_authentic_completion_is_accepted(
        object,
        answer,
        complaint,
        uid,
        instance,
        pid,
        token,
        action,
        key,
        now,
    );
}

/// Nothing else is accepted: an accepted completion is an exact finish request of
/// this process incarnation, signed under the key, and its acknowledgement says in
/// every field that this request was completed by this instance, for this action
/// and in time.
pub proof fn law_only_an_authentic_completion_is_accepted(
    request: Result<JsonView, Seq<char>>,
    ack: Result<JsonView, Seq<char>>,
    complaint: Seq<char>,
    uid: Seq<char>,
    instance: Seq<char>,
    pid: u32,
    token: Seq<char>,
    action: Seq<char>,
    key: Seq<u8>,
    now: Result<u64, Seq<char>>,
)
    requires
        completion_of(request, ack, complaint, uid, instance, pid, token, action, key, now) is Ok,
    ensures
        request is Ok && request->Ok_0 is Object,
        now is Ok,
        ack is Ok && ack_of(ack->Ok_0) is Some && !holds_null(ack->Ok_0),
        ({
            let object = request->Ok_0->Object_0;
            let answer = ack_of(ack->Ok_0)->0;
            let digest = hex_text(sha256(encode_utf8(unsigned_canonical(object)->Ok_0)));
            &&& is_exact_finish(object, uid, instance, pid, token, action)
            &&& is_signed(object, key)
            &&& completion_of(request, ack, complaint, uid, instance, pid, token, action, key, now)
                == Ok::<Seq<char>, Failure>(digest)
            &&& answer.protocol_version == 1
            &&& answer.uid == uid
            &&& answer.action == "safe_quit"@
            &&& Some(answer.nonce) == text_of(entry(object, "nonce"@))
            &&& answer.ok
            &&& unsigned_of(entry(object, "issued_at"@))->0 <= answer.completed_at
            &&& answer.completed_at <= unsigned_of(entry(object, "expiry"@))->0
            &&& answer.completed_at <= now->Ok_0 + 2
            &&& now->Ok_0 <= unsigned_of(entry(object, "expiry"@))->0
            &&& answer.request_sha256 == digest
            &&& answer.gui_instance == instance
            &&& answer.platform_action == action
            &&& answer.already_hidden is None
        }),
{
}

/// A proof is consumed only for a quit or a hide, of a request with a canonical
/// identifier, whose two documents are there and are accepted.
pub proof fn law_consumed_completion_was_accepted(
    consumed: Option<Result<JsonView, Seq<char>>>,
    ack: Option<Result<JsonView, Seq<char>>>,
    complaint: Seq<char>,
    uid: Seq<char>,
    instance: Seq<char>,
    pid: u32,
    token: Seq<char>,
    action: Seq<char>,
    key: Seq<u8>,
    now: Result<u64, Seq<char>>,
    proofs: Set<Seq<char>>,
)
    requires
        consume_step(
            consumed,
            ack,
            complaint,
            uid,
            instance,
            pid,
            token,
            action,
            key,
            now,
            proofs,
        ).0 is Ok,
    ensures
        is_canonical_uuid(uid),
        action == "quit"@ || action == "hide"@,
        consumed is Some && ack is Some,
        completion_of(
            consumed->0,
            ack->0,
            complaint,
            uid,
            instance,
            pid,
            token,
            action,
            key,
            now,
        ) is Ok,
        !proofs.contains(instance + ":"@ + uid),
{
}

/// An acknowledgement is read field by field under its own names, or in the order
/// of the fields, and in neither case with a field too many.
pub proof fn law_acknowledgement_is_read_by_name_or_place(value: JsonView)
    requires
        ack_of(value) is Some,
    ensures
        ({
            let ack = ack_of(value)->0;
            match value {
                JsonView::Object(entries) => {
                    &&& unsigned_of(entry(entries, "protocol_version"@)) == Some(
                        ack.protocol_version as u64,
                    )
                    &&& text_of(entry(entries, "uid"@)) == Some(ack.uid)
                    &&& text_of(entry(entries, "action"@)) == Some(ack.action)
                    &&& text_of(entry(entries, "nonce"@)) == Some(ack.nonce)
                    &&& entry(entries, "ok"@) == Some(JsonView::Bool(ack.ok))
                    &&& unsigned_of(entry(entries, "completed_at"@)) == Some(ack.completed_at)
                    &&& text_of(entry(entries, "request_sha256"@)) == Some(ack.request_sha256)
                    &&& text_of(entry(entries, "gui_instance"@)) == Some(ack.gui_instance)
                    &&& text_of(entry(entries, "platform_action"@)) == Some(ack.platform_action)
                    &&& ack.already_hidden matches Some(hidden) ==> entry(
                        entries,
                        "already_hidden"@,
                    ) == Some(JsonView::Bool(hidden))
                    &&& forall|i: int|
                        0 <= i < entries.len() ==> {
                            let name = (#[trigger] entries[i]).0;
                            name == "protocol_version"@ || name == "uid"@ || name == "action"@
                                || name == "nonce"@ || name == "ok"@ || name == "completed_at"@
                                || name == "request_sha256"@ || name == "gui_instance"@ || name
                                == "platform_action"@ || name == "already_hidden"@
                        }
                },
                JsonView::Array(items) => {
                    &&& items.len() == 9 || items.len() == 10
                    &&& unsigned_of(Some(items[0])) == Some(ack.protocol_version as u64)
                    &&& text_of(Some(items[1])) == Some(ack.uid)
                    &&& text_of(Some(items[2])) == Some(ack.action)
                    &&& text_of(Some(items[3])) == Some(ack.nonce)
                    &&& items[4] == JsonView::Bool(ack.ok)
                    &&& unsigned_of(Some(items[5])) == Some(ack.completed_at)
                    &&& text_of(Some(items[6])) == Some(ack.request_sha256)
                    &&& text_of(Some(items[7])) == Some(ack.gui_instance)
                    &&& text_of(Some(items[8])) == Some(ack.platform_action)
                },
                _ => false,
            }
        }),
{
}

/// A refused completion says why: the request has no canonical identifier, the
/// action is none of the two, a document is missing, the proof is invalid or the
/// clock is, or the proof was consumed before.
pub proof fn law_refused_completion_says_why(
    consumed: Option<Result<JsonView, Seq<char>>>,
    ack: Option<Result<JsonView, Seq<char>>>,
    complaint: Seq<char>,
    uid: Seq<char>,
    instance: Seq<char>,
    pid: u32,
    token: Seq<char>,
    action: Seq<char>,
    key: Seq<u8>,
    now: Result<u64, Seq<char>>,
    proofs: Set<Seq<char>>,
)
    ensures
        ({
            let (result, after) = consume_step(
                consumed,
                ack,
                complaint,
                uid,
                instance,
                pid,
                token,
                action,
                key,
                now,
                proofs,
            );
            let named = is_canonical_uuid(uid);
            let known = action == "quit"@ || action == "hide"@;
            let there = consumed is Some && ack is Some;
            &&& !named ==> result is Err && result->Err_0.code == "invalid_uid"@
            &&& named && !known ==> result is Err && result->Err_0.code == "completion_action"@
            &&& named && known && !there ==> result is Err && result->Err_0.code
                == "completion_proof_missing"@
            &&& named && known && there ==> {
                let checked = completion_of(
                    consumed->0,
                    ack->0,
                    complaint,
                    uid,
                    instance,
                    pid,
                    token,
                    action,
                    key,
                    now,
                );
                &&& checked is Err ==> result is Err && result->Err_0 == checked->Err_0
                &&& checked is Ok && proofs.contains(instance + ":"@ + uid) ==> result is Err
                    && result->Err_0.code == "completion_replayed"@
                &&& checked is Ok && !proofs.contains(instance + ":"@ + uid) ==> result is Ok
            }
        }),
{
}

/// Documents that prove nothing are refused as an invalid proof, or for an
/// identifier or a clock that cannot be read.
pub proof fn law_invalid_proof_says_so(
    request: Result<JsonView, Seq<char>>,
    ack: Result<JsonView, Seq<char>>,
    complaint: Seq<char>,
    uid: Seq<char>,
    instance: Seq<char>,
    pid: u32,
    token: Seq<char>,
    action: Seq<char>,
    key: Seq<u8>,
    now: Result<u64, Seq<char>>,
)
    ensures
        completion_of(request, ack, complaint, uid, instance, pid, token, action, key, now) matches Err(
            refusal,
        ) ==> refusal.code == "completion_proof_invalid"@ || refusal.code == "invalid_uid"@ || (
        refusal.code == "clock_invalid"@ && now is Err),
{
}

} // verus!
