//! Which tables of a script are read, and which are refused.

use crate::descriptor::{
    publish_field_error, publish_fields, publish_keys_refusal, PublishTable,
};
use crate::launcher::{origin_field_error, origin_fields, origin_keys_refusal, OriginRequest};
use crate::table_schema::{law_schema_is_closed, TableKey};
use vstd::prelude::*;

verus! {

/// The names of the fields of a publication.
pub open spec fn is_publish_field(name: Seq<char>) -> bool {
    ||| name == "state"@
    ||| name == "epoch"@
    ||| name == "backend_instance_uid"@
    ||| name == "boot_nonce"@
    ||| name == "sentinel_window_id"@
    ||| name == "sentinel_tab_id"@
    ||| name == "sentinel_pane_id"@
    ||| name == "sentinel_fallback"@
    ||| name == "recovery_generation"@
    ||| name == "recovery_manifest_id"@
    ||| name == "error"@
}

/// The names of the fields of an origin.
pub open spec fn is_origin_field(name: Seq<char>) -> bool {
    ||| name == "gui_instance"@
    ||| name == "uid"@
    ||| name == "pid"@
    ||| name == "start_token"@
    ||| name == "launcher_request_uid"@
    ||| name == "domain"@
    ||| name == "backend_instance_uid"@
    ||| name == "server_epoch"@
    ||| name == "host_uid"@
    ||| name == "space_uid"@
}

proof fn lemma_publish_fields(name: Seq<char>)
    ensures
        publish_fields().contains(name) <==> is_publish_field(name),
{
    let f = publish_fields();
    assert(f.len() == 11);
    assert(f[0] == "state"@ && f[1] == "epoch"@ && f[2] == "backend_instance_uid"@ && f[3]
        == "boot_nonce"@ && f[4] == "sentinel_window_id"@ && f[5] == "sentinel_tab_id"@ && f[6]
        == "sentinel_pane_id"@ && f[7] == "sentinel_fallback"@ && f[8] == "recovery_generation"@
        && f[9] == "recovery_manifest_id"@ && f[10] == "error"@);
}

proof fn lemma_origin_fields(name: Seq<char>)
    ensures
        origin_fields().contains(name) <==> is_origin_field(name),
{
    let f = origin_fields();
    assert(f.len() == 10);
    assert(f[0] == "gui_instance"@ && f[1] == "uid"@ && f[2] == "pid"@ && f[3] == "start_token"@
        && f[4] == "launcher_request_uid"@ && f[5] == "domain"@ && f[6]
        == "backend_instance_uid"@ && f[7] == "server_epoch"@ && f[8] == "host_uid"@ && f[9]
        == "space_uid"@);
}

/// A publication is refused for its keys exactly where one of them is no text or no
/// field of a publication.
pub proof fn law_publication_has_no_other_field(table: PublishTable)
    ensures
        publish_keys_refusal(table) is None <==> forall|i: int|
            0 <= i < table.keys@.len() ==> (match (#[trigger] table.keys@[i]) {
                TableKey::Text(name) => is_publish_field(name@),
                _ => false,
            }),
{
    let views = table.keys@.map_values(|k: TableKey| k@);
    law_schema_is_closed(
        views,
        publish_fields(),
        "dmux_descriptor_invalid_request: input key is "@,
        " rather than a string"@,
        "dmux_descriptor_invalid_request: unknown publisher field "@,
        ""@,
    );
    assert forall|name: Seq<char>| #[trigger] publish_fields().contains(name)
        <==> is_publish_field(name) by {
        lemma_publish_fields(name);
    }
    assert forall|i: int| 0 <= i < table.keys@.len() implies ((#[trigger] views[i]) is Text
        && publish_fields().contains(views[i]->Text_0) <==> (match table.keys@[i] {
        TableKey::Text(name) => is_publish_field(name@),
        _ => false,
    })) by {}
    if publish_keys_refusal(table) is None {
        assert forall|i: int| 0 <= i < table.keys@.len() implies (match (
        #[trigger] table.keys@[i]) {
            TableKey::Text(name) => is_publish_field(name@),
            _ => false,
        }) by {
            assert(views[i] is Text && publish_fields().contains(views[i]->Text_0));
        }
    }
}

/// A publication is refused for its fields exactly where one of them cannot be
/// read.
pub proof fn law_publication_is_read_in_whole(table: PublishTable)
    ensures
        publish_field_error(table) is None <==> table.state is Ok && table.epoch is Ok
            && table.backend_instance_uid is Ok && table.boot_nonce is Ok
            && table.sentinel_window_id is Ok && table.sentinel_tab_id is Ok
            && table.sentinel_pane_id is Ok && table.sentinel_fallback is Ok
            && table.recovery_generation is Ok && table.recovery_manifest_id is Ok && table.error
            is Ok,
        table.state matches Err(reason) ==> publish_field_error(table) == Some(reason@),
{
}

/// An origin is refused for its keys exactly where one of them is no text or no
/// field of an origin.
pub proof fn law_origin_has_no_other_field(request: OriginRequest)
    ensures
        origin_keys_refusal(request) is None <==> forall|i: int|
            0 <= i < request.keys@.len() ==> (match (#[trigger] request.keys@[i]) {
                TableKey::Text(name) => is_origin_field(name@),
                _ => false,
            }),
{
    let views = request.keys@.map_values(|k: TableKey| k@);
    law_schema_is_closed(
        views,
        origin_fields(),
        "dmux_bridge_launcher_witness_invalid: origin key is "@,
        " rather than a string"@,
        "dmux_bridge_launcher_witness_invalid: unknown origin field "@,
        ""@,
    );
    assert forall|name: Seq<char>| #[trigger] origin_fields().contains(name) <==> is_origin_field(
        name,
    ) by {
        lemma_origin_fields(name);
    }
    assert forall|i: int| 0 <= i < request.keys@.len() implies ((#[trigger] views[i]) is Text
        && origin_fields().contains(views[i]->Text_0) <==> (match request.keys@[i] {
        TableKey::Text(name) => is_origin_field(name@),
        _ => false,
    })) by {}
    if origin_keys_refusal(request) is None {
        assert forall|i: int| 0 <= i < request.keys@.len() implies (match (
        #[trigger] request.keys@[i]) {
            TableKey::Text(name) => is_origin_field(name@),
            _ => false,
        }) by {
            assert(views[i] is Text && origin_fields().contains(views[i]->Text_0));
        }
    }
}

/// An origin is refused for its fields exactly where one of them cannot be read.
pub proof fn law_origin_is_read_in_whole(request: OriginRequest)
    ensures
        origin_field_error(request) is None <==> request.gui_instance is Ok && request.uid is Ok
            && request.pid is Ok && request.start_token is Ok && request.launcher_request_uid is Ok
            && request.domain is Ok && request.backend_instance_uid is Ok && request.server_epoch
            is Ok && request.host_uid is Ok && request.space_uid is Ok,
        request.gui_instance matches Err(reason) ==> origin_field_error(request) == Some(reason@),
{
}

} // verus!
