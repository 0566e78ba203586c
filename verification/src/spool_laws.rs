//! What the operations of a bridge come to below directories that nobody else
//! disturbs: an acknowledgement is written once and read as it was written.

use crate::bridge_dir::{
    document_confirmed, document_created, document_linked, document_opened, document_read,
    new_document_written, temporary_document,
};
use crate::bridge_documents::{
    ack_name, ack_read, ack_written, consumed_read, uid_document_read,
};
use crate::bridge_file_laws::{
    law_document_is_read_as_it_stands, law_document_is_written_once, law_new_document_stands,
    law_undisturbed_document_is_read,
};
use crate::bridge_lease::{lease_required, BridgeView, LEASE_FILE};
use crate::bridge_requests::{
    consumed_recognised, maximum_failure, request_consumed, request_moved, source_recognised,
    ObservedView,
};
use crate::dialogue::{Access, ActionView, FileStat, Reply, Slot, StopView};
use crate::file_model::{
    answered, answers, lemma_played_on, played, run_later, steps_later, Files,
};
use crate::identifier::{is_component, request_name, uid_failure};
use crate::private_dir::DirView;
use crate::service_file_laws::{goes_well, undisturbed};
use vstd::prelude::*;

verus! {

proof fn lemma_opened_later(
    replies: Seq<Reply>,
    at: int,
    next: int,
    dir: DirView,
    name: Seq<char>,
    into: Slot,
    euid: u32,
)
    requires
        0 <= at <= replies.len(),
        0 <= next,
    ensures
        run_later(
            document_opened(replies, at + next, dir, name, into, euid),
            document_opened(replies.skip(at), next, dir, name, into, euid),
            at,
        ),
{
}

proof fn lemma_created_later(
    replies: Seq<Reply>,
    at: int,
    next: int,
    dir: DirView,
    name: Seq<char>,
    bytes: Seq<u8>,
    euid: u32,
)
    requires
        0 <= at <= replies.len(),
        0 <= next,
    ensures
        steps_later(
            document_created(replies, at + next, dir, name, bytes, euid),
            document_created(replies.skip(at), next, dir, name, bytes, euid),
            at,
        ),
{
}

proof fn lemma_linked_later(
    replies: Seq<Reply>,
    at: int,
    next: int,
    dir: DirView,
    temporary: Seq<char>,
    name: Seq<char>,
    euid: u32,
)
    requires
        0 <= at <= replies.len(),
        0 <= next,
    ensures
        steps_later(
            document_linked(replies, at + next, dir, temporary, name, euid),
            document_linked(replies.skip(at), next, dir, temporary, name, euid),
            at,
        ),
{
}

proof fn lemma_confirmed_later(
    replies: Seq<Reply>,
    at: int,
    next: int,
    dir: DirView,
    name: Seq<char>,
    euid: u32,
)
    requires
        0 <= at <= replies.len(),
        0 <= next,
    ensures
        steps_later(
            document_confirmed(replies, at + next, dir, name, euid),
            document_confirmed(replies.skip(at), next, dir, name, euid),
            at,
        ),
{
}

/// Writing a new document does not look at what was answered before.
proof fn lemma_new_document_later(
    replies: Seq<Reply>,
    at: int,
    dir: DirView,
    name: Seq<char>,
    bytes: Seq<u8>,
    euid: u32,
)
    requires
        0 <= at <= replies.len(),
    ensures
        steps_later(
            new_document_written(replies, at, dir, name, bytes, euid),
            new_document_written(replies.skip(at), 0, dir, name, bytes, euid),
            at,
        ),
{
    let tail = replies.skip(at);
    lemma_opened_later(replies, at, 0, dir, name, Slot::Existing, euid);
    if let Ok((false, next)) = document_opened(tail, 0, dir, name, Slot::Existing, euid) {
        if next < tail.len() && tail[next] is Text {
            assert(tail[next] == replies[at + next]);
            let temporary = temporary_document(tail[next]->Text_0@);
            lemma_created_later(replies, at, next + 1, dir, temporary, bytes, euid);
            if let Ok(then) = document_created(tail, next + 1, dir, temporary, bytes, euid) {
                lemma_linked_later(replies, at, then, dir, temporary, name, euid);
                if let Ok(last) = document_linked(tail, then, dir, temporary, name, euid) {
                    lemma_confirmed_later(replies, at, last, dir, name, euid);
                }
            }
        }
    }
}

/// Reading a document does not look at what was answered before.
proof fn lemma_read_later(
    replies: Seq<Reply>,
    at: int,
    dir: DirView,
    name: Seq<char>,
    maximum: usize,
    euid: u32,
)
    requires
        0 <= at <= replies.len(),
    ensures
        run_later(
            document_read(replies, at, dir, name, maximum, euid),
            document_read(replies.skip(at), 0, dir, name, maximum, euid),
            at,
        ),
{
    lemma_opened_later(replies, at, 0, dir, name, Slot::Reading, euid);
}

/// What proving the lease asks for, one thing after the other, where it succeeds.
pub open spec fn lease_asks() -> Seq<ActionView> {
    seq![
        ActionView::Stat { slot: Slot::Lease },
        ActionView::OpenFile {
            dir: Slot::Instance,
            name: LEASE_FILE@,
            access: Access::Read,
            into: Slot::CurrentLease,
        },
        ActionView::Stat { slot: Slot::CurrentLease },
        ActionView::Stat { slot: Slot::Lease },
        ActionView::Stat { slot: Slot::CurrentLease },
        ActionView::OpenFile {
            dir: Slot::Instance,
            name: LEASE_FILE@,
            access: Access::Read,
            into: Slot::Reading,
        },
        ActionView::Stat { slot: Slot::Reading },
        ActionView::Stat { slot: Slot::Reading },
        ActionView::ReadAll { slot: Slot::Reading },
    ]
}

proof fn lemma_lease_asks(replies: Seq<Reply>, bridge: BridgeView, k: int)
    requires
        lease_required(replies, 0, bridge) is Ok,
        0 <= k <= replies.len(),
    ensures
        lease_required(replies, 0, bridge) == Ok::<int, StopView>(9),
        replies.len() >= 9,
        lease_required(replies.take(k), 0, bridge) == (if k < 9 {
            Err::<int, StopView>(StopView::Await(lease_asks()[k]))
        } else {
            Ok(9)
        }),
{
    let dir = bridge.dir();
    let before = replies.take(k);
    assert(document_opened(replies, 1, dir, LEASE_FILE@, Slot::CurrentLease, bridge.euid) == Ok::<
        (bool, int),
        StopView,
    >((true, 3)));
    assert(document_read(replies, 5, dir, LEASE_FILE@, 1024, bridge.euid) matches Ok((Some(_), next))
        && next == 9);
    if k >= 3 {
        assert(document_opened(before, 1, dir, LEASE_FILE@, Slot::CurrentLease, bridge.euid)
            == Ok::<(bool, int), StopView>((true, 3)));
    }
    if k >= 9 {
        assert(document_read(before, 5, dir, LEASE_FILE@, 1024, bridge.euid) == document_read(
            replies,
            5,
            dir,
            LEASE_FILE@,
            1024,
            bridge.euid,
        ));
    }
}

/// Proving the lease changes no file.
proof fn lemma_lease_changes_nothing<V>(
    operation: spec_fn(Seq<Reply>) -> Result<V, StopView>,
    replies: Seq<Reply>,
    files: Seq<Files>,
)
    requires
        played(operation, replies, files),
        replies.len() >= 9,
        forall|k: int|
            0 <= k < 9 ==> operation(#[trigger] replies.take(k)) == Err::<V, StopView>(
                StopView::Await(lease_asks()[k]),
            ),
    ensures
        files[9].names == files[0].names,
        files[9].contents == files[0].contents,
        files[9].wf(),
{
    reveal(answers);
    assert(answered(operation(replies.take(0)), files[0], replies[0], files[1]));
    assert(answered(operation(replies.take(1)), files[1], replies[1], files[2]));
    assert(answered(operation(replies.take(2)), files[2], replies[2], files[3]));
    assert(answered(operation(replies.take(3)), files[3], replies[3], files[4]));
    assert(answered(operation(replies.take(4)), files[4], replies[4], files[5]));
    assert(answered(operation(replies.take(5)), files[5], replies[5], files[6]));
    assert(answered(operation(replies.take(6)), files[6], replies[6], files[7]));
    assert(answered(operation(replies.take(7)), files[7], replies[7], files[8]));
    assert(answered(operation(replies.take(8)), files[8], replies[8], files[9]));
}

/// What was acknowledged stands, whole; nothing was acknowledged there before.
pub proof fn law_acknowledgement_stands(
    replies: Seq<Reply>,
    files: Seq<Files>,
    bridge: BridgeView,
    uid: Seq<char>,
    name: Seq<char>,
    body: Seq<u8>,
)
    requires
        played(|r: Seq<Reply>| ack_written(r, bridge, uid, name, body), replies, files),
        ack_written(replies, bridge, uid, name, body) == Ok::<int, StopView>(
            replies.len() as int,
        ),
    ensures
        !files[0].has(Slot::Acks, name),
        files.last().wf(),
        files.last().has(Slot::Acks, name),
        files.last().holds(Slot::Acks, name) == body,
{
    let whole = |r: Seq<Reply>| ack_written(r, bridge, uid, name, body);
    let dir = bridge.below(Slot::Acks, "acks"@);
    let rest = |r: Seq<Reply>| new_document_written(r, 0, dir, name, body, bridge.euid);
    lemma_lease_asks(replies, bridge, 0);
    assert forall|k: int| 0 <= k < 9 implies whole(#[trigger] replies.take(k)) == Err::<
        int,
        StopView,
    >(StopView::Await(lease_asks()[k])) by {
        lemma_lease_asks(replies, bridge, k);
    }
    lemma_lease_changes_nothing(whole, replies, files);
    assert forall|k: int| 9 <= k < replies.len() implies (whole(#[trigger] replies.take(k)) matches Err(
        stop,
    ) ==> rest(replies.take(k).skip(9)) == Err::<int, StopView>(stop)) by {
        lemma_lease_asks(replies, bridge, k);
        lemma_new_document_later(replies.take(k), 9, dir, name, body, bridge.euid);
    }
    lemma_played_on(whole, rest, replies, files, 9);
    lemma_new_document_later(replies, 9, dir, name, body, bridge.euid);
    law_new_document_stands(replies.skip(9), files.skip(9), dir, name, body, bridge.euid);
}

/// Where something was acknowledged, nothing else is acknowledged in its place.
pub proof fn law_acknowledged_once(
    replies: Seq<Reply>,
    files: Seq<Files>,
    bridge: BridgeView,
    uid: Seq<char>,
    name: Seq<char>,
    body: Seq<u8>,
)
    requires
        files[0].has(Slot::Acks, name),
        played(|r: Seq<Reply>| ack_written(r, bridge, uid, name, body), replies, files),
    ensures
        ack_written(replies, bridge, uid, name, body) is Err,
{
    if ack_written(replies, bridge, uid, name, body) is Ok {
        let whole = |r: Seq<Reply>| ack_written(r, bridge, uid, name, body);
        let dir = bridge.below(Slot::Acks, "acks"@);
        let rest = |r: Seq<Reply>| new_document_written(r, 0, dir, name, body, bridge.euid);
        lemma_lease_asks(replies, bridge, 0);
        assert forall|k: int| 0 <= k < 9 implies whole(#[trigger] replies.take(k)) == Err::<
            int,
            StopView,
        >(StopView::Await(lease_asks()[k])) by {
            lemma_lease_asks(replies, bridge, k);
        }
        lemma_lease_changes_nothing(whole, replies, files);
        assert forall|k: int| 9 <= k < replies.len() implies (whole(
            #[trigger] replies.take(k),
        ) matches Err(stop) ==> rest(replies.take(k).skip(9)) == Err::<int, StopView>(stop)) by {
            lemma_lease_asks(replies, bridge, k);
            lemma_new_document_later(replies.take(k), 9, dir, name, body, bridge.euid);
        }
        lemma_played_on(whole, rest, replies, files, 9);
        lemma_new_document_later(replies, 9, dir, name, body, bridge.euid);
        law_document_is_written_once(
            replies.skip(9),
            files.skip(9),
            dir,
            name,
            body,
            bridge.euid,
        );
    }
}

/// A document of the bridge is read as it stands.
pub proof fn law_bridge_document_is_read_as_it_stands(
    replies: Seq<Reply>,
    files: Seq<Files>,
    bridge: BridgeView,
    slot: Slot,
    place: Seq<char>,
    uid: Seq<char>,
    name: Seq<char>,
    maximum: usize,
)
    requires
        played(
            |r: Seq<Reply>| uid_document_read(r, 0, bridge, slot, place, uid, name, maximum),
            replies,
            files,
        ),
        uid_document_read(replies, 0, bridge, slot, place, uid, name, maximum) is Ok,
    ensures
        uid_document_read(replies, 0, bridge, slot, place, uid, name, maximum)->Ok_0.0 == (
        if files[0].has(slot, name) {
            Some(files[0].holds(slot, name))
        } else {
            None
        }),
{
    let whole = |r: Seq<Reply>|
        uid_document_read(r, 0, bridge, slot, place, uid, name, maximum);
    let dir = bridge.below(slot, place);
    let rest = |r: Seq<Reply>| document_read(r, 0, dir, name, maximum, bridge.euid);
    lemma_lease_asks(replies, bridge, 0);
    assert forall|k: int| 0 <= k < 9 implies whole(#[trigger] replies.take(k)) == Err::<
        (Option<Seq<u8>>, int),
        StopView,
    >(StopView::Await(lease_asks()[k])) by {
        lemma_lease_asks(replies, bridge, k);
    }
    lemma_lease_changes_nothing(whole, replies, files);
    assert forall|k: int| 9 <= k < replies.len() implies (whole(#[trigger] replies.take(k)) matches Err(
        stop,
    ) ==> rest(replies.take(k).skip(9)) == Err::<(Option<Seq<u8>>, int), StopView>(stop)) by {
        lemma_lease_asks(replies, bridge, k);
        lemma_read_later(replies.take(k), 9, dir, name, maximum, bridge.euid);
    }
    lemma_played_on(whole, rest, replies, files, 9);
    lemma_read_later(replies, 9, dir, name, maximum, bridge.euid);
    law_document_is_read_as_it_stands(
        replies.skip(9),
        files.skip(9),
        dir,
        name,
        maximum,
        bridge.euid,
    );
}

/// What was acknowledged is what is read next as the acknowledgement.
pub proof fn law_acknowledgement_is_read(
    written: Seq<Reply>,
    files: Seq<Files>,
    read: Seq<Reply>,
    later: Seq<Files>,
    bridge: BridgeView,
    uid: Seq<char>,
    body: Seq<u8>,
    maximum: usize,
)
    requires
        played(
            |r: Seq<Reply>| ack_written(r, bridge, uid, ack_name(uid), body),
            written,
            files,
        ),
        ack_written(written, bridge, uid, ack_name(uid), body) == Ok::<int, StopView>(
            written.len() as int,
        ),
        later[0] == files.last(),
        played(|r: Seq<Reply>| ack_read(r, 0, bridge, uid, maximum), read, later),
        ack_read(read, 0, bridge, uid, maximum) is Ok,
    ensures
        ack_read(read, 0, bridge, uid, maximum)->Ok_0.0 == Some(body),
{
    law_acknowledgement_stands(written, files, bridge, uid, ack_name(uid), body);
    let reading = |r: Seq<Reply>|
        uid_document_read(r, 0, bridge, Slot::Acks, "acks"@, uid, ack_name(uid), maximum);
    let alike = |r: Seq<Reply>| ack_read(r, 0, bridge, uid, maximum);
    assert(forall|r: Seq<Reply>| #[trigger] alike(r) == reading(r));
    assert(played(reading, read, later));
    law_bridge_document_is_read_as_it_stands(
        read,
        later,
        bridge,
        Slot::Acks,
        "acks"@,
        uid,
        ack_name(uid),
        maximum,
    );
}

/// Whether a reading of a bridge document was played to an end, the lease was
/// proved, and everything that was asked for after that went well.
pub open spec fn undisturbed_bridge_reading(
    replies: Seq<Reply>,
    files: Seq<Files>,
    bridge: BridgeView,
    slot: Slot,
    place: Seq<char>,
    uid: Seq<char>,
    name: Seq<char>,
    maximum: usize,
) -> bool {
    &&& played(
        |r: Seq<Reply>| uid_document_read(r, 0, bridge, slot, place, uid, name, maximum),
        replies,
        files,
    )
    &&& !(uid_document_read(replies, 0, bridge, slot, place, uid, name, maximum) matches Err(
        StopView::Await(_),
    ))
    &&& lease_required(replies, 0, bridge) is Ok
    &&& forall|k: int|
        9 <= k < replies.len() ==> (uid_document_read(
            replies.take(k),
            0,
            bridge,
            slot,
            place,
            uid,
            name,
            maximum,
        ) matches Err(StopView::Await(action)) ==> goes_well(
            action,
            #[trigger] replies[k],
            bridge.euid,
        ))
}

/// A reading of a bridge document goes on, after the lease, as any reading of a
/// document.
proof fn lemma_bridge_reading_goes_on(
    replies: Seq<Reply>,
    files: Seq<Files>,
    bridge: BridgeView,
    slot: Slot,
    place: Seq<char>,
    uid: Seq<char>,
    name: Seq<char>,
    maximum: usize,
)
    requires
        uid_failure(uid) is None,
        maximum_failure(maximum) is None,
        undisturbed_bridge_reading(replies, files, bridge, slot, place, uid, name, maximum),
    ensures
        replies.len() >= 9,
        files[9].names == files[0].names,
        files[9].contents == files[0].contents,
        undisturbed(
            |r: Seq<Reply>|
                document_read(r, 0, bridge.below(slot, place), name, maximum, bridge.euid),
            replies.skip(9),
            files.skip(9),
            bridge.euid,
        ),
{
    let whole = |r: Seq<Reply>|
        uid_document_read(r, 0, bridge, slot, place, uid, name, maximum);
    let dir = bridge.below(slot, place);
    let rest = |r: Seq<Reply>| document_read(r, 0, dir, name, maximum, bridge.euid);
    let tail = replies.skip(9);
    lemma_lease_asks(replies, bridge, 0);
    assert forall|k: int| 0 <= k < 9 implies whole(#[trigger] replies.take(k)) == Err::<
        (Option<Seq<u8>>, int),
        StopView,
    >(StopView::Await(lease_asks()[k])) by {
        lemma_lease_asks(replies, bridge, k);
    }
    lemma_lease_changes_nothing(whole, replies, files);
    assert forall|k: int| 9 <= k < replies.len() implies (whole(#[trigger] replies.take(k)) matches Err(
        stop,
    ) ==> rest(replies.take(k).skip(9)) == Err::<(Option<Seq<u8>>, int), StopView>(stop)) by {
        lemma_lease_asks(replies, bridge, k);
        lemma_read_later(replies.take(k), 9, dir, name, maximum, bridge.euid);
    }
    lemma_played_on(whole, rest, replies, files, 9);
    lemma_read_later(replies, 9, dir, name, maximum, bridge.euid);
    assert forall|k: int| 0 <= k < tail.len() implies (rest(tail.take(k)) matches Err(
        StopView::Await(action),
    ) ==> goes_well(action, #[trigger] tail[k], bridge.euid)) by {
        assert(replies.take(k + 9).skip(9) =~= tail.take(k));
        assert(replies[k + 9] == tail[k]);
        lemma_lease_asks(replies, bridge, k + 9);
        lemma_read_later(replies.take(k + 9), 9, dir, name, maximum, bridge.euid);
    }
    reveal(undisturbed);
}

/// A bridge document that stands is read, where nobody interferes: the lease is
/// held, no answer is a failure, what is described is a private file, and it is not
/// too long.
pub proof fn law_undisturbed_bridge_document_is_read(
    replies: Seq<Reply>,
    files: Seq<Files>,
    bridge: BridgeView,
    slot: Slot,
    place: Seq<char>,
    uid: Seq<char>,
    name: Seq<char>,
    maximum: usize,
)
    requires
        uid_failure(uid) is None,
        maximum_failure(maximum) is None,
        is_component(name),
        undisturbed_bridge_reading(replies, files, bridge, slot, place, uid, name, maximum),
        files[0].has(slot, name),
        files[0].holds(slot, name).len() <= maximum,
    ensures
        uid_document_read(replies, 0, bridge, slot, place, uid, name, maximum) == Ok::<
            (Option<Seq<u8>>, int),
            StopView,
        >((Some(files[0].holds(slot, name)), 13)),
{
    let dir = bridge.below(slot, place);
    lemma_bridge_reading_goes_on(replies, files, bridge, slot, place, uid, name, maximum);
    lemma_lease_asks(replies, bridge, 0);
    lemma_read_later(replies, 9, dir, name, maximum, bridge.euid);
    law_undisturbed_document_is_read(
        replies.skip(9),
        files.skip(9),
        dir,
        name,
        maximum,
        bridge.euid,
    );
}

/// What was acknowledged can be read as the acknowledgement: the next reading
/// succeeds where nobody interferes with it and its limit is no smaller than the
/// body, and gives what was acknowledged.
pub proof fn law_acknowledgement_can_be_read(
    written: Seq<Reply>,
    files: Seq<Files>,
    read: Seq<Reply>,
    later: Seq<Files>,
    bridge: BridgeView,
    uid: Seq<char>,
    body: Seq<u8>,
    maximum: usize,
)
    requires
        played(
            |r: Seq<Reply>| ack_written(r, bridge, uid, ack_name(uid), body),
            written,
            files,
        ),
        ack_written(written, bridge, uid, ack_name(uid), body) == Ok::<int, StopView>(
            written.len() as int,
        ),
        later[0] == files.last(),
        maximum_failure(maximum) is None,
        body.len() <= maximum,
        undisturbed_bridge_reading(
            read,
            later,
            bridge,
            Slot::Acks,
            "acks"@,
            uid,
            ack_name(uid),
            maximum,
        ),
    ensures
        ack_read(read, 0, bridge, uid, maximum) == Ok::<(Option<Seq<u8>>, int), StopView>(
            (Some(body), 13),
        ),
{
    law_acknowledgement_stands(written, files, bridge, uid, ack_name(uid), body);
    assert(uid_failure(uid) is None && is_component(ack_name(uid)));
    law_undisturbed_bridge_document_is_read(
        read,
        later,
        bridge,
        Slot::Acks,
        "acks"@,
        uid,
        ack_name(uid),
        maximum,
    );
}

/// What consuming a request asks for once the lease is proved, one thing after the
/// other, where it succeeds.
pub open spec fn consuming_asks(uid: Seq<char>, name: Seq<char>, limit: u64) -> Seq<ActionView> {
    seq![
        ActionView::OpenFile {
            dir: Slot::Requests,
            name,
            access: Access::Read,
            into: Slot::Source,
        },
        ActionView::Stat { slot: Slot::Source },
        ActionView::OpenFile {
            dir: Slot::Consumed,
            name,
            access: Access::Read,
            into: Slot::Destination,
        },
        ActionView::TakeObserved { uid },
        ActionView::Stat { slot: Slot::Observed },
        ActionView::Stat { slot: Slot::Source },
        ActionView::RenameNoReplace {
            from_dir: Slot::Requests,
            from: name,
            to_dir: Slot::Consumed,
            to: name,
        },
        ActionView::OpenFile {
            dir: Slot::Consumed,
            name,
            access: Access::Read,
            into: Slot::Destination,
        },
        ActionView::Stat { slot: Slot::Destination },
        ActionView::Stat { slot: Slot::Destination },
        ActionView::Rewind { slot: Slot::Observed },
        ActionView::Read { slot: Slot::Observed, limit },
        ActionView::SyncDirectory { slot: Slot::Requests },
        ActionView::SyncDirectory { slot: Slot::Consumed },
    ]
}

proof fn lemma_consuming_asks(replies: Seq<Reply>, bridge: BridgeView, uid: Seq<char>, k: int)
    requires
        request_consumed(replies, bridge, uid) is Ok,
        9 <= k < 23,
    ensures
        request_consumed(replies, bridge, uid) == Ok::<int, StopView>(23),
        lease_required(replies, 0, bridge) is Ok,
        replies.len() >= 23,
        replies[12] is Observed,
        replies[15] is Done,
        request_consumed(replies.take(k), bridge, uid) == Err::<int, StopView>(
            StopView::Await(
                consuming_asks(
                    uid,
                    request_name(uid),
                    replies[12]->Observed_0.body@.len() as u64,
                )[k - 9],
            ),
        ),
{
    let before = replies.take(k);
    let name = request_name(uid);
    let requests = bridge.below(Slot::Requests, "requests"@);
    let consumed = bridge.below(Slot::Consumed, "consumed"@);
    let unobserved =
        "consume_request_new requires bytes returned by next_request on this handle"@;
    lemma_lease_asks(replies, bridge, k);
    let observed = replies[12]->Observed_0@;
    let held = replies[13]->Stat_0;
    assert(document_opened(replies, 9, requests, name, Slot::Source, bridge.euid) == Ok::<
        (bool, int),
        StopView,
    >((true, 11)));
    assert(document_opened(replies, 11, consumed, name, Slot::Destination, bridge.euid) == Ok::<
        (bool, int),
        StopView,
    >((false, 12)));
    assert(source_recognised(replies, 12, uid, unobserved) == Ok::<
        ((ObservedView, FileStat), int),
        StopView,
    >(((observed, held), 15)));
    assert(request_moved(replies, 15, bridge, name) == Ok::<int, StopView>(16));
    assert(consumed_recognised(replies, 16, bridge, name, observed, held) == Ok::<int, StopView>(
        21,
    ));
    if k >= 11 {
        assert(document_opened(before, 9, requests, name, Slot::Source, bridge.euid) == Ok::<
            (bool, int),
            StopView,
        >((true, 11)));
    }
    if k >= 12 {
        assert(document_opened(before, 11, consumed, name, Slot::Destination, bridge.euid) == Ok::<
            (bool, int),
            StopView,
        >((false, 12)));
    }
    if k >= 15 {
        assert(source_recognised(before, 12, uid, unobserved) == Ok::<
            ((ObservedView, FileStat), int),
            StopView,
        >(((observed, held), 15)));
    }
    if k >= 16 {
        assert(request_moved(before, 15, bridge, name) == Ok::<int, StopView>(16));
    }
    if k >= 21 {
        assert(consumed_recognised(before, 16, bridge, name, observed, held) == Ok::<
            int,
            StopView,
        >(21));
    }
}

/// Whether one answer behind the lease was a true one.
spec fn consuming_answer(
    replies: Seq<Reply>,
    files: Seq<Files>,
    asks: Seq<ActionView>,
    k: int,
) -> bool {
    answers(files[9 + k], asks[k], replies[9 + k], files[10 + k])
}

proof fn lemma_consumed_files(
    replies: Seq<Reply>,
    files: Seq<Files>,
    uid: Seq<char>,
    name: Seq<char>,
    limit: u64,
)
    requires
        files[9].wf(),
        forall|k: int|
            0 <= k < 14 ==> #[trigger] consuming_answer(
                replies,
                files,
                consuming_asks(uid, name, limit),
                k,
            ),
        replies[15] is Done,
    ensures
        files[9].has(Slot::Requests, name),
        !files[9].has(Slot::Consumed, name),
        files[23].wf(),
        files[23].names == files[9].renamed(
            (Slot::Requests, name),
            (Slot::Consumed, name),
        ).names,
        files[23].contents == files[9].contents,
{
    reveal(answers);
    let asks = consuming_asks(uid, name, limit);
    assert(consuming_answer(replies, files, asks, 0));
    assert(consuming_answer(replies, files, asks, 1));
    assert(consuming_answer(replies, files, asks, 2));
    assert(consuming_answer(replies, files, asks, 3));
    assert(consuming_answer(replies, files, asks, 4));
    assert(consuming_answer(replies, files, asks, 5));
    assert(consuming_answer(replies, files, asks, 6));
    assert(consuming_answer(replies, files, asks, 7));
    assert(consuming_answer(replies, files, asks, 8));
    assert(consuming_answer(replies, files, asks, 9));
    assert(consuming_answer(replies, files, asks, 10));
    assert(consuming_answer(replies, files, asks, 11));
    assert(consuming_answer(replies, files, asks, 12));
    assert(consuming_answer(replies, files, asks, 13));
}

/// Whether the consuming of a request was played and succeeded.
#[verifier::opaque]
spec fn consuming_played(
    replies: Seq<Reply>,
    files: Seq<Files>,
    bridge: BridgeView,
    uid: Seq<char>,
) -> bool {
    &&& played(|r: Seq<Reply>| request_consumed(r, bridge, uid), replies, files)
    &&& request_consumed(replies, bridge, uid) is Ok
}

/// What was answered to one thing that consuming asks for after the lease.
proof fn lemma_consuming_step(
    replies: Seq<Reply>,
    files: Seq<Files>,
    bridge: BridgeView,
    uid: Seq<char>,
    k: int,
)
    requires
        consuming_played(replies, files, bridge, uid),
        0 <= k < 14,
    ensures
        replies[15] is Done,
        consuming_answer(
            replies,
            files,
            consuming_asks(
                uid,
                request_name(uid),
                replies[12]->Observed_0.body@.len() as u64,
            ),
            k,
        ),
{
    reveal(consuming_played);
    let whole = |r: Seq<Reply>| request_consumed(r, bridge, uid);
    lemma_consuming_asks(replies, bridge, uid, 9 + k);
    assert(answered(
        whole(replies.take(9 + k)),
        files[9 + k],
        replies[9 + k],
        files[9 + k + 1],
    ));
}

/// The lease that consuming proves first changes nothing.
proof fn lemma_consuming_starts(
    replies: Seq<Reply>,
    files: Seq<Files>,
    bridge: BridgeView,
    uid: Seq<char>,
)
    requires
        consuming_played(replies, files, bridge, uid),
    ensures
        request_consumed(replies, bridge, uid) == Ok::<int, StopView>(23),
        files[9].names == files[0].names,
        files[9].contents == files[0].contents,
        files[9].wf(),
{
    reveal(consuming_played);
    let whole = |r: Seq<Reply>| request_consumed(r, bridge, uid);
    lemma_consuming_asks(replies, bridge, uid, 9);
    assert forall|k: int| 0 <= k < 9 implies whole(#[trigger] replies.take(k)) == Err::<
        int,
        StopView,
    >(StopView::Await(lease_asks()[k])) by {
        lemma_lease_asks(replies, bridge, k);
    }
    lemma_lease_changes_nothing(whole, replies, files);
}

/// What consuming a request does to the files.
proof fn lemma_consuming_moves(
    replies: Seq<Reply>,
    files: Seq<Files>,
    bridge: BridgeView,
    uid: Seq<char>,
)
    requires
        consuming_played(replies, files, bridge, uid),
    ensures
        files[0].has(Slot::Requests, request_name(uid)),
        !files[0].has(Slot::Consumed, request_name(uid)),
        files[23].wf(),
        files[23].names == files[0].renamed(
            (Slot::Requests, request_name(uid)),
            (Slot::Consumed, request_name(uid)),
        ).names,
        files[23].contents == files[0].contents,
{
    let limit = replies[12]->Observed_0.body@.len() as u64;
    lemma_consuming_starts(replies, files, bridge, uid);
    lemma_consuming_step(replies, files, bridge, uid, 0);
    assert forall|k: int| 0 <= k < 14 implies #[trigger] consuming_answer(
        replies,
        files,
        consuming_asks(uid, request_name(uid), limit),
        k,
    ) by {
        lemma_consuming_step(replies, files, bridge, uid, k);
    }
    lemma_consumed_files(replies, files, uid, request_name(uid), limit);
}

/// A consumed request stands among the consumed ones as it stood among the
/// requests, where it stands no more. None of its name was consumed before.
pub proof fn law_consumed_request_is_moved(
    replies: Seq<Reply>,
    files: Seq<Files>,
    bridge: BridgeView,
    uid: Seq<char>,
)
    requires
        played(|r: Seq<Reply>| request_consumed(r, bridge, uid), replies, files),
        request_consumed(replies, bridge, uid) == Ok::<int, StopView>(replies.len() as int),
    ensures
        files[0].has(Slot::Requests, request_name(uid)),
        !files[0].has(Slot::Consumed, request_name(uid)),
        files.last().wf(),
        !files.last().has(Slot::Requests, request_name(uid)),
        files.last().has(Slot::Consumed, request_name(uid)),
        files.last().holds(Slot::Consumed, request_name(uid)) == files[0].holds(
            Slot::Requests,
            request_name(uid),
        ),
{
    assert(consuming_played(replies, files, bridge, uid)) by {
        reveal(consuming_played);
    }
    lemma_consuming_starts(replies, files, bridge, uid);
    lemma_consuming_moves(replies, files, bridge, uid);
}

/// What is read next of a consumed request is what stood among the requests.
pub proof fn law_consumed_request_is_read(
    taken: Seq<Reply>,
    files: Seq<Files>,
    read: Seq<Reply>,
    later: Seq<Files>,
    bridge: BridgeView,
    uid: Seq<char>,
    maximum: usize,
)
    requires
        played(|r: Seq<Reply>| request_consumed(r, bridge, uid), taken, files),
        request_consumed(taken, bridge, uid) == Ok::<int, StopView>(taken.len() as int),
        later[0] == files.last(),
        played(|r: Seq<Reply>| consumed_read(r, 0, bridge, uid, maximum), read, later),
        consumed_read(read, 0, bridge, uid, maximum) is Ok,
    ensures
        consumed_read(read, 0, bridge, uid, maximum)->Ok_0.0 == Some(
            files[0].holds(Slot::Requests, request_name(uid)),
        ),
{
    law_consumed_request_is_moved(taken, files, bridge, uid);
    let reading = |r: Seq<Reply>|
        uid_document_read(
            r,
            0,
            bridge,
            Slot::Consumed,
            "consumed"@,
            uid,
            request_name(uid),
            maximum,
        );
    let alike = |r: Seq<Reply>| consumed_read(r, 0, bridge, uid, maximum);
    assert(forall|r: Seq<Reply>| #[trigger] alike(r) == reading(r));
    assert(played(reading, read, later));
    law_bridge_document_is_read_as_it_stands(
        read,
        later,
        bridge,
        Slot::Consumed,
        "consumed"@,
        uid,
        request_name(uid),
        maximum,
    );
}

/// A consumed request can be read: the next reading of it succeeds where nobody
/// interferes with it and its limit is no smaller than the request, and gives what
/// stood among the requests.
pub proof fn law_consumed_request_can_be_read(
    taken: Seq<Reply>,
    files: Seq<Files>,
    read: Seq<Reply>,
    later: Seq<Files>,
    bridge: BridgeView,
    uid: Seq<char>,
    maximum: usize,
)
    requires
        played(|r: Seq<Reply>| request_consumed(r, bridge, uid), taken, files),
        request_consumed(taken, bridge, uid) == Ok::<int, StopView>(taken.len() as int),
        later[0] == files.last(),
        maximum_failure(maximum) is None,
        files[0].holds(Slot::Requests, request_name(uid)).len() <= maximum,
        undisturbed_bridge_reading(
            read,
            later,
            bridge,
            Slot::Consumed,
            "consumed"@,
            uid,
            request_name(uid),
            maximum,
        ),
    ensures
        consumed_read(read, 0, bridge, uid, maximum) == Ok::<(Option<Seq<u8>>, int), StopView>(
            (Some(files[0].holds(Slot::Requests, request_name(uid))), 13),
        ),
{
    law_consumed_request_is_moved(taken, files, bridge, uid);
    assert(uid_failure(uid) is None && is_component(request_name(uid)));
    law_undisturbed_bridge_document_is_read(
        read,
        later,
        bridge,
        Slot::Consumed,
        "consumed"@,
        uid,
        request_name(uid),
        maximum,
    );
}

/// A request whose name was consumed before is not consumed again.
pub proof fn law_request_is_consumed_once(
    replies: Seq<Reply>,
    files: Seq<Files>,
    bridge: BridgeView,
    uid: Seq<char>,
)
    requires
        files[0].has(Slot::Consumed, request_name(uid)),
        played(|r: Seq<Reply>| request_consumed(r, bridge, uid), replies, files),
    ensures
        request_consumed(replies, bridge, uid) is Err,
{
    if request_consumed(replies, bridge, uid) is Ok {
        assert(consuming_played(replies, files, bridge, uid)) by {
            reveal(consuming_played);
        }
        lemma_consuming_moves(replies, files, bridge, uid);
    }
}

} // verus!
