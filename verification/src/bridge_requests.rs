//! Requests of a GUI instance: handed out in the order of their names, consumed
//! at most once, and discarded only where the very bytes that were handed out
//! are still there.

use crate::bridge_dir::{
    bridge_synced, document_opened, open_document, read_request_for_classification, request_read,
    sync_bridge, MAX_DOCUMENT_BYTES,
};
use crate::bridge_lease::{lease_required, validate_lease_identity, Bridge, BridgeView};
use crate::dialogue::{
    ask_done, is_same_object, must_bytes, must_do, must_done, must_give_bytes, must_stat,
    must_stat_slot, refuse, refuse_io, refused, refused_io, said_done, same_object, steps_of,
    Action, ActionView, FileStat, ObservedRequest, Reply, Run, Slot, Stop, StopView,
};
use crate::failure::{failure, BridgeFsError, Failure, OsErrorKind};
use crate::identifier::{
    refuses, request_name, request_uid, request_uid_from_name, uid_failure, validate_uid,
};
use crate::order::{text_before, text_less};
use crate::private_dir::already_exists;
use crate::text::{decimal, decimal_text, same_bytes, same_text};
use vstd::prelude::*;


verus! {

/// The requests that were handed out and neither consumed nor discarded yet.
#[derive(Debug)]
pub struct ObservedRequests {
    pub entries: Vec<(String, ObservedRequest)>,
}

/// What is known of a request that was handed out.
pub struct ObservedView {
    pub body: Seq<u8>,
    pub length: u64,
}

impl View for ObservedRequest {
    type V = ObservedView;

    open spec fn view(&self) -> ObservedView {
        ObservedView { body: self.body@, length: self.length }
    }
}

/// The requests that a row of entries holds. A later entry counts.
pub open spec fn observed_map(entries: Seq<(String, ObservedRequest)>) -> Map<
    Seq<char>,
    ObservedView,
>
    decreases entries.len(),
{
    if entries.len() == 0 {
        Map::empty()
    } else {
        observed_map(entries.drop_last()).insert(entries.last().0@, entries.last().1@)
    }
}

impl View for ObservedRequests {
    type V = Map<Seq<char>, ObservedView>;

    open spec fn view(&self) -> Map<Seq<char>, ObservedView> {
        observed_map(self.entries@)
    }
}

proof fn lemma_without_name(entries: Seq<(String, ObservedRequest)>, i: int)
    requires
        0 <= i < entries.len(),
        forall|k: int, l: int|
            0 <= k < l < entries.len() ==> (#[trigger] entries[k]).0@ != (#[trigger] entries[l]).0@,
    ensures
        observed_map(entries.remove(i)) == observed_map(entries).remove(entries[i].0@),
        observed_map(entries).contains_key(entries[i].0@),
        observed_map(entries)[entries[i].0@] == entries[i].1@,
    decreases entries.len(),
{
    let last = entries.len() - 1;
    let head = entries.drop_last();
    if i == last {
        assert(entries.remove(i) =~= head);
        lemma_absent(head, entries[i].0@);
        assert(observed_map(entries).remove(entries[i].0@) =~= observed_map(head));
    } else {
        lemma_without_name(head, i);
        assert(entries.remove(i).drop_last() =~= head.remove(i));
        assert(entries.remove(i).last() == entries.last());
        assert(entries[i].0@ != entries[last].0@);
        assert(observed_map(entries.remove(i)) =~= observed_map(entries).remove(entries[i].0@));
    }
}

proof fn lemma_absent(entries: Seq<(String, ObservedRequest)>, uid: Seq<char>)
    requires
        forall|k: int| 0 <= k < entries.len() ==> (#[trigger] entries[k]).0@ != uid,
    ensures
        !observed_map(entries).contains_key(uid),
    decreases entries.len(),
{
    if entries.len() > 0 {
        assert(entries[entries.len() - 1].0@ != uid);
        assert forall|k: int| 0 <= k < entries.drop_last().len() implies (
        #[trigger] entries.drop_last()[k]).0@ != uid by {
            assert(entries.drop_last()[k] == entries[k]);
        }
        lemma_absent(entries.drop_last(), uid);
    }
}

impl ObservedRequests {
    /// Whether no request is listed twice.
    pub open spec fn wf(self) -> bool {
        forall|k: int, l: int|
            0 <= k < l < self.entries@.len() ==> (#[trigger] self.entries@[k]).0@ != (
            #[trigger] self.entries@[l]).0@
    }

    /// No requests.
    pub fn new() -> (requests: Self)
        ensures
            requests.wf(),
            requests@ == Map::<Seq<char>, ObservedView>::empty(),
    {
        ObservedRequests { entries: Vec::new() }
    }

    /// Takes a request out, if it was handed out.
    pub fn take(&mut self, uid: &str) -> (request: Option<ObservedRequest>)
        requires
            old(self).wf(),
        ensures
            final(self).wf(),
            final(self)@ == old(self)@.remove(uid@),
            match request {
                Some(request) => old(self)@.contains_key(uid@) && request@ == old(self)@[uid@],
                None => !old(self)@.contains_key(uid@),
            },
    {
        let mut i: usize = 0;
        while i < self.entries.len()
            invariant
                i <= self.entries@.len(),
                *self == *old(self),
                old(self).wf(),
                forall|k: int| 0 <= k < i ==> (#[trigger] self.entries@[k]).0@ != uid@,
            decreases self.entries@.len() - i,
        {
            if same_text(self.entries[i].0.as_str(), uid) {
                proof {
                    lemma_without_name(self.entries@, i as int);
                }
                let (_uid, request) = self.entries.remove(i);
                return Some(request);
            }
            i += 1;
        }
        proof {
            lemma_absent(self.entries@, uid@);
            assert(self@.remove(uid@) =~= self@);
        }
        None
    }

    /// Remembers a request that was handed out, in the place of an earlier one
    /// with the same identifier.
    pub fn insert(&mut self, uid: String, request: ObservedRequest)
        requires
            old(self).wf(),
        ensures
            final(self).wf(),
            final(self)@ == old(self)@.insert(uid@, request@),
    {
        let ghost before = self@;
        let _earlier = self.take(uid.as_str());
        let ghost kept = self.entries@;
        proof {
            assert forall|k: int| 0 <= k < kept.len() implies (#[trigger] kept[k]).0@ != uid@ by {
                if kept[k].0@ == uid@ {
                    lemma_without_name(kept, k);
                }
            }
        }
        self.entries.push((uid, request));
        proof {
            assert(self.entries@.drop_last() =~= kept);
            assert(before.remove(uid@).insert(uid@, request@) =~= before.insert(uid@, request@));
        }
    }
}

/// A limit for documents, if it is one.
pub open spec fn maximum_failure(maximum: usize) -> Option<Failure> {
    if maximum == 0 || maximum > MAX_DOCUMENT_BYTES {
        Some(
            failure(
                "invalid_limit"@,
                "document limit must be between 1 and "@ + decimal(MAX_DOCUMENT_BYTES as nat),
            ),
        )
    } else {
        None
    }
}

/// Checks a limit for documents.
pub fn validate_maximum(maximum: usize) -> (result: Result<usize, BridgeFsError>)
    ensures
        refuses(result, maximum_failure(maximum)),
        result matches Ok(limit) ==> limit == maximum,
{
    if maximum == 0 || maximum > MAX_DOCUMENT_BYTES {
        return Err(
            BridgeFsError::new(
                "invalid_limit",
                "document limit must be between 1 and ".to_owned().concat(
                    decimal_text(MAX_DOCUMENT_BYTES as u64).as_str(),
                ),
            ),
        );
    }
    Ok(maximum)
}

fn require_maximum(maximum: usize) -> (result: Result<(), Stop>)
    ensures
        match result {
            Ok(()) => maximum_failure(maximum) is None,
            Err(stop) => maximum_failure(maximum) is Some && stop@ == StopView::Refuse(
                maximum_failure(maximum)->0,
            ),
        },
{
    match validate_maximum(maximum) {
        Ok(_) => Ok(()),
        Err(error) => Err(refuse(error.code, error.detail)),
    }
}

fn require_uid(uid: &str) -> (result: Result<(), Stop>)
    ensures
        match result {
            Ok(()) => uid_failure(uid@) is None,
            Err(stop) => uid_failure(uid@) is Some && stop@ == StopView::Refuse(
                uid_failure(uid@)->0,
            ),
        },
{
    match validate_uid(uid) {
        Ok(()) => Ok(()),
        Err(error) => Err(refuse(error.code, error.detail)),
    }
}

/// The least name of a request in a row of names. Names that are no text or no
/// request's do not count.
pub open spec fn least_request(names: Seq<Option<String>>) -> Option<Seq<char>>
    decreases names.len(),
{
    if names.len() == 0 {
        None
    } else {
        let rest = least_request(names.drop_last());
        match names.last() {
            Some(name) => if request_uid(name@) is Some && (rest is None || text_before(
                name@,
                rest->0,
            )) {
                Some(name@)
            } else {
                rest
            },
            None => rest,
        }
    }
}

fn find_least_request(names: &Vec<Option<String>>) -> (least: Option<&String>)
    ensures
        match least {
            Some(name) => least_request(names@) == Some(name@),
            None => least_request(names@) is None,
        },
{
    let mut least: Option<&String> = None;
    let mut i: usize = 0;
    assert(names@.take(0) =~= seq![]);
    while i < names.len()
        invariant
            i <= names@.len(),
            match least {
                Some(name) => least_request(names@.take(i as int)) == Some(name@),
                None => least_request(names@.take(i as int)) is None,
            },
        decreases names@.len() - i,
    {
        assert(names@.take(i + 1).drop_last() =~= names@.take(i as int));
        assert(names@.take(i + 1).last() == names@[i as int]);
        if let Some(name) = &names[i] {
            if request_uid_from_name(name.as_str()).is_some() {
                let better = match least {
                    Some(other) => text_less(name.as_str(), other.as_str()),
                    None => true,
                };
                if better {
                    least = Some(name);
                }
            }
        }
        i += 1;
    }
    assert(names@.take(i as int) =~= names@);
    least
}

/// The least name is the name of a request in the row, and no request in the
/// row has a name before it.
pub proof fn law_requests_are_handed_out_in_order(names: Seq<Option<String>>, i: int)
    requires
        0 <= i < names.len(),
        names[i] is Some,
        request_uid(names[i]->0@) is Some,
    ensures
        least_request(names) is Some,
        request_uid(least_request(names)->0) is Some,
        !text_before(names[i]->0@, least_request(names)->0),
    decreases names.len(),
{
    let head = names.drop_last();
    if i < names.len() - 1 {
        law_requests_are_handed_out_in_order(head, i);
        let rest = least_request(head)->0;
        let last = names.last();
        if last is Some && request_uid(last->0@) is Some && text_before(last->0@, rest) {
            crate::order::lemma_text_before_total(names[i]->0@, rest);
            if text_before(names[i]->0@, last->0@) {
                crate::order::lemma_text_before_transitive(names[i]->0@, last->0@, rest);
            }
        }
    } else {
        let last = names.last()->0@;
        if least_request(head) is Some {
            let rest = least_request(head)->0;
            crate::order::lemma_text_before_total(last, rest);
            lemma_least_is_request(head);
        } else {
            crate::order::lemma_text_before_total(last, last);
        }
    }
}

proof fn lemma_least_is_request(names: Seq<Option<String>>)
    ensures
        least_request(names) is Some ==> request_uid(least_request(names)->0) is Some,
    decreases names.len(),
{
    if names.len() > 0 {
        lemma_least_is_request(names.drop_last());
    }
}

/// A request that is handed out: its identifier, its bytes and its length.
pub struct HandedOut {
    pub uid: Seq<char>,
    pub body: Seq<u8>,
    pub length: u64,
}

/// The request with the least name, if there is one.
pub open spec fn request_next(replies: Seq<Reply>, bridge: BridgeView, maximum: usize) -> Run<
    Option<HandedOut>,
> {
    let dir = bridge.below(Slot::Requests, "requests"@);
    match lease_required(replies, 0, bridge) {
        Err(stop) => Err(stop),
        Ok(at) => match maximum_failure(maximum) {
            Some(refusal) => Err(StopView::Refuse(refusal)),
            None => if at >= replies.len() {
                Err(StopView::Await(ActionView::ListNames { dir: Slot::Requests }))
            } else {
                match replies[at] {
                    Reply::Failed(error) => Err(
                        refused_io("enumerate_failed"@, dir.path, error),
                    ),
                    Reply::Names(names) => match least_request(names@) {
                        None => Ok((None, at + 1)),
                        Some(name) => match request_read(
                            replies,
                            at + 1,
                            dir,
                            name,
                            maximum,
                            bridge.euid,
                        ) {
                            Err(stop) => Err(stop),
                            Ok(((body, length), at)) => Ok(
                                (
                                    Some(
                                        HandedOut { uid: request_uid(name)->0, body, length },
                                    ),
                                    at,
                                ),
                            ),
                        },
                    },
                    _ => Err(StopView::Misfit),
                }
            },
        },
    }
}

/// Hands out the request with the least name.
pub fn next_request<'a>(replies: &'a Vec<Reply>, bridge: &Bridge, maximum: usize) -> (run: Result<
    (Option<(String, &'a Vec<u8>, u64)>, usize),
    Stop,
>)
    ensures
        match (run, request_next(replies@, bridge@, maximum)) {
            (Ok((Some((uid, body, length)), next)), Ok((Some(handed), then))) => uid@ == handed.uid
                && body@ == handed.body && length == handed.length && next == then,
            (Ok((None, next)), Ok((None, then))) => next == then,
            (Err(stop), Err(stopped)) => stop@ == stopped,
            _ => false,
        },
{
    let at = validate_lease_identity(replies, 0, bridge)?;
    require_maximum(maximum)?;
    let dir = bridge.dir_below(Slot::Requests, "requests");
    if at >= replies.len() {
        return Err(Stop::Await(Action::ListNames { dir: Slot::Requests }));
    }
    let names = match &replies[at] {
        Reply::Names(names) => names,
        Reply::Failed(error) => {
            return Err(refuse_io("enumerate_failed", dir.path.as_str(), error));
        },
        _ => {
            return Err(Stop::Misfit);
        },
    };
    let name = match find_least_request(names) {
        Some(name) => name,
        None => {
            return Ok((None, at + 1));
        },
    };
    let (body, length, at) = read_request_for_classification(
        replies,
        at + 1,
        &dir,
        name.as_str(),
        maximum,
        bridge.euid,
    )?;
    proof {
        lemma_least_is_request(names@);
    }
    match request_uid_from_name(name.as_str()) {
        Some(uid) => Ok((Some((uid, body, length)), at)),
        None => Err(Stop::Misfit),
    }
}

/// What was handed out under an identifier, taken out of what was remembered.
pub open spec fn observed_taken(
    replies: Seq<Reply>,
    at: int,
    uid: Seq<char>,
    unobserved: Seq<char>,
) -> Run<ObservedView> {
    if at >= replies.len() {
        Err(StopView::Await(ActionView::TakeObserved { uid }))
    } else {
        match replies[at] {
            Reply::Observed(request) => Ok((request@, at + 1)),
            Reply::Absent => Err(refused("request_unobserved"@, unobserved)),
            _ => Err(StopView::Misfit),
        }
    }
}

fn take_observed<'a>(replies: &'a Vec<Reply>, at: usize, uid: &str, unobserved: &str) -> (run: Result<
    (&'a ObservedRequest, usize),
    Stop,
>)
    ensures
        match (run, observed_taken(replies@, at as int, uid@, unobserved@)) {
            (Ok((request, next)), Ok((view, then))) => request@ == view && next == then,
            (Err(stop), Err(stopped)) => stop@ == stopped,
            _ => false,
        },
{
    if at >= replies.len() {
        return Err(Stop::Await(Action::TakeObserved { uid: uid.to_owned() }));
    }
    match &replies[at] {
        Reply::Observed(request) => Ok((request, at + 1)),
        Reply::Absent => Err(refuse("request_unobserved", unobserved.to_owned())),
        _ => Err(Stop::Misfit),
    }
}

/// Whether a file is the one that was handed out, with the length it had.
pub open spec fn is_observed(observed: FileStat, length: u64, current: FileStat) -> bool {
    same_object(observed, current) && length == current.len
}

/// The request under its name, once it proved to be the file that was handed
/// out: what was handed out, and what the system says of its file.
pub open spec fn source_recognised(
    replies: Seq<Reply>,
    at: int,
    uid: Seq<char>,
    unobserved: Seq<char>,
) -> Run<(ObservedView, FileStat)> {
    let context = "requests/"@ + request_name(uid);
    match observed_taken(replies, at, uid, unobserved) {
        Err(stop) => Err(stop),
        Ok((observed, at)) => match must_stat_slot(
            replies,
            at,
            Slot::Observed,
            "request_changed"@,
            context,
        ) {
            Err(stop) => Err(stop),
            Ok((held, at)) => match must_stat_slot(
                replies,
                at,
                Slot::Source,
                "request_changed"@,
                context,
            ) {
                Err(stop) => Err(stop),
                Ok((current, at)) => if is_observed(held, observed.length, current) {
                    Ok(((observed, held), at))
                } else {
                    Err(
                        refused(
                            "request_changed"@,
                            "request inode changed after next_request"@,
                        ),
                    )
                },
            },
        },
    }
}

fn recognise_source<'a>(replies: &'a Vec<Reply>, at: usize, uid: &str, unobserved: &str) -> (run:
    Result<(&'a ObservedRequest, FileStat, usize), Stop>)
    ensures
        match (run, source_recognised(replies@, at as int, uid@, unobserved@)) {
            (Ok((request, stat, next)), Ok(((view, held), then))) => request@ == view && stat
                == held && next == then,
            (Err(stop), Err(stopped)) => stop@ == stopped,
            _ => false,
        },
{
    let context = "requests/".to_owned().concat(name_of(uid).as_str());
    let (observed, at) = take_observed(replies, at, uid, unobserved)?;
    let (held, at) = must_stat(
        replies,
        at,
        Slot::Observed,
        "request_changed",
        context.as_str(),
    )?;
    let (current, at) = must_stat(
        replies,
        at,
        Slot::Source,
        "request_changed",
        context.as_str(),
    )?;
    if !is_same_object(&held, &current) || observed.length != current.len {
        return Err(
            refuse("request_changed", "request inode changed after next_request".to_owned()),
        );
    }
    Ok((observed, held, at))
}

fn name_of(uid: &str) -> (name: String)
    ensures
        name@ == request_name(uid@),
{
    "req-".to_owned().concat(uid).concat(".json")
}

/// The file that was handed out, once it proved to hold the same bytes.
pub open spec fn body_recognised(
    replies: Seq<Reply>,
    at: int,
    body: Seq<u8>,
    context: Seq<char>,
) -> Result<int, StopView> {
    match must_do(
        replies,
        at,
        ActionView::Rewind { slot: Slot::Observed },
        "request_changed"@,
        context,
    ) {
        Err(stop) => Err(stop),
        Ok(at) => match must_give_bytes(
            replies,
            at,
            ActionView::Read { slot: Slot::Observed, limit: body.len() as u64 },
            "request_changed"@,
            context,
        ) {
            Err(stop) => Err(stop),
            Ok((current, at)) => if current == body {
                Ok(at)
            } else {
                Err(
                    refused(
                        "request_changed"@,
                        "request bytes changed after next_request"@,
                    ),
                )
            },
        },
    }
}

fn recognise_body(replies: &Vec<Reply>, at: usize, body: &Vec<u8>, context: &str) -> (run: Result<
    usize,
    Stop,
>)
    ensures
        steps_of(run) == body_recognised(replies@, at as int, body@, context@),
{
    let at = must_done(
        replies,
        at,
        Action::Rewind { slot: Slot::Observed },
        "request_changed",
        context,
    )?;
    let (current, at) = must_bytes(
        replies,
        at,
        Action::Read { slot: Slot::Observed, limit: body.len() as u64 },
        "request_changed",
        context,
    )?;
    if !same_bytes(current.as_slice(), body.as_slice()) {
        return Err(
            refuse("request_changed", "request bytes changed after next_request".to_owned()),
        );
    }
    Ok(at)
}

/// The refusal of a request that was consumed before.
pub open spec fn already_consumed(name: Seq<char>) -> StopView {
    refused(
        "already_consumed"@,
        "consumed/"@ + name + " already exists; refusing to replace replay evidence"@,
    )
}

fn refuse_consumed(name: &str) -> (stop: Stop)
    ensures
        stop@ == already_consumed(name@),
{
    refuse(
        "already_consumed",
        "consumed/".to_owned().concat(name).concat(
            " already exists; refusing to replace replay evidence",
        ),
    )
}

/// A request, moved to the consumed ones without taking the place of another.
pub open spec fn request_moved(replies: Seq<Reply>, at: int, bridge: BridgeView, name: Seq<char>) -> Result<
    int,
    StopView,
> {
    let consumed = bridge.below(Slot::Consumed, "consumed"@);
    match said_done(
        replies,
        at,
        ActionView::RenameNoReplace {
            from_dir: Slot::Requests,
            from: name,
            to_dir: Slot::Consumed,
            to: name,
        },
    ) {
        Err(stop) => Err(stop),
        Ok((Ok(()), at)) => Ok(at),
        Ok((Err(error), at)) => if error.kind == OsErrorKind::AlreadyExists {
            match document_opened(
                replies,
                at,
                consumed,
                name,
                Slot::Destination,
                bridge.euid,
            ) {
                Err(stop) => Err(stop),
                Ok(_) => Err(already_consumed(name)),
            }
        } else {
            Err(
                refused_io(
                    "consume_failed"@,
                    "requests/"@ + name + " -> consumed/"@ + name,
                    error,
                ),
            )
        },
    }
}

fn move_request(replies: &Vec<Reply>, at: usize, bridge: &Bridge, name: &str) -> (run: Result<
    usize,
    Stop,
>)
    ensures
        steps_of(run) == request_moved(replies@, at as int, bridge@, name@),
{
    let (moved, at) = ask_done(
        replies,
        at,
        Action::RenameNoReplace {
            from_dir: Slot::Requests,
            from: name.to_owned(),
            to_dir: Slot::Consumed,
            to: name.to_owned(),
        },
    )?;
    match moved {
        Ok(()) => Ok(at),
        Err(error) => {
            if already_exists(error.kind) {
                let consumed = bridge.dir_below(Slot::Consumed, "consumed");
                let (_found, _at) = open_document(
                    replies,
                    at,
                    &consumed,
                    name,
                    Slot::Destination,
                    bridge.euid,
                )?;
                return Err(refuse_consumed(name));
            }
            let context = "requests/".to_owned().concat(name).concat(" -> consumed/").concat(name);
            Err(refuse_io("consume_failed", context.as_str(), error))
        },
    }
}

/// The consumed request, once it proved to be the file that was handed out and
/// to hold the same bytes.
pub open spec fn consumed_recognised(
    replies: Seq<Reply>,
    at: int,
    bridge: BridgeView,
    name: Seq<char>,
    observed: ObservedView,
    held: FileStat,
) -> Result<int, StopView> {
    let consumed = bridge.below(Slot::Consumed, "consumed"@);
    let context = "consumed/"@ + name;
    match document_opened(replies, at, consumed, name, Slot::Destination, bridge.euid) {
        Err(stop) => Err(stop),
        Ok((false, _)) => Err(refused("consume_failed"@, "consumed request is absent"@)),
        Ok((true, at)) => match must_stat_slot(
            replies,
            at,
            Slot::Destination,
            "consume_failed"@,
            context,
        ) {
            Err(stop) => Err(stop),
            Ok((moved, at)) => if !is_observed(held, observed.length, moved) {
                Err(
                    refused(
                        "request_changed"@,
                        "atomic consume moved a different request inode"@,
                    ),
                )
            } else {
                body_recognised(replies, at, observed.body, context)
            },
        },
    }
}

fn recognise_consumed(
    replies: &Vec<Reply>,
    at: usize,
    bridge: &Bridge,
    name: &str,
    observed: &ObservedRequest,
    held: &FileStat,
) -> (run: Result<usize, Stop>)
    ensures
        steps_of(run) == consumed_recognised(
            replies@,
            at as int,
            bridge@,
            name@,
            observed@,
            *held,
        ),
{
    let consumed = bridge.dir_below(Slot::Consumed, "consumed");
    let context = "consumed/".to_owned().concat(name);
    let (found, at) = open_document(
        replies,
        at,
        &consumed,
        name,
        Slot::Destination,
        bridge.euid,
    )?;
    if !found {
        return Err(refuse("consume_failed", "consumed request is absent".to_owned()));
    }
    let (moved, at) = must_stat(
        replies,
        at,
        Slot::Destination,
        "consume_failed",
        context.as_str(),
    )?;
    if !is_same_object(held, &moved) || observed.length != moved.len {
        return Err(
            refuse(
                "request_changed",
                "atomic consume moved a different request inode".to_owned(),
            ),
        );
    }
    recognise_body(replies, at, &observed.body, context.as_str())
}

/// A request that is there, under its lease and its name.
pub open spec fn source_opened(replies: Seq<Reply>, bridge: BridgeView, uid: Seq<char>) -> Result<
    int,
    StopView,
> {
    let name = request_name(uid);
    match lease_required(replies, 0, bridge) {
        Err(stop) => Err(stop),
        Ok(at) => match uid_failure(uid) {
            Some(refusal) => Err(StopView::Refuse(refusal)),
            None => match document_opened(
                replies,
                at,
                bridge.below(Slot::Requests, "requests"@),
                name,
                Slot::Source,
                bridge.euid,
            ) {
                Err(stop) => Err(stop),
                Ok((false, _)) => Err(refused("request_disappeared"@, name + " is absent"@)),
                Ok((true, at)) => Ok(at),
            },
        },
    }
}

fn open_source(replies: &Vec<Reply>, bridge: &Bridge, uid: &str) -> (run: Result<usize, Stop>)
    ensures
        steps_of(run) == source_opened(replies@, bridge@, uid@),
{
    let at = validate_lease_identity(replies, 0, bridge)?;
    require_uid(uid)?;
    let name = name_of(uid);
    let requests = bridge.dir_below(Slot::Requests, "requests");
    let (found, at) = open_document(
        replies,
        at,
        &requests,
        name.as_str(),
        Slot::Source,
        bridge.euid,
    )?;
    if !found {
        return Err(refuse("request_disappeared", name.concat(" is absent")));
    }
    Ok(at)
}

/// A request, consumed: moved out of the requests, proved to be the very file
/// that was handed out, and durable on both sides.
pub open spec fn request_consumed(replies: Seq<Reply>, bridge: BridgeView, uid: Seq<char>) -> Result<
    int,
    StopView,
> {
    let name = request_name(uid);
    match source_opened(replies, bridge, uid) {
        Err(stop) => Err(stop),
        Ok(at) => match document_opened(
            replies,
            at,
            bridge.below(Slot::Consumed, "consumed"@),
            name,
            Slot::Destination,
            bridge.euid,
        ) {
            Err(stop) => Err(stop),
            Ok((true, _)) => Err(already_consumed(name)),
            Ok((false, at)) => match source_recognised(
                replies,
                at,
                uid,
                "consume_request_new requires bytes returned by next_request on this handle"@,
            ) {
                Err(stop) => Err(stop),
                Ok(((observed, held), at)) => match request_moved(replies, at, bridge, name) {
                    Err(stop) => Err(stop),
                    Ok(at) => match consumed_recognised(
                        replies,
                        at,
                        bridge,
                        name,
                        observed,
                        held,
                    ) {
                        Err(stop) => Err(stop),
                        Ok(at) => match bridge_synced(replies, at, Slot::Requests) {
                            Err(stop) => Err(stop),
                            Ok(at) => bridge_synced(replies, at, Slot::Consumed),
                        },
                    },
                },
            },
        },
    }
}

/// Consumes a request that was handed out.
pub fn consume_request_new(replies: &Vec<Reply>, bridge: &Bridge, uid: &str) -> (run: Result<
    usize,
    Stop,
>)
    ensures
        steps_of(run) == request_consumed(replies@, bridge@, uid@),
{
    let at = open_source(replies, bridge, uid)?;
    let name = name_of(uid);
    let consumed = bridge.dir_below(Slot::Consumed, "consumed");
    let (taken, at) = open_document(
        replies,
        at,
        &consumed,
        name.as_str(),
        Slot::Destination,
        bridge.euid,
    )?;
    if taken {
        return Err(refuse_consumed(name.as_str()));
    }
    let (observed, held, at) = recognise_source(
        replies,
        at,
        uid,
        "consume_request_new requires bytes returned by next_request on this handle",
    )?;
    let at = move_request(replies, at, bridge, name.as_str())?;
    let at = recognise_consumed(replies, at, bridge, name.as_str(), observed, &held)?;
    let at = sync_bridge(replies, at, Slot::Requests)?;
    sync_bridge(replies, at, Slot::Consumed)
}

/// A request, discarded: only the very file that was handed out, with the very
/// bytes, loses its name.
pub open spec fn request_discarded(replies: Seq<Reply>, bridge: BridgeView, uid: Seq<char>) -> Result<
    int,
    StopView,
> {
    let name = request_name(uid);
    let context = "requests/"@ + name;
    match source_opened(replies, bridge, uid) {
        Err(stop) => Err(stop),
        Ok(at) => match source_recognised(
            replies,
            at,
            uid,
            "discard_observed_request requires bytes returned by next_request"@,
        ) {
            Err(stop) => Err(stop),
            Ok(((observed, held), at)) => match body_recognised(
                replies,
                at,
                observed.body,
                context,
            ) {
                Err(stop) => Err(stop),
                Ok(at) => match must_do(
                    replies,
                    at,
                    ActionView::Unlink { dir: Slot::Requests, name },
                    "discard_failed"@,
                    context,
                ) {
                    Err(stop) => Err(stop),
                    Ok(at) => match must_stat_slot(
                        replies,
                        at,
                        Slot::Observed,
                        "discard_failed"@,
                        context,
                    ) {
                        Err(stop) => Err(stop),
                        Ok((after, at)) => if after.nlink != 0 {
                            Err(
                                refused(
                                    "request_changed"@,
                                    "discard removed a different request inode"@,
                                ),
                            )
                        } else {
                            bridge_synced(replies, at, Slot::Requests)
                        },
                    },
                },
            },
        },
    }
}

/// Discards a request that was handed out and is acknowledged already.
pub fn discard_observed_request(replies: &Vec<Reply>, bridge: &Bridge, uid: &str) -> (run: Result<
    usize,
    Stop,
>)
    ensures
        steps_of(run) == request_discarded(replies@, bridge@, uid@),
{
    let at = open_source(replies, bridge, uid)?;
    let name = name_of(uid);
    let context = "requests/".to_owned().concat(name.as_str());
    let (observed, _held, at) = recognise_source(
        replies,
        at,
        uid,
        "discard_observed_request requires bytes returned by next_request",
    )?;
    let at = recognise_body(replies, at, &observed.body, context.as_str())?;
    let at = must_done(
        replies,
        at,
        Action::Unlink { dir: Slot::Requests, name },
        "discard_failed",
        context.as_str(),
    )?;
    let (after, at) = must_stat(
        replies,
        at,
        Slot::Observed,
        "discard_failed",
        context.as_str(),
    )?;
    if after.nlink != 0 {
        return Err(
            refuse("request_changed", "discard removed a different request inode".to_owned()),
        );
    }
    sync_bridge(replies, at, Slot::Requests)
}

/// Whether some request was taken as handed out in the course of a dialogue,
/// and the system then described a file with the length it had.
pub open spec fn was_handed_out(replies: Seq<Reply>) -> bool {
    exists|i: int, j: int|
        0 <= i < j < replies.len() && (#[trigger] replies[i]) is Observed && (#[trigger] replies[j])
            is Stat && replies[i]->Observed_0.length == replies[j]->Stat_0.len
}

/// Consuming removes no name and replaces no file, whatever the system answers,
/// and a request is moved only after its file was recognised as the one that
/// was handed out.
pub proof fn law_consuming_replaces_nothing(
    replies: Seq<Reply>,
    bridge: BridgeView,
    uid: Seq<char>,
)
    ensures
        request_consumed(replies, bridge, uid) matches Err(StopView::Await(action)) ==> {
            &&& !(action is Unlink)
            &&& !(action is RenameReplace)
            &&& !(action is Truncate)
            &&& action is RenameNoReplace ==> was_handed_out(replies)
        },
{
    lemma_moved_was_handed_out(replies, bridge, uid);
}

proof fn lemma_moved_was_handed_out(replies: Seq<Reply>, bridge: BridgeView, uid: Seq<char>)
    ensures
        request_consumed(replies, bridge, uid) matches Err(StopView::Await(action)) ==> (action
            is RenameNoReplace ==> was_handed_out(replies)),
{
    if let Ok(at) = source_opened(replies, bridge, uid) {
        assert(0 <= at);
        if let Ok((false, at)) = document_opened(
            replies,
            at,
            bridge.below(Slot::Consumed, "consumed"@),
            request_name(uid),
            Slot::Destination,
            bridge.euid,
        ) {
            assert(0 <= at);
            if source_recognised(
                replies,
                at,
                uid,
                "consume_request_new requires bytes returned by next_request on this handle"@,
            ) is Ok {
                assert(replies[at] is Observed);
                assert(replies[at + 2] is Stat);
            }
        }
    }
}

/// Discarding removes only the name of the request, and only after the bytes of
/// the file were read back and found to be those that were handed out.
pub proof fn law_discarding_is_exact(replies: Seq<Reply>, bridge: BridgeView, uid: Seq<char>)
    ensures
        request_discarded(replies, bridge, uid) matches Err(StopView::Await(action)) ==> {
            &&& !(action is RenameReplace)
            &&& !(action is RenameNoReplace)
            &&& !(action is Truncate)
            &&& action matches ActionView::Unlink { dir, name } ==> dir == Slot::Requests && name
                == request_name(uid) && exists|i: int, j: int|
                0 <= i < j < replies.len() && (#[trigger] replies[i]) is Observed && (
                #[trigger] replies[j]) is Bytes && replies[i]->Observed_0.body@
                    == replies[j]->Bytes_0@
        },
{
    if let Ok(at) = source_opened(replies, bridge, uid) {
        assert(0 <= at);
        if let Ok(((observed, held), next)) = source_recognised(
            replies,
            at,
            uid,
            "discard_observed_request requires bytes returned by next_request"@,
        ) {
            if body_recognised(replies, next, observed.body, "requests/"@ + request_name(uid))
                is Ok {
                assert(replies[at] is Observed);
                assert(replies[next + 1] is Bytes);
            }
        }
    }
}

} // verus!
