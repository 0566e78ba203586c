//! What publishing and reading the descriptor come to below directories that
//! nobody else disturbs.

use crate::descriptor::{
    identity_failure, is_exact_positive, is_timestamp, outcome_failure, path_text, ready_failure,
    request_failure, sentinel_failure, service_failure, witness_failure, DescriptorView,
    RequestView, DESCRIPTOR_VERSION, MAX_DESCRIPTOR_BYTES,
};
use crate::descriptor_io::{
    decoded, described, descriptor_held, descriptor_published, descriptor_unchanged, encoded,
    only_looks, publisher_socket, service_proved, socket_unchanged, time_written, utc_text, verified,
    PublishedView,
};
use crate::dialogue::{Access, ActionView, FileStat, Reply, Run, Slot, StopView};
use crate::failure::{Failure, OsErrorKind};
use crate::file_model::{
    answered, answers, keeps, lemma_played_on, lemma_played_until, played, run_later, steps_later,
    Files,
};
use crate::identifier::MAX_JSON_INTEGER;
use crate::private_dir::{base_opened, child_opened, file_opened, DirView, RUNTIME_DIR};
use crate::private_files::{
    existing_held, existing_set_aside, installed, one_more, published, read_back,
    runtime_revalidated, temporary_created,
};
use crate::process_identity::{boot_id, start_token, MAX_PID};
use crate::service::{Service, DESCRIPTOR_FILE};
use crate::service_bind::required_witness;
use crate::service_file_laws::{
    law_published_file_stands, lemma_publishing_settles, stands_as_published,
};
use crate::service_socket::{
    became_writable, connected, law_every_wait_has_a_deadline, witnessed, SocketWitness,
};
use vstd::prelude::*;

verus! {

proof fn lemma_existing_later(
    replies: Seq<Reply>,
    at: int,
    next: int,
    dir: DirView,
    name: Seq<char>,
    code: Seq<char>,
    euid: u32,
)
    requires
        0 <= at <= replies.len(),
        0 <= next,
    ensures
        run_later(
            existing_held(replies, at + next, dir, name, code, euid),
            existing_held(replies.skip(at), next, dir, name, code, euid),
            at,
        ),
{
}

proof fn lemma_temporary_later(
    replies: Seq<Reply>,
    at: int,
    next: int,
    dir: DirView,
    bytes: Seq<u8>,
    maximum: usize,
    euid: u32,
)
    requires
        0 <= at <= replies.len(),
        0 <= next,
    ensures
        run_later(
            temporary_created(replies, at + next, dir, bytes, maximum, euid),
            temporary_created(replies.skip(at), next, dir, bytes, maximum, euid),
            at,
        ),
{
}

proof fn lemma_set_aside_later(
    replies: Seq<Reply>,
    at: int,
    next: int,
    dir: DirView,
    name: Seq<char>,
    existing: Option<FileStat>,
    temporary: Seq<char>,
    euid: u32,
)
    requires
        0 <= at <= replies.len(),
        0 <= next,
    ensures
        run_later(
            existing_set_aside(replies, at + next, dir, name, existing, temporary, euid),
            existing_set_aside(replies.skip(at), next, dir, name, existing, temporary, euid),
            at,
        ),
{
}

proof fn lemma_installed_later(
    replies: Seq<Reply>,
    at: int,
    next: int,
    dir: DirView,
    name: Seq<char>,
    temporary: Seq<char>,
    aside: Option<Seq<char>>,
)
    requires
        0 <= at <= replies.len(),
        0 <= next,
    ensures
        steps_later(
            installed(replies, at + next, dir, name, temporary, aside),
            installed(replies.skip(at), next, dir, name, temporary, aside),
            at,
        ),
{
}

proof fn lemma_read_back_later(
    replies: Seq<Reply>,
    at: int,
    next: int,
    dir: DirView,
    name: Seq<char>,
    bytes: Seq<u8>,
    maximum: usize,
    euid: u32,
)
    requires
        0 <= at <= replies.len(),
        0 <= next,
    ensures
        steps_later(
            read_back(replies, at + next, dir, name, bytes, maximum, euid),
            read_back(replies.skip(at), next, dir, name, bytes, maximum, euid),
            at,
        ),
{
}

/// Publishing does not look at what was answered before.
proof fn lemma_published_later(
    replies: Seq<Reply>,
    at: int,
    dir: DirView,
    name: Seq<char>,
    bytes: Seq<u8>,
    maximum: usize,
    euid: u32,
)
    requires
        0 <= at <= replies.len(),
    ensures
        steps_later(
            published(replies, at, dir, name, bytes, maximum, euid),
            published(replies.skip(at), 0, dir, name, bytes, maximum, euid),
            at,
        ),
{
    let tail = replies.skip(at);
    lemma_existing_later(replies, at, 0, dir, name, "publish_failed"@, euid);
    if let Ok((existing, n)) = existing_held(tail, 0, dir, name, "publish_failed"@, euid) {
        lemma_temporary_later(replies, at, n, dir, bytes, maximum, euid);
        if let Ok((temporary, n)) = temporary_created(tail, n, dir, bytes, maximum, euid) {
            lemma_set_aside_later(replies, at, n, dir, name, existing, temporary, euid);
            if let Ok((aside, n)) = existing_set_aside(
                tail,
                n,
                dir,
                name,
                existing,
                temporary,
                euid,
            ) {
                lemma_installed_later(replies, at, n, dir, name, temporary, aside);
                if let Ok(n) = installed(tail, n, dir, name, temporary, aside) {
                    lemma_read_back_later(replies, at, n, dir, name, bytes, maximum, euid);
                }
            }
        }
    }
}

/// Whether a result was the same after fewer answers, where it needed no more.
pub open spec fn settles<T>(whole: Run<T>, early: Run<T>, at: int, k: int) -> bool {
    whole matches Ok((_, next)) ==> at <= next && (next <= k ==> early == whole)
}

/// Whether a result was the same after fewer answers, where it needed no more.
pub open spec fn steps_settle(
    whole: Result<int, StopView>,
    early: Result<int, StopView>,
    at: int,
    k: int,
) -> bool {
    whole matches Ok(next) ==> at <= next && (next <= k ==> early == whole)
}

proof fn lemma_wait_settles(replies: Seq<Reply>, at: int, k: int)
    requires
        0 <= at,
        0 <= k <= replies.len(),
    ensures
        settles(became_writable(replies, at), became_writable(replies.take(k), at), at, k),
    decreases replies.len() - at,
{
    if at + 1 < replies.len() {
        lemma_wait_settles(replies, at + 2, k);
    }
}

proof fn lemma_witness_settles(
    replies: Seq<Reply>,
    at: int,
    service: Service,
    required: bool,
    k: int,
)
    requires
        0 <= at,
        0 <= k <= replies.len(),
    ensures
        settles(
            witnessed(
                replies,
                at,
                service.runtime(),
                service.socket,
                required,
                service.platform,
                service.euid,
            ),
            witnessed(
                replies.take(k),
                at,
                service.runtime(),
                service.socket,
                required,
                service.platform,
                service.euid,
            ),
            at,
            k,
        ),
{
    lemma_wait_settles(replies, at + 5, k);
    assert(settles(
        connected(replies, at + 1, service.socket, service.platform),
        connected(replies.take(k), at + 1, service.socket, service.platform),
        at + 1,
        k,
    ));
}

proof fn lemma_token_settles(replies: Seq<Reply>, at: int, service: Service, k: int)
    requires
        0 <= at,
        0 <= k <= replies.len(),
    ensures
        settles(
            start_token(replies, at, service.platform, service.pid, service.euid),
            start_token(replies.take(k), at, service.platform, service.pid, service.euid),
            at,
            k,
        ),
{
}

proof fn lemma_boot_settles(replies: Seq<Reply>, at: int, service: Service, k: int)
    requires
        0 <= at,
        0 <= k <= replies.len(),
    ensures
        settles(
            boot_id(replies, at, service.platform),
            boot_id(replies.take(k), at, service.platform),
            at,
            k,
        ),
{
}

proof fn lemma_described_settles(
    replies: Seq<Reply>,
    at: int,
    request: RequestView,
    socket: Option<SocketWitness>,
    service: Service,
    k: int,
)
    requires
        0 <= at,
        0 <= k <= replies.len(),
    ensures
        settles(
            described(replies, at, request, socket, service),
            described(replies.take(k), at, request, socket, service),
            at,
            k,
        ),
{
    lemma_token_settles(replies, at, service, k);
    if let Ok((_, n)) = start_token(replies, at, service.platform, service.pid, service.euid) {
        lemma_boot_settles(replies, n, service, k);
    }
}

proof fn lemma_unchanged_settles(
    replies: Seq<Reply>,
    at: int,
    socket: Option<SocketWitness>,
    service: Service,
    missing: Seq<char>,
    changed: Seq<char>,
    k: int,
)
    requires
        0 <= at,
        0 <= k <= replies.len(),
    ensures
        steps_settle(
            socket_unchanged(replies, at, socket, service, missing, changed),
            socket_unchanged(replies.take(k), at, socket, service, missing, changed),
            at,
            k,
        ),
{
    lemma_witness_settles(replies, at, service, true, k);
}

/// What publishing does before it writes: the socket, the descriptor and its
/// bytes.
pub open spec fn prepared(replies: Seq<Reply>, request: RequestView, service: Service) -> Run<
    (Option<SocketWitness>, DescriptorView, Seq<u8>),
> {
    match request_failure(request) {
        Some(refusal) => Err(StopView::Refuse(refusal)),
        None => match publisher_socket(replies, 0, request.state, service) {
            Err(stop) => Err(stop),
            Ok((socket, at)) => match described(replies, at, request, socket, service) {
                Err(stop) => Err(stop),
                Ok((descriptor, at)) => match socket_unchanged(
                    replies,
                    at,
                    socket,
                    service,
                    "fixed socket disappeared before publication"@,
                    "fixed socket identity changed before publication"@,
                ) {
                    Err(stop) => Err(stop),
                    Ok(at) => match encoded(replies, at, descriptor) {
                        Err(stop) => Err(stop),
                        Ok((raw, at)) => Ok(((socket, descriptor, raw), at)),
                    },
                },
            },
        },
    }
}

/// What publishing does after it wrote: it proves the directories and the socket
/// once more.
pub open spec fn confirmed(
    replies: Seq<Reply>,
    at: int,
    socket: Option<SocketWitness>,
    service: Service,
) -> Result<int, StopView> {
    match runtime_revalidated(replies, at, service.base, service.euid) {
        Err(stop) => Err(stop),
        Ok(at) => socket_unchanged(
            replies,
            at,
            socket,
            service,
            "fixed socket disappeared after publication"@,
            "fixed socket identity changed after publication"@,
        ),
    }
}

proof fn lemma_prepared_settles(
    replies: Seq<Reply>,
    request: RequestView,
    service: Service,
    k: int,
)
    requires
        0 <= k <= replies.len(),
    ensures
        settles(
            prepared(replies, request, service),
            prepared(replies.take(k), request, service),
            0,
            k,
        ),
{
    lemma_witness_settles(replies, 0, service, false, k);
    if let Ok((socket, at)) = publisher_socket(replies, 0, request.state, service) {
        lemma_described_settles(replies, at, request, socket, service, k);
        if let Ok((_, at)) = described(replies, at, request, socket, service) {
            lemma_unchanged_settles(
                replies,
                at,
                socket,
                service,
                "fixed socket disappeared before publication"@,
                "fixed socket identity changed before publication"@,
                k,
            );
        }
    }
}

/// The last thing that is prepared are the bytes.
proof fn lemma_prepared_end(replies: Seq<Reply>, request: RequestView, service: Service)
    requires
        prepared(replies, request, service) is Ok,
    ensures
        ({
            let ((_, descriptor, raw), ready) = prepared(replies, request, service)->Ok_0;
            &&& 0 < ready <= replies.len()
            &&& prepared(replies.take(ready - 1), request, service) == Err::<
                ((Option<SocketWitness>, DescriptorView, Seq<u8>), int),
                StopView,
            >(StopView::Await(ActionView::EncodeDescriptor { descriptor }))
            &&& replies[ready - 1] matches Reply::Bytes(bytes) && raw == bytes@.push(10u8)
        }),
{
    let (_, ready) = prepared(replies, request, service)->Ok_0;
    let k = ready - 1;
    lemma_witness_settles(replies, 0, service, false, 0);
    let (socket, first) = publisher_socket(replies, 0, request.state, service)->Ok_0;
    lemma_described_settles(replies, first, request, socket, service, 0);
    let (descriptor, second) = described(replies, first, request, socket, service)->Ok_0;
    lemma_unchanged_settles(
        replies,
        second,
        socket,
        service,
        "fixed socket disappeared before publication"@,
        "fixed socket identity changed before publication"@,
        0,
    );
    assert(0 <= first <= second <= k < replies.len());
    lemma_witness_settles(replies, 0, service, false, k);
    lemma_described_settles(replies, first, request, socket, service, k);
    lemma_unchanged_settles(
        replies,
        second,
        socket,
        service,
        "fixed socket disappeared before publication"@,
        "fixed socket identity changed before publication"@,
        k,
    );
}

/// Publishing, taken as a whole.
#[verifier::opaque]
spec fn publishing(
    replies: Seq<Reply>,
    at: int,
    dir: DirView,
    name: Seq<char>,
    bytes: Seq<u8>,
    maximum: usize,
    euid: u32,
) -> Result<int, StopView> {
    published(replies, at, dir, name, bytes, maximum, euid)
}

proof fn lemma_publishing_later(
    replies: Seq<Reply>,
    at: int,
    dir: DirView,
    name: Seq<char>,
    bytes: Seq<u8>,
    maximum: usize,
    euid: u32,
)
    requires
        0 <= at <= replies.len(),
    ensures
        steps_later(
            publishing(replies, at, dir, name, bytes, maximum, euid),
            publishing(replies.skip(at), 0, dir, name, bytes, maximum, euid),
            at,
        ),
{
    reveal(publishing);
    lemma_published_later(replies, at, dir, name, bytes, maximum, euid);
}

proof fn lemma_publishing_has_an_end(
    replies: Seq<Reply>,
    dir: DirView,
    name: Seq<char>,
    bytes: Seq<u8>,
    maximum: usize,
    euid: u32,
    k: int,
)
    requires
        publishing(replies, 0, dir, name, bytes, maximum, euid) is Ok,
        0 <= k <= replies.len(),
    ensures
        ({
            let end = publishing(replies, 0, dir, name, bytes, maximum, euid)->Ok_0;
            &&& 0 < end <= replies.len()
            &&& k < end ==> publishing(replies.take(k), 0, dir, name, bytes, maximum, euid) is Err
            &&& end <= k ==> publishing(replies.take(k), 0, dir, name, bytes, maximum, euid)
                == Ok::<int, StopView>(end)
        }),
{
    reveal(publishing);
    lemma_publishing_settles(replies, dir, name, bytes, maximum, euid, k);
}

/// Publishing that starts later has no end before its own either, and stays the
/// same after.
proof fn lemma_writing_settles(
    replies: Seq<Reply>,
    at: int,
    dir: DirView,
    name: Seq<char>,
    bytes: Seq<u8>,
    maximum: usize,
    euid: u32,
    end: int,
    k: int,
)
    requires
        publishing(replies, at, dir, name, bytes, maximum, euid) == Ok::<int, StopView>(end),
        0 <= at <= k <= replies.len(),
    ensures
        at < end <= replies.len(),
        k < end ==> publishing(replies.take(k), at, dir, name, bytes, maximum, euid) is Err,
        k < end ==> publishing(replies.take(k), at, dir, name, bytes, maximum, euid) == publishing(
            replies.take(k).skip(at),
            0,
            dir,
            name,
            bytes,
            maximum,
            euid,
        ),
        end <= k ==> publishing(replies.take(k), at, dir, name, bytes, maximum, euid) == Ok::<
            int,
            StopView,
        >(end),
        end <= k ==> publishing(replies.take(k).skip(at), 0, dir, name, bytes, maximum, euid)
            == Ok::<int, StopView>(end - at),
{
    let tail = replies.skip(at);
    lemma_publishing_later(replies, at, dir, name, bytes, maximum, euid);
    lemma_publishing_later(replies.take(k), at, dir, name, bytes, maximum, euid);
    lemma_publishing_has_an_end(tail, dir, name, bytes, maximum, euid, k - at);
    assert(replies.take(k).skip(at) =~= tail.take(k - at));
}

/// Publishing is preparing, writing and confirming.
proof fn lemma_publishing_parts(replies: Seq<Reply>, request: RequestView, service: Service)
    ensures
        match prepared(replies, request, service) {
            Err(stop) => descriptor_published(replies, 0, request, service) == Err::<
                (PublishedView, int),
                StopView,
            >(stop),
            Ok(((socket, descriptor, raw), at)) => match publishing(
                replies,
                at,
                service.runtime(),
                DESCRIPTOR_FILE@,
                raw,
                MAX_DESCRIPTOR_BYTES,
                service.euid,
            ) {
                Err(stop) => descriptor_published(replies, 0, request, service) == Err::<
                    (PublishedView, int),
                    StopView,
                >(stop),
                Ok(at) => match confirmed(replies, at, socket, service) {
                    Err(stop) => descriptor_published(replies, 0, request, service) == Err::<
                        (PublishedView, int),
                        StopView,
                    >(stop),
                    Ok(at) => descriptor_published(replies, 0, request, service) matches Ok((given, n))
                        && given.descriptor == descriptor && given.raw == raw && n == at,
                },
            },
        },
{
    reveal(publishing);
}

/// Whether an action only looks, and opens nothing in the place of our directory.
pub open spec fn looks_elsewhere(action: ActionView) -> bool {
    &&& only_looks(action)
    &&& action matches ActionView::OpenBase { path: _, into } ==> into != Slot::Runtime
    &&& action matches ActionView::OpenDirectory { dir: _, name: _, into } ==> into
        != Slot::Runtime
}

proof fn lemma_witness_looks_elsewhere(
    replies: Seq<Reply>,
    at: int,
    service: Service,
    code: Seq<char>,
    missing: Seq<char>,
)
    requires
        0 <= at,
    ensures
        required_witness(replies, at, service, code, missing) matches Err(StopView::Await(action))
            ==> looks_elsewhere(action),
{
    law_every_wait_has_a_deadline(replies, at + 5);
}

proof fn lemma_confirming_looks_elsewhere(
    replies: Seq<Reply>,
    at: int,
    socket: Option<SocketWitness>,
    service: Service,
)
    requires
        0 <= at,
    ensures
        confirmed(replies, at, socket, service) matches Err(StopView::Await(action))
            ==> looks_elsewhere(action),
{
    if let Ok(n) = runtime_revalidated(replies, at, service.base, service.euid) {
        lemma_witness_looks_elsewhere(
            replies,
            n,
            service,
            "socket_changed"@,
            "fixed socket disappeared after publication"@,
        );
    }
}

proof fn lemma_looking_keeps(
    before: Files,
    action: ActionView,
    reply: Reply,
    after: Files,
    name: Seq<char>,
)
    requires
        answers(before, action, reply, after),
        looks_elsewhere(action),
        before.has(Slot::Runtime, name),
    ensures
        keeps(before, after, (Slot::Runtime, name)),
{
    reveal(answers);
}

/// Whether a run of publishing came to its end, and where its parts end.
spec fn publishing_ends(
    replies: Seq<Reply>,
    request: RequestView,
    service: Service,
    socket: Option<SocketWitness>,
    descriptor: DescriptorView,
    raw: Seq<u8>,
    ready: int,
    end: int,
) -> bool {
    &&& prepared(replies, request, service) == Ok::<
        ((Option<SocketWitness>, DescriptorView, Seq<u8>), int),
        StopView,
    >(((socket, descriptor, raw), ready))
    &&& publishing(
        replies,
        ready,
        service.runtime(),
        DESCRIPTOR_FILE@,
        raw,
        MAX_DESCRIPTOR_BYTES,
        service.euid,
    ) == Ok::<int, StopView>(end)
    &&& 0 <= ready < end <= replies.len()
}

/// What publishing asks for while it writes.
proof fn lemma_writing_step(
    replies: Seq<Reply>,
    request: RequestView,
    service: Service,
    socket: Option<SocketWitness>,
    descriptor: DescriptorView,
    raw: Seq<u8>,
    ready: int,
    end: int,
    k: int,
)
    requires
        publishing_ends(replies, request, service, socket, descriptor, raw, ready, end),
        ready <= k < end,
    ensures
        publishing(
            replies.take(k).skip(ready),
            0,
            service.runtime(),
            DESCRIPTOR_FILE@,
            raw,
            MAX_DESCRIPTOR_BYTES,
            service.euid,
        ) matches Err(stop) && descriptor_published(replies.take(k), 0, request, service) == Err::<
            (PublishedView, int),
            StopView,
        >(stop),
{
    lemma_prepared_settles(replies, request, service, k);
    lemma_publishing_parts(replies.take(k), request, service);
    lemma_writing_settles(
        replies,
        ready,
        service.runtime(),
        DESCRIPTOR_FILE@,
        raw,
        MAX_DESCRIPTOR_BYTES,
        service.euid,
        end,
        k,
    );
}

/// What publishing asks for while it confirms.
proof fn lemma_confirming_step(
    replies: Seq<Reply>,
    request: RequestView,
    service: Service,
    socket: Option<SocketWitness>,
    descriptor: DescriptorView,
    raw: Seq<u8>,
    ready: int,
    end: int,
    k: int,
)
    requires
        publishing_ends(replies, request, service, socket, descriptor, raw, ready, end),
        end <= k < replies.len(),
    ensures
        descriptor_published(replies.take(k), 0, request, service) matches Err(
            StopView::Await(action),
        ) ==> looks_elsewhere(action),
{
    lemma_prepared_settles(replies, request, service, k);
    lemma_publishing_parts(replies.take(k), request, service);
    lemma_writing_settles(
        replies,
        ready,
        service.runtime(),
        DESCRIPTOR_FILE@,
        raw,
        MAX_DESCRIPTOR_BYTES,
        service.euid,
        end,
        k,
    );
    lemma_confirming_looks_elsewhere(replies.take(k), end, socket, service);
}

/// Whether a run of publishing was played to its end, and where its parts end.
#[verifier::opaque]
spec fn publishing_played(
    replies: Seq<Reply>,
    files: Seq<Files>,
    request: RequestView,
    service: Service,
    raw: Seq<u8>,
    ready: int,
    end: int,
) -> bool {
    &&& exists|socket: Option<SocketWitness>, descriptor: DescriptorView| #[trigger]
        publishing_ends(replies, request, service, socket, descriptor, raw, ready, end)
    &&& played(|r: Seq<Reply>| descriptor_published(r, 0, request, service), replies, files)
    &&& files[ready].wf()
    &&& 0 <= ready < end <= replies.len()
}

/// The writing of a descriptor is played as any publishing is.
proof fn lemma_writing_is_played(
    replies: Seq<Reply>,
    files: Seq<Files>,
    request: RequestView,
    service: Service,
    raw: Seq<u8>,
    ready: int,
    end: int,
)
    requires
        publishing_played(replies, files, request, service, raw, ready, end),
    ensures
        played(
            |r: Seq<Reply>|
                published(
                    r,
                    0,
                    service.runtime(),
                    DESCRIPTOR_FILE@,
                    raw,
                    MAX_DESCRIPTOR_BYTES,
                    service.euid,
                ),
            replies.take(end).skip(ready),
            files.take(end + 1).skip(ready),
        ),
        0 <= ready < end <= replies.len(),
        files.len() == replies.len() + 1,
{
    reveal(publishing_played);
    let (socket, descriptor) = choose|socket: Option<SocketWitness>, descriptor: DescriptorView|
        #[trigger] publishing_ends(replies, request, service, socket, descriptor, raw, ready, end);
    let whole = |r: Seq<Reply>| descriptor_published(r, 0, request, service);
    let rest = |r: Seq<Reply>|
        published(
            r,
            0,
            service.runtime(),
            DESCRIPTOR_FILE@,
            raw,
            MAX_DESCRIPTOR_BYTES,
            service.euid,
        );
    let written = replies.take(end);
    let then = files.take(end + 1);
    lemma_played_until(whole, replies, files, end);
    assert forall|i: int| ready <= i < written.len() implies (whole(#[trigger] written.take(i)) matches Err(
        stop,
    ) ==> rest(written.take(i).skip(ready)) == Err::<int, StopView>(stop)) by {
        assert(written.take(i) =~= replies.take(i));
        reveal(publishing);
        lemma_writing_step(replies, request, service, socket, descriptor, raw, ready, end, i);
    }
    lemma_played_on(whole, rest, written, then, ready);
}

/// Whether publishing was played to its end.
#[verifier::opaque]
spec fn writing_played(
    replies: Seq<Reply>,
    files: Seq<Files>,
    dir: DirView,
    name: Seq<char>,
    bytes: Seq<u8>,
    maximum: usize,
    euid: u32,
) -> bool {
    &&& played(|r: Seq<Reply>| published(r, 0, dir, name, bytes, maximum, euid), replies, files)
    &&& published(replies, 0, dir, name, bytes, maximum, euid) == Ok::<int, StopView>(
        replies.len() as int,
    )
}

/// The writing of a descriptor is played to its end.
proof fn lemma_writing_ends(
    replies: Seq<Reply>,
    files: Seq<Files>,
    request: RequestView,
    service: Service,
    raw: Seq<u8>,
    ready: int,
    end: int,
)
    requires
        publishing_played(replies, files, request, service, raw, ready, end),
    ensures
        writing_played(
            replies.take(end).skip(ready),
            files.take(end + 1).skip(ready),
            service.runtime(),
            DESCRIPTOR_FILE@,
            raw,
            MAX_DESCRIPTOR_BYTES,
            service.euid,
        ),
        0 <= ready < end <= replies.len(),
        files.len() == replies.len() + 1,
{
    lemma_writing_is_played(replies, files, request, service, raw, ready, end);
    assert(publishing(
        replies.take(end).skip(ready),
        0,
        service.runtime(),
        DESCRIPTOR_FILE@,
        raw,
        MAX_DESCRIPTOR_BYTES,
        service.euid,
    ) == Ok::<int, StopView>(end - ready)) by {
        reveal(publishing_played);
        lemma_writing_settles(
            replies,
            ready,
            service.runtime(),
            DESCRIPTOR_FILE@,
            raw,
            MAX_DESCRIPTOR_BYTES,
            service.euid,
            end,
            end,
        );
    }
    reveal(publishing);
    reveal(writing_played);
}

/// What was written stands.
proof fn lemma_writing_stands(
    replies: Seq<Reply>,
    files: Seq<Files>,
    dir: DirView,
    name: Seq<char>,
    bytes: Seq<u8>,
    maximum: usize,
    euid: u32,
)
    requires
        writing_played(replies, files, dir, name, bytes, maximum, euid),
    ensures
        files.last().has(dir.slot, name),
        files.last().holds(dir.slot, name) == bytes,
{
    assert(stands_as_published(files[0], files.last(), dir.slot, name, bytes)) by {
        reveal(writing_played);
        law_published_file_stands(replies, files, dir, name, bytes, maximum, euid);
    }
}

/// The descriptor stands once it was written.
proof fn lemma_written_descriptor_stands(
    replies: Seq<Reply>,
    files: Seq<Files>,
    request: RequestView,
    service: Service,
    raw: Seq<u8>,
    ready: int,
    end: int,
)
    requires
        publishing_played(replies, files, request, service, raw, ready, end),
    ensures
        files[end].has(Slot::Runtime, DESCRIPTOR_FILE@),
        files[end].holds(Slot::Runtime, DESCRIPTOR_FILE@) == raw,
{
    let then = files.take(end + 1).skip(ready);
    lemma_writing_ends(replies, files, request, service, raw, ready, end);
    lemma_writing_stands(
        replies.take(end).skip(ready),
        then,
        service.runtime(),
        DESCRIPTOR_FILE@,
        raw,
        MAX_DESCRIPTOR_BYTES,
        service.euid,
    );
    assert(then.last() == files[end]);
}

/// One thing that is asked while a descriptor is confirmed leaves it standing.
proof fn lemma_confirming_keeps(
    replies: Seq<Reply>,
    files: Seq<Files>,
    request: RequestView,
    service: Service,
    raw: Seq<u8>,
    ready: int,
    end: int,
    k: int,
)
    requires
        publishing_played(replies, files, request, service, raw, ready, end),
        end <= k < replies.len(),
        files[k].has(Slot::Runtime, DESCRIPTOR_FILE@),
    ensures
        keeps(files[k], files[k + 1], (Slot::Runtime, DESCRIPTOR_FILE@)),
{
    reveal(publishing_played);
    let (socket, descriptor) = choose|socket: Option<SocketWitness>, descriptor: DescriptorView|
        #[trigger] publishing_ends(replies, request, service, socket, descriptor, raw, ready, end);
    let whole = |r: Seq<Reply>| descriptor_published(r, 0, request, service);
    lemma_confirming_step(replies, request, service, socket, descriptor, raw, ready, end, k);
    assert(answered(whole(replies.take(k)), files[k], replies[k], files[k + 1]));
    let action = whole(replies.take(k))->Err_0->Await_0;
    lemma_looking_keeps(files[k], action, replies[k], files[k + 1], DESCRIPTOR_FILE@);
}

/// The descriptor stands from then on.
proof fn lemma_published_descriptor_stands(
    replies: Seq<Reply>,
    files: Seq<Files>,
    request: RequestView,
    service: Service,
    raw: Seq<u8>,
    ready: int,
    end: int,
    k: int,
)
    requires
        publishing_played(replies, files, request, service, raw, ready, end),
        end <= k <= replies.len(),
    ensures
        files[k].has(Slot::Runtime, DESCRIPTOR_FILE@),
        files[k].holds(Slot::Runtime, DESCRIPTOR_FILE@) == raw,
    decreases k - end,
{
    if k == end {
        lemma_written_descriptor_stands(replies, files, request, service, raw, ready, end);
    } else {
        lemma_published_descriptor_stands(
            replies,
            files,
            request,
            service,
            raw,
            ready,
            end,
            k - 1,
        );
        lemma_confirming_keeps(replies, files, request, service, raw, ready, end, k - 1);
    }
}

/// Whether bytes are what the system made of a descriptor, closed with a newline.
pub open spec fn encoded_bytes(
    replies: Seq<Reply>,
    request: RequestView,
    service: Service,
    given: PublishedView,
    k: int,
) -> bool {
    &&& 0 <= k < replies.len()
    &&& descriptor_published(replies.take(k), 0, request, service) == Err::<
        (PublishedView, int),
        StopView,
    >(StopView::Await(ActionView::EncodeDescriptor { descriptor: given.descriptor }))
    &&& replies[k] matches Reply::Bytes(bytes) && given.raw == bytes@.push(10u8)
}

/// The descriptor that was published stands under its name, whole: what the
/// system made of it, closed with a newline.
pub proof fn law_published_descriptor_stands(
    replies: Seq<Reply>,
    files: Seq<Files>,
    request: RequestView,
    service: Service,
)
    requires
        played(|r: Seq<Reply>| descriptor_published(r, 0, request, service), replies, files),
        forall|k: int| 0 <= k < files.len() ==> (#[trigger] files[k]).wf(),
        descriptor_published(replies, 0, request, service) is Ok,
    ensures
        ({
            let given = descriptor_published(replies, 0, request, service)->Ok_0.0;
            &&& files.last().has(Slot::Runtime, DESCRIPTOR_FILE@)
            &&& files.last().holds(Slot::Runtime, DESCRIPTOR_FILE@) == given.raw
            &&& exists|k: int| #[trigger] encoded_bytes(replies, request, service, given, k)
        }),
{
    lemma_publishing_parts(replies, request, service);
    let ((socket, descriptor, raw), ready) = prepared(replies, request, service)->Ok_0;
    let dir = service.runtime();
    let end = publishing(
        replies,
        ready,
        dir,
        DESCRIPTOR_FILE@,
        raw,
        MAX_DESCRIPTOR_BYTES,
        service.euid,
    )->Ok_0;
    lemma_prepared_settles(replies, request, service, replies.len() as int);
    lemma_prepared_end(replies, request, service);
    lemma_writing_settles(
        replies,
        ready,
        dir,
        DESCRIPTOR_FILE@,
        raw,
        MAX_DESCRIPTOR_BYTES,
        service.euid,
        end,
        ready,
    );
    assert(publishing_ends(replies, request, service, socket, descriptor, raw, ready, end));
    assert(publishing_played(replies, files, request, service, raw, ready, end)) by {
        reveal(publishing_played);
    }
    lemma_published_descriptor_stands(
        replies,
        files,
        request,
        service,
        raw,
        ready,
        end,
        replies.len() as int,
    );
    lemma_publishing_parts(replies.take(ready - 1), request, service);
    let given = descriptor_published(replies, 0, request, service)->Ok_0.0;
    assert(encoded_bytes(replies, request, service, given, ready - 1));
}

/// What a verified read asks for until it has the bytes of the descriptor, one
/// thing after the other, where there is one.
pub open spec fn holding_asks(service: Service, maximum: usize) -> Seq<ActionView> {
    seq![
        ActionView::OpenBase { path: service.base.bytes@, into: Slot::Base },
        ActionView::Stat { slot: Slot::Base },
        ActionView::OpenDirectory { dir: Slot::Base, name: RUNTIME_DIR@, into: Slot::Runtime },
        ActionView::Stat { slot: Slot::Runtime },
        ActionView::OpenFile {
            dir: Slot::Runtime,
            name: DESCRIPTOR_FILE@,
            access: Access::Read,
            into: Slot::Descriptor,
        },
        ActionView::Stat { slot: Slot::Descriptor },
        ActionView::Stat { slot: Slot::Descriptor },
        ActionView::Stat { slot: Slot::Descriptor },
        ActionView::Stat { slot: Slot::Descriptor },
        ActionView::Read { slot: Slot::Descriptor, limit: one_more(maximum) },
        ActionView::Stat { slot: Slot::Descriptor },
    ]
}

/// What is held after a verified read asked for the first things.
proof fn lemma_holding_asks(replies: Seq<Reply>, service: Service, maximum: usize, k: int)
    requires
        descriptor_held(replies, service, maximum) is Ok,
        0 <= k < (if replies[4] is Done {
            11int
        } else {
            5int
        }),
    ensures
        replies.len() >= 5,
        replies[4] is Done ==> {
            &&& replies.len() >= 11
            &&& replies[9] is Bytes
            &&& replies[9]->Bytes_0@.len() <= maximum
            &&& descriptor_held(replies, service, maximum) == Ok::<
                (Option<(FileStat, Seq<u8>)>, int),
                StopView,
            >((Some((replies[6]->Stat_0, replies[9]->Bytes_0@)), 11))
        },
        !(replies[4] is Done) ==> {
            &&& replies[4] is Failed && replies[4]->Failed_0.kind == OsErrorKind::NotFound
            &&& descriptor_held(replies, service, maximum) == Ok::<
                (Option<(FileStat, Seq<u8>)>, int),
                StopView,
            >((None, 5))
        },
        descriptor_held(replies.take(k), service, maximum) == Err::<
            (Option<(FileStat, Seq<u8>)>, int),
            StopView,
        >(StopView::Await(holding_asks(service, maximum)[k])),
{
    let before = replies.take(k);
    let base = DirView { slot: Slot::Base, path: service.base.display@ };
    let runtime = service.runtime();
    assert(base_opened(replies, 0, service.base, Slot::Base, service.euid) == Ok::<
        (DirView, int),
        StopView,
    >((base, 2)));
    assert(child_opened(replies, 2, base, RUNTIME_DIR@, Slot::Runtime, service.euid) == Ok::<
        (DirView, int),
        StopView,
    >((runtime, 4)));
    assert(file_opened(
        replies,
        4,
        runtime,
        DESCRIPTOR_FILE@,
        Access::Read,
        Slot::Descriptor,
        service.euid,
    ) == Ok::<(bool, int), StopView>(
        if replies[4] is Done {
            (true, 6)
        } else {
            (false, 5)
        },
    ));
    if k >= 2 {
        assert(base_opened(before, 0, service.base, Slot::Base, service.euid) == Ok::<
            (DirView, int),
            StopView,
        >((base, 2)));
    }
    if k >= 4 {
        assert(child_opened(before, 2, base, RUNTIME_DIR@, Slot::Runtime, service.euid) == Ok::<
            (DirView, int),
            StopView,
        >((runtime, 4)));
    }
    if k >= 6 {
        assert(file_opened(
            before,
            4,
            runtime,
            DESCRIPTOR_FILE@,
            Access::Read,
            Slot::Descriptor,
            service.euid,
        ) == Ok::<(bool, int), StopView>((true, 6)));
    }
}

/// Whether a verified read was played and got as far as to hold what is there.
#[verifier::opaque]
spec fn reading_played(
    replies: Seq<Reply>,
    files: Seq<Files>,
    service: Service,
    maximum: usize,
) -> bool {
    &&& played(|r: Seq<Reply>| verified(r, service, maximum), replies, files)
    &&& 0 < maximum <= MAX_DESCRIPTOR_BYTES
    &&& descriptor_held(replies, service, maximum) is Ok
}

/// What was answered to one thing that a verified read asks for at first.
proof fn lemma_holding_step(
    replies: Seq<Reply>,
    files: Seq<Files>,
    service: Service,
    maximum: usize,
    k: int,
)
    requires
        reading_played(replies, files, service, maximum),
        0 <= k < (if replies[4] is Done {
            11int
        } else {
            5int
        }),
    ensures
        answers(files[k], holding_asks(service, maximum)[k], replies[k], files[k + 1]),
        replies[4] is Done ==> replies[9] is Bytes && replies[9]->Bytes_0@.len() <= maximum,
        !(replies[4] is Done) ==> replies[4] is Failed && replies[4]->Failed_0.kind
            == OsErrorKind::NotFound,
        maximum < usize::MAX,
{
    reveal(reading_played);
    let operation = |r: Seq<Reply>| verified(r, service, maximum);
    lemma_holding_asks(replies, service, maximum, k);
    assert(answered(operation(replies.take(k)), files[k], replies[k], files[k + 1]));
}

/// What was read of a held file that was opened from its start, where nothing was
/// done but to look at it.
proof fn lemma_held_bytes(replies: Seq<Reply>, files: Seq<Files>, service: Service, maximum: usize)
    requires
        maximum < usize::MAX,
        replies[4] is Done,
        replies[9] is Bytes,
        replies[9]->Bytes_0@.len() <= maximum,
        forall|k: int|
            4 <= k < 10 ==> answers(
                #[trigger] files[k],
                holding_asks(service, maximum)[k],
                replies[k],
                files[k + 1],
            ),
    ensures
        files[4].has(Slot::Runtime, DESCRIPTOR_FILE@),
        replies[9]->Bytes_0@ == files[4].holds(Slot::Runtime, DESCRIPTOR_FILE@),
{
    reveal(answers);
    let asks = holding_asks(service, maximum);
    assert(answers(files[4], asks[4], replies[4], files[5]));
    assert(answers(files[5], asks[5], replies[5], files[6]));
    assert(answers(files[6], asks[6], replies[6], files[7]));
    assert(answers(files[7], asks[7], replies[7], files[8]));
    assert(answers(files[8], asks[8], replies[8], files[9]));
    assert(answers(files[9], asks[9], replies[9], files[10]));
    let held = files[4].holds(Slot::Runtime, DESCRIPTOR_FILE@);
    assert(held.skip(0) =~= held);
}

/// What a verified read finds, by the answer to the opening of the descriptor.
proof fn lemma_found_as_it_stands(
    replies: Seq<Reply>,
    files: Seq<Files>,
    service: Service,
    maximum: usize,
)
    requires
        reading_played(replies, files, service, maximum),
    ensures
        replies[4] is Done <==> files[4].has(Slot::Runtime, DESCRIPTOR_FILE@),
        replies[4] is Done ==> replies[9]->Bytes_0@ == files[4].holds(
            Slot::Runtime,
            DESCRIPTOR_FILE@,
        ),
{
    lemma_holding_step(replies, files, service, maximum, 4);
    if replies[4] is Done {
        lemma_holding_step(replies, files, service, maximum, 5);
        lemma_holding_step(replies, files, service, maximum, 6);
        lemma_holding_step(replies, files, service, maximum, 7);
        lemma_holding_step(replies, files, service, maximum, 8);
        lemma_holding_step(replies, files, service, maximum, 9);
        lemma_held_bytes(replies, files, service, maximum);
    } else {
        reveal(answers);
    }
}

/// A descriptor that is read is what stood under its name when it was opened,
/// whole, and none is read where nothing stood there.
pub proof fn law_verified_descriptor_is_read_as_it_stands(
    replies: Seq<Reply>,
    files: Seq<Files>,
    service: Service,
    maximum: usize,
)
    requires
        played(|r: Seq<Reply>| verified(r, service, maximum), replies, files),
        verified(replies, service, maximum) is Ok,
    ensures
        verified(replies.take(4), service, maximum) == Err::<(Option<Seq<u8>>, int), StopView>(
            StopView::Await(
                ActionView::OpenFile {
                    dir: Slot::Runtime,
                    name: DESCRIPTOR_FILE@,
                    access: Access::Read,
                    into: Slot::Descriptor,
                },
            ),
        ),
        verified(replies, service, maximum)->Ok_0.0 == (if files[4].has(
            Slot::Runtime,
            DESCRIPTOR_FILE@,
        ) {
            Some(files[4].holds(Slot::Runtime, DESCRIPTOR_FILE@))
        } else {
            None
        }),
{
    assert(reading_played(replies, files, service, maximum)) by {
        reveal(reading_played);
    }
    lemma_found_as_it_stands(replies, files, service, maximum);
    lemma_holding_asks(replies, service, maximum, 4);
}

/// The descriptor that was published is what a verified read gives, where the
/// read reaches the directory and finds it as it was left, and gives anything at
/// all.
pub proof fn law_published_descriptor_is_read(
    written: Seq<Reply>,
    files: Seq<Files>,
    request: RequestView,
    service: Service,
    read: Seq<Reply>,
    later: Seq<Files>,
    reader: Service,
    maximum: usize,
)
    requires
        played(|r: Seq<Reply>| descriptor_published(r, 0, request, service), written, files),
        forall|k: int| 0 <= k < files.len() ==> (#[trigger] files[k]).wf(),
        descriptor_published(written, 0, request, service) is Ok,
        played(|r: Seq<Reply>| verified(r, reader, maximum), read, later),
        verified(read, reader, maximum) is Ok,
        keeps(files.last(), later[4], (Slot::Runtime, DESCRIPTOR_FILE@)),
    ensures
        verified(read, reader, maximum)->Ok_0.0 == Some(
            descriptor_published(written, 0, request, service)->Ok_0.0.raw,
        ),
{
    law_published_descriptor_stands(written, files, request, service);
    law_verified_descriptor_is_read_as_it_stands(read, later, reader, maximum);
}

/// Whether the answers hold the boot and the process that a descriptor names, and
/// where they end.
pub open spec fn incarnation_as_described(
    replies: Seq<Reply>,
    at: int,
    descriptor: DescriptorView,
    service: Service,
) -> Option<int> {
    match boot_id(replies, at, service.platform) {
        Ok((boot, at)) => match start_token(
            replies,
            at,
            service.platform,
            descriptor.pid,
            service.euid,
        ) {
            Ok((token, at)) => if boot == descriptor.boot_id && token == descriptor.start_token {
                Some(at)
            } else {
                None
            },
            Err(_) => None,
        },
        Err(_) => None,
    }
}

/// Whether the answers hold the socket that a descriptor names, served by the
/// process that it names, and where they end.
pub open spec fn socket_as_described(
    replies: Seq<Reply>,
    at: int,
    descriptor: DescriptorView,
    service: Service,
) -> Option<int> {
    match witnessed(
        replies,
        at,
        service.runtime(),
        service.socket,
        true,
        service.platform,
        service.euid,
    ) {
        Ok((Some(witness), at)) => if Some(witness.dev) == descriptor.socket_dev && Some(
            witness.ino,
        ) == descriptor.socket_ino && witness.peer_pid == descriptor.pid {
            Some(at)
        } else {
            None
        },
        _ => None,
    }
}

/// Whether the answers hold all that a descriptor names, as often as a verified
/// read asks for it, and where they end.
pub open spec fn service_as_described(
    replies: Seq<Reply>,
    at: int,
    descriptor: DescriptorView,
    service: Service,
) -> Option<int> {
    match incarnation_as_described(replies, at, descriptor, service) {
        Some(at) => match socket_as_described(replies, at, descriptor, service) {
            Some(at) => match incarnation_as_described(replies, at, descriptor, service) {
                Some(at) => socket_as_described(replies, at, descriptor, service),
                None => None,
            },
            None => None,
        },
        None => None,
    }
}

/// Whether a verified read finds a descriptor and what it names as they were
/// described: the bytes that it holds are decoded to this descriptor, the boot, the
/// process and the socket are the ones that it names, and the file is still the same
/// at the end.
pub open spec fn found_as_described(
    replies: Seq<Reply>,
    descriptor: DescriptorView,
    service: Service,
    maximum: usize,
) -> bool {
    descriptor_held(replies, service, maximum) matches Ok((Some((held, raw)), at)) && {
        &&& decoded(replies, at, raw) == Ok::<(DescriptorView, int), StopView>(
            (descriptor, at + 1),
        )
        &&& service_as_described(replies, at + 1, descriptor, service) matches Some(at)
            && descriptor_unchanged(replies, at, held, raw, service, maximum) is Ok
    }
}

/// A descriptor with the fields of a request for a ready one passes the checks of a
/// reader.
proof fn lemma_ready_request_makes_ready(
    request: RequestView,
    descriptor: DescriptorView,
    socket: Seq<u8>,
)
    requires
        request.state == "ready"@,
        request_failure(request) is None,
        descriptor.descriptor_version == DESCRIPTOR_VERSION,
        descriptor.state == request.state,
        descriptor.epoch == request.epoch,
        1 <= descriptor.pid <= MAX_PID,
        path_text(socket) == Ok::<Seq<char>, Failure>(descriptor.socket),
        is_exact_positive(descriptor.socket_dev),
        is_exact_positive(descriptor.socket_ino),
        descriptor.backend_instance_uid == request.backend_instance_uid,
        descriptor.boot_nonce == request.boot_nonce,
        descriptor.written_by == "mux-startup"@,
        is_timestamp(descriptor.written_at),
        descriptor.sentinel_window_id == request.sentinel_window_id,
        descriptor.sentinel_tab_id == request.sentinel_tab_id,
        descriptor.sentinel_pane_id == request.sentinel_pane_id,
        descriptor.sentinel_fallback == request.sentinel_fallback,
        descriptor.recovery_generation == request.recovery_generation,
        descriptor.recovery_manifest_id == request.recovery_manifest_id,
        descriptor.error == request.error,
    ensures
        ready_failure(descriptor, socket) is None,
{
    reveal_strlit("ready");
    reveal_strlit("failed");
    assert(request.state != "failed"@) by {
        assert("ready"@.len() != "failed"@.len());
    }
    assert(identity_failure(request) is None);
    assert(sentinel_failure(request) is None);
    assert(outcome_failure(request) is None);
    assert(service_failure(descriptor, socket) is None);
    assert(witness_failure(descriptor) is None);
}

/// What the fields of a published descriptor are.
proof fn lemma_published_fields(replies: Seq<Reply>, request: RequestView, service: Service)
    requires
        request.state == "ready"@,
        descriptor_published(replies, 0, request, service) is Ok,
    ensures
        ({
            let given = descriptor_published(replies, 0, request, service)->Ok_0.0;
            let descriptor = given.descriptor;
            &&& request_failure(request) is None
            &&& given.peer_pid == Some(service.pid)
            &&& descriptor.descriptor_version == DESCRIPTOR_VERSION
            &&& descriptor.state == request.state
            &&& descriptor.epoch == request.epoch
            &&& descriptor.pid == service.pid
            &&& 1 <= descriptor.pid <= MAX_PID
            &&& path_text(service.socket.bytes@) == Ok::<Seq<char>, Failure>(descriptor.socket)
            &&& is_exact_positive(descriptor.socket_dev)
            &&& is_exact_positive(descriptor.socket_ino)
            &&& descriptor.backend_instance_uid == request.backend_instance_uid
            &&& descriptor.boot_nonce == request.boot_nonce
            &&& descriptor.written_by == "mux-startup"@
            &&& descriptor.sentinel_window_id == request.sentinel_window_id
            &&& descriptor.sentinel_tab_id == request.sentinel_tab_id
            &&& descriptor.sentinel_pane_id == request.sentinel_pane_id
            &&& descriptor.sentinel_fallback == request.sentinel_fallback
            &&& descriptor.recovery_generation == request.recovery_generation
            &&& descriptor.recovery_manifest_id == request.recovery_manifest_id
            &&& descriptor.error == request.error
        }),
{
    let (socket, first) = publisher_socket(replies, 0, request.state, service)->Ok_0;
    assert(socket is Some && 1 <= socket->0.dev <= MAX_JSON_INTEGER && 1 <= socket->0.ino
        <= MAX_JSON_INTEGER && socket->0.peer_pid == service.pid);
}

/// Whether a descriptor says in every field what a request says: its state, its
/// identifiers, its sentinel, its recovery and its error.
pub open spec fn says_what_is_requested(descriptor: DescriptorView, request: RequestView) -> bool {
    &&& descriptor.state == request.state
    &&& descriptor.epoch == request.epoch
    &&& descriptor.backend_instance_uid == request.backend_instance_uid
    &&& descriptor.boot_nonce == request.boot_nonce
    &&& descriptor.sentinel_window_id == request.sentinel_window_id
    &&& descriptor.sentinel_tab_id == request.sentinel_tab_id
    &&& descriptor.sentinel_pane_id == request.sentinel_pane_id
    &&& descriptor.sentinel_fallback == request.sentinel_fallback
    &&& descriptor.recovery_generation == request.recovery_generation
    &&& descriptor.recovery_manifest_id == request.recovery_manifest_id
    &&& descriptor.error == request.error
}

/// Whatever its state, a publication gives every field of its request unchanged in
/// the descriptor; a failed one so carries the error of its request. The rest of
/// the descriptor speaks of this process: its number, its socket as long as it
/// stands, and the start token, the boot and the time that the system gave.
pub proof fn law_publication_carries_the_request(
    replies: Seq<Reply>,
    at: int,
    request: RequestView,
    service: Service,
)
    requires
        descriptor_published(replies, at, request, service) is Ok,
    ensures
        ({
            let given = descriptor_published(replies, at, request, service)->Ok_0.0;
            let descriptor = given.descriptor;
            &&& says_what_is_requested(descriptor, request)
            &&& descriptor.descriptor_version == 1
            &&& descriptor.pid == service.pid
            &&& descriptor.written_by == "mux-startup"@
            &&& path_text(service.socket.bytes@) == Ok::<Seq<char>, Failure>(descriptor.socket)
            &&& given.peer_pid is Some ==> given.peer_pid == Some(service.pid)
            &&& given.peer_pid is Some <==> descriptor.socket_dev is Some
            &&& given.peer_pid is Some <==> descriptor.socket_ino is Some
            &&& request.state == "ready"@ ==> given.peer_pid is Some
            &&& exists|k: int|
                (#[trigger] start_token(replies, k, service.platform, service.pid, service.euid))
                    is Ok && start_token(replies, k, service.platform, service.pid, service.euid)->Ok_0.0
                    == descriptor.start_token
            &&& exists|k: int|
                (#[trigger] boot_id(replies, k, service.platform)) is Ok && boot_id(
                    replies,
                    k,
                    service.platform,
                )->Ok_0.0 == descriptor.boot_id
            &&& exists|k: int|
                (#[trigger] time_written(replies, k)) is Ok && time_written(replies, k)->Ok_0.0
                    == descriptor.written_at
        }),
{
    let (socket, first) = publisher_socket(replies, at, request.state, service)->Ok_0;
    let (descriptor, next) = described(replies, first, request, socket, service)->Ok_0;
    let token = start_token(replies, first, service.platform, service.pid, service.euid);
    assert(token is Ok && token->Ok_0.0 == descriptor.start_token);
    let boot = boot_id(replies, token->Ok_0.1, service.platform);
    assert(boot is Ok && boot->Ok_0.0 == descriptor.boot_id);
    let time = time_written(replies, boot->Ok_0.1);
    assert(time is Ok && time->Ok_0.0 == descriptor.written_at);
}

/// What the system is asked to encode is the descriptor that the publication gives,
/// so it says what is requested, too; and the bytes that are published are the
/// answer, closed with a newline.
pub proof fn law_encoded_descriptor_carries_the_request(
    replies: Seq<Reply>,
    request: RequestView,
    service: Service,
)
    requires
        descriptor_published(replies, 0, request, service) is Ok,
    ensures
        exists|k: int, descriptor: DescriptorView|
            0 <= k < replies.len() && #[trigger] says_what_is_requested(descriptor, request)
                && #[trigger] replies[k] is Bytes && descriptor_published(
                replies.take(k),
                0,
                request,
                service,
            ) == Err::<(PublishedView, int), StopView>(
                StopView::Await(ActionView::EncodeDescriptor { descriptor }),
            ) && descriptor_published(replies, 0, request, service)->Ok_0.0.raw
                == replies[k]->Bytes_0@.push(10u8),
{
    law_publication_carries_the_request(replies, 0, request, service);
    lemma_publishing_parts(replies, request, service);
    let ready = prepared(replies, request, service)->Ok_0.1;
    lemma_prepared_settles(replies, request, service, replies.len() as int);
    lemma_prepared_end(replies, request, service);
    lemma_publishing_parts(replies.take(ready - 1), request, service);
    let given = descriptor_published(replies, 0, request, service)->Ok_0.0;
    assert(encoded_bytes(replies, request, service, given, ready - 1));
    assert(replies[ready - 1] is Bytes);
}

/// The time that a descriptor was written at is the one that the clock gave.
pub proof fn law_written_time_is_the_clocks(replies: Seq<Reply>, at: int)
    ensures
        time_written(replies, at) is Ok <==> at < replies.len() && replies[at] is Integer
            && utc_text(replies[at]->Integer_0) is Some,
        time_written(replies, at) is Ok ==> Some(time_written(replies, at)->Ok_0.0) == utc_text(
            replies[at]->Integer_0,
        ),
{
}

/// A descriptor that was published as ready passes the checks of a reader, and names
/// this process: the socket is served by it, and the start token and the boot are
/// the ones that the system gave. The clock must have given a time that is written
/// with twenty characters.
pub proof fn law_ready_descriptor_is_ready(
    replies: Seq<Reply>,
    request: RequestView,
    service: Service,
)
    requires
        request.state == "ready"@,
        descriptor_published(replies, 0, request, service) is Ok,
        is_timestamp(
            descriptor_published(replies, 0, request, service)->Ok_0.0.descriptor.written_at,
        ),
    ensures
        ({
            let given = descriptor_published(replies, 0, request, service)->Ok_0.0;
            &&& ready_failure(given.descriptor, service.socket.bytes@) is None
            &&& given.peer_pid == Some(service.pid)
            &&& given.descriptor.pid == service.pid
            &&& exists|k: int|
                (#[trigger] start_token(replies, k, service.platform, service.pid, service.euid))
                    is Ok && start_token(replies, k, service.platform, service.pid, service.euid)->Ok_0.0
                    == given.descriptor.start_token
            &&& exists|k: int|
                (#[trigger] boot_id(replies, k, service.platform)) is Ok && boot_id(
                    replies,
                    k,
                    service.platform,
                )->Ok_0.0 == given.descriptor.boot_id
        }),
{
    let given = descriptor_published(replies, 0, request, service)->Ok_0.0;
    lemma_published_fields(replies, request, service);
    lemma_ready_request_makes_ready(request, given.descriptor, service.socket.bytes@);
    let (socket, first) = publisher_socket(replies, 0, request.state, service)->Ok_0;
    let token = start_token(replies, first, service.platform, service.pid, service.euid);
    assert(token is Ok && token->Ok_0.0 == given.descriptor.start_token);
    let boot = boot_id(replies, token->Ok_0.1, service.platform);
    assert(boot is Ok && boot->Ok_0.0 == given.descriptor.boot_id);
}

/// What a descriptor names is proved where the answers hold it.
proof fn lemma_described_is_proved(
    replies: Seq<Reply>,
    at: int,
    descriptor: DescriptorView,
    service: Service,
)
    requires
        service_as_described(replies, at, descriptor, service) is Some,
    ensures
        service_proved(replies, at, descriptor, service) == Ok::<int, StopView>(
            service_as_described(replies, at, descriptor, service)->0,
        ),
{
}

/// What is found as it was described is given.
#[verifier::rlimit(60)]
proof fn lemma_found_is_given(
    replies: Seq<Reply>,
    descriptor: DescriptorView,
    service: Service,
    maximum: usize,
)
    requires
        0 < maximum <= MAX_DESCRIPTOR_BYTES,
        ready_failure(descriptor, service.socket.bytes@) is None,
        found_as_described(replies, descriptor, service, maximum),
    ensures
        verified(replies, service, maximum) matches Ok((Some(raw), _)) && (descriptor_held(
            replies,
            service,
            maximum,
        ) matches Ok((Some((_, held)), _)) && held == raw),
{
    let (_, at) = descriptor_held(replies, service, maximum)->Ok_0;
    lemma_described_is_proved(replies, at + 1, descriptor, service);
}

/// What a verified read holds is what stood under the name.
proof fn lemma_held_as_it_stands(
    replies: Seq<Reply>,
    files: Seq<Files>,
    service: Service,
    maximum: usize,
)
    requires
        reading_played(replies, files, service, maximum),
    ensures
        descriptor_held(replies, service, maximum) matches Ok((Some((_, raw)), _)) ==> raw
            == files[4].holds(Slot::Runtime, DESCRIPTOR_FILE@),
{
    lemma_found_as_it_stands(replies, files, service, maximum);
    assert(descriptor_held(replies, service, maximum) is Ok) by {
        reveal(reading_played);
    }
    lemma_holding_asks(replies, service, maximum, 4);
}

/// A descriptor that was published as ready is given to a reader, where nothing
/// changed since: the read reaches the directory and finds it as it was left, and
/// finds the boot, the process and the socket as they were described. The bytes are
/// those that were published.
pub proof fn law_unchanged_ready_descriptor_is_given(
    written: Seq<Reply>,
    files: Seq<Files>,
    request: RequestView,
    service: Service,
    read: Seq<Reply>,
    later: Seq<Files>,
    reader: Service,
    maximum: usize,
)
    requires
        played(|r: Seq<Reply>| descriptor_published(r, 0, request, service), written, files),
        forall|k: int| 0 <= k < files.len() ==> (#[trigger] files[k]).wf(),
        descriptor_published(written, 0, request, service) is Ok,
        request.state == "ready"@,
        is_timestamp(
            descriptor_published(written, 0, request, service)->Ok_0.0.descriptor.written_at,
        ),
        played(|r: Seq<Reply>| verified(r, reader, maximum), read, later),
        0 < maximum <= MAX_DESCRIPTOR_BYTES,
        reader.socket.bytes@ == service.socket.bytes@,
        keeps(files.last(), later[4], (Slot::Runtime, DESCRIPTOR_FILE@)),
        found_as_described(
            read,
            descriptor_published(written, 0, request, service)->Ok_0.0.descriptor,
            reader,
            maximum,
        ),
    ensures
        verified(read, reader, maximum) matches Ok((Some(raw), _)) && raw
            == descriptor_published(written, 0, request, service)->Ok_0.0.raw,
{
    let given = descriptor_published(written, 0, request, service)->Ok_0.0;
    law_published_descriptor_stands(written, files, request, service);
    law_ready_descriptor_is_ready(written, request, service);
    assert(reading_played(read, later, reader, maximum)) by {
        reveal(reading_played);
    }
    lemma_held_as_it_stands(read, later, reader, maximum);
    lemma_found_is_given(read, given.descriptor, reader, maximum);
}

} // verus!
