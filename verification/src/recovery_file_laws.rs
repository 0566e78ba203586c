//! What the files of a recovery come to below directories that nobody else
//! disturbs: a message is read as it was written, and so is a candidate.

use crate::dialogue::{Reply, StopView};
use crate::file_model::{keeps, played, Files};
use crate::private_dir::DirView;
use crate::private_files::{named_read, published, removed};
use crate::recovery_files::{
    candidate_written, manifest_names, manifest_read, message_read, message_removed,
    message_written, spool_file, spool_kind, RecoverySpoolKind, MAX_RECOVERY_MANIFEST_BYTES,
    MAX_RECOVERY_MESSAGE_BYTES,
};
use crate::service_file_laws::{
    law_private_file_is_read_as_it_stands, law_published_file_can_be_read,
    law_published_file_is_read, law_published_file_stands, law_removed_file_is_not_read,
    lemma_undisturbed_alike, undisturbed,
};
use vstd::prelude::*;

verus! {

/// Two operations that ask and end alike are played alike.
proof fn lemma_played_alike<V>(
    left: spec_fn(Seq<Reply>) -> Result<V, StopView>,
    right: spec_fn(Seq<Reply>) -> Result<V, StopView>,
    replies: Seq<Reply>,
    files: Seq<Files>,
)
    requires
        played(left, replies, files),
        forall|r: Seq<Reply>| #[trigger] left(r) == right(r),
    ensures
        played(right, replies, files),
{
    assert forall|k: int| 0 <= k < replies.len() implies crate::file_model::answered(
        right(replies.take(k)),
        files[k],
        #[trigger] replies[k],
        files[k + 1],
    ) by {
        assert(left(replies.take(k)) == right(replies.take(k)));
    }
}

/// A message that was written is what is read next as a message of that kind.
pub proof fn law_recovery_message_is_read(
    written: Seq<Reply>,
    files: Seq<Files>,
    read: Seq<Reply>,
    later: Seq<Files>,
    dir: DirView,
    kind: Seq<char>,
    raw: Seq<u8>,
    maximum: usize,
    euid: u32,
)
    requires
        played(|r: Seq<Reply>| message_written(r, 0, dir, kind, raw, euid), written, files),
        message_written(written, 0, dir, kind, raw, euid) == Ok::<int, StopView>(
            written.len() as int,
        ),
        later[0] == files.last(),
        played(|r: Seq<Reply>| message_read(r, 0, dir, kind, maximum, euid), read, later),
        message_read(read, 0, dir, kind, maximum, euid) is Ok,
    ensures
        message_read(read, 0, dir, kind, maximum, euid)->Ok_0.0 == Some(raw),
{
    let name = spool_file(spool_kind(kind)->0);
    lemma_played_alike(
        |r: Seq<Reply>| message_written(r, 0, dir, kind, raw, euid),
        |r: Seq<Reply>| published(r, 0, dir, name, raw, MAX_RECOVERY_MESSAGE_BYTES, euid),
        written,
        files,
    );
    lemma_played_alike(
        |r: Seq<Reply>| message_read(r, 0, dir, kind, maximum, euid),
        |r: Seq<Reply>| named_read(r, 0, dir, name, maximum, euid),
        read,
        later,
    );
    law_published_file_is_read(
        written,
        files,
        read,
        later,
        dir,
        name,
        raw,
        MAX_RECOVERY_MESSAGE_BYTES,
        maximum,
        euid,
    );
}

/// A message that was written can be read: the next reading of that kind succeeds
/// where nobody interferes with it and its limit is no smaller than the message,
/// and gives what was written.
pub proof fn law_recovery_message_can_be_read(
    written: Seq<Reply>,
    files: Seq<Files>,
    read: Seq<Reply>,
    later: Seq<Files>,
    dir: DirView,
    kind: Seq<char>,
    raw: Seq<u8>,
    maximum: usize,
    euid: u32,
)
    requires
        played(|r: Seq<Reply>| message_written(r, 0, dir, kind, raw, euid), written, files),
        message_written(written, 0, dir, kind, raw, euid) == Ok::<int, StopView>(
            written.len() as int,
        ),
        later[0] == files.last(),
        undisturbed(
            |r: Seq<Reply>| message_read(r, 0, dir, kind, maximum, euid),
            read,
            later,
            euid,
        ),
        0 < maximum <= MAX_RECOVERY_MESSAGE_BYTES,
        raw.len() <= maximum,
    ensures
        message_read(read, 0, dir, kind, maximum, euid) == Ok::<(Option<Seq<u8>>, int), StopView>(
            (Some(raw), 6),
        ),
{
    let name = spool_file(spool_kind(kind)->0);
    lemma_played_alike(
        |r: Seq<Reply>| message_written(r, 0, dir, kind, raw, euid),
        |r: Seq<Reply>| published(r, 0, dir, name, raw, MAX_RECOVERY_MESSAGE_BYTES, euid),
        written,
        files,
    );
    lemma_undisturbed_alike(
        |r: Seq<Reply>| message_read(r, 0, dir, kind, maximum, euid),
        |r: Seq<Reply>| named_read(r, 0, dir, name, maximum, euid),
        read,
        later,
        euid,
    );
    law_published_file_can_be_read(
        written,
        files,
        read,
        later,
        dir,
        name,
        raw,
        MAX_RECOVERY_MESSAGE_BYTES,
        maximum,
        euid,
    );
}

/// No message is read that was removed.
pub proof fn law_removed_message_is_not_read(
    taken: Seq<Reply>,
    files: Seq<Files>,
    read: Seq<Reply>,
    later: Seq<Files>,
    dir: DirView,
    kind: Seq<char>,
    maximum: usize,
    euid: u32,
)
    requires
        played(|r: Seq<Reply>| message_removed(r, 0, dir, kind, euid), taken, files),
        message_removed(taken, 0, dir, kind, euid) matches Ok((_, next)) && next == taken.len(),
        later[0] == files.last(),
        played(|r: Seq<Reply>| message_read(r, 0, dir, kind, maximum, euid), read, later),
        message_read(read, 0, dir, kind, maximum, euid) is Ok,
    ensures
        message_read(read, 0, dir, kind, maximum, euid)->Ok_0.0 is None,
{
    let name = spool_file(spool_kind(kind)->0);
    lemma_played_alike(
        |r: Seq<Reply>| message_removed(r, 0, dir, kind, euid),
        |r: Seq<Reply>| removed(r, 0, dir, name, euid),
        taken,
        files,
    );
    lemma_played_alike(
        |r: Seq<Reply>| message_read(r, 0, dir, kind, maximum, euid),
        |r: Seq<Reply>| named_read(r, 0, dir, name, maximum, euid),
        read,
        later,
    );
    law_removed_file_is_not_read(taken, files, read, later, dir, name, maximum, euid);
}

/// The files of two kinds of message have different names.
pub proof fn law_message_kinds_do_not_collide(left: RecoverySpoolKind, right: RecoverySpoolKind)
    requires
        spool_file(left) == spool_file(right),
    ensures
        left == right,
{
    reveal_strlit("command.json");
    reveal_strlit("response.json");
    reveal_strlit("status.json");
    reveal_strlit("control.json");
    reveal_strlit("initial-snapshot.json");
    assert("command.json"@.len() == 12);
    assert("response.json"@.len() == 13);
    assert("status.json"@.len() == 11);
    assert("control.json"@.len() == 12);
    assert("initial-snapshot.json"@.len() == 21);
    assert("command.json"@[3] == 'm');
    assert("control.json"@[3] == 't');
}

/// Writing a message of one kind leaves the message of another kind as it was:
/// what is read of it next is what stood there before.
pub proof fn law_messages_of_other_kinds_are_kept(
    written: Seq<Reply>,
    files: Seq<Files>,
    read: Seq<Reply>,
    later: Seq<Files>,
    dir: DirView,
    kind: Seq<char>,
    raw: Seq<u8>,
    other: Seq<char>,
    maximum: usize,
    euid: u32,
)
    requires
        played(|r: Seq<Reply>| message_written(r, 0, dir, kind, raw, euid), written, files),
        message_written(written, 0, dir, kind, raw, euid) == Ok::<int, StopView>(
            written.len() as int,
        ),
        spool_kind(other) is Some,
        spool_kind(other) != spool_kind(kind),
        files[0].has(dir.slot, spool_file(spool_kind(other)->0)),
        files[0].has(dir.slot, spool_file(spool_kind(kind)->0)) ==> files[0].names[(
            dir.slot,
            spool_file(spool_kind(kind)->0),
        )] != files[0].names[(dir.slot, spool_file(spool_kind(other)->0))],
        later[0] == files.last(),
        played(|r: Seq<Reply>| message_read(r, 0, dir, other, maximum, euid), read, later),
        message_read(read, 0, dir, other, maximum, euid) is Ok,
    ensures
        message_read(read, 0, dir, other, maximum, euid)->Ok_0.0 == Some(
            files[0].holds(dir.slot, spool_file(spool_kind(other)->0)),
        ),
{
    let name = spool_file(spool_kind(kind)->0);
    let kept = spool_file(spool_kind(other)->0);
    if name == kept {
        law_message_kinds_do_not_collide(spool_kind(kind)->0, spool_kind(other)->0);
    }
    lemma_played_alike(
        |r: Seq<Reply>| message_written(r, 0, dir, kind, raw, euid),
        |r: Seq<Reply>| published(r, 0, dir, name, raw, MAX_RECOVERY_MESSAGE_BYTES, euid),
        written,
        files,
    );
    lemma_played_alike(
        |r: Seq<Reply>| message_read(r, 0, dir, other, maximum, euid),
        |r: Seq<Reply>| named_read(r, 0, dir, kept, maximum, euid),
        read,
        later,
    );
    law_published_file_stands(
        written,
        files,
        dir,
        name,
        raw,
        MAX_RECOVERY_MESSAGE_BYTES,
        euid,
    );
    assert(files[0].names.contains_key((dir.slot, kept)));
    assert(keeps(files[0], files.last(), (dir.slot, kept)));
    law_private_file_is_read_as_it_stands(read, later, dir, kept, maximum, euid);
}

/// A candidate that was written is what is read next under its name.
pub proof fn law_candidate_is_read(
    written: Seq<Reply>,
    files: Seq<Files>,
    read: Seq<Reply>,
    later: Seq<Files>,
    root: DirView,
    candidate: Seq<char>,
    raw: Seq<u8>,
    maximum: usize,
    euid: u32,
)
    requires
        played(
            |r: Seq<Reply>| candidate_written(r, 0, root, candidate, raw, euid),
            written,
            files,
        ),
        candidate_written(written, 0, root, candidate, raw, euid) == Ok::<int, StopView>(
            written.len() as int,
        ),
        later[0] == files.last(),
        played(
            |r: Seq<Reply>| manifest_read(r, 0, root, candidate, "candidate"@, maximum, euid),
            read,
            later,
        ),
        manifest_read(read, 0, root, candidate, "candidate"@, maximum, euid) is Ok,
    ensures
        manifest_read(read, 0, root, candidate, "candidate"@, maximum, euid)->Ok_0.0 == Some(raw),
{
    let name = manifest_names(candidate)->Ok_0.candidate;
    lemma_played_alike(
        |r: Seq<Reply>| candidate_written(r, 0, root, candidate, raw, euid),
        |r: Seq<Reply>| published(r, 0, root, name, raw, MAX_RECOVERY_MANIFEST_BYTES, euid),
        written,
        files,
    );
    lemma_played_alike(
        |r: Seq<Reply>| manifest_read(r, 0, root, candidate, "candidate"@, maximum, euid),
        |r: Seq<Reply>| named_read(r, 0, root, name, maximum, euid),
        read,
        later,
    );
    law_published_file_is_read(
        written,
        files,
        read,
        later,
        root,
        name,
        raw,
        MAX_RECOVERY_MANIFEST_BYTES,
        maximum,
        euid,
    );
}

/// A candidate that was written can be read: the next reading under its name
/// succeeds where nobody interferes with it and its limit is no smaller than the
/// candidate, and gives what was written.
pub proof fn law_candidate_can_be_read(
    written: Seq<Reply>,
    files: Seq<Files>,
    read: Seq<Reply>,
    later: Seq<Files>,
    root: DirView,
    candidate: Seq<char>,
    raw: Seq<u8>,
    maximum: usize,
    euid: u32,
)
    requires
        played(
            |r: Seq<Reply>| candidate_written(r, 0, root, candidate, raw, euid),
            written,
            files,
        ),
        candidate_written(written, 0, root, candidate, raw, euid) == Ok::<int, StopView>(
            written.len() as int,
        ),
        later[0] == files.last(),
        undisturbed(
            |r: Seq<Reply>| manifest_read(r, 0, root, candidate, "candidate"@, maximum, euid),
            read,
            later,
            euid,
        ),
        0 < maximum <= MAX_RECOVERY_MANIFEST_BYTES,
        raw.len() <= maximum,
    ensures
        manifest_read(read, 0, root, candidate, "candidate"@, maximum, euid) == Ok::<
            (Option<Seq<u8>>, int),
            StopView,
        >((Some(raw), 6)),
{
    let name = manifest_names(candidate)->Ok_0.candidate;
    lemma_played_alike(
        |r: Seq<Reply>| candidate_written(r, 0, root, candidate, raw, euid),
        |r: Seq<Reply>| published(r, 0, root, name, raw, MAX_RECOVERY_MANIFEST_BYTES, euid),
        written,
        files,
    );
    lemma_undisturbed_alike(
        |r: Seq<Reply>| manifest_read(r, 0, root, candidate, "candidate"@, maximum, euid),
        |r: Seq<Reply>| named_read(r, 0, root, name, maximum, euid),
        read,
        later,
        euid,
    );
    law_published_file_can_be_read(
        written,
        files,
        read,
        later,
        root,
        name,
        raw,
        MAX_RECOVERY_MANIFEST_BYTES,
        maximum,
        euid,
    );
}

} // verus!
