//! A model of the files below held directories, as a process sees them that
//! nobody disturbs, and what the dialogues come to there: what was written is
//! read, and what was removed is gone.

use crate::dialogue::{ActionView, Reply, Slot, StopView};
use crate::failure::OsErrorKind;
use vstd::prelude::*;

verus! {

/// Where a held file stands.
pub struct Held {
    pub file: int,
    pub position: int,
}

/// The files below held directories: which file each name stands for, what each
/// file holds, and which files are held. A name is that of a directory, by its
/// slot, and of an entry; each directory is changed through one slot.
pub struct Files {
    pub names: Map<(Slot, Seq<char>), int>,
    pub contents: Map<int, Seq<u8>>,
    pub held: Map<Slot, Held>,
}

impl Files {
    /// Every name stands for a file.
    pub open spec fn wf(self) -> bool {
        forall|name: (Slot, Seq<char>)| #[trigger]
            self.names.contains_key(name) ==> self.contents.contains_key(self.names[name])
    }

    /// Whether a name stands for a file.
    pub open spec fn has(self, dir: Slot, name: Seq<char>) -> bool {
        self.names.contains_key((dir, name))
    }

    /// What the file holds that a name stands for.
    pub open spec fn holds(self, dir: Slot, name: Seq<char>) -> Seq<u8> {
        self.contents[self.names[(dir, name)]]
    }

    /// The same files, one of them held from its start.
    pub open spec fn holding(self, slot: Slot, file: int) -> Files {
        Files { held: self.held.insert(slot, Held { file, position: 0 }), ..self }
    }

    /// The same files, a held one standing elsewhere.
    pub open spec fn standing(self, slot: Slot, position: int) -> Files {
        Files { held: self.held.insert(slot, Held { position, ..self.held[slot] }), ..self }
    }

    /// The same files, a held one with other contents.
    pub open spec fn filled(self, slot: Slot, bytes: Seq<u8>) -> Files {
        Files { contents: self.contents.insert(self.held[slot].file, bytes), ..self }
    }

    /// The same files, with a new empty one that is held.
    pub open spec fn created(self, dir: Slot, name: Seq<char>, slot: Slot, file: int) -> Files {
        Files {
            names: self.names.insert((dir, name), file),
            contents: self.contents.insert(file, Seq::empty()),
            held: self.held.insert(slot, Held { file, position: 0 }),
        }
    }

    /// The same files, one of them under another name.
    pub open spec fn renamed(self, from: (Slot, Seq<char>), to: (Slot, Seq<char>)) -> Files {
        Files { names: self.names.remove(from).insert(to, self.names[from]), ..self }
    }

    /// The same files, one of them under a second name.
    pub open spec fn linked(self, from: (Slot, Seq<char>), to: (Slot, Seq<char>)) -> Files {
        Files { names: self.names.insert(to, self.names[from]), ..self }
    }

    /// The same files, without a name.
    pub open spec fn unlinked(self, name: (Slot, Seq<char>)) -> Files {
        Files { names: self.names.remove(name), ..self }
    }

    /// What a held file holds behind the place where it stands.
    pub open spec fn ahead(self, slot: Slot) -> Seq<u8> {
        self.contents[self.held[slot].file].skip(self.held[slot].position)
    }
}

/// The first bytes of a file, no more than were asked for.
pub open spec fn at_most(bytes: Seq<u8>, limit: u64) -> Seq<u8> {
    if bytes.len() <= limit {
        bytes
    } else {
        bytes.take(limit as int)
    }
}

/// Whether a name stands for the same file as before, with the same contents.
pub open spec fn keeps(before: Files, after: Files, name: (Slot, Seq<char>)) -> bool {
    &&& after.names.contains_key(name)
    &&& after.names[name] == before.names[name]
    &&& after.contents[after.names[name]] == before.contents[before.names[name]]
}

/// Whether what one slot stood for is all that differs: the names below every
/// other slot, and what their files hold, are as before.
pub open spec fn apart_from(before: Files, after: Files, slot: Slot) -> bool {
    forall|name: (Slot, Seq<char>)|
        name.0 != slot && #[trigger] before.names.contains_key(name) ==> keeps(before, after, name)
}

/// Whether an answer to an action is a true one, and what the files are then. An
/// action that fails changes no name. Of what stands below a directory that is
/// opened nothing is said.
#[verifier::opaque]
pub open spec fn answers(before: Files, action: ActionView, reply: Reply, after: Files) -> bool {
    match action {
        ActionView::OpenFile { dir, name, access: _, into } => match reply {
            Reply::Done => before.has(dir, name) && after == before.holding(
                into,
                before.names[(dir, name)],
            ),
            Reply::Failed(error) => after == before && (error.kind == OsErrorKind::NotFound
                ==> !before.has(dir, name)),
            _ => after == before,
        },
        ActionView::CreateFile { dir, name, access: _, into } => match reply {
            Reply::Done => !before.has(dir, name) && exists|file: int|
                !before.contents.contains_key(file) && after == #[trigger] before.created(
                    dir,
                    name,
                    into,
                    file,
                ),
            _ => after == before,
        },
        ActionView::Write { slot, bytes } => match reply {
            Reply::Done => {
                let position = before.held[slot].position;
                let old = before.contents[before.held[slot].file];
                position == old.len() ==> after == before.filled(slot, old + bytes).standing(
                    slot,
                    position + bytes.len(),
                )
            },
            _ => after.names == before.names,
        },
        ActionView::Truncate { slot } => match reply {
            Reply::Done => after == before.filled(slot, Seq::empty()),
            _ => after == before,
        },
        ActionView::Rewind { slot } => match reply {
            Reply::Done => after == before.standing(slot, 0),
            _ => after == before,
        },
        ActionView::Read { slot, limit } => match reply {
            Reply::Bytes(bytes) => bytes@ == at_most(before.ahead(slot), limit) && after
                == before.standing(slot, before.held[slot].position + bytes@.len()),
            _ => after.names == before.names && after.contents == before.contents,
        },
        ActionView::ReadAll { slot } => match reply {
            Reply::Bytes(bytes) => bytes@ == before.ahead(slot) && after == before.standing(
                slot,
                before.held[slot].position + bytes@.len(),
            ),
            _ => after.names == before.names && after.contents == before.contents,
        },
        ActionView::RenameNoReplace { from_dir, from, to_dir, to } => match reply {
            Reply::Done => before.has(from_dir, from) && !before.has(to_dir, to) && after
                == before.renamed((from_dir, from), (to_dir, to)),
            _ => after == before,
        },
        ActionView::RenameReplace { dir, from, to } => match reply {
            Reply::Done => before.has(dir, from) && after == (if before.has(dir, to)
                && before.names[(dir, from)] == before.names[(dir, to)] {
                before
            } else {
                before.renamed((dir, from), (dir, to))
            }),
            _ => after == before,
        },
        ActionView::Link { dir, from, to } => match reply {
            Reply::Done => before.has(dir, from) && !before.has(dir, to) && after == before.linked(
                (dir, from),
                (dir, to),
            ),
            _ => after == before,
        },
        ActionView::Unlink { dir, name } => match reply {
            Reply::Done => after == before.unlinked((dir, name)),
            _ => after == before,
        },
        ActionView::Stat { slot } => after == before && match reply {
            Reply::Stat(stat) => before.held.contains_key(slot) ==> stat.len
                == before.contents[before.held[slot].file].len(),
            _ => true,
        },
        ActionView::OpenBase { path: _, into } => apart_from(before, after, into),
        ActionView::OpenDirectory { dir: _, name: _, into } => apart_from(before, after, into),
        ActionView::OpenSocket { .. } => after.names == before.names && after.contents
            == before.contents,
        ActionView::TakeObserved { .. } => after.names == before.names && after.contents
            == before.contents,
        _ => after == before,
    }
}

/// Whether the next answer is a true one to what an operation asks.
pub open spec fn answered<V>(
    asked: Result<V, StopView>,
    before: Files,
    reply: Reply,
    after: Files,
) -> bool {
    asked matches Err(StopView::Await(action)) && answers(before, action, reply, after)
}

/// Whether every answer was a true one to what the operation asked at that
/// point, and these were the files before each answer and after the last.
pub open spec fn played<V>(
    operation: spec_fn(Seq<Reply>) -> Result<V, StopView>,
    replies: Seq<Reply>,
    files: Seq<Files>,
) -> bool {
    &&& files.len() == replies.len() + 1
    &&& files[0].wf()
    &&& forall|k: int|
        0 <= k < replies.len() ==> answered(
            operation(replies.take(k)),
            files[k],
            #[trigger] replies[k],
            files[k + 1],
        )
}

/// Whether a result is the same one, so many answers later.
pub open spec fn steps_later(
    later: Result<int, StopView>,
    result: Result<int, StopView>,
    at: int,
) -> bool {
    match (later, result) {
        (Ok(n), Ok(m)) => n == m + at,
        (Err(left), Err(right)) => left == right,
        _ => false,
    }
}

/// Whether a result is the same one, so many answers later.
pub open spec fn run_later<T>(
    later: Result<(T, int), StopView>,
    result: Result<(T, int), StopView>,
    at: int,
) -> bool {
    match (later, result) {
        (Ok((v, n)), Ok((w, m))) => v == w && n == m + at,
        (Err(left), Err(right)) => left == right,
        _ => false,
    }
}

/// What was played was played up to any point.
pub proof fn lemma_played_until<V>(
    operation: spec_fn(Seq<Reply>) -> Result<V, StopView>,
    replies: Seq<Reply>,
    files: Seq<Files>,
    end: int,
)
    requires
        played(operation, replies, files),
        0 <= end <= replies.len(),
    ensures
        played(operation, replies.take(end), files.take(end + 1)),
{
    let early = replies.take(end);
    let then = files.take(end + 1);
    assert forall|k: int| 0 <= k < early.len() implies answered(
        operation(early.take(k)),
        then[k],
        #[trigger] early[k],
        then[k + 1],
    ) by {
        assert(early.take(k) =~= replies.take(k));
        assert(replies[k] == early[k]);
    }
}

/// An operation that goes on as another one is played as that one from there.
pub proof fn lemma_played_on<V, W>(
    whole: spec_fn(Seq<Reply>) -> Result<V, StopView>,
    rest: spec_fn(Seq<Reply>) -> Result<W, StopView>,
    replies: Seq<Reply>,
    files: Seq<Files>,
    at: int,
)
    requires
        played(whole, replies, files),
        0 <= at <= replies.len(),
        files[at].wf(),
        forall|k: int|
            at <= k < replies.len() ==> (whole(#[trigger] replies.take(k)) matches Err(stop)
                ==> rest(replies.take(k).skip(at)) == Err::<W, StopView>(stop)),
    ensures
        played(rest, replies.skip(at), files.skip(at)),
{
    let tail = replies.skip(at);
    assert forall|k: int| 0 <= k < tail.len() implies answered(
        rest(tail.take(k)),
        files.skip(at)[k],
        #[trigger] tail[k],
        files.skip(at)[k + 1],
    ) by {
        assert(replies.take(at + k).skip(at) =~= tail.take(k));
        assert(replies[at + k] == tail[k]);
    }
}

} // verus!
