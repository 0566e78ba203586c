//! What the documents of a bridge come to below directories that nobody else
//! disturbs.

use crate::bridge_dir::{
    document_confirmed, document_created, document_linked, document_opened, document_read,
    document_replaced, new_document_written, temporary_document,
};
use crate::dialogue::{Access, ActionView, Reply, Slot, StopView};
use crate::failure::OsErrorKind;
use crate::file_model::{answered, answers, keeps, played, Files};
use crate::identifier::is_component;
use crate::private_dir::{is_private_file, DirView, PRIVATE_FILE};
use crate::service_file_laws::{goes_well, undisturbed};
use vstd::prelude::*;

verus! {

/// What writing a new document asks for, one thing after the other, where it
/// succeeds.
pub open spec fn new_document_asks(
    dir: Slot,
    name: Seq<char>,
    temporary: Seq<char>,
    bytes: Seq<u8>,
) -> Seq<ActionView> {
    seq![
        ActionView::OpenFile { dir, name, access: Access::Read, into: Slot::Existing },
        ActionView::DrawIdentifier,
        ActionView::CreateFile {
            dir,
            name: temporary,
            access: Access::Write,
            into: Slot::Temporary,
        },
        ActionView::SetMode { slot: Slot::Temporary, mode: PRIVATE_FILE },
        ActionView::Write { slot: Slot::Temporary, bytes },
        ActionView::SyncFile { slot: Slot::Temporary },
        ActionView::Stat { slot: Slot::Temporary },
        ActionView::Link { dir, from: temporary, to: name },
        ActionView::Unlink { dir, name: temporary },
        ActionView::OpenFile { dir, name, access: Access::Read, into: Slot::Published },
        ActionView::Stat { slot: Slot::Published },
        ActionView::SyncDirectory { slot: dir },
    ]
}

proof fn lemma_new_document_asks(
    replies: Seq<Reply>,
    dir: DirView,
    name: Seq<char>,
    bytes: Seq<u8>,
    euid: u32,
    k: int,
)
    requires
        new_document_written(replies, 0, dir, name, bytes, euid) is Ok,
        0 <= k < 12,
    ensures
        new_document_written(replies, 0, dir, name, bytes, euid) == Ok::<int, StopView>(12),
        replies.len() >= 12,
        replies[0] is Failed && replies[0]->Failed_0.kind == OsErrorKind::NotFound,
        replies[1] is Text,
        replies[2] is Done,
        replies[4] is Done,
        replies[7] is Done,
        new_document_written(replies.take(k), 0, dir, name, bytes, euid) == Err::<int, StopView>(
            StopView::Await(
                new_document_asks(
                    dir.slot,
                    name,
                    temporary_document(replies[1]->Text_0@),
                    bytes,
                )[k],
            ),
        ),
{
    let before = replies.take(k);
    let temporary = temporary_document(replies[1]->Text_0@);
    assert(document_opened(replies, 0, dir, name, Slot::Existing, euid) == Ok::<
        (bool, int),
        StopView,
    >((false, 1)));
    assert(document_created(replies, 2, dir, temporary, bytes, euid) == Ok::<int, StopView>(7));
    assert(document_linked(replies, 7, dir, temporary, name, euid) == Ok::<int, StopView>(9));
    assert(document_confirmed(replies, 9, dir, name, euid) == Ok::<int, StopView>(12));
    if k >= 1 {
        assert(document_opened(before, 0, dir, name, Slot::Existing, euid) == Ok::<
            (bool, int),
            StopView,
        >((false, 1)));
    }
    if k >= 7 {
        assert(document_created(before, 2, dir, temporary, bytes, euid) == Ok::<int, StopView>(7));
    }
    if k >= 9 {
        assert(document_linked(before, 7, dir, temporary, name, euid) == Ok::<int, StopView>(9));
    }
}

/// A new document stands under its name, whole.
pub proof fn law_new_document_stands(
    replies: Seq<Reply>,
    files: Seq<Files>,
    dir: DirView,
    name: Seq<char>,
    bytes: Seq<u8>,
    euid: u32,
)
    requires
        played(
            |r: Seq<Reply>| new_document_written(r, 0, dir, name, bytes, euid),
            replies,
            files,
        ),
        new_document_written(replies, 0, dir, name, bytes, euid) == Ok::<int, StopView>(
            replies.len() as int,
        ),
    ensures
        !files[0].has(dir.slot, name),
        files.last().wf(),
        files.last().has(dir.slot, name),
        files.last().holds(dir.slot, name) == bytes,
        forall|other: (Slot, Seq<char>)| #[trigger]
            files[0].names.contains_key(other) ==> keeps(files[0], files.last(), other),
{
    let operation = |r: Seq<Reply>| new_document_written(r, 0, dir, name, bytes, euid);
    let asks = new_document_asks(
        dir.slot,
        name,
        temporary_document(replies[1]->Text_0@),
        bytes,
    );
    assert forall|k: int| 0 <= k < 12 implies operation(#[trigger] replies.take(k)) == Err::<
        int,
        StopView,
    >(StopView::Await(asks[k])) by {
        lemma_new_document_asks(replies, dir, name, bytes, euid, k);
    }
    lemma_new_document_asks(replies, dir, name, bytes, euid, 0);
    assert forall|k: int| 0 <= k < 12 implies answers(
        files[k],
        asks[k],
        #[trigger] replies[k],
        files[k + 1],
    ) by {
        assert(operation(replies.take(k)) is Err);
    }
    reveal(answers);
    assert(answers(files[0], asks[0], replies[0], files[1]));
    assert(answers(files[1], asks[1], replies[1], files[2]));
    assert(answers(files[2], asks[2], replies[2], files[3]));
    assert(answers(files[3], asks[3], replies[3], files[4]));
    assert(answers(files[4], asks[4], replies[4], files[5]));
    assert(answers(files[5], asks[5], replies[5], files[6]));
    assert(answers(files[6], asks[6], replies[6], files[7]));
    assert(answers(files[7], asks[7], replies[7], files[8]));
    assert(answers(files[8], asks[8], replies[8], files[9]));
    assert(answers(files[9], asks[9], replies[9], files[10]));
    assert(answers(files[10], asks[10], replies[10], files[11]));
    assert(answers(files[11], asks[11], replies[11], files[12]));
    assert(Seq::<u8>::empty() + bytes =~= bytes);
}

/// What replacing a document asks for, one thing after the other, where it
/// succeeds. An old document is looked at first.
pub open spec fn replacement_asks(
    dir: Slot,
    name: Seq<char>,
    temporary: Seq<char>,
    bytes: Seq<u8>,
    found: bool,
) -> Seq<ActionView> {
    let opening = seq![
        ActionView::OpenFile { dir, name, access: Access::Read, into: Slot::Existing },
    ];
    let looking = if found {
        opening.push(ActionView::Stat { slot: Slot::Existing })
    } else {
        opening
    };
    looking + seq![
        ActionView::DrawIdentifier,
        ActionView::CreateFile {
            dir,
            name: temporary,
            access: Access::Write,
            into: Slot::Temporary,
        },
        ActionView::SetMode { slot: Slot::Temporary, mode: PRIVATE_FILE },
        ActionView::Write { slot: Slot::Temporary, bytes },
        ActionView::SyncFile { slot: Slot::Temporary },
        ActionView::Stat { slot: Slot::Temporary },
        ActionView::RenameReplace { dir, from: temporary, to: name },
        ActionView::OpenFile { dir, name, access: Access::Read, into: Slot::Published },
        ActionView::Stat { slot: Slot::Published },
        ActionView::SyncDirectory { slot: dir },
    ]
}

proof fn lemma_replacement_asks(
    replies: Seq<Reply>,
    dir: DirView,
    name: Seq<char>,
    bytes: Seq<u8>,
    euid: u32,
    k: int,
)
    requires
        document_replaced(replies, 0, dir, name, bytes, euid) is Ok,
        0 <= k < (if replies[0] is Done {
            12int
        } else {
            11
        }),
    ensures
        ({
            let found = replies[0] is Done;
            let n: int = if found {
                2
            } else {
                1
            };
            &&& document_replaced(replies, 0, dir, name, bytes, euid) == Ok::<int, StopView>(n + 10)
            &&& replies.len() >= n + 10
            &&& replies[n] is Text
            &&& replies[n + 1] is Done
            &&& replies[n + 3] is Done
            &&& replies[n + 6] is Done
            &&& document_replaced(replies.take(k), 0, dir, name, bytes, euid) == Err::<
                int,
                StopView,
            >(
                StopView::Await(
                    replacement_asks(
                        dir.slot,
                        name,
                        temporary_document(replies[n]->Text_0@),
                        bytes,
                        found,
                    )[k],
                ),
            )
        }),
{
    let before = replies.take(k);
    let found = replies[0] is Done;
    let n: int = if found {
        2
    } else {
        1
    };
    let temporary = temporary_document(replies[n]->Text_0@);
    assert(document_opened(replies, 0, dir, name, Slot::Existing, euid) == Ok::<
        (bool, int),
        StopView,
    >((found, n)));
    assert(document_created(replies, n + 1, dir, temporary, bytes, euid) == Ok::<int, StopView>(
        n + 6,
    ));
    assert(document_confirmed(replies, n + 7, dir, name, euid) == Ok::<int, StopView>(n + 10));
    if k >= n {
        assert(document_opened(before, 0, dir, name, Slot::Existing, euid) == Ok::<
            (bool, int),
            StopView,
        >((found, n)));
    }
    if k >= n + 6 {
        assert(document_created(before, n + 1, dir, temporary, bytes, euid) == Ok::<int, StopView>(
            n + 6,
        ));
    }
}

/// The files while a document is written under a temporary name and takes the
/// place of another.
proof fn lemma_replacement_files(
    replies: Seq<Reply>,
    files: Seq<Files>,
    dir: Slot,
    name: Seq<char>,
    temporary: Seq<char>,
    bytes: Seq<u8>,
)
    requires
        files.len() == replies.len() + 1,
        replies.len() == 10,
        files[0].wf(),
        answers(files[0], ActionView::DrawIdentifier, replies[0], files[1]),
        answers(
            files[1],
            ActionView::CreateFile {
                dir,
                name: temporary,
                access: Access::Write,
                into: Slot::Temporary,
            },
            replies[1],
            files[2],
        ),
        answers(
            files[2],
            ActionView::SetMode { slot: Slot::Temporary, mode: PRIVATE_FILE },
            replies[2],
            files[3],
        ),
        answers(
            files[3],
            ActionView::Write { slot: Slot::Temporary, bytes },
            replies[3],
            files[4],
        ),
        answers(files[4], ActionView::SyncFile { slot: Slot::Temporary }, replies[4], files[5]),
        answers(files[5], ActionView::Stat { slot: Slot::Temporary }, replies[5], files[6]),
        answers(
            files[6],
            ActionView::RenameReplace { dir, from: temporary, to: name },
            replies[6],
            files[7],
        ),
        answers(
            files[7],
            ActionView::OpenFile { dir, name, access: Access::Read, into: Slot::Published },
            replies[7],
            files[8],
        ),
        answers(files[8], ActionView::Stat { slot: Slot::Published }, replies[8], files[9]),
        answers(files[9], ActionView::SyncDirectory { slot: dir }, replies[9], files[10]),
        replies[1] is Done,
        replies[3] is Done,
        replies[6] is Done,
    ensures
        files[10].wf(),
        files[10].has(dir, name),
        files[10].holds(dir, name) == bytes,
        forall|other: (Slot, Seq<char>)|
            other != (dir, name) && #[trigger] files[0].names.contains_key(other) ==> keeps(
                files[0],
                files[10],
                other,
            ),
{
    reveal(answers);
    assert(Seq::<u8>::empty() + bytes =~= bytes);
}

/// What was answered to one thing that replacing a document asks for.
proof fn lemma_replacement_step(
    replies: Seq<Reply>,
    files: Seq<Files>,
    dir: DirView,
    name: Seq<char>,
    bytes: Seq<u8>,
    euid: u32,
    n: int,
    i: int,
)
    requires
        played(|r: Seq<Reply>| document_replaced(r, 0, dir, name, bytes, euid), replies, files),
        document_replaced(replies, 0, dir, name, bytes, euid) is Ok,
        n == (if replies[0] is Done {
            2int
        } else {
            1
        }),
        0 <= i < 10,
    ensures
        answers(
            files.skip(n)[i],
            replacement_asks(
                dir.slot,
                name,
                temporary_document(replies[n]->Text_0@),
                bytes,
                replies[0] is Done,
            )[n + i],
            replies.skip(n)[i],
            files.skip(n)[i + 1],
        ),
{
    let operation = |r: Seq<Reply>| document_replaced(r, 0, dir, name, bytes, euid);
    lemma_replacement_asks(replies, dir, name, bytes, euid, n + i);
    assert(answered(operation(replies.take(n + i)), files[n + i], replies[n + i], files[n + i + 1]));
}

/// The files before the first thing that replacing a document writes.
proof fn lemma_replacement_start(
    replies: Seq<Reply>,
    files: Seq<Files>,
    dir: DirView,
    name: Seq<char>,
    bytes: Seq<u8>,
    euid: u32,
    n: int,
)
    requires
        played(|r: Seq<Reply>| document_replaced(r, 0, dir, name, bytes, euid), replies, files),
        document_replaced(replies, 0, dir, name, bytes, euid) is Ok,
        n == (if replies[0] is Done {
            2int
        } else {
            1
        }),
    ensures
        files[n].names == files[0].names,
        files[n].contents == files[0].contents,
{
    reveal(answers);
    let operation = |r: Seq<Reply>| document_replaced(r, 0, dir, name, bytes, euid);
    lemma_replacement_asks(replies, dir, name, bytes, euid, 0);
    assert(answered(operation(replies.take(0)), files[0], replies[0], files[1]));
    if n == 2 {
        lemma_replacement_asks(replies, dir, name, bytes, euid, 1);
        assert(answered(operation(replies.take(1)), files[1], replies[1], files[2]));
    }
}

/// A document that replaces another stands under the name, whole, and every
/// other document stands as it did.
pub proof fn law_replacement_stands(
    replies: Seq<Reply>,
    files: Seq<Files>,
    dir: DirView,
    name: Seq<char>,
    bytes: Seq<u8>,
    euid: u32,
)
    requires
        played(|r: Seq<Reply>| document_replaced(r, 0, dir, name, bytes, euid), replies, files),
        document_replaced(replies, 0, dir, name, bytes, euid) == Ok::<int, StopView>(
            replies.len() as int,
        ),
    ensures
        files.last().wf(),
        files.last().has(dir.slot, name),
        files.last().holds(dir.slot, name) == bytes,
        forall|other: (Slot, Seq<char>)|
            other != (dir.slot, name) && #[trigger] files[0].names.contains_key(other) ==> keeps(
                files[0],
                files.last(),
                other,
            ),
{
    let n: int = if replies[0] is Done {
        2
    } else {
        1
    };
    lemma_replacement_asks(replies, dir, name, bytes, euid, 0);
    lemma_replacement_start(replies, files, dir, name, bytes, euid, n);
    lemma_replacement_step(replies, files, dir, name, bytes, euid, n, 0);
    lemma_replacement_step(replies, files, dir, name, bytes, euid, n, 1);
    lemma_replacement_step(replies, files, dir, name, bytes, euid, n, 2);
    lemma_replacement_step(replies, files, dir, name, bytes, euid, n, 3);
    lemma_replacement_step(replies, files, dir, name, bytes, euid, n, 4);
    lemma_replacement_step(replies, files, dir, name, bytes, euid, n, 5);
    lemma_replacement_step(replies, files, dir, name, bytes, euid, n, 6);
    lemma_replacement_step(replies, files, dir, name, bytes, euid, n, 7);
    lemma_replacement_step(replies, files, dir, name, bytes, euid, n, 8);
    lemma_replacement_step(replies, files, dir, name, bytes, euid, n, 9);
    lemma_replacement_files(
        replies.skip(n),
        files.skip(n),
        dir.slot,
        name,
        temporary_document(replies[n]->Text_0@),
        bytes,
    );
}

/// A document that is read is what stands under the name, whole, and nothing
/// where nothing stands there.
pub proof fn law_document_is_read_as_it_stands(
    replies: Seq<Reply>,
    files: Seq<Files>,
    dir: DirView,
    name: Seq<char>,
    maximum: usize,
    euid: u32,
)
    requires
        played(|r: Seq<Reply>| document_read(r, 0, dir, name, maximum, euid), replies, files),
        document_read(replies, 0, dir, name, maximum, euid) is Ok,
    ensures
        document_read(replies, 0, dir, name, maximum, euid)->Ok_0.0 == (if files[0].has(
            dir.slot,
            name,
        ) {
            Some(files[0].holds(dir.slot, name))
        } else {
            None
        }),
{
    reveal(answers);
    let operation = |r: Seq<Reply>| document_read(r, 0, dir, name, maximum, euid);
    assert(operation(replies.take(0)) == Err::<(Option<Seq<u8>>, int), StopView>(
        StopView::Await(
            ActionView::OpenFile {
                dir: dir.slot,
                name,
                access: Access::Read,
                into: Slot::Reading,
            },
        ),
    ));
    assert(answered(operation(replies.take(0)), files[0], replies[0], files[1]));
    if replies[0] is Done {
        assert(document_opened(replies, 0, dir, name, Slot::Reading, euid) == Ok::<
            (bool, int),
            StopView,
        >((true, 2)));
        assert(operation(replies.take(1)) == Err::<(Option<Seq<u8>>, int), StopView>(
            StopView::Await(ActionView::Stat { slot: Slot::Reading }),
        ));
        assert(answered(operation(replies.take(1)), files[1], replies[1], files[2]));
        assert(operation(replies.take(2)) == Err::<(Option<Seq<u8>>, int), StopView>(
            StopView::Await(ActionView::Stat { slot: Slot::Reading }),
        ));
        assert(answered(operation(replies.take(2)), files[2], replies[2], files[3]));
        assert(operation(replies.take(3)) == Err::<(Option<Seq<u8>>, int), StopView>(
            StopView::Await(ActionView::ReadAll { slot: Slot::Reading }),
        ));
        assert(answered(operation(replies.take(3)), files[3], replies[3], files[4]));
        assert(files[0].holds(dir.slot, name).skip(0) =~= files[0].holds(dir.slot, name));
    }
}

/// What was written under a new name, or in the place of another document, is
/// what is read next under that name.
pub proof fn law_written_document_is_read(
    written: Seq<Reply>,
    files: Seq<Files>,
    read: Seq<Reply>,
    later: Seq<Files>,
    dir: DirView,
    name: Seq<char>,
    bytes: Seq<u8>,
    maximum: usize,
    euid: u32,
)
    requires
        ({
            &&& played(
                |r: Seq<Reply>| new_document_written(r, 0, dir, name, bytes, euid),
                written,
                files,
            )
            &&& new_document_written(written, 0, dir, name, bytes, euid) == Ok::<int, StopView>(
                written.len() as int,
            )
        }) || ({
            &&& played(
                |r: Seq<Reply>| document_replaced(r, 0, dir, name, bytes, euid),
                written,
                files,
            )
            &&& document_replaced(written, 0, dir, name, bytes, euid) == Ok::<int, StopView>(
                written.len() as int,
            )
        }),
        later[0] == files.last(),
        played(|r: Seq<Reply>| document_read(r, 0, dir, name, maximum, euid), read, later),
        document_read(read, 0, dir, name, maximum, euid) is Ok,
    ensures
        document_read(read, 0, dir, name, maximum, euid)->Ok_0.0 == Some(bytes),
{
    if new_document_written(written, 0, dir, name, bytes, euid) == Ok::<int, StopView>(
        written.len() as int,
    ) && played(
        |r: Seq<Reply>| new_document_written(r, 0, dir, name, bytes, euid),
        written,
        files,
    ) {
        law_new_document_stands(written, files, dir, name, bytes, euid);
    } else {
        law_replacement_stands(written, files, dir, name, bytes, euid);
    }
    law_document_is_read_as_it_stands(read, later, dir, name, maximum, euid);
}

/// What reading a document asks for, one thing after the other, where there is one.
pub open spec fn document_reading_asks(dir: Slot, name: Seq<char>) -> Seq<ActionView> {
    seq![
        ActionView::OpenFile { dir, name, access: Access::Read, into: Slot::Reading },
        ActionView::Stat { slot: Slot::Reading },
        ActionView::Stat { slot: Slot::Reading },
        ActionView::ReadAll { slot: Slot::Reading },
    ]
}

/// Whether a reading that went well so far has come to some point.
spec fn document_reading_well(read: Seq<Reply>, maximum: usize, euid: u32, k: int) -> bool {
    &&& 0 <= k <= read.len()
    &&& k >= 1 ==> read[0] is Done
    &&& k >= 2 ==> (read[1] matches Reply::Stat(stat) && is_private_file(stat, euid))
    &&& k >= 3 ==> (read[2] matches Reply::Stat(stat) && stat.len <= maximum)
    &&& k >= 4 ==> read[3] is Bytes
}

/// One step of a reading that goes well.
proof fn lemma_document_reading_step(
    read: Seq<Reply>,
    files: Seq<Files>,
    dir: DirView,
    name: Seq<char>,
    maximum: usize,
    euid: u32,
    k: int,
)
    requires
        is_component(name),
        undisturbed(
            |r: Seq<Reply>| document_read(r, 0, dir, name, maximum, euid),
            read,
            files,
            euid,
        ),
        document_reading_well(read, maximum, euid, k),
        k < 4,
    ensures
        k < read.len(),
        goes_well(document_reading_asks(dir.slot, name)[k], read[k], euid),
        answers(files[k], document_reading_asks(dir.slot, name)[k], read[k], files[k + 1]),
{
    reveal(undisturbed);
    let operation = |r: Seq<Reply>| document_read(r, 0, dir, name, maximum, euid);
    let before = read.take(k);
    if k >= 2 {
        assert(document_opened(before, 0, dir, name, Slot::Reading, euid) == Ok::<
            (bool, int),
            StopView,
        >((true, 2)));
    }
    assert(operation(before) == Err::<(Option<Seq<u8>>, int), StopView>(
        StopView::Await(document_reading_asks(dir.slot, name)[k]),
    ));
    if k == read.len() {
        assert(before =~= read);
    }
    assert(answered(operation(read.take(k)), files[k], read[k], files[k + 1]));
}

/// The files while a reading goes on, and what it is given.
proof fn lemma_document_reading_files(
    read: Seq<Reply>,
    files: Seq<Files>,
    dir: DirView,
    name: Seq<char>,
    maximum: usize,
    euid: u32,
)
    requires
        is_component(name),
        undisturbed(
            |r: Seq<Reply>| document_read(r, 0, dir, name, maximum, euid),
            read,
            files,
            euid,
        ),
        files[0].has(dir.slot, name),
        files[0].holds(dir.slot, name).len() <= maximum,
    ensures
        document_reading_well(read, maximum, euid, 4),
        read[3]->Bytes_0@ == files[0].holds(dir.slot, name),
{
    let held = files[0].holds(dir.slot, name);
    lemma_document_reading_step(read, files, dir, name, maximum, euid, 0);
    lemma_document_reading_step(read, files, dir, name, maximum, euid, 1);
    lemma_document_reading_step(read, files, dir, name, maximum, euid, 2);
    assert(read[2]->Stat_0.len == held.len() && files[3] == files[0].holding(
        Slot::Reading,
        files[0].names[(dir.slot, name)],
    )) by {
        reveal(answers);
    }
    lemma_document_reading_step(read, files, dir, name, maximum, euid, 3);
    assert(read[3]->Bytes_0@ == held) by {
        reveal(answers);
        assert(held.skip(0) =~= held);
    }
}

/// A document that stands under a name is read, where nobody interferes: no answer
/// is a failure, what is described is a private file, and it is not too long.
pub proof fn law_undisturbed_document_is_read(
    read: Seq<Reply>,
    files: Seq<Files>,
    dir: DirView,
    name: Seq<char>,
    maximum: usize,
    euid: u32,
)
    requires
        is_component(name),
        undisturbed(
            |r: Seq<Reply>| document_read(r, 0, dir, name, maximum, euid),
            read,
            files,
            euid,
        ),
        files[0].has(dir.slot, name),
        files[0].holds(dir.slot, name).len() <= maximum,
    ensures
        document_read(read, 0, dir, name, maximum, euid) == Ok::<(Option<Seq<u8>>, int), StopView>(
            (Some(files[0].holds(dir.slot, name)), 4),
        ),
{
    lemma_document_reading_files(read, files, dir, name, maximum, euid);
    assert(document_opened(read, 0, dir, name, Slot::Reading, euid) == Ok::<(bool, int), StopView>(
        (true, 2),
    ));
}

/// Where a document stands, no new one is written under its name.
pub proof fn law_document_is_written_once(
    replies: Seq<Reply>,
    files: Seq<Files>,
    dir: DirView,
    name: Seq<char>,
    bytes: Seq<u8>,
    euid: u32,
)
    requires
        files[0].has(dir.slot, name),
        played(
            |r: Seq<Reply>| new_document_written(r, 0, dir, name, bytes, euid),
            replies,
            files,
        ),
    ensures
        new_document_written(replies, 0, dir, name, bytes, euid) is Err,
{
    if new_document_written(replies, 0, dir, name, bytes, euid) is Ok {
        lemma_new_document_asks(replies, dir, name, bytes, euid, 0);
        let operation = |r: Seq<Reply>| new_document_written(r, 0, dir, name, bytes, euid);
        assert(answered(operation(replies.take(0)), files[0], replies[0], files[1]));
        reveal(answers);
    }
}

} // verus!
