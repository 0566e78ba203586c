//! What the private files of the service come to below directories that nobody
//! else disturbs.

use crate::dialogue::{Access, ActionView, FileStat, Reply, Slot, StopView};
use crate::failure::OsErrorKind;
use crate::file_model::{answered, answers, keeps, played, Files};
use crate::identifier::is_component;
use crate::private_dir::{file_opened, is_private_file, DirView, PRIVATE_FILE};
use crate::private_files::{
    existing_held, existing_set_aside, installed, named_read, one_more, published, quarantined,
    read_back, removed, temporary_created, temporary_name,
};
use crate::text::joined;
use vstd::prelude::*;

verus! {

/// What publishing under a new name asks for, one thing after the other, where it
/// succeeds.
pub open spec fn first_publishing_asks(
    dir: Slot,
    name: Seq<char>,
    temporary: Seq<char>,
    bytes: Seq<u8>,
    maximum: usize,
) -> Seq<ActionView> {
    seq![
        ActionView::OpenFile { dir, name, access: Access::ReadWrite, into: Slot::Existing },
        ActionView::DrawIdentifier,
        ActionView::CreateFile {
            dir,
            name: temporary,
            access: Access::Write,
            into: Slot::Temporary,
        },
        ActionView::SetMode { slot: Slot::Temporary, mode: PRIVATE_FILE },
        ActionView::Write { slot: Slot::Temporary, bytes },
        ActionView::SyncFile { slot: Slot::Temporary },
        ActionView::Stat { slot: Slot::Temporary },
        ActionView::RenameNoReplace { from_dir: dir, from: temporary, to_dir: dir, to: name },
        ActionView::OpenFile { dir, name, access: Access::Read, into: Slot::Published },
        ActionView::Stat { slot: Slot::Published },
        ActionView::Stat { slot: Slot::Published },
        ActionView::Stat { slot: Slot::Published },
        ActionView::Read { slot: Slot::Published, limit: one_more(maximum) },
        ActionView::Stat { slot: Slot::Published },
        ActionView::SyncDirectory { slot: dir },
    ]
}

/// What publishing in the place of an old file asks for, one thing after the
/// other, where it succeeds.
pub open spec fn republishing_asks(
    dir: Slot,
    name: Seq<char>,
    temporary: Seq<char>,
    aside: Seq<char>,
    bytes: Seq<u8>,
    maximum: usize,
) -> Seq<ActionView> {
    seq![
        ActionView::OpenFile { dir, name, access: Access::ReadWrite, into: Slot::Existing },
        ActionView::Stat { slot: Slot::Existing },
        ActionView::Stat { slot: Slot::Existing },
        ActionView::DrawIdentifier,
        ActionView::CreateFile {
            dir,
            name: temporary,
            access: Access::Write,
            into: Slot::Temporary,
        },
        ActionView::SetMode { slot: Slot::Temporary, mode: PRIVATE_FILE },
        ActionView::Write { slot: Slot::Temporary, bytes },
        ActionView::SyncFile { slot: Slot::Temporary },
        ActionView::Stat { slot: Slot::Temporary },
        ActionView::DrawIdentifier,
        ActionView::RenameNoReplace { from_dir: dir, from: name, to_dir: dir, to: aside },
        ActionView::OpenFile { dir, name: aside, access: Access::Read, into: Slot::Quarantined },
        ActionView::Stat { slot: Slot::Quarantined },
        ActionView::Stat { slot: Slot::Quarantined },
        ActionView::RenameNoReplace { from_dir: dir, from: temporary, to_dir: dir, to: name },
        ActionView::OpenFile { dir, name, access: Access::Read, into: Slot::Published },
        ActionView::Stat { slot: Slot::Published },
        ActionView::Stat { slot: Slot::Published },
        ActionView::Stat { slot: Slot::Published },
        ActionView::Read { slot: Slot::Published, limit: one_more(maximum) },
        ActionView::Stat { slot: Slot::Published },
        ActionView::Truncate { slot: Slot::Existing },
        ActionView::SyncFile { slot: Slot::Existing },
        ActionView::SyncDirectory { slot: dir },
    ]
}

/// What removing asks for, one thing after the other, where there is something to
/// remove and it succeeds.
pub open spec fn removing_asks(dir: Slot, name: Seq<char>, aside: Seq<char>) -> Seq<ActionView> {
    seq![
        ActionView::OpenFile { dir, name, access: Access::ReadWrite, into: Slot::Existing },
        ActionView::Stat { slot: Slot::Existing },
        ActionView::Stat { slot: Slot::Existing },
        ActionView::DrawIdentifier,
        ActionView::RenameNoReplace { from_dir: dir, from: name, to_dir: dir, to: aside },
        ActionView::OpenFile { dir, name: aside, access: Access::Read, into: Slot::Quarantined },
        ActionView::Stat { slot: Slot::Quarantined },
        ActionView::Stat { slot: Slot::Quarantined },
        ActionView::Truncate { slot: Slot::Existing },
        ActionView::SyncFile { slot: Slot::Existing },
        ActionView::SyncDirectory { slot: dir },
    ]
}

/// What reading asks for, one thing after the other, where there is something to
/// read.
pub open spec fn reading_asks(dir: Slot, name: Seq<char>, maximum: usize) -> Seq<ActionView> {
    seq![
        ActionView::OpenFile { dir, name, access: Access::Read, into: Slot::Reading },
        ActionView::Stat { slot: Slot::Reading },
        ActionView::Stat { slot: Slot::Reading },
        ActionView::Stat { slot: Slot::Reading },
        ActionView::Read { slot: Slot::Reading, limit: one_more(maximum) },
        ActionView::Stat { slot: Slot::Reading },
    ]
}

/// A document that is read is what stands under the name, whole, and nothing
/// where nothing stands there.
pub proof fn law_private_file_is_read_as_it_stands(
    replies: Seq<Reply>,
    files: Seq<Files>,
    dir: DirView,
    name: Seq<char>,
    maximum: usize,
    euid: u32,
)
    requires
        played(|r: Seq<Reply>| named_read(r, 0, dir, name, maximum, euid), replies, files),
        named_read(replies, 0, dir, name, maximum, euid) is Ok,
    ensures
        named_read(replies, 0, dir, name, maximum, euid)->Ok_0.0 == (if files[0].has(
            dir.slot,
            name,
        ) {
            Some(files[0].holds(dir.slot, name))
        } else {
            None
        }),
{
    reveal(answers);
    let operation = |r: Seq<Reply>| named_read(r, 0, dir, name, maximum, euid);
    let path = joined(dir.path, name);
    let asks = reading_asks(dir.slot, name, maximum);
    assert(operation(replies.take(0)) == Err::<(Option<Seq<u8>>, int), StopView>(
        StopView::Await(asks[0]),
    ));
    assert(answered(operation(replies.take(0)), files[0], replies[0], files[1]));
    if replies[0] is Done {
        assert(file_opened(replies, 0, dir, name, Access::Read, Slot::Reading, euid) == Ok::<
            (bool, int),
            StopView,
        >((true, 2)));
        assert(operation(replies.take(1)) == Err::<(Option<Seq<u8>>, int), StopView>(
            StopView::Await(asks[1]),
        ));
        assert(answered(operation(replies.take(1)), files[1], replies[1], files[2]));
        assert(operation(replies.take(2)) == Err::<(Option<Seq<u8>>, int), StopView>(
            StopView::Await(asks[2]),
        ));
        assert(answered(operation(replies.take(2)), files[2], replies[2], files[3]));
        assert(operation(replies.take(3)) == Err::<(Option<Seq<u8>>, int), StopView>(
            StopView::Await(asks[3]),
        ));
        assert(answered(operation(replies.take(3)), files[3], replies[3], files[4]));
        assert(operation(replies.take(4)) == Err::<(Option<Seq<u8>>, int), StopView>(
            StopView::Await(asks[4]),
        ));
        assert(answered(operation(replies.take(4)), files[4], replies[4], files[5]));
        assert(files[0].holds(dir.slot, name).skip(0) =~= files[0].holds(dir.slot, name));
    }
}

proof fn lemma_first_publishing_asks(
    replies: Seq<Reply>,
    dir: DirView,
    name: Seq<char>,
    bytes: Seq<u8>,
    maximum: usize,
    euid: u32,
    k: int,
)
    requires
        published(replies, 0, dir, name, bytes, maximum, euid) is Ok,
        !(replies[0] is Done),
        0 <= k < 15 || 15 <= k <= replies.len(),
    ensures
        published(replies, 0, dir, name, bytes, maximum, euid) == Ok::<int, StopView>(15),
        replies.len() >= 15,
        replies[0] is Failed && replies[0]->Failed_0.kind == OsErrorKind::NotFound,
        replies[1] is Text,
        replies[2] is Done,
        replies[4] is Done,
        replies[7] is Done,
        published(replies.take(k), 0, dir, name, bytes, maximum, euid) == (if k < 15 {
            Err::<int, StopView>(
                StopView::Await(
                    first_publishing_asks(
                        dir.slot,
                        name,
                        temporary_name(replies[1]->Text_0@),
                        bytes,
                        maximum,
                    )[k],
                ),
            )
        } else {
            Ok(15)
        }),
{
    let before = replies.take(k);
    let temporary = temporary_name(replies[1]->Text_0@);
    let none: Option<Seq<char>> = None;
    assert(existing_held(replies, 0, dir, name, "publish_failed"@, euid) == Ok::<
        (Option<FileStat>, int),
        StopView,
    >((None, 1)));
    assert(temporary_created(replies, 1, dir, bytes, maximum, euid) == Ok::<
        (Seq<char>, int),
        StopView,
    >((temporary, 7)));
    assert(installed(replies, 7, dir, name, temporary, none) == Ok::<int, StopView>(8));
    assert(read_back(replies, 8, dir, name, bytes, maximum, euid) == Ok::<int, StopView>(14));
    if k >= 1 {
        assert(existing_held(before, 0, dir, name, "publish_failed"@, euid) == Ok::<
            (Option<FileStat>, int),
            StopView,
        >((None, 1)));
    }
    if k >= 7 {
        assert(temporary_created(before, 1, dir, bytes, maximum, euid) == Ok::<
            (Seq<char>, int),
            StopView,
        >((temporary, 7)));
    }
    if k >= 8 {
        assert(installed(before, 7, dir, name, temporary, none) == Ok::<int, StopView>(8));
    }
    if k >= 14 {
        assert(read_back(before, 8, dir, name, bytes, maximum, euid) == Ok::<int, StopView>(14));
    }
}

proof fn lemma_republishing_asks(
    replies: Seq<Reply>,
    dir: DirView,
    name: Seq<char>,
    bytes: Seq<u8>,
    maximum: usize,
    euid: u32,
    k: int,
)
    requires
        published(replies, 0, dir, name, bytes, maximum, euid) is Ok,
        replies[0] is Done,
        0 <= k < 24 || 24 <= k <= replies.len(),
    ensures
        published(replies, 0, dir, name, bytes, maximum, euid) == Ok::<int, StopView>(24),
        replies.len() >= 24,
        replies[3] is Text,
        replies[4] is Done,
        replies[6] is Done,
        replies[9] is Text,
        replies[10] is Done,
        replies[14] is Done,
        replies[19] is Bytes,
        replies[21] is Done,
        published(replies.take(k), 0, dir, name, bytes, maximum, euid) == (if k < 24 {
            Err::<int, StopView>(
                StopView::Await(
                    republishing_asks(
                        dir.slot,
                        name,
                        temporary_name(replies[3]->Text_0@),
                        ".replace-"@ + replies[9]->Text_0@,
                        bytes,
                        maximum,
                    )[k],
                ),
            )
        } else {
            Ok(24)
        }),
{
    let before = replies.take(k);
    let temporary = temporary_name(replies[3]->Text_0@);
    let aside = ".replace-"@ + replies[9]->Text_0@;
    let held = replies[2]->Stat_0;
    assert(existing_held(replies, 0, dir, name, "publish_failed"@, euid) == Ok::<
        (Option<FileStat>, int),
        StopView,
    >((Some(held), 3)));
    assert(temporary_created(replies, 3, dir, bytes, maximum, euid) == Ok::<
        (Seq<char>, int),
        StopView,
    >((temporary, 9)));
    assert(existing_set_aside(replies, 9, dir, name, Some(held), temporary, euid) == Ok::<
        (Option<Seq<char>>, int),
        StopView,
    >((Some(aside), 14)));
    assert(installed(replies, 14, dir, name, temporary, Some(aside)) == Ok::<int, StopView>(15));
    assert(read_back(replies, 15, dir, name, bytes, maximum, euid) == Ok::<int, StopView>(21));
    if k >= 3 {
        assert(existing_held(before, 0, dir, name, "publish_failed"@, euid) == Ok::<
            (Option<FileStat>, int),
            StopView,
        >((Some(held), 3)));
    }
    if k >= 9 {
        assert(temporary_created(before, 3, dir, bytes, maximum, euid) == Ok::<
            (Seq<char>, int),
            StopView,
        >((temporary, 9)));
    }
    if k >= 14 {
        assert(existing_set_aside(before, 9, dir, name, Some(held), temporary, euid) == Ok::<
            (Option<Seq<char>>, int),
            StopView,
        >((Some(aside), 14)));
    }
    if k >= 15 {
        assert(installed(before, 14, dir, name, temporary, Some(aside)) == Ok::<int, StopView>(
            15,
        ));
    }
    if k >= 21 {
        assert(read_back(before, 15, dir, name, bytes, maximum, euid) == Ok::<int, StopView>(21));
    }
}

proof fn lemma_removing_asks(
    replies: Seq<Reply>,
    dir: DirView,
    name: Seq<char>,
    euid: u32,
    k: int,
)
    requires
        removed(replies, 0, dir, name, euid) is Ok,
        replies[0] is Done,
        0 <= k < 11,
    ensures
        removed(replies, 0, dir, name, euid) == Ok::<(bool, int), StopView>((true, 11)),
        replies.len() >= 11,
        replies[3] is Text,
        replies[4] is Done,
        replies[8] is Done,
        removed(replies.take(k), 0, dir, name, euid) == Err::<(bool, int), StopView>(
            StopView::Await(
                removing_asks(dir.slot, name, ".remove-"@ + replies[3]->Text_0@)[k],
            ),
        ),
{
    let before = replies.take(k);
    let aside = ".remove-"@ + replies[3]->Text_0@;
    let held = replies[2]->Stat_0;
    let none: Option<Seq<char>> = None;
    assert(existing_held(replies, 0, dir, name, "remove_failed"@, euid) == Ok::<
        (Option<FileStat>, int),
        StopView,
    >((Some(held), 3)));
    assert(quarantined(
        replies,
        3,
        dir,
        name,
        ".remove-"@,
        held,
        none,
        "remove_failed"@,
        euid,
    ) == Ok::<(Seq<char>, int), StopView>((aside, 8)));
    if k >= 3 {
        assert(existing_held(before, 0, dir, name, "remove_failed"@, euid) == Ok::<
            (Option<FileStat>, int),
            StopView,
        >((Some(held), 3)));
    }
    if k >= 8 {
        assert(quarantined(
            before,
            3,
            dir,
            name,
            ".remove-"@,
            held,
            none,
            "remove_failed"@,
            euid,
        ) == Ok::<(Seq<char>, int), StopView>((aside, 8)));
    }
}

/// The files after a new one was filled under a temporary name.
proof fn lemma_filled_files(
    replies: Seq<Reply>,
    files: Seq<Files>,
    n: int,
    dir: Slot,
    temporary: Seq<char>,
    bytes: Seq<u8>,
) -> (file: int)
    requires
        answers(
            files[n],
            ActionView::DrawIdentifier,
            replies[n],
            files[n + 1],
        ),
        answers(
            files[n + 1],
            ActionView::CreateFile {
                dir,
                name: temporary,
                access: Access::Write,
                into: Slot::Temporary,
            },
            replies[n + 1],
            files[n + 2],
        ),
        answers(
            files[n + 2],
            ActionView::SetMode { slot: Slot::Temporary, mode: PRIVATE_FILE },
            replies[n + 2],
            files[n + 3],
        ),
        answers(
            files[n + 3],
            ActionView::Write { slot: Slot::Temporary, bytes },
            replies[n + 3],
            files[n + 4],
        ),
        answers(
            files[n + 4],
            ActionView::SyncFile { slot: Slot::Temporary },
            replies[n + 4],
            files[n + 5],
        ),
        answers(
            files[n + 5],
            ActionView::Stat { slot: Slot::Temporary },
            replies[n + 5],
            files[n + 6],
        ),
        replies[n + 1] is Done,
        replies[n + 3] is Done,
    ensures
        !files[n].has(dir, temporary),
        !files[n].contents.contains_key(file),
        files[n + 6].names == files[n].names.insert((dir, temporary), file),
        files[n + 6].contents == files[n].contents.insert(file, bytes),
        forall|slot: Slot|
            slot != Slot::Temporary ==> #[trigger] files[n + 6].held[slot] == files[n].held[slot],
{
    reveal(answers);
    let file = choose|file: int|
        !files[n + 1].contents.contains_key(file) && files[n + 2] == #[trigger] files[n
            + 1].created(dir, temporary, Slot::Temporary, file);
    assert(Seq::<u8>::empty() + bytes =~= bytes);
    assert(files[n + 4].contents =~= files[n].contents.insert(file, bytes));
    file
}

/// The files after an old one was moved aside.
proof fn lemma_moved_files(
    replies: Seq<Reply>,
    files: Seq<Files>,
    n: int,
    dir: Slot,
    name: Seq<char>,
    aside: Seq<char>,
)
    requires
        answers(
            files[n],
            ActionView::DrawIdentifier,
            replies[n],
            files[n + 1],
        ),
        answers(
            files[n + 1],
            ActionView::RenameNoReplace { from_dir: dir, from: name, to_dir: dir, to: aside },
            replies[n + 1],
            files[n + 2],
        ),
        answers(
            files[n + 2],
            ActionView::OpenFile {
                dir,
                name: aside,
                access: Access::Read,
                into: Slot::Quarantined,
            },
            replies[n + 2],
            files[n + 3],
        ),
        answers(
            files[n + 3],
            ActionView::Stat { slot: Slot::Quarantined },
            replies[n + 3],
            files[n + 4],
        ),
        answers(
            files[n + 4],
            ActionView::Stat { slot: Slot::Quarantined },
            replies[n + 4],
            files[n + 5],
        ),
        replies[n + 1] is Done,
    ensures
        files[n].has(dir, name),
        !files[n].has(dir, aside),
        files[n + 5].names == files[n].names.remove((dir, name)).insert(
            (dir, aside),
            files[n].names[(dir, name)],
        ),
        files[n + 5].contents == files[n].contents,
        forall|slot: Slot|
            slot != Slot::Quarantined ==> #[trigger] files[n + 5].held[slot]
                == files[n].held[slot],
{
    reveal(answers);
}

/// The files after a new one took its public name.
proof fn lemma_installed_files(
    replies: Seq<Reply>,
    files: Seq<Files>,
    n: int,
    dir: Slot,
    temporary: Seq<char>,
    name: Seq<char>,
    maximum: usize,
)
    requires
        answers(
            files[n],
            ActionView::RenameNoReplace { from_dir: dir, from: temporary, to_dir: dir, to: name },
            replies[n],
            files[n + 1],
        ),
        answers(
            files[n + 1],
            ActionView::OpenFile { dir, name, access: Access::Read, into: Slot::Published },
            replies[n + 1],
            files[n + 2],
        ),
        answers(
            files[n + 2],
            ActionView::Stat { slot: Slot::Published },
            replies[n + 2],
            files[n + 3],
        ),
        answers(
            files[n + 3],
            ActionView::Stat { slot: Slot::Published },
            replies[n + 3],
            files[n + 4],
        ),
        answers(
            files[n + 4],
            ActionView::Stat { slot: Slot::Published },
            replies[n + 4],
            files[n + 5],
        ),
        answers(
            files[n + 5],
            ActionView::Read { slot: Slot::Published, limit: one_more(maximum) },
            replies[n + 5],
            files[n + 6],
        ),
        answers(
            files[n + 6],
            ActionView::Stat { slot: Slot::Published },
            replies[n + 6],
            files[n + 7],
        ),
        replies[n] is Done,
    ensures
        files[n].has(dir, temporary),
        !files[n].has(dir, name),
        files[n + 7].names == files[n].names.remove((dir, temporary)).insert(
            (dir, name),
            files[n].names[(dir, temporary)],
        ),
        files[n + 7].contents == files[n].contents,
        forall|slot: Slot|
            slot != Slot::Published && replies[n + 5] is Bytes ==> #[trigger] files[n + 7].held[slot]
                == files[n].held[slot],
{
    reveal(answers);
}

/// What was answered to one thing that publishing under a new name asks for.
proof fn lemma_first_publishing_step(
    replies: Seq<Reply>,
    files: Seq<Files>,
    dir: DirView,
    name: Seq<char>,
    bytes: Seq<u8>,
    maximum: usize,
    euid: u32,
    k: int,
)
    requires
        played(
            |r: Seq<Reply>| published(r, 0, dir, name, bytes, maximum, euid),
            replies,
            files,
        ),
        published(replies, 0, dir, name, bytes, maximum, euid) is Ok,
        !(replies[0] is Done),
        0 <= k < 15,
    ensures
        answers(
            files[k],
            first_publishing_asks(
                dir.slot,
                name,
                temporary_name(replies[1]->Text_0@),
                bytes,
                maximum,
            )[k],
            replies[k],
            files[k + 1],
        ),
{
    let operation = |r: Seq<Reply>| published(r, 0, dir, name, bytes, maximum, euid);
    lemma_first_publishing_asks(replies, dir, name, bytes, maximum, euid, k);
    assert(answered(operation(replies.take(k)), files[k], replies[k], files[k + 1]));
}

/// What was answered to one thing that publishing in the place of an old file
/// asks for.
proof fn lemma_republishing_step(
    replies: Seq<Reply>,
    files: Seq<Files>,
    dir: DirView,
    name: Seq<char>,
    bytes: Seq<u8>,
    maximum: usize,
    euid: u32,
    k: int,
)
    requires
        played(
            |r: Seq<Reply>| published(r, 0, dir, name, bytes, maximum, euid),
            replies,
            files,
        ),
        published(replies, 0, dir, name, bytes, maximum, euid) is Ok,
        replies[0] is Done,
        0 <= k < 24,
    ensures
        answers(
            files[k],
            republishing_asks(
                dir.slot,
                name,
                temporary_name(replies[3]->Text_0@),
                ".replace-"@ + replies[9]->Text_0@,
                bytes,
                maximum,
            )[k],
            replies[k],
            files[k + 1],
        ),
{
    let operation = |r: Seq<Reply>| published(r, 0, dir, name, bytes, maximum, euid);
    lemma_republishing_asks(replies, dir, name, bytes, maximum, euid, k);
    assert(answered(operation(replies.take(k)), files[k], replies[k], files[k + 1]));
}

/// Whether one answer was a true one.
spec fn true_answer(
    replies: Seq<Reply>,
    files: Seq<Files>,
    asks: Seq<ActionView>,
    k: int,
) -> bool {
    answers(files[k], asks[k], replies[k], files[k + 1])
}

/// The files after something was published under a new name.
proof fn lemma_first_published_files(
    replies: Seq<Reply>,
    files: Seq<Files>,
    dir: Slot,
    name: Seq<char>,
    temporary: Seq<char>,
    bytes: Seq<u8>,
    maximum: usize,
)
    requires
        files[0].wf(),
        forall|k: int|
            0 <= k < 15 ==> #[trigger] true_answer(
                replies,
                files,
                first_publishing_asks(dir, name, temporary, bytes, maximum),
                k,
            ),
        replies[0] is Failed,
        replies[2] is Done,
        replies[4] is Done,
        replies[7] is Done,
    ensures
        stands_as_published(files[0], files[15], dir, name, bytes),
{
    let asks = first_publishing_asks(dir, name, temporary, bytes, maximum);
    assert(true_answer(replies, files, asks, 0));
    assert(true_answer(replies, files, asks, 1));
    assert(true_answer(replies, files, asks, 2));
    assert(true_answer(replies, files, asks, 3));
    assert(true_answer(replies, files, asks, 4));
    assert(true_answer(replies, files, asks, 5));
    assert(true_answer(replies, files, asks, 6));
    assert(true_answer(replies, files, asks, 7));
    assert(true_answer(replies, files, asks, 8));
    assert(true_answer(replies, files, asks, 9));
    assert(true_answer(replies, files, asks, 10));
    assert(true_answer(replies, files, asks, 11));
    assert(true_answer(replies, files, asks, 12));
    assert(true_answer(replies, files, asks, 13));
    assert(true_answer(replies, files, asks, 14));
    assert(files[1] == files[0]) by {
        reveal(answers);
    }
    assert(files[15] == files[14]) by {
        reveal(answers);
    }
    let file = lemma_filled_files(replies, files, 1, dir, temporary, bytes);
    lemma_installed_files(replies, files, 7, dir, temporary, name, maximum);
}

/// What becomes of the files where an old one was held, a new one was filled, the
/// old one moved aside, the new one installed, and the old one emptied.
proof fn lemma_replaced_files(
    start: Files,
    held: Files,
    filled: Files,
    moved: Files,
    placed: Files,
    end: Files,
    dir: Slot,
    name: Seq<char>,
    temporary: Seq<char>,
    aside: Seq<char>,
    bytes: Seq<u8>,
    file: int,
)
    requires
        start.wf(),
        start.has(dir, name),
        held == start.holding(Slot::Existing, start.names[(dir, name)]),
        !held.has(dir, temporary),
        !held.contents.contains_key(file),
        filled.names == held.names.insert((dir, temporary), file),
        filled.contents == held.contents.insert(file, bytes),
        filled.held[Slot::Existing] == held.held[Slot::Existing],
        !filled.has(dir, aside),
        moved.names == filled.names.remove((dir, name)).insert(
            (dir, aside),
            filled.names[(dir, name)],
        ),
        moved.contents == filled.contents,
        moved.held[Slot::Existing] == filled.held[Slot::Existing],
        placed.names == moved.names.remove((dir, temporary)).insert(
            (dir, name),
            moved.names[(dir, temporary)],
        ),
        placed.contents == moved.contents,
        placed.held[Slot::Existing] == moved.held[Slot::Existing],
        end == placed.filled(Slot::Existing, Seq::empty()),
    ensures
        stands_as_published(start, end, dir, name, bytes),
{
}

/// The files after something was published in the place of an old file.
proof fn lemma_republished_files(
    replies: Seq<Reply>,
    files: Seq<Files>,
    dir: Slot,
    name: Seq<char>,
    temporary: Seq<char>,
    aside: Seq<char>,
    bytes: Seq<u8>,
    maximum: usize,
)
    requires
        files[0].wf(),
        forall|k: int|
            0 <= k < 24 ==> #[trigger] true_answer(
                replies,
                files,
                republishing_asks(dir, name, temporary, aside, bytes, maximum),
                k,
            ),
        replies[0] is Done,
        replies[4] is Done,
        replies[6] is Done,
        replies[10] is Done,
        replies[14] is Done,
        replies[19] is Bytes,
        replies[21] is Done,
    ensures
        stands_as_published(files[0], files[24], dir, name, bytes),
{
    let asks = republishing_asks(dir, name, temporary, aside, bytes, maximum);
    assert(true_answer(replies, files, asks, 0));
    assert(true_answer(replies, files, asks, 1));
    assert(true_answer(replies, files, asks, 2));
    assert(true_answer(replies, files, asks, 3));
    assert(true_answer(replies, files, asks, 4));
    assert(true_answer(replies, files, asks, 5));
    assert(true_answer(replies, files, asks, 6));
    assert(true_answer(replies, files, asks, 7));
    assert(true_answer(replies, files, asks, 8));
    assert(true_answer(replies, files, asks, 9));
    assert(true_answer(replies, files, asks, 10));
    assert(true_answer(replies, files, asks, 11));
    assert(true_answer(replies, files, asks, 12));
    assert(true_answer(replies, files, asks, 13));
    assert(true_answer(replies, files, asks, 14));
    assert(true_answer(replies, files, asks, 15));
    assert(true_answer(replies, files, asks, 16));
    assert(true_answer(replies, files, asks, 17));
    assert(true_answer(replies, files, asks, 18));
    assert(true_answer(replies, files, asks, 19));
    assert(true_answer(replies, files, asks, 20));
    assert(true_answer(replies, files, asks, 21));
    assert(true_answer(replies, files, asks, 22));
    assert(true_answer(replies, files, asks, 23));
    assert(files[0].has(dir, name) && files[3] == files[0].holding(
        Slot::Existing,
        files[0].names[(dir, name)],
    )) by {
        reveal(answers);
    }
    assert(files[24] == files[21].filled(Slot::Existing, Seq::empty())) by {
        reveal(answers);
    }
    let file = lemma_filled_files(replies, files, 3, dir, temporary, bytes);
    lemma_moved_files(replies, files, 9, dir, name, aside);
    lemma_installed_files(replies, files, 14, dir, temporary, name, maximum);
    lemma_replaced_files(
        files[0],
        files[3],
        files[9],
        files[14],
        files[21],
        files[24],
        dir,
        name,
        temporary,
        aside,
        bytes,
        file,
    );
}

/// Whether a document stands under a name, and every other file as before but for
/// the one that had the name.
pub open spec fn stands_as_published(
    before: Files,
    after: Files,
    dir: Slot,
    name: Seq<char>,
    bytes: Seq<u8>,
) -> bool {
    &&& after.wf()
    &&& after.has(dir, name)
    &&& after.holds(dir, name) == bytes
    &&& forall|other: (Slot, Seq<char>)|
        other != (dir, name) && #[trigger] before.names.contains_key(other) && (before.has(
            dir,
            name,
        ) ==> before.names[other] != before.names[(dir, name)]) ==> keeps(before, after, other)
}

/// What was published stands under its name, whole, and every other file stands
/// as it did.
pub proof fn law_published_file_stands(
    replies: Seq<Reply>,
    files: Seq<Files>,
    dir: DirView,
    name: Seq<char>,
    bytes: Seq<u8>,
    maximum: usize,
    euid: u32,
)
    requires
        played(
            |r: Seq<Reply>| published(r, 0, dir, name, bytes, maximum, euid),
            replies,
            files,
        ),
        published(replies, 0, dir, name, bytes, maximum, euid) == Ok::<int, StopView>(
            replies.len() as int,
        ),
    ensures
        stands_as_published(files[0], files.last(), dir.slot, name, bytes),
{
    if replies[0] is Done {
        let temporary = temporary_name(replies[3]->Text_0@);
        let aside = ".replace-"@ + replies[9]->Text_0@;
        let asks = republishing_asks(dir.slot, name, temporary, aside, bytes, maximum);
        lemma_republishing_asks(replies, dir, name, bytes, maximum, euid, 0);
        assert forall|k: int| 0 <= k < 24 implies #[trigger] true_answer(
            replies,
            files,
            asks,
            k,
        ) by {
            lemma_republishing_step(replies, files, dir, name, bytes, maximum, euid, k);
        }
        lemma_republished_files(
            replies,
            files,
            dir.slot,
            name,
            temporary,
            aside,
            bytes,
            maximum,
        );
    } else {
        let temporary = temporary_name(replies[1]->Text_0@);
        let asks = first_publishing_asks(dir.slot, name, temporary, bytes, maximum);
        lemma_first_publishing_asks(replies, dir, name, bytes, maximum, euid, 0);
        assert forall|k: int| 0 <= k < 15 implies #[trigger] true_answer(
            replies,
            files,
            asks,
            k,
        ) by {
            lemma_first_publishing_step(replies, files, dir, name, bytes, maximum, euid, k);
        }
        lemma_first_published_files(
            replies,
            files,
            dir.slot,
            name,
            temporary,
            bytes,
            maximum,
        );
    }
}

/// The files after something was removed.
proof fn lemma_removed_files(
    replies: Seq<Reply>,
    files: Seq<Files>,
    dir: Slot,
    name: Seq<char>,
    aside: Seq<char>,
)
    requires
        files[0].wf(),
        forall|k: int|
            0 <= k < 11 ==> #[trigger] true_answer(
                replies,
                files,
                removing_asks(dir, name, aside),
                k,
            ),
        replies[0] is Done,
        replies[4] is Done,
        replies[8] is Done,
    ensures
        files[0].has(dir, name),
        is_gone(files[0], files[11], dir, name),
{
    let asks = removing_asks(dir, name, aside);
    assert(true_answer(replies, files, asks, 0));
    assert(true_answer(replies, files, asks, 1));
    assert(true_answer(replies, files, asks, 2));
    assert(true_answer(replies, files, asks, 3));
    assert(true_answer(replies, files, asks, 4));
    assert(true_answer(replies, files, asks, 5));
    assert(true_answer(replies, files, asks, 6));
    assert(true_answer(replies, files, asks, 7));
    assert(true_answer(replies, files, asks, 8));
    assert(true_answer(replies, files, asks, 9));
    assert(true_answer(replies, files, asks, 10));
    assert(files[0].has(dir, name) && files[3] == files[0].holding(
        Slot::Existing,
        files[0].names[(dir, name)],
    )) by {
        reveal(answers);
    }
    assert(files[11] == files[8].filled(Slot::Existing, Seq::empty())) by {
        reveal(answers);
    }
    lemma_moved_files(replies, files, 3, dir, name, aside);
    assert(files[8].held[Slot::Existing] == files[3].held[Slot::Existing]);
}

/// Whether nothing stands under a name, and every other file as before but for
/// the one that had the name.
pub open spec fn is_gone(before: Files, after: Files, dir: Slot, name: Seq<char>) -> bool {
    &&& after.wf()
    &&& !after.has(dir, name)
    &&& forall|other: (Slot, Seq<char>)|
        other != (dir, name) && #[trigger] before.names.contains_key(other) && (before.has(
            dir,
            name,
        ) ==> before.names[other] != before.names[(dir, name)]) ==> keeps(before, after, other)
}

/// What was removed is gone, every other file stands as it did, and the answer
/// tells whether there was anything to remove.
pub proof fn law_removed_file_is_gone(
    replies: Seq<Reply>,
    files: Seq<Files>,
    dir: DirView,
    name: Seq<char>,
    euid: u32,
)
    requires
        played(|r: Seq<Reply>| removed(r, 0, dir, name, euid), replies, files),
        removed(replies, 0, dir, name, euid) matches Ok((_, next)) && next == replies.len(),
    ensures
        removed(replies, 0, dir, name, euid)->Ok_0.0 == files[0].has(dir.slot, name),
        is_gone(files[0], files.last(), dir.slot, name),
{
    let operation = |r: Seq<Reply>| removed(r, 0, dir, name, euid);
    if replies[0] is Done {
        let aside = ".remove-"@ + replies[3]->Text_0@;
        lemma_removing_asks(replies, dir, name, euid, 0);
        assert forall|k: int| 0 <= k < 11 implies #[trigger] true_answer(
            replies,
            files,
            removing_asks(dir.slot, name, aside),
            k,
        ) by {
            lemma_removing_asks(replies, dir, name, euid, k);
            assert(answered(operation(replies.take(k)), files[k], replies[k], files[k + 1]));
        }
        lemma_removed_files(replies, files, dir.slot, name, aside);
    } else {
        assert(operation(replies.take(0)) == Err::<(bool, int), StopView>(
            StopView::Await(
                ActionView::OpenFile {
                    dir: dir.slot,
                    name,
                    access: Access::ReadWrite,
                    into: Slot::Existing,
                },
            ),
        ));
        assert(answered(operation(replies.take(0)), files[0], replies[0], files[1]));
        assert(existing_held(replies, 0, dir, name, "remove_failed"@, euid) == Ok::<
            (Option<FileStat>, int),
            StopView,
        >((None, 1)));
        reveal(answers);
    }
}

/// Publishing depends on nothing that is answered after its end, and has no end
/// before.
pub proof fn lemma_publishing_settles(
    replies: Seq<Reply>,
    dir: DirView,
    name: Seq<char>,
    bytes: Seq<u8>,
    maximum: usize,
    euid: u32,
    k: int,
)
    requires
        published(replies, 0, dir, name, bytes, maximum, euid) is Ok,
        0 <= k <= replies.len(),
    ensures
        ({
            let end = published(replies, 0, dir, name, bytes, maximum, euid)->Ok_0;
            &&& 0 < end <= replies.len()
            &&& k < end ==> published(replies.take(k), 0, dir, name, bytes, maximum, euid) is Err
            &&& end <= k ==> published(replies.take(k), 0, dir, name, bytes, maximum, euid)
                == Ok::<int, StopView>(end)
        }),
{
    if replies[0] is Done {
        lemma_republishing_asks(replies, dir, name, bytes, maximum, euid, 0);
        lemma_republishing_asks(replies, dir, name, bytes, maximum, euid, k);
    } else {
        lemma_first_publishing_asks(replies, dir, name, bytes, maximum, euid, 0);
        lemma_first_publishing_asks(replies, dir, name, bytes, maximum, euid, k);
    }
}

/// What was published is what is read next under its name.
pub proof fn law_published_file_is_read(
    written: Seq<Reply>,
    files: Seq<Files>,
    read: Seq<Reply>,
    later: Seq<Files>,
    dir: DirView,
    name: Seq<char>,
    bytes: Seq<u8>,
    largest: usize,
    maximum: usize,
    euid: u32,
)
    requires
        played(
            |r: Seq<Reply>| published(r, 0, dir, name, bytes, largest, euid),
            written,
            files,
        ),
        published(written, 0, dir, name, bytes, largest, euid) == Ok::<int, StopView>(
            written.len() as int,
        ),
        later[0] == files.last(),
        played(|r: Seq<Reply>| named_read(r, 0, dir, name, maximum, euid), read, later),
        named_read(read, 0, dir, name, maximum, euid) is Ok,
    ensures
        named_read(read, 0, dir, name, maximum, euid)->Ok_0.0 == Some(bytes),
{
    law_published_file_stands(written, files, dir, name, bytes, largest, euid);
    law_private_file_is_read_as_it_stands(read, later, dir, name, maximum, euid);
}

/// Whether an answer is the one that a reader hopes for: a file is opened, what is
/// described is a private file of the user, and bytes are given.
pub open spec fn goes_well(action: ActionView, reply: Reply, euid: u32) -> bool {
    match action {
        ActionView::OpenFile { .. } => reply is Done,
        ActionView::Stat { .. } => reply matches Reply::Stat(stat) && is_private_file(stat, euid),
        ActionView::Read { .. } => reply is Bytes,
        ActionView::ReadAll { .. } => reply is Bytes,
        _ => true,
    }
}

/// Whether an operation was played to an end, and everything that it asked for went
/// well.
#[verifier::opaque]
pub open spec fn undisturbed<V>(
    operation: spec_fn(Seq<Reply>) -> Result<V, StopView>,
    replies: Seq<Reply>,
    files: Seq<Files>,
    euid: u32,
) -> bool {
    &&& played(operation, replies, files)
    &&& !(operation(replies) matches Err(StopView::Await(_)))
    &&& forall|k: int|
        0 <= k < replies.len() ==> (operation(replies.take(k)) matches Err(StopView::Await(action))
            ==> goes_well(action, #[trigger] replies[k], euid))
}

/// Two operations that ask and end alike are undisturbed alike.
pub proof fn lemma_undisturbed_alike<V>(
    left: spec_fn(Seq<Reply>) -> Result<V, StopView>,
    right: spec_fn(Seq<Reply>) -> Result<V, StopView>,
    replies: Seq<Reply>,
    files: Seq<Files>,
    euid: u32,
)
    requires
        undisturbed(left, replies, files, euid),
        forall|r: Seq<Reply>| #[trigger] left(r) == right(r),
    ensures
        undisturbed(right, replies, files, euid),
{
    reveal(undisturbed);
    assert(left(replies) == right(replies));
    assert forall|k: int| 0 <= k < replies.len() implies answered(
        right(replies.take(k)),
        files[k],
        #[trigger] replies[k],
        files[k + 1],
    ) && (right(replies.take(k)) matches Err(StopView::Await(action)) ==> goes_well(
        action,
        replies[k],
        euid,
    )) by {
        assert(left(replies.take(k)) == right(replies.take(k)));
    }
}

/// Whether a reading that went well so far has come to some point.
spec fn reading_well(read: Seq<Reply>, maximum: usize, euid: u32, k: int) -> bool {
    &&& 0 <= k <= read.len()
    &&& k >= 1 ==> read[0] is Done
    &&& k >= 2 ==> (read[1] matches Reply::Stat(stat) && is_private_file(stat, euid))
    &&& k >= 3 ==> (read[2] matches Reply::Stat(stat) && is_private_file(stat, euid))
    &&& k >= 4 ==> (read[3] matches Reply::Stat(stat) && stat.len <= maximum)
    &&& k >= 5 ==> read[4] is Bytes
}

/// What a reading that went well so far asks for next; so it has not ended.
proof fn lemma_reading_asks_on(
    read: Seq<Reply>,
    dir: DirView,
    name: Seq<char>,
    maximum: usize,
    euid: u32,
    k: int,
)
    requires
        is_component(name),
        reading_well(read, maximum, euid, k),
        k < 6,
        !(named_read(read, 0, dir, name, maximum, euid) matches Err(StopView::Await(_))),
    ensures
        k < read.len(),
        named_read(read.take(k), 0, dir, name, maximum, euid) == Err::<
            (Option<Seq<u8>>, int),
            StopView,
        >(StopView::Await(reading_asks(dir.slot, name, maximum)[k])),
{
    let before = read.take(k);
    if k >= 2 {
        assert(file_opened(before, 0, dir, name, Access::Read, Slot::Reading, euid) == Ok::<
            (bool, int),
            StopView,
        >((true, 2)));
    }
    if k == read.len() {
        assert(before =~= read);
    }
}

/// One step of a reading that goes well.
proof fn lemma_reading_step(
    read: Seq<Reply>,
    files: Seq<Files>,
    dir: DirView,
    name: Seq<char>,
    maximum: usize,
    euid: u32,
    k: int,
)
    requires
        is_component(name),
        undisturbed(
            |r: Seq<Reply>| named_read(r, 0, dir, name, maximum, euid),
            read, files,
            euid,
        ),
        reading_well(read, maximum, euid, k),
        k < 6,
    ensures
        k < read.len(),
        goes_well(reading_asks(dir.slot, name, maximum)[k], read[k], euid),
        answers(files[k], reading_asks(dir.slot, name, maximum)[k], read[k], files[k + 1]),
{
    reveal(undisturbed);
    let operation = |r: Seq<Reply>| named_read(r, 0, dir, name, maximum, euid);
    lemma_reading_asks_on(read, dir, name, maximum, euid, k);
    assert(answered(operation(read.take(k)), files[k], read[k], files[k + 1]));
}

/// The files while a reading goes on, and what it is given.
proof fn lemma_reading_files(
    read: Seq<Reply>,
    files: Seq<Files>,
    dir: DirView,
    name: Seq<char>,
    maximum: usize,
    euid: u32,
)
    requires
        is_component(name),
        undisturbed(
            |r: Seq<Reply>| named_read(r, 0, dir, name, maximum, euid),
            read, files,
            euid,
        ),
        files[0].has(dir.slot, name),
        files[0].holds(dir.slot, name).len() <= maximum,
    ensures
        reading_well(read, maximum, euid, 6),
        read[3]->Stat_0.len == files[0].holds(dir.slot, name).len(),
        read[4]->Bytes_0@ == files[0].holds(dir.slot, name),
        read[5] matches Reply::Stat(stat) && stat.len == files[0].holds(dir.slot, name).len(),
{
    let asks = reading_asks(dir.slot, name, maximum);
    let held = files[0].holds(dir.slot, name);
    lemma_reading_step(read, files, dir, name, maximum, euid, 0);
    lemma_reading_step(read, files, dir, name, maximum, euid, 1);
    lemma_reading_step(read, files, dir, name, maximum, euid, 2);
    lemma_reading_step(read, files, dir, name, maximum, euid, 3);
    assert(files[3] == files[0].holding(Slot::Reading, files[0].names[(dir.slot, name)])
        && read[3]->Stat_0.len == held.len() && files[4] == files[3]) by {
        reveal(answers);
    }
    lemma_reading_step(read, files, dir, name, maximum, euid, 4);
    assert(read[4]->Bytes_0@ == held && files[5].held.contains_key(Slot::Reading)
        && files[5].held[Slot::Reading].file == files[0].names[(dir.slot, name)]
        && files[5].contents == files[0].contents) by {
        reveal(answers);
        assert(held.skip(0) =~= held);
    }
    lemma_reading_step(read, files, dir, name, maximum, euid, 5);
    assert(read[5]->Stat_0.len == held.len()) by {
        reveal(answers);
    }
}

/// What stands under a name is read, where nobody interferes: no answer is a
/// failure, what is described is a private file, and it is not too long.
pub proof fn law_undisturbed_reading_succeeds(
    read: Seq<Reply>,
    files: Seq<Files>,
    dir: DirView,
    name: Seq<char>,
    maximum: usize,
    euid: u32,
)
    requires
        is_component(name),
        undisturbed(
            |r: Seq<Reply>| named_read(r, 0, dir, name, maximum, euid),
            read, files,
            euid,
        ),
        files[0].has(dir.slot, name),
        files[0].holds(dir.slot, name).len() <= maximum,
    ensures
        named_read(read, 0, dir, name, maximum, euid) == Ok::<(Option<Seq<u8>>, int), StopView>(
            (Some(files[0].holds(dir.slot, name)), 6),
        ),
{
    lemma_reading_files(read, files, dir, name, maximum, euid);
    assert(file_opened(read, 0, dir, name, Access::Read, Slot::Reading, euid) == Ok::<
        (bool, int),
        StopView,
    >((true, 2)));
}

/// What was published is read back, whatever stood there before: the next reading
/// succeeds where nobody interferes with it and the bytes are not too long, and
/// gives what was published.
pub proof fn law_published_file_can_be_read(
    written: Seq<Reply>,
    files: Seq<Files>,
    read: Seq<Reply>,
    later: Seq<Files>,
    dir: DirView,
    name: Seq<char>,
    bytes: Seq<u8>,
    largest: usize,
    maximum: usize,
    euid: u32,
)
    requires
        played(
            |r: Seq<Reply>| published(r, 0, dir, name, bytes, largest, euid),
            written,
            files,
        ),
        published(written, 0, dir, name, bytes, largest, euid) == Ok::<int, StopView>(
            written.len() as int,
        ),
        later[0] == files.last(),
        undisturbed(
            |r: Seq<Reply>| named_read(r, 0, dir, name, maximum, euid),
            read, later,
            euid,
        ),
        bytes.len() <= maximum,
    ensures
        named_read(read, 0, dir, name, maximum, euid) == Ok::<(Option<Seq<u8>>, int), StopView>(
            (Some(bytes), 6),
        ),
{
    law_published_file_stands(written, files, dir, name, bytes, largest, euid);
    assert(is_component(name));
    law_undisturbed_reading_succeeds(read, later, dir, name, maximum, euid);
}

/// Nothing is read under a name that was removed.
pub proof fn law_removed_file_is_not_read(
    taken: Seq<Reply>,
    files: Seq<Files>,
    read: Seq<Reply>,
    later: Seq<Files>,
    dir: DirView,
    name: Seq<char>,
    maximum: usize,
    euid: u32,
)
    requires
        played(|r: Seq<Reply>| removed(r, 0, dir, name, euid), taken, files),
        removed(taken, 0, dir, name, euid) matches Ok((_, next)) && next == taken.len(),
        later[0] == files.last(),
        played(|r: Seq<Reply>| named_read(r, 0, dir, name, maximum, euid), read, later),
        named_read(read, 0, dir, name, maximum, euid) is Ok,
    ensures
        named_read(read, 0, dir, name, maximum, euid)->Ok_0.0 is None,
{
    law_removed_file_is_gone(taken, files, dir, name, euid);
    law_private_file_is_read_as_it_stands(read, later, dir, name, maximum, euid);
}

} // verus!
