//! What holds of publishing and removing private files, whatever the system
//! answers.

use crate::dialogue::{
    refused_io, same_object, Access, ActionView, FileStat, Reply, Slot, StopView,
};
use crate::failure::OsErrorKind;
use crate::identifier::is_component;
use crate::private_dir::{file_opened, is_private_file, DirView};
use crate::private_files::{
    existing_held, existing_set_aside, installed, named_read, published, quarantined, read_back,
    removed, temporary_created, temporary_name,
};
use crate::text::joined;
use vstd::prelude::*;

verus! {

/// Whether an identifier was drawn in the course of a dialogue.
pub open spec fn was_drawn(replies: Seq<Reply>, identifier: Seq<char>) -> bool {
    exists|i: int|
        0 <= i < replies.len() && (#[trigger] replies[i]) is Text && replies[i]->Text_0@
            == identifier
}

/// Whether the system described an object in the course of a dialogue.
pub open spec fn was_described(replies: Seq<Reply>, stat: FileStat) -> bool {
    exists|i: int| 0 <= i < replies.len() && (#[trigger] replies[i]) == Reply::Stat(stat)
}

/// Whether these bytes were read in the course of a dialogue.
pub open spec fn was_read(replies: Seq<Reply>, bytes: Seq<u8>) -> bool {
    exists|i: int|
        0 <= i < replies.len() && (#[trigger] replies[i]) is Bytes && replies[i]->Bytes_0@ == bytes
}

/// Whether the system described the same object twice: once through the
/// descriptor that is held, once under the name it was moved to.
pub open spec fn was_recognised(replies: Seq<Reply>) -> bool {
    exists|held: FileStat, moved: FileStat|
        was_described(replies, held) && was_described(replies, moved) && #[trigger] same_object(
            held,
            moved,
        )
}

/// Whether an action can destroy nothing that is not ours: no rename replaces
/// a file, and the only name that is removed is one that was just made under
/// an identifier that was drawn for it.
pub open spec fn is_harmless(action: ActionView, replies: Seq<Reply>) -> bool {
    &&& !(action is RenameReplace)
    &&& !(action is Link)
    &&& action matches ActionView::Unlink { dir, name } ==> exists|identifier: Seq<char>| #[trigger]
        was_drawn(replies, identifier) && name == temporary_name(identifier)
    &&& action matches ActionView::Truncate { slot } ==> slot == Slot::Existing && was_recognised(
        replies,
    )
}

proof fn lemma_temporary(
    replies: Seq<Reply>,
    at: int,
    dir: DirView,
    bytes: Seq<u8>,
    maximum: usize,
    euid: u32,
)
    requires
        0 <= at,
    ensures
        match temporary_created(replies, at, dir, bytes, maximum, euid) {
            Ok((name, next)) => at <= next && exists|identifier: Seq<char>| #[trigger]
                was_drawn(replies, identifier) && name == temporary_name(identifier),
            Err(StopView::Await(action)) => is_harmless(action, replies),
            _ => true,
        },
{
    if at < replies.len() && replies[at] is Text {
        let identifier = replies[at]->Text_0@;
        assert(was_drawn(replies, identifier));
    }
}

proof fn lemma_existing(
    replies: Seq<Reply>,
    at: int,
    dir: DirView,
    name: Seq<char>,
    code: Seq<char>,
    euid: u32,
)
    requires
        0 <= at,
    ensures
        match existing_held(replies, at, dir, name, code, euid) {
            Ok((Some(held), next)) => at <= next && was_described(replies, held),
            Ok((None, next)) => at <= next,
            Err(StopView::Await(action)) => is_harmless(action, replies),
            _ => true,
        },
{
    match existing_held(replies, at, dir, name, code, euid) {
        Ok((Some(held), next)) => {
            assert(replies[next - 1] == Reply::Stat(held));
        },
        _ => {},
    }
}

proof fn lemma_quarantined(
    replies: Seq<Reply>,
    at: int,
    dir: DirView,
    name: Seq<char>,
    prefix: Seq<char>,
    held: FileStat,
    undo: Option<Seq<char>>,
    code: Seq<char>,
    euid: u32,
)
    requires
        0 <= at,
        was_described(replies, held),
        undo is Some ==> exists|identifier: Seq<char>| #[trigger]
            was_drawn(replies, identifier) && undo->0 == temporary_name(identifier),
    ensures
        match quarantined(replies, at, dir, name, prefix, held, undo, code, euid) {
            Ok((aside, next)) => at <= next && was_recognised(replies),
            Err(StopView::Await(action)) => is_harmless(action, replies),
            _ => true,
        },
{
    match quarantined(replies, at, dir, name, prefix, held, undo, code, euid) {
        Ok((aside, next)) => {
            let moved = replies[next - 1]->Stat_0;
            assert(replies[next - 1] == Reply::Stat(moved));
            assert(was_described(replies, moved));
            assert(same_object(held, moved));
        },
        _ => {},
    }
}

proof fn lemma_read_back(
    replies: Seq<Reply>,
    at: int,
    dir: DirView,
    name: Seq<char>,
    bytes: Seq<u8>,
    maximum: usize,
    euid: u32,
)
    requires
        0 <= at,
    ensures
        match read_back(replies, at, dir, name, bytes, maximum, euid) {
            Ok(next) => at <= next && was_read(replies, bytes),
            Err(StopView::Await(action)) => is_harmless(action, replies),
            _ => true,
        },
{
    match read_back(replies, at, dir, name, bytes, maximum, euid) {
        Ok(next) => {
            assert(replies[next - 2] is Bytes && replies[next - 2]->Bytes_0@ == bytes);
        },
        _ => {},
    }
}

/// Publishing destroys nothing that is not ours: it replaces no file, removes
/// no name but that of its own unpublished file, and empties only the file
/// that it held and then recognised where it had been moved to.
pub proof fn law_publishing_is_harmless(
    replies: Seq<Reply>,
    dir: DirView,
    name: Seq<char>,
    bytes: Seq<u8>,
    maximum: usize,
    euid: u32,
)
    ensures
        published(replies, 0, dir, name, bytes, maximum, euid) matches Err(
            StopView::Await(action),
        ) ==> is_harmless(action, replies),
{
    lemma_published(replies, dir, name, bytes, maximum, euid);
}

proof fn lemma_published(
    replies: Seq<Reply>,
    dir: DirView,
    name: Seq<char>,
    bytes: Seq<u8>,
    maximum: usize,
    euid: u32,
)
    ensures
        match published(replies, 0, dir, name, bytes, maximum, euid) {
            Ok(next) => was_read(replies, bytes),
            Err(StopView::Await(action)) => is_harmless(action, replies),
            _ => true,
        },
{
    lemma_existing(replies, 0, dir, name, "publish_failed"@, euid);
    if let Ok((existing, at)) = existing_held(replies, 0, dir, name, "publish_failed"@, euid) {
        lemma_temporary(replies, at, dir, bytes, maximum, euid);
        if let Ok((temporary, at)) = temporary_created(replies, at, dir, bytes, maximum, euid) {
            if let Some(held) = existing {
                lemma_quarantined(
                    replies,
                    at,
                    dir,
                    name,
                    ".replace-"@,
                    held,
                    Some(temporary),
                    "publish_failed"@,
                    euid,
                );
            }
            if let Ok((aside, at)) = existing_set_aside(
                replies,
                at,
                dir,
                name,
                existing,
                temporary,
                euid,
            ) {
                if let Ok(at) = installed(replies, at, dir, name, temporary, aside) {
                    lemma_read_back(replies, at, dir, name, bytes, maximum, euid);
                }
            }
        }
    }
}

/// What was published was read back: publishing succeeds only where the file
/// under the public name held exactly the published bytes.
pub proof fn law_published_bytes_are_read_back(
    replies: Seq<Reply>,
    dir: DirView,
    name: Seq<char>,
    bytes: Seq<u8>,
    maximum: usize,
    euid: u32,
)
    requires
        published(replies, 0, dir, name, bytes, maximum, euid) is Ok,
    ensures
        was_read(replies, bytes),
        bytes.len() <= maximum,
{
    lemma_published(replies, dir, name, bytes, maximum, euid);
}

/// Removing destroys nothing that is not ours, and never removes a name: the
/// file is moved aside and emptied through the descriptor that holds it.
pub proof fn law_removing_is_harmless(
    replies: Seq<Reply>,
    dir: DirView,
    name: Seq<char>,
    euid: u32,
)
    ensures
        removed(replies, 0, dir, name, euid) matches Err(StopView::Await(action)) ==> is_harmless(
            action,
            replies,
        ) && !(action is Unlink),
{
    lemma_existing(replies, 0, dir, name, "remove_failed"@, euid);
    if let Ok((Some(held), at)) = existing_held(replies, 0, dir, name, "remove_failed"@, euid) {
        lemma_quarantined(
            replies,
            at,
            dir,
            name,
            ".remove-"@,
            held,
            None,
            "remove_failed"@,
            euid,
        );
    }
}

/// Whatever is read is private, bounded and whole: a file is handed out only
/// where the system described it as a private one, and then with no more bytes
/// than were asked for, and with as many as the file had in the end.
pub proof fn law_private_reads_are_bounded(
    replies: Seq<Reply>,
    at: int,
    dir: DirView,
    name: Seq<char>,
    maximum: usize,
    euid: u32,
)
    requires
        0 <= at,
    ensures
        named_read(replies, at, dir, name, maximum, euid) matches Ok((Some(bytes), next)) ==> {
            &&& bytes.len() <= maximum
            &&& exists|k: int|
                at <= k < next && (#[trigger] replies[k]) is Stat && is_private_file(
                    replies[k]->Stat_0,
                    euid,
                )
            &&& replies[next - 1] is Stat && replies[next - 1]->Stat_0.len == bytes.len()
        },
{
    if file_opened(replies, at, dir, name, Access::Read, Slot::Reading, euid) matches Ok(
        (true, _),
    ) {
        assert(replies[at + 1] is Stat);
    }
}

/// What is too long is not published, and nothing is changed for it: whatever the
/// system answers, it is only asked to open and describe what stands there.
pub proof fn law_oversized_file_is_not_published(
    replies: Seq<Reply>,
    dir: DirView,
    name: Seq<char>,
    bytes: Seq<u8>,
    maximum: usize,
    euid: u32,
)
    requires
        bytes.len() > maximum,
    ensures
        match published(replies, 0, dir, name, bytes, maximum, euid) {
            Ok(_) => false,
            Err(StopView::Await(action)) => action is OpenFile || action is Stat,
            Err(_) => true,
        },
{
}

/// What cannot be opened safely, such as a symbolic link, is left alone: nothing
/// is published in its place, and nothing more is asked.
pub proof fn law_unsafe_file_is_not_replaced(
    replies: Seq<Reply>,
    dir: DirView,
    name: Seq<char>,
    bytes: Seq<u8>,
    maximum: usize,
    euid: u32,
)
    requires
        is_component(name),
        replies.len() > 0,
        replies[0] matches Reply::Failed(error) && error.kind != OsErrorKind::NotFound,
    ensures
        published(replies, 0, dir, name, bytes, maximum, euid) == Err::<int, StopView>(
            refused_io("unsafe_file"@, joined(dir.path, name), replies[0]->Failed_0),
        ),
        published(replies.take(0), 0, dir, name, bytes, maximum, euid) == Err::<int, StopView>(
            StopView::Await(
                ActionView::OpenFile {
                    dir: dir.slot,
                    name,
                    access: Access::ReadWrite,
                    into: Slot::Existing,
                },
            ),
        ),
{
}

} // verus!
