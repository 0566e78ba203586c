//! Private files of the service: publishing one in the place of another,
//! reading one whole, and removing one, without ever overwriting or deleting a
//! file that somebody else put in place.

use crate::dialogue::{
    ask_anything, ask_done, is_same_object, must_bytes, must_do, must_done, must_give_bytes,
    must_give_text, must_stat, must_stat_slot, must_text, refuse, refuse_io, refused, refused_io,
    run_of, said_anything, said_done, same_object, steps_of, Access, Action, ActionView, FileStat,
    Reply, Run, Slot, Stop, StopView,
};
use crate::failure::{debug_quoted, debug_text, OsFailure};
use crate::private_dir::{
    base_opened, child, child_opened, directory_synced, file_checked, file_opened,
    open_platform_base, open_private_optional, sync_directory, validate_private_file, BasePath, Dir,
    DirView, PRIVATE_FILE, RUNTIME_DIR,
};
use crate::text::{copy_bytes, decimal, decimal_text, join_text, joined, same_bytes};
use vstd::prelude::*;

verus! {

/// The three steps that fill a new file, or the system error of the first that
/// fails.
pub open spec fn file_filled(replies: Seq<Reply>, at: int, slot: Slot, bytes: Seq<u8>) -> Run<
    Result<(), OsFailure>,
> {
    match said_done(replies, at, ActionView::SetMode { slot, mode: PRIVATE_FILE }) {
        Err(stop) => Err(stop),
        Ok((Err(error), at)) => Ok((Err(error), at)),
        Ok((Ok(()), at)) => match said_done(replies, at, ActionView::Write { slot, bytes }) {
            Err(stop) => Err(stop),
            Ok((Err(error), at)) => Ok((Err(error), at)),
            Ok((Ok(()), at)) => said_done(replies, at, ActionView::SyncFile { slot }),
        },
    }
}

/// Fills a new file.
pub fn fill_file<'a>(replies: &'a Vec<Reply>, at: usize, slot: Slot, bytes: &[u8]) -> (run: Result<
    (Result<(), &'a OsFailure>, usize),
    Stop,
>)
    ensures
        match (run, file_filled(replies@, at as int, slot, bytes@)) {
            (Ok((Ok(()), next)), Ok((Ok(()), then))) => next == then,
            (Ok((Err(error), next)), Ok((Err(failed), then))) => *error == failed && next == then,
            (Err(stop), Err(stopped)) => stop@ == stopped,
            _ => false,
        },
{
    match ask_done(replies, at, Action::SetMode { slot, mode: PRIVATE_FILE })? {
        (Err(error), at) => Ok((Err(error), at)),
        (Ok(()), at) => match ask_done(
            replies,
            at,
            Action::Write { slot, bytes: copy_bytes(bytes) },
        )? {
            (Err(error), at) => Ok((Err(error), at)),
            (Ok(()), at) => ask_done(replies, at, Action::SyncFile { slot }),
        },
    }
}

/// The name of a file that is not public yet.
pub open spec fn temporary_name(identifier: Seq<char>) -> Seq<char> {
    ".wez-dmux.json.tmp-"@ + identifier
}

/// A new private file under a fresh name, filled, checked and durable. Where it
/// cannot be filled its name is removed again.
pub open spec fn temporary_created(
    replies: Seq<Reply>,
    at: int,
    dir: DirView,
    bytes: Seq<u8>,
    maximum: usize,
    euid: u32,
) -> Run<Seq<char>> {
    if bytes.len() > maximum {
        Err(
            refused(
                "invalid_descriptor"@,
                "document exceeds "@ + decimal(maximum as nat) + " bytes"@,
            ),
        )
    } else {
        match must_give_text(replies, at, ActionView::DrawIdentifier) {
            Err(stop) => Err(stop),
            Ok((identifier, at)) => {
                let name = temporary_name(identifier);
                let path = joined(dir.path, name);
                match must_do(
                    replies,
                    at,
                    ActionView::CreateFile {
                        dir: dir.slot,
                        name,
                        access: Access::Write,
                        into: Slot::Temporary,
                    },
                    "publish_failed"@,
                    path,
                ) {
                    Err(stop) => Err(stop),
                    Ok(at) => match file_filled(replies, at, Slot::Temporary, bytes) {
                        Err(stop) => Err(stop),
                        Ok((Err(error), at)) => match said_anything(
                            replies,
                            at,
                            ActionView::Unlink { dir: dir.slot, name },
                        ) {
                            Err(stop) => Err(stop),
                            Ok(at) => Err(refused_io("publish_failed"@, path, error)),
                        },
                        Ok((Ok(()), at)) => match file_checked(
                            replies,
                            at,
                            Slot::Temporary,
                            path,
                            euid,
                        ) {
                            Err(stop) => Err(stop),
                            Ok(at) => Ok((name, at)),
                        },
                    },
                }
            },
        }
    }
}

/// Creates a private file under a fresh name.
pub fn create_private_temp(
    replies: &Vec<Reply>,
    at: usize,
    dir: &Dir,
    bytes: &[u8],
    maximum: usize,
    euid: u32,
) -> (run: Result<(String, usize), Stop>)
    ensures
        run_of(run) == temporary_created(replies@, at as int, dir@, bytes@, maximum, euid),
{
    if bytes.len() > maximum {
        return Err(
            refuse(
                "invalid_descriptor",
                "document exceeds ".to_owned().concat(decimal_text(maximum as u64).as_str()).concat(
                    " bytes",
                ),
            ),
        );
    }
    let (identifier, at) = must_text(replies, at, Action::DrawIdentifier)?;
    let name = ".wez-dmux.json.tmp-".to_owned().concat(identifier.as_str());
    let path = join_text(dir.path.as_str(), name.as_str());
    let at = must_done(
        replies,
        at,
        Action::CreateFile {
            dir: dir.slot,
            name: name.clone(),
            access: Access::Write,
            into: Slot::Temporary,
        },
        "publish_failed",
        path.as_str(),
    )?;
    match fill_file(replies, at, Slot::Temporary, bytes)? {
        (Err(error), at) => {
            let _at: usize = ask_anything(
                replies,
                at,
                Action::Unlink { dir: dir.slot, name: name.clone() },
            )?;
            Err(refuse_io("publish_failed", path.as_str(), error))
        },
        (Ok(()), at) => {
            let at = validate_private_file(replies, at, Slot::Temporary, path.as_str(), euid)?;
            Ok((name, at))
        },
    }
}

/// One more than a length, or the largest length.
pub open spec fn one_more(maximum: usize) -> u64 {
    if maximum == usize::MAX {
        usize::MAX as u64
    } else {
        (maximum + 1) as u64
    }
}

/// One more than a length, or the largest length.
pub fn beyond(maximum: usize) -> (limit: u64)
    ensures
        limit == one_more(maximum),
{
    if maximum == usize::MAX {
        maximum as u64
    } else {
        (maximum + 1) as u64
    }
}

/// The bytes of a held private file, read whole. The file must not be longer
/// than the maximum, nor change its length meanwhile.
pub open spec fn held_read(
    replies: Seq<Reply>,
    at: int,
    slot: Slot,
    path: Seq<char>,
    maximum: usize,
    euid: u32,
) -> Run<Seq<u8>> {
    match file_checked(replies, at, slot, path, euid) {
        Err(stop) => Err(stop),
        Ok(at) => match must_stat_slot(replies, at, slot, "read_failed"@, path) {
            Err(stop) => Err(stop),
            Ok((before, at)) => if before.len > maximum {
                Err(
                    refused(
                        "message_too_large"@,
                        path + " exceeds "@ + decimal(maximum as nat) + " bytes"@,
                    ),
                )
            } else {
                match must_give_bytes(
                    replies,
                    at,
                    ActionView::Read { slot, limit: one_more(maximum) },
                    "read_failed"@,
                    path,
                ) {
                    Err(stop) => Err(stop),
                    Ok((bytes, at)) => match must_stat_slot(
                        replies,
                        at,
                        slot,
                        "read_failed"@,
                        path,
                    ) {
                        Err(stop) => Err(stop),
                        Ok((after, at)) => if bytes.len() > maximum || before.len != after.len
                            || bytes.len() != after.len {
                            Err(
                                refused(
                                    "descriptor_changed"@,
                                    path + " changed while being read"@,
                                ),
                            )
                        } else {
                            Ok((bytes, at))
                        },
                    },
                }
            },
        },
    }
}

/// Reads a held private file whole.
pub fn read_held_bounded<'a>(
    replies: &'a Vec<Reply>,
    at: usize,
    slot: Slot,
    path: &str,
    maximum: usize,
    euid: u32,
) -> (run: Result<(&'a Vec<u8>, usize), Stop>)
    ensures
        match (run, held_read(replies@, at as int, slot, path@, maximum, euid)) {
            (Ok((bytes, next)), Ok((read, then))) => bytes@ == read && next == then,
            (Err(stop), Err(stopped)) => stop@ == stopped,
            _ => false,
        },
{
    let at = validate_private_file(replies, at, slot, path, euid)?;
    let (before, at) = must_stat(replies, at, slot, "read_failed", path)?;
    if before.len > maximum as u64 {
        return Err(
            refuse(
                "message_too_large",
                path.to_owned().concat(" exceeds ").concat(
                    decimal_text(maximum as u64).as_str(),
                ).concat(" bytes"),
            ),
        );
    }
    let (bytes, at) = must_bytes(
        replies,
        at,
        Action::Read { slot, limit: beyond(maximum) },
        "read_failed",
        path,
    )?;
    let (after, at) = must_stat(replies, at, slot, "read_failed", path)?;
    if bytes.len() > maximum || before.len != after.len || bytes.len() as u64 != after.len {
        return Err(
            refuse("descriptor_changed", path.to_owned().concat(" changed while being read")),
        );
    }
    Ok((bytes, at))
}

/// The bytes of a private file, if there is one of this name.
pub open spec fn named_read(
    replies: Seq<Reply>,
    at: int,
    dir: DirView,
    name: Seq<char>,
    maximum: usize,
    euid: u32,
) -> Run<Option<Seq<u8>>> {
    match file_opened(replies, at, dir, name, Access::Read, Slot::Reading, euid) {
        Err(stop) => Err(stop),
        Ok((false, at)) => Ok((None, at)),
        Ok((true, at)) => match held_read(
            replies,
            at,
            Slot::Reading,
            joined(dir.path, name),
            maximum,
            euid,
        ) {
            Err(stop) => Err(stop),
            Ok((bytes, at)) => Ok((Some(bytes), at)),
        },
    }
}

/// Reads a private file whole, if there is one of this name.
pub fn read_private_named<'a>(
    replies: &'a Vec<Reply>,
    at: usize,
    dir: &Dir,
    name: &str,
    maximum: usize,
    euid: u32,
) -> (run: Result<(Option<&'a Vec<u8>>, usize), Stop>)
    ensures
        match (run, named_read(replies@, at as int, dir@, name@, maximum, euid)) {
            (Ok((Some(bytes), next)), Ok((Some(read), then))) => bytes@ == read && next == then,
            (Ok((None, next)), Ok((None, then))) => next == then,
            (Err(stop), Err(stopped)) => stop@ == stopped,
            _ => false,
        },
{
    let (found, at) = open_private_optional(
        replies,
        at,
        dir,
        name,
        Access::Read,
        Slot::Reading,
        euid,
    )?;
    if !found {
        return Ok((None, at));
    }
    let path = join_text(dir.path.as_str(), name);
    let (bytes, at) = read_held_bounded(
        replies,
        at,
        Slot::Reading,
        path.as_str(),
        maximum,
        euid,
    )?;
    Ok((Some(bytes), at))
}

/// A file that was moved out of the way under a fresh name, once it proved to
/// be the one that is held. Another file that turns up there is moved back,
/// and `undo` is then removed.
pub open spec fn quarantined(
    replies: Seq<Reply>,
    at: int,
    dir: DirView,
    name: Seq<char>,
    prefix: Seq<char>,
    held: FileStat,
    undo: Option<Seq<char>>,
    code: Seq<char>,
    euid: u32,
) -> Run<Seq<char>> {
    match must_give_text(replies, at, ActionView::DrawIdentifier) {
        Err(stop) => Err(stop),
        Ok((identifier, at)) => {
            let aside = prefix + identifier;
            match said_done(
                replies,
                at,
                ActionView::RenameNoReplace {
                    from_dir: dir.slot,
                    from: name,
                    to_dir: dir.slot,
                    to: aside,
                },
            ) {
                Err(stop) => Err(stop),
                Ok((Err(error), at)) => match undone(replies, at, dir, undo) {
                    Err(stop) => Err(stop),
                    Ok(at) => Err(refused_io(code, joined(dir.path, name), error)),
                },
                Ok((Ok(()), at)) => match file_opened(
                    replies,
                    at,
                    dir,
                    aside,
                    Access::Read,
                    Slot::Quarantined,
                    euid,
                ) {
                    Err(stop) => Err(stop),
                    Ok((false, at)) => Err(refused(code, "quarantined file disappeared"@)),
                    Ok((true, at)) => match must_stat_slot(
                        replies,
                        at,
                        Slot::Quarantined,
                        code,
                        joined(dir.path, aside),
                    ) {
                        Err(stop) => Err(stop),
                        Ok((moved, at)) => if same_object(held, moved) {
                            Ok((aside, at))
                        } else {
                            match said_anything(
                                replies,
                                at,
                                ActionView::RenameNoReplace {
                                    from_dir: dir.slot,
                                    from: aside,
                                    to_dir: dir.slot,
                                    to: name,
                                },
                            ) {
                                Err(stop) => Err(stop),
                                Ok(at) => match undone(replies, at, dir, undo) {
                                    Err(stop) => Err(stop),
                                    Ok(at) => Err(
                                        refused(
                                            code,
                                            debug_quoted(name)
                                                + " changed before atomic quarantine"@,
                                        ),
                                    ),
                                },
                            }
                        },
                    },
                },
            }
        },
    }
}

/// A name of our own that is removed again, if there is one.
pub open spec fn undone(replies: Seq<Reply>, at: int, dir: DirView, undo: Option<Seq<char>>) -> Result<
    int,
    StopView,
> {
    match undo {
        Some(name) => said_anything(replies, at, ActionView::Unlink { dir: dir.slot, name }),
        None => Ok(at),
    }
}

/// The view of an optional borrowed name.
pub open spec fn optional_name(name: Option<&String>) -> Option<Seq<char>> {
    match name {
        Some(name) => Some(name@),
        None => None,
    }
}

fn undo_name(replies: &Vec<Reply>, at: usize, dir: &Dir, undo: Option<&String>) -> (run: Result<
    usize,
    Stop,
>)
    ensures
        steps_of(run) == undone(replies@, at as int, dir@, optional_name(undo)),
{
    match undo {
        Some(name) => ask_anything(
            replies,
            at,
            Action::Unlink { dir: dir.slot, name: name.clone() },
        ),
        None => Ok(at),
    }
}

/// Moves a held file out of the way.
fn quarantine(
    replies: &Vec<Reply>,
    at: usize,
    dir: &Dir,
    name: &str,
    prefix: &str,
    held: &FileStat,
    undo: Option<&String>,
    code: &'static str,
    euid: u32,
) -> (run: Result<(String, usize), Stop>)
    ensures
        run_of(run) == quarantined(
            replies@,
            at as int,
            dir@,
            name@,
            prefix@,
            *held,
            optional_name(undo),
            code@,
            euid,
        ),
{
    let (identifier, at) = must_text(replies, at, Action::DrawIdentifier)?;
    let aside = prefix.to_owned().concat(identifier.as_str());
    let (renamed, at) = ask_done(
        replies,
        at,
        Action::RenameNoReplace {
            from_dir: dir.slot,
            from: name.to_owned(),
            to_dir: dir.slot,
            to: aside.clone(),
        },
    )?;
    if let Err(error) = renamed {
        let path = join_text(dir.path.as_str(), name);
        let _at: usize = undo_name(replies, at, dir, undo)?;
        return Err(refuse_io(code, path.as_str(), error));
    }
    let (found, at) = open_private_optional(
        replies,
        at,
        dir,
        aside.as_str(),
        Access::Read,
        Slot::Quarantined,
        euid,
    )?;
    if !found {
        return Err(refuse(code, "quarantined file disappeared".to_owned()));
    }
    let aside_path = join_text(dir.path.as_str(), aside.as_str());
    let (moved, at) = must_stat(replies, at, Slot::Quarantined, code, aside_path.as_str())?;
    if !is_same_object(held, &moved) {
        let at = ask_anything(
            replies,
            at,
            Action::RenameNoReplace {
                from_dir: dir.slot,
                from: aside,
                to_dir: dir.slot,
                to: name.to_owned(),
            },
        )?;
        let _at: usize = undo_name(replies, at, dir, undo)?;
        return Err(refuse(code, debug_text(name).concat(" changed before atomic quarantine")));
    }
    Ok((aside, at))
}

/// What a public name stood for before it is replaced: the file is held open,
/// and this is what the system says of it.
pub open spec fn existing_held(
    replies: Seq<Reply>,
    at: int,
    dir: DirView,
    name: Seq<char>,
    code: Seq<char>,
    euid: u32,
) -> Run<Option<FileStat>> {
    match file_opened(replies, at, dir, name, Access::ReadWrite, Slot::Existing, euid) {
        Err(stop) => Err(stop),
        Ok((false, at)) => Ok((None, at)),
        Ok((true, at)) => match must_stat_slot(
            replies,
            at,
            Slot::Existing,
            code,
            joined(dir.path, name),
        ) {
            Err(stop) => Err(stop),
            Ok((stat, at)) => Ok((Some(stat), at)),
        },
    }
}

/// Holds the file that a public name stands for, if there is one.
fn hold_existing(
    replies: &Vec<Reply>,
    at: usize,
    dir: &Dir,
    name: &str,
    code: &'static str,
    euid: u32,
) -> (run: Result<(Option<FileStat>, usize), Stop>)
    ensures
        run_of(run) == existing_held(replies@, at as int, dir@, name@, code@, euid),
{
    let (found, at) = open_private_optional(
        replies,
        at,
        dir,
        name,
        Access::ReadWrite,
        Slot::Existing,
        euid,
    )?;
    if !found {
        return Ok((None, at));
    }
    let path = join_text(dir.path.as_str(), name);
    let (stat, at) = must_stat(replies, at, Slot::Existing, code, path.as_str())?;
    Ok((Some(stat), at))
}

/// The old file, moved out of the way, if there was one.
pub open spec fn existing_set_aside(
    replies: Seq<Reply>,
    at: int,
    dir: DirView,
    name: Seq<char>,
    existing: Option<FileStat>,
    temporary: Seq<char>,
    euid: u32,
) -> Run<Option<Seq<char>>> {
    match existing {
        None => Ok((None, at)),
        Some(held) => match quarantined(
            replies,
            at,
            dir,
            name,
            ".replace-"@,
            held,
            Some(temporary),
            "publish_failed"@,
            euid,
        ) {
            Err(stop) => Err(stop),
            Ok((aside, at)) => Ok((Some(aside), at)),
        },
    }
}

/// The new file under the public name. Where that name is taken, the new file
/// is removed and the old one moved back.
pub open spec fn installed(
    replies: Seq<Reply>,
    at: int,
    dir: DirView,
    name: Seq<char>,
    temporary: Seq<char>,
    aside: Option<Seq<char>>,
) -> Result<int, StopView> {
    match said_done(
        replies,
        at,
        ActionView::RenameNoReplace {
            from_dir: dir.slot,
            from: temporary,
            to_dir: dir.slot,
            to: name,
        },
    ) {
        Err(stop) => Err(stop),
        Ok((Ok(()), at)) => Ok(at),
        Ok((Err(error), at)) => match said_anything(
            replies,
            at,
            ActionView::Unlink { dir: dir.slot, name: temporary },
        ) {
            Err(stop) => Err(stop),
            Ok(at) => {
                let failed = refused_io("publish_failed"@, joined(dir.path, name), error);
                match aside {
                    None => Err(failed),
                    Some(aside) => match said_anything(
                        replies,
                        at,
                        ActionView::RenameNoReplace {
                            from_dir: dir.slot,
                            from: aside,
                            to_dir: dir.slot,
                            to: name,
                        },
                    ) {
                        Err(stop) => Err(stop),
                        Ok(at) => Err(failed),
                    },
                }
            },
        },
    }
}

fn install(
    replies: &Vec<Reply>,
    at: usize,
    dir: &Dir,
    name: &str,
    temporary: &String,
    aside: Option<&String>,
) -> (run: Result<usize, Stop>)
    ensures
        steps_of(run) == installed(
            replies@,
            at as int,
            dir@,
            name@,
            temporary@,
            optional_name(aside),
        ),
{
    let (renamed, at) = ask_done(
        replies,
        at,
        Action::RenameNoReplace {
            from_dir: dir.slot,
            from: temporary.clone(),
            to_dir: dir.slot,
            to: name.to_owned(),
        },
    )?;
    match renamed {
        Ok(()) => Ok(at),
        Err(error) => {
            let at = ask_anything(
                replies,
                at,
                Action::Unlink { dir: dir.slot, name: temporary.clone() },
            )?;
            if let Some(aside) = aside {
                let _at: usize = ask_anything(
                    replies,
                    at,
                    Action::RenameNoReplace {
                        from_dir: dir.slot,
                        from: aside.clone(),
                        to_dir: dir.slot,
                        to: name.to_owned(),
                    },
                )?;
            }
            let path = join_text(dir.path.as_str(), name);
            Err(refuse_io("publish_failed", path.as_str(), error))
        },
    }
}

/// The new file, read back from the public name.
pub open spec fn read_back(
    replies: Seq<Reply>,
    at: int,
    dir: DirView,
    name: Seq<char>,
    bytes: Seq<u8>,
    maximum: usize,
    euid: u32,
) -> Result<int, StopView> {
    match file_opened(replies, at, dir, name, Access::Read, Slot::Published, euid) {
        Err(stop) => Err(stop),
        Ok((false, at)) => Err(refused("publish_failed"@, "descriptor disappeared"@)),
        Ok((true, at)) => match held_read(
            replies,
            at,
            Slot::Published,
            joined(dir.path, name),
            maximum,
            euid,
        ) {
            Err(stop) => Err(stop),
            Ok((actual, at)) => if actual == bytes {
                Ok(at)
            } else {
                Err(refused("publish_failed"@, "published descriptor bytes changed"@))
            },
        },
    }
}

fn check_published(
    replies: &Vec<Reply>,
    at: usize,
    dir: &Dir,
    name: &str,
    bytes: &[u8],
    maximum: usize,
    euid: u32,
) -> (run: Result<usize, Stop>)
    ensures
        steps_of(run) == read_back(replies@, at as int, dir@, name@, bytes@, maximum, euid),
{
    let (found, at) = open_private_optional(
        replies,
        at,
        dir,
        name,
        Access::Read,
        Slot::Published,
        euid,
    )?;
    if !found {
        return Err(refuse("publish_failed", "descriptor disappeared".to_owned()));
    }
    let path = join_text(dir.path.as_str(), name);
    let (actual, at) = read_held_bounded(
        replies,
        at,
        Slot::Published,
        path.as_str(),
        maximum,
        euid,
    )?;
    if !same_bytes(actual.as_slice(), bytes) {
        return Err(refuse("publish_failed", "published descriptor bytes changed".to_owned()));
    }
    Ok(at)
}

/// The held old file, emptied and durable.
pub open spec fn emptied(
    replies: Seq<Reply>,
    at: int,
    code: Seq<char>,
    truncating: Seq<char>,
    syncing: Seq<char>,
) -> Result<int, StopView> {
    match must_do(replies, at, ActionView::Truncate { slot: Slot::Existing }, code, truncating) {
        Err(stop) => Err(stop),
        Ok(at) => must_do(
            replies,
            at,
            ActionView::SyncFile { slot: Slot::Existing },
            code,
            syncing,
        ),
    }
}

fn empty_existing(
    replies: &Vec<Reply>,
    at: usize,
    code: &'static str,
    truncating: &str,
    syncing: &str,
) -> (run: Result<usize, Stop>)
    ensures
        steps_of(run) == emptied(replies@, at as int, code@, truncating@, syncing@),
{
    let at = must_done(
        replies,
        at,
        Action::Truncate { slot: Slot::Existing },
        code,
        truncating,
    )?;
    must_done(replies, at, Action::SyncFile { slot: Slot::Existing }, code, syncing)
}

/// A document published under a name. The file that had the name before is
/// moved aside and, once the new one was read back, emptied through the
/// descriptor that holds it.
pub open spec fn published(
    replies: Seq<Reply>,
    at: int,
    dir: DirView,
    name: Seq<char>,
    bytes: Seq<u8>,
    maximum: usize,
    euid: u32,
) -> Result<int, StopView> {
    match existing_held(replies, at, dir, name, "publish_failed"@, euid) {
        Err(stop) => Err(stop),
        Ok((existing, at)) => match temporary_created(replies, at, dir, bytes, maximum, euid) {
            Err(stop) => Err(stop),
            Ok((temporary, at)) => match existing_set_aside(
                replies,
                at,
                dir,
                name,
                existing,
                temporary,
                euid,
            ) {
                Err(stop) => Err(stop),
                Ok((aside, at)) => match installed(replies, at, dir, name, temporary, aside) {
                    Err(stop) => Err(stop),
                    Ok(at) => match read_back(replies, at, dir, name, bytes, maximum, euid) {
                        Err(stop) => Err(stop),
                        Ok(at) => if existing is None {
                            directory_synced(replies, at, dir.slot)
                        } else {
                            match emptied(
                                replies,
                                at,
                                "publish_failed"@,
                                "truncate replaced private file"@,
                                "sync replaced private file"@,
                            ) {
                                Err(stop) => Err(stop),
                                Ok(at) => directory_synced(replies, at, dir.slot),
                            }
                        },
                    },
                },
            },
        },
    }
}

/// Publishes a document under a name.
pub fn publish_named_replace(
    replies: &Vec<Reply>,
    at: usize,
    dir: &Dir,
    name: &str,
    bytes: &[u8],
    maximum: usize,
    euid: u32,
) -> (run: Result<usize, Stop>)
    ensures
        steps_of(run) == published(replies@, at as int, dir@, name@, bytes@, maximum, euid),
{
    let (existing, at) = hold_existing(replies, at, dir, name, "publish_failed", euid)?;
    let (temporary, at) = create_private_temp(replies, at, dir, bytes, maximum, euid)?;
    match &existing {
        None => {
            let at = install(replies, at, dir, name, &temporary, None)?;
            let at = check_published(replies, at, dir, name, bytes, maximum, euid)?;
            sync_directory(replies, at, dir.slot)
        },
        Some(held) => {
            let (aside, at) = quarantine(
                replies,
                at,
                dir,
                name,
                ".replace-",
                held,
                Some(&temporary),
                "publish_failed",
                euid,
            )?;
            let at = install(replies, at, dir, name, &temporary, Some(&aside))?;
            let at = check_published(replies, at, dir, name, bytes, maximum, euid)?;
            let at = empty_existing(
                replies,
                at,
                "publish_failed",
                "truncate replaced private file",
                "sync replaced private file",
            )?;
            sync_directory(replies, at, dir.slot)
        },
    }
}

/// Whether a public name was removed: the file is moved aside and emptied
/// through the descriptor that holds it, and its entry aside is left behind.
pub open spec fn removed(
    replies: Seq<Reply>,
    at: int,
    dir: DirView,
    name: Seq<char>,
    euid: u32,
) -> Run<bool> {
    match existing_held(replies, at, dir, name, "remove_failed"@, euid) {
        Err(stop) => Err(stop),
        Ok((None, at)) => Ok((false, at)),
        Ok((Some(held), at)) => match quarantined(
            replies,
            at,
            dir,
            name,
            ".remove-"@,
            held,
            None,
            "remove_failed"@,
            euid,
        ) {
            Err(stop) => Err(stop),
            Ok((aside, at)) => match emptied(
                replies,
                at,
                "remove_failed"@,
                "truncate quarantined private file"@,
                "sync quarantined private file"@,
            ) {
                Err(stop) => Err(stop),
                Ok(at) => match directory_synced(replies, at, dir.slot) {
                    Err(stop) => Err(stop),
                    Ok(at) => Ok((true, at)),
                },
            },
        },
    }
}

/// Removes a public name, if there is a file of this name.
pub fn remove_private_verified(
    replies: &Vec<Reply>,
    at: usize,
    dir: &Dir,
    name: &str,
    euid: u32,
) -> (run: Result<(bool, usize), Stop>)
    ensures
        run_of(run) == removed(replies@, at as int, dir@, name@, euid),
{
    let (existing, at) = hold_existing(replies, at, dir, name, "remove_failed", euid)?;
    match &existing {
        None => Ok((false, at)),
        Some(held) => {
            let (_aside, at) = quarantine(
                replies,
                at,
                dir,
                name,
                ".remove-",
                held,
                None,
                "remove_failed",
                euid,
            )?;
            let at = empty_existing(
                replies,
                at,
                "remove_failed",
                "truncate quarantined private file",
                "sync quarantined private file",
            )?;
            let at = sync_directory(replies, at, dir.slot)?;
            Ok((true, at))
        },
    }
}

/// Two held directories, once they proved to be the same one.
pub open spec fn same_directory_checked(
    replies: Seq<Reply>,
    at: int,
    held: Slot,
    current: Slot,
    label: Seq<char>,
) -> Result<int, StopView> {
    match must_stat_slot(replies, at, held, "runtime_changed"@, label) {
        Err(stop) => Err(stop),
        Ok((before, at)) => match must_stat_slot(
            replies,
            at,
            current,
            "runtime_changed"@,
            label,
        ) {
            Err(stop) => Err(stop),
            Ok((now, at)) => if same_object(before, now) {
                Ok(at)
            } else {
                Err(refused("runtime_changed"@, label + " path changed during operation"@))
            },
        },
    }
}

fn check_same_directory(
    replies: &Vec<Reply>,
    at: usize,
    held: Slot,
    current: Slot,
    label: &str,
) -> (run: Result<usize, Stop>)
    ensures
        steps_of(run) == same_directory_checked(replies@, at as int, held, current, label@),
{
    let (before, at) = must_stat(replies, at, held, "runtime_changed", label)?;
    let (now, at) = must_stat(replies, at, current, "runtime_changed", label)?;
    if !is_same_object(&before, &now) {
        return Err(
            refuse("runtime_changed", label.to_owned().concat(" path changed during operation")),
        );
    }
    Ok(at)
}

/// The held directories, once the paths still lead to them.
pub open spec fn runtime_revalidated(replies: Seq<Reply>, at: int, base: BasePath, euid: u32) -> Result<
    int,
    StopView,
> {
    match base_opened(replies, at, base, Slot::CurrentBase, euid) {
        Err(stop) => Err(stop),
        Ok((current, at)) => match child_opened(
            replies,
            at,
            current,
            RUNTIME_DIR@,
            Slot::CurrentRuntime,
            euid,
        ) {
            Err(stop) => Err(stop),
            Ok((_, at)) => match same_directory_checked(
                replies,
                at,
                Slot::Base,
                Slot::CurrentBase,
                "runtime base"@,
            ) {
                Err(stop) => Err(stop),
                Ok(at) => same_directory_checked(
                    replies,
                    at,
                    Slot::Runtime,
                    Slot::CurrentRuntime,
                    "dmux runtime"@,
                ),
            },
        },
    }
}

/// Checks that the paths still lead to the held directories.
pub fn revalidate_runtime_path(replies: &Vec<Reply>, at: usize, base: &BasePath, euid: u32) -> (run:
    Result<usize, Stop>)
    ensures
        steps_of(run) == runtime_revalidated(replies@, at as int, *base, euid),
{
    let (current, at) = open_platform_base(replies, at, base, Slot::CurrentBase, euid)?;
    let (_runtime, at) = child(replies, at, &current, RUNTIME_DIR, Slot::CurrentRuntime, euid)?;
    let at = check_same_directory(replies, at, Slot::Base, Slot::CurrentBase, "runtime base")?;
    check_same_directory(replies, at, Slot::Runtime, Slot::CurrentRuntime, "dmux runtime")
}

} // verus!
