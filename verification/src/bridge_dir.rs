//! Private directories of the bridge: one open, checked directory below
//! another, and documents that appear in them whole or not at all.

use crate::dialogue::{
    ask_anything, ask_done, must_bytes, must_do, must_done, must_give_bytes, must_give_text,
    must_stat, must_stat_slot, must_text, refuse, refuse_io, refused, refused_io, run_of,
    said_anything, said_done, steps_of, Access, Action, ActionView, FileKind, FileStat, Reply, Run,
    Slot, Stop, StopView,
};
use crate::failure::{debug_quoted, debug_text, OsErrorKind};
use crate::identifier::{is_component, validate_bridge_component};
use crate::private_dir::{
    already_exists, contains_nul, file_checked, holds_nul, is_private_file, not_found,
    validate_private_file, BasePath, Dir, DirView, PERMISSIONS, PRIVATE_DIRECTORY,
    WRITABLE_BY_OTHERS,
};
use crate::private_files::{beyond, file_filled, fill_file, one_more};
use crate::text::{copy_bytes, decimal, decimal_text, join_text, joined};
use vstd::prelude::*;

verus! {

/// The most bytes that a document of the bridge may have.
pub const MAX_DOCUMENT_BYTES: usize = 65536;

/// One octal digit.
pub open spec fn octal_digit(d: u32) -> Seq<char> {
    if d == 0 {
        "0"@
    } else if d == 1 {
        "1"@
    } else if d == 2 {
        "2"@
    } else if d == 3 {
        "3"@
    } else if d == 4 {
        "4"@
    } else if d == 5 {
        "5"@
    } else if d == 6 {
        "6"@
    } else {
        "7"@
    }
}

fn octal_text(d: u32) -> (text: &'static str)
    ensures
        text@ == octal_digit(d),
{
    if d == 0 {
        "0"
    } else if d == 1 {
        "1"
    } else if d == 2 {
        "2"
    } else if d == 3 {
        "3"
    } else if d == 4 {
        "4"
    } else if d == 5 {
        "5"
    } else if d == 6 {
        "6"
    } else {
        "7"
    }
}

/// Permissions in four octal digits.
pub open spec fn octal_mode(mode: u32) -> Seq<char> {
    octal_digit(mode / 512 % 8) + octal_digit(mode / 64 % 8) + octal_digit(mode / 8 % 8)
        + octal_digit(mode % 8)
}

fn mode_text(mode: u32) -> (text: String)
    ensures
        text@ == octal_mode(mode),
{
    octal_text(mode / 512 % 8).to_owned().concat(octal_text(mode / 64 % 8)).concat(
        octal_text(mode / 8 % 8),
    ).concat(octal_text(mode % 8))
}

/// Why an object is no directory that the bridge trusts.
pub open spec fn bridge_directory_refusal(
    stat: FileStat,
    path: Seq<char>,
    exact: Option<u32>,
    euid: u32,
) -> Option<StopView> {
    let mode = stat.mode & PERMISSIONS;
    if stat.kind != FileKind::Directory || stat.uid != euid {
        Some(refused("unsafe_directory"@, path + " is not a current-user-owned directory"@))
    } else {
        match exact {
            Some(exact) => if mode != exact {
                Some(
                    refused(
                        "unsafe_directory"@,
                        path + " must be mode "@ + octal_mode(exact) + ", found "@ + octal_mode(
                            mode,
                        ),
                    ),
                )
            } else {
                None
            },
            None => if mode & WRITABLE_BY_OTHERS != 0 {
                Some(refused("unsafe_directory"@, path + " is group- or world-writable"@))
            } else {
                None
            },
        }
    }
}

/// A directory of the bridge that is held, once it was checked.
pub open spec fn bridge_directory_checked(
    replies: Seq<Reply>,
    at: int,
    slot: Slot,
    path: Seq<char>,
    exact: Option<u32>,
    euid: u32,
) -> Result<int, StopView> {
    match must_stat_slot(replies, at, slot, "unsafe_directory"@, path) {
        Err(stop) => Err(stop),
        Ok((stat, at)) => match bridge_directory_refusal(stat, path, exact, euid) {
            Some(stop) => Err(stop),
            None => Ok(at),
        },
    }
}

/// Checks a directory of the bridge that is held.
pub fn validate_dir(
    replies: &Vec<Reply>,
    at: usize,
    slot: Slot,
    path: &str,
    exact: Option<u32>,
    euid: u32,
) -> (run: Result<usize, Stop>)
    ensures
        steps_of(run) == bridge_directory_checked(replies@, at as int, slot, path@, exact, euid),
{
    let (stat, at) = must_stat(replies, at, slot, "unsafe_directory", path)?;
    let directory = match stat.kind {
        FileKind::Directory => true,
        _ => false,
    };
    if !directory || stat.uid != euid {
        return Err(
            refuse(
                "unsafe_directory",
                path.to_owned().concat(" is not a current-user-owned directory"),
            ),
        );
    }
    let mode: u32 = stat.mode & PERMISSIONS;
    match exact {
        Some(exact) => {
            if mode != exact {
                return Err(
                    refuse(
                        "unsafe_directory",
                        path.to_owned().concat(" must be mode ").concat(
                            mode_text(exact).as_str(),
                        ).concat(", found ").concat(mode_text(mode).as_str()),
                    ),
                );
            }
        },
        None => {
            if mode & WRITABLE_BY_OTHERS != 0 {
                return Err(
                    refuse(
                        "unsafe_directory",
                        path.to_owned().concat(" is group- or world-writable"),
                    ),
                );
            }
        },
    }
    Ok(at)
}

/// The directory of the platform, opened and checked for the bridge.
pub open spec fn bridge_base_opened(replies: Seq<Reply>, at: int, base: BasePath, euid: u32) -> Run<
    DirView,
> {
    if holds_nul(base.bytes@) {
        Err(refused("invalid_path"@, "platform runtime path contains NUL"@))
    } else {
        match must_do(
            replies,
            at,
            ActionView::OpenBase { path: base.bytes@, into: Slot::Base },
            "runtime_unavailable"@,
            base.display@,
        ) {
            Err(stop) => Err(stop),
            Ok(at) => match bridge_directory_checked(
                replies,
                at,
                Slot::Base,
                base.display@,
                None,
                euid,
            ) {
                Err(stop) => Err(stop),
                Ok(at) => Ok((DirView { slot: Slot::Base, path: base.display@ }, at)),
            },
        }
    }
}

/// Opens the directory of the platform for the bridge.
pub fn open_bridge_base(replies: &Vec<Reply>, at: usize, base: &BasePath, euid: u32) -> (run: Result<
    (Dir, usize),
    Stop,
>)
    ensures
        run_of(run) == bridge_base_opened(replies@, at as int, *base, euid),
{
    if contains_nul(base.bytes.as_slice()) {
        return Err(refuse("invalid_path", "platform runtime path contains NUL".to_owned()));
    }
    let path = copy_bytes(base.bytes.as_slice());
    let display = base.display.as_str();
    let at = must_done(
        replies,
        at,
        Action::OpenBase { path, into: Slot::Base },
        "runtime_unavailable",
        display,
    )?;
    let at = validate_dir(replies, at, Slot::Base, display, None, euid)?;
    Ok((Dir { slot: Slot::Base, path: base.display.clone() }, at))
}

/// The refusal of a name that is no safe component.
pub open spec fn unsafe_bridge_component() -> StopView {
    refused("invalid_component"@, "unsafe bridge path component"@)
}

fn require_bridge_component(name: &str) -> (result: Result<(), Stop>)
    ensures
        match result {
            Ok(()) => is_component(name@),
            Err(stop) => !is_component(name@) && stop@ == unsafe_bridge_component(),
        },
{
    match validate_bridge_component(name) {
        Ok(()) => Ok(()),
        Err(error) => Err(refuse(error.code, error.detail)),
    }
}

/// A directory of the bridge below another, opened and checked.
pub open spec fn bridge_child_opened(
    replies: Seq<Reply>,
    at: int,
    dir: DirView,
    name: Seq<char>,
    into: Slot,
    euid: u32,
) -> Run<DirView> {
    let path = joined(dir.path, name);
    if !is_component(name) {
        Err(unsafe_bridge_component())
    } else {
        match must_do(
            replies,
            at,
            ActionView::OpenDirectory { dir: dir.slot, name, into },
            "unsafe_directory"@,
            path,
        ) {
            Err(stop) => Err(stop),
            Ok(at) => match bridge_directory_checked(
                replies,
                at,
                into,
                path,
                Some(PRIVATE_DIRECTORY),
                euid,
            ) {
                Err(stop) => Err(stop),
                Ok(at) => Ok((DirView { slot: into, path }, at)),
            },
        }
    }
}

/// Opens a directory of the bridge below another.
pub fn bridge_child(
    replies: &Vec<Reply>,
    at: usize,
    dir: &Dir,
    name: &str,
    into: Slot,
    euid: u32,
) -> (run: Result<(Dir, usize), Stop>)
    ensures
        run_of(run) == bridge_child_opened(replies@, at as int, dir@, name@, into, euid),
{
    require_bridge_component(name)?;
    let path = join_text(dir.path.as_str(), name);
    let at = must_done(
        replies,
        at,
        Action::OpenDirectory { dir: dir.slot, name: name.to_owned(), into },
        "unsafe_directory",
        path.as_str(),
    )?;
    let at = validate_dir(replies, at, into, path.as_str(), Some(PRIVATE_DIRECTORY), euid)?;
    Ok((Dir { slot: into, path }, at))
}

/// The entries of a directory of the bridge, made durable.
pub open spec fn bridge_synced(replies: Seq<Reply>, at: int, slot: Slot) -> Result<int, StopView> {
    must_do(replies, at, ActionView::SyncDirectory { slot }, "sync_failed"@, "bridge directory"@)
}

/// Makes the entries of a directory of the bridge durable.
pub fn sync_bridge(replies: &Vec<Reply>, at: usize, slot: Slot) -> (run: Result<usize, Stop>)
    ensures
        steps_of(run) == bridge_synced(replies@, at as int, slot),
{
    must_done(replies, at, Action::SyncDirectory { slot }, "sync_failed", "bridge directory")
}

/// The mode of a directory that was just made.
pub open spec fn made_private(
    replies: Seq<Reply>,
    at: int,
    made: bool,
    slot: Slot,
    path: Seq<char>,
) -> Result<int, StopView> {
    if made {
        must_do(
            replies,
            at,
            ActionView::SetMode { slot, mode: PRIVATE_DIRECTORY },
            "create_directory"@,
            path,
        )
    } else {
        Ok(at)
    }
}

/// A directory of the bridge, made if it is missing. One that was there before
/// never has its mode changed.
pub open spec fn bridge_child_ensured(
    replies: Seq<Reply>,
    at: int,
    dir: DirView,
    name: Seq<char>,
    into: Slot,
    euid: u32,
) -> Run<DirView> {
    let path = joined(dir.path, name);
    if !is_component(name) {
        Err(unsafe_bridge_component())
    } else {
        match said_done(replies, at, ActionView::MakeDirectory { dir: dir.slot, name }) {
            Err(stop) => Err(stop),
            Ok((made, at)) => if made is Err && made->Err_0.kind != OsErrorKind::AlreadyExists {
                Err(refused_io("create_directory"@, path, made->Err_0))
            } else {
                match must_do(
                    replies,
                    at,
                    ActionView::OpenDirectory { dir: dir.slot, name, into },
                    "unsafe_directory"@,
                    path,
                ) {
                    Err(stop) => Err(stop),
                    Ok(at) => match made_private(replies, at, made is Ok, into, path) {
                        Err(stop) => Err(stop),
                        Ok(at) => match bridge_directory_checked(
                            replies,
                            at,
                            into,
                            path,
                            Some(PRIVATE_DIRECTORY),
                            euid,
                        ) {
                            Err(stop) => Err(stop),
                            Ok(at) => {
                                let child = DirView { slot: into, path };
                                if made is Ok {
                                    match bridge_synced(replies, at, dir.slot) {
                                        Err(stop) => Err(stop),
                                        Ok(at) => Ok((child, at)),
                                    }
                                } else {
                                    Ok((child, at))
                                }
                            },
                        },
                    },
                }
            },
        }
    }
}

/// Opens a directory of the bridge, and makes it if it is missing.
pub fn ensure_bridge_child(
    replies: &Vec<Reply>,
    at: usize,
    dir: &Dir,
    name: &str,
    into: Slot,
    euid: u32,
) -> (run: Result<(Dir, usize), Stop>)
    ensures
        run_of(run) == bridge_child_ensured(replies@, at as int, dir@, name@, into, euid),
{
    require_bridge_component(name)?;
    let path = join_text(dir.path.as_str(), name);
    let (made, at) = ask_done(
        replies,
        at,
        Action::MakeDirectory { dir: dir.slot, name: name.to_owned() },
    )?;
    let created = match made {
        Ok(()) => true,
        Err(error) => {
            if !already_exists(error.kind) {
                return Err(refuse_io("create_directory", path.as_str(), error));
            }
            false
        },
    };
    let at = must_done(
        replies,
        at,
        Action::OpenDirectory { dir: dir.slot, name: name.to_owned(), into },
        "unsafe_directory",
        path.as_str(),
    )?;
    let at: usize = if created {
        must_done(
            replies,
            at,
            Action::SetMode { slot: into, mode: PRIVATE_DIRECTORY },
            "create_directory",
            path.as_str(),
        )?
    } else {
        at
    };
    let at = validate_dir(replies, at, into, path.as_str(), Some(PRIVATE_DIRECTORY), euid)?;
    let at: usize = if created {
        sync_bridge(replies, at, dir.slot)?
    } else {
        at
    };
    Ok((Dir { slot: into, path }, at))
}

/// Whether there is a document of this name, which is then open and checked to
/// be private.
pub open spec fn document_opened(
    replies: Seq<Reply>,
    at: int,
    dir: DirView,
    name: Seq<char>,
    into: Slot,
    euid: u32,
) -> Run<bool> {
    let path = joined(dir.path, name);
    if !is_component(name) {
        Err(unsafe_bridge_component())
    } else {
        match said_done(
            replies,
            at,
            ActionView::OpenFile { dir: dir.slot, name, access: Access::Read, into },
        ) {
            Err(stop) => Err(stop),
            Ok((Err(error), at)) => if error.kind == OsErrorKind::NotFound {
                Ok((false, at))
            } else {
                Err(refused_io("unsafe_file"@, path, error))
            },
            Ok((Ok(()), at)) => match file_checked(replies, at, into, path, euid) {
                Err(stop) => Err(stop),
                Ok(at) => Ok((true, at)),
            },
        }
    }
}

/// Opens a document, if there is one of this name.
pub fn open_document(
    replies: &Vec<Reply>,
    at: usize,
    dir: &Dir,
    name: &str,
    into: Slot,
    euid: u32,
) -> (run: Result<(bool, usize), Stop>)
    ensures
        run_of(run) == document_opened(replies@, at as int, dir@, name@, into, euid),
{
    require_bridge_component(name)?;
    let path = join_text(dir.path.as_str(), name);
    let (opened, at) = ask_done(
        replies,
        at,
        Action::OpenFile { dir: dir.slot, name: name.to_owned(), access: Access::Read, into },
    )?;
    match opened {
        Err(error) => {
            if not_found(error.kind) {
                Ok((false, at))
            } else {
                Err(refuse_io("unsafe_file", path.as_str(), error))
            }
        },
        Ok(()) => {
            let at = validate_private_file(replies, at, into, path.as_str(), euid)?;
            Ok((true, at))
        },
    }
}

/// The bytes of a document, if there is one of this name and it is not too
/// long.
pub open spec fn document_read(
    replies: Seq<Reply>,
    at: int,
    dir: DirView,
    name: Seq<char>,
    maximum: usize,
    euid: u32,
) -> Run<Option<Seq<u8>>> {
    let path = joined(dir.path, name);
    match document_opened(replies, at, dir, name, Slot::Reading, euid) {
        Err(stop) => Err(stop),
        Ok((false, at)) => Ok((None, at)),
        Ok((true, at)) => match must_stat_slot(
            replies,
            at,
            Slot::Reading,
            "read_failed"@,
            path,
        ) {
            Err(stop) => Err(stop),
            Ok((stat, at)) => if stat.len > maximum {
                Err(
                    refused(
                        "message_too_large"@,
                        path + " is "@ + decimal(stat.len as nat) + " bytes; maximum is "@
                            + decimal(maximum as nat),
                    ),
                )
            } else {
                match must_give_bytes(
                    replies,
                    at,
                    ActionView::ReadAll { slot: Slot::Reading },
                    "read_failed"@,
                    path,
                ) {
                    Err(stop) => Err(stop),
                    Ok((bytes, at)) => if bytes.len() > maximum {
                        Err(
                            refused(
                                "message_too_large"@,
                                path + " grew beyond "@ + decimal(maximum as nat) + " bytes"@,
                            ),
                        )
                    } else {
                        Ok((Some(bytes), at))
                    },
                }
            },
        },
    }
}

/// Reads a document, if there is one of this name.
pub fn read_document<'a>(
    replies: &'a Vec<Reply>,
    at: usize,
    dir: &Dir,
    name: &str,
    maximum: usize,
    euid: u32,
) -> (run: Result<(Option<&'a Vec<u8>>, usize), Stop>)
    ensures
        match (run, document_read(replies@, at as int, dir@, name@, maximum, euid)) {
            (Ok((Some(bytes), next)), Ok((Some(read), then))) => bytes@ == read && next == then,
            (Ok((None, next)), Ok((None, then))) => next == then,
            (Err(stop), Err(stopped)) => stop@ == stopped,
            _ => false,
        },
{
    let (found, at) = open_document(replies, at, dir, name, Slot::Reading, euid)?;
    if !found {
        return Ok((None, at));
    }
    let path = join_text(dir.path.as_str(), name);
    let (stat, at) = must_stat(replies, at, Slot::Reading, "read_failed", path.as_str())?;
    if stat.len > maximum as u64 {
        return Err(
            refuse(
                "message_too_large",
                path.concat(" is ").concat(decimal_text(stat.len).as_str()).concat(
                    " bytes; maximum is ",
                ).concat(decimal_text(maximum as u64).as_str()),
            ),
        );
    }
    let (bytes, at) = must_bytes(
        replies,
        at,
        Action::ReadAll { slot: Slot::Reading },
        "read_failed",
        path.as_str(),
    )?;
    if bytes.len() > maximum {
        return Err(
            refuse(
                "message_too_large",
                path.concat(" grew beyond ").concat(decimal_text(maximum as u64).as_str()).concat(
                    " bytes",
                ),
            ),
        );
    }
    Ok((Some(bytes), at))
}

/// A request that is handed out: its bytes, one more than the maximum at most,
/// and the length of its file, which must not change meanwhile.
pub open spec fn request_read(
    replies: Seq<Reply>,
    at: int,
    dir: DirView,
    name: Seq<char>,
    maximum: usize,
    euid: u32,
) -> Run<(Seq<u8>, u64)> {
    let path = joined(dir.path, name);
    match document_opened(replies, at, dir, name, Slot::Observed, euid) {
        Err(stop) => Err(stop),
        Ok((false, at)) => Err(
            refused(
                "request_disappeared"@,
                "request "@ + debug_quoted(name) + " disappeared during enumeration"@,
            ),
        ),
        Ok((true, at)) => match must_stat_slot(
            replies,
            at,
            Slot::Observed,
            "read_failed"@,
            path,
        ) {
            Err(stop) => Err(stop),
            Ok((before, at)) => match must_give_bytes(
                replies,
                at,
                ActionView::Read { slot: Slot::Observed, limit: one_more(maximum) },
                "read_failed"@,
                path,
            ) {
                Err(stop) => Err(stop),
                Ok((bytes, at)) => match must_stat_slot(
                    replies,
                    at,
                    Slot::Observed,
                    "read_failed"@,
                    path,
                ) {
                    Err(stop) => Err(stop),
                    Ok((after, at)) => if before.len != after.len {
                        Err(
                            refused(
                                "request_changed"@,
                                "request "@ + debug_quoted(name)
                                    + " changed length while being read"@,
                            ),
                        )
                    } else {
                        Ok(((bytes, after.len), at))
                    },
                },
            },
        },
    }
}

/// Reads a request that is to be handed out.
pub fn read_request_for_classification<'a>(
    replies: &'a Vec<Reply>,
    at: usize,
    dir: &Dir,
    name: &str,
    maximum: usize,
    euid: u32,
) -> (run: Result<(&'a Vec<u8>, u64, usize), Stop>)
    ensures
        match (run, request_read(replies@, at as int, dir@, name@, maximum, euid)) {
            (Ok((bytes, len, next)), Ok(((read, length), then))) => bytes@ == read && len == length
                && next == then,
            (Err(stop), Err(stopped)) => stop@ == stopped,
            _ => false,
        },
{
    let (found, at) = open_document(replies, at, dir, name, Slot::Observed, euid)?;
    if !found {
        return Err(
            refuse(
                "request_disappeared",
                "request ".to_owned().concat(debug_text(name).as_str()).concat(
                    " disappeared during enumeration",
                ),
            ),
        );
    }
    let path = join_text(dir.path.as_str(), name);
    let (before, at) = must_stat(replies, at, Slot::Observed, "read_failed", path.as_str())?;
    let (bytes, at) = must_bytes(
        replies,
        at,
        Action::Read { slot: Slot::Observed, limit: beyond(maximum) },
        "read_failed",
        path.as_str(),
    )?;
    let (after, at) = must_stat(replies, at, Slot::Observed, "read_failed", path.as_str())?;
    if before.len != after.len {
        return Err(
            refuse(
                "request_changed",
                "request ".to_owned().concat(debug_text(name).as_str()).concat(
                    " changed length while being read",
                ),
            ),
        );
    }
    Ok((bytes, after.len, at))
}

/// A new document under a temporary name, filled, checked and durable.
pub open spec fn document_created(
    replies: Seq<Reply>,
    at: int,
    dir: DirView,
    name: Seq<char>,
    bytes: Seq<u8>,
    euid: u32,
) -> Result<int, StopView> {
    let path = joined(dir.path, name);
    if !is_component(name) {
        Err(unsafe_bridge_component())
    } else if bytes.len() > MAX_DOCUMENT_BYTES {
        Err(
            refused(
                "message_too_large"@,
                "document is "@ + decimal(bytes.len()) + " bytes; maximum is "@ + decimal(
                    MAX_DOCUMENT_BYTES as nat,
                ),
            ),
        )
    } else {
        match must_do(
            replies,
            at,
            ActionView::CreateFile {
                dir: dir.slot,
                name,
                access: Access::Write,
                into: Slot::Temporary,
            },
            "write_failed"@,
            path,
        ) {
            Err(stop) => Err(stop),
            Ok(at) => match file_filled(replies, at, Slot::Temporary, bytes) {
                Err(stop) => Err(stop),
                Ok((Err(error), at)) => match said_anything(
                    replies,
                    at,
                    ActionView::Unlink { dir: dir.slot, name },
                ) {
                    Err(stop) => Err(stop),
                    Ok(_) => Err(refused_io("write_failed"@, path, error)),
                },
                Ok((Ok(()), at)) => file_checked(replies, at, Slot::Temporary, path, euid),
            },
        }
    }
}

/// Creates a document under a temporary name.
pub fn create_document(
    replies: &Vec<Reply>,
    at: usize,
    dir: &Dir,
    name: &str,
    bytes: &[u8],
    euid: u32,
) -> (run: Result<usize, Stop>)
    ensures
        steps_of(run) == document_created(replies@, at as int, dir@, name@, bytes@, euid),
{
    require_bridge_component(name)?;
    if bytes.len() > MAX_DOCUMENT_BYTES {
        return Err(
            refuse(
                "message_too_large",
                "document is ".to_owned().concat(decimal_text(bytes.len() as u64).as_str()).concat(
                    " bytes; maximum is ",
                ).concat(decimal_text(MAX_DOCUMENT_BYTES as u64).as_str()),
            ),
        );
    }
    let path = join_text(dir.path.as_str(), name);
    let at = must_done(
        replies,
        at,
        Action::CreateFile {
            dir: dir.slot,
            name: name.to_owned(),
            access: Access::Write,
            into: Slot::Temporary,
        },
        "write_failed",
        path.as_str(),
    )?;
    match fill_file(replies, at, Slot::Temporary, bytes)? {
        (Err(error), at) => {
            let _at: usize = ask_anything(
                replies,
                at,
                Action::Unlink { dir: dir.slot, name: name.to_owned() },
            )?;
            Err(refuse_io("write_failed", path.as_str(), error))
        },
        (Ok(()), at) => validate_private_file(
            replies,
            at,
            Slot::Temporary,
            path.as_str(),
            euid,
        ),
    }
}

/// The document under its public name, there and durable.
pub open spec fn document_confirmed(
    replies: Seq<Reply>,
    at: int,
    dir: DirView,
    name: Seq<char>,
    euid: u32,
) -> Result<int, StopView> {
    match document_opened(replies, at, dir, name, Slot::Published, euid) {
        Err(stop) => Err(stop),
        Ok((false, _)) => Err(
            refused("write_failed"@, "published "@ + debug_quoted(name) + " is absent"@),
        ),
        Ok((true, at)) => bridge_synced(replies, at, dir.slot),
    }
}

fn confirm_document(replies: &Vec<Reply>, at: usize, dir: &Dir, name: &str, euid: u32) -> (run:
    Result<usize, Stop>)
    ensures
        steps_of(run) == document_confirmed(replies@, at as int, dir@, name@, euid),
{
    let (found, at) = open_document(replies, at, dir, name, Slot::Published, euid)?;
    if !found {
        return Err(
            refuse(
                "write_failed",
                "published ".to_owned().concat(debug_text(name).as_str()).concat(" is absent"),
            ),
        );
    }
    sync_bridge(replies, at, dir.slot)
}

/// The refusal of a name that is taken.
pub open spec fn name_taken(path: Seq<char>) -> StopView {
    refused("already_exists"@, path + " already exists"@)
}

/// The public name of a new document. It is given by linking, so that a name
/// that is taken stays what it is. The temporary name is removed either way;
/// where that fails too, its error is the one that is reported.
pub open spec fn document_linked(
    replies: Seq<Reply>,
    at: int,
    dir: DirView,
    temporary: Seq<char>,
    name: Seq<char>,
    euid: u32,
) -> Result<int, StopView> {
    let path = joined(dir.path, name);
    match said_done(
        replies,
        at,
        ActionView::Link { dir: dir.slot, from: temporary, to: name },
    ) {
        Err(stop) => Err(stop),
        Ok((linked, at)) => match said_done(
            replies,
            at,
            ActionView::Unlink { dir: dir.slot, name: temporary },
        ) {
            Err(stop) => Err(stop),
            Ok((unlinked, at)) => match linked {
                Ok(()) => Ok(at),
                Err(link_error) => {
                    let error = match unlinked {
                        Err(unlink_error) => unlink_error,
                        Ok(()) => link_error,
                    };
                    if error.kind == OsErrorKind::AlreadyExists {
                        match document_opened(replies, at, dir, name, Slot::Published, euid) {
                            Err(stop) => Err(stop),
                            Ok(_) => Err(name_taken(path)),
                        }
                    } else {
                        Err(refused_io("write_failed"@, path, error))
                    }
                },
            },
        },
    }
}

fn link_document(
    replies: &Vec<Reply>,
    at: usize,
    dir: &Dir,
    temporary: &str,
    name: &str,
    euid: u32,
) -> (run: Result<usize, Stop>)
    ensures
        steps_of(run) == document_linked(replies@, at as int, dir@, temporary@, name@, euid),
{
    let path = join_text(dir.path.as_str(), name);
    let (linked, at) = ask_done(
        replies,
        at,
        Action::Link { dir: dir.slot, from: temporary.to_owned(), to: name.to_owned() },
    )?;
    let (unlinked, at) = ask_done(
        replies,
        at,
        Action::Unlink { dir: dir.slot, name: temporary.to_owned() },
    )?;
    match linked {
        Ok(()) => Ok(at),
        Err(link_error) => {
            let error = match unlinked {
                Err(unlink_error) => unlink_error,
                Ok(()) => link_error,
            };
            if already_exists(error.kind) {
                let (_found, _at) = open_document(replies, at, dir, name, Slot::Published, euid)?;
                return Err(refuse("already_exists", path.concat(" already exists")));
            }
            Err(refuse_io("write_failed", path.as_str(), error))
        },
    }
}

/// The temporary name of a document.
pub open spec fn temporary_document(identifier: Seq<char>) -> Seq<char> {
    ".tmp-"@ + identifier
}

/// A new document. It appears whole or not at all, and never in the place of
/// another.
pub open spec fn new_document_written(
    replies: Seq<Reply>,
    at: int,
    dir: DirView,
    name: Seq<char>,
    bytes: Seq<u8>,
    euid: u32,
) -> Result<int, StopView> {
    match document_opened(replies, at, dir, name, Slot::Existing, euid) {
        Err(stop) => Err(stop),
        Ok((true, _)) => Err(name_taken(joined(dir.path, name))),
        Ok((false, at)) => match must_give_text(replies, at, ActionView::DrawIdentifier) {
            Err(stop) => Err(stop),
            Ok((identifier, at)) => {
                let temporary = temporary_document(identifier);
                match document_created(replies, at, dir, temporary, bytes, euid) {
                    Err(stop) => Err(stop),
                    Ok(at) => match document_linked(replies, at, dir, temporary, name, euid) {
                        Err(stop) => Err(stop),
                        Ok(at) => document_confirmed(replies, at, dir, name, euid),
                    },
                }
            },
        },
    }
}

/// Writes a new document.
pub fn write_new_atomic(
    replies: &Vec<Reply>,
    at: usize,
    dir: &Dir,
    name: &str,
    bytes: &[u8],
    euid: u32,
) -> (run: Result<usize, Stop>)
    ensures
        steps_of(run) == new_document_written(replies@, at as int, dir@, name@, bytes@, euid),
{
    let (found, at) = open_document(replies, at, dir, name, Slot::Existing, euid)?;
    if found {
        let path = join_text(dir.path.as_str(), name);
        return Err(refuse("already_exists", path.concat(" already exists")));
    }
    let (identifier, at) = must_text(replies, at, Action::DrawIdentifier)?;
    let temporary = ".tmp-".to_owned().concat(identifier.as_str());
    let at = create_document(replies, at, dir, temporary.as_str(), bytes, euid)?;
    let at = link_document(replies, at, dir, temporary.as_str(), name, euid)?;
    confirm_document(replies, at, dir, name, euid)
}

/// A document in the place of another, which must be one of ours. It appears
/// whole or not at all.
pub open spec fn document_replaced(
    replies: Seq<Reply>,
    at: int,
    dir: DirView,
    name: Seq<char>,
    bytes: Seq<u8>,
    euid: u32,
) -> Result<int, StopView> {
    match document_opened(replies, at, dir, name, Slot::Existing, euid) {
        Err(stop) => Err(stop),
        Ok((_, at)) => match must_give_text(replies, at, ActionView::DrawIdentifier) {
            Err(stop) => Err(stop),
            Ok((identifier, at)) => {
                let temporary = temporary_document(identifier);
                match document_created(replies, at, dir, temporary, bytes, euid) {
                    Err(stop) => Err(stop),
                    Ok(at) => match said_done(
                        replies,
                        at,
                        ActionView::RenameReplace { dir: dir.slot, from: temporary, to: name },
                    ) {
                        Err(stop) => Err(stop),
                        Ok((Err(error), at)) => match said_anything(
                            replies,
                            at,
                            ActionView::Unlink { dir: dir.slot, name: temporary },
                        ) {
                            Err(stop) => Err(stop),
                            Ok(_) => Err(
                                refused_io("write_failed"@, joined(dir.path, name), error),
                            ),
                        },
                        Ok((Ok(()), at)) => document_confirmed(replies, at, dir, name, euid),
                    },
                }
            },
        },
    }
}

/// Writes a document in the place of another.
pub fn write_replace_atomic(
    replies: &Vec<Reply>,
    at: usize,
    dir: &Dir,
    name: &str,
    bytes: &[u8],
    euid: u32,
) -> (run: Result<usize, Stop>)
    ensures
        steps_of(run) == document_replaced(replies@, at as int, dir@, name@, bytes@, euid),
{
    let (_found, at) = open_document(replies, at, dir, name, Slot::Existing, euid)?;
    let (identifier, at) = must_text(replies, at, Action::DrawIdentifier)?;
    let temporary = ".tmp-".to_owned().concat(identifier.as_str());
    let at = create_document(replies, at, dir, temporary.as_str(), bytes, euid)?;
    let (renamed, at) = ask_done(
        replies,
        at,
        Action::RenameReplace { dir: dir.slot, from: temporary.clone(), to: name.to_owned() },
    )?;
    if let Err(error) = renamed {
        let _at: usize = ask_anything(
            replies,
            at,
            Action::Unlink { dir: dir.slot, name: temporary },
        )?;
        let path = join_text(dir.path.as_str(), name);
        return Err(refuse_io("write_failed", path.as_str(), error));
    }
    confirm_document(replies, at, dir, name, euid)
}

/// A new document never takes the place of another: no rename replaces a file,
/// and the only name that is removed is the temporary one of this document.
pub proof fn law_new_document_replaces_nothing(
    replies: Seq<Reply>,
    at: int,
    dir: DirView,
    name: Seq<char>,
    bytes: Seq<u8>,
    euid: u32,
)
    requires
        0 <= at,
    ensures
        new_document_written(replies, at, dir, name, bytes, euid) matches Err(
            StopView::Await(action),
        ) ==> {
            &&& !(action is RenameReplace)
            &&& !(action is RenameNoReplace)
            &&& !(action is Truncate)
            &&& action matches ActionView::Unlink { dir: _, name: unlinked } ==> exists|i: int|
                0 <= i < replies.len() && (#[trigger] replies[i]) is Text && unlinked
                    == temporary_document(replies[i]->Text_0@)
        },
{
    if let Ok((false, at)) = document_opened(replies, at, dir, name, Slot::Existing, euid) {
        if at < replies.len() && replies[at] is Text {
            assert(temporary_document(replies[at]->Text_0@) == temporary_document(
                replies[at]->Text_0@,
            ));
        }
    }
}

/// Whatever is written is bounded: a document that is too long is refused
/// before any file is made.
pub proof fn law_oversized_document_is_not_written(
    replies: Seq<Reply>,
    at: int,
    dir: DirView,
    name: Seq<char>,
    bytes: Seq<u8>,
    euid: u32,
)
    requires
        bytes.len() > MAX_DOCUMENT_BYTES,
    ensures
        new_document_written(replies, at, dir, name, bytes, euid) is Err,
        document_replaced(replies, at, dir, name, bytes, euid) is Err,
        new_document_written(replies, at, dir, name, bytes, euid) matches Err(
            StopView::Await(action),
        ) ==> !(action is CreateFile),
        document_replaced(replies, at, dir, name, bytes, euid) matches Err(
            StopView::Await(action),
        ) ==> !(action is CreateFile),
{
}

/// Whatever is read is private and bounded: a document is handed out only where
/// the system described its file as a private one, and then with no more bytes
/// than were asked for. Of a request, one byte more is asked for at most.
pub proof fn law_documents_are_private_and_bounded(
    replies: Seq<Reply>,
    at: int,
    dir: DirView,
    name: Seq<char>,
    maximum: usize,
    euid: u32,
)
    requires
        0 <= at,
    ensures
        document_read(replies, at, dir, name, maximum, euid) matches Ok((Some(bytes), next)) ==> {
            &&& bytes.len() <= maximum
            &&& exists|k: int|
                at <= k < next && (#[trigger] replies[k]) is Stat && is_private_file(
                    replies[k]->Stat_0,
                    euid,
                )
        },
        request_read(replies, at, dir, name, maximum, euid) matches Ok((_, next)) ==> exists|k: int|
            at <= k < next && (#[trigger] replies[k]) is Stat && is_private_file(
                replies[k]->Stat_0,
                euid,
            ),
        request_read(replies, at, dir, name, maximum, euid) matches Err(
            StopView::Await(ActionView::Read { slot, limit }),
        ) ==> limit <= maximum + 1,
{
    if document_opened(replies, at, dir, name, Slot::Reading, euid) matches Ok((true, _)) {
        assert(replies[at + 1] is Stat);
    }
    if document_opened(replies, at, dir, name, Slot::Observed, euid) matches Ok((true, _)) {
        assert(replies[at + 1] is Stat);
    }
}

} // verus!
