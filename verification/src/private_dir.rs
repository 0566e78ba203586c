//! Private directories of the service: every name is opened below a held
//! directory, every file is checked to be private before it is trusted, and no
//! file that somebody else put in place is overwritten or deleted.

use crate::dialogue::{
    ask_done, must_do, must_done, must_stat, must_stat_slot, refuse, refuse_io, refused,
    refused_io, run_of, said_done, steps_of, Access, Action, ActionView, FileKind, FileStat, Reply,
    Run, Slot, Stop, StopView,
};
use crate::failure::OsErrorKind;
use crate::identifier::{is_component, validate_component};
use crate::path_text::{is_absolute, starts_at_root};
use crate::text::{copy_bytes, join_text, joined};
use vstd::prelude::*;

verus! {

/// The directory below the platform's that is ours.
pub const RUNTIME_DIR: &'static str = "dmux";

/// A held directory, with the path by which refusals name it.
#[derive(Debug)]
pub struct Dir {
    pub slot: Slot,
    pub path: String,
}

/// The view of a [`Dir`].
pub struct DirView {
    pub slot: Slot,
    pub path: Seq<char>,
}

impl View for Dir {
    type V = DirView;

    open spec fn view(&self) -> DirView {
        DirView { slot: self.slot, path: self.path@ }
    }
}

/// A path of the platform: its bytes, and the text by which refusals name it.
#[derive(Debug)]
pub struct BasePath {
    pub bytes: Vec<u8>,
    pub display: String,
}

/// The permission bits of a mode.
pub const PERMISSIONS: u32 = 0o777;

/// The permission bits that let others write.
pub const WRITABLE_BY_OTHERS: u32 = 0o022;

/// The mode of a private directory.
pub const PRIVATE_DIRECTORY: u32 = 0o700;

/// The mode of a private file.
pub const PRIVATE_FILE: u32 = 0o600;

/// Why an object is no directory that we trust: it must be ours, and have the
/// exact mode or, where none is given, not be writable by others.
pub open spec fn directory_refusal(
    stat: FileStat,
    path: Seq<char>,
    exact: Option<u32>,
    euid: u32,
) -> Option<StopView> {
    let mode = stat.mode & PERMISSIONS;
    let sound = stat.kind == FileKind::Directory && stat.uid == euid && (match exact {
        Some(exact) => mode == exact,
        None => mode & WRITABLE_BY_OTHERS == 0,
    });
    if sound {
        None
    } else {
        Some(
            refused(
                "unsafe_directory"@,
                path + " is not a verified private current-user directory"@,
            ),
        )
    }
}

/// Why an object is no private file: it must be a regular file of ours with a
/// single name, that nobody else can use.
pub open spec fn is_private_file(stat: FileStat, euid: u32) -> bool {
    &&& stat.kind == FileKind::Regular
    &&& stat.uid == euid
    &&& stat.nlink == 1
    &&& stat.mode & PERMISSIONS == PRIVATE_FILE
}

/// The refusal of an object that is no private file.
pub open spec fn unsafe_file(path: Seq<char>) -> StopView {
    refused(
        "unsafe_file"@,
        path + " must be a singly-linked current-user-owned mode-0600 regular file"@,
    )
}

/// A directory that is held, once it was checked.
pub open spec fn directory_checked(
    replies: Seq<Reply>,
    at: int,
    slot: Slot,
    path: Seq<char>,
    exact: Option<u32>,
    euid: u32,
) -> Result<int, StopView> {
    match must_stat_slot(replies, at, slot, "unsafe_directory"@, path) {
        Err(stop) => Err(stop),
        Ok((stat, at)) => match directory_refusal(stat, path, exact, euid) {
            Some(stop) => Err(stop),
            None => Ok(at),
        },
    }
}

/// Checks a directory that is held.
pub fn validate_directory(
    replies: &Vec<Reply>,
    at: usize,
    slot: Slot,
    path: &str,
    exact: Option<u32>,
    euid: u32,
) -> (run: Result<usize, Stop>)
    ensures
        steps_of(run) == directory_checked(replies@, at as int, slot, path@, exact, euid),
{
    let (stat, at) = must_stat(replies, at, slot, "unsafe_directory", path)?;
    let mode: u32 = stat.mode & PERMISSIONS;
    let fits = match exact {
        Some(exact) => mode == exact,
        None => mode & WRITABLE_BY_OTHERS == 0,
    };
    let directory = match stat.kind {
        FileKind::Directory => true,
        _ => false,
    };
    if !directory || stat.uid != euid || !fits {
        return Err(
            refuse(
                "unsafe_directory",
                path.to_owned().concat(" is not a verified private current-user directory"),
            ),
        );
    }
    Ok(at)
}

/// A file that is held, once it was checked to be private.
pub open spec fn file_checked(
    replies: Seq<Reply>,
    at: int,
    slot: Slot,
    path: Seq<char>,
    euid: u32,
) -> Result<int, StopView> {
    match must_stat_slot(replies, at, slot, "unsafe_file"@, path) {
        Err(stop) => Err(stop),
        Ok((stat, at)) => if is_private_file(stat, euid) {
            Ok(at)
        } else {
            Err(unsafe_file(path))
        },
    }
}

/// Checks that a file that is held is private.
pub fn validate_private_file(
    replies: &Vec<Reply>,
    at: usize,
    slot: Slot,
    path: &str,
    euid: u32,
) -> (run: Result<usize, Stop>)
    ensures
        steps_of(run) == file_checked(replies@, at as int, slot, path@, euid),
{
    let (stat, at) = must_stat(replies, at, slot, "unsafe_file", path)?;
    let regular = match stat.kind {
        FileKind::Regular => true,
        _ => false,
    };
    if !regular || stat.uid != euid || stat.nlink != 1 || stat.mode & PERMISSIONS != PRIVATE_FILE {
        return Err(
            refuse(
                "unsafe_file",
                path.to_owned().concat(
                    " must be a singly-linked current-user-owned mode-0600 regular file",
                ),
            ),
        );
    }
    Ok(at)
}

/// Whether a path holds a NUL byte.
pub open spec fn holds_nul(path: Seq<u8>) -> bool {
    path.contains(0u8)
}

/// Whether a byte string holds a NUL byte.
pub fn contains_nul(path: &[u8]) -> (found: bool)
    ensures
        found == holds_nul(path@),
{
    let mut i: usize = 0;
    while i < path.len()
        invariant
            i <= path@.len(),
            forall|k: int| 0 <= k < i ==> path@[k] != 0,
        decreases path@.len() - i,
    {
        if path[i] == 0 {
            assert(path@.contains(0u8));
            return true;
        }
        i += 1;
    }
    false
}

/// The directory of the platform, opened and checked.
pub open spec fn base_opened(
    replies: Seq<Reply>,
    at: int,
    base: BasePath,
    into: Slot,
    euid: u32,
) -> Run<DirView> {
    if !is_absolute(base.bytes@) {
        Err(refused("runtime_unavailable"@, "platform runtime path is not absolute"@))
    } else if holds_nul(base.bytes@) {
        Err(refused("runtime_unavailable"@, "platform runtime path contains NUL"@))
    } else {
        match must_do(
            replies,
            at,
            ActionView::OpenBase { path: base.bytes@, into },
            "runtime_unavailable"@,
            base.display@,
        ) {
            Err(stop) => Err(stop),
            Ok(at) => match directory_checked(replies, at, into, base.display@, None, euid) {
                Err(stop) => Err(stop),
                Ok(at) => Ok((DirView { slot: into, path: base.display@ }, at)),
            },
        }
    }
}

/// Opens the directory of the platform.
pub fn open_platform_base(
    replies: &Vec<Reply>,
    at: usize,
    base: &BasePath,
    into: Slot,
    euid: u32,
) -> (run: Result<(Dir, usize), Stop>)
    ensures
        run_of(run) == base_opened(replies@, at as int, *base, into, euid),
{
    if !starts_at_root(base.bytes.as_slice()) {
        return Err(
            refuse("runtime_unavailable", "platform runtime path is not absolute".to_owned()),
        );
    }
    if contains_nul(base.bytes.as_slice()) {
        return Err(refuse("runtime_unavailable", "platform runtime path contains NUL".to_owned()));
    }
    let path = copy_bytes(base.bytes.as_slice());
    let display = base.display.as_str();
    let at = must_done(
        replies,
        at,
        Action::OpenBase { path, into },
        "runtime_unavailable",
        display,
    )?;
    let at = validate_directory(replies, at, into, display, None, euid)?;
    Ok((Dir { slot: into, path: base.display.clone() }, at))
}

/// The refusal of a name that is no safe component.
pub open spec fn unsafe_component() -> StopView {
    refused("invalid_path"@, "unsafe fixed-path component"@)
}

pub(crate) fn require_component(name: &str) -> (result: Result<(), Stop>)
    ensures
        match result {
            Ok(()) => is_component(name@),
            Err(stop) => !is_component(name@) && stop@ == unsafe_component(),
        },
{
    match validate_component(name) {
        Ok(()) => Ok(()),
        Err(error) => Err(refuse(error.code, error.detail)),
    }
}

/// A directory below a directory, opened and checked.
pub open spec fn child_opened(
    replies: Seq<Reply>,
    at: int,
    dir: DirView,
    name: Seq<char>,
    into: Slot,
    euid: u32,
) -> Run<DirView> {
    let path = joined(dir.path, name);
    if !is_component(name) {
        Err(unsafe_component())
    } else {
        match must_do(
            replies,
            at,
            ActionView::OpenDirectory { dir: dir.slot, name, into },
            "unsafe_directory"@,
            path,
        ) {
            Err(stop) => Err(stop),
            Ok(at) => match directory_checked(
                replies,
                at,
                into,
                path,
                Some(PRIVATE_DIRECTORY),
                euid,
            ) {
                Err(stop) => Err(stop),
                Ok(at) => Ok((DirView { slot: into, path }, at)),
            },
        }
    }
}

/// Opens a directory below a directory.
pub fn child(
    replies: &Vec<Reply>,
    at: usize,
    dir: &Dir,
    name: &str,
    into: Slot,
    euid: u32,
) -> (run: Result<(Dir, usize), Stop>)
    ensures
        run_of(run) == child_opened(replies@, at as int, dir@, name@, into, euid),
{
    require_component(name)?;
    let path = join_text(dir.path.as_str(), name);
    let at = must_done(
        replies,
        at,
        Action::OpenDirectory { dir: dir.slot, name: name.to_owned(), into },
        "unsafe_directory",
        path.as_str(),
    )?;
    let at = validate_directory(
        replies,
        at,
        into,
        path.as_str(),
        Some(PRIVATE_DIRECTORY),
        euid,
    )?;
    Ok((Dir { slot: into, path }, at))
}

/// The entries of a directory, made durable.
pub open spec fn directory_synced(replies: Seq<Reply>, at: int, slot: Slot) -> Result<
    int,
    StopView,
> {
    must_do(
        replies,
        at,
        ActionView::SyncDirectory { slot },
        "sync_failed"@,
        "descriptor directory"@,
    )
}

/// Makes the entries of a directory durable.
pub fn sync_directory(replies: &Vec<Reply>, at: usize, slot: Slot) -> (run: Result<usize, Stop>)
    ensures
        steps_of(run) == directory_synced(replies@, at as int, slot),
{
    must_done(
        replies,
        at,
        Action::SyncDirectory { slot },
        "sync_failed",
        "descriptor directory",
    )
}

/// A directory below a directory, made if it is missing. Only one that was made
/// here has its mode set.
pub open spec fn child_ensured(
    replies: Seq<Reply>,
    at: int,
    dir: DirView,
    name: Seq<char>,
    into: Slot,
    euid: u32,
) -> Run<DirView> {
    let path = joined(dir.path, name);
    if !is_component(name) {
        Err(unsafe_component())
    } else {
        match said_done(replies, at, ActionView::MakeDirectory { dir: dir.slot, name }) {
            Err(stop) => Err(stop),
            Ok((Err(error), at)) => if error.kind != OsErrorKind::AlreadyExists {
                Err(refused_io("create_directory"@, path, error))
            } else {
                child_opened(replies, at, dir, name, into, euid)
            },
            Ok((Ok(()), at)) => match child_opened(replies, at, dir, name, into, euid) {
                Err(stop) => Err(stop),
                Ok((child, at)) => match must_do(
                    replies,
                    at,
                    ActionView::SetMode { slot: into, mode: PRIVATE_DIRECTORY },
                    "create_directory"@,
                    path,
                ) {
                    Err(stop) => Err(stop),
                    Ok(at) => match directory_checked(
                        replies,
                        at,
                        into,
                        path,
                        Some(PRIVATE_DIRECTORY),
                        euid,
                    ) {
                        Err(stop) => Err(stop),
                        Ok(at) => match directory_synced(replies, at, dir.slot) {
                            Err(stop) => Err(stop),
                            Ok(at) => Ok((child, at)),
                        },
                    },
                },
            },
        }
    }
}

pub(crate) fn already_exists(kind: OsErrorKind) -> (yes: bool)
    ensures
        yes == (kind == OsErrorKind::AlreadyExists),
{
    match kind {
        OsErrorKind::AlreadyExists => true,
        _ => false,
    }
}

pub(crate) fn not_found(kind: OsErrorKind) -> (yes: bool)
    ensures
        yes == (kind == OsErrorKind::NotFound),
{
    match kind {
        OsErrorKind::NotFound => true,
        _ => false,
    }
}

/// Opens a directory below a directory, and makes it if it is missing.
pub fn ensure_child(
    replies: &Vec<Reply>,
    at: usize,
    dir: &Dir,
    name: &str,
    into: Slot,
    euid: u32,
) -> (run: Result<(Dir, usize), Stop>)
    ensures
        run_of(run) == child_ensured(replies@, at as int, dir@, name@, into, euid),
{
    require_component(name)?;
    let path = join_text(dir.path.as_str(), name);
    let (made, at) = ask_done(
        replies,
        at,
        Action::MakeDirectory { dir: dir.slot, name: name.to_owned() },
    )?;
    match made {
        Err(error) => {
            if !already_exists(error.kind) {
                return Err(refuse_io("create_directory", path.as_str(), error));
            }
            child(replies, at, dir, name, into, euid)
        },
        Ok(()) => {
            let (opened, at) = child(replies, at, dir, name, into, euid)?;
            let at = must_done(
                replies,
                at,
                Action::SetMode { slot: into, mode: PRIVATE_DIRECTORY },
                "create_directory",
                path.as_str(),
            )?;
            let at = validate_directory(
                replies,
                at,
                into,
                path.as_str(),
                Some(PRIVATE_DIRECTORY),
                euid,
            )?;
            let at = sync_directory(replies, at, dir.slot)?;
            Ok((opened, at))
        },
    }
}

/// Whether there is a file of this name, which is then open and checked to be
/// private.
pub open spec fn file_opened(
    replies: Seq<Reply>,
    at: int,
    dir: DirView,
    name: Seq<char>,
    access: Access,
    into: Slot,
    euid: u32,
) -> Run<bool> {
    let path = joined(dir.path, name);
    if !is_component(name) {
        Err(unsafe_component())
    } else {
        match said_done(replies, at, ActionView::OpenFile { dir: dir.slot, name, access, into }) {
            Err(stop) => Err(stop),
            Ok((Err(error), at)) => if error.kind == OsErrorKind::NotFound {
                Ok((false, at))
            } else {
                Err(refused_io("unsafe_file"@, path, error))
            },
            Ok((Ok(()), at)) => match file_checked(replies, at, into, path, euid) {
                Err(stop) => Err(stop),
                Ok(at) => Ok((true, at)),
            },
        }
    }
}

/// Opens a private file, if there is one of this name.
pub fn open_private_optional(
    replies: &Vec<Reply>,
    at: usize,
    dir: &Dir,
    name: &str,
    access: Access,
    into: Slot,
    euid: u32,
) -> (run: Result<(bool, usize), Stop>)
    ensures
        run_of(run) == file_opened(replies@, at as int, dir@, name@, access, into, euid),
{
    require_component(name)?;
    let path = join_text(dir.path.as_str(), name);
    let (opened, at) = ask_done(
        replies,
        at,
        Action::OpenFile { dir: dir.slot, name: name.to_owned(), access, into },
    )?;
    match opened {
        Err(error) => {
            if not_found(error.kind) {
                Ok((false, at))
            } else {
                Err(refuse_io("unsafe_file", path.as_str(), error))
            }
        },
        Ok(()) => {
            let at = validate_private_file(replies, at, into, path.as_str(), euid)?;
            Ok((true, at))
        },
    }
}

/// A private file that is open for reading and writing, created if it is
/// missing. Only one that was created here has its mode set.
pub open spec fn file_ensured(
    replies: Seq<Reply>,
    at: int,
    dir: DirView,
    name: Seq<char>,
    into: Slot,
    euid: u32,
) -> Result<int, StopView> {
    let path = joined(dir.path, name);
    if !is_component(name) {
        Err(unsafe_component())
    } else {
        match said_done(
            replies,
            at,
            ActionView::CreateFile { dir: dir.slot, name, access: Access::ReadWrite, into },
        ) {
            Err(stop) => Err(stop),
            Ok((Err(error), at)) => if error.kind != OsErrorKind::AlreadyExists {
                Err(refused_io("unsafe_file"@, path, error))
            } else {
                match must_do(
                    replies,
                    at,
                    ActionView::OpenFile { dir: dir.slot, name, access: Access::ReadWrite, into },
                    "unsafe_file"@,
                    path,
                ) {
                    Err(stop) => Err(stop),
                    Ok(at) => file_checked(replies, at, into, path, euid),
                }
            },
            Ok((Ok(()), at)) => match must_do(
                replies,
                at,
                ActionView::SetMode { slot: into, mode: PRIVATE_FILE },
                "unsafe_file"@,
                path,
            ) {
                Err(stop) => Err(stop),
                Ok(at) => match file_checked(replies, at, into, path, euid) {
                    Err(stop) => Err(stop),
                    Ok(at) => directory_synced(replies, at, dir.slot),
                },
            },
        }
    }
}

/// Opens a private file for reading and writing, and creates it if it is
/// missing.
pub fn open_or_create_private_rw(
    replies: &Vec<Reply>,
    at: usize,
    dir: &Dir,
    name: &str,
    into: Slot,
    euid: u32,
) -> (run: Result<usize, Stop>)
    ensures
        steps_of(run) == file_ensured(replies@, at as int, dir@, name@, into, euid),
{
    require_component(name)?;
    let path = join_text(dir.path.as_str(), name);
    let (created, at) = ask_done(
        replies,
        at,
        Action::CreateFile {
            dir: dir.slot,
            name: name.to_owned(),
            access: Access::ReadWrite,
            into,
        },
    )?;
    match created {
        Err(error) => {
            if !already_exists(error.kind) {
                return Err(refuse_io("unsafe_file", path.as_str(), error));
            }
            let at = must_done(
                replies,
                at,
                Action::OpenFile {
                    dir: dir.slot,
                    name: name.to_owned(),
                    access: Access::ReadWrite,
                    into,
                },
                "unsafe_file",
                path.as_str(),
            )?;
            validate_private_file(replies, at, into, path.as_str(), euid)
        },
        Ok(()) => {
            let at = must_done(
                replies,
                at,
                Action::SetMode { slot: into, mode: PRIVATE_FILE },
                "unsafe_file",
                path.as_str(),
            )?;
            let at = validate_private_file(replies, at, into, path.as_str(), euid)?;
            sync_directory(replies, at, dir.slot)
        },
    }
}

} // verus!
