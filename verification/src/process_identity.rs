//! Which boot of the system and which incarnation of a process is meant: a
//! process number alone can be used again.

use crate::dialogue::{
    ask_stat, must_bytes, must_give_bytes, refuse, refuse_io, refused, refused_io, run_of,
    said_stat, Action, ActionView, FileKind, Reply, Run, Stop, StopView,
};
use crate::failure::{
    failure, io_detail, BridgeFsError, DescriptorError, Failure, OsFailure, RecoveryManifestError,
};
use crate::identifier::{refuses, uuid_failure, validate_uuid, MAX_JSON_INTEGER};
use crate::path_text::{is_absolute, starts_at_root, SLASH};
use crate::text::{
    byte_len, copy_bytes, decimal, decimal_text, join_text, joined, nth_word, parse_u64, read_utf8,
    rsplit_close, split_around, split_at_last_close, split_once, trim, trimmed, unsigned_value,
    utf8_complaint, words,
};
use vstd::prelude::*;
use vstd::utf8::{decode_utf8, encode_utf8, valid_utf8};

verus! {

/// The largest process number.
pub const MAX_PID: u32 = 2_147_483_647;

/// The systems on which a managed service runs.
#[derive(Clone, Copy, Debug, PartialEq, Eq, Structural)]
pub enum Platform {
    Linux,
    Macos,
}

/// A file of the system, read up to a limit.
pub open spec fn system_file_read(replies: Seq<Reply>, at: int, path: Seq<char>, maximum: u64) -> Run<
    Seq<u8>,
> {
    match must_give_bytes(
        replies,
        at,
        ActionView::ReadSystemFile { path, limit: (maximum + 1) as u64 },
        "identity_unavailable"@,
        path,
    ) {
        Err(stop) => Err(stop),
        Ok((bytes, at)) => if bytes.len() > maximum {
            Err(refused("identity_unavailable"@, path + " is oversized"@))
        } else {
            Ok((bytes, at))
        },
    }
}

/// Reads a file of the system, up to a limit.
pub fn read_system_file_bounded<'a>(
    replies: &'a Vec<Reply>,
    at: usize,
    path: &str,
    maximum: u64,
) -> (run: Result<(&'a Vec<u8>, usize), Stop>)
    requires
        maximum < u64::MAX,
    ensures
        match (run, system_file_read(replies@, at as int, path@, maximum)) {
            (Ok((bytes, next)), Ok((read, then))) => bytes@ == read && next == then,
            (Err(stop), Err(stopped)) => stop@ == stopped,
            _ => false,
        },
{
    let (bytes, at) = must_bytes(
        replies,
        at,
        Action::ReadSystemFile { path: path.to_owned(), limit: maximum + 1 },
        "identity_unavailable",
        path,
    )?;
    if bytes.len() as u64 > maximum {
        return Err(refuse("identity_unavailable", path.to_owned().concat(" is oversized")));
    }
    Ok((bytes, at))
}

/// The refusal of a process or boot that cannot be identified.
pub open spec fn unidentified(detail: Seq<char>) -> Failure {
    failure("identity_unavailable"@, detail)
}

/// The start token that the stat line of a process gives: the number of the
/// process stands before the parenthesised name, and the start time is the
/// twentieth word behind it.
pub open spec fn token_of_stat(raw: Seq<u8>, pid: u32) -> Result<Seq<char>, Failure> {
    if !valid_utf8(raw) {
        Err(unidentified(utf8_complaint(raw)))
    } else {
        match split_at_last_close(decode_utf8(raw)) {
            None => Err(unidentified("malformed Linux process stat"@)),
            Some((prefix, suffix)) => match split_around(prefix, '(') {
                None => Err(unidentified("malformed process pid"@)),
                Some((number, _)) => match unsigned_value(trimmed(number)) {
                    None => Err(unidentified("malformed process pid"@)),
                    Some(actual) => if actual > u32::MAX {
                        Err(unidentified("malformed process pid"@))
                    } else if actual != pid {
                        Err(unidentified("Linux process stat pid changed"@))
                    } else if words(suffix).len() <= 19 {
                        Err(unidentified("process stat is truncated"@))
                    } else {
                        match unsigned_value(words(suffix)[19]) {
                            None => Err(unidentified("invalid process start ticks"@)),
                            Some(ticks) => if ticks > u64::MAX {
                                Err(unidentified("invalid process start ticks"@))
                            } else if ticks == 0 || ticks > MAX_JSON_INTEGER {
                                Err(
                                    unidentified(
                                        "process start ticks are outside the exact identity range"@,
                                    ),
                                )
                            } else {
                                Ok("linux:"@ + decimal(ticks))
                            },
                        }
                    },
                },
            },
        }
    }
}

fn unidentifiable(detail: &str) -> (error: DescriptorError)
    ensures
        error@ == unidentified(detail@),
{
    DescriptorError::new("identity_unavailable", detail.to_owned())
}

/// Reads the start token from the stat line of a process.
pub fn parse_start_token(raw: &[u8], pid: u32) -> (result: Result<String, DescriptorError>)
    ensures
        match result {
            Ok(token) => token_of_stat(raw@, pid) == Ok::<Seq<char>, Failure>(token@),
            Err(error) => token_of_stat(raw@, pid) == Err::<Seq<char>, Failure>(error@),
        },
{
    let text = match read_utf8(raw) {
        Ok(text) => text,
        Err(reason) => {
            return Err(unidentifiable(reason.as_str()));
        },
    };
    let (prefix, suffix) = match rsplit_close(text.as_str()) {
        Some(parts) => parts,
        None => {
            return Err(unidentifiable("malformed Linux process stat"));
        },
    };
    let number = match split_once(prefix, '(') {
        Some((number, _)) => number,
        None => {
            return Err(unidentifiable("malformed process pid"));
        },
    };
    match parse_u64(trim(number)) {
        Some(actual) => {
            if actual > 0xffff_ffff {
                return Err(unidentifiable("malformed process pid"));
            }
            if actual != pid as u64 {
                return Err(unidentifiable("Linux process stat pid changed"));
            }
        },
        None => {
            return Err(unidentifiable("malformed process pid"));
        },
    }
    let word = match nth_word(suffix, 19) {
        Some(word) => word,
        None => {
            return Err(unidentifiable("process stat is truncated"));
        },
    };
    match parse_u64(word) {
        None => Err(unidentifiable("invalid process start ticks")),
        Some(ticks) => {
            if ticks == 0 || ticks > MAX_JSON_INTEGER {
                return Err(
                    unidentifiable("process start ticks are outside the exact identity range"),
                );
            }
            Ok("linux:".to_owned().concat(decimal_text(ticks).as_str()))
        },
    }
}

/// A result in which a refusal stops the dialogue.
pub open spec fn concluded<T>(result: Result<T, Failure>, at: int) -> Run<T> {
    match result {
        Ok(value) => Ok((value, at)),
        Err(refusal) => Err(StopView::Refuse(refusal)),
    }
}

/// The directory of a process.
pub open spec fn process_path(pid: u32) -> Seq<char> {
    "/proc/"@ + decimal(pid as nat)
}

/// The start token of a process of ours, from the files of the system.
pub open spec fn linux_start_token(replies: Seq<Reply>, at: int, pid: u32, euid: u32) -> Run<
    Seq<char>,
> {
    match said_stat(replies, at, ActionView::StatPath { path: process_path(pid) }) {
        Err(stop) => Err(stop),
        Ok((Err(error), _)) => Err(
            refused_io("identity_unavailable"@, process_path(pid), error),
        ),
        Ok((Ok(stat), at)) => if stat.kind != FileKind::Directory || stat.uid != euid {
            Err(
                refused(
                    "identity_unavailable"@,
                    "descriptor process is not current-user-owned"@,
                ),
            )
        } else {
            match system_file_read(replies, at, joined(process_path(pid), "stat"@), 4096) {
                Err(stop) => Err(stop),
                Ok((raw, at)) => concluded(token_of_stat(raw, pid), at),
            }
        },
    }
}

/// The start token of a process of ours, from what the system says of it.
pub open spec fn macos_start_token(replies: Seq<Reply>, at: int, pid: u32, euid: u32) -> Run<
    Seq<char>,
> {
    if at >= replies.len() {
        Err(StopView::Await(ActionView::ProcessInfo { pid }))
    } else {
        match replies[at] {
            Reply::Process(info) => if info.pid != pid || info.uid != euid || info.start_seconds
                == 0 || info.start_micros > 999_999 {
                Err(
                    refused(
                        "identity_unavailable"@,
                        "cannot identify current-user process "@ + decimal(pid as nat),
                    ),
                )
            } else {
                Ok(
                    (
                        "macos:"@ + decimal(info.start_seconds as nat) + ":"@ + decimal(
                            info.start_micros as nat,
                        ),
                        at + 1,
                    ),
                )
            },
            Reply::Failed(_) => Err(
                refused(
                    "identity_unavailable"@,
                    "cannot identify current-user process "@ + decimal(pid as nat),
                ),
            ),
            _ => Err(StopView::Misfit),
        }
    }
}

/// The start token of a process of ours.
pub open spec fn start_token(replies: Seq<Reply>, at: int, platform: Platform, pid: u32, euid: u32) -> Run<
    Seq<char>,
> {
    if pid == 0 || pid > MAX_PID {
        Err(refused("identity_unavailable"@, "pid is outside the native process-id range"@))
    } else {
        match platform {
            Platform::Linux => linux_start_token(replies, at, pid, euid),
            Platform::Macos => macos_start_token(replies, at, pid, euid),
        }
    }
}

fn conclude(result: Result<String, DescriptorError>, at: usize) -> (run: Result<
    (String, usize),
    Stop,
>)
    ensures
        match result {
            Ok(text) => run_of(run) == Ok::<(Seq<char>, int), StopView>((text@, at as int)),
            Err(error) => run_of(run) == Err::<(Seq<char>, int), StopView>(
                StopView::Refuse(error@),
            ),
        },
{
    match result {
        Ok(text) => Ok((text, at)),
        Err(error) => Err(refuse(error.code, error.detail)),
    }
}

/// Asks for the start token of a process of ours.
pub fn process_start_token(
    replies: &Vec<Reply>,
    at: usize,
    platform: Platform,
    pid: u32,
    euid: u32,
) -> (run: Result<(String, usize), Stop>)
    ensures
        run_of(run) == start_token(replies@, at as int, platform, pid, euid),
{
    if pid == 0 || pid > MAX_PID {
        return Err(
            refuse(
                "identity_unavailable",
                "pid is outside the native process-id range".to_owned(),
            ),
        );
    }
    let number = decimal_text(pid as u64);
    match platform {
        Platform::Linux => {
            let path = "/proc/".to_owned().concat(number.as_str());
            let (asked, at) = ask_stat(replies, at, Action::StatPath { path: path.clone() })?;
            let stat = match asked {
                Ok(stat) => stat,
                Err(error) => {
                    return Err(refuse_io("identity_unavailable", path.as_str(), error));
                },
            };
            let directory = match stat.kind {
                FileKind::Directory => true,
                _ => false,
            };
            if !directory || stat.uid != euid {
                return Err(
                    refuse(
                        "identity_unavailable",
                        "descriptor process is not current-user-owned".to_owned(),
                    ),
                );
            }
            let stat_path = join_text(path.as_str(), "stat");
            let (raw, at) = read_system_file_bounded(replies, at, stat_path.as_str(), 4096)?;
            conclude(parse_start_token(raw.as_slice(), pid), at)
        },
        Platform::Macos => {
            if at >= replies.len() {
                return Err(Stop::Await(Action::ProcessInfo { pid }));
            }
            match &replies[at] {
                Reply::Process(info) => {
                    if info.pid != pid || info.uid != euid || info.start_seconds == 0
                        || info.start_micros > 999_999 {
                        return Err(
                            refuse(
                                "identity_unavailable",
                                "cannot identify current-user process ".to_owned().concat(
                                    number.as_str(),
                                ),
                            ),
                        );
                    }
                    let token = "macos:".to_owned().concat(
                        decimal_text(info.start_seconds).as_str(),
                    ).concat(":").concat(decimal_text(info.start_micros).as_str());
                    Ok((token, at + 1))
                },
                Reply::Failed(_) => Err(
                    refuse(
                        "identity_unavailable",
                        "cannot identify current-user process ".to_owned().concat(
                            number.as_str(),
                        ),
                    ),
                ),
                _ => Err(Stop::Misfit),
            }
        },
    }
}

/// The identifier of the boot that a file of the system gives.
pub open spec fn boot_of_file(raw: Seq<u8>) -> Result<Seq<char>, Failure> {
    if !valid_utf8(raw) {
        Err(unidentified(utf8_complaint(raw)))
    } else {
        match uuid_failure("boot_id"@, trimmed(decode_utf8(raw))) {
            Some(refusal) => Err(refusal),
            None => Ok("linux:"@ + trimmed(decode_utf8(raw))),
        }
    }
}

/// Reads the identifier of the boot from a file of the system.
pub fn parse_boot_id(raw: &[u8]) -> (result: Result<String, DescriptorError>)
    ensures
        match result {
            Ok(boot) => boot_of_file(raw@) == Ok::<Seq<char>, Failure>(boot@),
            Err(error) => boot_of_file(raw@) == Err::<Seq<char>, Failure>(error@),
        },
{
    let text = match read_utf8(raw) {
        Ok(text) => text,
        Err(reason) => {
            return Err(unidentifiable(reason.as_str()));
        },
    };
    let value = trim(text.as_str());
    validate_uuid("boot_id", value)?;
    Ok("linux:".to_owned().concat(value))
}

/// The file that identifies the boot.
pub const BOOT_ID_FILE: &'static str = "/proc/sys/kernel/random/boot_id";

/// The identifier of the running boot.
pub open spec fn boot_id(replies: Seq<Reply>, at: int, platform: Platform) -> Run<Seq<char>> {
    match platform {
        Platform::Linux => match system_file_read(replies, at, BOOT_ID_FILE@, 128) {
            Err(stop) => Err(stop),
            Ok((raw, at)) => concluded(boot_of_file(raw), at),
        },
        Platform::Macos => if at >= replies.len() {
            Err(StopView::Await(ActionView::BootTime))
        } else {
            match replies[at] {
                Reply::BootTime { seconds, micros, pending } => if seconds <= 0 || micros < 0
                    || micros > 999_999 {
                    Err(
                        refused_io(
                            "identity_unavailable"@,
                            "sysctlbyname(kern.boottime)"@,
                            pending,
                        ),
                    )
                } else {
                    Ok(
                        (
                            "macos:"@ + decimal(seconds as nat) + ":"@ + decimal(micros as nat),
                            at + 1,
                        ),
                    )
                },
                Reply::Failed(error) => Err(
                    refused_io("identity_unavailable"@, "sysctlbyname(kern.boottime)"@, error),
                ),
                _ => Err(StopView::Misfit),
            }
        },
    }
}

/// Asks for the identifier of the running boot.
pub fn current_boot_id(replies: &Vec<Reply>, at: usize, platform: Platform) -> (run: Result<
    (String, usize),
    Stop,
>)
    ensures
        run_of(run) == boot_id(replies@, at as int, platform),
{
    match platform {
        Platform::Linux => {
            let (raw, at) = read_system_file_bounded(replies, at, BOOT_ID_FILE, 128)?;
            conclude(parse_boot_id(raw.as_slice()), at)
        },
        Platform::Macos => {
            if at >= replies.len() {
                return Err(Stop::Await(Action::BootTime));
            }
            match &replies[at] {
                Reply::BootTime { seconds, micros, pending } => {
                    if *seconds <= 0 || *micros < 0 || *micros > 999_999 {
                        return Err(
                            refuse_io(
                                "identity_unavailable",
                                "sysctlbyname(kern.boottime)",
                                pending,
                            ),
                        );
                    }
                    let boot = "macos:".to_owned().concat(
                        decimal_text(*seconds as u64).as_str(),
                    ).concat(":").concat(decimal_text(*micros as u64).as_str());
                    Ok((boot, at + 1))
                },
                Reply::Failed(error) => Err(
                    refuse_io("identity_unavailable", "sysctlbyname(kern.boottime)", error),
                ),
                _ => Err(Stop::Misfit),
            }
        },
    }
}

/// What the process lister said of a process: whether it succeeded, and what
/// it wrote.
#[derive(Debug)]
pub struct ProcessListing {
    pub success: bool,
    pub stdout: Vec<u8>,
}

/// The start token that the process lister gives for the GUI process.
pub open spec fn listed_token(pid: u32, listing: ProcessListing) -> Result<Seq<char>, Failure> {
    let token = trimmed(decode_utf8(listing.stdout@));
    if !listing.success {
        Err(
            unidentified(
                "/bin/ps could not identify GUI pid "@ + decimal(pid as nat),
            ),
        )
    } else if !valid_utf8(listing.stdout@) {
        Err(unidentified("/bin/ps start token is not UTF-8"@))
    } else if token.len() == 0 || encode_utf8(token).len() > 256 {
        Err(unidentified("GUI process start token is empty or oversized"@))
    } else {
        Ok(token)
    }
}

/// Takes the start token of the GUI process from what the process lister said,
/// or the system error with which it could not be run.
pub fn current_process_start_token(pid: u32, listing: Result<ProcessListing, OsFailure>) -> (result:
    Result<String, BridgeFsError>)
    ensures
        match (listing, result) {
            (Err(error), Err(refusal)) => refusal@ == unidentified(
                io_detail("/bin/ps"@, error.text@),
            ),
            (Ok(listing), Ok(token)) => listed_token(pid, listing) == Ok::<Seq<char>, Failure>(
                token@,
            ),
            (Ok(listing), Err(refusal)) => listed_token(pid, listing) == Err::<Seq<char>, Failure>(
                refusal@,
            ),
            _ => false,
        },
{
    let listing = match listing {
        Ok(listing) => listing,
        Err(error) => {
            return Err(BridgeFsError::io("identity_unavailable", "/bin/ps", &error));
        },
    };
    if !listing.success {
        return Err(
            BridgeFsError::new(
                "identity_unavailable",
                "/bin/ps could not identify GUI pid ".to_owned().concat(
                    decimal_text(pid as u64).as_str(),
                ),
            ),
        );
    }
    let text = match read_utf8(listing.stdout.as_slice()) {
        Ok(text) => text,
        Err(_) => {
            return Err(
                BridgeFsError::new(
                    "identity_unavailable",
                    "/bin/ps start token is not UTF-8".to_owned(),
                ),
            );
        },
    };
    let token = trim(text.as_str());
    if token.is_empty() || byte_len(token) > 256 {
        return Err(
            BridgeFsError::new(
                "identity_unavailable",
                "GUI process start token is empty or oversized".to_owned(),
            ),
        );
    }
    Ok(token.to_owned())
}

/// Why a directory that the environment names cannot be the runtime directory.
pub open spec fn runtime_base_refusal(path: Option<Seq<u8>>) -> Option<Failure> {
    match path {
        None => Some(failure("runtime_unavailable"@, "XDG_RUNTIME_DIR is not set"@)),
        Some(path) => if is_absolute(path) {
            None
        } else {
            Some(failure("runtime_unavailable"@, "XDG_RUNTIME_DIR must be absolute"@))
        },
    }
}

/// The view of an optional byte string.
pub open spec fn optional_path(path: Option<Vec<u8>>) -> Option<Seq<u8>> {
    match path {
        Some(path) => Some(path@),
        None => None,
    }
}

/// Takes the runtime directory from the environment.
pub fn platform_runtime_base(path: Option<Vec<u8>>) -> (result: Result<Vec<u8>, DescriptorError>)
    ensures
        refuses(result, runtime_base_refusal(optional_path(path))),
        result matches Ok(base) ==> optional_path(path) == Some(base@),
{
    match path {
        None => Err(
            DescriptorError::new("runtime_unavailable", "XDG_RUNTIME_DIR is not set".to_owned()),
        ),
        Some(path) => {
            if starts_at_root(path.as_slice()) {
                Ok(path)
            } else {
                Err(
                    DescriptorError::new(
                        "runtime_unavailable",
                        "XDG_RUNTIME_DIR must be absolute".to_owned(),
                    ),
                )
            }
        },
    }
}

/// What to do with an answer of the system's configuration: it needs so many
/// bytes with the closing NUL, and the buffer has so many.
#[derive(Clone, Copy, Debug, PartialEq, Eq, Structural)]
pub enum ConfigurationStep {
    /// There is no such value.
    Unavailable,
    /// Ask again with a buffer of this size.
    Enlarge(usize),
    /// The value is this many bytes of the buffer.
    Take(usize),
}

/// What to do with an answer of the system's configuration.
pub fn configuration_step(required: usize, buffer: usize) -> (step: ConfigurationStep)
    ensures
        step == (if required == 0 {
            ConfigurationStep::Unavailable
        } else if required <= buffer {
            ConfigurationStep::Take((required - 1) as usize)
        } else {
            ConfigurationStep::Enlarge(required)
        }),
{
    if required == 0 {
        ConfigurationStep::Unavailable
    } else if required <= buffer {
        ConfigurationStep::Take(required - 1)
    } else {
        ConfigurationStep::Enlarge(required)
    }
}

/// Takes the runtime directory from the system's configuration.
pub fn configured_runtime_base(path: Vec<u8>) -> (result: Result<Vec<u8>, DescriptorError>)
    ensures
        refuses(
            result,
            (if is_absolute(path@) {
                None
            } else {
                Some(
                    failure(
                        "runtime_unavailable"@,
                        "_CS_DARWIN_USER_TEMP_DIR is not absolute"@,
                    ),
                )
            }),
        ),
        result matches Ok(base) ==> base@ == path@,
{
    if starts_at_root(path.as_slice()) {
        Ok(path)
    } else {
        Err(
            DescriptorError::new(
                "runtime_unavailable",
                "_CS_DARWIN_USER_TEMP_DIR is not absolute".to_owned(),
            ),
        )
    }
}

/// A path with a relative path below it.
pub open spec fn joined_bytes(base: Seq<u8>, name: Seq<u8>) -> Seq<u8> {
    if base.len() == 0 || base.last() == SLASH {
        base + name
    } else {
        base.push(SLASH) + name
    }
}

/// The directory for durable data, as the environment names it.
pub open spec fn data_base(xdg: Option<Seq<u8>>, home: Option<Seq<u8>>) -> Result<
    Seq<u8>,
    Failure,
> {
    if xdg is Some && xdg->0.len() > 0 {
        if is_absolute(xdg->0) {
            Ok(xdg->0)
        } else {
            Err(failure("data_unavailable"@, "dmux data base must be absolute"@))
        }
    } else {
        match home {
            None => Err(
                failure("data_unavailable"@, "neither XDG_DATA_HOME nor HOME is set"@),
            ),
            Some(home) => {
                let path = joined_bytes(home, encode_utf8(".local/share"@));
                if is_absolute(path) {
                    Ok(path)
                } else {
                    Err(failure("data_unavailable"@, "dmux data base must be absolute"@))
                }
            },
        }
    }
}

/// Joins a path and a relative path below it.
pub fn join_bytes(base: &[u8], name: &[u8]) -> (path: Vec<u8>)
    ensures
        path@ == joined_bytes(base@, name@),
{
    let mut path = copy_bytes(base);
    if base.len() > 0 && base[base.len() - 1] != SLASH {
        path.push(SLASH);
    }
    let ghost start = path@;
    let mut i: usize = 0;
    assert(start + name@.take(0) =~= start);
    while i < name.len()
        invariant
            i <= name@.len(),
            path@ == start + name@.take(i as int),
        decreases name@.len() - i,
    {
        path.push(name[i]);
        i += 1;
        assert(path@ =~= start + name@.take(i as int));
    }
    assert(name@.take(i as int) =~= name@);
    path
}

fn data_below_home(home: Option<Vec<u8>>) -> (result: Result<Vec<u8>, RecoveryManifestError>)
    ensures
        match (home, result) {
            (Some(home), Ok(path)) => path@ == joined_bytes(home@, encode_utf8(".local/share"@)),
            (None, Err(error)) => error@ == failure(
                "data_unavailable"@,
                "neither XDG_DATA_HOME nor HOME is set"@,
            ),
            _ => false,
        },
{
    match home {
        Some(home) => Ok(join_bytes(home.as_slice(), ".local/share".as_bytes())),
        None => Err(
            RecoveryManifestError::new(
                "data_unavailable",
                "neither XDG_DATA_HOME nor HOME is set".to_owned(),
            ),
        ),
    }
}

/// Takes the directory for durable data from the environment.
pub fn platform_data_base(xdg: Option<Vec<u8>>, home: Option<Vec<u8>>) -> (result: Result<
    Vec<u8>,
    RecoveryManifestError,
>)
    ensures
        match result {
            Ok(base) => data_base(optional_path(xdg), optional_path(home)) == Ok::<
                Seq<u8>,
                Failure,
            >(base@),
            Err(error) => data_base(optional_path(xdg), optional_path(home)) == Err::<
                Seq<u8>,
                Failure,
            >(error@),
        },
{
    let path = match xdg {
        Some(path) => {
            if path.len() > 0 {
                path
            } else {
                data_below_home(home)?
            }
        },
        None => data_below_home(home)?,
    };
    if !starts_at_root(path.as_slice()) {
        return Err(
            RecoveryManifestError::new(
                "data_unavailable",
                "dmux data base must be absolute".to_owned(),
            ),
        );
    }
    Ok(path)
}

} // verus!
