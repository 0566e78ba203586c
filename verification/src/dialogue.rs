//! Dialogues with the operating system.
//!
//! An operation on the file system is a dialogue: it says what is to be done
//! next, and goes on with what was answered. Here such an operation is a
//! function of everything that was answered so far. It stops with the next
//! action where the answers end, with a refusal, or with its result. Whoever
//! performs the actions appends each answer and asks again, so the function
//! decides every step and touches nothing itself.

use crate::descriptor::{DescriptorView, ServiceDescriptor};
use crate::failure::{failure, io_detail, BridgeFsError, DescriptorError, Failure, OsFailure};
use vstd::prelude::*;

verus! {

/// The role in which an open file, directory or socket is held.
#[derive(Clone, Copy, Debug, PartialEq, Eq, Structural)]
pub enum Slot {
    /// The directory of the platform, and the one below it that is ours.
    Base,
    Runtime,
    /// The same two, opened anew to compare them.
    CurrentBase,
    CurrentRuntime,
    /// Directories of the recovery protocols.
    Recovery,
    Epoch,
    Manifests,
    /// Directories of the bridge.
    Bridge,
    Instances,
    Instance,
    Requests,
    Acks,
    Consumed,
    Context,
    /// The lease that is held, and the file that its name stands for now.
    Lease,
    CurrentLease,
    /// A file that is to be replaced or removed.
    Existing,
    /// A file that is not public yet.
    Temporary,
    /// A file that was moved out of the way.
    Quarantined,
    /// A file that was made public.
    Published,
    /// A file that is read.
    Reading,
    /// The descriptor that is held, and the file that its name stands for now.
    Descriptor,
    CurrentDescriptor,
    /// A request that was handed out, and the file that its name stands for now.
    Observed,
    Source,
    Destination,
    /// A connection to the service.
    Connection,
}

/// How a file is opened. A symbolic link is never followed, and opening never
/// blocks.
#[derive(Clone, Copy, Debug, PartialEq, Eq, Structural)]
pub enum Access {
    Read,
    Write,
    ReadWrite,
}

/// What kind of object a name or a descriptor stands for.
#[derive(Clone, Copy, Debug, PartialEq, Eq, Structural)]
pub enum FileKind {
    Regular,
    Directory,
    Socket,
    Other,
}

/// What the system says of an object.
#[derive(Clone, Copy, Debug, PartialEq, Eq, Structural)]
pub struct FileStat {
    pub kind: FileKind,
    pub uid: u32,
    pub nlink: u64,
    pub mode: u32,
    pub dev: u64,
    pub ino: u64,
    pub len: u64,
}

impl View for FileStat {
    type V = FileStat;

    open spec fn view(&self) -> FileStat {
        *self
    }
}

/// What is to be done next. Directories and files are meant by their slots;
/// names are single components below a directory.
#[derive(Debug)]
pub enum Action {
    /// Open a directory by its path, without following a symbolic link.
    OpenBase { path: Vec<u8>, into: Slot },
    /// Open a directory below a directory, without following a symbolic link.
    OpenDirectory { dir: Slot, name: String, into: Slot },
    /// Make a directory that only its owner can use.
    MakeDirectory { dir: Slot, name: String },
    /// Set the permissions of an open object.
    SetMode { slot: Slot, mode: u32 },
    /// Ask about an open object.
    Stat { slot: Slot },
    /// Ask about a name, without following a symbolic link.
    StatName { dir: Slot, name: String },
    /// Open an existing file.
    OpenFile { dir: Slot, name: String, access: Access, into: Slot },
    /// Create a file that only its owner can use; it must not exist.
    CreateFile { dir: Slot, name: String, access: Access, into: Slot },
    /// Read at most so many bytes from where the file stands.
    Read { slot: Slot, limit: u64 },
    /// Read to the end from where the file stands.
    ReadAll { slot: Slot },
    /// Go back to the start of the file.
    Rewind { slot: Slot },
    /// Write all of these bytes where the file stands.
    Write { slot: Slot, bytes: Vec<u8> },
    /// Cut the file to nothing.
    Truncate { slot: Slot },
    /// Make the file durable.
    SyncFile { slot: Slot },
    /// Make the entries of the directory durable.
    SyncDirectory { slot: Slot },
    /// Rename a file; the new name must not exist.
    RenameNoReplace { from_dir: Slot, from: String, to_dir: Slot, to: String },
    /// Rename a file over whatever has the new name.
    RenameReplace { dir: Slot, from: String, to: String },
    /// Give a file a second name, which must not exist.
    Link { dir: Slot, from: String, to: String },
    /// Remove a name.
    Unlink { dir: Slot, name: String },
    /// Lock the file for this process alone, without waiting.
    LockExclusive { slot: Slot },
    /// List the names in a directory.
    ListNames { dir: Slot },
    /// Draw a fresh random identifier.
    DrawIdentifier,
    /// Open a stream socket.
    OpenSocket { into: Slot },
    /// Make a socket neither block nor be inherited.
    PrepareSocket { slot: Slot },
    /// Connect a socket to a path.
    Connect { slot: Slot, path: Vec<u8> },
    /// Set a deadline so many milliseconds from now.
    SetDeadline { millis: u64 },
    /// Ask how many nanoseconds are left until the deadline.
    RemainingTime,
    /// Wait for a socket to become writable, so many milliseconds at most.
    PollWritable { slot: Slot, timeout: i32 },
    /// Ask for the pending error of a socket.
    PendingError { slot: Slot },
    /// Ask which process and which user is at the other end of a socket.
    PeerCredentials { slot: Slot },
    /// Ask which process is at the other end of a socket.
    PeerProcess { slot: Slot },
    /// Ask which user is at the other end of a socket.
    PeerOwner { slot: Slot },
    /// Ask about an object by its path.
    StatPath { path: String },
    /// Read at most so many bytes of a file of the system.
    ReadSystemFile { path: String, limit: u64 },
    /// Ask when the system started.
    BootTime,
    /// Ask about a process.
    ProcessInfo { pid: u32 },
    /// Ask how many seconds it is since the epoch.
    Clock,
    /// Ask how many threads the process has.
    CountThreads,
    /// Write a service descriptor as JSON.
    EncodeDescriptor { descriptor: ServiceDescriptor },
    /// Read a service descriptor from JSON.
    DecodeDescriptor { raw: Vec<u8> },
    /// Take the request that was observed under this identifier, and hold the
    /// file that it was read from as [`Slot::Observed`].
    TakeObserved { uid: String },
    /// Claim an instance within this process.
    ClaimInstance { instance: String },
    /// Remember the present directory.
    RememberDirectory,
    /// Enter a directory.
    EnterDirectory { dir: Slot },
    /// Bind the listener to a name in the present directory, privately.
    BindListener { name: String },
    /// Go back to the remembered directory.
    LeaveDirectory,
    /// End the process at once.
    Exit { status: i32 },
}

/// The view of an [`Action`].
pub enum ActionView {
    OpenBase { path: Seq<u8>, into: Slot },
    OpenDirectory { dir: Slot, name: Seq<char>, into: Slot },
    MakeDirectory { dir: Slot, name: Seq<char> },
    SetMode { slot: Slot, mode: u32 },
    Stat { slot: Slot },
    StatName { dir: Slot, name: Seq<char> },
    OpenFile { dir: Slot, name: Seq<char>, access: Access, into: Slot },
    CreateFile { dir: Slot, name: Seq<char>, access: Access, into: Slot },
    Read { slot: Slot, limit: u64 },
    ReadAll { slot: Slot },
    Rewind { slot: Slot },
    Write { slot: Slot, bytes: Seq<u8> },
    Truncate { slot: Slot },
    SyncFile { slot: Slot },
    SyncDirectory { slot: Slot },
    RenameNoReplace { from_dir: Slot, from: Seq<char>, to_dir: Slot, to: Seq<char> },
    RenameReplace { dir: Slot, from: Seq<char>, to: Seq<char> },
    Link { dir: Slot, from: Seq<char>, to: Seq<char> },
    Unlink { dir: Slot, name: Seq<char> },
    LockExclusive { slot: Slot },
    ListNames { dir: Slot },
    DrawIdentifier,
    OpenSocket { into: Slot },
    PrepareSocket { slot: Slot },
    Connect { slot: Slot, path: Seq<u8> },
    SetDeadline { millis: u64 },
    RemainingTime,
    PollWritable { slot: Slot, timeout: i32 },
    PendingError { slot: Slot },
    PeerCredentials { slot: Slot },
    PeerProcess { slot: Slot },
    PeerOwner { slot: Slot },
    StatPath { path: Seq<char> },
    ReadSystemFile { path: Seq<char>, limit: u64 },
    BootTime,
    ProcessInfo { pid: u32 },
    Clock,
    CountThreads,
    EncodeDescriptor { descriptor: DescriptorView },
    DecodeDescriptor { raw: Seq<u8> },
    TakeObserved { uid: Seq<char> },
    ClaimInstance { instance: Seq<char> },
    RememberDirectory,
    EnterDirectory { dir: Slot },
    BindListener { name: Seq<char> },
    LeaveDirectory,
    Exit { status: i32 },
}

impl View for Action {
    type V = ActionView;

    open spec fn view(&self) -> ActionView {
        match *self {
            Action::OpenBase { path, into } => ActionView::OpenBase { path: path@, into },
            Action::OpenDirectory { dir, name, into } => ActionView::OpenDirectory {
                dir,
                name: name@,
                into,
            },
            Action::MakeDirectory { dir, name } => ActionView::MakeDirectory { dir, name: name@ },
            Action::SetMode { slot, mode } => ActionView::SetMode { slot, mode },
            Action::Stat { slot } => ActionView::Stat { slot },
            Action::StatName { dir, name } => ActionView::StatName { dir, name: name@ },
            Action::OpenFile { dir, name, access, into } => ActionView::OpenFile {
                dir,
                name: name@,
                access,
                into,
            },
            Action::CreateFile { dir, name, access, into } => ActionView::CreateFile {
                dir,
                name: name@,
                access,
                into,
            },
            Action::Read { slot, limit } => ActionView::Read { slot, limit },
            Action::ReadAll { slot } => ActionView::ReadAll { slot },
            Action::Rewind { slot } => ActionView::Rewind { slot },
            Action::Write { slot, bytes } => ActionView::Write { slot, bytes: bytes@ },
            Action::Truncate { slot } => ActionView::Truncate { slot },
            Action::SyncFile { slot } => ActionView::SyncFile { slot },
            Action::SyncDirectory { slot } => ActionView::SyncDirectory { slot },
            Action::RenameNoReplace { from_dir, from, to_dir, to } => ActionView::RenameNoReplace {
                from_dir,
                from: from@,
                to_dir,
                to: to@,
            },
            Action::RenameReplace { dir, from, to } => ActionView::RenameReplace {
                dir,
                from: from@,
                to: to@,
            },
            Action::Link { dir, from, to } => ActionView::Link { dir, from: from@, to: to@ },
            Action::Unlink { dir, name } => ActionView::Unlink { dir, name: name@ },
            Action::LockExclusive { slot } => ActionView::LockExclusive { slot },
            Action::ListNames { dir } => ActionView::ListNames { dir },
            Action::DrawIdentifier => ActionView::DrawIdentifier,
            Action::OpenSocket { into } => ActionView::OpenSocket { into },
            Action::PrepareSocket { slot } => ActionView::PrepareSocket { slot },
            Action::Connect { slot, path } => ActionView::Connect { slot, path: path@ },
            Action::SetDeadline { millis } => ActionView::SetDeadline { millis },
            Action::RemainingTime => ActionView::RemainingTime,
            Action::PollWritable { slot, timeout } => ActionView::PollWritable { slot, timeout },
            Action::PendingError { slot } => ActionView::PendingError { slot },
            Action::PeerCredentials { slot } => ActionView::PeerCredentials { slot },
            Action::PeerProcess { slot } => ActionView::PeerProcess { slot },
            Action::PeerOwner { slot } => ActionView::PeerOwner { slot },
            Action::StatPath { path } => ActionView::StatPath { path: path@ },
            Action::ReadSystemFile { path, limit } => ActionView::ReadSystemFile {
                path: path@,
                limit,
            },
            Action::BootTime => ActionView::BootTime,
            Action::ProcessInfo { pid } => ActionView::ProcessInfo { pid },
            Action::Clock => ActionView::Clock,
            Action::CountThreads => ActionView::CountThreads,
            Action::EncodeDescriptor { descriptor } => ActionView::EncodeDescriptor {
                descriptor: descriptor@,
            },
            Action::DecodeDescriptor { raw } => ActionView::DecodeDescriptor { raw: raw@ },
            Action::TakeObserved { uid } => ActionView::TakeObserved { uid: uid@ },
            Action::ClaimInstance { instance } => ActionView::ClaimInstance {
                instance: instance@,
            },
            Action::RememberDirectory => ActionView::RememberDirectory,
            Action::EnterDirectory { dir } => ActionView::EnterDirectory { dir },
            Action::BindListener { name } => ActionView::BindListener { name: name@ },
            Action::LeaveDirectory => ActionView::LeaveDirectory,
            Action::Exit { status } => ActionView::Exit { status },
        }
    }
}

/// Who is at the other end of a socket, as the system says it. `complete` tells
/// whether the system gave all that was asked for.
#[derive(Clone, Copy, Debug, PartialEq, Eq, Structural)]
pub struct PeerIdentity {
    pub complete: bool,
    pub pid: i32,
    pub uid: u32,
}

/// What the system says of a process: its number, its owner and when it
/// started, in seconds and microseconds.
#[derive(Clone, Copy, Debug, PartialEq, Eq, Structural)]
pub struct ProcessIdentity {
    pub pid: u32,
    pub uid: u32,
    pub start_seconds: u64,
    pub start_micros: u64,
}

/// A request whose bytes were handed out, with the length that its file had.
#[derive(Debug)]
pub struct ObservedRequest {
    pub body: Vec<u8>,
    pub length: u64,
}

/// What was answered to an action.
#[derive(Debug)]
pub enum Reply {
    Done,
    Failed(OsFailure),
    Stat(FileStat),
    Bytes(Vec<u8>),
    Text(String),
    Number(u64),
    Integer(i64),
    /// The system error that was pending on a socket.
    Pending(OsFailure),
    /// When the system started, with the system error that was pending then.
    BootTime { seconds: i64, micros: i64, pending: OsFailure },
    Flag(bool),
    /// The names in a directory; `None` for one that is no text.
    Names(Vec<Option<String>>),
    Peer(PeerIdentity),
    Process(ProcessIdentity),
    Descriptor(ServiceDescriptor),
    /// What was to be encoded or decoded could not be, and why.
    Unreadable(String),
    Observed(ObservedRequest),
    Absent,
}

/// A refusal of an operation.
#[derive(Debug)]
pub struct Refusal {
    pub code: &'static str,
    pub detail: String,
}

impl View for Refusal {
    type V = Failure;

    open spec fn view(&self) -> Failure {
        Failure { code: self.code@, detail: self.detail@ }
    }
}

impl Refusal {
    pub fn new(code: &'static str, detail: String) -> (refusal: Self)
        ensures
            refusal@ == failure(code@, detail@),
    {
        Refusal { code, detail }
    }

    pub fn io(code: &'static str, context: &str, error: &OsFailure) -> (refusal: Self)
        ensures
            refusal@ == failure(code@, io_detail(context@, error.text@)),
    {
        Refusal { code, detail: context.to_owned().concat(": ").concat(error.text.as_str()) }
    }

    /// The refusal in the words of the descriptor protocol.
    pub fn into_descriptor(self) -> (error: DescriptorError)
        ensures
            error@ == self@,
    {
        DescriptorError { code: self.code, detail: self.detail, errno: None }
    }

    /// The refusal in the words of the bridge protocol.
    pub fn into_bridge(self) -> (error: BridgeFsError)
        ensures
            error@ == self@,
    {
        BridgeFsError { code: self.code, detail: self.detail }
    }
}

/// Why a dialogue stops before its result.
#[derive(Debug)]
pub enum Stop {
    /// The next action is to be performed, and its answer appended.
    Await(Action),
    /// The operation is refused.
    Refuse(Refusal),
    /// An answer does not fit the action that it answers.
    Misfit,
}

/// The view of a [`Stop`].
pub enum StopView {
    Await(ActionView),
    Refuse(Failure),
    Misfit,
}

impl View for Stop {
    type V = StopView;

    open spec fn view(&self) -> StopView {
        match *self {
            Stop::Await(action) => StopView::Await(action@),
            Stop::Refuse(refusal) => StopView::Refuse(refusal@),
            Stop::Misfit => StopView::Misfit,
        }
    }
}

/// A stop with a refusal.
pub open spec fn refused(code: Seq<char>, detail: Seq<char>) -> StopView {
    StopView::Refuse(failure(code, detail))
}

/// A stop with a refusal that a system error caused.
pub open spec fn refused_io(code: Seq<char>, context: Seq<char>, error: OsFailure) -> StopView {
    refused(code, io_detail(context, error.text@))
}

/// A stop with a refusal.
pub fn refuse(code: &'static str, detail: String) -> (stop: Stop)
    ensures
        stop@ == refused(code@, detail@),
{
    Stop::Refuse(Refusal::new(code, detail))
}

/// A stop with a refusal that a system error caused.
pub fn refuse_io(code: &'static str, context: &str, error: &OsFailure) -> (stop: Stop)
    ensures
        stop@ == refused_io(code@, context@, *error),
{
    Stop::Refuse(Refusal::io(code, context, error))
}

/// How far a dialogue has come: a value and the number of answers used, or a
/// stop.
pub type Run<T> = Result<(T, int), StopView>;

/// The view of a dialogue that runs.
pub open spec fn run_of<T: View>(run: Result<(T, usize), Stop>) -> Run<T::V> {
    match run {
        Ok((value, at)) => Ok((value@, at as int)),
        Err(stop) => Err(stop@),
    }
}

/// The view of a dialogue that runs without a value.
pub open spec fn steps_of(run: Result<usize, Stop>) -> Result<int, StopView> {
    match run {
        Ok(at) => Ok(at as int),
        Err(stop) => Err(stop@),
    }
}

/// Whether an action succeeded, or the system error with which it failed.
pub open spec fn said_done(replies: Seq<Reply>, at: int, action: ActionView) -> Run<
    Result<(), OsFailure>,
> {
    if at >= replies.len() {
        Err(StopView::Await(action))
    } else {
        match replies[at] {
            Reply::Done => Ok((Ok(()), at + 1)),
            Reply::Failed(error) => Ok((Err(error), at + 1)),
            _ => Err(StopView::Misfit),
        }
    }
}

/// Performs an action that succeeds or fails.
pub fn ask_done(replies: &Vec<Reply>, at: usize, action: Action) -> (run: Result<
    (Result<(), &OsFailure>, usize),
    Stop,
>)
    ensures
        match (run, said_done(replies@, at as int, action@)) {
            (Ok((Ok(()), next)), Ok((Ok(()), then))) => next == then,
            (Ok((Err(error), next)), Ok((Err(failed), then))) => *error == failed && next == then,
            (Err(stop), Err(stopped)) => stop@ == stopped,
            _ => false,
        },
{
    if at >= replies.len() {
        return Err(Stop::Await(action));
    }
    match &replies[at] {
        Reply::Done => Ok((Ok(()), at + 1)),
        Reply::Failed(error) => Ok((Err(error), at + 1)),
        _ => Err(Stop::Misfit),
    }
}

/// An action that must succeed, or the refusal with which its failure ends.
pub open spec fn must_do(
    replies: Seq<Reply>,
    at: int,
    action: ActionView,
    code: Seq<char>,
    context: Seq<char>,
) -> Result<int, StopView> {
    match said_done(replies, at, action) {
        Err(stop) => Err(stop),
        Ok((Ok(()), at)) => Ok(at),
        Ok((Err(error), _)) => Err(refused_io(code, context, error)),
    }
}

/// Performs an action that must succeed.
pub fn must_done(
    replies: &Vec<Reply>,
    at: usize,
    action: Action,
    code: &'static str,
    context: &str,
) -> (run: Result<usize, Stop>)
    ensures
        steps_of(run) == must_do(replies@, at as int, action@, code@, context@),
{
    match ask_done(replies, at, action)? {
        (Ok(()), at) => Ok(at),
        (Err(error), _) => Err(refuse_io(code, context, error)),
    }
}

/// An action whose answer is immaterial.
pub open spec fn said_anything(replies: Seq<Reply>, at: int, action: ActionView) -> Result<
    int,
    StopView,
> {
    if at >= replies.len() {
        Err(StopView::Await(action))
    } else {
        Ok(at + 1)
    }
}

/// Performs an action whose answer is immaterial.
pub fn ask_anything(replies: &Vec<Reply>, at: usize, action: Action) -> (run: Result<usize, Stop>)
    ensures
        steps_of(run) == said_anything(replies@, at as int, action@),
{
    if at >= replies.len() {
        return Err(Stop::Await(action));
    }
    Ok(at + 1)
}

/// What the system says of an object, or the system error.
pub open spec fn said_stat(replies: Seq<Reply>, at: int, action: ActionView) -> Run<
    Result<FileStat, OsFailure>,
> {
    if at >= replies.len() {
        Err(StopView::Await(action))
    } else {
        match replies[at] {
            Reply::Stat(stat) => Ok((Ok(stat), at + 1)),
            Reply::Failed(error) => Ok((Err(error), at + 1)),
            _ => Err(StopView::Misfit),
        }
    }
}

/// Asks about an object.
pub fn ask_stat(replies: &Vec<Reply>, at: usize, action: Action) -> (run: Result<
    (Result<FileStat, &OsFailure>, usize),
    Stop,
>)
    ensures
        match (run, said_stat(replies@, at as int, action@)) {
            (Ok((Ok(stat), next)), Ok((Ok(said), then))) => stat == said && next == then,
            (Ok((Err(error), next)), Ok((Err(failed), then))) => *error == failed && next == then,
            (Err(stop), Err(stopped)) => stop@ == stopped,
            _ => false,
        },
{
    if at >= replies.len() {
        return Err(Stop::Await(action));
    }
    match &replies[at] {
        Reply::Stat(stat) => Ok((Ok(*stat), at + 1)),
        Reply::Failed(error) => Ok((Err(error), at + 1)),
        _ => Err(Stop::Misfit),
    }
}

/// What the system says of an open object, or the refusal with which a failure
/// to ask ends.
pub open spec fn must_stat_slot(
    replies: Seq<Reply>,
    at: int,
    slot: Slot,
    code: Seq<char>,
    context: Seq<char>,
) -> Run<FileStat> {
    match said_stat(replies, at, ActionView::Stat { slot }) {
        Err(stop) => Err(stop),
        Ok((Ok(stat), at)) => Ok((stat, at)),
        Ok((Err(error), _)) => Err(refused_io(code, context, error)),
    }
}

/// Asks about an open object.
pub fn must_stat(
    replies: &Vec<Reply>,
    at: usize,
    slot: Slot,
    code: &'static str,
    context: &str,
) -> (run: Result<(FileStat, usize), Stop>)
    ensures
        run_of(run) == must_stat_slot(replies@, at as int, slot, code@, context@),
{
    match ask_stat(replies, at, Action::Stat { slot })? {
        (Ok(stat), at) => Ok((stat, at)),
        (Err(error), _) => Err(refuse_io(code, context, error)),
    }
}

/// The bytes that an action gives, or the refusal with which its failure ends.
pub open spec fn must_give_bytes(
    replies: Seq<Reply>,
    at: int,
    action: ActionView,
    code: Seq<char>,
    context: Seq<char>,
) -> Run<Seq<u8>> {
    if at >= replies.len() {
        Err(StopView::Await(action))
    } else {
        match replies[at] {
            Reply::Bytes(bytes) => Ok((bytes@, at + 1)),
            Reply::Failed(error) => Err(refused_io(code, context, error)),
            _ => Err(StopView::Misfit),
        }
    }
}

/// Performs an action that gives bytes.
pub fn must_bytes<'a>(
    replies: &'a Vec<Reply>,
    at: usize,
    action: Action,
    code: &'static str,
    context: &str,
) -> (run: Result<(&'a Vec<u8>, usize), Stop>)
    ensures
        match (run, must_give_bytes(replies@, at as int, action@, code@, context@)) {
            (Ok((bytes, next)), Ok((given, then))) => bytes@ == given && next == then,
            (Err(stop), Err(stopped)) => stop@ == stopped,
            _ => false,
        },
{
    if at >= replies.len() {
        return Err(Stop::Await(action));
    }
    match &replies[at] {
        Reply::Bytes(bytes) => Ok((bytes, at + 1)),
        Reply::Failed(error) => Err(refuse_io(code, context, error)),
        _ => Err(Stop::Misfit),
    }
}

/// The text that an action gives.
pub open spec fn must_give_text(replies: Seq<Reply>, at: int, action: ActionView) -> Run<Seq<char>> {
    if at >= replies.len() {
        Err(StopView::Await(action))
    } else {
        match replies[at] {
            Reply::Text(text) => Ok((text@, at + 1)),
            _ => Err(StopView::Misfit),
        }
    }
}

/// Performs an action that gives a text.
pub fn must_text<'a>(replies: &'a Vec<Reply>, at: usize, action: Action) -> (run: Result<
    (&'a String, usize),
    Stop,
>)
    ensures
        match (run, must_give_text(replies@, at as int, action@)) {
            (Ok((text, next)), Ok((given, then))) => text@ == given && next == then,
            (Err(stop), Err(stopped)) => stop@ == stopped,
            _ => false,
        },
{
    if at >= replies.len() {
        return Err(Stop::Await(action));
    }
    match &replies[at] {
        Reply::Text(text) => Ok((text, at + 1)),
        _ => Err(Stop::Misfit),
    }
}

/// Whether two objects are the same one.
pub open spec fn same_object(left: FileStat, right: FileStat) -> bool {
    left.dev == right.dev && left.ino == right.ino
}

/// Whether two objects are the same one.
pub fn is_same_object(left: &FileStat, right: &FileStat) -> (same: bool)
    ensures
        same == same_object(*left, *right),
{
    left.dev == right.dev && left.ino == right.ino
}

} // verus!
