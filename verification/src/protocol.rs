//! The conversation between a session and its host.
//!
//! A session never touches the system itself. It hands out one `Request` at a
//! time, the host performs it and hands back a `Reply`.
//!
//! The types are generic in how they hold text, paths (bytes, since a file name
//! need not be UTF-8) and lists: with `String` and `Vec` they run, with `Seq`
//! they are what contracts speak of.

use crate::action::{MagiskAction, RequestCode};
use crate::text::{optional_text, texts};
use vstd::prelude::*;

verus! {

/// Something that the host does for a session.
#[allow(inconsistent_fields)]
#[derive(Debug, PartialEq)]
pub enum Request<T, B, L> {
    /// Print a line on standard output.
    PrintLine { text: T },
    /// Print a line on standard error.
    ErrorLine { text: T },
    /// Parse a command line.
    ParseArgs { command: L, args: L },
    /// Open a file for reading and writing.
    OpenFile { path: B },
    /// Write a text, whole, to the open file.
    WriteFile { text: T },
    /// Read the rest of the open file.
    ReadFile,
    /// Close the open file.
    CloseFile,
    /// Tell the type of the file system at a path.
    FilesystemType { path: B },
    /// Mount a file system.
    Mount { source: Option<T>, target: T, fstype: Option<T>, flags: u64, data: Option<T> },
    /// Unmount a file system.
    Unmount { target: T, flags: i32 },
    /// Create a directory and its parents.
    CreateDirAll { path: B },
    /// Create a directory.
    CreateDir { path: B },
    /// Remove a directory and what it holds.
    RemoveDirAll { path: B },
    /// List the names in a directory.
    ReadDir { path: B },
    /// Tell what a path is, without following a symlink.
    Metadata { path: B },
    /// Tell where a symlink points.
    ReadLink { path: B },
    /// Tell whether a path exists.
    Exists { path: B },
    /// Create the symlink `link`, which points to `target`.
    Symlink { target: B, link: B },
    /// Create the hard link `link` to `original`.
    HardLink { original: B, link: B },
    /// Create a file, or empty it.
    CreateFile { path: B },
    /// Copy a file.
    CopyFile { from: B, to: B },
    /// Set the permission bits of a file.
    SetMode { path: B, mode: u32 },
    /// Set the SELinux context of a file, following symlinks.
    SetSecontext { path: B, context: T },
    /// Change the working directory.
    ChangeDir { path: B },
    /// Connect to the daemon, starting it if `create` says so.
    Connect { code: RequestCode, create: bool },
    /// Send a flag to the daemon.
    SendFlag { flag: bool },
    /// Send a text to the daemon.
    SendText { text: T },
    /// Receive a text from the daemon.
    ReceiveText,
    /// Receive a number from the daemon.
    ReceiveNumber,
    /// Wait for events on the connection to the daemon.
    Poll { events: i16, timeout: i32 },
    /// Tell where the tmpfs of the tool is mounted, empty if nowhere.
    MagiskTmp,
    /// Install a module from a zip file.
    InstallModule { zip: T },
    /// Make all block devices writable.
    UnlockBlocks,
    /// Restore the SELinux context of the tool's files.
    RestoreCon,
    /// Copy permission, owner and SELinux context.
    CloneAttr { from: T, to: T },
    /// Copy a file with its attributes.
    CloneFile { from: T, to: T },
    /// Run the denylist command line.
    DenyList { args: L },
    /// Find a device for preinit files, empty if there is none.
    PreinitDevice,
}

/// What a path is.
#[derive(Debug, Clone, Copy, PartialEq, Eq, Structural)]
pub enum FileKind {
    Symlink,
    Directory,
    Other,
}

/// What the host answers to a request.
#[derive(Debug, PartialEq)]
pub enum Reply<T, B, E> {
    /// The request was performed.
    Done,
    /// The request failed; `error` says why.
    Failed { error: T },
    /// A text.
    Text { text: T },
    /// A number.
    Number { number: i32 },
    /// Whether a path exists.
    Exists { exists: bool },
    /// The magic number of a file system.
    FsType { fs_type: i64 },
    /// The names in a directory, in the order in which they are to be handled.
    Entries { names: E },
    /// What a path is, and its permission bits.
    Metadata { kind: FileKind, mode: u32 },
    /// Where a symlink points.
    Link { target: B },
    /// The command that a command line stands for.
    Parsed { action: MagiskAction },
    /// A command line that asks for help.
    Help,
}

/// What a session does with the reply to a request.
#[allow(inconsistent_fields)]
#[derive(Debug, PartialEq)]
pub enum Then<T, B> {
    /// Nothing: the outcome does not matter.
    Ignore,
    /// Give up with code 1 unless the request was performed.
    Required,
    /// Run the parsed command.
    Parsed,
    /// The file of the process's own SELinux context was opened.
    ContextOpened,
    /// A context was written to it; `last` if no other is to be tried.
    ContextWritten { last: bool },
    /// The context was read back.
    ContextRead,
    /// Print the text that came, give up with code 1 if none did.
    ShowText,
    /// Print the number that came, give up with code 1 if none did.
    ShowNumber,
    /// Return the number that came, or 1.
    ReturnNumber,
    /// Print a line of a query's result, up to the empty one.
    ShowRow,
    /// Print the text that came, return 1 if it is empty.
    ShowFound,
    /// The type of the root file system came.
    RootProbed,
    /// The root file system was to become writable.
    RootRemounted,
    /// A tmpfs was to be mounted on `dest`; `restore_root` if the root file
    /// system is to be read-only again should that fail.
    TmpfsMounted { dest: T, restore_root: bool },
    /// Clone the listed entries of `src` into `dest`.
    CloneDir { src: T, dest: T },
    /// Clone `src` to `dest`, by what it is.
    CloneEntry { src: B, dest: B },
    /// Create a symlink `dest` like the one that was read.
    CloneLink { dest: B },
    /// List `mirror`, knowing where the tmpfs is.
    RecreateSbin { mirror: T, use_bind_mount: bool },
    /// Bring the listed entries of `mirror` back to `/sbin`.
    RecreateDir { mirror: T, magisk_tmp: T, use_bind_mount: bool },
    /// Bring `src` back as `sbin`, unless it is there and `keep_existing`.
    RecreateEntry { src: T, sbin: T, keep_existing: bool, use_bind_mount: bool },
    /// Bring `src` back as `sbin`, by what it is.
    RecreateFile { src: T, sbin: T, use_bind_mount: bool },
    /// Create a symlink `sbin` like the one that was read.
    RecreateLink { sbin: T },
    /// Copy the binary `src` to `dest` if it exists.
    CopyBinary { src: T, dest: T },
    /// Give up with code -1 unless the working directory was changed.
    DirChanged,
}

/// How a session ends.
#[derive(Debug, Clone, Copy, PartialEq, Eq, Structural)]
pub enum Finish {
    /// The process exits at once.
    Exit { code: i32 },
    /// The tool returns to its caller.
    Return { code: i32 },
}

/// One step of what a session is about to do.
#[derive(Debug, PartialEq)]
pub enum Step<T, B, L> {
    /// Hand out a request and go by its reply.
    Perform { request: Request<T, B, L>, then: Then<T, B> },
    /// End the session, whatever else was to come.
    Stop { finish: Finish },
}

/// What a session asks of its host next.
#[derive(Debug, PartialEq)]
pub enum Turn<T, B, L> {
    /// Perform the request and resume the session with the reply.
    Perform { request: Request<T, B, L> },
    /// The session has ended.
    Finished { finish: Finish },
}

pub type HostRequest = Request<String, Vec<u8>, Vec<String>>;

pub type RequestView = Request<Seq<char>, Seq<u8>, Seq<Seq<char>>>;

pub type HostReply = Reply<String, Vec<u8>, Vec<Vec<u8>>>;

pub type ReplyView = Reply<Seq<char>, Seq<u8>, Seq<Seq<u8>>>;

pub type HostThen = Then<String, Vec<u8>>;

pub type ThenView = Then<Seq<char>, Seq<u8>>;

pub type HostStep = Step<String, Vec<u8>, Vec<String>>;

pub type StepView = Step<Seq<char>, Seq<u8>, Seq<Seq<char>>>;

pub type HostTurn = Turn<String, Vec<u8>, Vec<String>>;

pub type TurnView = Turn<Seq<char>, Seq<u8>, Seq<Seq<char>>>;

/// The bytes of each path of a list.
pub open spec fn paths(list: Seq<Vec<u8>>) -> Seq<Seq<u8>> {
    Seq::new(list.len(), |i: int| list[i]@)
}

/// The steps of a list, as contracts speak of them.
pub open spec fn steps(list: Seq<HostStep>) -> Seq<StepView> {
    Seq::new(list.len(), |i: int| list[i]@)
}

impl View for Request<String, Vec<u8>, Vec<String>> {
    type V = RequestView;

    open spec fn view(&self) -> RequestView {
        match *self {
            Request::PrintLine { text } => Request::PrintLine { text: text@ },
            Request::ErrorLine { text } => Request::ErrorLine { text: text@ },
            Request::ParseArgs { command, args } => Request::ParseArgs {
                command: texts(command@),
                args: texts(args@),
            },
            Request::OpenFile { path } => Request::OpenFile { path: path@ },
            Request::WriteFile { text } => Request::WriteFile { text: text@ },
            Request::ReadFile => Request::ReadFile,
            Request::CloseFile => Request::CloseFile,
            Request::FilesystemType { path } => Request::FilesystemType { path: path@ },
            Request::Mount { source, target, fstype, flags, data } => Request::Mount {
                source: optional_text(source),
                target: target@,
                fstype: optional_text(fstype),
                flags,
                data: optional_text(data),
            },
            Request::Unmount { target, flags } => Request::Unmount { target: target@, flags },
            Request::CreateDirAll { path } => Request::CreateDirAll { path: path@ },
            Request::CreateDir { path } => Request::CreateDir { path: path@ },
            Request::RemoveDirAll { path } => Request::RemoveDirAll { path: path@ },
            Request::ReadDir { path } => Request::ReadDir { path: path@ },
            Request::Metadata { path } => Request::Metadata { path: path@ },
            Request::ReadLink { path } => Request::ReadLink { path: path@ },
            Request::Exists { path } => Request::Exists { path: path@ },
            Request::Symlink { target, link } => Request::Symlink { target: target@, link: link@ },
            Request::HardLink { original, link } => Request::HardLink {
                original: original@,
                link: link@,
            },
            Request::CreateFile { path } => Request::CreateFile { path: path@ },
            Request::CopyFile { from, to } => Request::CopyFile { from: from@, to: to@ },
            Request::SetMode { path, mode } => Request::SetMode { path: path@, mode },
            Request::SetSecontext { path, context } => Request::SetSecontext {
                path: path@,
                context: context@,
            },
            Request::ChangeDir { path } => Request::ChangeDir { path: path@ },
            Request::Connect { code, create } => Request::Connect { code, create },
            Request::SendFlag { flag } => Request::SendFlag { flag },
            Request::SendText { text } => Request::SendText { text: text@ },
            Request::ReceiveText => Request::ReceiveText,
            Request::ReceiveNumber => Request::ReceiveNumber,
            Request::Poll { events, timeout } => Request::Poll { events, timeout },
            Request::MagiskTmp => Request::MagiskTmp,
            Request::InstallModule { zip } => Request::InstallModule { zip: zip@ },
            Request::UnlockBlocks => Request::UnlockBlocks,
            Request::RestoreCon => Request::RestoreCon,
            Request::CloneAttr { from, to } => Request::CloneAttr { from: from@, to: to@ },
            Request::CloneFile { from, to } => Request::CloneFile { from: from@, to: to@ },
            Request::DenyList { args } => Request::DenyList { args: texts(args@) },
            Request::PreinitDevice => Request::PreinitDevice,
        }
    }
}

impl View for Reply<String, Vec<u8>, Vec<Vec<u8>>> {
    type V = ReplyView;

    open spec fn view(&self) -> ReplyView {
        match *self {
            Reply::Done => Reply::Done,
            Reply::Failed { error } => Reply::Failed { error: error@ },
            Reply::Text { text } => Reply::Text { text: text@ },
            Reply::Number { number } => Reply::Number { number },
            Reply::Exists { exists } => Reply::Exists { exists },
            Reply::FsType { fs_type } => Reply::FsType { fs_type },
            Reply::Entries { names } => Reply::Entries { names: paths(names@) },
            Reply::Metadata { kind, mode } => Reply::Metadata { kind, mode },
            Reply::Link { target } => Reply::Link { target: target@ },
            Reply::Parsed { action } => Reply::Parsed { action },
            Reply::Help => Reply::Help,
        }
    }
}

impl View for Then<String, Vec<u8>> {
    type V = ThenView;

    open spec fn view(&self) -> ThenView {
        match *self {
            Then::Ignore => Then::Ignore,
            Then::Required => Then::Required,
            Then::Parsed => Then::Parsed,
            Then::ContextOpened => Then::ContextOpened,
            Then::ContextWritten { last } => Then::ContextWritten { last },
            Then::ContextRead => Then::ContextRead,
            Then::ShowText => Then::ShowText,
            Then::ShowNumber => Then::ShowNumber,
            Then::ReturnNumber => Then::ReturnNumber,
            Then::ShowRow => Then::ShowRow,
            Then::ShowFound => Then::ShowFound,
            Then::RootProbed => Then::RootProbed,
            Then::RootRemounted => Then::RootRemounted,
            Then::TmpfsMounted { dest, restore_root } => Then::TmpfsMounted {
                dest: dest@,
                restore_root,
            },
            Then::CloneDir { src, dest } => Then::CloneDir { src: src@, dest: dest@ },
            Then::CloneEntry { src, dest } => Then::CloneEntry { src: src@, dest: dest@ },
            Then::CloneLink { dest } => Then::CloneLink { dest: dest@ },
            Then::RecreateSbin { mirror, use_bind_mount } => Then::RecreateSbin {
                mirror: mirror@,
                use_bind_mount,
            },
            Then::RecreateDir { mirror, magisk_tmp, use_bind_mount } => Then::RecreateDir {
                mirror: mirror@,
                magisk_tmp: magisk_tmp@,
                use_bind_mount,
            },
            Then::RecreateEntry { src, sbin, keep_existing, use_bind_mount } => {
                Then::RecreateEntry { src: src@, sbin: sbin@, keep_existing, use_bind_mount }
            },
            Then::RecreateFile { src, sbin, use_bind_mount } => Then::RecreateFile {
                src: src@,
                sbin: sbin@,
                use_bind_mount,
            },
            Then::RecreateLink { sbin } => Then::RecreateLink { sbin: sbin@ },
            Then::CopyBinary { src, dest } => Then::CopyBinary { src: src@, dest: dest@ },
            Then::DirChanged => Then::DirChanged,
        }
    }
}

impl View for Step<String, Vec<u8>, Vec<String>> {
    type V = StepView;

    open spec fn view(&self) -> StepView {
        match *self {
            Step::Perform { request, then } => Step::Perform { request: request@, then: then@ },
            Step::Stop { finish } => Step::Stop { finish },
        }
    }
}

impl View for Turn<String, Vec<u8>, Vec<String>> {
    type V = TurnView;

    open spec fn view(&self) -> TurnView {
        match *self {
            Turn::Perform { request } => Turn::Perform { request: request@ },
            Turn::Finished { finish } => Turn::Finished { finish },
        }
    }
}

/// A request whose outcome does not matter.
pub open spec fn ignoring(request: RequestView) -> StepView {
    Step::Perform { request, then: Then::Ignore }
}

/// A request without which the tool gives up with code 1.
pub open spec fn requiring(request: RequestView) -> StepView {
    Step::Perform { request, then: Then::Required }
}

/// Ends the session by returning `code`.
pub open spec fn returning(code: int) -> StepView {
    Step::Stop { finish: Finish::Return { code: code as i32 } }
}

/// Ends the session by exiting with `code`.
pub open spec fn exiting(code: int) -> StepView {
    Step::Stop { finish: Finish::Exit { code: code as i32 } }
}

/// Why a request failed, empty where the host did not say.
pub open spec fn failure_text(reply: ReplyView) -> Seq<char> {
    match reply {
        Reply::Failed { error } => error,
        _ => Seq::empty(),
    }
}

/// The text of a reply, empty where it has none.
pub open spec fn reply_text(reply: ReplyView) -> Seq<char> {
    match reply {
        Reply::Text { text } => text,
        _ => Seq::empty(),
    }
}

pub(crate) fn ignore(request: HostRequest) -> (step: HostStep)
    ensures
        step@ == ignoring(request@),
{
    Step::Perform { request, then: Then::Ignore }
}

pub(crate) fn require(request: HostRequest) -> (step: HostStep)
    ensures
        step@ == requiring(request@),
{
    Step::Perform { request, then: Then::Required }
}

pub(crate) fn return_code(code: i32) -> (step: HostStep)
    ensures
        step@ == returning(code as int),
{
    Step::Stop { finish: Finish::Return { code } }
}

pub(crate) fn exit_code(code: i32) -> (step: HostStep)
    ensures
        step@ == exiting(code as int),
{
    Step::Stop { finish: Finish::Exit { code } }
}

pub(crate) fn error_text(reply: HostReply) -> (text: String)
    ensures
        text@ == failure_text(reply@),
{
    match reply {
        Reply::Failed { error } => error,
        _ => String::new(),
    }
}

pub(crate) fn received_text(reply: HostReply) -> (text: String)
    ensures
        text@ == reply_text(reply@),
{
    match reply {
        Reply::Text { text } => text,
        _ => String::new(),
    }
}

} // verus!
