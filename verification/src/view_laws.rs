//! What a host sees is what contracts speak of.

use crate::protocol::{paths, HostReply, HostRequest, HostTurn, Reply, Request, Turn};
use crate::text::{optional_text, texts};
use vstd::prelude::*;

verus! {

/// A request asks for what its fields hold, each as it is.
pub proof fn requests_are_seen_whole(request: HostRequest)
    ensures
        request@ == (match request {
                Request::PrintLine { text } => Request::PrintLine { text: text@ },
                Request::ErrorLine { text } => Request::ErrorLine { text: text@ },
                Request::ParseArgs { command, args } => Request::ParseArgs {
                    command: texts(command@),
                    args: texts(args@),
                },
                Request::OpenFile { path } => Request::OpenFile { path: path@ },
                Request::WriteFile { text } => Request::WriteFile { text: text@ },
                Request::ReadFile => Request::ReadFile,
                Request::CloseFile => Request::CloseFile,
                Request::FilesystemType { path } => Request::FilesystemType { path: path@ },
                Request::Mount { source, target, fstype, flags, data } => Request::Mount {
                    source: optional_text(source),
                    target: target@,
                    fstype: optional_text(fstype),
                    flags,
                    data: optional_text(data),
                },
                Request::Unmount { target, flags } => Request::Unmount { target: target@, flags },
                Request::CreateDirAll { path } => Request::CreateDirAll { path: path@ },
                Request::CreateDir { path } => Request::CreateDir { path: path@ },
                Request::RemoveDirAll { path } => Request::RemoveDirAll { path: path@ },
                Request::ReadDir { path } => Request::ReadDir { path: path@ },
                Request::Metadata { path } => Request::Metadata { path: path@ },
                Request::ReadLink { path } => Request::ReadLink { path: path@ },
                Request::Exists { path } => Request::Exists { path: path@ },
                Request::Symlink { target, link } => Request::Symlink { target: target@, link: link@ },
                Request::HardLink { original, link } => Request::HardLink {
                    original: original@,
                    link: link@,
                },
                Request::CreateFile { path } => Request::CreateFile { path: path@ },
                Request::CopyFile { from, to } => Request::CopyFile { from: from@, to: to@ },
                Request::SetMode { path, mode } => Request::SetMode { path: path@, mode },
                Request::SetSecontext { path, context } => Request::SetSecontext {
                    path: path@,
                    context: context@,
                },
                Request::ChangeDir { path } => Request::ChangeDir { path: path@ },
                Request::Connect { code, create } => Request::Connect { code, create },
                Request::SendFlag { flag } => Request::SendFlag { flag },
                Request::SendText { text } => Request::SendText { text: text@ },
                Request::ReceiveText => Request::ReceiveText,
                Request::ReceiveNumber => Request::ReceiveNumber,
                Request::Poll { events, timeout } => Request::Poll { events, timeout },
                Request::MagiskTmp => Request::MagiskTmp,
                Request::InstallModule { zip } => Request::InstallModule { zip: zip@ },
                Request::UnlockBlocks => Request::UnlockBlocks,
                Request::RestoreCon => Request::RestoreCon,
                Request::CloneAttr { from, to } => Request::CloneAttr { from: from@, to: to@ },
                Request::CloneFile { from, to } => Request::CloneFile { from: from@, to: to@ },
                Request::DenyList { args } => Request::DenyList { args: texts(args@) },
                Request::PreinitDevice => Request::PreinitDevice,
        }),
{
}

/// A reply tells what its fields hold, each as it is.
pub proof fn replies_are_seen_whole(reply: HostReply)
    ensures
        reply@ == (match reply {
                Reply::Done => Reply::Done,
                Reply::Failed { error } => Reply::Failed { error: error@ },
                Reply::Text { text } => Reply::Text { text: text@ },
                Reply::Number { number } => Reply::Number { number },
                Reply::Exists { exists } => Reply::Exists { exists },
                Reply::FsType { fs_type } => Reply::FsType { fs_type },
                Reply::Entries { names } => Reply::Entries { names: paths(names@) },
                Reply::Metadata { kind, mode } => Reply::Metadata { kind, mode },
                Reply::Link { target } => Reply::Link { target: target@ },
                Reply::Parsed { action } => Reply::Parsed { action },
                Reply::Help => Reply::Help,
        }),
{
}

/// A turn hands out its request, or ends the run with its code.
pub proof fn turns_are_seen_whole(turn: HostTurn)
    ensures
        turn@ == (match turn {
                Turn::Perform { request } => Turn::Perform { request: request@ },
                Turn::Finished { finish } => Turn::Finished { finish },
        }),
{
}

} // verus!
