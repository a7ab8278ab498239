//! What each command does.

use crate::action::{Config, MagiskAction, RequestCode};
use crate::applet::{install_applet, installing_applets};
use crate::mount::{mount_sbin, mounting_tmpfs, probing_root, tmpfs_mount};
use crate::path::{text_path, to_path};
use crate::protocol::{
    ignore, ignoring, received_text, reply_text, require, requiring, return_code, returning, steps,
    HostReply, HostStep, Reply, ReplyView, Request, Step, StepView, Then,
};
use crate::sys::{poll_in, poll_timeout};
use crate::text::{decimal, join3, same_text, texts, write_decimal};
use vstd::prelude::*;
use vstd::string::StringExecFns;

verus! {

/// The event that there is data to read.
pub const DATA_TO_READ: i16 = 0x1;

/// The permission bits of an installed binary.
pub const BINARY_MODE: u32 = 0o755;

/// Prints `text` as a line on standard output.
pub open spec fn printing(text: Seq<char>) -> StepView {
    ignoring(Request::PrintLine { text })
}

fn print_line(text: String) -> (step: HostStep)
    ensures
        step@ == printing(text@),
{
    ignore(Request::PrintLine { text })
}

/// Connects to the daemon, without which the command fails.
pub open spec fn connecting(code: RequestCode, create: bool) -> StepView {
    requiring(Request::Connect { code, create })
}

fn connect_daemon(code: RequestCode, create: bool) -> (step: HostStep)
    ensures
        step@ == connecting(code, create),
{
    require(Request::Connect { code, create })
}

/// Returns the number that the daemon sends.
pub open spec fn returning_number() -> StepView {
    Step::Perform { request: Request::ReceiveNumber, then: Then::ReturnNumber }
}

fn return_number() -> (step: HostStep)
    ensures
        step@ == returning_number(),
{
    Step::Perform { request: Request::ReceiveNumber, then: Then::ReturnNumber }
}

/// Shows the rows that the daemon sends.
pub open spec fn showing_rows() -> StepView {
    Step::Perform { request: Request::ReceiveText, then: Then::ShowRow }
}

fn show_rows() -> (step: HostStep)
    ensures
        step@ == showing_rows(),
{
    Step::Perform { request: Request::ReceiveText, then: Then::ShowRow }
}

/// The line that tells the version of this binary.
pub open spec fn local_version(config: Config) -> Seq<char> {
    config.magisk_version@ + (if config.debug_assertions {
        ":MAGISK:D ("@
    } else {
        ":MAGISK:R ("@
    }) + decimal(config.magisk_ver_code as int) + ")"@
}

fn show_local_version(config: &Config) -> (text: String)
    ensures
        text@ == local_version(*config),
{
    let code: String = write_decimal(config.magisk_ver_code);
    let build: &str = if config.debug_assertions {
        ":MAGISK:D ("
    } else {
        ":MAGISK:R ("
    };
    join3(config.magisk_version.as_str(), build, code.as_str()).concat(")")
}

/// Connects to the daemon and waits for it to answer, but not for longer than
/// it is configured. A time that is no timeout fails the command.
pub open spec fn waiting_for_daemon(wait_time: int) -> Seq<StepView> {
    seq![
        connecting(RequestCode::POST_FS_DATA, true),
        if wait_time * 1000 >= -1 {
            requiring(
                Request::Poll { events: DATA_TO_READ, timeout: (wait_time * 1000) as i32 },
            )
        } else {
            returning(1)
        },
    ]
}

fn wait_for_daemon(config: &Config) -> (next: Vec<HostStep>)
    requires
        config.well_formed(),
    ensures
        steps(next@) == waiting_for_daemon(config.post_fs_data_wait_time as int),
{
    let mut next: Vec<HostStep> = Vec::new();
    next.push(connect_daemon(RequestCode::POST_FS_DATA, true));
    match poll_timeout(config.post_fs_data_wait_time * 1000) {
        Some(timeout) => {
            next.push(require(Request::Poll { events: poll_in(), timeout }));
        },
        None => {
            next.push(return_code(1));
        },
    }
    assert(steps(next@) =~= waiting_for_daemon(config.post_fs_data_wait_time as int));
    next
}

/// Copies the binary `name` from `bin_dir` to `dest` if it exists.
pub open spec fn copying_binary(bin_dir: Seq<char>, dest: Seq<char>, name: Seq<char>) -> StepView {
    let src = bin_dir + "/"@ + name;
    Step::Perform {
        request: Request::Exists { path: text_path(src) },
        then: Then::CopyBinary { src, dest: dest + "/"@ + name },
    }
}

fn copy_binary(bin_dir: &str, dest: &str, name: &str) -> (step: HostStep)
    ensures
        step@ == copying_binary(bin_dir@, dest@, name@),
{
    let src: String = join3(bin_dir, "/", name);
    Step::Perform {
        request: Request::Exists { path: to_path(src.as_str()) },
        then: Then::CopyBinary { src, dest: join3(dest, "/", name) },
    }
}

/// Copies and marks executable the binary `src`, where it exists.
pub open spec fn after_binary_probe(
    src: Seq<char>,
    dest: Seq<char>,
    reply: ReplyView,
) -> Seq<StepView> {
    if reply == (Reply::<Seq<char>, Seq<u8>, Seq<Seq<u8>>>::Exists { exists: true }) {
        seq![
            ignoring(Request::CopyFile { from: text_path(src), to: text_path(dest) }),
            ignoring(Request::SetMode { path: text_path(dest), mode: BINARY_MODE }),
        ]
    } else {
        Seq::empty()
    }
}

/// Goes on after the host told whether the binary `src` exists.
pub fn binary_probed(src: &str, dest: &str, reply: &HostReply) -> (next: Vec<HostStep>)
    ensures
        steps(next@) == after_binary_probe(src@, dest@, reply@),
{
    let there: bool = match reply {
        Reply::Exists { exists } => *exists,
        _ => false,
    };
    let mut next: Vec<HostStep> = Vec::new();
    if there {
        next.push(ignore(Request::CopyFile { from: to_path(src), to: to_path(dest) }));
        next.push(ignore(Request::SetMode { path: to_path(dest), mode: BINARY_MODE }));
    }
    assert(steps(next@) =~= after_binary_probe(src@, dest@, reply@));
    next
}

/// Mounts a tmpfs on `dest`.
pub open spec fn mounting(dest: Seq<char>) -> StepView {
    if dest == "/sbin"@ {
        probing_root()
    } else {
        mounting_tmpfs(dest, false)
    }
}

/// Mounts a tmpfs on `dest` and sets it up with what `bin_dir` holds.
pub open spec fn setting_up(config: Config, bin_dir: Seq<char>, dest: Seq<char>) -> Seq<StepView> {
    seq![
        mounting(dest),
        copying_binary(bin_dir, dest, "magisk"@),
        copying_binary(bin_dir, dest, "magisk32"@),
        copying_binary(bin_dir, dest, "magiskpolicy"@),
        copying_binary(bin_dir, dest, "stub.apk"@),
        Step::Perform {
            request: Request::ChangeDir { path: text_path(dest) },
            then: Then::DirChanged,
        },
        ignoring(Request::CreateDirAll { path: text_path(config.internal_dir@) }),
        ignoring(Request::CreateDir { path: text_path(config.device_dir@) }),
    ] + installing_applets(texts(config.applet_names@), dest)
}

/// Mounts a tmpfs on `dest` and sets it up with what `bin_dir` holds.
pub fn setup_sbin(config: &Config, bin_dir: &str, dest: &str) -> (next: Vec<HostStep>)
    ensures
        steps(next@) == setting_up(*config, bin_dir@, dest@),
{
    let mut next: Vec<HostStep> = Vec::new();
    if same_text(dest, "/sbin") {
        next.push(mount_sbin());
    } else {
        next.push(tmpfs_mount(dest, false));
    }
    next.push(copy_binary(bin_dir, dest, "magisk"));
    next.push(copy_binary(bin_dir, dest, "magisk32"));
    next.push(copy_binary(bin_dir, dest, "magiskpolicy"));
    next.push(copy_binary(bin_dir, dest, "stub.apk"));
    next.push(
        Step::Perform {
            request: Request::ChangeDir { path: to_path(dest) },
            then: Then::DirChanged,
        },
    );
    next.push(ignore(Request::CreateDirAll { path: to_path(config.internal_dir.as_str()) }));
    next.push(ignore(Request::CreateDir { path: to_path(config.device_dir.as_str()) }));
    let mut links: Vec<HostStep> = install_applet(config, dest);
    let ghost installed = steps(links@);
    let ghost before = next@;
    next.append(&mut links);
    assert(steps(next@) =~= steps(before) + installed);
    assert(steps(next@) =~= setting_up(*config, bin_dir@, dest@));
    next
}

/// The directory that is given, `/sbin` where none is.
pub open spec fn or_sbin(path: Option<String>) -> Seq<char> {
    match path {
        Some(path) => path@,
        None => "/sbin"@,
    }
}

fn given_or_sbin(path: Option<String>) -> (text: String)
    ensures
        text@ == or_sbin(path),
{
    match path {
        Some(path) => path,
        None => "/sbin".to_string(),
    }
}

fn list_applets(config: &Config) -> (next: Vec<HostStep>)
    ensures
        steps(next@) == Seq::new(
            config.applet_names@.len(),
            |i: int| printing(config.applet_names@[i]@),
        ),
{
    let mut next: Vec<HostStep> = Vec::new();
    let mut i: usize = 0;
    while i < config.applet_names.len()
        invariant
            i <= config.applet_names.len(),
            i == next.len(),
            forall|j: int|
                0 <= j < i ==> (#[trigger] next@[j])@ == printing(config.applet_names@[j]@),
        decreases config.applet_names.len() - i,
    {
        next.push(print_line(config.applet_names[i].clone()));
        i = i + 1;
    }
    next
}

/// What a command does. A command that runs to its end returns 0.
pub open spec fn commanded(config: Config, action: MagiskAction) -> Seq<StepView> {
    match action {
        MagiskAction::LocalVersion(_) => seq![printing(local_version(config))],
        MagiskAction::Version(_) => seq![
            connecting(RequestCode::CHECK_VERSION, false),
            Step::Perform { request: Request::ReceiveText, then: Then::ShowText },
        ],
        MagiskAction::VersionCode(_) => seq![
            connecting(RequestCode::CHECK_VERSION_CODE, false),
            Step::Perform { request: Request::ReceiveNumber, then: Then::ShowNumber },
        ],
        MagiskAction::List(_) => Seq::new(
            config.applet_names@.len(),
            |i: int| printing(config.applet_names@[i]@),
        ),
        MagiskAction::RemoveModules(command) => seq![
            connecting(RequestCode::REMOVE_MODULES, false),
            requiring(Request::SendFlag { flag: !command.no_reboot }),
            returning_number(),
        ],
        MagiskAction::InstallModule(command) => seq![
            ignoring(Request::InstallModule { zip: command.zip@ }),
        ],
        MagiskAction::Daemon(_) => seq![connecting(RequestCode::START_DAEMON, true)],
        MagiskAction::Stop(_) => seq![
            connecting(RequestCode::STOP_DAEMON, false),
            returning_number(),
        ],
        MagiskAction::PostFsData(_) => waiting_for_daemon(config.post_fs_data_wait_time as int),
        MagiskAction::Service(_) => seq![connecting(RequestCode::LATE_START, true)],
        MagiskAction::BootComplete(_) => seq![connecting(RequestCode::BOOT_COMPLETE, false)],
        MagiskAction::ZygoteRestart(_) => seq![connecting(RequestCode::ZYGOTE_RESTART, false)],
        MagiskAction::UnlockBlocks(_) => seq![ignoring(Request::UnlockBlocks)],
        MagiskAction::RestoreCon(_) => seq![ignoring(Request::RestoreCon)],
        MagiskAction::CloneAttr(command) => seq![
            requiring(Request::CloneAttr { from: command.from@, to: command.to@ }),
        ],
        MagiskAction::CloneFile(command) => seq![
            requiring(Request::CloneFile { from: command.from@, to: command.to@ }),
        ],
        MagiskAction::Sqlite(command) => seq![
            connecting(RequestCode::SQLITE_CMD, false),
            requiring(Request::SendText { text: command.sql@ }),
            showing_rows(),
        ],
        MagiskAction::Path(_) => seq![
            Step::Perform { request: Request::MagiskTmp, then: Then::ShowFound },
        ],
        MagiskAction::DenyList(command) => seq![
            Step::Perform {
                request: Request::DenyList { args: texts(command.args@) },
                then: Then::ReturnNumber,
            },
        ],
        MagiskAction::PreInitDevice(_) => seq![
            Step::Perform { request: Request::PreinitDevice, then: Then::ShowFound },
        ],
        MagiskAction::SetupSbin(command) => setting_up(
            config,
            command.bin_dir@,
            or_sbin(command.tmpfs_dest),
        ),
        MagiskAction::MountSbin(_) => seq![probing_root()],
        MagiskAction::Install(command) => installing_applets(
            texts(config.applet_names@),
            or_sbin(command.path),
        ),
    }
}

impl MagiskAction {
    /// What this command does.
    pub fn exec(self, config: &Config) -> (next: Vec<HostStep>)
        requires
            config.well_formed(),
        ensures
            steps(next@) == commanded(*config, self),
    {
        let mut next: Vec<HostStep> = Vec::new();
        match self {
            MagiskAction::LocalVersion(_) => {
                next.push(print_line(show_local_version(config)));
            },
            MagiskAction::Version(_) => {
                next.push(connect_daemon(RequestCode::CHECK_VERSION, false));
                next.push(Step::Perform { request: Request::ReceiveText, then: Then::ShowText });
            },
            MagiskAction::VersionCode(_) => {
                next.push(connect_daemon(RequestCode::CHECK_VERSION_CODE, false));
                next.push(
                    Step::Perform { request: Request::ReceiveNumber, then: Then::ShowNumber },
                );
            },
            MagiskAction::List(_) => {
                return list_applets(config);
            },
            MagiskAction::RemoveModules(command) => {
                let do_reboot: bool = !command.no_reboot;
                next.push(connect_daemon(RequestCode::REMOVE_MODULES, false));
                next.push(require(Request::SendFlag { flag: do_reboot }));
                next.push(return_number());
            },
            MagiskAction::InstallModule(command) => {
                next.push(ignore(Request::InstallModule { zip: command.zip }));
            },
            MagiskAction::Daemon(_) => {
                next.push(connect_daemon(RequestCode::START_DAEMON, true));
            },
            MagiskAction::Stop(_) => {
                next.push(connect_daemon(RequestCode::STOP_DAEMON, false));
                next.push(return_number());
            },
            MagiskAction::PostFsData(_) => {
                return wait_for_daemon(config);
            },
            MagiskAction::Service(_) => {
                next.push(connect_daemon(RequestCode::LATE_START, true));
            },
            MagiskAction::BootComplete(_) => {
                next.push(connect_daemon(RequestCode::BOOT_COMPLETE, false));
            },
            MagiskAction::ZygoteRestart(_) => {
                next.push(connect_daemon(RequestCode::ZYGOTE_RESTART, false));
            },
            MagiskAction::UnlockBlocks(_) => {
                next.push(ignore(Request::UnlockBlocks));
            },
            MagiskAction::RestoreCon(_) => {
                next.push(ignore(Request::RestoreCon));
            },
            MagiskAction::CloneAttr(command) => {
                next.push(require(Request::CloneAttr { from: command.from, to: command.to }));
            },
            MagiskAction::CloneFile(command) => {
                next.push(require(Request::CloneFile { from: command.from, to: command.to }));
            },
            MagiskAction::Sqlite(command) => {
                next.push(connect_daemon(RequestCode::SQLITE_CMD, false));
                next.push(require(Request::SendText { text: command.sql }));
                next.push(show_rows());
            },
            MagiskAction::Path(_) => {
                next.push(Step::Perform { request: Request::MagiskTmp, then: Then::ShowFound });
            },
            MagiskAction::DenyList(command) => {
                next.push(
                    Step::Perform {
                        request: Request::DenyList { args: command.args },
                        then: Then::ReturnNumber,
                    },
                );
            },
            MagiskAction::PreInitDevice(_) => {
                next.push(
                    Step::Perform { request: Request::PreinitDevice, then: Then::ShowFound },
                );
            },
            MagiskAction::SetupSbin(command) => {
                let magisk_tmp: String = given_or_sbin(command.tmpfs_dest);
                return setup_sbin(config, command.bin_dir.as_str(), magisk_tmp.as_str());
            },
            MagiskAction::MountSbin(_) => {
                next.push(mount_sbin());
            },
            MagiskAction::Install(command) => {
                let path: String = given_or_sbin(command.path);
                return install_applet(config, path.as_str());
            },
        }
        assert(steps(next@) =~= commanded(*config, self));
        next
    }
}

/// Gives up with code 1 unless the request was performed.
pub open spec fn after_required(reply: ReplyView) -> Seq<StepView> {
    if reply is Done {
        Seq::empty()
    } else {
        seq![returning(1)]
    }
}

/// Prints the text that came, gives up with code 1 if none did.
pub open spec fn after_text(reply: ReplyView) -> Seq<StepView> {
    match reply {
        Reply::Text { text } => seq![printing(text)],
        _ => seq![returning(1)],
    }
}

/// Prints the number that came, gives up with code 1 if none did.
pub open spec fn after_number(reply: ReplyView) -> Seq<StepView> {
    match reply {
        Reply::Number { number } => seq![printing(decimal(number as int))],
        _ => seq![returning(1)],
    }
}

/// Returns the number that came, or 1.
pub open spec fn after_code(reply: ReplyView) -> Seq<StepView> {
    match reply {
        Reply::Number { number } => seq![returning(number as int)],
        _ => seq![returning(1)],
    }
}

/// Prints a row and asks for the next; the empty row is the end.
pub open spec fn after_row(reply: ReplyView) -> Seq<StepView> {
    match reply {
        Reply::Text { text } => if text.len() == 0 {
            seq![returning(0)]
        } else {
            seq![printing(text), showing_rows()]
        },
        _ => seq![returning(1)],
    }
}

/// Prints the text that was found, returns 1 if there is none.
pub open spec fn after_search(reply: ReplyView) -> Seq<StepView> {
    if reply_text(reply).len() == 0 {
        seq![returning(1)]
    } else {
        seq![printing(reply_text(reply))]
    }
}

/// Gives up with code -1 unless the working directory was changed.
pub open spec fn after_dir_change(reply: ReplyView) -> Seq<StepView> {
    if reply is Done {
        Seq::empty()
    } else {
        seq![returning(-1)]
    }
}

/// Goes on after a request that must not fail.
pub fn required(reply: &HostReply) -> (next: Vec<HostStep>)
    ensures
        steps(next@) == after_required(reply@),
{
    let mut next: Vec<HostStep> = Vec::new();
    match reply {
        Reply::Done => {},
        _ => {
            next.push(return_code(1));
        },
    }
    assert(steps(next@) =~= after_required(reply@));
    next
}

/// Goes on after a text was to come.
pub fn show_text(reply: HostReply) -> (next: Vec<HostStep>)
    ensures
        steps(next@) == after_text(reply@),
{
    let mut next: Vec<HostStep> = Vec::new();
    match reply {
        Reply::Text { text } => {
            next.push(print_line(text));
        },
        _ => {
            next.push(return_code(1));
        },
    }
    assert(steps(next@) =~= after_text(reply@));
    next
}

/// Goes on after a number was to come that is to be shown.
pub fn show_number(reply: &HostReply) -> (next: Vec<HostStep>)
    ensures
        steps(next@) == after_number(reply@),
{
    let mut next: Vec<HostStep> = Vec::new();
    match reply {
        Reply::Number { number } => {
            next.push(print_line(write_decimal(*number)));
        },
        _ => {
            next.push(return_code(1));
        },
    }
    assert(steps(next@) =~= after_number(reply@));
    next
}

/// Goes on after a number was to come that is to be returned.
pub fn number_received(reply: &HostReply) -> (next: Vec<HostStep>)
    ensures
        steps(next@) == after_code(reply@),
{
    let mut next: Vec<HostStep> = Vec::new();
    match reply {
        Reply::Number { number } => {
            next.push(return_code(*number));
        },
        _ => {
            next.push(return_code(1));
        },
    }
    assert(steps(next@) =~= after_code(reply@));
    next
}

/// Goes on after a row was to come.
pub fn show_row(reply: HostReply) -> (next: Vec<HostStep>)
    ensures
        steps(next@) == after_row(reply@),
{
    let mut next: Vec<HostStep> = Vec::new();
    match reply {
        Reply::Text { text } => {
            if text.as_str().is_empty() {
                next.push(return_code(0));
            } else {
                next.push(print_line(text));
                next.push(show_rows());
            }
        },
        _ => {
            next.push(return_code(1));
        },
    }
    assert(steps(next@) =~= after_row(reply@));
    next
}

/// Goes on after something was looked for.
pub fn show_found(reply: HostReply) -> (next: Vec<HostStep>)
    ensures
        steps(next@) == after_search(reply@),
{
    let mut next: Vec<HostStep> = Vec::new();
    let text: String = received_text(reply);
    if text.as_str().is_empty() {
        next.push(return_code(1));
    } else {
        next.push(print_line(text));
    }
    assert(steps(next@) =~= after_search(reply@));
    next
}

/// Goes on after the working directory was to change.
pub fn dir_changed(reply: &HostReply) -> (next: Vec<HostStep>)
    ensures
        steps(next@) == after_dir_change(reply@),
{
    let mut next: Vec<HostStep> = Vec::new();
    match reply {
        Reply::Done => {},
        _ => {
            next.push(return_code(-1));
        },
    }
    assert(steps(next@) =~= after_dir_change(reply@));
    next
}

} // verus!
