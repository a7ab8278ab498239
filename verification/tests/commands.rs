//! Commands, from the command line to the code that they return.

use magisk::action::{
    BootComplete, CloneAttr, CloneFile, Config, DenyList, InstallApplet, InstallModule, ListApplets,
    LocalVersion, MagiskAction, PathCmd, PostFsData, PreInitDevice, RemoveModules, RequestCode,
    RestoreCon, ServiceCmd, Sqlite, StartDaemon, StopDaemon, UnlockBlocks, Version, VersionCode,
    ZygoteRestart,
};
use magisk::protocol::{Finish, HostReply, HostRequest, Reply, Request, Turn};
use magisk::session::magisk_main;
use magisk::text::{trim_trailing_nul, write_decimal};

fn config() -> Config {
    Config {
        magisk_version: "28.1".to_string(),
        magisk_ver_code: 28100,
        debug_assertions: false,
        applet_names: vec!["su".to_string(), "resetprop".to_string()],
        internal_dir: ".magisk".to_string(),
        device_dir: ".magisk/device".to_string(),
        post_fs_data_wait_time: 40,
        sepol_proc_domain: "magisk".to_string(),
    }
}

fn texts(list: &[&str]) -> Vec<String> {
    list.iter().map(|s| s.to_string()).collect()
}

fn text(text: &str) -> HostReply {
    Reply::Text { text: text.to_string() }
}

fn failed() -> HostReply {
    Reply::Failed { error: "error".to_string() }
}

fn print(text: &str) -> HostRequest {
    Request::PrintLine { text: text.to_string() }
}

fn complain(text: &str) -> HostRequest {
    Request::ErrorLine { text: text.to_string() }
}

/// Runs the tool; the replies must be just as many as the run needs.
fn run(config: Config, args: &[&str], replies: Vec<HostReply>) -> (Vec<HostRequest>, Finish) {
    let (mut session, mut turn) = magisk_main(config, texts(args));
    let mut requests = Vec::new();
    let mut replies = replies.into_iter();
    loop {
        match turn {
            Turn::Perform { request } => {
                requests.push(request);
                turn = session.resume(replies.next().expect("a reply is missing"));
            }
            Turn::Finished { finish } => {
                assert!(replies.next().is_none(), "a reply is left");
                return (requests, finish);
            }
        }
    }
}

/// Runs a command; the first request is to parse it.
fn command(action: MagiskAction, replies: Vec<HostReply>) -> (Vec<HostRequest>, Finish) {
    command_with(config(), action, replies)
}

fn command_with(
    config: Config,
    action: MagiskAction,
    replies: Vec<HostReply>,
) -> (Vec<HostRequest>, Finish) {
    let mut all = vec![Reply::Parsed { action }];
    all.extend(replies);
    let (mut requests, finish) = run(config, &["magisk", "--command"], all);
    assert!(matches!(requests.remove(0), Request::ParseArgs { .. }));
    (requests, finish)
}

fn returned(code: i32) -> Finish {
    Finish::Return { code }
}

fn connect(code: RequestCode, create: bool) -> HostRequest {
    Request::Connect { code, create }
}

const USAGE: &str = r#"Magisk - Multi-purpose Utility

Usage: magisk [applet [arguments]...]
   or: magisk [options]...

Options:
   -c                        print current binary version
   -v                        print running daemon version
   -V                        print running daemon version code
   --list                    list all available applets
   --remove-modules [-n]     remove all modules, reboot if -n is not provided
   --install-module ZIP      install a module zip file

Advanced Options (Internal APIs):
   --daemon                  manually start magisk daemon
   --stop                    remove all magisk changes and stop daemon
   --[init trigger]          callback on init triggers. Valid triggers:
                             post-fs-data, service, boot-complete, zygote-restart
   --unlock-blocks           set BLKROSET flag to OFF for all block devices
   --restorecon              restore selinux context on Magisk files
   --clone-attr SRC DEST     clone permission, owner, and selinux context
   --clone SRC DEST          clone SRC to DEST
   --sqlite SQL              exec SQL commands to Magisk database
   --path                    print Magisk tmpfs mount path
   --denylist ARGS           denylist config CLI
   --preinit-device          resolve a device to store preinit files

Available applets:
     su, resetprop
"#;

#[test]
fn no_command_prints_usage() {
    for args in [&[][..], &["magisk"][..]] {
        let (requests, finish) = run(config(), args, vec![Reply::Done]);
        assert_eq!(requests, vec![complain(USAGE)]);
        assert_eq!(finish, Finish::Exit { code: 1 });
    }
}

#[test]
fn usage_without_applets() {
    let mut config = config();
    config.applet_names = vec![];
    let (requests, _) = run(config, &["magisk"], vec![Reply::Done]);
    let usage = USAGE.replace("su, resetprop", "");
    assert_eq!(requests, vec![complain(&usage)]);
}

#[test]
fn arguments_are_parsed_after_two_dashes() {
    let (requests, finish) = run(
        config(),
        &["magisk", "--sqlite", "--help"],
        vec![Reply::Help, Reply::Done],
    );
    assert_eq!(
        requests,
        vec![
            Request::ParseArgs {
                command: texts(&["magisk"]),
                args: texts(&["--", "--sqlite", "--help"]),
            },
            complain(USAGE),
        ]
    );
    assert_eq!(finish, Finish::Exit { code: 0 });
}

#[test]
fn parse_errors_are_shown_before_usage() {
    let error = "Unrecognized argument: --none\n";
    let (requests, finish) = run(
        config(),
        &["magisk", "--none"],
        vec![Reply::Failed { error: error.to_string() }, Reply::Done, Reply::Done],
    );
    assert_eq!(requests[1..], [complain(error), complain(USAGE)]);
    assert_eq!(finish, Finish::Exit { code: 1 });
}

fn path(text: &str) -> Vec<u8> {
    text.as_bytes().to_vec()
}

fn open_context() -> HostRequest {
    Request::OpenFile { path: path("/proc/self/attr/current") }
}

fn write(text: &str) -> HostRequest {
    Request::WriteFile { text: text.to_string() }
}

#[test]
fn auto_selinux_enters_the_own_context() {
    let (requests, finish) = run(
        config(),
        &["magisk", "--auto-selinux", "-c"],
        vec![
            Reply::Done,
            Reply::Done,
            text("u:r:magisk:s0\0\0"),
            Reply::Done,
            Reply::Done,
            Reply::Parsed { action: MagiskAction::LocalVersion(LocalVersion {}) },
            Reply::Done,
        ],
    );
    assert_eq!(
        requests,
        vec![
            open_context(),
            write("u:r:magisk:s0\0"),
            Request::ReadFile,
            complain("SeLinux context: u:r:magisk:s0"),
            Request::CloseFile,
            Request::ParseArgs { command: texts(&["magisk"]), args: texts(&["--", "-c"]) },
            print("28.1:MAGISK:R (28100)"),
        ]
    );
    assert_eq!(finish, returned(0));
}

#[test]
fn auto_selinux_falls_back_to_su() {
    let (requests, finish) = run(
        config(),
        &["magisk", "--auto-selinux"],
        vec![
            Reply::Done,
            failed(),
            Reply::Done,
            text("u:r:su:s0"),
            Reply::Done,
            Reply::Done,
            Reply::Done,
        ],
    );
    assert_eq!(
        requests,
        vec![
            open_context(),
            write("u:r:magisk:s0\0"),
            write("u:r:su:s0\0"),
            Request::ReadFile,
            complain("SeLinux context: u:r:su:s0"),
            Request::CloseFile,
            complain(USAGE),
        ]
    );
    assert_eq!(finish, Finish::Exit { code: 1 });
}

#[test]
fn auto_selinux_may_fail() {
    let (requests, _) = run(
        config(),
        &["magisk", "--auto-selinux"],
        vec![Reply::Done, failed(), failed(), Reply::Done, Reply::Done],
    );
    assert_eq!(
        requests,
        vec![
            open_context(),
            write("u:r:magisk:s0\0"),
            write("u:r:su:s0\0"),
            Request::CloseFile,
            complain(USAGE),
        ]
    );
    let (requests, finish) = run(
        config(),
        &["magisk", "--auto-selinux", "--auto-selinux"],
        vec![failed(), Reply::Help, Reply::Done],
    );
    assert_eq!(
        requests[1],
        Request::ParseArgs {
            command: texts(&["magisk"]),
            args: texts(&["--", "--auto-selinux"]),
        }
    );
    assert_eq!(finish, Finish::Exit { code: 0 });
}

#[test]
fn local_version_tells_debug_builds() {
    let mut config = config();
    config.debug_assertions = true;
    config.magisk_ver_code = -7;
    let action = MagiskAction::LocalVersion(LocalVersion {});
    let (requests, finish) = command_with(config, action, vec![failed()]);
    assert_eq!(requests, vec![print("28.1:MAGISK:D (-7)")]);
    assert_eq!(finish, returned(0));
}

#[test]
fn daemon_version() {
    let (requests, finish) = command(
        MagiskAction::Version(Version {}),
        vec![Reply::Done, text("28.1:MAGISK:R"), Reply::Done],
    );
    assert_eq!(
        requests,
        vec![
            connect(RequestCode::CHECK_VERSION, false),
            Request::ReceiveText,
            print("28.1:MAGISK:R"),
        ]
    );
    assert_eq!(finish, returned(0));
    let (requests, finish) =
        command(MagiskAction::Version(Version {}), vec![Reply::Done, failed()]);
    assert_eq!(requests.len(), 2);
    assert_eq!(finish, returned(1));
}

#[test]
fn daemon_version_code() {
    let (requests, finish) = command(
        MagiskAction::VersionCode(VersionCode {}),
        vec![Reply::Done, Reply::Number { number: 28100 }, Reply::Done],
    );
    assert_eq!(
        requests,
        vec![
            connect(RequestCode::CHECK_VERSION_CODE, false),
            Request::ReceiveNumber,
            print("28100"),
        ]
    );
    assert_eq!(finish, returned(0));
    let (_, finish) =
        command(MagiskAction::VersionCode(VersionCode {}), vec![Reply::Done, failed()]);
    assert_eq!(finish, returned(1));
}

#[test]
fn unreachable_daemon_returns_one() {
    let actions = vec![
        MagiskAction::Version(Version {}),
        MagiskAction::VersionCode(VersionCode {}),
        MagiskAction::RemoveModules(RemoveModules { no_reboot: true }),
        MagiskAction::Daemon(StartDaemon {}),
        MagiskAction::Stop(StopDaemon {}),
        MagiskAction::PostFsData(PostFsData {}),
        MagiskAction::Service(ServiceCmd {}),
        MagiskAction::BootComplete(BootComplete {}),
        MagiskAction::ZygoteRestart(ZygoteRestart {}),
        MagiskAction::Sqlite(Sqlite { sql: "SELECT 1".to_string() }),
    ];
    for action in actions {
        let (requests, finish) = command(action, vec![failed()]);
        assert!(matches!(requests[..], [Request::Connect { .. }]));
        assert_eq!(finish, returned(1));
    }
}

#[test]
fn triggers_only_connect() {
    let cases = vec![
        (MagiskAction::Daemon(StartDaemon {}), RequestCode::START_DAEMON, true),
        (MagiskAction::Service(ServiceCmd {}), RequestCode::LATE_START, true),
        (MagiskAction::BootComplete(BootComplete {}), RequestCode::BOOT_COMPLETE, false),
        (MagiskAction::ZygoteRestart(ZygoteRestart {}), RequestCode::ZYGOTE_RESTART, false),
    ];
    for (action, code, create) in cases {
        let (requests, finish) = command(action, vec![Reply::Done]);
        assert_eq!(requests, vec![connect(code, create)]);
        assert_eq!(finish, returned(0));
    }
}

#[test]
fn applets_are_listed() {
    let (requests, finish) =
        command(MagiskAction::List(ListApplets {}), vec![Reply::Done, Reply::Done]);
    assert_eq!(requests, vec![print("su"), print("resetprop")]);
    assert_eq!(finish, returned(0));
}

#[test]
fn modules_are_removed_with_a_reboot_unless_told_otherwise() {
    for no_reboot in [false, true] {
        let (requests, finish) = command(
            MagiskAction::RemoveModules(RemoveModules { no_reboot }),
            vec![Reply::Done, Reply::Done, Reply::Number { number: 3 }],
        );
        assert_eq!(
            requests,
            vec![
                connect(RequestCode::REMOVE_MODULES, false),
                Request::SendFlag { flag: !no_reboot },
                Request::ReceiveNumber,
            ]
        );
        assert_eq!(finish, returned(3));
    }
    let (_, finish) = command(
        MagiskAction::RemoveModules(RemoveModules { no_reboot: false }),
        vec![Reply::Done, failed()],
    );
    assert_eq!(finish, returned(1));
}

#[test]
fn stop_returns_the_number_of_the_daemon() {
    let (requests, finish) = command(
        MagiskAction::Stop(StopDaemon {}),
        vec![Reply::Done, Reply::Number { number: -4 }],
    );
    assert_eq!(
        requests,
        vec![connect(RequestCode::STOP_DAEMON, false), Request::ReceiveNumber]
    );
    assert_eq!(finish, returned(-4));
    let (_, finish) = command(MagiskAction::Stop(StopDaemon {}), vec![Reply::Done, failed()]);
    assert_eq!(finish, returned(1));
}

#[test]
fn post_fs_data_waits_for_the_daemon() {
    let action = || MagiskAction::PostFsData(PostFsData {});
    let events = nix::poll::PollFlags::POLLIN.bits();
    let (requests, finish) = command(action(), vec![Reply::Done, Reply::Done]);
    assert_eq!(
        requests,
        vec![
            connect(RequestCode::POST_FS_DATA, true),
            Request::Poll { events, timeout: 40000 },
        ]
    );
    assert_eq!(finish, returned(0));
    let (_, finish) = command(action(), vec![Reply::Done, failed()]);
    assert_eq!(finish, returned(1));
}

#[test]
fn post_fs_data_refuses_a_negative_time() {
    let mut config = config();
    config.post_fs_data_wait_time = -1;
    let action = MagiskAction::PostFsData(PostFsData {});
    let (requests, finish) = command_with(config, action, vec![Reply::Done]);
    assert_eq!(requests, vec![connect(RequestCode::POST_FS_DATA, true)]);
    assert_eq!(finish, returned(1));
}

#[test]
fn services_without_a_result() {
    let cases = vec![
        (
            MagiskAction::InstallModule(InstallModule { zip: "/m.zip".to_string() }),
            Request::InstallModule { zip: "/m.zip".to_string() },
        ),
        (MagiskAction::UnlockBlocks(UnlockBlocks {}), Request::UnlockBlocks),
        (MagiskAction::RestoreCon(RestoreCon {}), Request::RestoreCon),
    ];
    for (action, request) in cases {
        let (requests, finish) = command(action, vec![failed()]);
        assert_eq!(requests, vec![request]);
        assert_eq!(finish, returned(0));
    }
}

#[test]
fn files_are_cloned() {
    let attr = || {
        MagiskAction::CloneAttr(CloneAttr { from: "/a".to_string(), to: "/b".to_string() })
    };
    let file = || {
        MagiskAction::CloneFile(CloneFile { from: "/a".to_string(), to: "/b".to_string() })
    };
    let (requests, finish) = command(attr(), vec![Reply::Done]);
    assert_eq!(
        requests,
        vec![Request::CloneAttr { from: "/a".to_string(), to: "/b".to_string() }]
    );
    assert_eq!(finish, returned(0));
    assert_eq!(command(attr(), vec![failed()]).1, returned(1));
    let (requests, finish) = command(file(), vec![Reply::Done]);
    assert_eq!(
        requests,
        vec![Request::CloneFile { from: "/a".to_string(), to: "/b".to_string() }]
    );
    assert_eq!(finish, returned(0));
    assert_eq!(command(file(), vec![failed()]).1, returned(1));
}

#[test]
fn rows_are_shown_up_to_the_empty_one() {
    let action = || MagiskAction::Sqlite(Sqlite { sql: "SELECT *".to_string() });
    let (requests, finish) = command(
        action(),
        vec![
            Reply::Done,
            Reply::Done,
            text("key=a"),
            Reply::Done,
            text("key=b"),
            failed(),
            text(""),
        ],
    );
    assert_eq!(
        requests,
        vec![
            connect(RequestCode::SQLITE_CMD, false),
            Request::SendText { text: "SELECT *".to_string() },
            Request::ReceiveText,
            print("key=a"),
            Request::ReceiveText,
            print("key=b"),
            Request::ReceiveText,
        ]
    );
    assert_eq!(finish, returned(0));
    let (_, finish) = command(action(), vec![Reply::Done, failed()]);
    assert_eq!(finish, returned(1));
    let (_, finish) = command(action(), vec![Reply::Done, Reply::Done, failed()]);
    assert_eq!(finish, returned(1));
}

#[test]
fn what_is_found_is_shown() {
    let cases = vec![
        (MagiskAction::Path(PathCmd {}), Request::MagiskTmp),
        (MagiskAction::PreInitDevice(PreInitDevice {}), Request::PreinitDevice),
    ];
    for (action, request) in cases {
        let (requests, finish) = command(action, vec![text("found"), Reply::Done]);
        assert_eq!(requests, vec![request, print("found")]);
        assert_eq!(finish, returned(0));
    }
    let (requests, finish) = command(MagiskAction::Path(PathCmd {}), vec![text("")]);
    assert_eq!(requests, vec![Request::MagiskTmp]);
    assert_eq!(finish, returned(1));
    let (_, finish) = command(MagiskAction::PreInitDevice(PreInitDevice {}), vec![text("")]);
    assert_eq!(finish, returned(1));
}

#[test]
fn denylist_returns_its_own_code() {
    let args = texts(&["add", "com.example", "--all"]);
    let (requests, finish) = command(
        MagiskAction::DenyList(DenyList { args: args.clone() }),
        vec![Reply::Number { number: 2 }],
    );
    assert_eq!(requests, vec![Request::DenyList { args }]);
    assert_eq!(finish, returned(2));
}

fn link(target: &str, link: &str) -> HostRequest {
    Request::Symlink { target: path(target), link: path(link) }
}

#[test]
fn applets_are_linked() {
    for (given, dir) in [(None, "/sbin"), (Some("/sbin"), "/sbin"), (Some("/x"), "/x")] {
        let given = given.map(|s: &str| s.to_string());
        let (requests, finish) = command(
            MagiskAction::Install(InstallApplet { path: given }),
            vec![Reply::Done, failed(), Reply::Done],
        );
        assert_eq!(
            requests,
            vec![
                link("./magisk", &format!("{dir}/su")),
                link("./magisk", &format!("{dir}/resetprop")),
                link("./magiskpolicy", &format!("{dir}/supolicy")),
            ]
        );
        assert_eq!(finish, returned(0));
    }
}

#[test]
fn installing_again_changes_nothing() {
    let mut links: Vec<(Vec<u8>, Vec<u8>)> = Vec::new();
    let mut states = Vec::new();
    for _ in 0..2 {
        let action = MagiskAction::Install(InstallApplet { path: None });
        let (mut session, _) = magisk_main(config(), texts(&["magisk", "--install"]));
        let mut turn = session.resume(Reply::Parsed { action });
        while let Turn::Perform { request } = turn {
            turn = match request {
                Request::Symlink { target, link } => {
                    if links.iter().any(|l| l.0 == link) {
                        session.resume(failed())
                    } else {
                        links.push((link, target));
                        session.resume(Reply::Done)
                    }
                }
                _ => panic!("{request:?}"),
            };
        }
        assert_eq!(turn, Turn::Finished { finish: returned(0) });
        states.push(links.clone());
    }
    assert_eq!(states[0].len(), 3);
    assert_eq!(states[0], states[1]);
}

#[test]
fn daemon_commands_connect_once_and_first() {
    let sql = "SELECT 1".to_string();
    let cases = vec![
        (MagiskAction::Sqlite(Sqlite { sql }), true),
        (MagiskAction::Stop(StopDaemon {}), true),
        (MagiskAction::List(ListApplets {}), false),
        (MagiskAction::Path(PathCmd {}), false),
    ];
    for (action, connects) in cases {
        let (mut session, _) = magisk_main(config(), texts(&["magisk", "--command"]));
        let mut turn = session.resume(Reply::Parsed { action });
        let mut first = true;
        while let Turn::Perform { request } = turn {
            let connecting = matches!(request, Request::Connect { .. });
            assert_eq!(connecting, first && connects);
            first = false;
            turn = session.resume(match request {
                Request::ReceiveNumber => Reply::Number { number: 0 },
                Request::ReceiveText | Request::MagiskTmp => text(""),
                _ => Reply::Done,
            });
        }
    }
}

#[test]
fn context_is_opened_only_when_asked_for() {
    for (args, opens) in [
        (&["magisk", "-c"][..], 0),
        (&["magisk", "-c", "--auto-selinux"][..], 0),
        (&["magisk", "--auto-selinux", "-c"][..], 1),
        (&["magisk", "--auto-selinux", "--auto-selinux"][..], 1),
    ] {
        let (mut session, mut turn) = magisk_main(config(), texts(args));
        let mut opened = 0;
        while let Turn::Perform { request } = turn {
            if matches!(request, Request::OpenFile { .. }) {
                opened += 1;
            }
            turn = session.resume(match request {
                Request::ParseArgs { .. } => Reply::Help,
                _ => Reply::Done,
            });
        }
        assert_eq!(opened, opens);
    }
}

#[test]
fn ended_runs_stay_ended() {
    let (mut session, mut turn) = magisk_main(config(), texts(&["magisk"]));
    assert!(matches!(turn, Turn::Perform { .. }));
    for _ in 0..3 {
        turn = session.resume(text("more"));
        assert_eq!(turn, Turn::Finished { finish: Finish::Exit { code: 1 } });
    }
}

#[test]
fn decimal_numbers() {
    assert_eq!(write_decimal(0), "0");
    assert_eq!(write_decimal(9), "9");
    assert_eq!(write_decimal(28103), "28103");
    assert_eq!(write_decimal(-1), "-1");
    assert_eq!(write_decimal(i32::MAX), "2147483647");
    assert_eq!(write_decimal(i32::MIN), "-2147483648");
}

#[test]
fn trailing_nuls_are_cut() {
    assert_eq!(trim_trailing_nul(""), "");
    assert_eq!(trim_trailing_nul("\0\0"), "");
    assert_eq!(trim_trailing_nul("a\0b\0"), "a\0b");
    assert_eq!(trim_trailing_nul("äö\0\0"), "äö");
}
