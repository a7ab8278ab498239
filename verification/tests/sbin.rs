//! Mounting `/sbin` on a tmpfs, and setting a tmpfs up.

use magisk::action::{Config, MagiskAction, MountSbinCmd, SetupSbin};
use magisk::clone::{clone_entries, clone_entry};
use magisk::mount::is_rootfs;
use magisk::path::{join_path, to_path, to_text};
use magisk::protocol::{FileKind, Finish, HostReply, HostRequest, Reply, Request, Step, Then, Turn};
use magisk::recreate::{recreate_entries, recreate_entry};
use magisk::session::magisk_main;
use nix::mount::{MntFlags, MsFlags};

fn config() -> Config {
    Config {
        magisk_version: "28.1".to_string(),
        magisk_ver_code: 28100,
        debug_assertions: false,
        applet_names: vec!["su".to_string()],
        internal_dir: ".magisk".to_string(),
        device_dir: ".magisk/device".to_string(),
        post_fs_data_wait_time: 40,
        sepol_proc_domain: "magisk".to_string(),
    }
}

fn path(text: &str) -> Vec<u8> {
    text.as_bytes().to_vec()
}

fn failed() -> HostReply {
    Reply::Failed { error: "EPERM".to_string() }
}

fn complain(text: &str) -> HostRequest {
    Request::ErrorLine { text: text.to_string() }
}

fn probe_root() -> HostRequest {
    Request::FilesystemType { path: path("/") }
}

fn remount_root(flags: MsFlags) -> HostRequest {
    Request::Mount {
        source: None,
        target: "/".to_string(),
        fstype: None,
        flags: flags.bits(),
        data: None,
    }
}

fn tmpfs(dest: &str) -> HostRequest {
    Request::Mount {
        source: Some("magisk".to_string()),
        target: dest.to_string(),
        fstype: Some("tmpfs".to_string()),
        flags: MsFlags::empty().bits(),
        data: Some("mode=755".to_string()),
    }
}

fn bind(source: &str, target: &str) -> HostRequest {
    Request::Mount {
        source: Some(source.to_string()),
        target: target.to_string(),
        fstype: None,
        flags: MsFlags::MS_BIND.bits(),
        data: None,
    }
}

fn label_sbin() -> HostRequest {
    Request::SetSecontext { path: path("/sbin"), context: "u:object_r:rootfs:s0".to_string() }
}

fn create_dirs(text: &str) -> HostRequest {
    Request::CreateDirAll { path: path(text) }
}

fn symlink(target: &str, link: &str) -> HostRequest {
    Request::Symlink { target: path(target), link: path(link) }
}

fn metadata(text: &str) -> HostRequest {
    Request::Metadata { path: path(text) }
}

fn read_dir(text: &str) -> HostRequest {
    Request::ReadDir { path: path(text) }
}

fn probe(text: &str) -> HostRequest {
    Request::Exists { path: path(text) }
}

fn entries(names: &[&str]) -> HostReply {
    Reply::Entries { names: names.iter().map(|s| path(s)).collect() }
}

/// Runs a command on a host that is a function from request to reply.
fn run(
    action: MagiskAction,
    host: impl Fn(&HostRequest) -> HostReply,
) -> (Vec<HostRequest>, Finish) {
    let args = vec!["magisk".to_string(), "--command".to_string()];
    let (mut session, mut turn) = magisk_main(config(), args);
    assert!(matches!(turn, Turn::Perform { request: Request::ParseArgs { .. } }));
    turn = session.resume(Reply::Parsed { action });
    let mut requests = Vec::new();
    loop {
        match turn {
            Turn::Perform { request } => {
                turn = session.resume(host(&request));
                requests.push(request);
            }
            Turn::Finished { finish } => return (requests, finish),
        }
    }
}

fn mount_sbin() -> MagiskAction {
    MagiskAction::MountSbin(MountSbinCmd {})
}

/// A host whose root is a ramfs and whose `/sbin` holds a symlink, a directory
/// with a file in it, and a file. The tmpfs of the tool is nowhere yet.
fn ramfs_host(request: &HostRequest) -> HostReply {
    let file = |kind, mode| Reply::Metadata { kind, mode };
    match request {
        Request::FilesystemType { .. } => Reply::FsType { fs_type: 0x858458f6 },
        Request::ReadDir { path } => match std::str::from_utf8(path).unwrap() {
            "/sbin" | "/root" => entries(&["charger", "conf", "adbd"]),
            "/sbin/conf" => entries(&["rc"]),
            _ => failed(),
        },
        Request::Metadata { path } => match std::str::from_utf8(path).unwrap() {
            "/sbin/charger" | "/root/charger" => file(FileKind::Symlink, 0o777),
            "/sbin/conf" | "/root/conf" => file(FileKind::Directory, 0o750),
            _ => file(FileKind::Other, 0o700),
        },
        Request::ReadLink { .. } => Reply::Link { target: path("/init") },
        Request::MagiskTmp => Reply::Text { text: String::new() },
        Request::Exists { .. } => Reply::Exists { exists: true },
        _ => Reply::Done,
    }
}

#[test]
fn root_in_memory_is_cloned_and_read_only_again() {
    let (requests, finish) = run(mount_sbin(), ramfs_host);
    assert_eq!(
        requests,
        vec![
            probe_root(),
            remount_root(MsFlags::MS_REMOUNT),
            create_dirs("/sbin"),
            Request::RemoveDirAll { path: path("/root") },
            create_dirs("/root"),
            read_dir("/sbin"),
            metadata("/sbin/charger"),
            Request::ReadLink { path: path("/sbin/charger") },
            symlink("/init", "/root/charger"),
            metadata("/sbin/conf"),
            create_dirs("/root/conf"),
            Request::SetMode { path: path("/root/conf"), mode: 0o750 },
            read_dir("/sbin/conf"),
            metadata("/sbin/conf/rc"),
            Request::HardLink { original: path("/sbin/conf/rc"), link: path("/root/conf/rc") },
            metadata("/sbin/adbd"),
            Request::HardLink { original: path("/sbin/adbd"), link: path("/root/adbd") },
            tmpfs("/sbin"),
            complain("tmpfs mount: /sbin"),
            label_sbin(),
            Request::MagiskTmp,
            read_dir("/root"),
            probe("/sbin/charger"),
            metadata("/root/charger"),
            Request::ReadLink { path: path("/root/charger") },
            symlink("/init", "/sbin/charger"),
            probe("/sbin/conf"),
            metadata("/root/conf"),
            symlink("/root/conf", "/sbin/conf"),
            probe("/sbin/adbd"),
            metadata("/root/adbd"),
            symlink("/root/adbd", "/sbin/adbd"),
            remount_root(MsFlags::MS_REMOUNT | MsFlags::MS_RDONLY),
        ]
    );
    assert_eq!(finish, Finish::Return { code: 0 });
}

#[test]
fn cloning_changes_only_what_is_inside_its_destination() {
    let (requests, _) = run(mount_sbin(), ramfs_host);
    for request in &requests[5..17] {
        match request {
            Request::ReadDir { .. } | Request::Metadata { .. } | Request::ReadLink { .. } => {}
            Request::CreateDirAll { path }
            | Request::SetMode { path, .. }
            | Request::Symlink { link: path, .. }
            | Request::HardLink { link: path, .. } => assert!(path.starts_with(b"/root/")),
            _ => panic!("{request:?}"),
        }
    }
}

#[test]
fn root_is_made_read_only_once_and_last() {
    let read_only = remount_root(MsFlags::MS_REMOUNT | MsFlags::MS_RDONLY);
    for tmpfs_fails in [false, true] {
        let (requests, _) = run(mount_sbin(), |request| match request {
            Request::Mount { fstype: Some(_), .. } if tmpfs_fails => failed(),
            _ => ramfs_host(request),
        });
        let mounts: Vec<&HostRequest> = requests
            .iter()
            .filter(|r| matches!(r, Request::Mount { .. } | Request::Unmount { .. }))
            .collect();
        assert_eq!(mounts.last(), Some(&&read_only));
        assert_eq!(mounts.iter().filter(|r| ***r == read_only).count(), 1);
    }
}

#[test]
fn root_that_cannot_be_written_ends_the_run() {
    let (requests, finish) = run(mount_sbin(), |request| match request {
        Request::Mount { .. } => failed(),
        _ => ramfs_host(request),
    });
    assert_eq!(
        requests,
        vec![
            probe_root(),
            remount_root(MsFlags::MS_REMOUNT),
            complain("remount / rw failed: EPERM"),
        ]
    );
    assert_eq!(finish, Finish::Return { code: -1 });
}

#[test]
fn root_is_read_only_again_after_a_failure() {
    let (requests, finish) = run(mount_sbin(), |request| match request {
        Request::Mount { fstype: Some(_), .. } => failed(),
        _ => ramfs_host(request),
    });
    assert_eq!(
        requests[requests.len() - 3..],
        [
            tmpfs("/sbin"),
            complain("tmpfs mount failed /sbin: EPERM"),
            remount_root(MsFlags::MS_REMOUNT | MsFlags::MS_RDONLY),
        ]
    );
    assert_eq!(finish, Finish::Return { code: -1 });
}

/// A host whose root is on a disk and where the tmpfs of the tool has `magisk`.
fn disk_host(request: &HostRequest) -> HostReply {
    match request {
        Request::FilesystemType { .. } => Reply::FsType { fs_type: 0xef53 },
        Request::MagiskTmp => Reply::Text { text: "/tmp".to_string() },
        Request::ReadDir { .. } => entries(&["magisk", "charger", "conf", "adbd", "gone"]),
        Request::Exists { path: p } => Reply::Exists { exists: *p == path("/tmp/magisk") },
        Request::Metadata { path } => match std::str::from_utf8(path).unwrap() {
            p if p.ends_with("charger") => Reply::Metadata { kind: FileKind::Symlink, mode: 0 },
            p if p.ends_with("conf") => Reply::Metadata { kind: FileKind::Directory, mode: 0o750 },
            p if p.ends_with("adbd") => Reply::Metadata { kind: FileKind::Other, mode: 0o700 },
            _ => failed(),
        },
        Request::ReadLink { .. } => Reply::Link { target: path("/init") },
        _ => Reply::Done,
    }
}

#[test]
fn root_on_disk_is_mirrored() {
    let sysroot = "/sbin/.magisk/mirror/system_root";
    let mirror = |name: &str| format!("{sysroot}/sbin/{name}");
    let (requests, finish) = run(mount_sbin(), disk_host);
    assert_eq!(
        requests,
        vec![
            probe_root(),
            tmpfs("/sbin"),
            complain("tmpfs mount: /sbin"),
            label_sbin(),
            create_dirs("/sbin/.magisk"),
            create_dirs(sysroot),
            bind("/", sysroot),
            Request::MagiskTmp,
            read_dir("/sbin/.magisk/mirror/system_root/sbin"),
            probe("/tmp/magisk"),
            probe("/tmp/charger"),
            metadata(&mirror("charger")),
            Request::ReadLink { path: path(&mirror("charger")) },
            symlink("/init", "/sbin/charger"),
            probe("/tmp/conf"),
            metadata(&mirror("conf")),
            create_dirs("/sbin/conf"),
            Request::SetMode { path: path("/sbin/conf"), mode: 0o750 },
            bind(&mirror("conf"), "/sbin/conf"),
            probe("/tmp/adbd"),
            metadata(&mirror("adbd")),
            Request::CreateFile { path: path("/sbin/adbd") },
            Request::SetMode { path: path("/sbin/adbd"), mode: 0o700 },
            bind(&mirror("adbd"), "/sbin/adbd"),
            probe("/tmp/gone"),
            metadata(&mirror("gone")),
            Request::Unmount {
                target: sysroot.to_string(),
                flags: MntFlags::MNT_DETACH.bits(),
            },
        ]
    );
    assert_eq!(finish, Finish::Return { code: 0 });
}

#[test]
fn root_on_disk_is_left_alone_after_a_failure() {
    let (requests, finish) = run(mount_sbin(), |request| match request {
        Request::Mount { .. } => failed(),
        _ => disk_host(request),
    });
    assert_eq!(
        requests,
        vec![probe_root(), tmpfs("/sbin"), complain("tmpfs mount failed /sbin: EPERM")]
    );
    assert_eq!(finish, Finish::Return { code: -1 });
}

#[test]
fn directories_that_cannot_be_listed_are_passed_over() {
    let (requests, finish) = run(mount_sbin(), |request| match request {
        Request::ReadDir { .. } => failed(),
        _ => ramfs_host(request),
    });
    assert_eq!(
        requests[5..],
        [
            read_dir("/sbin"),
            tmpfs("/sbin"),
            complain("tmpfs mount: /sbin"),
            label_sbin(),
            Request::MagiskTmp,
            read_dir("/root"),
            remount_root(MsFlags::MS_REMOUNT | MsFlags::MS_RDONLY),
        ]
    );
    assert_eq!(finish, Finish::Return { code: 0 });
}

#[test]
fn bind_mounts_may_fail() {
    let (requests, finish) = run(mount_sbin(), |request| match request {
        Request::Mount { fstype: None, .. } => failed(),
        _ => disk_host(request),
    });
    let sysroot = "/sbin/.magisk/mirror/system_root".to_string();
    let detach = Request::Unmount { target: sysroot, flags: MntFlags::MNT_DETACH.bits() };
    assert_eq!(requests.last(), Some(&detach));
    assert_eq!(finish, Finish::Return { code: 0 });
}

#[test]
fn only_ramfs_and_tmpfs_are_in_memory() {
    assert!(is_rootfs(&Reply::FsType { fs_type: 0x858458f6 }));
    let tmpfs = nix::sys::statfs::TMPFS_MAGIC.0 as i64;
    assert!(is_rootfs(&Reply::FsType { fs_type: tmpfs }));
    assert!(!is_rootfs(&Reply::FsType { fs_type: 0xef53 }));
    assert!(!is_rootfs(&Reply::FsType { fs_type: 0x858458f6u32 as i32 as i64 }));
    assert!(!is_rootfs(&failed()));
}

fn setup(dest: Option<&str>) -> MagiskAction {
    MagiskAction::SetupSbin(SetupSbin {
        bin_dir: "/data/bin".to_string(),
        tmpfs_dest: dest.map(|s| s.to_string()),
    })
}

#[test]
fn tmpfs_is_set_up() {
    let (requests, finish) = run(setup(Some("/dev/x")), |request| match request {
        Request::Exists { path: p } => Reply::Exists { exists: *p == path("/data/bin/magisk") },
        _ => Reply::Done,
    });
    assert_eq!(
        requests,
        vec![
            tmpfs("/dev/x"),
            complain("tmpfs mount: /dev/x"),
            probe("/data/bin/magisk"),
            Request::CopyFile { from: path("/data/bin/magisk"), to: path("/dev/x/magisk") },
            Request::SetMode { path: path("/dev/x/magisk"), mode: 0o755 },
            probe("/data/bin/magisk32"),
            probe("/data/bin/magiskpolicy"),
            probe("/data/bin/stub.apk"),
            Request::ChangeDir { path: path("/dev/x") },
            create_dirs(".magisk"),
            Request::CreateDir { path: path(".magisk/device") },
            symlink("./magisk", "/dev/x/su"),
            symlink("./magiskpolicy", "/dev/x/supolicy"),
        ]
    );
    assert_eq!(finish, Finish::Return { code: 0 });
}

#[test]
fn tmpfs_setup_may_fail() {
    let (requests, finish) = run(setup(Some("/dev/x")), |_| failed());
    assert_eq!(requests, vec![tmpfs("/dev/x"), complain("tmpfs mount failed /dev/x: EPERM")]);
    assert_eq!(finish, Finish::Return { code: -1 });
    let (requests, finish) = run(setup(Some("/dev/x")), |request| match request {
        Request::ChangeDir { .. } => failed(),
        _ => Reply::Done,
    });
    assert_eq!(requests.last(), Some(&Request::ChangeDir { path: path("/dev/x") }));
    assert_eq!(finish, Finish::Return { code: -1 });
}

#[test]
fn tmpfs_setup_defaults_to_sbin() {
    let (given, _) = run(setup(Some("/sbin")), ramfs_host);
    let (default, finish) = run(setup(None), ramfs_host);
    assert_eq!(given, default);
    assert_eq!(default[0], probe_root());
    assert_eq!(default.last(), Some(&symlink("./magiskpolicy", "/sbin/supolicy")));
    assert_eq!(finish, Finish::Return { code: 0 });
}

#[test]
fn paths_are_joined() {
    let join = |base: &str, name: &str| to_text(&join_path(&to_path(base), &to_path(name)));
    assert_eq!(join("/sbin", "su"), "/sbin/su");
    assert_eq!(join("/", "su"), "/su");
    assert_eq!(join("", "su"), "su");
    assert_eq!(join("/sbin", "/su"), "/su");
    assert_eq!(join("/sbin", ""), "/sbin/");
    for (base, name) in [("/sbin", "su"), ("/", "su"), ("", "su"), ("/a", "/b"), ("/a", "")] {
        let joined = std::path::Path::new(base).join(name);
        assert_eq!(join(base, name), joined.to_str().unwrap());
    }
    assert_eq!(to_text(&vec![0x2f, 0xff]), "");
}

#[test]
fn directories_that_are_not_utf8_are_not_walked() {
    let src = vec![0x2f, 0x73, 0xff];
    let dest = vec![0x2f, 0x72, 0xff];
    let reply = Reply::Metadata { kind: FileKind::Directory, mode: 0o700 };
    let next = clone_entry(src, dest.clone(), &reply);
    assert_eq!(
        next,
        vec![
            Step::Perform {
                request: Request::CreateDirAll { path: dest.clone() },
                then: Then::Ignore,
            },
            Step::Perform {
                request: Request::SetMode { path: dest, mode: 0o700 },
                then: Then::Ignore,
            },
            Step::Perform {
                request: Request::ReadDir { path: vec![] },
                then: Then::CloneDir { src: String::new(), dest: String::new() },
            },
        ]
    );
}

#[test]
fn names_that_are_not_utf8_are_cloned() {
    let reply = Reply::Entries { names: vec![vec![0xff]] };
    let next = clone_entries("/sbin", "/root", &reply);
    let src = vec![0x2f, 0x73, 0x62, 0x69, 0x6e, 0x2f, 0xff];
    let dest = vec![0x2f, 0x72, 0x6f, 0x6f, 0x74, 0x2f, 0xff];
    assert_eq!(
        next,
        vec![Step::Perform {
            request: Request::Metadata { path: src.clone() },
            then: Then::CloneEntry { src, dest },
        }]
    );
    assert!(clone_entries("/sbin", "/root", &failed()).is_empty());
}

#[test]
fn names_that_are_not_utf8_are_brought_back_with_a_replacement() {
    let reply = Reply::Entries { names: vec![vec![0x61, 0xff], path("ö")] };
    let next = recreate_entries("/root", "/tmp", false, &reply);
    assert_eq!(
        next,
        vec![
            recreate_entry("/root", "/tmp", false, "a\u{fffd}"),
            recreate_entry("/root", "/tmp", false, "ö"),
        ]
    );
    assert_eq!(
        next[1],
        Step::Perform {
            request: Request::Exists { path: path("/tmp/ö") },
            then: Then::RecreateEntry {
                src: "/root/ö".to_string(),
                sbin: "/sbin/ö".to_string(),
                keep_existing: true,
                use_bind_mount: false,
            },
        }
    );
}
