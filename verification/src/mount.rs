//! Mounting a tmpfs, and `/sbin` on one.

use crate::action::Config;
use crate::clone::{clone_dir, cloning};
use crate::path::{text_path, to_path};
use crate::protocol::{
    error_text, failure_text, ignore, ignoring, return_code, returning, steps, HostReply,
    HostRequest, HostStep, Reply, ReplyView, Request, RequestView, Step, StepView, Then,
};
use crate::recreate::{recreate_sbin, recreating, BIND};
use crate::sys::{
    as_fs_type, mnt_detach, ms_bind, ms_none, ms_rdonly, ms_remount, ms_union, tmpfs_magic,
};
use crate::text::{join2, join3};
use vstd::prelude::*;
use vstd::string::StringExecFns;

verus! {

/// The magic number of a ramfs.
pub const RAMFS_MAGIC: u32 = 0x858458f6;

/// The magic number of a tmpfs.
pub const TMPFS_MAGIC: i64 = 0x01021994;

/// The mount flags that make a file system writable again.
pub const REMOUNT: u64 = 0x20;

/// The mount flags that make a file system read-only again.
pub const REMOUNT_READ_ONLY: u64 = 0x21;

/// The unmount flags of a lazy unmount.
pub const DETACH: i32 = 0x2;

/// Whether the type of the root file system says that it lives in memory.
pub open spec fn root_in_memory(reply: ReplyView) -> bool {
    reply matches Reply::FsType { fs_type } && (fs_type == RAMFS_MAGIC || fs_type == TMPFS_MAGIC)
}

/// Whether the root file system, by what the host told of it, lives in memory.
/// A host that could not tell counts as no.
pub fn is_rootfs(reply: &HostReply) -> (rootfs: bool)
    ensures
        rootfs == root_in_memory(reply@),
{
    match reply {
        Reply::FsType { fs_type } => {
            *fs_type == as_fs_type(RAMFS_MAGIC) || *fs_type == tmpfs_magic()
        },
        _ => false,
    }
}

/// Changes how the root file system is mounted.
pub open spec fn remounting_root(flags: u64) -> RequestView {
    Request::Mount { source: None, target: "/"@, fstype: None, flags, data: None }
}

fn remount_root(flags: u64) -> (request: HostRequest)
    ensures
        request@ == remounting_root(flags),
{
    Request::Mount { source: None, target: "/".to_string(), fstype: None, flags, data: None }
}

fn read_only_flags() -> (flags: u64)
    ensures
        flags == REMOUNT_READ_ONLY,
{
    assert(0x20u64 | 0x1u64 == 0x21u64) by (bit_vector);
    ms_union(ms_remount(), ms_rdonly())
}

/// Mounts a tmpfs on `dest`.
pub open spec fn mounting_tmpfs(dest: Seq<char>, restore_root: bool) -> StepView {
    Step::Perform {
        request: Request::Mount {
            source: Some("magisk"@),
            target: dest,
            fstype: Some("tmpfs"@),
            flags: 0,
            data: Some("mode=755"@),
        },
        then: Then::TmpfsMounted { dest, restore_root },
    }
}

/// Mounts a tmpfs on `dest`, with `restore_root` if the root file system is to
/// become read-only again should that fail.
pub fn tmpfs_mount(dest: &str, restore_root: bool) -> (step: HostStep)
    ensures
        step@ == mounting_tmpfs(dest@, restore_root),
{
    Step::Perform {
        request: Request::Mount {
            source: Some("magisk".to_string()),
            target: dest.to_string(),
            fstype: Some("tmpfs".to_string()),
            flags: ms_none(),
            data: Some("mode=755".to_string()),
        },
        then: Then::TmpfsMounted { dest: dest.to_string(), restore_root },
    }
}

/// What follows the attempt to mount a tmpfs on `dest`: a message, and where it
/// failed the end with code -1.
pub open spec fn after_tmpfs_mount(
    dest: Seq<char>,
    restore_root: bool,
    reply: ReplyView,
) -> Seq<StepView> {
    if reply is Done {
        seq![ignoring(Request::ErrorLine { text: "tmpfs mount: "@ + dest })]
    } else {
        let message = "tmpfs mount failed "@ + dest + ": "@ + failure_text(reply);
        if restore_root {
            seq![
                ignoring(Request::ErrorLine { text: message }),
                ignoring(remounting_root(REMOUNT_READ_ONLY)),
                returning(-1),
            ]
        } else {
            seq![ignoring(Request::ErrorLine { text: message }), returning(-1)]
        }
    }
}

/// Goes on after the attempt to mount a tmpfs on `dest`.
pub fn tmpfs_mounted(dest: &str, restore_root: bool, reply: HostReply) -> (next: Vec<HostStep>)
    ensures
        steps(next@) == after_tmpfs_mount(dest@, restore_root, reply@),
{
    let mut next: Vec<HostStep> = Vec::new();
    match reply {
        Reply::Done => {
            next.push(ignore(Request::ErrorLine { text: join2("tmpfs mount: ", dest) }));
        },
        _ => {
            let error: String = error_text(reply);
            let message: String = join3("tmpfs mount failed ", dest, ": ").concat(error.as_str());
            next.push(ignore(Request::ErrorLine { text: message }));
            if restore_root {
                next.push(ignore(remount_root(read_only_flags())));
            }
            next.push(return_code(-1));
        },
    }
    assert(steps(next@) =~= after_tmpfs_mount(dest@, restore_root, reply@));
    next
}

/// Finds out what the root file system is, to mount `/sbin` accordingly.
pub open spec fn probing_root() -> StepView {
    Step::Perform {
        request: Request::FilesystemType { path: text_path("/"@) },
        then: Then::RootProbed,
    }
}

/// The SELinux context of `/sbin`.
pub open spec fn labelling_sbin() -> StepView {
    ignoring(
        Request::SetSecontext { path: text_path("/sbin"@), context: "u:object_r:rootfs:s0"@ },
    )
}

/// Where the root file system is mirrored below `/sbin`.
pub open spec fn system_root(internal_dir: Seq<char>) -> Seq<char> {
    "/sbin/"@ + internal_dir + "/mirror"@ + "/system_root"@
}

/// Unmounts `target`, at the latest when it is no longer in use.
pub open spec fn detaching(target: Seq<char>) -> RequestView {
    Request::Unmount { target, flags: DETACH }
}

/// How `/sbin` becomes a tmpfs. On a root file system in memory its entries are
/// kept as hard links in `/root`, which takes that it is writable meanwhile;
/// elsewhere they are bind mounted out of a mirror of the root.
pub open spec fn mounting_sbin(internal_dir: Seq<char>, rootfs: bool) -> Seq<StepView> {
    if rootfs {
        seq![
            Step::Perform { request: remounting_root(REMOUNT), then: Then::RootRemounted },
            ignoring(Request::CreateDirAll { path: text_path("/sbin"@) }),
            ignoring(Request::RemoveDirAll { path: text_path("/root"@) }),
            ignoring(Request::CreateDirAll { path: text_path("/root"@) }),
            cloning("/sbin"@, "/root"@),
            mounting_tmpfs("/sbin"@, true),
            labelling_sbin(),
            recreating("/root"@, false),
            ignoring(remounting_root(REMOUNT_READ_ONLY)),
        ]
    } else {
        let sysroot = system_root(internal_dir);
        seq![
            mounting_tmpfs("/sbin"@, false),
            labelling_sbin(),
            ignoring(Request::CreateDirAll { path: text_path("/sbin/"@ + internal_dir) }),
            ignoring(Request::CreateDirAll { path: text_path(sysroot) }),
            ignoring(
                Request::Mount {
                    source: Some("/"@),
                    target: sysroot,
                    fstype: None,
                    flags: BIND,
                    data: None,
                },
            ),
            recreating(sysroot + "/sbin"@, true),
            ignoring(detaching(sysroot)),
        ]
    }
}

/// Begins to mount a tmpfs on `/sbin`.
pub fn mount_sbin() -> (step: HostStep)
    ensures
        step@ == probing_root(),
{
    Step::Perform {
        request: Request::FilesystemType { path: to_path("/") },
        then: Then::RootProbed,
    }
}

fn label_sbin() -> (step: HostStep)
    ensures
        step@ == labelling_sbin(),
{
    ignore(
        Request::SetSecontext {
            path: to_path("/sbin"),
            context: "u:object_r:rootfs:s0".to_string(),
        },
    )
}

/// Goes on to mount a tmpfs on `/sbin` after the root file system was probed.
pub fn root_probed(config: &Config, reply: &HostReply) -> (next: Vec<HostStep>)
    ensures
        steps(next@) == mounting_sbin(config.internal_dir@, root_in_memory(reply@)),
{
    let mut next: Vec<HostStep> = Vec::new();
    if is_rootfs(reply) {
        next.push(
            Step::Perform { request: remount_root(ms_remount()), then: Then::RootRemounted },
        );
        next.push(ignore(Request::CreateDirAll { path: to_path("/sbin") }));
        next.push(ignore(Request::RemoveDirAll { path: to_path("/root") }));
        next.push(ignore(Request::CreateDirAll { path: to_path("/root") }));
        next.push(clone_dir("/sbin", "/root"));
        next.push(tmpfs_mount("/sbin", true));
        next.push(label_sbin());
        next.push(recreate_sbin("/root", false));
        next.push(ignore(remount_root(read_only_flags())));
    } else {
        let intlroot: String = join2("/sbin/", config.internal_dir.as_str());
        let mirdir: String = join2(intlroot.as_str(), "/mirror");
        let sysroot: String = join2(mirdir.as_str(), "/system_root");
        let mirror_sbin: String = join2(sysroot.as_str(), "/sbin");
        next.push(tmpfs_mount("/sbin", false));
        next.push(label_sbin());
        next.push(ignore(Request::CreateDirAll { path: to_path(intlroot.as_str()) }));
        next.push(ignore(Request::CreateDirAll { path: to_path(sysroot.as_str()) }));
        next.push(
            ignore(
                Request::Mount {
                    source: Some("/".to_string()),
                    target: sysroot.clone(),
                    fstype: None,
                    flags: ms_bind(),
                    data: None,
                },
            ),
        );
        next.push(recreate_sbin(mirror_sbin.as_str(), true));
        next.push(ignore(Request::Unmount { target: sysroot, flags: mnt_detach() }));
    }
    assert(steps(next@) =~= mounting_sbin(config.internal_dir@, root_in_memory(reply@)));
    next
}

/// What follows the attempt to make the root file system writable: nothing,
/// or a message and the end with code -1.
pub open spec fn after_root_remount(reply: ReplyView) -> Seq<StepView> {
    if reply is Done {
        Seq::empty()
    } else {
        seq![
            ignoring(
                Request::ErrorLine { text: "remount / rw failed: "@ + failure_text(reply) },
            ),
            returning(-1),
        ]
    }
}

/// Goes on after the attempt to make the root file system writable.
pub fn root_remounted(reply: HostReply) -> (next: Vec<HostStep>)
    ensures
        steps(next@) == after_root_remount(reply@),
{
    let mut next: Vec<HostStep> = Vec::new();
    match reply {
        Reply::Done => {},
        _ => {
            let error: String = error_text(reply);
            next.push(
                ignore(
                    Request::ErrorLine { text: join2("remount / rw failed: ", error.as_str()) },
                ),
            );
            next.push(return_code(-1));
        },
    }
    assert(steps(next@) =~= after_root_remount(reply@));
    next
}

} // verus!
