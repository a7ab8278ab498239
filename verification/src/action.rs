//! What the command line can ask for, and the settings of the build.

use vstd::prelude::*;

verus! {

/// Settings that are fixed when the tool is built.
#[derive(Debug)]
pub struct Config {
    /// The version of this binary.
    pub magisk_version: String,
    /// The version code of this binary.
    pub magisk_ver_code: i32,
    /// Whether this is a debug build.
    pub debug_assertions: bool,
    /// The names under which the binary acts as an applet.
    pub applet_names: Vec<String>,
    /// The directory of internal files, below the tmpfs.
    pub internal_dir: String,
    /// The directory of device nodes, below the tmpfs.
    pub device_dir: String,
    /// How many seconds the post-fs-data trigger waits for the daemon.
    pub post_fs_data_wait_time: i32,
    /// The SELinux domain of the tool's own processes.
    pub sepol_proc_domain: String,
}

impl Config {
    /// The waiting time, taken in milliseconds, is a number of 32 bits.
    pub open spec fn well_formed(&self) -> bool {
        i32::MIN <= self.post_fs_data_wait_time * 1000 <= i32::MAX
    }
}

/// What a client asks of the daemon.
#[allow(non_camel_case_types)]
#[derive(Debug, Clone, Copy, PartialEq, Eq, Structural)]
pub enum RequestCode {
    START_DAEMON,
    CHECK_VERSION,
    CHECK_VERSION_CODE,
    STOP_DAEMON,
    SQLITE_CMD,
    REMOVE_MODULES,
    POST_FS_DATA,
    LATE_START,
    BOOT_COMPLETE,
    ZYGOTE_RESTART,
}

/// One command of the tool.
#[derive(Debug, PartialEq)]
pub enum MagiskAction {
    LocalVersion(LocalVersion),
    Version(Version),
    VersionCode(VersionCode),
    List(ListApplets),
    RemoveModules(RemoveModules),
    InstallModule(InstallModule),
    Daemon(StartDaemon),
    Stop(StopDaemon),
    PostFsData(PostFsData),
    Service(ServiceCmd),
    BootComplete(BootComplete),
    ZygoteRestart(ZygoteRestart),
    UnlockBlocks(UnlockBlocks),
    RestoreCon(RestoreCon),
    CloneAttr(CloneAttr),
    CloneFile(CloneFile),
    Sqlite(Sqlite),
    Path(PathCmd),
    DenyList(DenyList),
    PreInitDevice(PreInitDevice),
    SetupSbin(SetupSbin),
    MountSbin(MountSbinCmd),
    Install(InstallApplet),
}

/// `-c`: print the version of this binary.
#[derive(Debug, PartialEq)]
pub struct LocalVersion {}

/// `-v`: print the version of the running daemon.
#[derive(Debug, PartialEq)]
pub struct Version {}

/// `-V`: print the version code of the running daemon.
#[derive(Debug, PartialEq)]
pub struct VersionCode {}

/// `--list`: list the applets.
#[derive(Debug, PartialEq)]
pub struct ListApplets {}

/// `--remove-modules`: remove all modules.
#[derive(Debug, PartialEq)]
pub struct RemoveModules {
    /// Do not reboot afterwards.
    pub no_reboot: bool,
}

/// `--install-module`: install a module.
#[derive(Debug, PartialEq)]
pub struct InstallModule {
    /// The zip file of the module.
    pub zip: String,
}

/// `--daemon`: start the daemon.
#[derive(Debug, PartialEq)]
pub struct StartDaemon {}

/// `--stop`: undo all changes and stop the daemon.
#[derive(Debug, PartialEq)]
pub struct StopDaemon {}

/// `--post-fs-data`: init trigger.
#[derive(Debug, PartialEq)]
pub struct PostFsData {}

/// `--service`: init trigger.
#[derive(Debug, PartialEq)]
pub struct ServiceCmd {}

/// `--boot-complete`: init trigger.
#[derive(Debug, PartialEq)]
pub struct BootComplete {}

/// `--zygote-restart`: init trigger.
#[derive(Debug, PartialEq)]
pub struct ZygoteRestart {}

/// `--unlock-blocks`: make all block devices writable.
#[derive(Debug, PartialEq)]
pub struct UnlockBlocks {}

/// `--restorecon`: restore the SELinux context of the tool's files.
#[derive(Debug, PartialEq)]
pub struct RestoreCon {}

/// `--clone-attr`: copy permission, owner and SELinux context.
#[derive(Debug, PartialEq)]
pub struct CloneAttr {
    /// The file whose attributes are copied.
    pub from: String,
    /// The file that gets them.
    pub to: String,
}

/// `--clone`: copy a file.
#[derive(Debug, PartialEq)]
pub struct CloneFile {
    /// The file that is copied.
    pub from: String,
    /// The copy.
    pub to: String,
}

/// `--sqlite`: run SQL on the database of the daemon.
#[derive(Debug, PartialEq)]
pub struct Sqlite {
    /// The SQL commands.
    pub sql: String,
}

/// `--path`: print where the tmpfs is mounted.
#[derive(Debug, PartialEq)]
pub struct PathCmd {}

/// `--denylist`: configure the denylist.
#[derive(Debug, PartialEq)]
pub struct DenyList {
    /// The arguments of the denylist command line.
    pub args: Vec<String>,
}

/// `--preinit-device`: find a device for preinit files.
#[derive(Debug, PartialEq)]
pub struct PreInitDevice {}

/// `--setup-sbin`: set up a tmpfs with the binaries.
#[derive(Debug, PartialEq)]
pub struct SetupSbin {
    /// The directory that holds the binaries.
    pub bin_dir: String,
    /// Where the tmpfs goes, `/sbin` if it is not given.
    pub tmpfs_dest: Option<String>,
}

/// `--mount-sbin`: mount a tmpfs on `/sbin`.
#[derive(Debug, PartialEq)]
pub struct MountSbinCmd {}

/// `--install`: install the applet symlinks.
#[derive(Debug, PartialEq)]
pub struct InstallApplet {
    /// The directory that gets them, `/sbin` if it is not given.
    pub path: Option<String>,
}

} // verus!
