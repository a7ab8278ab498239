//! The usage message and the applets.

use crate::action::Config;
use crate::path::{text_path, to_path};
use crate::protocol::{ignore, ignoring, steps, HostStep, Request, StepView};
use crate::text::{join3, join_separated, separated, texts};
use vstd::prelude::*;
use vstd::string::StringExecFns;

verus! {

/// The usage message, up to the names of the applets.
pub const USAGE: &'static str = r#"Magisk - Multi-purpose Utility

Usage: magisk [applet [arguments]...]
   or: magisk [options]...

Options:
   -c                        print current binary version
   -v                        print running daemon version
   -V                        print running daemon version code
   --list                    list all available applets
   --remove-modules [-n]     remove all modules, reboot if -n is not provided
   --install-module ZIP      install a module zip file

Advanced Options (Internal APIs):
   --daemon                  manually start magisk daemon
   --stop                    remove all magisk changes and stop daemon
   --[init trigger]          callback on init triggers. Valid triggers:
                             post-fs-data, service, boot-complete, zygote-restart
   --unlock-blocks           set BLKROSET flag to OFF for all block devices
   --restorecon              restore selinux context on Magisk files
   --clone-attr SRC DEST     clone permission, owner, and selinux context
   --clone SRC DEST          clone SRC to DEST
   --sqlite SQL              exec SQL commands to Magisk database
   --path                    print Magisk tmpfs mount path
   --denylist ARGS           denylist config CLI
   --preinit-device          resolve a device to store preinit files

Available applets:
     "#;

/// The usage message, with the names of the applets.
pub open spec fn usage(applet_names: Seq<Seq<char>>) -> Seq<char> {
    USAGE@ + separated(applet_names, ", "@) + "\n"@
}

/// Prints the usage message on standard error.
pub open spec fn printing_usage(applet_names: Seq<Seq<char>>) -> StepView {
    ignoring(Request::ErrorLine { text: usage(applet_names) })
}

/// Prints the usage message on standard error.
pub fn print_usage(config: &Config) -> (step: HostStep)
    ensures
        step@ == printing_usage(texts(config.applet_names@)),
{
    let names: String = join_separated(&config.applet_names, ", ");
    ignore(Request::ErrorLine { text: join3(USAGE, names.as_str(), "\n") })
}

/// Makes `name` an applet in the directory `path`.
pub open spec fn linking_applet(path: Seq<char>, name: Seq<char>) -> StepView {
    ignoring(
        Request::Symlink { target: text_path("./magisk"@), link: text_path(path + "/"@ + name) },
    )
}

/// Installs the applets into the directory `path`: a symlink to `./magisk` for
/// each, and `supolicy` to `./magiskpolicy`.
pub open spec fn installing_applets(applet_names: Seq<Seq<char>>, path: Seq<char>) -> Seq<
    StepView,
> {
    Seq::new(applet_names.len(), |i: int| linking_applet(path, applet_names[i])).push(
        ignoring(
            Request::Symlink {
                target: text_path("./magiskpolicy"@),
                link: text_path(path + "/supolicy"@),
            },
        ),
    )
}

/// Installs the applets into the directory `path`.
pub fn install_applet(config: &Config, path: &str) -> (next: Vec<HostStep>)
    ensures
        steps(next@) == installing_applets(texts(config.applet_names@), path@),
{
    let mut next: Vec<HostStep> = Vec::new();
    let mut i: usize = 0;
    while i < config.applet_names.len()
        invariant
            i <= config.applet_names.len(),
            i == next.len(),
            forall|j: int|
                0 <= j < i ==> (#[trigger] next@[j])@ == linking_applet(
                    path@,
                    config.applet_names@[j]@,
                ),
        decreases config.applet_names.len() - i,
    {
        let link: String = join3(path, "/", config.applet_names[i].as_str());
        next.push(
            ignore(
                Request::Symlink { target: to_path("./magisk"), link: to_path(link.as_str()) },
            ),
        );
        i = i + 1;
    }
    let link: String = path.to_string().concat("/supolicy");
    next.push(
        ignore(
            Request::Symlink { target: to_path("./magiskpolicy"), link: to_path(link.as_str()) },
        ),
    );
    assert(steps(next@) =~= installing_applets(texts(config.applet_names@), path@));
    next
}

} // verus!
