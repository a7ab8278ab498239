//! Bringing the entries of `/sbin` back after a tmpfs was mounted on it.

use crate::path::{text_path, to_path};
use crate::protocol::{
    ignore, ignoring, paths, received_text, reply_text, steps, FileKind, HostReply, HostStep, Reply,
    ReplyView, Request, Step, StepView, Then,
};
use crate::sys::{lossy, lossy_text, ms_bind};
use crate::text::{join2, join3};
use vstd::prelude::*;
use vstd::utf8::{decode_utf8, valid_utf8};

verus! {

/// The mount flags of a bind mount.
pub const BIND: u64 = 0x1000;

/// Brings the entries of `mirror` back to `/sbin`.
pub open spec fn recreating(mirror: Seq<char>, use_bind_mount: bool) -> StepView {
    Step::Perform {
        request: Request::MagiskTmp,
        then: Then::RecreateSbin { mirror, use_bind_mount },
    }
}

/// Brings the entries of `mirror` back to `/sbin`: symlinks are created anew,
/// anything else is bind mounted or becomes a symlink to the mirror.
pub fn recreate_sbin(mirror: &str, use_bind_mount: bool) -> (step: HostStep)
    ensures
        step@ == recreating(mirror@, use_bind_mount),
{
    Step::Perform {
        request: Request::MagiskTmp,
        then: Then::RecreateSbin { mirror: mirror.to_string(), use_bind_mount },
    }
}

/// Lists `mirror`, now that the place of the tmpfs is known.
pub open spec fn after_tmp_known(
    mirror: Seq<char>,
    use_bind_mount: bool,
    reply: ReplyView,
) -> Seq<StepView> {
    seq![
        Step::Perform {
            request: Request::ReadDir { path: text_path(mirror) },
            then: Then::RecreateDir { mirror, magisk_tmp: reply_text(reply), use_bind_mount },
        },
    ]
}

/// Goes on after the host told where the tmpfs is.
pub fn recreate_listing(mirror: String, use_bind_mount: bool, reply: HostReply) -> (next: Vec<
    HostStep,
>)
    ensures
        steps(next@) == after_tmp_known(mirror@, use_bind_mount, reply@),
{
    let magisk_tmp: String = received_text(reply);
    let path: Vec<u8> = to_path(mirror.as_str());
    let mut next: Vec<HostStep> = Vec::new();
    next.push(
        Step::Perform {
            request: Request::ReadDir { path },
            then: Then::RecreateDir { mirror, magisk_tmp, use_bind_mount },
        },
    );
    assert(steps(next@) =~= after_tmp_known(mirror@, use_bind_mount, reply@));
    next
}

/// Where the entry `name` would stand on the tmpfs of the tool.
pub open spec fn tmp_path(magisk_tmp: Seq<char>, name: Seq<char>) -> Seq<char> {
    if magisk_tmp.len() == 0 {
        "/sbin/"@ + name
    } else {
        magisk_tmp + "/"@ + name
    }
}

/// Brings the entry `name` of `mirror` back, unless the tool's own tmpfs has
/// an entry of that name already.
pub open spec fn recreating_entry(
    mirror: Seq<char>,
    magisk_tmp: Seq<char>,
    use_bind_mount: bool,
    name: Seq<char>,
) -> StepView {
    Step::Perform {
        request: Request::Exists { path: text_path(tmp_path(magisk_tmp, name)) },
        then: Then::RecreateEntry {
            src: mirror + "/"@ + name,
            sbin: "/sbin/"@ + name,
            keep_existing: magisk_tmp.len() > 0,
            use_bind_mount,
        },
    }
}

/// Begins to bring the entry `name` of `mirror` back.
pub fn recreate_entry(
    mirror: &str,
    magisk_tmp: &str,
    use_bind_mount: bool,
    name: &str,
) -> (step: HostStep)
    ensures
        step@ == recreating_entry(mirror@, magisk_tmp@, use_bind_mount, name@),
{
    let sbin: String = join2("/sbin/", name);
    let src: String = join3(mirror, "/", name);
    let tmp: String = if magisk_tmp.is_empty() {
        join2("/sbin/", name)
    } else {
        join3(magisk_tmp, "/", name)
    };
    Step::Perform {
        request: Request::Exists { path: to_path(tmp.as_str()) },
        then: Then::RecreateEntry {
            src,
            sbin,
            keep_existing: !magisk_tmp.is_empty(),
            use_bind_mount,
        },
    }
}

/// Brings the listed entries back, one after the other; nothing where they
/// could not be listed.
pub open spec fn after_mirror_listing(
    mirror: Seq<char>,
    magisk_tmp: Seq<char>,
    use_bind_mount: bool,
    reply: ReplyView,
) -> Seq<StepView> {
    match reply {
        Reply::Entries { names } => Seq::new(
            names.len(),
            |i: int| recreating_entry(mirror, magisk_tmp, use_bind_mount, lossy(names[i])),
        ),
        _ => Seq::empty(),
    }
}

/// That the listed names which are UTF-8 are handled under just these names.
pub open spec fn text_names_kept(reply: ReplyView) -> bool {
    reply matches Reply::Entries { names } ==> forall|i: int|
        0 <= i < names.len() && valid_utf8(#[trigger] names[i]) ==> lossy(names[i]) == decode_utf8(
            names[i],
        )
}

/// Goes on after the entries of `mirror` were listed. A name that is UTF-8 is
/// kept as it is.
pub fn recreate_entries(
    mirror: &str,
    magisk_tmp: &str,
    use_bind_mount: bool,
    reply: &HostReply,
) -> (next: Vec<HostStep>)
    ensures
        steps(next@) == after_mirror_listing(mirror@, magisk_tmp@, use_bind_mount, reply@),
        text_names_kept(reply@),
{
    let mut next: Vec<HostStep> = Vec::new();
    if let Reply::Entries { names } = reply {
        let mut i: usize = 0;
        while i < names.len()
            invariant
                i <= names.len(),
                i == next.len(),
                forall|j: int|
                    0 <= j < i ==> (#[trigger] next@[j])@ == recreating_entry(
                        mirror@,
                        magisk_tmp@,
                        use_bind_mount,
                        lossy(names@[j]@),
                    ),
                forall|j: int|
                    0 <= j < i && valid_utf8(#[trigger] paths(names@)[j]) ==> lossy(
                        paths(names@)[j],
                    ) == decode_utf8(paths(names@)[j]),
            decreases names.len() - i,
        {
            let name: String = lossy_text(&names[i]);
            next.push(recreate_entry(mirror, magisk_tmp, use_bind_mount, name.as_str()));
            i = i + 1;
        }
    }
    assert(steps(next@) =~= after_mirror_listing(mirror@, magisk_tmp@, use_bind_mount, reply@));
    next
}

/// Looks at `src`, unless the entry exists and is to be kept.
pub open spec fn after_exists_probe(
    src: Seq<char>,
    sbin: Seq<char>,
    keep_existing: bool,
    use_bind_mount: bool,
    reply: ReplyView,
) -> Seq<StepView> {
    if keep_existing && reply == (Reply::<Seq<char>, Seq<u8>, Seq<Seq<u8>>>::Exists {
        exists: true,
    }) {
        Seq::empty()
    } else {
        seq![
            Step::Perform {
                request: Request::Metadata { path: text_path(src) },
                then: Then::RecreateFile { src, sbin, use_bind_mount },
            },
        ]
    }
}

/// Goes on after the host told whether the tool's own tmpfs has the entry.
pub fn recreate_missing(
    src: String,
    sbin: String,
    keep_existing: bool,
    use_bind_mount: bool,
    reply: &HostReply,
) -> (next: Vec<HostStep>)
    ensures
        steps(next@) == after_exists_probe(src@, sbin@, keep_existing, use_bind_mount, reply@),
{
    let there: bool = match reply {
        Reply::Exists { exists } => *exists,
        _ => false,
    };
    let mut next: Vec<HostStep> = Vec::new();
    if !(there && keep_existing) {
        let path: Vec<u8> = to_path(src.as_str());
        next.push(
            Step::Perform {
                request: Request::Metadata { path },
                then: Then::RecreateFile { src, sbin, use_bind_mount },
            },
        );
    }
    assert(steps(next@) =~= after_exists_probe(
        src@,
        sbin@,
        keep_existing,
        use_bind_mount,
        reply@,
    ));
    next
}

/// How `src` is brought back as `sbin`, by what it is; nothing where that could
/// not be told.
pub open spec fn after_recreate_probe(
    src: Seq<char>,
    sbin: Seq<char>,
    use_bind_mount: bool,
    reply: ReplyView,
) -> Seq<StepView> {
    match reply {
        Reply::Metadata { kind: FileKind::Symlink, .. } => seq![
            Step::Perform {
                request: Request::ReadLink { path: text_path(src) },
                then: Then::RecreateLink { sbin },
            },
        ],
        Reply::Metadata { kind, mode } => if use_bind_mount {
            seq![
                if kind is Directory {
                    ignoring(Request::CreateDirAll { path: text_path(sbin) })
                } else {
                    ignoring(Request::CreateFile { path: text_path(sbin) })
                },
                ignoring(Request::SetMode { path: text_path(sbin), mode }),
                ignoring(
                    Request::Mount {
                        source: Some(src),
                        target: sbin,
                        fstype: None,
                        flags: BIND,
                        data: None,
                    },
                ),
            ]
        } else {
            seq![ignoring(Request::Symlink { target: text_path(src), link: text_path(sbin) })]
        },
        _ => Seq::empty(),
    }
}

/// Goes on after the host told what `src` is, to be brought back as `sbin`.
pub fn recreate_file(src: String, sbin: String, use_bind_mount: bool, reply: &HostReply) -> (next:
    Vec<HostStep>)
    ensures
        steps(next@) == after_recreate_probe(src@, sbin@, use_bind_mount, reply@),
{
    let mut next: Vec<HostStep> = Vec::new();
    let link: Vec<u8> = to_path(sbin.as_str());
    if let Reply::Metadata { kind, mode } = reply {
        if let FileKind::Symlink = kind {
            next.push(
                Step::Perform {
                    request: Request::ReadLink { path: to_path(src.as_str()) },
                    then: Then::RecreateLink { sbin },
                },
            );
        } else if use_bind_mount {
            if let FileKind::Directory = kind {
                next.push(ignore(Request::CreateDirAll { path: link }));
            } else {
                next.push(ignore(Request::CreateFile { path: link }));
            }
            next.push(ignore(Request::SetMode { path: to_path(sbin.as_str()), mode: *mode }));
            next.push(
                ignore(
                    Request::Mount {
                        source: Some(src),
                        target: sbin,
                        fstype: None,
                        flags: ms_bind(),
                        data: None,
                    },
                ),
            );
        } else {
            next.push(ignore(Request::Symlink { target: to_path(src.as_str()), link }));
        }
    }
    assert(steps(next@) =~= after_recreate_probe(src@, sbin@, use_bind_mount, reply@));
    next
}

} // verus!
