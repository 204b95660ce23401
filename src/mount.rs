//! Mounting cluster volumes under `/media`, unmounting them, and the guard
//! that keeps system directories from being deleted after an unmount.

use vstd::prelude::*;
use crate::command::{chown_to_user, mount_glusterfs, Invocation, InvocationView};
use crate::input::is_cancel;
use crate::parse::{mounts_in, parse_mount_table, MountEntry};
use crate::text::{same_text, trim, trim_str};

verus! {

/// The root-level system directories that are never deleted.
pub open spec fn is_protected(path: Seq<char>) -> bool {
    ||| path == "/"@
    ||| path == "/boot"@
    ||| path == "/home"@
    ||| path == "/etc"@
    ||| path == "/usr"@
    ||| path == "/var"@
    ||| path == "/bin"@
    ||| path == "/sbin"@
    ||| path == "/lib"@
    ||| path == "/lib64"@
    ||| path == "/mnt"@
}

/// Whether `path` is one of the protected system directories.
pub fn is_protected_path(path: &str) -> (r: bool)
    ensures
        r == is_protected(path@),
{
    same_text(path, "/") || same_text(path, "/boot") || same_text(path, "/home") || same_text(
        path,
        "/etc",
    ) || same_text(path, "/usr") || same_text(path, "/var") || same_text(path, "/bin")
        || same_text(path, "/sbin") || same_text(path, "/lib") || same_text(path, "/lib64")
        || same_text(path, "/mnt")
}

/// The mount point for a directory name: `/media/<name>`.
pub fn mount_point(dir_name: &str) -> (r: String)
    ensures
        r@ == "/media/"@ + dir_name@,
{
    let mut r = "/media/".to_owned();
    r.append(dir_name);
    r
}

/// What `mount` mounts: `<server>:/<volume>`, the server name trimmed.
pub fn mount_source(server: &str, volume: &str) -> (r: String)
    ensures
        r@ == trim(server@) + ":/"@ + volume@,
{
    let mut r = trim_str(server);
    r.append(":/");
    r.append(volume);
    r
}

/// The command that mounts `volume` of `server` on `/media/<dir_name>`.
pub fn mount_volume_invocation(server: &str, volume: &str, dir_name: &str) -> (r: Invocation)
    ensures
        r@ == (InvocationView {
            privileged: true,
            program: "mount"@,
            args: seq!["-t"@, "glusterfs"@, trim(server@) + ":/"@ + volume@, "/media/"@ + dir_name@],
        }),
{
    let source = mount_source(server, volume);
    let target = mount_point(dir_name);
    mount_glusterfs(source.as_str(), target.as_str())
}

/// The mounts under `/media/` in the output of `mount`.
pub fn list_media_mounts(table: &str) -> (r: Vec<MountEntry>)
    ensures
        r@.map_values(|e: MountEntry| e@) == mounts_in(table@, " /media/"@),
{
    parse_mount_table(table, " /media/")
}

/// What follows the operator's answer to "which user should own the mount point?".
pub enum OwnershipStep {
    /// The operator cancelled.
    Cancelled,
    /// No such user exists: nothing is changed.
    UnknownUser,
    /// Run this command.
    Chown(Invocation),
}

/// The step after the operator named `user` as owner of `mount_point`;
/// `user_exists` says whether the system knows the user.
pub fn ownership_step(user: &str, user_exists: bool, mount_point: &str) -> (r: OwnershipStep)
    ensures
        is_cancel(user@) ==> r is Cancelled,
        !is_cancel(user@) && !user_exists ==> r is UnknownUser,
        !is_cancel(user@) && user_exists ==> (r matches OwnershipStep::Chown(inv) && inv@ == (
        InvocationView {
            privileged: true,
            program: "chown"@,
            args: seq![user@ + ":"@ + user@, mount_point@],
        })),
{
    if crate::input::is_cancel_word(user) {
        OwnershipStep::Cancelled
    } else if !user_exists {
        OwnershipStep::UnknownUser
    } else {
        OwnershipStep::Chown(chown_to_user(user, mount_point))
    }
}

/// What follows an unmount.
#[derive(Clone, Copy, Debug, PartialEq, Eq, Structural)]
pub enum UnmountFollowUp {
    /// The unmount failed.
    Failed,
    /// The mount point is a protected directory: it stays, and the operator
    /// is not asked.
    KeepProtected,
    /// Ask the operator whether to delete the mount point; the default is no.
    OfferDelete,
}

pub open spec fn unmount_follow_up(target: Seq<char>, unmounted: bool) -> UnmountFollowUp {
    if !unmounted {
        UnmountFollowUp::Failed
    } else if is_protected(target) {
        UnmountFollowUp::KeepProtected
    } else {
        UnmountFollowUp::OfferDelete
    }
}

/// What follows unmounting `target`, given whether the unmount succeeded.
pub fn after_unmount(target: &str, unmounted: bool) -> (r: UnmountFollowUp)
    ensures
        r == unmount_follow_up(target@, unmounted),
{
    if !unmounted {
        UnmountFollowUp::Failed
    } else if is_protected_path(target) {
        UnmountFollowUp::KeepProtected
    } else {
        UnmountFollowUp::OfferDelete
    }
}

pub open spec fn deletes(follow_up: UnmountFollowUp, confirmed: bool) -> bool {
    follow_up == UnmountFollowUp::OfferDelete && confirmed
}

/// Whether the mount point is deleted: only where deletion was offered and
/// the operator confirmed it.
pub fn should_delete(follow_up: UnmountFollowUp, confirmed: bool) -> (r: bool)
    ensures
        r == deletes(follow_up, confirmed),
{
    follow_up == UnmountFollowUp::OfferDelete && confirmed
}

/// A protected directory is never deleted after an unmount, whatever the
/// operator answers; any other one is offered for deletion, and deleted only
/// on a yes.
pub proof fn lemma_protected_paths_survive_unmount(target: Seq<char>, confirmed: bool)
    ensures
        is_protected(target) ==> unmount_follow_up(target, true) == UnmountFollowUp::KeepProtected
            && !deletes(unmount_follow_up(target, true), confirmed),
        !is_protected(target) ==> unmount_follow_up(target, true) == UnmountFollowUp::OfferDelete
            && deletes(unmount_follow_up(target, true), confirmed) == confirmed,
{
}

} // verus!
