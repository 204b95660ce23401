//! Local brick directories: each brick of this node is a directory under
//! `/gluster`, owned by the operator and open to its group.

use vstd::prelude::*;
use crate::command::{chmod, chown_to_user, Invocation, InvocationView};

verus! {

/// The directory that holds this node's bricks.
pub fn brick_root() -> (r: &'static str)
    ensures
        r@ == "/gluster"@,
{
    "/gluster"
}

/// The directory of the brick named `name`: `/gluster/<name>`.
pub fn brick_dir(name: &str) -> (r: String)
    ensures
        r@ == "/gluster"@ + "/"@ + name@,
{
    let mut r = brick_root().to_owned();
    r.append("/");
    r.append(name);
    r
}

/// The commands that prepare a new brick directory: `user` and its group
/// become the owners, then the mode becomes `775`.
pub fn brick_setup(user: &str, dir: &str) -> (r: (Invocation, Invocation))
    ensures
        r.0@ == (InvocationView {
            privileged: true,
            program: "chown"@,
            args: seq![user@ + ":"@ + user@, dir@],
        }),
        r.1@ == (InvocationView { privileged: true, program: "chmod"@, args: seq!["775"@, dir@] }),
{
    (chown_to_user(user, dir), chmod("775", dir))
}

} // verus!
