//! The console's main menu, which depends on the node's role.

use vstd::prelude::*;

verus! {

/// An entry of the main menu.
#[derive(Clone, Copy, Debug, PartialEq, Eq, Structural)]
pub enum MainAction {
    EditHosts,
    ManageBricks,
    AddPeer,
    CreateVolume,
    ClusterStatus,
    ManageVolumes,
    MountVolume,
    ManageMounts,
    Exit,
}

/// The main menu in order: a master node also manages peers and volumes;
/// a client node only its bricks, hosts and mounts.
pub open spec fn main_menu_spec(is_master: bool) -> Seq<MainAction> {
    if is_master {
        seq![
            MainAction::EditHosts,
            MainAction::ManageBricks,
            MainAction::AddPeer,
            MainAction::CreateVolume,
            MainAction::ClusterStatus,
            MainAction::ManageVolumes,
            MainAction::MountVolume,
            MainAction::ManageMounts,
            MainAction::Exit,
        ]
    } else {
        seq![
            MainAction::EditHosts,
            MainAction::ManageBricks,
            MainAction::MountVolume,
            MainAction::ManageMounts,
            MainAction::Exit,
        ]
    }
}

/// The entries of the main menu for a master or a client node.
pub fn main_menu(is_master: bool) -> (r: Vec<MainAction>)
    ensures
        r@ == main_menu_spec(is_master),
{
    let mut r: Vec<MainAction> = Vec::new();
    r.push(MainAction::EditHosts);
    r.push(MainAction::ManageBricks);
    if is_master {
        r.push(MainAction::AddPeer);
        r.push(MainAction::CreateVolume);
        r.push(MainAction::ClusterStatus);
        r.push(MainAction::ManageVolumes);
    }
    r.push(MainAction::MountVolume);
    r.push(MainAction::ManageMounts);
    r.push(MainAction::Exit);
    assert(r@ =~= main_menu_spec(is_master));
    r
}

} // verus!
