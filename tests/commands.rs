use gluster_admin::bricks::{brick_dir, brick_setup};
use gluster_admin::command::{
    decimal_string, mount_table, peer_probe, peer_status, unmount, volume_add_brick,
    volume_get_force_migration, volume_info, volume_list, volume_remove_brick, volume_status,
    Invocation, RemovalPhase,
};
use gluster_admin::mount::mount_volume_invocation;
use gluster_admin::volume::{volume_op_invocation, VolumeOp};

fn argv(inv: &Invocation) -> Vec<String> {
    let mut v = Vec::new();
    if inv.privileged {
        v.push("sudo".to_string());
    }
    v.push(inv.program.clone());
    v.extend(inv.args.iter().cloned());
    v
}

#[test]
fn decimal_numerals() {
    assert_eq!(decimal_string(0), "0");
    assert_eq!(decimal_string(2), "2");
    assert_eq!(decimal_string(10), "10");
    assert_eq!(decimal_string(4_294_967_295), "4294967295");
}

#[test]
fn peer_commands() {
    assert_eq!(argv(&peer_probe("vm4")), vec!["sudo", "gluster", "peer", "probe", "vm4"]);
    assert_eq!(argv(&peer_status()), vec!["gluster", "peer", "status"]);
}

#[test]
fn query_commands() {
    assert_eq!(argv(&volume_info(None)), vec!["gluster", "volume", "info"]);
    assert_eq!(argv(&volume_info(Some("gv0"))), vec!["gluster", "volume", "info", "gv0"]);
    assert_eq!(argv(&volume_list()), vec!["gluster", "volume", "list"]);
    assert_eq!(argv(&volume_status()), vec!["gluster", "volume", "status"]);
    assert_eq!(
        argv(&volume_get_force_migration("gv0")),
        vec!["gluster", "volume", "get", "gv0", "cluster.force-migration"]
    );
    assert_eq!(argv(&mount_table()), vec!["mount"]);
}

#[test]
fn volume_operation_commands() {
    assert_eq!(argv(&volume_op_invocation(VolumeOp::Start, "gv0")), vec!["sudo", "gluster", "volume", "start", "gv0"]);
    assert_eq!(
        argv(&volume_op_invocation(VolumeOp::Stop, "gv0")),
        vec!["sudo", "gluster", "volume", "stop", "gv0", "force"]
    );
    assert_eq!(argv(&volume_op_invocation(VolumeOp::Delete, "gv0")), vec!["sudo", "gluster", "volume", "delete", "gv0"]);
}

#[test]
fn brick_change_commands() {
    let bricks = vec!["vm1:/a".to_string(), "vm2:/b".to_string()];
    assert_eq!(
        argv(&volume_add_brick("gv0", &bricks)),
        vec!["sudo", "gluster", "volume", "add-brick", "gv0", "vm1:/a", "vm2:/b", "force"]
    );
    assert_eq!(
        argv(&volume_remove_brick("gv0", "vm1:/a", RemovalPhase::Start)),
        vec!["sudo", "gluster", "volume", "remove-brick", "gv0", "vm1:/a", "start"]
    );
    assert_eq!(
        argv(&volume_remove_brick("gv0", "vm1:/a", RemovalPhase::Commit)),
        vec!["sudo", "gluster", "volume", "remove-brick", "gv0", "vm1:/a", "commit"]
    );
}

#[test]
fn mount_commands() {
    assert_eq!(
        argv(&mount_volume_invocation(" vm1 ", "gv0", "data")),
        vec!["sudo", "mount", "-t", "glusterfs", "vm1:/gv0", "/media/data"]
    );
    assert_eq!(argv(&unmount("/media/data")), vec!["sudo", "umount", "/media/data"]);
}

#[test]
fn brick_directory_commands() {
    let dir = brick_dir("datos");
    assert_eq!(dir, "/gluster/datos");
    let (own, mode) = brick_setup("ana", &dir);
    assert_eq!(argv(&own), vec!["sudo", "chown", "ana:ana", "/gluster/datos"]);
    assert_eq!(argv(&mode), vec!["sudo", "chmod", "775", "/gluster/datos"]);
}
