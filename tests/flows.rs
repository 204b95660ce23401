use gluster_admin::command::Invocation;
use gluster_admin::input::{
    brick_host, classify_brick_entry, is_cancel_word, is_valid_brick_spec, parse_count, BrickEntry,
};
use gluster_admin::mount::{
    after_unmount, is_protected_path, list_media_mounts, mount_point, mount_source, ownership_step,
    should_delete, OwnershipStep, UnmountFollowUp,
};
use gluster_admin::removal::{RemovalAction, RemovalEvent, RemovalState};
use gluster_admin::volume::{
    create_outcome, needs_confirmation, plan_create_volume, BrickCollector, BrickCountPolicy,
    CreateOutcome, CreateVolumeError, EntryOutcome, VolumeOp,
};

fn strings(v: &[&str]) -> Vec<String> {
    v.iter().map(|s| s.to_string()).collect()
}

fn argv(inv: &Invocation) -> Vec<String> {
    let mut v = Vec::new();
    if inv.privileged {
        v.push("sudo".to_string());
    }
    v.push(inv.program.clone());
    v.extend(inv.args.iter().cloned());
    v
}

#[test]
fn create_rejects_fewer_bricks_than_replicas() {
    let bricks = strings(&["a:/x", "b:/y"]);
    let r = plan_create_volume("v", Some(3), &bricks, BrickCountPolicy::AtLeastReplica);
    assert_eq!(r.err(), Some(CreateVolumeError::InsufficientBricks));
}

#[test]
fn create_builds_the_replicated_command() {
    let bricks = strings(&["a:/x", "b:/y"]);
    let inv = plan_create_volume("v", Some(2), &bricks, BrickCountPolicy::AtLeastReplica).ok().unwrap();
    assert!(inv.privileged);
    assert_eq!(inv.program, "gluster");
    assert_eq!(inv.args, vec!["volume", "create", "v", "replica", "2", "a:/x", "b:/y", "force"]);
}

#[test]
fn create_without_replication() {
    let bricks = strings(&["vm1:/gluster/b1"]);
    let inv = plan_create_volume("gv0", None, &bricks, BrickCountPolicy::WholeReplicaSets).ok().unwrap();
    assert_eq!(argv(&inv), vec!["sudo", "gluster", "volume", "create", "gv0", "vm1:/gluster/b1", "force"]);
}

#[test]
fn create_errors() {
    let two = strings(&["a:/x", "b:/y"]);
    let three = strings(&["a:/x", "b:/y", "c:/z"]);
    let p = BrickCountPolicy::AtLeastReplica;
    assert_eq!(plan_create_volume("  ", None, &two, p).err(), Some(CreateVolumeError::EmptyName));
    assert_eq!(plan_create_volume("v", None, &Vec::new(), p).err(), Some(CreateVolumeError::NoBricks));
    assert_eq!(
        plan_create_volume("v", None, &strings(&["a:/x", "nocolon"]), p).err(),
        Some(CreateVolumeError::MalformedBrickSpec)
    );
    assert_eq!(plan_create_volume("v", Some(1), &two, p).err(), Some(CreateVolumeError::InvalidReplicaCount));
    assert_eq!(
        plan_create_volume("v", Some(2), &three, BrickCountPolicy::WholeReplicaSets).err(),
        Some(CreateVolumeError::BrickCountNotMultiple)
    );
    assert!(plan_create_volume("v", Some(2), &three, p).is_ok());
    let four = strings(&["a:/x", "b:/y", "c:/z", "d:/w"]);
    assert!(plan_create_volume("v", Some(2), &four, BrickCountPolicy::WholeReplicaSets).is_ok());
}

#[test]
fn creation_outcomes() {
    assert_eq!(create_outcome(false, false), CreateOutcome::Failed);
    assert_eq!(create_outcome(false, true), CreateOutcome::Failed);
    assert_eq!(create_outcome(true, false), CreateOutcome::CreatedNotStarted);
    assert_eq!(create_outcome(true, true), CreateOutcome::Started);
}

#[test]
fn brick_entries() {
    assert_eq!(classify_brick_entry("  SALIR "), BrickEntry::Cancel);
    assert_eq!(classify_brick_entry("Fin"), BrickEntry::Finish);
    assert_eq!(classify_brick_entry("vm1:/gluster/b1"), BrickEntry::Brick);
    assert_eq!(classify_brick_entry("vm1-gluster"), BrickEntry::Malformed);
    assert!(is_cancel_word("salir"));
    assert!(!is_cancel_word("salirr"));
    assert!(is_valid_brick_spec("h:/p"));
    assert!(!is_valid_brick_spec("h:p"));
    assert_eq!(brick_host("vm1:/gluster/b1"), "vm1");
    assert_eq!(brick_host("nohost"), "nohost");
}

#[test]
fn add_brick_keeps_known_peers_only() {
    let mut c = BrickCollector::for_existing_volume(strings(&["a", "b"]));
    assert_eq!(c.enter("a:/x"), EntryOutcome::Queued);
    assert_eq!(c.enter("c:/y"), EntryOutcome::UnknownPeer);
    assert_eq!(c.enter("fin"), EntryOutcome::Finished);
    assert_eq!(c.bricks(), &strings(&["a:/x"]));
}

#[test]
fn add_brick_cancel_needs_confirmation_once_bricks_are_listed() {
    let mut c = BrickCollector::for_existing_volume(strings(&["a"]));
    assert_eq!(c.enter("salir"), EntryOutcome::Cancelled);
    assert_eq!(c.enter("a:/x"), EntryOutcome::Queued);
    assert_eq!(c.enter("bad"), EntryOutcome::Malformed);
    assert_eq!(c.enter("salir"), EntryOutcome::ConfirmCancel);
    assert_eq!(c.bricks().len(), 1);
}

#[test]
fn new_volume_bricks_need_no_peer() {
    let mut c = BrickCollector::for_new_volume();
    assert_eq!(c.enter("anyhost:/p"), EntryOutcome::Queued);
    assert_eq!(c.enter("salir"), EntryOutcome::Cancelled);
    assert_eq!(c.bricks(), &strings(&["anyhost:/p"]));
}

#[test]
fn only_start_needs_no_confirmation() {
    assert!(!needs_confirmation(VolumeOp::Start));
    assert!(needs_confirmation(VolumeOp::Stop));
    assert!(needs_confirmation(VolumeOp::Delete));
}

fn run(events: Vec<RemovalEvent>) -> (RemovalState, Vec<RemovalAction>) {
    let mut s = RemovalState::SelectingVolume;
    let mut actions = Vec::new();
    for e in events {
        let (next, a) = s.step(e);
        s = next;
        actions.push(a);
    }
    (s, actions)
}

#[test]
fn declining_force_migration_issues_no_start() {
    let (s, actions) = run(vec![
        RemovalEvent::VolumeChosen("gv0".to_string()),
        RemovalEvent::MigrationFlag(Some(true)),
        RemovalEvent::Declined,
        RemovalEvent::BrickChosen("vm1:/b".to_string()),
        RemovalEvent::Confirmed,
    ]);
    assert!(matches!(s, RemovalState::Aborted));
    assert!(s.is_terminal());
    assert!(matches!(&actions[1], RemovalAction::WarnForceMigration { volume } if volume == "gv0"));
    assert!(matches!(actions[2], RemovalAction::ReportAborted));
    assert!(!actions.iter().any(|a| matches!(a, RemovalAction::IssueRemoveStart { .. })));
}

#[test]
fn removal_runs_start_then_shows_commit() {
    let (s, actions) = run(vec![
        RemovalEvent::VolumeChosen("gv0".to_string()),
        RemovalEvent::MigrationFlag(Some(false)),
        RemovalEvent::BrickChosen("vm1:/b".to_string()),
        RemovalEvent::Confirmed,
        RemovalEvent::StartResult(true),
    ]);
    assert!(matches!(s, RemovalState::Finished));
    assert!(matches!(&actions[0], RemovalAction::QueryMigrationFlag { volume } if volume == "gv0"));
    assert!(matches!(&actions[1], RemovalAction::ChooseBrick { caution: false, .. }));
    assert!(matches!(&actions[2], RemovalAction::ConfirmRemoval { brick, .. } if brick == "vm1:/b"));
    assert!(matches!(&actions[3], RemovalAction::IssueRemoveStart { volume, brick } if volume == "gv0" && brick == "vm1:/b"));
    assert!(matches!(&actions[4], RemovalAction::ShowCommit { volume, brick } if volume == "gv0" && brick == "vm1:/b"));
}

#[test]
fn unreadable_flag_continues_with_caution() {
    let (s, actions) = run(vec![
        RemovalEvent::VolumeChosen("gv0".to_string()),
        RemovalEvent::MigrationFlag(None),
        RemovalEvent::Declined,
    ]);
    assert!(matches!(&actions[1], RemovalAction::ChooseBrick { caution: true, .. }));
    assert!(matches!(s, RemovalState::Aborted));
}

#[test]
fn forced_removal_after_second_yes_and_failed_start() {
    let (s, actions) = run(vec![
        RemovalEvent::VolumeChosen("gv0".to_string()),
        RemovalEvent::MigrationFlag(Some(true)),
        RemovalEvent::Confirmed,
        RemovalEvent::BrickChosen("vm2:/c".to_string()),
        RemovalEvent::Confirmed,
        RemovalEvent::StartResult(false),
        RemovalEvent::Confirmed,
    ]);
    assert!(matches!(s, RemovalState::Finished));
    assert!(matches!(&actions[3], RemovalAction::ConfirmRemoval { .. }));
    assert!(matches!(&actions[4], RemovalAction::IssueRemoveStart { .. }));
    assert!(matches!(&actions[5], RemovalAction::ReportStartFailed { .. }));
    assert!(matches!(&actions[6], RemovalAction::Nothing));
}

#[test]
fn protected_paths() {
    for p in ["/", "/boot", "/home", "/etc", "/usr", "/var", "/bin", "/sbin", "/lib", "/lib64", "/mnt"] {
        assert!(is_protected_path(p), "{}", p);
    }
    assert!(!is_protected_path("/media/foo"));
    assert!(!is_protected_path("/home/"));
    assert!(!is_protected_path(""));
}

#[test]
fn unmount_of_protected_path_never_offers_delete() {
    let f = after_unmount("/home", true);
    assert_eq!(f, UnmountFollowUp::KeepProtected);
    assert!(!should_delete(f, true));
    let g = after_unmount("/media/foo", true);
    assert_eq!(g, UnmountFollowUp::OfferDelete);
    assert!(!should_delete(g, false));
    assert!(should_delete(g, true));
    assert_eq!(after_unmount("/media/foo", false), UnmountFollowUp::Failed);
}

#[test]
fn mount_paths() {
    assert_eq!(mount_point("vol_personal"), "/media/vol_personal");
    assert_eq!(mount_source("  vm1\t", "gv0"), "vm1:/gv0");
    let table = "vm1:/gv0 on /media/data type fuse.glusterfs (rw)\n/dev/sda1 on /boot type ext4 (rw)\n";
    let m = list_media_mounts(table);
    assert_eq!(m.len(), 1);
    assert_eq!(m[0].target, "/media/data");
}

#[test]
fn ownership_steps() {
    assert!(matches!(ownership_step("Salir", true, "/media/x"), OwnershipStep::Cancelled));
    assert!(matches!(ownership_step("ghost", false, "/media/x"), OwnershipStep::UnknownUser));
    match ownership_step("ana", true, "/media/x") {
        OwnershipStep::Chown(inv) => assert_eq!(argv(&inv), vec!["sudo", "chown", "ana:ana", "/media/x"]),
        _ => panic!("expected a chown"),
    }
}

#[test]
fn typed_counts() {
    assert_eq!(parse_count(" 3 "), Some(3));
    assert_eq!(parse_count("042"), Some(42));
    assert_eq!(parse_count("4294967295"), Some(4_294_967_295));
    assert_eq!(parse_count("4294967296"), None);
    assert_eq!(parse_count("99999999999x"), None);
    assert_eq!(parse_count(""), None);
    assert_eq!(parse_count("2a"), None);
    assert_eq!(parse_count("-2"), None);
}
