use gluster_admin::hosts::{entry_address, entry_names, hosts_entry, AddOutcome, HostsTable};
use gluster_admin::menu::{main_menu, MainAction};

#[test]
fn hosts_entry_is_trimmed() {
    assert_eq!(hosts_entry(" 10.0.0.5 ", "vm5 "), "10.0.0.5 vm5");
}

#[test]
fn hosts_entry_fields() {
    assert_eq!(entry_address("127.0.0.1   localhost  localhost.localdomain"), "127.0.0.1");
    assert_eq!(entry_names("127.0.0.1   localhost  localhost.localdomain"), "localhost localhost.localdomain");
    assert_eq!(entry_address("   "), "");
    assert_eq!(entry_names("10.0.0.1"), "");
}

#[test]
fn hosts_add_replace_remove_render() {
    let mut t = HostsTable::new(vec!["127.0.0.1 localhost".to_string(), "  10.0.0.1 vm1 ".to_string()]);
    assert_eq!(t.add("10.0.0.1", "vm1"), AddOutcome::AlreadyPresent);
    assert_eq!(t.entries.len(), 2);
    assert_eq!(t.add("10.0.0.2", " vm2"), AddOutcome::Added);
    assert_eq!(t.entries[2], "10.0.0.2 vm2");
    t.replace(1, "10.0.0.9", "vm9");
    assert_eq!(t.entries[1], "10.0.0.9 vm9");
    t.remove(0);
    assert_eq!(t.render(), "10.0.0.9 vm9\n10.0.0.2 vm2\n");
    assert_eq!(HostsTable::new(Vec::new()).render(), "");
}

#[test]
fn menus_by_role() {
    assert_eq!(
        main_menu(true),
        vec![
            MainAction::EditHosts,
            MainAction::ManageBricks,
            MainAction::AddPeer,
            MainAction::CreateVolume,
            MainAction::ClusterStatus,
            MainAction::ManageVolumes,
            MainAction::MountVolume,
            MainAction::ManageMounts,
            MainAction::Exit,
        ]
    );
    assert_eq!(
        main_menu(false),
        vec![MainAction::EditHosts, MainAction::ManageBricks, MainAction::MountVolume, MainAction::ManageMounts, MainAction::Exit]
    );
}
