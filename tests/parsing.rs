use gluster_admin::parse::{
    check_force_migration, parse_bricks, parse_mount_line, parse_mount_table, parse_peers,
    parse_volume_list, parse_volume_names, value_of_line, LineKind,
};
use gluster_admin::text::{fields, lines, trim_str};

const VOLUME_INFO: &str = "\nVolume Name: gv0\nType: Replicate\nVolume ID: 1234\nStatus: Started\nNumber of Bricks: 1 x 3 = 3\nTransport-type: tcp\nBricks:\nBrick1: vm1:/gluster/b1\nBrick2: vm2:/gluster/b1\nBrick3: vm3:/gluster/b1\nOptions Reconfigured:\ntransport.address-family: inet\n";

#[test]
fn lines_split_like_std() {
    let text = "a\r\nb\n\nc\r";
    let ls = lines(text);
    let expected: Vec<String> = text.lines().map(|l| l.to_string()).collect();
    assert_eq!(ls, expected);
    assert_eq!(ls, vec!["a", "b", "", "c\r"]);
    assert!(lines("").is_empty());
    assert_eq!(lines("x\n"), vec!["x"]);
}

#[test]
fn fields_split_on_whitespace() {
    assert_eq!(fields("  a \t b\u{a0}c  "), vec!["a", "b", "c"]);
    assert!(fields("   ").is_empty());
}

#[test]
fn trim_removes_unicode_whitespace() {
    assert_eq!(trim_str("\u{3000} x y \n"), "x y");
    assert_eq!(trim_str("   "), "");
}

#[test]
fn peers_are_read_from_hostname_lines() {
    let text = "Number of Peers: 2\n\nHostname: vm2\nUuid: 11\nState: Peer in Cluster (Connected)\n\n  Hostname: vm3\nUuid: 22\n";
    assert_eq!(parse_peers(text), vec!["vm2", "vm3"]);
    assert!(parse_peers("Number of Peers: 0\n").is_empty());
}

#[test]
fn volume_names_keep_their_order() {
    let text = "Volume Name: vol-a\nType: Distribute\nStatus: Started\nVolume Name: vol-b\n";
    assert_eq!(parse_volume_names(text), vec!["vol-a", "vol-b"]);
}

#[test]
fn volume_names_are_trimmed() {
    assert_eq!(parse_volume_names("Volume Name:  gv0  \n"), vec!["gv0"]);
    assert!(parse_volume_names("  Volume Name: indented\n").is_empty());
}

#[test]
fn bricks_come_in_listed_order_among_other_lines() {
    assert_eq!(
        parse_bricks(VOLUME_INFO),
        vec!["vm1:/gluster/b1", "vm2:/gluster/b1", "vm3:/gluster/b1"]
    );
}

#[test]
fn bricks_ignore_lines_without_a_number() {
    let text = "Bricks:\nBrickX: a:/b\nBrick: c:/d\n  Brick12:  e:/f  \nBrick7 g:/h\n";
    assert_eq!(parse_bricks(text), vec!["e:/f"]);
}

#[test]
fn brick_line_value() {
    assert_eq!(value_of_line(LineKind::Brick, "Brick2: vm2:/x"), Some("vm2:/x".to_string()));
    assert_eq!(value_of_line(LineKind::Brick, "Number of Bricks: 3"), None);
}

#[test]
fn volume_list_skips_blank_lines() {
    assert_eq!(parse_volume_list("gv0\n\n  gv1 \n"), vec!["gv0", "gv1"]);
    assert!(parse_volume_list("").is_empty());
}

#[test]
fn mount_line_reads_first_and_third_fields() {
    let e = parse_mount_line("vm1:/gv0 on /media/data type fuse.glusterfs (rw,relatime)").unwrap();
    assert_eq!(e.source, "vm1:/gv0");
    assert_eq!(e.target, "/media/data");
    let short = parse_mount_line("vm1:/gv0 on /media/data").unwrap();
    assert_eq!(short.source, e.source);
    assert_eq!(short.target, e.target);
    assert!(parse_mount_line("only two").is_none());
}

#[test]
fn mount_table_keeps_matching_lines() {
    let table = "proc on /proc type proc (rw)\nvm1:/gv0 on /media/data type fuse.glusterfs (rw)\nbroken /media/\nvm2:/gv1 on /media/other type fuse.glusterfs (rw,allow_other)\n";
    let entries = parse_mount_table(table, " /media/");
    assert_eq!(entries.len(), 2);
    assert_eq!(entries[0].source, "vm1:/gv0");
    assert_eq!(entries[0].target, "/media/data");
    assert_eq!(entries[1].source, "vm2:/gv1");
    assert_eq!(entries[1].target, "/media/other");
}

#[test]
fn force_migration_on_off_and_unknown() {
    let on = "Option                                  Value\n------                                  -----\ncluster.force-migration                 on\n";
    let off = "Option   Value\ncluster.force-migration   off\n";
    assert_eq!(check_force_migration(on), Some(true));
    assert_eq!(check_force_migration(off), Some(false));
    assert_eq!(check_force_migration("volume get: failed: Volume gv9 does not exist\n"), None);
    assert_eq!(check_force_migration("cluster.force-migration   maybe\n"), None);
}

#[test]
fn parsing_twice_gives_the_same_values() {
    assert_eq!(parse_bricks(VOLUME_INFO), parse_bricks(VOLUME_INFO));
    assert_eq!(parse_volume_names(VOLUME_INFO), parse_volume_names(VOLUME_INFO));
    let t = "vm1:/gv0 on /media/data type fuse.glusterfs (rw)\n";
    let a = parse_mount_table(t, " /media/");
    let b = parse_mount_table(t, " /media/");
    assert_eq!(a.len(), b.len());
    assert_eq!(a[0].source, b[0].source);
    assert_eq!(a[0].target, b[0].target);
}
