use btrfs_backup::run::{backup_paths, backup_paths_now, create_snapshot, remove_snapshot, Stage};

#[test]
fn snapshot_command() {
    let c = create_snapshot("/home", "/s/home/home_snapshot_x");
    assert_eq!(c.program, "btrfs");
    assert_eq!(c.args, vec!["subvolume", "snapshot", "/home", "/s/home/home_snapshot_x"]);
}

#[test]
fn delete_command() {
    let c = remove_snapshot("/s/root/old");
    assert_eq!(c.program, "btrfs");
    assert_eq!(c.args, vec!["subvolume", "delete", "/s/root/old"]);
}

#[test]
fn paths_of_a_run() {
    let p = backup_paths("/var/snaps", "2024-01-02_03-04-05");
    assert_eq!(p.home_dir, "/var/snaps/home");
    assert_eq!(p.root_dir, "/var/snaps/root");
    assert_eq!(p.home_snapshot, "/var/snaps/home/home_snapshot_2024-01-02_03-04-05");
    assert_eq!(p.root_snapshot, "/var/snaps/root/root_snapshot_2024-01-02_03-04-05");
}

#[test]
fn paths_now_share_a_label() {
    let p = backup_paths_now("/s");
    let home_label = p.home_snapshot.strip_prefix("/s/home/home_snapshot_").unwrap();
    let root_label = p.root_snapshot.strip_prefix("/s/root/root_snapshot_").unwrap();
    assert_eq!(home_label, root_label);
    assert_eq!(home_label.len(), 19);
    let b = home_label.as_bytes();
    assert_eq!((b[4], b[7], b[10], b[13], b[16]), (b'-', b'-', b'_', b'-', b'-'));
}

#[test]
fn stages_in_order() {
    let mut s = Stage::first();
    let mut seen = vec![s];
    while !s.is_final() {
        s = s.advance(true);
        seen.push(s);
    }
    assert_eq!(
        seen,
        vec![
            Stage::MakeDirectories,
            Stage::SnapshotHome,
            Stage::SnapshotRoot,
            Stage::RetainHome,
            Stage::RetainRoot,
            Stage::Done
        ]
    );
}

#[test]
fn failure_ends_the_run() {
    let s = Stage::first().advance(true).advance(false);
    assert_eq!(s, Stage::Failed);
    assert!(s.is_final());
    assert_eq!(s.advance(true), Stage::Failed);
    assert_eq!(Stage::Done.advance(false), Stage::Done);
}
