use btrfs_backup::retention::{split_for_retention, Entry, RetentionRun, RetentionStep};

fn entry(path: &str, modified: i128) -> Entry {
    Entry { path: path.to_string(), modified }
}

fn paths(v: &[Entry]) -> Vec<String> {
    v.iter().map(|e| e.path.clone()).collect()
}

/// Drives a run to its end; `fails_at` is the deletion attempt (counted from 0)
/// that the fake tool reports as failed. Returns the paths attempted and
/// whether the run finished.
fn drive(run: &mut RetentionRun, fails_at: Option<usize>) -> (Vec<String>, bool) {
    let mut attempted = Vec::new();
    loop {
        match run.next_step() {
            RetentionStep::Delete(p) => {
                let ok = fails_at != Some(attempted.len());
                attempted.push(p);
                run.record(ok);
            }
            RetentionStep::Finished => return (attempted, true),
            RetentionStep::Stopped => return (attempted, false),
        }
    }
}

#[test]
fn keeps_newest_entries() {
    let entries = vec![entry("c", 30), entry("a", 10), entry("d", 40), entry("b", 20)];
    let (victims, kept) = split_for_retention(entries, 2);
    assert_eq!(paths(&victims), vec!["a", "b"]);
    assert_eq!(paths(&kept), vec!["c", "d"]);
}

#[test]
fn fewer_entries_than_limit_is_no_op() {
    let entries = vec![entry("x", 5), entry("y", 1)];
    let (victims, kept) = split_for_retention(entries, 5);
    assert!(victims.is_empty());
    assert_eq!(paths(&kept), vec!["x", "y"]);
}

#[test]
fn exactly_limit_is_no_op() {
    let entries = vec![entry("x", 5), entry("y", 1), entry("z", 3)];
    let (victims, kept) = split_for_retention(entries, 3);
    assert!(victims.is_empty());
    assert_eq!(kept.len(), 3);
}

#[test]
fn zero_limit_deletes_everything() {
    let entries = vec![entry("b", 2), entry("a", 1), entry("c", 3)];
    let (victims, kept) = split_for_retention(entries, 0);
    assert_eq!(paths(&victims), vec!["a", "b", "c"]);
    assert!(kept.is_empty());
}

#[test]
fn empty_directory() {
    let (victims, kept) = split_for_retention(Vec::new(), 0);
    assert!(victims.is_empty());
    assert!(kept.is_empty());
}

#[test]
fn equal_times_delete_in_listing_order() {
    let entries = vec![entry("p", 7), entry("q", 7), entry("r", 9)];
    let (victims, kept) = split_for_retention(entries, 1);
    assert_eq!(paths(&victims), vec!["p", "q"]);
    assert_eq!(paths(&kept), vec!["r"]);
}

#[test]
fn deletion_order_is_ascending() {
    let entries = vec![
        entry("e", 50),
        entry("b", 20),
        entry("f", 60),
        entry("a", -10),
        entry("c", 30),
        entry("d", 40),
    ];
    let (victims, _) = split_for_retention(entries, 2);
    let times: Vec<i128> = victims.iter().map(|e| e.modified).collect();
    assert_eq!(times, vec![-10, 20, 30, 40]);
}

#[test]
fn second_pass_deletes_nothing() {
    let entries = vec![entry("a", 1), entry("b", 2), entry("c", 3), entry("d", 4)];
    let (_, kept) = split_for_retention(entries, 2);
    let (victims2, kept2) = split_for_retention(kept, 2);
    assert!(victims2.is_empty());
    assert_eq!(paths(&kept2), vec!["c", "d"]);
}

#[test]
fn run_deletes_oldest_first_and_finishes() {
    let entries = vec![entry("n3", 3), entry("n1", 1), entry("n4", 4), entry("n2", 2)];
    let mut run = RetentionRun::new(entries, 1);
    assert_eq!(run.planned_len(), 3);
    let (attempted, finished) = drive(&mut run, None);
    assert!(finished);
    assert_eq!(attempted, vec!["n1", "n2", "n3"]);
    assert_eq!(run.deleted(), 3);
}

#[test]
fn run_stops_at_first_failed_deletion() {
    let entries = vec![entry("a", 1), entry("b", 2), entry("c", 3), entry("d", 4)];
    let mut run = RetentionRun::new(entries, 0);
    let (attempted, finished) = drive(&mut run, Some(1));
    assert!(!finished);
    assert_eq!(attempted, vec!["a", "b"]);
    assert_eq!(run.deleted(), 1);
    assert!(matches!(run.next_step(), RetentionStep::Stopped));
}

#[test]
fn run_with_nothing_to_delete_finishes_at_once() {
    let mut run = RetentionRun::new(vec![entry("only", 1)], 5);
    assert!(matches!(run.next_step(), RetentionStep::Finished));
    let (attempted, finished) = drive(&mut run, None);
    assert!(finished);
    assert!(attempted.is_empty());
}

#[test]
fn full_run_keeps_two_newest() {
    // three earlier snapshots, then the one this run created
    let entries = vec![
        entry("home_snapshot_t2", 200),
        entry("home_snapshot_t4", 400),
        entry("home_snapshot_t1", 100),
        entry("home_snapshot_t3", 300),
    ];
    let mut run = RetentionRun::new(entries, 2);
    let (attempted, finished) = drive(&mut run, None);
    assert!(finished);
    assert_eq!(attempted, vec!["home_snapshot_t1", "home_snapshot_t2"]);
}
