//! One backup run: the commands handed to the volume tool, the paths of the
//! snapshot directories and new snapshots, and the order of the steps.
use vstd::prelude::*;
use vstd::string::StringExecFns;

verus! {

/// A command of the volume tool, to be run with elevated privilege.
pub struct PrivilegedCommand {
    pub program: String,
    pub args: Vec<String>,
}

/// The volume-management tool.
pub open spec fn volume_tool() -> Seq<char> {
    seq!['b', 't', 'r', 'f', 's']
}

pub open spec fn subvolume_word() -> Seq<char> {
    seq!['s', 'u', 'b', 'v', 'o', 'l', 'u', 'm', 'e']
}

pub open spec fn snapshot_word() -> Seq<char> {
    seq!['s', 'n', 'a', 'p', 's', 'h', 'o', 't']
}

pub open spec fn delete_word() -> Seq<char> {
    seq!['d', 'e', 'l', 'e', 't', 'e']
}

/// The arguments of `c` as character sequences.
pub open spec fn args_of(c: PrivilegedCommand) -> Seq<Seq<char>> {
    c.args@.map_values(|a: String| a@)
}

fn owned(s: &str) -> (r: String)
    ensures
        r@ == s@,
{
    String::from_str(s)
}

fn tool_program() -> (r: String)
    ensures
        r@ == volume_tool(),
{
    proof {
        reveal_strlit("btrfs");
        assert("btrfs"@ =~= volume_tool());
    }
    owned("btrfs")
}

fn subvolume_arg() -> (r: String)
    ensures
        r@ == subvolume_word(),
{
    proof {
        reveal_strlit("subvolume");
        assert("subvolume"@ =~= subvolume_word());
    }
    owned("subvolume")
}

/// The command that snapshots the subvolume at `source` into `dest`.
pub fn create_snapshot(source: &str, dest: &str) -> (r: PrivilegedCommand)
    ensures
        r.program@ == volume_tool(),
        args_of(r) == seq![subvolume_word(), snapshot_word(), source@, dest@],
{
    proof {
        reveal_strlit("snapshot");
        assert("snapshot"@ =~= snapshot_word());
    }
    let mut args: Vec<String> = Vec::new();
    args.push(subvolume_arg());
    args.push(owned("snapshot"));
    args.push(owned(source));
    args.push(owned(dest));
    let r = PrivilegedCommand { program: tool_program(), args };
    assert(args_of(r) =~= seq![subvolume_word(), snapshot_word(), source@, dest@]);
    r
}

/// The command that deletes the snapshot at `path`.
pub fn remove_snapshot(path: &str) -> (r: PrivilegedCommand)
    ensures
        r.program@ == volume_tool(),
        args_of(r) == seq![subvolume_word(), delete_word(), path@],
{
    proof {
        reveal_strlit("delete");
        assert("delete"@ =~= delete_word());
    }
    let mut args: Vec<String> = Vec::new();
    args.push(subvolume_arg());
    args.push(owned("delete"));
    args.push(owned(path));
    let r = PrivilegedCommand { program: tool_program(), args };
    assert(args_of(r) =~= seq![subvolume_word(), delete_word(), path@]);
    r
}

/// Where one run keeps and creates its snapshots.
pub struct BackupPaths {
    /// `<snapshots_dir>/home`
    pub home_dir: String,
    /// `<snapshots_dir>/root`
    pub root_dir: String,
    /// `<home_dir>/home_snapshot_<label>`
    pub home_snapshot: String,
    /// `<root_dir>/root_snapshot_<label>`
    pub root_snapshot: String,
}

pub open spec fn home_suffix() -> Seq<char> {
    seq!['/', 'h', 'o', 'm', 'e']
}

pub open spec fn root_suffix() -> Seq<char> {
    seq!['/', 'r', 'o', 'o', 't']
}

pub open spec fn home_snapshot_prefix() -> Seq<char> {
    seq!['/', 'h', 'o', 'm', 'e', '_', 's', 'n', 'a', 'p', 's', 'h', 'o', 't', '_']
}

pub open spec fn root_snapshot_prefix() -> Seq<char> {
    seq!['/', 'r', 'o', 'o', 't', '_', 's', 'n', 'a', 'p', 's', 'h', 'o', 't', '_']
}

/// The paths of a run under `dir`, with new snapshots named by `label`.
pub open spec fn paths_match(p: BackupPaths, dir: Seq<char>, label: Seq<char>) -> bool {
    &&& p.home_dir@ == dir + home_suffix()
    &&& p.root_dir@ == dir + root_suffix()
    &&& p.home_snapshot@ == dir + home_suffix() + home_snapshot_prefix() + label
    &&& p.root_snapshot@ == dir + root_suffix() + root_snapshot_prefix() + label
}

fn joined(a: &str, b: &str) -> (r: String)
    ensures
        r@ == a@ + b@,
{
    let mut r = String::from_str(a);
    r.append(b);
    r
}

/// The paths of a run under `snapshots_dir`, with new snapshots named by `label`.
pub fn backup_paths(snapshots_dir: &str, label: &str) -> (r: BackupPaths)
    ensures
        paths_match(r, snapshots_dir@, label@),
{
    proof {
        reveal_strlit("/home");
        reveal_strlit("/root");
        reveal_strlit("/home_snapshot_");
        reveal_strlit("/root_snapshot_");
        assert("/home"@ =~= home_suffix());
        assert("/root"@ =~= root_suffix());
        assert("/home_snapshot_"@ =~= home_snapshot_prefix());
        assert("/root_snapshot_"@ =~= root_snapshot_prefix());
    }
    let home_dir = joined(snapshots_dir, "/home");
    let root_dir = joined(snapshots_dir, "/root");
    let home_name = joined(home_dir.as_str(), "/home_snapshot_");
    let root_name = joined(root_dir.as_str(), "/root_snapshot_");
    let home_snapshot = joined(home_name.as_str(), label);
    let root_snapshot = joined(root_name.as_str(), label);
    BackupPaths { home_dir, root_dir, home_snapshot, root_snapshot }
}

/// The layout of a snapshot label: `%Y-%m-%d_%H-%M-%S`.
pub open spec fn label_format() -> Seq<char> {
    seq!['%', 'Y', '-', '%', 'm', '-', '%', 'd', '_', '%', 'H', '-', '%', 'M', '-', '%', 'S']
}

pub open spec fn is_digit(c: char) -> bool {
    '0' <= c && c <= '9'
}

/// `l` reads `YYYY-MM-DD_HH-MM-SS`, where the year has at least four digits and
/// may carry a sign.
pub open spec fn is_timestamp_label(l: Seq<char>) -> bool {
    let n = l.len() as int;
    &&& n >= 19
    &&& forall|i: int|
        0 <= i < n - 15 ==> #[trigger] is_digit(l[i]) || (i == 0 && (l[i] == '+' || l[i] == '-'))
    &&& l[n - 15] == '-' && is_digit(l[n - 14]) && is_digit(l[n - 13])
    &&& l[n - 12] == '-' && is_digit(l[n - 11]) && is_digit(l[n - 10])
    &&& l[n - 9] == '_' && is_digit(l[n - 8]) && is_digit(l[n - 7])
    &&& l[n - 6] == '-' && is_digit(l[n - 5]) && is_digit(l[n - 4])
    &&& l[n - 3] == '-' && is_digit(l[n - 2]) && is_digit(l[n - 1])
}

/// Relies on `chrono::Local::now` and `DateTime::format`: the local time now,
/// written in `fmt`. For this layout chrono writes the year as at least four
/// digits, with a sign outside 0 to 9999, and every other field as two digits.
#[verifier::external_body]
fn local_time_label(fmt: &str) -> (r: String)
    requires
        fmt@ == label_format(),
    ensures
        is_timestamp_label(r@),
{
    chrono::Local::now().format(fmt).to_string()
}

/// The paths of a run under `snapshots_dir`, with new snapshots named by the
/// local time now; both snapshots carry the same label.
pub fn backup_paths_now(snapshots_dir: &str) -> (r: BackupPaths)
    ensures
        exists|label: Seq<char>| is_timestamp_label(label) && #[trigger] paths_match(r, snapshots_dir@, label),
{
    proof {
        reveal_strlit("%Y-%m-%d_%H-%M-%S");
        assert("%Y-%m-%d_%H-%M-%S"@ =~= label_format());
    }
    let label = local_time_label("%Y-%m-%d_%H-%M-%S");
    let r = backup_paths(snapshots_dir, label.as_str());
    assert(is_timestamp_label(label@) && paths_match(r, snapshots_dir@, label@));
    r
}

/// The steps of a run, in order. A failed step ends the run; what earlier
/// steps did stays.
#[derive(PartialEq, Eq, Structural, Debug, Clone, Copy)]
pub enum Stage {
    MakeDirectories,
    SnapshotHome,
    SnapshotRoot,
    RetainHome,
    RetainRoot,
    Done,
    Failed,
}

/// The stage after `stage` once its work succeeded or failed.
pub open spec fn next_stage(stage: Stage, succeeded: bool) -> Stage {
    match stage {
        Stage::Done => Stage::Done,
        Stage::Failed => Stage::Failed,
        _ => if !succeeded {
            Stage::Failed
        } else {
            match stage {
                Stage::MakeDirectories => Stage::SnapshotHome,
                Stage::SnapshotHome => Stage::SnapshotRoot,
                Stage::SnapshotRoot => Stage::RetainHome,
                Stage::RetainHome => Stage::RetainRoot,
                _ => Stage::Done,
            }
        },
    }
}

impl Stage {
    /// The first step of a run.
    pub fn first() -> (r: Stage)
        ensures
            r == Stage::MakeDirectories,
    {
        Stage::MakeDirectories
    }

    /// Whether the run has ended, well or not.
    pub fn is_final(self) -> (r: bool)
        ensures
            r <==> (self == Stage::Done || self == Stage::Failed),
    {
        match self {
            Stage::Done | Stage::Failed => true,
            _ => false,
        }
    }

    /// The stage that follows once this one's work succeeded or failed.
    pub fn advance(self, succeeded: bool) -> (r: Stage)
        ensures
            r == next_stage(self, succeeded),
    {
        match self {
            Stage::Done => Stage::Done,
            Stage::Failed => Stage::Failed,
            _ => {
                if !succeeded {
                    Stage::Failed
                } else {
                    match self {
                        Stage::MakeDirectories => Stage::SnapshotHome,
                        Stage::SnapshotHome => Stage::SnapshotRoot,
                        Stage::SnapshotRoot => Stage::RetainHome,
                        Stage::RetainHome => Stage::RetainRoot,
                        _ => Stage::Done,
                    }
                }
            },
        }
    }
}

} // verus!
