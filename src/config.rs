//! Settings of a run: read from an optional TOML document, with defaults for
//! what is missing or of the wrong type, and the snapshot directory expanded.
use vstd::prelude::*;
use vstd::std_specs::iter::IteratorSpec;
use vstd::string::StringExecFns;

verus! {

/// How many snapshots of each kind are kept when the settings do not say.
pub const DEFAULT_BACKUPS_TO_KEEP: usize = 5;

/// The snapshot directory when the settings do not say, before expansion.
pub open spec fn default_snapshots_dir() -> Seq<char> {
    seq!['~', '/', '.', 's', 'n', 'a', 'p', 's', 'h', 'o', 't', 's']
}

/// The settings file, relative to the user's home directory.
pub open spec fn config_file_suffix() -> Seq<char> {
    seq![
        '/', '.', 'c', 'o', 'n', 'f', 'i', 'g', '/', 'b', 't', 'r', 'f', 's', '_', 'b', 'a', 'c',
        'k', 'u', 'p', '/', 'c', 'o', 'n', 'f', 'i', 'g',
    ]
}

/// The settings as written, before the snapshot directory is expanded.
pub struct Settings {
    pub backups_to_keep: usize,
    pub snapshots_dir: String,
}

/// The settings of a run.
pub struct Config {
    pub backups_to_keep: usize,
    pub snapshots_dir: String,
}

/// Why the settings could not be had.
#[derive(PartialEq, Eq, Structural, Debug, Clone, Copy)]
pub enum ConfigError {
    /// The settings file is not a valid TOML document.
    Parse,
    /// The settings file holds more nesting marks than the parser is given.
    TooDeep,
    /// The snapshot directory could not be expanded to an absolute path.
    Path,
}

/// The most brackets, braces and dots that a settings file may hold. toml's
/// parser recurses once per level of nesting, with no limit of its own; every
/// level is opened by one of these marks, so their count bounds the depth.
pub const MAX_NESTING_MARKS: usize = 256;

/// Whether `c` can open a level of nesting in a TOML document.
pub open spec fn is_nesting_mark(c: char) -> bool {
    c == '[' || c == '{' || c == '.'
}

/// How many nesting marks `s` holds.
pub open spec fn nesting_marks(s: Seq<char>) -> nat
    decreases s.len(),
{
    if s.len() == 0 {
        0
    } else {
        nesting_marks(s.drop_last()) + if is_nesting_mark(s.last()) { 1nat } else { 0nat }
    }
}

/// Whether `text` is shallow enough to be handed to the TOML parser.
pub open spec fn shallow_enough(text: Seq<char>) -> bool {
    nesting_marks(text) <= MAX_NESTING_MARKS
}

/// Whether toml's parser accepts `text` as a document.
pub uninterp spec fn toml_accepts(text: Seq<char>) -> bool;

/// The integer under `key` at the top of the TOML document `text`, if there is one.
pub uninterp spec fn toml_integer_at(text: Seq<char>, key: Seq<char>) -> Option<i64>;

/// The string under `key` at the top of the TOML document `text`, if there is one.
pub uninterp spec fn toml_string_at(text: Seq<char>, key: Seq<char>) -> Option<Seq<char>>;

/// The view of an optional string.
pub open spec fn text_view(o: Option<String>) -> Option<Seq<char>> {
    match o {
        Some(s) => Some(s@),
        None => None,
    }
}

/// Relies on toml's document parser (`<toml::Value as FromStr>::from_str`)
/// with `Value::get` and `Value::as_integer`: `None` where the text is not a
/// document, else the integer under `key`, if any. Both depend on the text alone.
#[verifier::external_body]
fn integer_setting(text: &str, key: &str) -> (r: Option<Option<i64>>)
    requires
        shallow_enough(text@),
    ensures
        r is Some <==> toml_accepts(text@),
        r is Some ==> r->0 == toml_integer_at(text@, key@),
{
    text.parse::<toml::Value>().ok().map(|doc| doc.get(key).and_then(toml::Value::as_integer))
}

/// Relies on toml's document parser (`<toml::Value as FromStr>::from_str`)
/// with `Value::get` and `Value::as_str`: `None` where the text is not a
/// document, else the string under `key`, if any. Both depend on the text alone.
#[verifier::external_body]
fn string_setting(text: &str, key: &str) -> (r: Option<Option<String>>)
    requires
        shallow_enough(text@),
    ensures
        r is Some <==> toml_accepts(text@),
        r is Some ==> text_view(r->0) == toml_string_at(text@, key@),
{
    text.parse::<toml::Value>().ok().map(
        |doc| doc.get(key).and_then(toml::Value::as_str).map(|v| v.to_string()),
    )
}

/// Whether `text` holds at most `MAX_NESTING_MARKS` nesting marks.
pub fn is_shallow_enough(text: &str) -> (r: bool)
    ensures
        r == shallow_enough(text@),
{
    let ghost all = text@;
    let mut it = text.chars();
    let ghost mut k: int = 0;
    let mut count: usize = 0;
    loop
        invariant
            all == text@,
            0 <= k <= all.len(),
            it.remaining() == all.skip(k),
            count as nat == if nesting_marks(all.take(k)) <= MAX_NESTING_MARKS {
                nesting_marks(all.take(k))
            } else {
                (MAX_NESTING_MARKS + 1) as nat
            },
        decreases all.len() - k,
    {
        let ghost before = it;
        match it.next() {
            None => {
                proof {
                    assert(all.skip(k).len() == 0);
                    assert(all.take(k) =~= all);
                }
                return count <= MAX_NESTING_MARKS;
            },
            Some(c) => {
                proof {
                    assert(c == all[k]);
                    assert(all.take(k + 1).drop_last() =~= all.take(k));
                    assert(all.skip(k).drop_first() =~= all.skip(k + 1));
                    k = k + 1;
                }
                if (c == '[' || c == '{' || c == '.') && count <= MAX_NESTING_MARKS {
                    count = count + 1;
                }
            },
        }
    }
}

/// Whether `s` begins with the home-directory shorthand `~`.
pub open spec fn starts_with_tilde(s: Seq<char>) -> bool {
    s.len() > 0 && s[0] == '~'
}

/// Relies on `expanduser::expanduser`: a path that does not begin with `~` comes
/// back as it is; one that does has `~` or `~user` replaced by a home directory
/// found in the environment. `None` where that lookup fails or the result is
/// not valid UTF-8.
#[verifier::external_body]
fn expand_user(s: &str) -> (r: Option<String>)
    ensures
        !starts_with_tilde(s@) ==> r is Some && r->0@ == s@,
{
    match expanduser::expanduser(s) {
        Ok(p) => p.into_os_string().into_string().ok(),
        Err(_) => None,
    }
}

/// The kept count that a settings entry gives: a non-negative integer that fits,
/// else the default.
pub open spec fn keep_count_of(entry: Option<i64>) -> int {
    match entry {
        Some(n) => if 0 <= n <= usize::MAX { n as int } else { DEFAULT_BACKUPS_TO_KEEP as int },
        None => DEFAULT_BACKUPS_TO_KEEP as int,
    }
}

/// The snapshot directory that a settings entry gives, else the default.
pub open spec fn snapshots_dir_of(entry: Option<Seq<char>>) -> Seq<char> {
    match entry {
        Some(s) => s,
        None => default_snapshots_dir(),
    }
}

/// The kept count that the settings document `text` gives.
pub open spec fn keep_count_in(text: Seq<char>) -> int {
    keep_count_of(toml_integer_at(text, "backups_to_keep"@))
}

/// The snapshot directory, before expansion, that the settings document `text` gives.
pub open spec fn snapshots_dir_in(text: Seq<char>) -> Seq<char> {
    snapshots_dir_of(toml_string_at(text, "snapshots_dir"@))
}

/// The kept count from the integer found under `backups_to_keep`, if any.
pub fn keep_count_from(entry: Option<i64>) -> (r: usize)
    ensures
        r == keep_count_of(entry),
{
    match entry {
        Some(n) => {
            if n >= 0 && (n as u64) <= (usize::MAX as u64) {
                n as usize
            } else {
                DEFAULT_BACKUPS_TO_KEEP
            }
        },
        None => DEFAULT_BACKUPS_TO_KEEP,
    }
}

/// The default snapshot directory, before expansion.
pub fn default_snapshots_dir_string() -> (r: String)
    ensures
        r@ == default_snapshots_dir(),
{
    proof {
        reveal_strlit("~/.snapshots");
    }
    String::from_str("~/.snapshots")
}

/// Settings from the entries found under `backups_to_keep` (if an integer) and
/// `snapshots_dir` (if a string); each missing one takes its default.
pub fn settings_from_entries(keep: Option<i64>, dir: Option<String>) -> (r: Settings)
    ensures
        r.backups_to_keep == keep_count_of(keep),
        r.snapshots_dir@ == snapshots_dir_of(text_view(dir)),
{
    let snapshots_dir = match dir {
        Some(s) => s,
        None => default_snapshots_dir_string(),
    };
    Settings { backups_to_keep: keep_count_from(keep), snapshots_dir }
}

/// The default settings, used when there is no settings file.
pub fn default_settings() -> (r: Settings)
    ensures
        r.backups_to_keep == DEFAULT_BACKUPS_TO_KEEP,
        r.snapshots_dir@ == default_snapshots_dir(),
{
    settings_from_entries(None, None)
}

/// Reads the settings from the contents of the settings file, or gives the
/// defaults where there is none. Only `backups_to_keep` and `snapshots_dir` are
/// read; an entry that is missing or of another type keeps its default. A file
/// that nests too deeply or is not valid TOML is an error.
pub fn read_settings(file: Option<String>) -> (r: Result<Settings, ConfigError>)
    ensures
        file is None ==> r is Ok && r->Ok_0.backups_to_keep == DEFAULT_BACKUPS_TO_KEEP
            && r->Ok_0.snapshots_dir@ == default_snapshots_dir(),
        file is Some ==> (r == Err::<Settings, ConfigError>(ConfigError::TooDeep) <==> !shallow_enough(
            file->0@,
        )),
        file is Some && shallow_enough(file->0@) ==> (r == Err::<Settings, ConfigError>(
            ConfigError::Parse,
        ) <==> !toml_accepts(file->0@)),
        file is Some && shallow_enough(file->0@) && toml_accepts(file->0@) ==> r is Ok
            && r->Ok_0.backups_to_keep == keep_count_in(file->0@) && r->Ok_0.snapshots_dir@
            == snapshots_dir_in(file->0@),
{
    match file {
        None => Ok(default_settings()),
        Some(text) => {
            if !is_shallow_enough(text.as_str()) {
                return Err(ConfigError::TooDeep);
            }
            let keep = match integer_setting(text.as_str(), "backups_to_keep") {
                Some(k) => k,
                None => {
                    return Err(ConfigError::Parse);
                },
            };
            let dir = match string_setting(text.as_str(), "snapshots_dir") {
                Some(d) => d,
                None => {
                    return Err(ConfigError::Parse);
                },
            };
            Ok(settings_from_entries(keep, dir))
        },
    }
}

/// The configuration from settings and the expanded snapshot directory, if the
/// expansion succeeded.
pub fn config_from_settings(settings: Settings, expanded: Option<String>) -> (r: Result<
    Config,
    ConfigError,
>)
    ensures
        expanded is None ==> r == Err::<Config, ConfigError>(ConfigError::Path),
        expanded is Some ==> r is Ok && r->Ok_0.backups_to_keep == settings.backups_to_keep
            && r->Ok_0.snapshots_dir == expanded->0,
{
    match expanded {
        Some(d) => Ok(Config { backups_to_keep: settings.backups_to_keep, snapshots_dir: d }),
        None => Err(ConfigError::Path),
    }
}

/// The configuration of a run from the contents of the settings file, if there
/// is one: the settings, with the snapshot directory expanded. A directory that
/// does not begin with `~` is taken as it is; one that does is expanded from the
/// environment, and `Path` is the error where that fails.
pub fn load_config(file: Option<String>) -> (r: Result<Config, ConfigError>)
    ensures
        file is None ==> (r is Ok ==> r->Ok_0.backups_to_keep == DEFAULT_BACKUPS_TO_KEEP),
        file is None ==> (r is Err ==> r->Err_0 == ConfigError::Path),
        file is Some ==> (r == Err::<Config, ConfigError>(ConfigError::TooDeep) <==> !shallow_enough(
            file->0@,
        )),
        file is Some && shallow_enough(file->0@) ==> (r == Err::<Config, ConfigError>(
            ConfigError::Parse,
        ) <==> !toml_accepts(file->0@)),
        file is Some && shallow_enough(file->0@) && toml_accepts(file->0@) ==> {
            &&& r is Ok ==> r->Ok_0.backups_to_keep == keep_count_in(file->0@)
            &&& r is Err ==> r->Err_0 == ConfigError::Path
            &&& !starts_with_tilde(snapshots_dir_in(file->0@)) ==> r is Ok
                && r->Ok_0.snapshots_dir@ == snapshots_dir_in(file->0@)
        },
{
    let settings = match read_settings(file) {
        Ok(s) => s,
        Err(e) => {
            return Err(e);
        },
    };
    let expanded = expand_user(settings.snapshots_dir.as_str());
    config_from_settings(settings, expanded)
}

/// The path of the settings file under the home directory `home`.
pub fn config_file_path(home: &str) -> (r: String)
    ensures
        r@ == home@ + config_file_suffix(),
{
    proof {
        reveal_strlit("/.config/btrfs_backup/config");
        assert("/.config/btrfs_backup/config"@ =~= config_file_suffix());
    }
    let mut r = String::from_str(home);
    r.append("/.config/btrfs_backup/config");
    r
}

} // verus!
