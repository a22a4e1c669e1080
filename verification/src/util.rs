//! Defaults, and small decisions about paths, times and names.

use crate::error::Error;
use crate::json::{Fields, Json, JsonValue};
use crate::number::{decimal, decimal_text};
use crate::text::{
    begins_with, cat3, cat4, chars_of, is_white, same_text, strip_prefix, text_of, trim, trimmed,
    trimming_takes_white_space_from_the_ends,
};
use vstd::prelude::*;
use vstd::string::*;

pub use crate::ansi::strip_ansi;
pub use crate::printing::{emit_message, print_json, JsonOutput};

verus! {

pub const DEFAULT_PORT: u16 = 22;

pub const DEFAULT_READY_TIMEOUT_MS: u64 = 20_000;

pub const DEFAULT_COLS: u32 = 120;

pub const DEFAULT_ROWS: u32 = 40;

pub const DEFAULT_LIMIT: usize = 8_000;

pub const DEFAULT_WAIT_MS: u64 = 250;

pub const DEFAULT_TIMEOUT_MS: u64 = 30_000;

/// How results are printed.
#[derive(Debug, Clone, Copy, PartialEq, Eq, Structural)]
pub enum OutputFormat {
    /// As JSON, the same as `--json`.
    Json,
    /// As plain text: stdout to stdout, stderr to stderr.
    Text,
}

// ---------------------------------------------------------------------------
// Trusted: the clock
// ---------------------------------------------------------------------------

/// A point in time of the system's clock.
#[verifier::external_type_specification]
#[verifier::external_body]
pub struct ExSystemTime(std::time::SystemTime);

/// That a point in time lies before another.
#[verifier::external_type_specification]
#[verifier::external_body]
pub struct ExSystemTimeError(std::time::SystemTimeError);

/// `SystemTime::now`: what the clock shows. Nothing is said of it.
pub assume_specification[ std::time::SystemTime::now ]() -> std::time::SystemTime
;

/// `SystemTime::duration_since`: the time from one point to another, or an error
/// where it runs backwards. Which, stays unsaid.
pub assume_specification[ std::time::SystemTime::duration_since ](
    this: &std::time::SystemTime,
    earlier: std::time::SystemTime,
) -> Result<std::time::Duration, std::time::SystemTimeError>
;

/// `Duration::as_millis`: the whole milliseconds of a duration. A duration has at
/// most as many seconds as fit in a `u64`, and less than one second more.
pub assume_specification[ std::time::Duration::as_millis ](d: &std::time::Duration) -> (ms: u128)
    ensures
        ms <= MAX_MILLIS,
;

/// `SystemTime::UNIX_EPOCH`: the start of 1970.
#[verifier::external_body]
fn unix_epoch() -> std::time::SystemTime {
    std::time::SystemTime::UNIX_EPOCH
}

/// The most milliseconds that a duration can have.
pub const MAX_MILLIS: u128 = 18_446_744_073_709_551_615_999;

/// The milliseconds since 1970, given the time since then where the clock shows a
/// later time.
pub fn millis_or_zero(since_epoch: Option<u128>) -> (r: u128)
    ensures
        r == match since_epoch {
            Some(ms) => ms,
            None => 0,
        },
{
    match since_epoch {
        Some(ms) => ms,
        None => 0,
    }
}

/// The milliseconds since 1970, or 0 where the clock shows an earlier time.
pub fn now_ms() -> (r: u128)
    ensures
        r <= MAX_MILLIS,
{
    let since_epoch = match std::time::SystemTime::now().duration_since(unix_epoch()) {
        Ok(d) => Some(d.as_millis()),
        Err(_) => None,
    };
    millis_or_zero(since_epoch)
}

// ---------------------------------------------------------------------------
// Paths
// ---------------------------------------------------------------------------

/// What a path is that may begin with `~`.
#[derive(Debug)]
pub enum HomePath {
    /// A path as it is.
    Itself,
    /// The home directory.
    Home,
    /// A path in the home directory.
    Under(String),
}

/// What a path is that may begin with `~`: the home directory, a path in it, or
/// neither.
pub open spec fn home_path(path: Seq<char>, r: HomePath) -> bool {
    if path == "~"@ {
        r == HomePath::Home
    } else if begins_with(path, "~/"@) {
        r matches HomePath::Under(rest) && rest@ == path.skip("~/"@.len() as int)
    } else {
        r == HomePath::Itself
    }
}

/// What a path is that may begin with `~`.
pub fn expand_home(path: &str) -> (r: HomePath)
    ensures
        home_path(path@, r),
{
    if same_text(path, "~") {
        return HomePath::Home;
    }
    match strip_prefix(path, "~/") {
        Some(rest) => HomePath::Under(rest),
        None => HomePath::Itself,
    }
}

/// Where the configuration is kept.
#[derive(Debug)]
pub enum ConfigDir {
    /// In the directory that `AGENTSSH_CONFIG_DIR` names.
    Given(String),
    /// In `agentssh` in the directory that `XDG_CONFIG_HOME` names.
    Xdg,
    /// In `.config/agentssh` in the home directory.
    Home,
}

/// Where the configuration is kept, given what `AGENTSSH_CONFIG_DIR` holds,
/// whether `XDG_CONFIG_HOME` is set, and whether there is a home directory. A
/// blank name counts as none.
pub open spec fn config_place(given: Option<String>, has_xdg: bool, has_home: bool) -> Result<
    ConfigDir,
    Error,
> {
    if given is Some && trimmed(given->0@).len() > 0 {
        Ok(ConfigDir::Given(given->0))
    } else if has_xdg {
        Ok(ConfigDir::Xdg)
    } else if has_home {
        Ok(ConfigDir::Home)
    } else {
        Err(Error::NoConfigDir)
    }
}

/// Where the configuration is kept.
pub fn config_dir(given: Option<String>, has_xdg: bool, has_home: bool) -> (r: Result<
    ConfigDir,
    Error,
>)
    ensures
        r == config_place(given, has_xdg, has_home),
{
    if let Some(path) = given {
        if !trim(path.as_str()).as_str().is_empty() {
            return Ok(ConfigDir::Given(path));
        }
    }
    if has_xdg {
        Ok(ConfigDir::Xdg)
    } else if has_home {
        Ok(ConfigDir::Home)
    } else {
        Err(Error::NoConfigDir)
    }
}

/// A character of a name for use in a file name: letters and digits of ASCII, `-`
/// and `_` stay, and all else becomes `_`.
pub open spec fn safe_char(c: char) -> char {
    if ('a' <= c <= 'z') || ('A' <= c <= 'Z') || ('0' <= c <= '9') || c == '-' || c == '_' {
        c
    } else {
        '_'
    }
}

/// A name for use in a file name.
pub open spec fn safe_name(s: Seq<char>) -> Seq<char> {
    s.map_values(|c: char| safe_char(c))
}

/// The user's name: `USER`, or else `USERNAME`, or else `user`.
pub open spec fn user_name(user: Option<Seq<char>>, username: Option<Seq<char>>) -> Seq<char> {
    match (user, username) {
        (Some(name), _) => name,
        (None, Some(name)) => name,
        (None, None) => "user"@,
    }
}

/// The name of the daemon's socket.
pub open spec fn socket_name(user: Option<Seq<char>>, username: Option<Seq<char>>) -> Seq<char> {
    "agentssh-"@ + safe_name(user_name(user, username)) + ".sock"@
}

fn safe(s: &str) -> (r: String)
    ensures
        r@ == safe_name(s@),
{
    let v = chars_of(s);
    let mut out = String::new();
    let mut i: usize = 0;
    while i < v.len()
        invariant
            i <= v@.len(),
            v@ == s@,
            out@ == safe_name(s@.take(i as int)),
        decreases v@.len() - i,
    {
        let c = v[i];
        let kept = if ('a' <= c && c <= 'z') || ('A' <= c && c <= 'Z') || ('0' <= c && c <= '9')
            || c == '-' || c == '_' {
            c
        } else {
            '_'
        };
        out.push(kept);
        i += 1;
        assert(out@ =~= safe_name(s@.take(i as int)));
    }
    assert(s@.take(i as int) =~= s@);
    out
}

/// The name of the daemon's socket, which lies in the directory for such files.
pub fn runtime_socket_name(user: Option<String>, username: Option<String>) -> (r: String)
    ensures
        r@ == socket_name(text_of(user), text_of(username)),
{
    let name = match user {
        Some(name) => name,
        None => match username {
            Some(name) => name,
            None => "user".to_owned(),
        },
    };
    cat3("agentssh-", safe(name.as_str()).as_str(), ".sock")
}

/// The characters of a name for use in a file name mean nothing in a path, and a
/// safe name stays as it is.
pub proof fn safe_names_are_safe(s: Seq<char>)
    ensures
        safe_name(s).len() == s.len(),
        forall|i: int|
            0 <= i < s.len() ==> (#[trigger] safe_name(s)[i]) != '/' && safe_name(s)[i] != '.',
        safe_name(safe_name(s)) == safe_name(s),
{
    assert(safe_name(safe_name(s)) =~= safe_name(s));
}

/// Where the daemon writes its log, given what `AGENTSSH_LOG` holds.
pub open spec fn log_place(given: Option<Seq<char>>) -> Seq<char> {
    match given {
        Some(path) => path,
        None => "/tmp/agentssh-daemon.log"@,
    }
}

/// Where the daemon writes its log, given what `AGENTSSH_LOG` holds.
pub fn log_path(given: Option<String>) -> (r: String)
    ensures
        r@ == log_place(text_of(given)),
{
    match given {
        Some(path) => path,
        None => "/tmp/agentssh-daemon.log".to_owned(),
    }
}

/// A line of the daemon's log.
pub open spec fn logged(now: nat, message: Seq<char>) -> Seq<char> {
    "["@ + decimal(now) + "] "@ + (message + "\n"@)
}

/// A line of the daemon's log.
pub fn log_line(now: u128, message: &str) -> (r: String)
    ensures
        r@ == logged(now as nat, message@),
{
    let end = crate::text::cat2(message, "\n");
    cat4("[", decimal_text(now).as_str(), "] ", end.as_str())
}

/// The name of the file that known hosts are written to before they take the
/// place of the old ones.
pub fn temporary_name(file_name: Option<String>) -> (r: String)
    ensures
        r@ == "."@ + (match file_name {
            Some(name) => name@,
            None => "known_hosts"@,
        }) + ".agentssh.tmp"@,
{
    let name = match file_name {
        Some(name) => name,
        None => "known_hosts".to_owned(),
    };
    cat3(".", name.as_str(), ".agentssh.tmp")
}

// ---------------------------------------------------------------------------
// File attributes
// ---------------------------------------------------------------------------

/// The attributes of a file, as far as they are known.
#[derive(Debug, Clone, Copy)]
pub struct FileStat {
    pub size: Option<u64>,
    pub uid: Option<u32>,
    pub gid: Option<u32>,
    pub perm: Option<u32>,
    pub atime: Option<u64>,
    pub mtime: Option<u64>,
}

/// A number, or null where there is none.
pub open spec fn number_or_null(n: Option<u64>) -> JsonValue {
    match n {
        Some(n) => JsonValue::Number(n as int),
        None => JsonValue::Null,
    }
}

/// A shorter number as a longer one.
pub open spec fn widened(n: Option<u32>) -> Option<u64> {
    match n {
        Some(n) => Some(n as u64),
        None => None,
    }
}

fn optional(n: Option<u64>) -> (r: Json)
    ensures
        r@ == number_or_null(n),
{
    match n {
        Some(n) => Json::Uint(n),
        None => Json::Null,
    }
}

fn wide(n: Option<u32>) -> (r: Option<u64>)
    ensures
        r == widened(n),
{
    match n {
        Some(n) => Some(n as u64),
        None => None,
    }
}

/// The attributes of a file in JSON.
pub open spec fn stat_value(stat: FileStat) -> JsonValue {
    JsonValue::Object(
        seq![
            ("size"@, number_or_null(stat.size)),
            ("uid"@, number_or_null(widened(stat.uid))),
            ("gid"@, number_or_null(widened(stat.gid))),
            ("perm"@, number_or_null(widened(stat.perm))),
            ("atime"@, number_or_null(stat.atime)),
            ("mtime"@, number_or_null(stat.mtime)),
        ],
    )
}

/// The attributes of a file in JSON.
pub fn stat_json(stat: FileStat) -> (r: Json)
    ensures
        r@ == stat_value(stat),
{
    let mut f = Fields::new();
    f.put("size", optional(stat.size));
    f.put("uid", optional(wide(stat.uid)));
    f.put("gid", optional(wide(stat.gid)));
    f.put("perm", optional(wide(stat.perm)));
    f.put("atime", optional(stat.atime));
    f.put("mtime", optional(stat.mtime));
    assert(f@ =~= seq![
        ("size"@, number_or_null(stat.size)),
        ("uid"@, number_or_null(widened(stat.uid))),
        ("gid"@, number_or_null(widened(stat.gid))),
        ("perm"@, number_or_null(widened(stat.perm))),
        ("atime"@, number_or_null(stat.atime)),
        ("mtime"@, number_or_null(stat.mtime)),
    ]);
    f.object()
}

// ---------------------------------------------------------------------------
// Laws
// ---------------------------------------------------------------------------

/// A path that begins with `~/` lies in the home directory, `~` alone is the home
/// directory, and any other path is taken as it is.
pub proof fn tildes_stand_for_home(path: Seq<char>, rest: Seq<char>, r: HomePath)
    requires
        home_path(path, r),
    ensures
        path == seq!['~'] ==> r is Home,
        path == seq!['~', '/'] + rest ==> (r matches HomePath::Under(inner) && inner@ == rest),
        path.len() == 0 || path[0] != '~' ==> r is Itself,
        path.len() > 1 && path[0] == '~' && path[1] != '/' ==> r is Itself,
{
    reveal_strlit("~");
    reveal_strlit("~/");
    assert("~"@ =~= seq!['~']);
    assert("~/"@ =~= seq!['~', '/']);
    if path == seq!['~', '/'] + rest {
        assert(path.take(2) =~= "~/"@);
        assert(path.skip(2) =~= rest);
        assert(path.len() != 1);
    }
    if begins_with(path, "~/"@) {
        assert(path.take(2)[0] == '~' && path.take(2)[1] == '/');
    }
}

/// Where the configuration is kept: in the directory that was named, unless its
/// name is blank; else with that of other programs; else in the home directory.
pub proof fn configuration_is_kept_where_it_was_asked_for(
    given: String,
    has_xdg: bool,
    has_home: bool,
)
    ensures
        (exists|i: int| 0 <= i < given@.len() && !is_white(#[trigger] given@[i])) ==> config_place(
            Some(given),
            has_xdg,
            has_home,
        ) == Ok::<ConfigDir, Error>(ConfigDir::Given(given)),
        (forall|i: int| 0 <= i < given@.len() ==> is_white(#[trigger] given@[i])) ==> config_place(
            Some(given),
            has_xdg,
            has_home,
        ) == config_place(None, has_xdg, has_home),
        has_xdg ==> config_place(None, has_xdg, has_home) == Ok::<ConfigDir, Error>(ConfigDir::Xdg),
        !has_xdg && has_home ==> config_place(None, has_xdg, has_home) == Ok::<ConfigDir, Error>(
            ConfigDir::Home,
        ),
        !has_xdg && !has_home ==> config_place(None, has_xdg, has_home) is Err,
{
    let (i, j) = trimming_takes_white_space_from_the_ends(given@);
    if exists|i: int| 0 <= i < given@.len() && !is_white(#[trigger] given@[i]) {
        let k = choose|k: int| 0 <= k < given@.len() && !is_white(#[trigger] given@[k]);
        assert(i <= k < j);
    }
    if (forall|i: int| 0 <= i < given@.len() ==> is_white(#[trigger] given@[i])) && i < j {
        assert(trimmed(given@)[0] == given@[i]);
    }
}

/// In the name of the socket, letters, digits, `-` and `_` of the user's name
/// stay, and each other character gives way to `_`.
pub proof fn socket_names_keep_what_is_safe(name: Seq<char>, i: int)
    requires
        0 <= i < name.len(),
    ensures
        safe_name(name).len() == name.len(),
        ('a' <= name[i] <= 'z') || ('A' <= name[i] <= 'Z') || ('0' <= name[i] <= '9') || name[i]
            == '-' || name[i] == '_' ==> safe_name(name)[i] == name[i],
        !(('a' <= name[i] <= 'z') || ('A' <= name[i] <= 'Z') || ('0' <= name[i] <= '9') || name[i]
            == '-' || name[i] == '_') ==> safe_name(name)[i] == '_',
        user_name(Some(name), None) == name,
        user_name(None, Some(name)) == name,
        user_name(None, None) == "user"@,
        forall|other: Seq<char>| #[trigger] user_name(Some(name), Some(other)) == name,
{
}

/// The socket and the log have their places, and a line of the log begins with
/// the time and ends with the line.
pub proof fn places_and_lines(user: Seq<char>, path: Seq<char>, now: nat, message: Seq<char>)
    ensures
        socket_name(Some(user), None) == "agentssh-"@ + safe_name(user) + ".sock"@,
        socket_name(None, Some(user)) == "agentssh-"@ + safe_name(user) + ".sock"@,
        log_place(Some(path)) == path,
        log_place(None) == "/tmp/agentssh-daemon.log"@,
        logged(now, message) == seq!['['] + decimal(now) + seq![']', ' '] + message + seq!['\n'],
{
    reveal_strlit("[");
    reveal_strlit("] ");
    reveal_strlit("\n");
    assert("["@ =~= seq!['[']);
    assert("] "@ =~= seq![']', ' ']);
    assert("\n"@ =~= seq!['\n']);
    assert(logged(now, message) =~= seq!['['] + decimal(now) + seq![']', ' '] + message + seq![
        '\n',
    ]);
}

/// The attributes of a file are shown as they are known.
pub proof fn attributes_are_shown(stat: FileStat)
    ensures
        ({
            let fields = stat_value(stat)->Object_0;
            &&& stat.size is Some ==> fields.contains(
                ("size"@, JsonValue::Number(stat.size->0 as int)),
            )
            &&& stat.size is None ==> fields.contains(("size"@, JsonValue::Null))
            &&& stat.uid is Some ==> fields.contains(
                ("uid"@, JsonValue::Number(stat.uid->0 as int)),
            )
            &&& stat.gid is Some ==> fields.contains(
                ("gid"@, JsonValue::Number(stat.gid->0 as int)),
            )
            &&& stat.perm is Some ==> fields.contains(
                ("perm"@, JsonValue::Number(stat.perm->0 as int)),
            )
            &&& stat.atime is Some ==> fields.contains(
                ("atime"@, JsonValue::Number(stat.atime->0 as int)),
            )
            &&& stat.mtime is Some ==> fields.contains(
                ("mtime"@, JsonValue::Number(stat.mtime->0 as int)),
            )
        }),
{
    let f = stat_value(stat)->Object_0;
    crate::json::lemma_items(f);
    assert(f[0].0 == "size"@ && f[1].0 == "uid"@ && f[2].0 == "gid"@ && f[3].0 == "perm"@);
    assert(f[4].0 == "atime"@ && f[5].0 == "mtime"@);
}

/// What holds where nothing else is asked for.
pub proof fn defaults()
    ensures
        DEFAULT_PORT == 22,
        DEFAULT_READY_TIMEOUT_MS == 20_000,
        DEFAULT_COLS == 120,
        DEFAULT_ROWS == 40,
        DEFAULT_LIMIT == 8_000,
        DEFAULT_WAIT_MS == 250,
        DEFAULT_TIMEOUT_MS == 30_000,
{
}

} // verus!
